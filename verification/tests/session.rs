use romview::annotation::Annotation;
use romview::drag::{Action, DragOp, Modifiers, MouseButton, MouseState};
use romview::view::ConfigError;
use romview::viz::{initial_window_size, Key, KeyAction, Visualizer};

type Pos = (f64, f64);
type Pan = (f32, f32);
type Viz<'a> = Visualizer<'a, Pos, Pan>;

fn shift() -> Modifiers {
    let mut m = Modifiers::none();
    m.shift = true;
    m
}

/// What the caller of the session does with a pointer position: undo pan
/// and zoom, and round down.
fn logical(pos: Pos, pan: Pan, zoom: f32) -> (i64, i64) {
    let x = (pos.0 + pan.0 as f64) / zoom as f64;
    let y = (pos.1 + pan.1 as f64) / zoom as f64;
    (x.floor() as i64, y.floor() as i64)
}

/// One pointer move as the caller of the session handles it.
fn move_to(viz: &mut Viz, pos: Pos, pan: Pan, zoom: f32) {
    let changed = viz.mouse_state().last_pos != pos;
    match viz.on_pointer_move(pos, changed) {
        DragOp::Selecting { anchor } => {
            viz.drag_select(logical(anchor, pan, zoom), logical(pos, pan, zoom));
        }
        _ => {}
    }
}

fn press(viz: &mut Viz, button: MouseButton, modifiers: Modifiers, pos: Pos) {
    viz.on_button(button, Action::Press, modifiers, pos, (0.0, 0.0));
}

fn release(viz: &mut Viz, pos: Pos) {
    viz.on_button(MouseButton::Left, Action::Release, Modifiers::none(), pos, (0.0, 0.0));
}

#[test]
fn a_fresh_session() {
    let data = vec![7u8; 20000];
    let viz: Viz = Visualizer::new(&data, (0.0, 0.0)).unwrap();
    let frame = viz.frame();
    assert_eq!(frame.col_width, 8);
    assert_eq!(frame.col_height, 512);
    assert_eq!(frame.col_spacing, 4);
    assert_eq!(frame.data_len, 20000);
    assert_eq!(frame.data_offset, 0);
    assert_eq!(frame.bits_per_pixel, 1);
    assert_eq!((frame.selection_start, frame.selection_end), (0, 0));
    assert_eq!(frame.tex_width, 16384);
    assert_eq!(frame.tex_height, 2);
    assert_eq!(viz.selection(), (0, 0));
    assert!(viz.annotations().is_none());
    assert_eq!(viz.overlay().len(), 2 * 16384);
    assert!(viz.overlay().iter().all(|b| *b == 0));
    assert_eq!(viz.data().len(), 20000);
    let tiles = viz.data_tiles();
    assert_eq!(tiles.len(), 2 * 16384);
    assert_eq!(tiles[19999], 7);
    assert_eq!(tiles[20000], 0);
    assert!(matches!(viz.mouse_state().op, DragOp::NoOp));
    assert!(!viz.mouse_state().moved);
}

#[test]
fn a_click_clears_the_selection() {
    let data = vec![0u8; 4096];
    let mut viz: Viz = Visualizer::new(&data, (0.0, 0.0)).unwrap();
    viz.set_selection(3, 9);
    assert_eq!(viz.selection(), (3, 9));
    press(&mut viz, MouseButton::Left, Modifiers::none(), (10.0, 10.0));
    assert_eq!(viz.selection(), (3, 9));
    release(&mut viz, (10.0, 10.0));
    assert_eq!(viz.selection(), (0, 0));
    assert!(matches!(viz.mouse_state().op, DragOp::NoOp));
}

#[test]
fn a_click_with_a_move_to_the_same_place_is_still_a_click() {
    let data = vec![0u8; 4096];
    let mut viz: Viz = Visualizer::new(&data, (0.0, 0.0)).unwrap();
    viz.set_selection(3, 9);
    press(&mut viz, MouseButton::Left, Modifiers::none(), (200.0, 10.0));
    move_to(&mut viz, (200.0, 10.0), (0.0, 0.0), 1.0);
    assert!(!viz.mouse_state().moved);
    release(&mut viz, (200.0, 10.0));
    assert_eq!(viz.selection(), (0, 0));
}

#[test]
fn a_drag_selects_in_byte_order() {
    let data = vec![0u8; 4096];
    let mut viz: Viz = Visualizer::new(&data, (0.0, 0.0)).unwrap();
    press(&mut viz, MouseButton::Left, Modifiers::none(), (10.0, 10.0));
    move_to(&mut viz, (60.0, 10.0), (0.0, 0.0), 1.0);
    release(&mut viz, (60.0, 10.0));
    assert_eq!(viz.selection(), (10, 2570));

    press(&mut viz, MouseButton::Left, Modifiers::none(), (60.0, 10.0));
    move_to(&mut viz, (10.0, 10.0), (0.0, 0.0), 1.0);
    release(&mut viz, (10.0, 10.0));
    assert_eq!(viz.selection(), (10, 2570));
}

#[test]
fn a_drag_to_the_right_and_up_is_ordered_by_bytes_not_pixels() {
    let data = vec![0u8; 4096];
    let mut viz: Viz = Visualizer::new(&data, (0.0, 0.0)).unwrap();
    press(&mut viz, MouseButton::Left, Modifiers::none(), (12.0, 300.0));
    move_to(&mut viz, (0.0, 400.0), (0.0, 0.0), 1.0);
    release(&mut viz, (0.0, 400.0));
    assert_eq!(viz.selection(), (400, 812));
}

#[test]
fn a_drag_under_pan_and_zoom() {
    let data = vec![0u8; 4096];
    let mut viz: Viz = Visualizer::new(&data, (0.0, 0.0)).unwrap();
    viz.on_button(MouseButton::Left, Action::Press, Modifiers::none(), (4.0, 8.0), (20.0, 0.0));
    move_to(&mut viz, (28.0, 20.0), (20.0, 0.0), 2.0);
    release(&mut viz, (28.0, 20.0));
    // (4 + 20) / 2 = 12, 8 / 2 = 4: byte 516; (28 + 20) / 2 = 24, 20 / 2 = 10: byte 1034.
    assert_eq!(viz.selection(), (516, 1034));
}

#[test]
fn a_drag_that_loses_an_end_keeps_the_selection() {
    let data = vec![0u8; 4096];
    let mut viz: Viz = Visualizer::new(&data, (0.0, 0.0)).unwrap();
    press(&mut viz, MouseButton::Left, Modifiers::none(), (10.0, 10.0));
    move_to(&mut viz, (60.0, 10.0), (0.0, 0.0), 1.0);
    assert_eq!(viz.selection(), (10, 2570));
    move_to(&mut viz, (60.0, 600.0), (0.0, 0.0), 1.0);
    assert_eq!(viz.selection(), (10, 2570));
    move_to(&mut viz, (-5.0, 10.0), (0.0, 0.0), 1.0);
    assert_eq!(viz.selection(), (10, 2570));
    move_to(&mut viz, (5000.0, 10.0), (0.0, 0.0), 1.0);
    assert_eq!(viz.selection(), (10, 2570));
    release(&mut viz, (5000.0, 10.0));
    assert_eq!(viz.selection(), (10, 2570));
}

#[test]
fn a_drag_whose_anchor_shows_no_byte_selects_nothing() {
    let data = vec![0u8; 4096];
    let mut viz: Viz = Visualizer::new(&data, (0.0, 0.0)).unwrap();
    viz.set_selection(1, 2);
    press(&mut viz, MouseButton::Left, Modifiers::none(), (10.0, 700.0));
    move_to(&mut viz, (60.0, 10.0), (0.0, 0.0), 1.0);
    release(&mut viz, (60.0, 10.0));
    assert_eq!(viz.selection(), (1, 2));
}

#[test]
fn the_pan_modifier_and_the_other_buttons_pan() {
    let data = vec![0u8; 4096];
    let mut viz: Viz = Visualizer::new(&data, (0.0, 0.0)).unwrap();
    viz.set_selection(3, 9);
    for (button, modifiers) in [
        (MouseButton::Left, shift()),
        (MouseButton::Middle, Modifiers::none()),
        (MouseButton::Middle, shift()),
        (MouseButton::Right, Modifiers::none()),
    ] {
        viz.on_button(button, Action::Press, modifiers, (10.0, 20.0), (1.5, -2.5));
        let op = viz.on_pointer_move((30.0, 40.0), true);
        match op {
            DragOp::Panning { anchor, anchor_pan } => {
                assert_eq!(anchor, (10.0, 20.0));
                assert_eq!(anchor_pan, (1.5, -2.5));
            }
            _ => panic!("the press started no pan"),
        }
        viz.drag_select((0, 0), (0, 5));
        assert_eq!(viz.selection(), (3, 9));
        viz.on_button(button, Action::Release, modifiers, (30.0, 40.0), (0.0, 0.0));
        assert!(matches!(viz.mouse_state().op, DragOp::NoOp));
        assert_eq!(viz.selection(), (3, 9));
    }
}

#[test]
fn a_pan_click_does_not_clear_the_selection() {
    let data = vec![0u8; 4096];
    let mut viz: Viz = Visualizer::new(&data, (0.0, 0.0)).unwrap();
    viz.set_selection(3, 9);
    press(&mut viz, MouseButton::Middle, Modifiers::none(), (10.0, 20.0));
    release(&mut viz, (10.0, 20.0));
    assert_eq!(viz.selection(), (3, 9));
}

#[test]
fn shift_with_another_modifier_selects() {
    let data = vec![0u8; 4096];
    let mut viz: Viz = Visualizer::new(&data, (0.0, 0.0)).unwrap();
    let mut both = shift();
    both.control = true;
    assert!(shift().is_pan());
    assert!(!both.is_pan());
    assert!(!Modifiers::none().is_pan());
    press(&mut viz, MouseButton::Left, both, (10.0, 20.0));
    assert!(matches!(viz.mouse_state().op, DragOp::Selecting { anchor } if anchor == (10.0, 20.0)));
    let mut ctrl = Modifiers::none();
    ctrl.control = true;
    press(&mut viz, MouseButton::Left, ctrl, (11.0, 21.0));
    assert!(matches!(viz.mouse_state().op, DragOp::Selecting { anchor } if anchor == (11.0, 21.0)));
}

#[test]
fn further_buttons_start_nothing() {
    let data = vec![0u8; 4096];
    let mut viz: Viz = Visualizer::new(&data, (0.0, 0.0)).unwrap();
    viz.set_selection(3, 9);
    press(&mut viz, MouseButton::Other, Modifiers::none(), (10.0, 20.0));
    assert!(matches!(viz.mouse_state().op, DragOp::NoOp));
    assert_eq!(viz.mouse_state().last_pos, (10.0, 20.0));
    release(&mut viz, (10.0, 20.0));
    assert_eq!(viz.selection(), (3, 9));
}

#[test]
fn a_repeat_changes_nothing() {
    let data = vec![0u8; 4096];
    let mut viz: Viz = Visualizer::new(&data, (1.0, 2.0)).unwrap();
    viz.set_selection(3, 9);
    viz.on_button(MouseButton::Left, Action::Repeat, Modifiers::none(), (10.0, 20.0), (0.0, 0.0));
    assert!(matches!(viz.mouse_state().op, DragOp::NoOp));
    assert_eq!(viz.mouse_state().last_pos, (1.0, 2.0));
    assert_eq!(viz.selection(), (3, 9));
}

#[test]
fn a_press_forgets_earlier_moves() {
    let mut mouse: MouseState<Pos, Pan> = MouseState::new((0.0, 0.0));
    assert!(matches!(mouse.op, DragOp::NoOp));
    mouse.press(MouseButton::Left, Modifiers::none(), (1.0, 1.0), (0.0, 0.0));
    let op = mouse.pointer_moved((2.0, 2.0), true);
    assert!(matches!(op, DragOp::Selecting { anchor } if anchor == (1.0, 1.0)));
    assert!(mouse.moved);
    assert_eq!(mouse.last_pos, (2.0, 2.0));
    assert!(!mouse.release());
    assert!(matches!(mouse.op, DragOp::NoOp));
    mouse.press(MouseButton::Left, Modifiers::none(), (3.0, 3.0), (0.0, 0.0));
    assert!(!mouse.moved);
    mouse.pointer_moved((3.0, 3.0), false);
    assert!(mouse.release());
    assert!(!mouse.release());
}

#[test]
fn set_selection_orders_its_ends() {
    let data = vec![0u8; 4096];
    let mut viz: Viz = Visualizer::new(&data, (0.0, 0.0)).unwrap();
    viz.set_selection(9, 3);
    assert_eq!(viz.selection(), (3, 9));
    viz.set_selection(5, 5);
    assert_eq!(viz.selection(), (5, 5));
    viz.set_selection(0, u32::MAX);
    assert_eq!(viz.selection(), (0, u32::MAX));
}

#[test]
fn the_setters_of_the_session_check_their_values() {
    let data = vec![0u8; 4096];
    let mut viz: Viz = Visualizer::new(&data, (0.0, 0.0)).unwrap();
    assert_eq!(viz.set_offset(96), Ok(()));
    assert_eq!(viz.set_offset(4096), Err(ConfigError::Offset));
    assert_eq!(viz.data_view().data_bounds(), (96, 4096));
    assert_eq!(viz.set_col_width(32), Ok(()));
    assert_eq!(viz.set_col_width(0), Err(ConfigError::ZeroColumnWidth));
    assert_eq!(viz.set_col_width(33), Err(ConfigError::RaggedColumnWidth));
    viz.set_spacing(0);
    let frame = viz.frame();
    assert_eq!(frame.col_width, 32);
    assert_eq!(frame.col_spacing, 0);
    assert_eq!(frame.data_offset, 96);
    assert_eq!(frame.data_len, 4000);
    assert_eq!(frame.tex_height, 1);
}

#[test]
fn an_empty_buffer_has_no_valid_offset() {
    let data: Vec<u8> = Vec::new();
    let mut viz: Viz = Visualizer::new(&data, (0.0, 0.0)).unwrap();
    assert_eq!(viz.set_offset(0), Err(ConfigError::Offset));
    assert_eq!(viz.frame().tex_height, 0);
    assert_eq!(viz.overlay().len(), 0);
    assert!(viz.hover((0, 0)).is_none());
}

#[test]
fn keys_and_what_they_ask_for() {
    let data = vec![0u8; 4096];
    let mut viz: Viz = Visualizer::new(&data, (0.0, 0.0)).unwrap();
    assert_eq!(viz.on_key(Key::Escape), KeyAction::Close);
    assert_eq!(viz.on_key(Key::Up), KeyAction::ZoomIn);
    assert_eq!(viz.on_key(Key::Down), KeyAction::ZoomOut);
    assert_eq!(viz.on_key(Key::GraveAccent), KeyAction::Nothing);
    assert_eq!(viz.on_key(Key::Other), KeyAction::Nothing);
    assert_eq!(viz.on_key(Key::S), KeyAction::UploadOverlay);
    let frame = viz.frame();
    assert_eq!((frame.col_width, frame.bits_per_pixel), (8, 1));
}

#[test]
fn number_keys_set_the_bit_depth() {
    let data = vec![0u8; 4096];
    let mut viz: Viz = Visualizer::new(&data, (0.0, 0.0)).unwrap();
    for (key, bits) in [(Key::Num2, 2), (Key::Num4, 4), (Key::Num8, 8), (Key::Num1, 1)] {
        assert_eq!(viz.on_key(key), KeyAction::Nothing);
        assert_eq!(viz.frame().bits_per_pixel, bits);
    }
    viz.on_key(Key::Num8);
    viz.on_key(Key::Right);
    assert_eq!(viz.frame().col_width, 9);
    viz.on_key(Key::Num1);
    assert_eq!(viz.frame().bits_per_pixel, 8);
    viz.on_key(Key::Num4);
    assert_eq!(viz.frame().bits_per_pixel, 8);
    viz.on_key(Key::Left);
    viz.on_key(Key::Num4);
    assert_eq!(viz.frame().bits_per_pixel, 4);
}

#[test]
fn arrow_keys_change_the_column_width() {
    let data = vec![0u8; 4096];
    let mut viz: Viz = Visualizer::new(&data, (0.0, 0.0)).unwrap();
    assert_eq!(viz.on_key(Key::Right), KeyAction::Nothing);
    assert_eq!(viz.frame().col_width, 16);
    viz.on_key(Key::Right);
    assert_eq!(viz.frame().col_width, 24);
    assert_eq!(viz.on_key(Key::Left), KeyAction::Nothing);
    viz.on_key(Key::Left);
    viz.on_key(Key::Left);
    assert_eq!(viz.frame().col_width, 8);
    viz.on_key(Key::Num2);
    viz.on_key(Key::Right);
    assert_eq!(viz.frame().col_width, 12);
}

#[test]
fn the_scan_key_fills_store_and_overlay() {
    let mut data = vec![0xffu8; 4096];
    data[100..112].copy_from_slice(b"hello world\0");
    data[200..204].copy_from_slice(b"abc\0");
    data[300..306].copy_from_slice(b"12345\0");
    let mut viz: Viz = Visualizer::new(&data, (0.0, 0.0)).unwrap();
    assert!(viz.annotations_at(105).is_empty());
    assert_eq!(viz.on_key(Key::S), KeyAction::UploadOverlay);
    let store = viz.annotations().unwrap();
    assert_eq!(store.len(), 2);
    assert_eq!(store.get(0).unwrap().span(), (100, 112));
    assert_eq!(store.get(1).unwrap().span(), (300, 306));
    let overlay = viz.overlay();
    assert_eq!(overlay.len(), 16384);
    for (n, mark) in overlay.iter().enumerate() {
        let inside = (100..112).contains(&n) || (300..306).contains(&n);
        assert_eq!(*mark, if inside { 0x66 } else { 0 });
    }
    let under: Vec<&str> = viz.annotations_at(105).iter().map(|a| a.comments()).collect();
    assert_eq!(under, vec!["hello world"]);
    assert_eq!(viz.annotations_at(112).len(), 1);
    assert_eq!(viz.annotations_at(113).len(), 0);
    assert_eq!(viz.annotations_at(99).len(), 0);

    assert_eq!(viz.on_key(Key::S), KeyAction::UploadOverlay);
    assert_eq!(viz.annotations().unwrap().len(), 2);
    assert_eq!(viz.overlay().iter().filter(|b| **b == 0x66).count(), 18);
}

#[test]
fn hover_names_the_byte_and_its_place_in_the_row() {
    let data = vec![0u8; 100000];
    let mut viz: Viz = Visualizer::new(&data, (0.0, 0.0)).unwrap();
    viz.set_col_width(32).unwrap();
    let h = viz.hover((36, 3)).unwrap();
    assert_eq!(h.byte, 2060);
    assert_eq!(h.in_row, Some(0));
    let h = viz.hover((8, 1)).unwrap();
    assert_eq!(h.byte, 5);
    assert_eq!(h.in_row, Some(1));
    assert!(viz.hover((0, 512)).is_none());
    viz.on_key(Key::Num8);
    let h = viz.hover((3, 0)).unwrap();
    assert_eq!(h.byte, 3);
    assert_eq!(h.in_row, None);
}

#[test]
fn the_first_window_fits_the_columns() {
    assert_eq!(initial_window_size(1 << 20, 1, 0), Some((16384, 512)));
    assert_eq!(initial_window_size(1 << 20, 2, 3), Some((19456, 512)));
    assert_eq!(initial_window_size(65536, 1, 4), Some((1536, 512)));
    assert_eq!(initial_window_size(1000, 1, 0), Some((512, 512)));
    assert_eq!(initial_window_size(0, 1, 0), Some((512, 512)));
    assert_eq!(initial_window_size(1000, 0, 0), None);
    assert_eq!(initial_window_size(u32::MAX as usize, 1, u32::MAX), None);
    assert_eq!(initial_window_size((u32::MAX as usize) + 1, 1, 0), None);
}
