//! The visualizer session: the view, the selection, the drag in progress and
//! the annotations of one buffer, and what keys and the pointer do to them.
//!
//! The session draws nothing and holds no zoom or pan. Its caller turns a
//! pointer position into a logical pixel, hands it in, and carries out what
//! the session answers.

use vstd::prelude::*;
use crate::annotation::{hits, models_of_refs, Annotation, AnnotationModel, AnnotationStore};
use crate::cstring::{c_strings, AnnotationEngine, CStringAnnotation, CStringAnnotationEngine};
use crate::drag::{Action, DragOp, Modifiers, MouseButton, MouseState};
use crate::overlay::{paint_annotations, painted};
use crate::tiling::{
    blank_tiles,
    lemma_tiled_len_bounds,
    spec_tile_height,
    spec_tiled,
    spec_tiled_len,
    tile_height,
    tiled_copy,
    MAX_TILE_WIDTH,
};
use crate::view::{
    spec_check_column,
    spec_narrowed,
    spec_widened,
    ConfigError,
    DataView,
    Layout,
};

verus! {

/// Column width of a fresh session, in pixels.
pub const DEFAULT_COLUMN_WIDTH: u32 = 8;

/// Column height of a fresh session, in pixels.
pub const DEFAULT_COLUMN_HEIGHT: u32 = 512;

/// Column spacing of a fresh session, in pixels.
pub const DEFAULT_COLUMN_SPACING: u32 = 4;

/// The keys that the session knows.
#[derive(Clone, Copy, Debug, PartialEq, Eq, Structural)]
pub enum Key {
    /// One bit per pixel.
    Num1,
    /// Two bits per pixel.
    Num2,
    /// Four bits per pixel.
    Num4,
    /// Eight bits per pixel.
    Num8,
    /// Close the window.
    Escape,
    /// Zoom in.
    Up,
    /// Zoom out.
    Down,
    /// Widen the columns.
    Right,
    /// Narrow the columns.
    Left,
    /// Kept for the byte order, which is not drawn yet.
    GraveAccent,
    /// Scan for C strings.
    S,
    /// Any other key.
    Other,
}

/// What the caller has to do after a key.
#[derive(Clone, Copy, Debug, PartialEq, Eq, Structural)]
pub enum KeyAction {
    /// Nothing beyond drawing the next frame.
    Nothing,
    /// Close the window.
    Close,
    /// Zoom in by one step.
    ZoomIn,
    /// Zoom out by one step.
    ZoomOut,
    /// Hand the annotation overlay to the renderer again: it has changed.
    UploadOverlay,
}

/// What the renderer needs for one frame, besides zoom, pan and the two buffers.
#[derive(Clone, Copy, Debug, PartialEq, Eq, Structural)]
pub struct Frame {
    /// Width of a column, in pixels.
    pub col_width: u32,
    /// Height of a column, in pixels.
    pub col_height: u32,
    /// Gap between adjacent columns, in pixels.
    pub col_spacing: u32,
    /// Number of bytes shown.
    pub data_len: u32,
    /// First byte shown.
    pub data_offset: u32,
    /// Bits shown per pixel.
    pub bits_per_pixel: u32,
    /// First selected byte.
    pub selection_start: u32,
    /// Last selected byte. Both are 0 where nothing is selected.
    pub selection_end: u32,
    /// Width of the tiled buffers, in bytes.
    pub tex_width: u32,
    /// Height of the tiled buffers, in rows.
    pub tex_height: u32,
}

/// What lies under the pointer.
#[derive(Clone, Copy, Debug)]
pub struct Hover {
    /// The byte under the pointer.
    pub byte: u32,
    /// The byte index modulo the view's `byte_width`; `None` where that
    /// width is 0.
    pub in_row: Option<u32>,
}

/// The two arguments in rising order.
pub open spec fn spec_ordered(a: int, b: int) -> (int, int) {
    if a <= b {
        (a, b)
    } else {
        (b, a)
    }
}

/// An overlay of `len` bytes without any mark.
pub open spec fn spec_blank(len: int) -> Seq<u8> {
    Seq::new(len as nat, |i: int| 0u8)
}

/// What the caller has to do after `key`.
pub open spec fn spec_key_action(key: Key) -> KeyAction {
    match key {
        Key::Escape => KeyAction::Close,
        Key::Up => KeyAction::ZoomIn,
        Key::Down => KeyAction::ZoomOut,
        Key::S => KeyAction::UploadOverlay,
        _ => KeyAction::Nothing,
    }
}

/// The mathematical model of a [`Visualizer`].
pub struct Session<P, Q> {
    /// The layout of the view.
    pub layout: Layout,
    /// The selected bytes, as `(start, end)`; `(0, 0)` where nothing is selected.
    pub selection: (int, int),
    /// The pointer and the drag in progress.
    pub mouse: MouseState<P, Q>,
    /// The buffer.
    pub data: Seq<u8>,
    /// The annotation overlay, of the tiled buffer's shape.
    pub overlay: Seq<u8>,
    /// The annotations of the last scan, if there was one.
    pub annotations: Option<Seq<AnnotationModel>>,
}

impl<P, Q> Session<P, Q> {
    /// The invariant of a session.
    pub open spec fn valid(self) -> bool {
        &&& self.layout.valid()
        &&& self.layout.end <= self.data.len() <= u32::MAX
        &&& self.data.len() + MAX_TILE_WIDTH - 1 <= usize::MAX
        &&& 0 <= self.selection.0 <= self.selection.1 <= u32::MAX
        &&& self.overlay.len() == spec_tiled_len(self.data.len() as int, MAX_TILE_WIDTH as int)
        &&& match self.annotations {
            Some(found) => found == c_strings(self.data) && self.overlay == painted(
                spec_blank(self.overlay.len() as int),
                found,
            ),
            None => self.overlay == spec_blank(self.overlay.len() as int),
        }
    }

    /// The session with another bit depth, where the column width allows it.
    pub open spec fn with_bits(self, bits: int) -> Self {
        if spec_check_column(self.layout.width, bits) is None {
            Session { layout: Layout { bits: bits, ..self.layout }, ..self }
        } else {
            self
        }
    }

    /// The session after a scan for C strings.
    pub open spec fn scanned(self) -> Self {
        Session {
            annotations: Some(c_strings(self.data)),
            overlay: painted(spec_blank(self.overlay.len() as int), c_strings(self.data)),
            ..self
        }
    }

    /// The session after `key`.
    pub open spec fn after_key(self, key: Key) -> Self {
        match key {
            Key::Num1 => self.with_bits(1),
            Key::Num2 => self.with_bits(2),
            Key::Num4 => self.with_bits(4),
            Key::Num8 => self.with_bits(8),
            Key::Right => Session {
                layout: Layout { width: spec_widened(self.layout), ..self.layout },
                ..self
            },
            Key::Left => Session {
                layout: Layout { width: spec_narrowed(self.layout), ..self.layout },
                ..self
            },
            Key::S => self.scanned(),
            _ => self,
        }
    }

    /// The session after a button event at `pos`, with the picture panned by `pan`.
    pub open spec fn after_button(
        self,
        button: MouseButton,
        action: Action,
        modifiers: Modifiers,
        pos: P,
        pan: Q,
    ) -> Self {
        match action {
            Action::Press => Session {
                mouse: MouseState {
                    last_pos: pos,
                    moved: false,
                    op: crate::drag::spec_op_for_press(button, modifiers, pos, pan),
                },
                ..self
            },
            Action::Release => Session {
                mouse: MouseState { op: DragOp::NoOp, ..self.mouse },
                selection: if self.mouse.op is Selecting && !self.mouse.moved {
                    (0, 0)
                } else {
                    self.selection
                },
                ..self
            },
            Action::Repeat => self,
        }
    }

    /// The session after the pointer was seen at `pos`.
    pub open spec fn after_pointer_move(self, pos: P, changed: bool) -> Self {
        Session {
            mouse: MouseState {
                last_pos: pos,
                moved: self.mouse.moved || changed,
                op: self.mouse.op,
            },
            ..self
        }
    }

    /// The session after a selecting drag from the logical pixel `anchor` to
    /// `current`: the bytes between the two, in byte order, where both pixels
    /// show a byte; the selection as it was where one does not, or where no
    /// selection is in progress.
    pub open spec fn after_drag_select(self, anchor: (int, int), current: (int, int)) -> Self {
        match (
            self.mouse.op is Selecting,
            self.layout.byte_at(anchor.0, anchor.1),
            self.layout.byte_at(current.0, current.1),
        ) {
            (true, Some(from), Some(to)) => Session { selection: spec_ordered(from, to), ..self },
            _ => self,
        }
    }
}

/// The core of a visualizer window: everything but the window, the renderer
/// and the zoom and pan of the picture.
pub struct Visualizer<'a, P, Q> {
    dview: DataView,
    selection: (u32, u32),
    annotation_d: Vec<u8>,
    mouse_state: MouseState<P, Q>,
    dat: &'a [u8],
    annotation_store: Option<AnnotationStore<CStringAnnotation>>,
}

impl<'a, P, Q> View for Visualizer<'a, P, Q> {
    type V = Session<P, Q>;

    closed spec fn view(&self) -> Session<P, Q> {
        Session {
            layout: self.dview@,
            selection: (self.selection.0 as int, self.selection.1 as int),
            mouse: self.mouse_state,
            data: self.dat@,
            overlay: self.annotation_d@,
            annotations: match self.annotation_store {
                Some(store) => Some(store@),
                None => None,
            },
        }
    }
}

impl<'a, P, Q> Visualizer<'a, P, Q> {
    /// The store of a scan bears the title that the finder gives it.
    pub closed spec fn titled(&self) -> bool {
        match self.annotation_store {
            Some(store) => store.title_view() == "C Strings"@,
            None => true,
        }
    }

    /// Every session is valid.
    #[verifier::type_invariant]
    pub open spec fn inv(&self) -> bool {
        self@.valid() && self.titled()
    }
}

impl<'a, P: Copy, Q: Copy> Visualizer<'a, P, Q> {
    /// A session on `dat` that shows all of it, one bit per pixel, in columns
    /// of 8 by 512 pixels set 4 pixels apart, with nothing selected and no
    /// annotations. A buffer that 32-bit byte indices cannot address, or
    /// whose tiled copy would not fit in memory, is refused.
    pub fn new(dat: &'a [u8], origin: P) -> (made: Result<Visualizer<'a, P, Q>, ConfigError>)
        ensures
            match made {
                Ok(viz) => {
                    &&& dat@.len() <= u32::MAX
                    &&& dat@.len() + MAX_TILE_WIDTH - 1 <= usize::MAX
                    &&& viz@ == (Session::<P, Q> {
                        layout: Layout {
                            start: 0,
                            end: dat@.len() as int,
                            width: DEFAULT_COLUMN_WIDTH as int,
                            height: DEFAULT_COLUMN_HEIGHT as int,
                            spacing: DEFAULT_COLUMN_SPACING as int,
                            bits: 1,
                        },
                        selection: (0, 0),
                        mouse: MouseState { last_pos: origin, moved: false, op: DragOp::NoOp },
                        data: dat@,
                        overlay: spec_blank(
                            spec_tiled_len(dat@.len() as int, MAX_TILE_WIDTH as int),
                        ),
                        annotations: None,
                    })
                },
                Err(e) => e == ConfigError::AddressRange && (dat@.len() > u32::MAX || dat@.len()
                    + MAX_TILE_WIDTH - 1 > usize::MAX),
            },
    {
        if dat.len() > usize::MAX - (MAX_TILE_WIDTH - 1) {
            return Err(ConfigError::AddressRange);
        }
        let made = DataView::new(
            dat.len(),
            (0, dat.len()),
            (DEFAULT_COLUMN_WIDTH, DEFAULT_COLUMN_HEIGHT),
            DEFAULT_COLUMN_SPACING,
            1,
        );
        match made {
            Ok(dview) => {
                let annotation_d = blank_tiles(dat.len(), MAX_TILE_WIDTH);
                proof {
                    lemma_tiled_len_bounds(dat@.len() as int, MAX_TILE_WIDTH as int);
                    assert(annotation_d@ =~= spec_blank(
                        spec_tiled_len(dat@.len() as int, MAX_TILE_WIDTH as int),
                    ));
                }
                Ok(
                    Visualizer {
                        dview,
                        selection: (0, 0),
                        annotation_d,
                        mouse_state: MouseState::new(origin),
                        dat,
                        annotation_store: None,
                    },
                )
            },
            Err(_) => Err(ConfigError::AddressRange),
        }
    }

    /// The view.
    pub fn data_view(&self) -> (view: &DataView)
        ensures
            view@ == self@.layout,
    {
        &self.dview
    }

    /// The selected bytes, as `(start, end)`.
    pub fn selection(&self) -> (selection: (u32, u32))
        ensures
            selection.0 == self@.selection.0,
            selection.1 == self@.selection.1,
            selection.0 <= selection.1,
    {
        proof {
            use_type_invariant(self);
        }
        self.selection
    }

    /// The pointer and the drag in progress.
    pub fn mouse_state(&self) -> (mouse: &MouseState<P, Q>)
        ensures
            *mouse == self@.mouse,
    {
        &self.mouse_state
    }

    /// The buffer.
    pub fn data(&self) -> (data: &'a [u8])
        ensures
            data@ == self@.data,
    {
        self.dat
    }

    /// The annotation overlay, of the shape of the tiled buffer.
    pub fn overlay(&self) -> (overlay: &Vec<u8>)
        ensures
            overlay@ == self@.overlay,
            overlay@.len() == spec_tiled_len(self@.data.len() as int, MAX_TILE_WIDTH as int),
    {
        proof {
            use_type_invariant(self);
        }
        &self.annotation_d
    }

    /// The annotations of the last scan.
    pub fn annotations(&self) -> (store: Option<&AnnotationStore<CStringAnnotation>>)
        ensures
            match store {
                Some(store) => self@.annotations == Some(store@) && store.title_view()
                    == "C Strings"@,
                None => self@.annotations is None,
            },
    {
        proof {
            use_type_invariant(self);
        }
        self.annotation_store.as_ref()
    }

    /// The buffer as the renderer takes it: in rows of `MAX_TILE_WIDTH` bytes,
    /// zero-padded to whole rows.
    pub fn data_tiles(&self) -> (tiles: Vec<u8>)
        ensures
            tiles@ == spec_tiled(self@.data, MAX_TILE_WIDTH as int),
    {
        proof {
            use_type_invariant(self);
        }
        tiled_copy(self.dat, MAX_TILE_WIDTH)
    }

    /// Moves the start of the shown range; see [`DataView::set_offset`].
    pub fn set_offset(&mut self, offset: usize) -> (done: Result<(), ConfigError>)
        ensures
            done is Ok <==> offset < old(self)@.data.len() && offset <= old(self)@.layout.end,
            done is Ok ==> final(self)@ == (Session {
                layout: Layout { start: offset as int, ..old(self)@.layout },
                ..old(self)@
            }),
            done is Err ==> done == Err::<(), ConfigError>(ConfigError::Offset) && final(self)@
                == old(self)@,
    {
        proof {
            use_type_invariant(&*self);
        }
        let mut dview = self.dview;
        let done = dview.set_offset(offset, self.dat.len());
        self.dview = dview;
        done
    }

    /// Selects the bytes between the two indices, in rising order.
    pub fn set_selection(&mut self, start: u32, finish: u32)
        ensures
            final(self)@ == (Session {
                selection: spec_ordered(start as int, finish as int),
                ..old(self)@
            }),
    {
        proof {
            use_type_invariant(&*self);
        }
        if start <= finish {
            self.selection = (start, finish);
        } else {
            self.selection = (finish, start);
        }
    }

    /// Sets the column width; see [`DataView::set_col_width`].
    pub fn set_col_width(&mut self, width: u32) -> (done: Result<(), ConfigError>)
        ensures
            match done {
                Ok(_) => spec_check_column(width as int, old(self)@.layout.bits) is None
                    && final(self)@ == (Session {
                    layout: Layout { width: width as int, ..old(self)@.layout },
                    ..old(self)@
                }),
                Err(e) => spec_check_column(width as int, old(self)@.layout.bits) == Some(e)
                    && final(self)@ == old(self)@,
            },
    {
        proof {
            use_type_invariant(&*self);
        }
        let mut dview = self.dview;
        let done = dview.set_col_width(width);
        self.dview = dview;
        done
    }

    /// Sets the gap between columns.
    pub fn set_spacing(&mut self, spacing: u32)
        ensures
            final(self)@ == (Session {
                layout: Layout { spacing: spacing as int, ..old(self)@.layout },
                ..old(self)@
            }),
    {
        proof {
            use_type_invariant(&*self);
        }
        let mut dview = self.dview;
        dview.set_spacing(spacing);
        self.dview = dview;
    }

    /// Scans the buffer for C strings, replaces the annotations by what was
    /// found and marks their spans in the overlay.
    pub fn scan(&mut self)
        ensures
            final(self)@ == old(self)@.scanned(),
    {
        proof {
            use_type_invariant(&*self);
        }
        let engine = CStringAnnotationEngine::new();
        let found = engine.build_annotations(self.dat);
        let mut overlay = blank_tiles(self.dat.len(), MAX_TILE_WIDTH);
        paint_annotations(&mut overlay, &found);
        *self = Visualizer {
            dview: self.dview,
            selection: self.selection,
            annotation_d: overlay,
            mouse_state: self.mouse_state,
            dat: self.dat,
            annotation_store: Some(found),
        };
    }

    /// Takes another bit depth, if the column width allows it.
    fn try_bits_per_pixel(&mut self, bits: u8)
        ensures
            final(self)@ == old(self)@.with_bits(bits as int),
    {
        proof {
            use_type_invariant(&*self);
        }
        let mut dview = self.dview;
        let _ = dview.set_bits_per_pixel(bits);
        self.dview = dview;
    }

    /// A key went down or repeats.
    pub fn on_key(&mut self, key: Key) -> (action: KeyAction)
        ensures
            final(self)@ == old(self)@.after_key(key),
            action == spec_key_action(key),
    {
        proof {
            use_type_invariant(&*self);
        }
        match key {
            Key::Num1 => {
                self.try_bits_per_pixel(1);
                KeyAction::Nothing
            },
            Key::Num2 => {
                self.try_bits_per_pixel(2);
                KeyAction::Nothing
            },
            Key::Num4 => {
                self.try_bits_per_pixel(4);
                KeyAction::Nothing
            },
            Key::Num8 => {
                self.try_bits_per_pixel(8);
                KeyAction::Nothing
            },
            Key::Escape => KeyAction::Close,
            Key::Up => KeyAction::ZoomIn,
            Key::Down => KeyAction::ZoomOut,
            Key::Right => {
                let mut dview = self.dview;
                dview.widen_column();
                proof {
                    use_type_invariant(&dview);
                }
                self.dview = dview;
                KeyAction::Nothing
            },
            Key::Left => {
                let mut dview = self.dview;
                dview.narrow_column();
                proof {
                    use_type_invariant(&dview);
                }
                self.dview = dview;
                KeyAction::Nothing
            },
            Key::GraveAccent => KeyAction::Nothing,
            Key::S => {
                self.scan();
                KeyAction::UploadOverlay
            },
            Key::Other => KeyAction::Nothing,
        }
    }

    /// A pointer button went down or up at `pos`, while the picture was
    /// panned by `pan`. A release that ends a click clears the selection.
    pub fn on_button(
        &mut self,
        button: MouseButton,
        action: Action,
        modifiers: Modifiers,
        pos: P,
        pan: Q,
    )
        ensures
            final(self)@ == old(self)@.after_button(button, action, modifiers, pos, pan),
    {
        proof {
            use_type_invariant(&*self);
        }
        match action {
            Action::Press => {
                let mut mouse = self.mouse_state;
                mouse.press(button, modifiers, pos, pan);
                self.mouse_state = mouse;
            },
            Action::Release => {
                let mut mouse = self.mouse_state;
                let click = mouse.release();
                self.mouse_state = mouse;
                if click {
                    self.selection = (0, 0);
                }
            },
            Action::Repeat => {},
        }
    }

    /// The pointer was seen at `pos`; `changed` says whether that is another
    /// place than the last. Returns the drag in progress: for a pan the caller
    /// moves the picture, for a selection it calls [`Self::drag_select`].
    pub fn on_pointer_move(&mut self, pos: P, changed: bool) -> (op: DragOp<P, Q>)
        ensures
            final(self)@ == old(self)@.after_pointer_move(pos, changed),
            op == old(self)@.mouse.op,
    {
        proof {
            use_type_invariant(&*self);
        }
        let mut mouse = self.mouse_state;
        let op = mouse.pointer_moved(pos, changed);
        self.mouse_state = mouse;
        op
    }

    /// Extends the selection of a selecting drag: `anchor` and `current` are
    /// the logical pixels of the place of the press and of the pointer now.
    pub fn drag_select(&mut self, anchor: (i64, i64), current: (i64, i64))
        ensures
            final(self)@ == old(self)@.after_drag_select(
                (anchor.0 as int, anchor.1 as int),
                (current.0 as int, current.1 as int),
            ),
    {
        proof {
            use_type_invariant(&*self);
        }
        match self.mouse_state.op {
            DragOp::Selecting { anchor: _ } => {
                let from = self.dview.byte_from_pixel(anchor);
                let to = self.dview.byte_from_pixel(current);
                match (from, to) {
                    (Some(s), Some(e)) => {
                        if s <= e {
                            self.selection = (s, e);
                        } else {
                            self.selection = (e, s);
                        }
                    },
                    _ => {},
                }
            },
            _ => {},
        }
    }

    /// What lies under the logical pixel `pixel`.
    pub fn hover(&self, pixel: (i64, i64)) -> (hover: Option<Hover>)
        ensures
            match hover {
                Some(h) => {
                    &&& self@.layout.byte_at(pixel.0 as int, pixel.1 as int) == Some(h.byte as int)
                    &&& match h.in_row {
                        Some(r) => self@.layout.byte_width() > 0 && r == (h.byte as int)
                            % self@.layout.byte_width(),
                        None => self@.layout.byte_width() == 0,
                    }
                },
                None => self@.layout.byte_at(pixel.0 as int, pixel.1 as int) is None,
            },
    {
        match self.dview.byte_from_pixel(pixel) {
            Some(byte) => {
                let width = self.dview.byte_width();
                let in_row = if width > 0 {
                    Some(byte % width)
                } else {
                    None
                };
                Some(Hover { byte, in_row })
            },
            None => None,
        }
    }

    /// The annotations of the last scan whose span covers `byte`, both ends counted.
    pub fn annotations_at(&self, byte: u32) -> (found: Vec<&CStringAnnotation>)
        ensures
            models_of_refs(found@) == match self@.annotations {
                Some(all) => hits(all, byte as int),
                None => Seq::<AnnotationModel>::empty(),
            },
    {
        match &self.annotation_store {
            Some(store) => store.query(byte as usize),
            None => {
                let found: Vec<&CStringAnnotation> = Vec::new();
                assert(models_of_refs(found@) =~= Seq::<AnnotationModel>::empty());
                found
            },
        }
    }

    /// What the renderer needs for the next frame.
    pub fn frame(&self) -> (frame: Frame)
        ensures
            frame.col_width == self@.layout.width,
            frame.col_height == self@.layout.height,
            frame.col_spacing == self@.layout.spacing,
            frame.data_len == self@.layout.data_len(),
            frame.data_offset == self@.layout.start,
            frame.bits_per_pixel == self@.layout.bits,
            frame.selection_start == self@.selection.0,
            frame.selection_end == self@.selection.1,
            frame.tex_width == MAX_TILE_WIDTH,
            frame.tex_height == spec_tile_height(self@.data.len() as int, MAX_TILE_WIDTH as int),
    {
        proof {
            use_type_invariant(self);
            use_type_invariant(&self.dview);
            lemma_tiled_len_bounds(self.dat@.len() as int, MAX_TILE_WIDTH as int);
        }
        let dim = self.dview.column_dim();
        let bounds = self.dview.data_bounds();
        Frame {
            col_width: dim.0,
            col_height: dim.1,
            col_spacing: self.dview.column_spacing(),
            data_len: (bounds.1 - bounds.0) as u32,
            data_offset: bounds.0 as u32,
            bits_per_pixel: self.dview.bits_per_pixel() as u32,
            selection_start: self.selection.0,
            selection_end: self.selection.1,
            tex_width: MAX_TILE_WIDTH as u32,
            tex_height: tile_height(self.dat.len(), MAX_TILE_WIDTH) as u32,
        }
    }
}

/// The width of a fresh window, in pixels: the columns that the buffer
/// fills side by side at one bit per pixel, but no less than 512.
pub open spec fn spec_window_width(buffer_len: int, word_bytes: int, spacing: int) -> int {
    let columns = buffer_len / (word_bytes * DEFAULT_COLUMN_HEIGHT);
    let across = columns * (word_bytes * 8 + spacing);
    if across < 512 {
        512
    } else {
        across
    }
}

/// The size of a fresh window for a buffer of `buffer_len` bytes shown in
/// columns of `word_bytes` bytes a row, `spacing` pixels apart. `None` where
/// a column is to hold no byte or a `u32` cannot hold a size.
pub fn initial_window_size(buffer_len: usize, word_bytes: u32, spacing: u32) -> (size: Option<
    (u32, u32),
>)
    ensures
        match size {
            Some(size) => {
                &&& word_bytes > 0
                &&& size.0 == spec_window_width(
                    buffer_len as int,
                    word_bytes as int,
                    spacing as int,
                )
                &&& size.1 == DEFAULT_COLUMN_HEIGHT
            },
            None => word_bytes == 0 || buffer_len > u32::MAX || spec_window_width(
                buffer_len as int,
                word_bytes as int,
                spacing as int,
            ) > u32::MAX,
        },
{
    if word_bytes == 0 || buffer_len > u32::MAX as usize {
        return None;
    }
    let per_column: u128 = (word_bytes as u128) * (DEFAULT_COLUMN_HEIGHT as u128);
    let columns: u128 = (buffer_len as u128) / per_column;
    let pitch: u128 = (word_bytes as u128) * 8 + spacing as u128;
    proof {
        assert(columns <= buffer_len) by (nonlinear_arith)
            requires
                columns == (buffer_len as int) / (per_column as int),
                per_column >= 1,
        ;
        assert(columns * pitch <= 0xffff_ffff * 0x9_0000_0000) by (nonlinear_arith)
            requires
                columns <= 0xffff_ffff,
                pitch <= 0x9_0000_0000,
        ;
    }
    let across: u128 = columns * pitch;
    let width: u128 = if across < 512 {
        512
    } else {
        across
    };
    if width > u32::MAX as u128 {
        None
    } else {
        Some((width as u32, DEFAULT_COLUMN_HEIGHT))
    }
}

/// Click: a press that starts a selection and a release, with no move to
/// another place between them, clear the selection.
pub proof fn lemma_click_clears_selection<P, Q>(
    session: Session<P, Q>,
    modifiers: Modifiers,
    pos: P,
    pan: Q,
)
    requires
        !modifiers.spec_is_pan(),
    ensures
        ({
            let down = session.after_button(MouseButton::Left, Action::Press, modifiers, pos, pan);
            let still = down.after_pointer_move(pos, false);
            let up = still.after_button(MouseButton::Left, Action::Release, modifiers, pos, pan);
            &&& up.selection == (0int, 0int)
            &&& up.mouse.op is NoOp
        }),
{
}

/// Drag: a press that starts a selection, a move to another place where both
/// the anchor and the pointer show a byte, and a release select the bytes
/// between the two, in byte order.
pub proof fn lemma_drag_selects_range<P, Q>(
    session: Session<P, Q>,
    modifiers: Modifiers,
    pos: P,
    pan: Q,
    to: P,
    anchor: (int, int),
    current: (int, int),
)
    requires
        !modifiers.spec_is_pan(),
        session.layout.byte_at(anchor.0, anchor.1) is Some,
        session.layout.byte_at(current.0, current.1) is Some,
    ensures
        ({
            let a = session.layout.byte_at(anchor.0, anchor.1)->Some_0;
            let b = session.layout.byte_at(current.0, current.1)->Some_0;
            let down = session.after_button(MouseButton::Left, Action::Press, modifiers, pos, pan);
            let dragged = down.after_pointer_move(to, true).after_drag_select(anchor, current);
            let up = dragged.after_button(MouseButton::Left, Action::Release, modifiers, to, pan);
            &&& up.selection == spec_ordered(a, b)
            &&& up.selection.0 <= up.selection.1
            &&& up.mouse.op is NoOp
        }),
{
}

/// A drag that loses an end keeps the selection that it had.
pub proof fn lemma_lost_end_keeps_selection<P, Q>(
    session: Session<P, Q>,
    anchor: (int, int),
    current: (int, int),
)
    requires
        session.layout.byte_at(anchor.0, anchor.1) is None || session.layout.byte_at(
            current.0,
            current.1,
        ) is None,
    ensures
        session.after_drag_select(anchor, current) == session,
{
}

/// Keys keep a session valid.
pub proof fn lemma_key_keeps_valid<P, Q>(session: Session<P, Q>, key: Key)
    requires
        session.valid(),
    ensures
        session.after_key(key).valid(),
{
    let layout = session.layout;
    let step = layout.elements_per_byte();
    let bits = layout.bits;
    assert(step * bits == 8 && 1 <= step <= 8) by (nonlinear_arith)
        requires
            step == 8int / bits,
            bits == 1 || bits == 2 || bits == 4 || bits == 8,
    ;
    assert(8int % step == 0) by {
        assert(step == 1 || step == 2 || step == 4 || step == 8);
    }
    let width = layout.width;
    let wider = width + step;
    let narrower = width - step;
    assert(wider % step == 0) by (nonlinear_arith)
        requires
            wider == width + step,
            width % step == 0,
            step > 0,
    ;
    assert(width >= step) by (nonlinear_arith)
        requires
            width % step == 0,
            width > 0,
            step > 0,
    ;
    assert(narrower % step == 0) by (nonlinear_arith)
        requires
            narrower == width - step,
            width % step == 0,
            step > 0,
    ;
}

/// Button events, pointer moves and selecting drags keep a session valid.
pub proof fn lemma_pointer_keeps_valid<P, Q>(
    session: Session<P, Q>,
    button: MouseButton,
    action: Action,
    modifiers: Modifiers,
    pos: P,
    pan: Q,
    changed: bool,
    anchor: (int, int),
    current: (int, int),
)
    requires
        session.valid(),
    ensures
        session.after_button(button, action, modifiers, pos, pan).valid(),
        session.after_pointer_move(pos, changed).valid(),
        session.after_drag_select(anchor, current).valid(),
{
}

} // verus!
