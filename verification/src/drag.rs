//! The drag controller: which operation a pointer button starts, and when a
//! press and release count as a click.
//!
//! The controller never looks inside a pointer position or a pan offset. It
//! keeps them for the caller, who measures distances. `P` is the type of a
//! pointer position, `Q` that of a pan offset.

use vstd::prelude::*;

verus! {

/// A pointer button.
#[derive(Clone, Copy, Debug, PartialEq, Eq, Structural)]
pub enum MouseButton {
    /// The primary button.
    Left,
    /// The secondary button.
    Right,
    /// The wheel button.
    Middle,
    /// Any further button.
    Other,
}

/// What happened to a button or a key.
#[derive(Clone, Copy, Debug, PartialEq, Eq, Structural)]
pub enum Action {
    /// It went up.
    Release,
    /// It went down.
    Press,
    /// It is held down and repeats.
    Repeat,
}

/// The modifier keys held down with a button.
#[derive(Clone, Copy, Debug, PartialEq, Eq, Structural)]
pub struct Modifiers {
    /// Shift is held.
    pub shift: bool,
    /// Control is held.
    pub control: bool,
    /// Alt is held.
    pub alt: bool,
    /// The super key is held.
    pub super_key: bool,
    /// Caps lock is on.
    pub caps_lock: bool,
    /// Num lock is on.
    pub num_lock: bool,
}

impl Modifiers {
    /// The pan modifier is Shift, held alone.
    pub open spec fn spec_is_pan(self) -> bool {
        self.shift && !self.control && !self.alt && !self.super_key && !self.caps_lock
            && !self.num_lock
    }

    /// Tells whether exactly the pan modifier is held.
    #[verifier::when_used_as_spec(spec_is_pan)]
    pub fn is_pan(self) -> (pan: bool)
        ensures
            pan == self.spec_is_pan(),
    {
        self.shift && !self.control && !self.alt && !self.super_key && !self.caps_lock
            && !self.num_lock
    }

    /// No modifier held.
    pub fn none() -> (m: Modifiers)
        ensures
            m == (Modifiers {
                shift: false,
                control: false,
                alt: false,
                super_key: false,
                caps_lock: false,
                num_lock: false,
            }),
    {
        Modifiers {
            shift: false,
            control: false,
            alt: false,
            super_key: false,
            caps_lock: false,
            num_lock: false,
        }
    }
}

/// The drag in progress.
#[derive(Debug)]
pub enum DragOp<P, Q> {
    /// No button is held.
    NoOp,
    /// A range of bytes is being selected, from the byte under `anchor`.
    Selecting { anchor: P },
    /// The picture is being moved: the point under `anchor` follows the pointer.
    Panning { anchor: P, anchor_pan: Q },
}

impl<P: Copy, Q: Copy> Clone for DragOp<P, Q> {
    fn clone(&self) -> (copy: Self)
        ensures
            copy == *self,
    {
        *self
    }
}

impl<P: Copy, Q: Copy> Copy for DragOp<P, Q> {

}

/// The operation that a press starts: the primary button selects, the
/// primary button with the pan modifier pans, and so do the secondary and
/// the middle button. Further buttons start nothing.
pub open spec fn spec_op_for_press<P, Q>(
    button: MouseButton,
    modifiers: Modifiers,
    pos: P,
    pan: Q,
) -> DragOp<P, Q> {
    match button {
        MouseButton::Left => if modifiers.spec_is_pan() {
            DragOp::Panning { anchor: pos, anchor_pan: pan }
        } else {
            DragOp::Selecting { anchor: pos }
        },
        MouseButton::Right | MouseButton::Middle => DragOp::Panning {
            anchor: pos,
            anchor_pan: pan,
        },
        MouseButton::Other => DragOp::NoOp,
    }
}

/// The pointer as the controller sees it.
#[derive(Debug)]
pub struct MouseState<P, Q> {
    /// Where the pointer was seen last.
    pub last_pos: P,
    /// Whether the pointer has moved since the last press.
    pub moved: bool,
    /// The drag in progress.
    pub op: DragOp<P, Q>,
}

impl<P: Copy, Q: Copy> Clone for MouseState<P, Q> {
    fn clone(&self) -> (copy: Self)
        ensures
            copy == *self,
    {
        *self
    }
}

impl<P: Copy, Q: Copy> Copy for MouseState<P, Q> {

}

impl<P: Copy, Q: Copy> MouseState<P, Q> {
    /// A pointer at `origin` with no button held.
    pub fn new(origin: P) -> (state: MouseState<P, Q>)
        ensures
            state == (MouseState::<P, Q> { last_pos: origin, moved: false, op: DragOp::NoOp }),
    {
        MouseState { last_pos: origin, moved: false, op: DragOp::NoOp }
    }

    /// The state after a press.
    pub open spec fn spec_pressed(
        button: MouseButton,
        modifiers: Modifiers,
        pos: P,
        pan: Q,
    ) -> Self {
        MouseState {
            last_pos: pos,
            moved: false,
            op: spec_op_for_press(button, modifiers, pos, pan),
        }
    }

    /// The state after the pointer was seen at `pos`; `changed` says whether
    /// that is another place than the last.
    pub open spec fn spec_moved_to(self, pos: P, changed: bool) -> Self {
        MouseState { last_pos: pos, moved: self.moved || changed, op: self.op }
    }

    /// The state after a release.
    pub open spec fn spec_released(self) -> Self {
        MouseState { last_pos: self.last_pos, moved: self.moved, op: DragOp::NoOp }
    }

    /// A release ends a click where a selection was started and the pointer
    /// has not moved since.
    pub open spec fn spec_is_click(self) -> bool {
        self.op is Selecting && !self.moved
    }

    /// A button went down at `pos`, while the picture was panned by `pan`.
    pub fn press(&mut self, button: MouseButton, modifiers: Modifiers, pos: P, pan: Q)
        ensures
            *final(self) == Self::spec_pressed(button, modifiers, pos, pan),
    {
        self.moved = false;
        self.last_pos = pos;
        self.op = match button {
            MouseButton::Left => {
                if modifiers.is_pan() {
                    DragOp::Panning { anchor: pos, anchor_pan: pan }
                } else {
                    DragOp::Selecting { anchor: pos }
                }
            },
            MouseButton::Right => DragOp::Panning { anchor: pos, anchor_pan: pan },
            MouseButton::Middle => DragOp::Panning { anchor: pos, anchor_pan: pan },
            MouseButton::Other => DragOp::NoOp,
        };
    }

    /// The pointer was seen at `pos`. Returns the drag in progress, which
    /// says what the caller has to work out for this move.
    pub fn pointer_moved(&mut self, pos: P, changed: bool) -> (op: DragOp<P, Q>)
        ensures
            *final(self) == old(self).spec_moved_to(pos, changed),
            op == old(self).op,
    {
        if changed {
            self.moved = true;
        }
        self.last_pos = pos;
        self.op
    }

    /// The button went up. Returns whether that ends a click.
    pub fn release(&mut self) -> (click: bool)
        ensures
            *final(self) == old(self).spec_released(),
            click == old(self).spec_is_click(),
    {
        let click = match self.op {
            DragOp::Selecting { anchor: _ } => !self.moved,
            _ => false,
        };
        self.op = DragOp::NoOp;
        click
    }
}

} // verus!
