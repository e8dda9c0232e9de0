//! What the engine asks of the display server, and what the display server
//! tells the engine.
//!
//! A [`Command`] is one request, free of any wire encoding. The engine hands
//! out lists of them; whoever holds the connection sends them in order. An
//! [`Event`] is one notification, with what the engine has to know of it.

use vstd::prelude::*;
use crate::geometry::{Rect, Window};

verus! {

/// Identifier of an interned property name.
pub type Atom = u32;

/// Identifier of a graphics context.
pub type Gcontext = u32;

/// Hardware code of a key.
pub type Keycode = u8;

/// One request to the display server.
#[allow(inconsistent_fields)]
#[derive(Clone, Copy, Debug, PartialEq, Eq, Structural)]
pub enum Command {
    /// Ask for pointer-entry and focus notifications of `window` and give
    /// its border the colour `border_color`.
    AdoptWindow { window: Window, border_color: u32 },
    /// Set the width of the border of `window`.
    SetBorderWidth { window: Window, width: u32 },
    /// Set the colour of the border of `window`.
    SetBorderColor { window: Window, color: u32 },
    /// Make `window` visible.
    MapWindow { window: Window },
    /// Hide `window`.
    UnmapWindow { window: Window },
    /// Give `window` the input focus.
    SetInputFocus { window: Window },
    /// Put `window` on top of the stacking order.
    Raise { window: Window },
    /// Move `window` to `rect` and give it that size.
    MoveResize { window: Window, rect: Rect },
    /// Put `window` at the origin with the given size, without a border and
    /// on top of the stacking order.
    Fullscreen { window: Window, width: u16, height: u16 },
    /// Move `window` back to `rect` and give it a border of `border_width`.
    Restore { window: Window, rect: Rect, border_width: u32 },
    /// Set the property `property` of `window` to the single atom `value`.
    SetProperty { window: Window, property: Atom, value: Atom },
    /// Delete the property `property` of `window`.
    DeleteProperty { window: Window, property: Atom },
    /// Send `window` the request to close itself.
    RequestClose { window: Window },
    /// Destroy `window`.
    DestroyWindow { window: Window },
    /// Create the overlay window `window` at `rect` as a child of the root,
    /// with the graphics context `gc` to draw on it.
    CreateAlert { window: Window, gc: Gcontext, rect: Rect },
    /// Draw the message of the overlay `window` at (`x`, `y`) with `gc`.
    DrawText { window: Window, gc: Gcontext, x: i16, y: i16 },
    /// Free the graphics context `gc`.
    FreeGc { gc: Gcontext },
    /// Move the pointer to (`x`, `y`) on the root window.
    WarpPointer { x: i16, y: i16 },
    /// Grab `keycode` pressed with exactly `modifiers` on the root window.
    /// Where `must_succeed` is not set, a refusal by the server is passed
    /// over.
    GrabKey { keycode: Keycode, modifiers: u16, must_succeed: bool },
    /// Grab every key with every modifier on the root window.
    GrabAllKeys,
    /// Release every key grab on the root window.
    UngrabAllKeys,
    /// Send everything that is buffered.
    Flush,
}

/// One notification from the display server.
#[allow(inconsistent_fields)]
#[derive(Debug)]
pub enum Event {
    /// A key was pressed: its code and the modifier bits held with it.
    KeyPress { keycode: Keycode, state: u16 },
    /// `window` asks to be shown. `state` holds the atoms of its declared
    /// window-state property.
    MapRequest { window: Window, state: Vec<Atom> },
    /// `window` was hidden.
    UnmapNotify { window: Window },
    /// `window` was destroyed.
    DestroyNotify { window: Window },
    /// The pointer entered `window`.
    EnterNotify { window: Window },
    /// Part of `window` has to be drawn again; `count` more such
    /// notifications follow.
    Expose { window: Window, count: u16 },
    /// A client sent a message about `window`: the kind of message and its
    /// first three data words, which for a request to change the window's
    /// state are the action and up to two states.
    ClientMessage { window: Window, kind: Atom, action: u32, first: Atom, second: Atom },
    /// Anything else.
    Other,
}

/// What the display server answered when asked for a property of a window.
#[derive(Debug)]
pub struct PropertyReply {
    /// The type atom of the property.
    pub type_: Atom,
    /// Bits per item: 8, 16 or 32.
    pub format: u8,
    /// The items, where the format is 32.
    pub value: Vec<u32>,
}

/// Whether `atoms` holds `atom`.
pub fn holds_atom(atoms: &Vec<Atom>, atom: Atom) -> (r: bool)
    ensures
        r == atoms@.contains(atom),
{
    let mut i: usize = 0;
    while i < atoms.len()
        invariant
            i <= atoms@.len(),
            forall|j: int| 0 <= j < i ==> atoms@[j] != atom,
        decreases atoms@.len() - i,
    {
        if atoms[i] == atom {
            return true;
        }
        i = i + 1;
    }
    false
}

/// Appends the commands of `more` to `cmds`.
pub fn extend(cmds: &mut Vec<Command>, more: Vec<Command>)
    ensures
        final(cmds)@ == old(cmds)@ + more@,
{
    let mut more = more;
    cmds.append(&mut more);
}

} // verus!
