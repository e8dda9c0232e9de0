//! The interned property names that the engine works with.

use vstd::prelude::*;
use crate::commands::Atom;

verus! {

/// The type atom of properties that hold atoms.
pub const ATOM_TYPE: Atom = 4;

/// The atoms that the engine compares against and writes.
#[derive(Clone, Copy, Debug, PartialEq, Eq, Structural)]
pub struct Atoms {
    pub wm_protocols: Atom,
    pub wm_delete_window: Atom,
    pub wm_state: Atom,
    pub wm_take_focus: Atom,
    pub net_wm_state: Atom,
    pub net_wm_state_fullscreen: Atom,
    pub net_active_window: Atom,
}

/// The names that have to be interned, in the order of the fields of
/// [`Atoms`].
pub open spec fn atom_names_view() -> Seq<Seq<char>> {
    seq![
        "WM_PROTOCOLS"@,
        "WM_DELETE_WINDOW"@,
        "WM_STATE"@,
        "WM_TAKE_FOCUS"@,
        "_NET_WM_STATE"@,
        "_NET_WM_STATE_FULLSCREEN"@,
        "_NET_ACTIVE_WINDOW"@,
    ]
}

/// The names that have to be interned, in the order of the fields of
/// [`Atoms`].
pub fn atom_names() -> (names: Vec<&'static str>)
    ensures
        names@.len() == 7,
        forall|i: int| 0 <= i < 7 ==> (#[trigger] names@[i])@ == atom_names_view()[i],
{
    let mut names: Vec<&'static str> = Vec::new();
    names.push("WM_PROTOCOLS");
    names.push("WM_DELETE_WINDOW");
    names.push("WM_STATE");
    names.push("WM_TAKE_FOCUS");
    names.push("_NET_WM_STATE");
    names.push("_NET_WM_STATE_FULLSCREEN");
    names.push("_NET_ACTIVE_WINDOW");
    names
}

impl Atoms {
    /// The atoms as the display server interned them, in the order of the
    /// fields.
    pub fn new(
        wm_protocols: Atom,
        wm_delete_window: Atom,
        wm_state: Atom,
        wm_take_focus: Atom,
        net_wm_state: Atom,
        net_wm_state_fullscreen: Atom,
        net_active_window: Atom,
    ) -> (a: Self)
        ensures
            a == (Atoms {
                wm_protocols,
                wm_delete_window,
                wm_state,
                wm_take_focus,
                net_wm_state,
                net_wm_state_fullscreen,
                net_active_window,
            }),
    {
        Atoms {
            wm_protocols,
            wm_delete_window,
            wm_state,
            wm_take_focus,
            net_wm_state,
            net_wm_state_fullscreen,
            net_active_window,
        }
    }
}

} // verus!
