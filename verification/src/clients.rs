//! What the manager records of one managed window, and the fullscreen state
//! machine that works on that record.

use vstd::prelude::*;
use std::collections::HashMap;
use crate::alerts::restack_commands;
use crate::atoms::ATOM_TYPE;
use crate::commands::{extend, holds_atom, Atom, Command, PropertyReply};
use crate::geometry::{Rect, Window};
use crate::layout::layout_commands;
use crate::wm::{Step, WindowManager};
use crate::workspaces::{lemma_placed_frame, lemma_with_current_twice, WorkspaceView};

verus! {

/// The record of one managed window: where it was last put, whether it is
/// fullscreen, and where it goes back to when it leaves fullscreen.
#[derive(Clone, Copy, Debug, PartialEq, Eq, Structural)]
pub struct ClientState {
    pub x: i16,
    pub y: i16,
    pub width: u16,
    pub height: u16,
    pub is_fullscreen: bool,
    pub saved_x: i16,
    pub saved_y: i16,
    pub saved_width: u16,
    pub saved_height: u16,
}

impl Default for ClientState {
    fn default() -> (s: Self)
        ensures
            s == ClientState::spec_new(0, 0, 100, 100),
    {
        ClientState::new(0, 0, 100, 100)
    }
}

impl ClientState {
    /// The record of a tiled window at the given place.
    pub open spec fn spec_new(x: i16, y: i16, width: u16, height: u16) -> ClientState {
        ClientState {
            x,
            y,
            width,
            height,
            is_fullscreen: false,
            saved_x: x,
            saved_y: y,
            saved_width: width,
            saved_height: height,
        }
    }

    /// The rectangle last commanded for the window.
    pub open spec fn geometry(self) -> Rect {
        Rect { x: self.x, y: self.y, width: self.width, height: self.height }
    }

    /// The rectangle that leaving fullscreen restores.
    pub open spec fn saved_geometry(self) -> Rect {
        Rect {
            x: self.saved_x,
            y: self.saved_y,
            width: self.saved_width,
            height: self.saved_height,
        }
    }

    /// The record with its rectangle replaced by `r`.
    pub open spec fn with_geometry(self, r: Rect) -> ClientState {
        ClientState { x: r.x, y: r.y, width: r.width, height: r.height, ..self }
    }

    /// The record after `save_geometry`: a tiled window's rectangle becomes
    /// the saved one, a fullscreen window's saved rectangle is left alone.
    pub open spec fn saved(self) -> ClientState {
        if self.is_fullscreen {
            self
        } else {
            ClientState {
                saved_x: self.x,
                saved_y: self.y,
                saved_width: self.width,
                saved_height: self.height,
                ..self
            }
        }
    }

    /// The record after `restore_geometry`: the saved rectangle copied back.
    pub open spec fn restored(self) -> ClientState {
        self.with_geometry(self.saved_geometry())
    }

    /// The record after the window has gone fullscreen on a screen of the
    /// given size.
    pub open spec fn entered_fullscreen(self, width: u16, height: u16) -> ClientState {
        ClientState { is_fullscreen: true, ..self.saved() }.with_geometry(
            Rect { x: 0, y: 0, width, height },
        )
    }

    /// The record after the window has left fullscreen.
    pub open spec fn left_fullscreen(self) -> ClientState {
        ClientState { is_fullscreen: false, ..self }.restored()
    }

    /// The record of a tiled window at the given place.
    pub fn new(x: i16, y: i16, width: u16, height: u16) -> (s: Self)
        ensures
            s == Self::spec_new(x, y, width, height),
    {
        ClientState {
            x,
            y,
            width,
            height,
            is_fullscreen: false,
            saved_x: x,
            saved_y: y,
            saved_width: width,
            saved_height: height,
        }
    }

    /// The rectangle last commanded for the window.
    pub fn rect(&self) -> (r: Rect)
        ensures
            r == self.geometry(),
    {
        Rect { x: self.x, y: self.y, width: self.width, height: self.height }
    }

    /// Records `r` as the rectangle last commanded.
    pub fn set_geometry(&mut self, r: Rect)
        ensures
            *final(self) == old(self).with_geometry(r),
    {
        self.x = r.x;
        self.y = r.y;
        self.width = r.width;
        self.height = r.height;
    }

    /// Remembers the current rectangle as the one to go back to, unless the
    /// window is fullscreen, in which case what is remembered stays.
    pub fn save_geometry(&mut self)
        ensures
            *final(self) == old(self).saved(),
    {
        if !self.is_fullscreen {
            self.saved_x = self.x;
            self.saved_y = self.y;
            self.saved_width = self.width;
            self.saved_height = self.height;
        }
    }

    /// Copies the remembered rectangle back; what is remembered is not
    /// touched.
    pub fn restore_geometry(&mut self)
        ensures
            *final(self) == old(self).restored(),
    {
        self.x = self.saved_x;
        self.y = self.saved_y;
        self.width = self.saved_width;
        self.height = self.saved_height;
    }

    /// Takes the window from tiled to fullscreen on a screen of the given
    /// size. On a window that is fullscreen already the remembered rectangle
    /// is kept.
    pub fn enter_fullscreen(&mut self, width: u16, height: u16)
        ensures
            *final(self) == old(self).entered_fullscreen(width, height),
    {
        self.save_geometry();
        self.is_fullscreen = true;
        self.x = 0;
        self.y = 0;
        self.width = width;
        self.height = height;
    }

    /// Takes the window from fullscreen back to tiled, at the remembered
    /// rectangle.
    pub fn leave_fullscreen(&mut self)
        ensures
            *final(self) == old(self).left_fullscreen(),
    {
        self.is_fullscreen = false;
        self.restore_geometry();
    }
}

/// Going fullscreen and back puts a tiled window exactly where it was,
/// whatever rectangle it had and whatever the screen's size.
pub proof fn lemma_fullscreen_round_trip(s: ClientState, width: u16, height: u16)
    requires
        !s.is_fullscreen,
    ensures
        s.entered_fullscreen(width, height).left_fullscreen().geometry() == s.geometry(),
        !s.entered_fullscreen(width, height).left_fullscreen().is_fullscreen,
{
}

/// Going fullscreen a second time without leaving in between does not touch
/// the remembered rectangle, so leaving still restores the first one.
pub proof fn lemma_fullscreen_twice_keeps_saved(
    s: ClientState,
    w1: u16,
    h1: u16,
    w2: u16,
    h2: u16,
)
    requires
        !s.is_fullscreen,
    ensures
        s.entered_fullscreen(w1, h1).entered_fullscreen(w2, h2).saved_geometry() == s.geometry(),
        s.entered_fullscreen(w1, h1).entered_fullscreen(w2, h2).saved_geometry()
            == s.entered_fullscreen(w1, h1).saved_geometry(),
        s.entered_fullscreen(w1, h1).entered_fullscreen(w2, h2).left_fullscreen().geometry()
            == s.geometry(),
{
}

/// The commands that colour the border of each window of `windows`, in
/// their order: the focused colour for the window `focused`, the unfocused
/// colour for the others.
pub open spec fn border_commands(
    windows: Seq<Window>,
    focused: Option<Window>,
    focused_color: u32,
    unfocused_color: u32,
) -> Seq<Command> {
    Seq::new(
        windows.len(),
        |i: int|
            Command::SetBorderColor {
                window: windows[i],
                color: if focused == Some(windows[i]) {
                    focused_color
                } else {
                    unfocused_color
                },
            },
    )
}

/// The commands that tell the server of a new focused window: the input
/// focus goes to it and it is raised.
pub open spec fn focus_commands(w: Window) -> Seq<Command> {
    seq![Command::SetInputFocus { window: w }, Command::Raise { window: w }]
}

/// The commands that close `window`: the request to close itself where it
/// takes part in that protocol, destruction where it does not.
pub open spec fn close_commands(window: Window, supports_delete: bool) -> Seq<Command> {
    seq![
        if supports_delete {
            Command::RequestClose { window }
        } else {
            Command::DestroyWindow { window }
        },
        Command::Flush,
    ]
}

/// Whether a window's answer `reply` to the question for its protocols
/// names `protocol`: there is an answer, it is a list of atoms in 32-bit
/// items, and `protocol` is among them.
pub open spec fn supports_protocol(reply: Option<&PropertyReply>, protocol: Atom) -> bool {
    match reply {
        Some(r) => r.type_ == ATOM_TYPE && r.format == 32 && r.value@.contains(protocol),
        None => false,
    }
}

impl WindowManager {
    /// The commands of `update_window_borders` for a workspace with the
    /// windows `windows` and the focus on `focused`: every border coloured,
    /// the overlays raised, a flush.
    pub open spec fn borders_of(&self, windows: Seq<Window>, focused: Option<Window>) -> Seq<
        Command,
    > {
        border_commands(
            windows,
            focused,
            self.border_focused_color,
            self.border_unfocused_color,
        ) + restack_commands(self.alerts@).push(Command::Flush)
    }

    /// The commands that go to the server after the focus of the workspace
    /// `ws` has come to rest on `w`: the input focus set, the window raised,
    /// the borders coloured again, the overlays put above everything.
    pub open spec fn refocus_commands(&self, ws: WorkspaceView, w: Window) -> Seq<Command> {
        focus_commands(w) + self.borders_of(ws.windows, ws.focused) + restack_commands(
            self.alerts@,
        ).push(Command::Flush)
    }

    /// The commands that make `window` fullscreen.
    pub open spec fn fullscreen_commands(&self, window: Window) -> Seq<Command> {
        seq![
            Command::Fullscreen {
                window,
                width: self.screen_width,
                height: self.screen_height,
            },
            Command::SetProperty {
                window,
                property: self.atoms.net_wm_state,
                value: self.atoms.net_wm_state_fullscreen,
            },
            Command::Flush,
        ]
    }

    /// The workspace `ws` after `window` has gone fullscreen in it.
    pub open spec fn with_fullscreen(&self, ws: WorkspaceView, window: Window) -> WorkspaceView {
        ws.with_state(
            window,
            ws.states[window].entered_fullscreen(self.screen_width, self.screen_height),
        )
    }

    /// The step of `manage_client` for a window whose declared state holds
    /// the atoms `state`. The window is added to the workspace on display,
    /// where it takes the focus only if no window has it. A window that
    /// declares itself fullscreen is shown fullscreen; any other gets its
    /// border, is shown, and the workspace is laid out and its borders
    /// coloured again.
    pub open spec fn manage_client_step(&self, window: Window, state: Seq<Atom>) -> Step {
        let added = self.current().add_client(window, ClientState::spec_new(0, 0, 100, 100));
        let adopt = seq![Command::AdoptWindow { window, border_color: self.border_unfocused_color }];
        if state.contains(self.atoms.net_wm_state_fullscreen) {
            self.replaced(self.with_fullscreen(added, window)).preceded_by(
                adopt + seq![Command::MapWindow { window }] + self.fullscreen_commands(window),
            )
        } else {
            let focus = if self.current().focused is None {
                focus_commands(window)
            } else {
                Seq::<Command>::empty()
            };
            self.relaid(added).preceded_by(
                adopt + seq![
                    Command::SetBorderWidth { window, width: self.border_width },
                    Command::MapWindow { window },
                ] + focus,
            ).followed_by(self.borders_of(added.windows, added.focused).push(Command::Flush))
        }
    }

    /// The step of `focus_next`.
    pub open spec fn focus_next_step(&self) -> Step {
        let ws = self.current().focus_next();
        self.replaced(ws).followed_by(
            if self.current().windows.len() < 2 {
                Seq::<Command>::empty()
            } else {
                self.refocus_commands(ws, ws.focused.unwrap())
            },
        )
    }

    /// The step of `focus_prev`.
    pub open spec fn focus_prev_step(&self) -> Step {
        let ws = self.current().focus_prev();
        self.replaced(ws).followed_by(
            if self.current().windows.len() < 2 {
                Seq::<Command>::empty()
            } else {
                self.refocus_commands(ws, ws.focused.unwrap())
            },
        )
    }

    /// The step of `focus_on_enter`.
    pub open spec fn focus_on_enter_step(&self, window: Window) -> Step {
        let ws = self.current();
        if ws.states.contains_key(window) && ws.focused != Some(window) {
            self.replaced(ws.set_focus(Some(window))).followed_by(
                focus_commands(window) + self.borders_of(ws.windows, Some(window)).push(
                    Command::Flush,
                ),
            )
        } else {
            self.idle()
        }
    }

    /// The step of `unmanage_client`.
    pub open spec fn unmanage_client_step(&self, window: Window) -> Step {
        let before = self.current();
        let rest = before.remove_client(window);
        let refocus = if before.focused == Some(window) && rest.focused is Some {
            focus_commands(rest.focused.unwrap())
        } else {
            Seq::<Command>::empty()
        };
        let borders = if rest.windows.len() > 0 {
            self.borders_of(rest.windows, rest.focused)
        } else {
            Seq::<Command>::empty()
        };
        self.relaid(rest).preceded_by(refocus).followed_by(
            borders + restack_commands(self.alerts@).push(Command::Flush),
        )
    }

    /// The step of `fullscreen_window`.
    pub open spec fn fullscreen_step(&self, window: Window) -> Step {
        self.replaced(self.with_fullscreen(self.current(), window)).followed_by(
            self.fullscreen_commands(window),
        )
    }

    /// The step of `unfullscreen_window`.
    pub open spec fn unfullscreen_step(&self, window: Window) -> Step {
        let ws = self.current();
        if ws.states.contains_key(window) {
            self.relaid(ws.with_state(window, ws.states[window].left_fullscreen())).preceded_by(
                self.unfullscreen_commands(window, ws.states[window]),
            )
        } else {
            self.idle()
        }
    }

    /// The step of `toggle_fullscreen`.
    pub open spec fn toggle_fullscreen_step(&self, window: Window) -> Step {
        let ws = self.current();
        if !ws.states.contains_key(window) {
            self.idle()
        } else if ws.states[window].is_fullscreen {
            self.unfullscreen_step(window)
        } else {
            self.fullscreen_step(window)
        }
    }

    /// The step of `handle_state_request`.
    pub open spec fn state_request_step(
        &self,
        window: Window,
        action: u32,
        state1: Atom,
        state2: Atom,
    ) -> Step {
        let fullscreen = self.atoms.net_wm_state_fullscreen;
        if state1 == fullscreen || state2 == fullscreen {
            if action == 0 {
                self.unfullscreen_step(window)
            } else if action == 1 {
                self.fullscreen_step(window)
            } else if action == 2 {
                self.toggle_fullscreen_step(window)
            } else {
                self.idle()
            }
        } else {
            self.idle()
        }
    }

    /// The records of the windows of the workspace on display.
    pub fn clients(&self) -> (r: &HashMap<Window, ClientState>)
        requires
            self.wf(),
        ensures
            r@ == self.current().states,
    {
        &self.workspaces.current().clients
    }

    /// The records of the windows of the workspace on display, for
    /// changing. What the caller leaves there is what the workspace then
    /// holds; its tiling order and its focus are not touched, so a caller
    /// that adds or removes a window leaves the workspace in disorder.
    pub fn clients_mut(&mut self) -> (r: &mut HashMap<Window, ClientState>)
        requires
            old(self).wf(),
        ensures
            r@ == old(self).current().states,
            final(self).workspaces@ == old(self).workspaces@.with_current(
                WorkspaceView { states: final(r)@, ..old(self).current() },
            ),
            old(self).same_but_workspaces(final(self)),
    {
        &mut self.workspaces.current_mut().clients
    }

    /// The focused window of the workspace on display.
    pub fn focused_client(&self) -> (r: Option<Window>)
        requires
            self.wf(),
        ensures
            r == self.current().focused,
    {
        self.workspaces.current().focused_client
    }

    /// Points the focus of the workspace on display at `window`. A window
    /// that the workspace does not have is refused and nothing changes.
    pub fn set_focused_client(&mut self, window: Option<Window>)
        requires
            old(self).wf(),
        ensures
            final(self).workspaces@ == old(self).workspaces@.with_current(
                old(self).current().set_focus(window),
            ),
            old(self).same_but_workspaces(final(self)),
            final(self).wf(),
    {
        let ws = self.workspaces.current_mut();
        ws.set_focus(window);
    }

    /// Colours the border of every window of the workspace on display by
    /// whether it has the focus.
    pub fn update_window_borders(&self) -> (cmds: Vec<Command>)
        requires
            self.wf(),
        ensures
            cmds@ == self.borders_of(self.current().windows, self.current().focused),
    {
        let ws = self.workspaces.current();
        let mut cmds: Vec<Command> = Vec::new();
        let mut i: usize = 0;
        while i < ws.order.len()
            invariant
                i <= ws.order@.len(),
                cmds@ == border_commands(
                    ws.order@.take(i as int),
                    ws.focused_client,
                    self.border_focused_color,
                    self.border_unfocused_color,
                ),
            decreases ws.order@.len() - i,
        {
            let window = ws.order[i];
            let color = if ws.focused_client == Some(window) {
                self.border_focused_color
            } else {
                self.border_unfocused_color
            };
            cmds.push(Command::SetBorderColor { window, color });
            proof {
                assert(cmds@ =~= border_commands(
                    ws.order@.take(i + 1),
                    ws.focused_client,
                    self.border_focused_color,
                    self.border_unfocused_color,
                ));
            }
            i = i + 1;
        }
        proof {
            assert(ws.order@.take(ws.order@.len() as int) =~= ws.order@);
        }
        extend(&mut cmds, self.restack_alerts());
        cmds.push(Command::Flush);
        cmds
    }

    /// The commands after the focus has come to rest on `w`.
    fn refocus(&self, w: Window) -> (cmds: Vec<Command>)
        requires
            self.wf(),
        ensures
            cmds@ == self.refocus_commands(self.current(), w),
    {
        let mut cmds: Vec<Command> = Vec::new();
        cmds.push(Command::SetInputFocus { window: w });
        cmds.push(Command::Raise { window: w });
        extend(&mut cmds, self.update_window_borders());
        extend(&mut cmds, self.restack_alerts());
        cmds.push(Command::Flush);
        cmds
    }

    /// Takes `window`, which asked to be shown, under management in the
    /// workspace on display. `state` holds the atoms of the window's declared
    /// state: a window that declares itself fullscreen is shown fullscreen,
    /// any other is given a border and tiled with the rest. The window gets
    /// the focus only where no window of the workspace has it.
    pub fn manage_client(&mut self, window: Window, state: &Vec<Atom>) -> (cmds: Vec<Command>)
        requires
            old(self).wf(),
        ensures
            cmds@ == old(self).manage_client_step(window, state@).commands,
            final(self).workspaces@ == old(self).manage_client_step(window, state@).workspaces,
            old(self).same_but_workspaces(final(self)),
            final(self).wf(),
    {
        let mut cmds: Vec<Command> = Vec::new();
        let ws = self.workspaces.current_mut();
        let unfocused = ws.focused_client.is_none();
        ws.add_client(window, ClientState::default());
        cmds.push(Command::AdoptWindow { window, border_color: self.border_unfocused_color });
        if holds_atom(state, self.atoms.net_wm_state_fullscreen) {
            cmds.push(Command::MapWindow { window });
            let ghost mid = self.workspaces@;
            extend(&mut cmds, self.fullscreen_window(window));
            proof {
                lemma_with_current_twice(
                    old(self).workspaces@,
                    mid.current_workspace(),
                    self.workspaces@.current_workspace(),
                );
            }
            return cmds;
        }
        cmds.push(Command::SetBorderWidth { window, width: self.border_width });
        cmds.push(Command::MapWindow { window });
        if unfocused {
            cmds.push(Command::SetInputFocus { window });
            cmds.push(Command::Raise { window });
        }
        let ghost head = cmds@;
        let ghost mid = self.workspaces@;
        extend(&mut cmds, self.layout());
        proof {
            lemma_with_current_twice(
                old(self).workspaces@,
                mid.current_workspace(),
                self.workspaces@.current_workspace(),
            );
            lemma_placed_frame(
                mid.current_workspace(),
                mid.current_workspace().placements(old(self).screen()),
            );
        }
        extend(&mut cmds, self.update_window_borders());
        cmds.push(Command::Flush);
        proof {
            let added = old(self).current().add_client(window, ClientState::spec_new(0, 0, 100, 100));
            assert(mid.current_workspace() == added);
            let focus = if old(self).current().focused is None {
                focus_commands(window)
            } else {
                Seq::<Command>::empty()
            };
            assert(head =~= seq![
                Command::AdoptWindow { window, border_color: old(self).border_unfocused_color },
            ] + seq![
                Command::SetBorderWidth { window, width: old(self).border_width },
                Command::MapWindow { window },
            ] + focus);
            assert(cmds@ =~= head + layout_commands(added, old(self).screen(), old(self).alerts@)
                + old(self).borders_of(added.windows, added.focused).push(Command::Flush));
        }
        cmds
    }

    /// Moves the focus of the workspace on display to the next window in
    /// ascending order of handles. With fewer than two windows nothing
    /// happens.
    pub fn focus_next(&mut self) -> (cmds: Vec<Command>)
        requires
            old(self).wf(),
        ensures
            cmds@ == old(self).focus_next_step().commands,
            final(self).workspaces@ == old(self).focus_next_step().workspaces,
            old(self).same_but_workspaces(final(self)),
            final(self).wf(),
    {
        let ws = self.workspaces.current_mut();
        if !ws.focus_next() {
            return Vec::new();
        }
        let next = ws.focused_client.unwrap();
        self.refocus(next)
    }

    /// Moves the focus of the workspace on display to the previous window
    /// in ascending order of handles. With fewer than two windows nothing
    /// happens.
    pub fn focus_prev(&mut self) -> (cmds: Vec<Command>)
        requires
            old(self).wf(),
        ensures
            cmds@ == old(self).focus_prev_step().commands,
            final(self).workspaces@ == old(self).focus_prev_step().workspaces,
            old(self).same_but_workspaces(final(self)),
            final(self).wf(),
    {
        let ws = self.workspaces.current_mut();
        if !ws.focus_prev() {
            return Vec::new();
        }
        let prev = ws.focused_client.unwrap();
        self.refocus(prev)
    }

    /// Gives the focus to `window`, which the pointer has entered, if it is
    /// a window of the workspace on display and does not have the focus
    /// already.
    pub fn focus_on_enter(&mut self, window: Window) -> (cmds: Vec<Command>)
        requires
            old(self).wf(),
        ensures
            cmds@ == old(self).focus_on_enter_step(window).commands,
            final(self).workspaces@ == old(self).focus_on_enter_step(window).workspaces,
            old(self).same_but_workspaces(final(self)),
            final(self).wf(),
    {
        let ws = self.workspaces.current();
        if !ws.contains(window) || ws.focused_client == Some(window) {
            return Vec::new();
        }
        let ws = self.workspaces.current_mut();
        ws.set_focus(Some(window));
        let mut cmds: Vec<Command> = Vec::new();
        cmds.push(Command::SetInputFocus { window });
        cmds.push(Command::Raise { window });
        extend(&mut cmds, self.update_window_borders());
        cmds.push(Command::Flush);
        cmds
    }

    /// Lets go of `window`, which was hidden or destroyed. If it had the
    /// focus, the lowest remaining handle of the workspace on display gets
    /// it. The layout is recomputed once.
    pub fn unmanage_client(&mut self, window: Window) -> (cmds: Vec<Command>)
        requires
            old(self).wf(),
        ensures
            cmds@ == old(self).unmanage_client_step(window).commands,
            final(self).workspaces@ == old(self).unmanage_client_step(window).workspaces,
            old(self).same_but_workspaces(final(self)),
            final(self).wf(),
    {
        let mut cmds: Vec<Command> = Vec::new();
        let ws = self.workspaces.current_mut();
        let had_focus = ws.focused_client == Some(window);
        ws.remove_client(window);
        match ws.focused_client {
            Some(next) => {
                if had_focus {
                    cmds.push(Command::SetInputFocus { window: next });
                    cmds.push(Command::Raise { window: next });
                }
            },
            None => {},
        }
        let ghost mid = self.workspaces@;
        let ghost head = cmds@;
        extend(&mut cmds, self.layout());
        proof {
            lemma_with_current_twice(
                old(self).workspaces@,
                mid.current_workspace(),
                self.workspaces@.current_workspace(),
            );
            lemma_placed_frame(
                mid.current_workspace(),
                mid.current_workspace().placements(old(self).screen()),
            );
        }
        let ghost after = mid.current_workspace();
        let ghost mut borders = Seq::<Command>::empty();
        if !self.workspaces.current().is_empty() {
            extend(&mut cmds, self.update_window_borders());
            proof {
                borders = old(self).borders_of(after.windows, after.focused);
            }
        }
        extend(&mut cmds, self.restack_alerts());
        cmds.push(Command::Flush);
        proof {
            assert(after == old(self).current().remove_client(window));
            assert(cmds@ =~= head + layout_commands(after, old(self).screen(), old(self).alerts@)
                + borders + restack_commands(old(self).alerts@).push(Command::Flush));
        }
        cmds
    }

    /// Whether the window that answered `reply` when asked for its
    /// protocols takes part in `protocol`.
    pub fn window_supports_protocol(&self, reply: Option<&PropertyReply>, protocol: Atom) -> (r:
        bool)
        ensures
            r == supports_protocol(reply, protocol),
    {
        match reply {
            Some(r) => {
                if r.type_ != ATOM_TYPE || r.format != 32 {
                    return false;
                }
                holds_atom(&r.value, protocol)
            },
            None => false,
        }
    }

    /// Closes `window`: asks it to close itself where it takes part in that
    /// protocol, as `supports_delete` says, and destroys it where not.
    pub fn close_window(&self, window: Window, supports_delete: bool) -> (cmds: Vec<Command>)
        ensures
            cmds@ == close_commands(window, supports_delete),
    {
        let mut cmds: Vec<Command> = Vec::new();
        if supports_delete {
            cmds.push(Command::RequestClose { window });
        } else {
            cmds.push(Command::DestroyWindow { window });
        }
        cmds.push(Command::Flush);
        cmds
    }

    /// Closes the focused window of the workspace on display, if there is
    /// one.
    pub fn close_focused_window(&self, supports_delete: bool) -> (cmds: Vec<Command>)
        requires
            self.wf(),
        ensures
            cmds@ == match self.current().focused {
                Some(w) => close_commands(w, supports_delete),
                None => Seq::<Command>::empty(),
            },
    {
        match self.focused_client() {
            Some(window) => self.close_window(window, supports_delete),
            None => Vec::new(),
        }
    }

    /// Takes `window` from tiled to fullscreen or back, whichever it is
    /// not. A window that the workspace on display does not have is left
    /// alone.
    pub fn toggle_fullscreen(&mut self, window: Window) -> (cmds: Vec<Command>)
        requires
            old(self).wf(),
        ensures
            cmds@ == old(self).toggle_fullscreen_step(window).commands,
            final(self).workspaces@ == old(self).toggle_fullscreen_step(window).workspaces,
            old(self).same_but_workspaces(final(self)),
            final(self).wf(),
    {
        match self.workspaces.current().client(window) {
            Some(state) => {
                if state.is_fullscreen {
                    self.unfullscreen_window(window)
                } else {
                    self.fullscreen_window(window)
                }
            },
            None => Vec::new(),
        }
    }

    /// Makes `window` fullscreen: it covers the screen without a border,
    /// above everything, and is marked fullscreen for other clients to see.
    /// If the workspace on display has the window, its rectangle is
    /// remembered for the way back, unless it is fullscreen already.
    pub fn fullscreen_window(&mut self, window: Window) -> (cmds: Vec<Command>)
        requires
            old(self).wf(),
        ensures
            cmds@ == old(self).fullscreen_step(window).commands,
            final(self).workspaces@ == old(self).fullscreen_step(window).workspaces,
            old(self).same_but_workspaces(final(self)),
            final(self).wf(),
    {
        let width = self.screen_width;
        let height = self.screen_height;
        let mut cmds: Vec<Command> = Vec::new();
        cmds.push(Command::Fullscreen { window, width, height });
        cmds.push(
            Command::SetProperty {
                window,
                property: self.atoms.net_wm_state,
                value: self.atoms.net_wm_state_fullscreen,
            },
        );
        cmds.push(Command::Flush);
        let ws = self.workspaces.current_mut();
        match ws.client(window) {
            Some(mut state) => {
                state.enter_fullscreen(width, height);
                ws.set_client(window, state);
            },
            None => {},
        }
        cmds
    }

    /// The commands that take `window`, whose record is `state`, back from
    /// fullscreen to the rectangle it remembers.
    pub open spec fn unfullscreen_commands(&self, window: Window, state: ClientState) -> Seq<
        Command,
    > {
        seq![
            Command::Restore {
                window,
                rect: state.saved_geometry(),
                border_width: self.border_width,
            },
            Command::DeleteProperty { window, property: self.atoms.net_wm_state },
            Command::Flush,
        ]
    }

    /// Takes `window` back from fullscreen: it returns to the rectangle
    /// remembered for it, gets its border back, loses the mark, and the
    /// layout is recomputed with it. A window that the workspace on display
    /// does not have is left alone.
    pub fn unfullscreen_window(&mut self, window: Window) -> (cmds: Vec<Command>)
        requires
            old(self).wf(),
        ensures
            cmds@ == old(self).unfullscreen_step(window).commands,
            final(self).workspaces@ == old(self).unfullscreen_step(window).workspaces,
            old(self).same_but_workspaces(final(self)),
            final(self).wf(),
    {
        let border_width = self.border_width;
        let property = self.atoms.net_wm_state;
        let ws = self.workspaces.current_mut();
        match ws.client(window) {
            Some(mut state) => {
                let rect = Rect {
                    x: state.saved_x,
                    y: state.saved_y,
                    width: state.saved_width,
                    height: state.saved_height,
                };
                state.leave_fullscreen();
                ws.set_client(window, state);
                let mut cmds: Vec<Command> = Vec::new();
                cmds.push(Command::Restore { window, rect, border_width });
                cmds.push(Command::DeleteProperty { window, property });
                cmds.push(Command::Flush);
                let ghost mid = self.workspaces@;
                extend(&mut cmds, self.layout());
                proof {
                    lemma_with_current_twice(
                        old(self).workspaces@,
                        mid.current_workspace(),
                        self.workspaces@.current_workspace(),
                    );
                }
                cmds
            },
            None => {
                proof {
                    assert(final(self).workspaces@.workspaces =~= old(self).workspaces@.workspaces);
                }
                Vec::new()
            },
        }
    }

    /// Acts on a client's request to change the state of `window`. Only a
    /// request that names the fullscreen state, as its first or second
    /// state, is acted on: `action` 0 takes the window out of fullscreen, 1
    /// puts it there, 2 toggles; any other action, and any other state, is
    /// passed over.
    pub fn handle_state_request(&mut self, window: Window, action: u32, state1: Atom, state2: Atom) -> (cmds:
        Vec<Command>)
        requires
            old(self).wf(),
        ensures
            cmds@ == old(self).state_request_step(window, action, state1, state2).commands,
            final(self).workspaces@ == old(self).state_request_step(window, action, state1, state2).workspaces,
            old(self).same_but_workspaces(final(self)),
            final(self).wf(),
    {
        let fullscreen = self.atoms.net_wm_state_fullscreen;
        if state1 == fullscreen || state2 == fullscreen {
            if action == 0 {
                return self.unfullscreen_window(window);
            } else if action == 1 {
                return self.fullscreen_window(window);
            } else if action == 2 {
                return self.toggle_fullscreen(window);
            }
        }
        Vec::new()
    }
}

/// A window that asks to be shown comes under management without taking
/// the focus from the window that has it: afterwards the workspace on
/// display has the new window, tiled unless it declared itself fullscreen,
/// and the focus is where it was.
pub proof fn lemma_manage_keeps_focus(wm: &WindowManager, window: Window, state: Seq<Atom>)
    requires
        wm.wf(),
        wm.current().focused is Some,
    ensures
        ({
            let after = wm.manage_client_step(window, state).workspaces.current_workspace();
            &&& after.focused == wm.current().focused
            &&& after.states.contains_key(window)
            &&& after.windows.contains(window)
            &&& after.states[window].is_fullscreen == state.contains(
                wm.atoms.net_wm_state_fullscreen,
            )
        }),
{
    let added = wm.current().add_client(window, ClientState::spec_new(0, 0, 100, 100));
    crate::workspaces::lemma_add_client_wf(
        wm.current(),
        window,
        ClientState::spec_new(0, 0, 100, 100),
    );
    assert(added.windows.contains(window) <==> added.states.contains_key(window));
    lemma_with_current_twice(wm.workspaces@, added, added);
    if !state.contains(wm.atoms.net_wm_state_fullscreen) {
        lemma_placed_frame(added, added.placements(wm.screen()));
        assert(added.relayout(wm.screen()).states.dom().contains(window));
    }
}

/// A tiled window that goes fullscreen and is then taken back is sent to
/// exactly the rectangle it had before: the rectangle of the restoring
/// command is the one recorded when the window went fullscreen.
pub proof fn lemma_restore_returns_to_start(ws: WorkspaceView, window: Window, width: u16, height: u16)
    requires
        ws.states.contains_key(window),
        !ws.states[window].is_fullscreen,
    ensures
        ({
            let full = ws.with_state(window, ws.states[window].entered_fullscreen(width, height));
            &&& full.states[window].is_fullscreen
            &&& full.states[window].saved_geometry() == ws.states[window].geometry()
            &&& full.with_state(window, full.states[window].left_fullscreen()).states[window]
                == ws.states[window].saved()
        }),
{
}

} // verus!
