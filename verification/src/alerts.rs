//! Overlays: short-lived windows that show one line of text above all
//! managed windows.

use vstd::prelude::*;
use crate::commands::{extend, Command, Gcontext};
use crate::geometry::{clamp_coord, to_coord, Rect, Window};
use crate::wm::WindowManager;

verus! {

/// Distance of an overlay from the edges of the screen, in pixels.
pub const ALERT_MARGIN: u16 = 10;

/// Width of an overlay in pixels.
pub const ALERT_WIDTH: u16 = 200;

/// Height of an overlay in pixels.
pub const ALERT_HEIGHT: u16 = 50;

/// Milliseconds after which an overlay is old.
pub const ALERT_TIMEOUT_MS: u64 = 3000;

/// Where on the overlay its text begins.
pub const ALERT_TEXT_X: i16 = 20;

/// Where on the overlay the baseline of its text lies.
pub const ALERT_TEXT_Y: i16 = 30;

/// The corner or place of the screen at which an overlay is put.
#[derive(Clone, Copy, Debug, PartialEq, Eq, Structural)]
pub enum Position {
    TopRight,
    TopLeft,
    Center,
    BottomRight,
    BottomLeft,
}

/// An overlay on display.
#[derive(Debug)]
pub struct Alert {
    pub window: Window,
    pub gc: Gcontext,
    pub message: String,
    /// When the overlay was drawn, in milliseconds of a clock that does not
    /// go back.
    pub created_at: u64,
}

/// The mathematical picture of an overlay: as [`Alert`], with the message as
/// a sequence of characters.
pub struct AlertView {
    pub window: Window,
    pub gc: Gcontext,
    pub message: Seq<char>,
    pub created_at: u64,
}

impl View for Alert {
    type V = AlertView;

    open spec fn view(&self) -> AlertView {
        AlertView {
            window: self.window,
            gc: self.gc,
            message: self.message@,
            created_at: self.created_at,
        }
    }
}

/// The pictures of the overlays of `alerts`, in their order.
pub open spec fn alerts_view(alerts: Seq<Alert>) -> Seq<AlertView> {
    Seq::new(alerts.len(), |i: int| alerts[i]@)
}

/// What the connection has set aside for a new overlay: the identifiers of
/// its window and of its graphics context, and the time.
#[derive(Clone, Copy, Debug, PartialEq, Eq, Structural)]
pub struct AlertSeed {
    pub window: Window,
    pub gc: Gcontext,
    pub now: u64,
}

/// Left edge of a window of width `w` put at `pos` on a screen of width
/// `screen`.
pub open spec fn position_x(pos: Position, screen: u16, w: u16) -> int {
    match pos {
        Position::TopLeft | Position::BottomLeft => ALERT_MARGIN as int,
        Position::TopRight | Position::BottomRight => screen - (ALERT_MARGIN + w),
        Position::Center => if screen >= w {
            (screen - w) / 2
        } else {
            0
        },
    }
}

/// Top edge of a window of height `h` put at `pos` on a screen of height
/// `screen`.
pub open spec fn position_y(pos: Position, screen: u16, h: u16) -> int {
    match pos {
        Position::TopLeft | Position::TopRight => ALERT_MARGIN as int,
        Position::BottomLeft | Position::BottomRight => screen - (ALERT_MARGIN + h),
        Position::Center => if screen >= h {
            (screen - h) / 2
        } else {
            0
        },
    }
}

/// The commands that raise every overlay above the managed windows and send
/// what is buffered.
pub open spec fn restack_commands(alerts: Seq<Alert>) -> Seq<Command> {
    Seq::new(alerts.len(), |i: int| Command::Raise { window: alerts[i].window }).push(
        Command::Flush,
    )
}

/// The commands that take every overlay down: for each its graphics context
/// freed and its window destroyed, then a flush.
pub open spec fn clear_commands(alerts: Seq<Alert>) -> Seq<Command> {
    Seq::new(
        2 * alerts.len(),
        |i: int|
            if i % 2 == 0 {
                Command::FreeGc { gc: alerts[i / 2].gc }
            } else {
                Command::DestroyWindow { window: alerts[i / 2].window }
            },
    ).push(Command::Flush)
}

/// The commands that draw the text of an overlay again.
pub open spec fn redraw_commands(alert: Alert) -> Seq<Command> {
    seq![
        Command::DrawText {
            window: alert.window,
            gc: alert.gc,
            x: ALERT_TEXT_X,
            y: ALERT_TEXT_Y,
        },
        Command::Flush,
    ]
}

/// Index of the first overlay of `alerts` whose window is `window`.
pub open spec fn find_alert(alerts: Seq<Alert>, window: Window) -> Option<int>
    decreases alerts.len(),
{
    if alerts.len() == 0 {
        None
    } else {
        match find_alert(alerts.drop_last(), window) {
            Some(i) => Some(i),
            None => if alerts.last().window == window {
                Some(alerts.len() - 1)
            } else {
                None
            },
        }
    }
}

/// What [`find_alert`] finds is the first overlay with that window.
pub proof fn lemma_find_alert(alerts: Seq<Alert>, window: Window)
    ensures
        match find_alert(alerts, window) {
            Some(i) => 0 <= i < alerts.len() && alerts[i].window == window && forall|j: int|
                0 <= j < i ==> (#[trigger] alerts[j]).window != window,
            None => forall|j: int| 0 <= j < alerts.len() ==> (#[trigger] alerts[j]).window != window,
        },
    decreases alerts.len(),
{
    if alerts.len() > 0 {
        let t = alerts.drop_last();
        lemma_find_alert(t, window);
        assert forall|j: int| 0 <= j < t.len() implies t[j] == alerts[j] by {}
        match find_alert(t, window) {
            Some(i) => {
                assert(t[i] == alerts[i]);
                assert forall|j: int| 0 <= j < i implies (#[trigger] alerts[j]).window != window by {
                    assert(t[j] == alerts[j]);
                }
            },
            None => {
                assert forall|j: int| 0 <= j < t.len() implies (#[trigger] alerts[j]).window
                    != window by {
                    assert(t[j] == alerts[j]);
                }
            },
        }
    }
}

/// If the first `n` overlays hold one with the window, the whole list has
/// it at the same index.
pub proof fn lemma_find_alert_prefix(alerts: Seq<Alert>, window: Window, n: int)
    requires
        0 <= n <= alerts.len(),
    ensures
        find_alert(alerts.take(n), window) is Some ==> find_alert(alerts, window) == find_alert(
            alerts.take(n),
            window,
        ),
    decreases alerts.len() - n,
{
    if n < alerts.len() {
        let t = alerts.take(n + 1);
        assert(t.drop_last() =~= alerts.take(n));
        lemma_find_alert_prefix(alerts, window, n + 1);
    } else {
        assert(alerts.take(n) =~= alerts);
    }
}

/// An overlay is old at `now`: more than [`ALERT_TIMEOUT_MS`] have passed
/// since it was drawn.
pub open spec fn is_old(alert: Alert, now: u64) -> bool {
    now > alert.created_at && now - alert.created_at > ALERT_TIMEOUT_MS
}

/// The overlays of `alerts` that are not old at `now`, in their order.
pub open spec fn young_alerts(alerts: Seq<Alert>, now: u64) -> Seq<Alert> {
    alerts.filter(|a: Alert| !is_old(a, now))
}

/// The overlays of `alerts` that are old at `now`, in their order.
pub open spec fn old_alerts(alerts: Seq<Alert>, now: u64) -> Seq<Alert> {
    alerts.filter(|a: Alert| is_old(a, now))
}

impl WindowManager {
    /// The rectangle of a window of the given size put at `pos` on the
    /// screen.
    pub open spec fn spec_position(&self, pos: Position, win_w: u16, win_h: u16) -> Rect {
        Rect {
            x: clamp_coord(position_x(pos, self.screen_width, win_w)),
            y: clamp_coord(position_y(pos, self.screen_height, win_h)),
            width: win_w,
            height: win_h,
        }
    }

    /// The commands of `draw_alert`: the overlays on display taken down, the
    /// new one created at the bottom right, shown, raised and drawn on, and a
    /// flush.
    pub open spec fn draw_commands(&self, seed: AlertSeed) -> Seq<Command> {
        clear_commands(self.alerts@) + seq![
            Command::CreateAlert {
                window: seed.window,
                gc: seed.gc,
                rect: self.spec_position(Position::BottomRight, ALERT_WIDTH, ALERT_HEIGHT),
            },
            Command::MapWindow { window: seed.window },
            Command::Raise { window: seed.window },
            Command::DrawText {
                window: seed.window,
                gc: seed.gc,
                x: ALERT_TEXT_X,
                y: ALERT_TEXT_Y,
            },
            Command::Flush,
        ]
    }

    /// The rectangle of a window of the given size put at `pos` on the
    /// screen.
    pub fn position(&self, pos: Position, win_w: u16, win_h: u16) -> (r: Rect)
        ensures
            r == self.spec_position(pos, win_w, win_h),
    {
        let sw: i128 = self.screen_width as i128;
        let sh: i128 = self.screen_height as i128;
        let w: i128 = win_w as i128;
        let h: i128 = win_h as i128;
        let m: i128 = 10;
        let (x, y) = match pos {
            Position::TopLeft => (m, m),
            Position::TopRight => (sw - (m + w), m),
            Position::Center => (
                if sw >= w {
                    (sw - w) / 2
                } else {
                    0
                },
                if sh >= h {
                    (sh - h) / 2
                } else {
                    0
                },
            ),
            Position::BottomLeft => (m, sh - (m + h)),
            Position::BottomRight => (sw - (m + w), sh - (m + h)),
        };
        Rect { x: to_coord(x), y: to_coord(y), width: win_w, height: win_h }
    }

    /// Raises every overlay above the managed windows.
    pub fn restack_alerts(&self) -> (cmds: Vec<Command>)
        ensures
            cmds@ == restack_commands(self.alerts@),
    {
        let mut cmds: Vec<Command> = Vec::new();
        let mut i: usize = 0;
        while i < self.alerts.len()
            invariant
                i <= self.alerts@.len(),
                cmds@ == Seq::new(i as nat, |j: int| Command::Raise { window: self.alerts@[j].window }),
            decreases self.alerts@.len() - i,
        {
            cmds.push(Command::Raise { window: self.alerts[i].window });
            i = i + 1;
        }
        cmds.push(Command::Flush);
        cmds
    }

    /// Takes every overlay down.
    pub fn clear_alerts(&mut self) -> (cmds: Vec<Command>)
        ensures
            cmds@ == clear_commands(old(self).alerts@),
            final(self).alerts@.len() == 0,
            old(self).same_but_alerts(final(self)),
    {
        let mut cmds: Vec<Command> = Vec::new();
        let mut i: usize = 0;
        while i < self.alerts.len()
            invariant
                *self == *old(self),
                i <= self.alerts@.len(),
                cmds@ == Seq::new(
                    2 * i as nat,
                    |j: int|
                        if j % 2 == 0 {
                            Command::FreeGc { gc: self.alerts@[j / 2].gc }
                        } else {
                            Command::DestroyWindow { window: self.alerts@[j / 2].window }
                        },
                ),
            decreases self.alerts@.len() - i,
        {
            cmds.push(Command::FreeGc { gc: self.alerts[i].gc });
            cmds.push(Command::DestroyWindow { window: self.alerts[i].window });
            i = i + 1;
        }
        self.alerts.clear();
        cmds.push(Command::Flush);
        cmds
    }

    /// Takes down the overlays that are old at `now` and keeps the others.
    pub fn clear_old_alerts(&mut self, now: u64) -> (cmds: Vec<Command>)
        ensures
            cmds@ == clear_commands(old_alerts(old(self).alerts@, now)),
            final(self).alerts@ == young_alerts(old(self).alerts@, now),
            old(self).same_but_alerts(final(self)),
    {
        let mut cmds: Vec<Command> = Vec::new();
        let mut kept: Vec<Alert> = Vec::new();
        let ghost mut gone: Seq<Alert> = Seq::empty();
        let ghost all: Seq<Alert> = self.alerts@;
        let mut rest: Vec<Alert> = Vec::new();
        std::mem::swap(&mut self.alerts, &mut rest);
        let total = rest.len();
        let mut i: usize = 0;
        proof {
            reveal(Seq::filter);
            assert(rest@ =~= all.subrange(0, total as int));
            assert(all.take(0) =~= Seq::<Alert>::empty());
        }
        while i < total
            invariant
                old(self).same_but_alerts(self),
                all == old(self).alerts@,
                i <= total,
                total == all.len(),
                rest@ == all.subrange(i as int, total as int),
                kept@ == young_alerts(all.take(i as int), now),
                gone == old_alerts(all.take(i as int), now),
                cmds@ == Seq::new(
                    2 * gone.len(),
                    |j: int|
                        if j % 2 == 0 {
                            Command::FreeGc { gc: gone[j / 2].gc }
                        } else {
                            Command::DestroyWindow { window: gone[j / 2].window }
                        },
                ),
            decreases total - i,
        {
            let alert = rest.remove(0);
            proof {
                assert(rest@ =~= all.subrange(i + 1, total as int));
                reveal(Seq::filter);
                let t = all.take(i + 1);
                assert(t.drop_last() =~= all.take(i as int));
                assert(t.last() == alert);
            }
            if now > alert.created_at && now - alert.created_at > 3000 {
                cmds.push(Command::FreeGc { gc: alert.gc });
                cmds.push(Command::DestroyWindow { window: alert.window });
                proof {
                    gone = gone.push(alert);
                }
            } else {
                kept.push(alert);
            }
            i = i + 1;
        }
        proof {
            assert(all.take(total as int) =~= all);
        }
        self.alerts = kept;
        cmds.push(Command::Flush);
        cmds
    }

    /// The commands that answer the notice that part of `window` has to be
    /// drawn again, with `count` more such notices to follow: the text of
    /// the overlay with that window is drawn again once the last notice has
    /// come. Other windows are not the manager's to draw.
    pub open spec fn expose_commands(&self, window: Window, count: u16) -> Seq<Command> {
        match find_alert(self.alerts@, window) {
            Some(i) => if count == 0 {
                redraw_commands(self.alerts@[i])
            } else {
                Seq::empty()
            },
            None => Seq::empty(),
        }
    }

    /// Answers the notice that part of `window` has to be drawn again.
    pub fn expose(&self, window: Window, count: u16) -> (cmds: Vec<Command>)
        ensures
            cmds@ == self.expose_commands(window, count),
    {
        let mut i: usize = 0;
        proof {
            assert(self.alerts@.take(0) =~= Seq::<Alert>::empty());
        }
        while i < self.alerts.len()
            invariant
                i <= self.alerts@.len(),
                find_alert(self.alerts@.take(i as int), window) is None,
            decreases self.alerts@.len() - i,
        {
            proof {
                let t = self.alerts@.take(i + 1);
                assert(t.drop_last() =~= self.alerts@.take(i as int));
                assert(t.last() == self.alerts@[i as int]);
                lemma_find_alert_prefix(self.alerts@, window, i + 1);
            }
            if self.alerts[i].window == window {
                assert(find_alert(self.alerts@.take(i + 1), window) == Some(i as int));
                if count == 0 {
                    return self.redraw_alert(&self.alerts[i]);
                }
                return Vec::new();
            }
            i = i + 1;
        }
        proof {
            assert(self.alerts@.take(self.alerts@.len() as int) =~= self.alerts@);
        }
        Vec::new()
    }

    /// Draws the text of `alert` again.
    pub fn redraw_alert(&self, alert: &Alert) -> (cmds: Vec<Command>)
        ensures
            cmds@ == redraw_commands(*alert),
    {
        let mut cmds: Vec<Command> = Vec::new();
        cmds.push(Command::DrawText { window: alert.window, gc: alert.gc, x: 20, y: 30 });
        cmds.push(Command::Flush);
        cmds
    }

    /// Shows `msg` in a new overlay at the bottom right of the screen, in
    /// place of the overlays that were there.
    pub fn draw_alert(&mut self, msg: String, seed: AlertSeed) -> (cmds: Vec<Command>)
        ensures
            cmds@ == old(self).draw_commands(seed),
            final(self).alerts@ == seq![
                Alert { window: seed.window, gc: seed.gc, message: msg, created_at: seed.now },
            ],
            alerts_view(final(self).alerts@) == seq![
                AlertView {
                    window: seed.window,
                    gc: seed.gc,
                    message: msg@,
                    created_at: seed.now,
                },
            ],
            old(self).same_but_alerts(final(self)),
    {
        let mut cmds = self.clear_alerts();
        let rect = self.position(Position::BottomRight, 200, 50);
        cmds.push(Command::CreateAlert { window: seed.window, gc: seed.gc, rect });
        cmds.push(Command::MapWindow { window: seed.window });
        cmds.push(Command::Raise { window: seed.window });
        cmds.push(Command::DrawText { window: seed.window, gc: seed.gc, x: 20, y: 30 });
        cmds.push(Command::Flush);
        self.alerts.push(
            Alert { window: seed.window, gc: seed.gc, message: msg, created_at: seed.now },
        );
        proof {
            assert(alerts_view(self.alerts@) =~= seq![
                AlertView {
                    window: seed.window,
                    gc: seed.gc,
                    message: msg@,
                    created_at: seed.now,
                },
            ]);
        }
        cmds
    }
}

} // verus!
