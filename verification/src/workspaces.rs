//! The workspace store: the workspaces, the windows that each one holds with
//! their records and their tiling order, and the focus pointer of each.
//!
//! The store knows nothing of the display protocol. Its contracts are stated
//! over [`WorkspaceView`] and [`WorkspaceManagerView`], the mathematical
//! picture of a workspace and of the whole store.

use vstd::prelude::*;
use std::collections::HashMap;
use crate::clients::{focus_commands, ClientState};
use crate::commands::{extend, Command};
use crate::geometry::{Rect, Window};
use crate::layout::{compute, layout_commands, placements, LayoutConfig, LayoutType, Placement};
use crate::utils::{decimal, decimal_string};
use crate::wm::{Step, WindowManager};

verus! {

/// `w` occurs in `s` and nothing in `s` is below it.
pub open spec fn is_lowest(s: Seq<Window>, w: Window) -> bool {
    s.contains(w) && forall|i: int| 0 <= i < s.len() ==> w <= #[trigger] s[i]
}

/// `w` occurs in `s` and nothing in `s` is above it.
pub open spec fn is_highest(s: Seq<Window>, w: Window) -> bool {
    s.contains(w) && forall|i: int| 0 <= i < s.len() ==> w >= #[trigger] s[i]
}

/// The lowest handle in `s`, if `s` holds any.
pub open spec fn lowest(s: Seq<Window>) -> Option<Window> {
    if s.len() == 0 {
        None
    } else {
        Some(choose|w: Window| is_lowest(s, w))
    }
}

/// The highest handle in `s`, if `s` holds any.
pub open spec fn highest(s: Seq<Window>) -> Option<Window> {
    if s.len() == 0 {
        None
    } else {
        Some(choose|w: Window| is_highest(s, w))
    }
}

/// Some handle in `s` is above `c`.
pub open spec fn has_above(s: Seq<Window>, c: Window) -> bool {
    exists|i: int| 0 <= i < s.len() && #[trigger] s[i] > c
}

/// Some handle in `s` is below `c`.
pub open spec fn has_below(s: Seq<Window>, c: Window) -> bool {
    exists|i: int| 0 <= i < s.len() && #[trigger] s[i] < c
}

/// `w` is the handle of `s` that follows `c` in ascending order.
pub open spec fn is_next_above(s: Seq<Window>, c: Window, w: Window) -> bool {
    &&& s.contains(w)
    &&& w > c
    &&& forall|i: int| 0 <= i < s.len() && #[trigger] s[i] > c ==> w <= s[i]
}

/// `w` is the handle of `s` that precedes `c` in ascending order.
pub open spec fn is_next_below(s: Seq<Window>, c: Window, w: Window) -> bool {
    &&& s.contains(w)
    &&& w < c
    &&& forall|i: int| 0 <= i < s.len() && #[trigger] s[i] < c ==> w >= s[i]
}

/// The handle after `c` when the handles of `s` are walked in ascending
/// order, the lowest one following the highest.
pub open spec fn next_in_cycle(s: Seq<Window>, c: Window) -> Window {
    if has_above(s, c) {
        choose|w: Window| is_next_above(s, c, w)
    } else {
        lowest(s).unwrap()
    }
}

/// The handle before `c` when the handles of `s` are walked in ascending
/// order, the highest one preceding the lowest.
pub open spec fn prev_in_cycle(s: Seq<Window>, c: Window) -> Window {
    if has_below(s, c) {
        choose|w: Window| is_next_below(s, c, w)
    } else {
        highest(s).unwrap()
    }
}

/// The handle from which a focus step sets out: the focused window where it
/// is one of `s`, else the lowest handle, which stands first in ascending
/// order.
pub open spec fn focus_base(s: Seq<Window>, focused: Option<Window>) -> Window {
    match focused {
        Some(c) => if s.contains(c) {
            c
        } else {
            lowest(s).unwrap()
        },
        None => lowest(s).unwrap(),
    }
}

/// A handle that meets [`is_lowest`] is the lowest.
pub proof fn lemma_lowest_unique(s: Seq<Window>, w: Window)
    requires
        is_lowest(s, w),
    ensures
        lowest(s) == Some(w),
{
    let c = choose|c: Window| is_lowest(s, c);
    assert(is_lowest(s, c));
    assert(s.len() > 0);
}

/// A handle that meets [`is_highest`] is the highest.
pub proof fn lemma_highest_unique(s: Seq<Window>, w: Window)
    requires
        is_highest(s, w),
    ensures
        highest(s) == Some(w),
{
    let c = choose|c: Window| is_highest(s, c);
    assert(is_highest(s, c));
    assert(s.len() > 0);
}

/// A handle that meets [`is_next_above`] is the next in the cycle.
pub proof fn lemma_next_above_unique(s: Seq<Window>, c: Window, w: Window)
    requires
        is_next_above(s, c, w),
    ensures
        next_in_cycle(s, c) == w,
{
    let d = choose|d: Window| is_next_above(s, c, d);
    assert(is_next_above(s, c, d));
    let i = choose|i: int| 0 <= i < s.len() && s[i] == w;
    assert(s[i] > c);
}

/// A handle that meets [`is_next_below`] is the previous in the cycle.
pub proof fn lemma_next_below_unique(s: Seq<Window>, c: Window, w: Window)
    requires
        is_next_below(s, c, w),
    ensures
        prev_in_cycle(s, c) == w,
{
    let d = choose|d: Window| is_next_below(s, c, d);
    assert(is_next_below(s, c, d));
    let i = choose|i: int| 0 <= i < s.len() && s[i] == w;
    assert(s[i] < c);
}

/// Index of the first occurrence of `w` in `v`.
pub fn position(v: &Vec<Window>, w: Window) -> (r: Option<usize>)
    ensures
        match r {
            Some(i) => i < v@.len() && v@[i as int] == w && v@.index_of_first(w) == Some(
                i as int,
            ),
            None => !v@.contains(w) && v@.index_of_first(w) is None,
        },
{
    proof {
        v@.index_of_first_ensures(w);
    }
    let mut i: usize = 0;
    while i < v.len()
        invariant
            i <= v@.len(),
            forall|j: int| 0 <= j < i ==> v@[j] != w,
        decreases v@.len() - i,
    {
        if v[i] == w {
            proof {
                v@.index_of_first_ensures(w);
                assert(v@.contains(w));
                let k = v@.index_of_first(w).unwrap();
                assert(v@[k] == w);
                assert(v@[i as int] == w);
                assert(k == i);
            }
            return Some(i);
        }
        i = i + 1;
    }
    None
}

/// The lowest handle in `v`.
pub fn lowest_window(v: &Vec<Window>) -> (r: Option<Window>)
    ensures
        r == lowest(v@),
{
    if v.len() == 0 {
        return None;
    }
    let mut best: Window = v[0];
    let mut i: usize = 1;
    while i < v.len()
        invariant
            1 <= i <= v@.len(),
            exists|j: int| 0 <= j < i && v@[j] == best,
            forall|j: int| 0 <= j < i ==> best <= v@[j],
        decreases v@.len() - i,
    {
        if v[i] < best {
            best = v[i];
        }
        i = i + 1;
    }
    proof {
        lemma_lowest_unique(v@, best);
    }
    Some(best)
}

/// The highest handle in `v`.
pub fn highest_window(v: &Vec<Window>) -> (r: Option<Window>)
    ensures
        r == highest(v@),
{
    if v.len() == 0 {
        return None;
    }
    let mut best: Window = v[0];
    let mut i: usize = 1;
    while i < v.len()
        invariant
            1 <= i <= v@.len(),
            exists|j: int| 0 <= j < i && v@[j] == best,
            forall|j: int| 0 <= j < i ==> best >= v@[j],
        decreases v@.len() - i,
    {
        if v[i] > best {
            best = v[i];
        }
        i = i + 1;
    }
    proof {
        lemma_highest_unique(v@, best);
    }
    Some(best)
}

/// The handle of `v` that follows `c` in ascending order, the lowest
/// following the highest.
pub fn next_window(v: &Vec<Window>, c: Window) -> (r: Window)
    requires
        v@.len() > 0,
    ensures
        r == next_in_cycle(v@, c),
{
    let mut best: Option<Window> = None;
    let mut i: usize = 0;
    while i < v.len()
        invariant
            i <= v@.len(),
            match best {
                Some(b) => b > c && (exists|j: int| 0 <= j < i && v@[j] == b) && forall|j: int|
                    0 <= j < i && v@[j] > c ==> b <= v@[j],
                None => forall|j: int| 0 <= j < i ==> v@[j] <= c,
            },
        decreases v@.len() - i,
    {
        let x = v[i];
        if x > c {
            best = match best {
                Some(b) => if x < b {
                    Some(x)
                } else {
                    Some(b)
                },
                None => Some(x),
            };
        }
        i = i + 1;
    }
    match best {
        Some(b) => {
            proof {
                lemma_next_above_unique(v@, c, b);
            }
            b
        },
        None => {
            assert(!has_above(v@, c));
            let l = lowest_window(v);
            l.unwrap()
        },
    }
}

/// The handle of `v` that precedes `c` in ascending order, the highest
/// preceding the lowest.
pub fn prev_window(v: &Vec<Window>, c: Window) -> (r: Window)
    requires
        v@.len() > 0,
    ensures
        r == prev_in_cycle(v@, c),
{
    let mut best: Option<Window> = None;
    let mut i: usize = 0;
    while i < v.len()
        invariant
            i <= v@.len(),
            match best {
                Some(b) => b < c && (exists|j: int| 0 <= j < i && v@[j] == b) && forall|j: int|
                    0 <= j < i && v@[j] < c ==> b >= v@[j],
                None => forall|j: int| 0 <= j < i ==> v@[j] >= c,
            },
        decreases v@.len() - i,
    {
        let x = v[i];
        if x < c {
            best = match best {
                Some(b) => if x > b {
                    Some(x)
                } else {
                    Some(b)
                },
                None => Some(x),
            };
        }
        i = i + 1;
    }
    match best {
        Some(b) => {
            proof {
                lemma_next_below_unique(v@, c, b);
            }
            b
        },
        None => {
            assert(!has_below(v@, c));
            let h = highest_window(v);
            h.unwrap()
        },
    }
}

/// The handles of `windows` whose record in `states` is not fullscreen, in
/// the order of `windows`.
pub open spec fn tiled_of(windows: Seq<Window>, states: Map<Window, ClientState>) -> Seq<Window> {
    windows.filter(|w: Window| !states[w].is_fullscreen)
}

/// The mathematical picture of a workspace.
pub struct WorkspaceView {
    pub id: u8,
    pub name: Seq<char>,
    /// The windows in tiling order.
    pub windows: Seq<Window>,
    /// The record of each window.
    pub states: Map<Window, ClientState>,
    pub focused: Option<Window>,
    pub layout: LayoutConfig,
}

impl WorkspaceView {
    /// The invariant of a workspace: no window stands twice in the tiling
    /// order, the order holds exactly the windows that have a record, the
    /// focused window is one of them, and the layout parameters are in their
    /// ranges. An empty workspace therefore has no focused window.
    pub open spec fn wf(self) -> bool {
        &&& self.windows.no_duplicates()
        &&& forall|w: Window| #[trigger] self.windows.contains(w) <==> self.states.contains_key(w)
        &&& (self.focused matches Some(w) ==> self.states.contains_key(w))
        &&& self.layout.wf()
    }

    /// The workspace with `w` added under the record `s`. A window that is
    /// there already keeps its place in the order and gets the new record.
    /// The window takes the focus if nothing has it.
    pub open spec fn add_client(self, w: Window, s: ClientState) -> WorkspaceView {
        WorkspaceView {
            windows: if self.states.contains_key(w) {
                self.windows
            } else {
                self.windows.push(w)
            },
            states: self.states.insert(w, s),
            focused: if self.focused is None {
                Some(w)
            } else {
                self.focused
            },
            ..self
        }
    }

    /// The workspace with `w` taken out. If `w` had the focus, the lowest
    /// remaining handle gets it, or nothing where no window remains.
    pub open spec fn remove_client(self, w: Window) -> WorkspaceView {
        WorkspaceView {
            windows: self.windows.remove_value(w),
            states: self.states.remove(w),
            focused: if self.focused == Some(w) {
                lowest(self.windows.remove_value(w))
            } else {
                self.focused
            },
            ..self
        }
    }

    /// The workspace with the focus pointer set to `w`, where `w` is nothing
    /// or a window of the workspace; unchanged otherwise.
    pub open spec fn set_focus(self, w: Option<Window>) -> WorkspaceView {
        match w {
            Some(x) => if self.states.contains_key(x) {
                WorkspaceView { focused: w, ..self }
            } else {
                self
            },
            None => WorkspaceView { focused: None, ..self },
        }
    }

    /// The workspace after a step of the focus to the next window in
    /// ascending order of handles, wrapping round. With fewer than two
    /// windows nothing changes.
    pub open spec fn focus_next(self) -> WorkspaceView {
        if self.windows.len() < 2 {
            self
        } else {
            WorkspaceView {
                focused: Some(next_in_cycle(self.windows, focus_base(self.windows, self.focused))),
                ..self
            }
        }
    }

    /// The workspace after a step of the focus to the previous window in
    /// ascending order of handles, wrapping round. With fewer than two
    /// windows nothing changes.
    pub open spec fn focus_prev(self) -> WorkspaceView {
        if self.windows.len() < 2 {
            self
        } else {
            WorkspaceView {
                focused: Some(prev_in_cycle(self.windows, focus_base(self.windows, self.focused))),
                ..self
            }
        }
    }

    /// The windows that take part in tiling: those that are not fullscreen,
    /// in tiling order.
    pub open spec fn tiled(self) -> Seq<Window> {
        tiled_of(self.windows, self.states)
    }

    /// What the layout engine answers for this workspace on the screen
    /// `area`.
    pub open spec fn placements(self, area: Rect) -> Seq<Placement> {
        placements(self.tiled(), area, self.layout)
    }

    /// The workspace with the rectangle of `p` recorded for its window, if
    /// the workspace has that window.
    pub open spec fn place(self, p: Placement) -> WorkspaceView {
        if self.states.contains_key(p.window) {
            WorkspaceView {
                states: self.states.insert(p.window, self.states[p.window].with_geometry(p.rect)),
                ..self
            }
        } else {
            self
        }
    }

    /// The workspace with every placement of `ps` recorded, the first one
    /// first.
    pub open spec fn placed(self, ps: Seq<Placement>) -> WorkspaceView
        decreases ps.len(),
    {
        if ps.len() == 0 {
            self
        } else {
            self.placed(ps.drop_last()).place(ps.last())
        }
    }

    /// The workspace after its tiled windows have been laid out on `area`.
    pub open spec fn relayout(self, area: Rect) -> WorkspaceView {
        self.placed(self.placements(area))
    }

    /// The workspace with the record of `w` replaced by `s`, if the
    /// workspace has `w`.
    pub open spec fn with_state(self, w: Window, s: ClientState) -> WorkspaceView {
        if self.states.contains_key(w) {
            WorkspaceView { states: self.states.insert(w, s), ..self }
        } else {
            self
        }
    }

    /// The workspace with the layout parameters `c`.
    pub open spec fn with_layout(self, c: LayoutConfig) -> WorkspaceView {
        WorkspaceView { layout: c, ..self }
    }

    /// The workspace with the first window of the tiling order moved to its
    /// end. If that window had the focus, the window that is first now gets
    /// it. With fewer than two windows nothing changes.
    pub open spec fn rotated(self) -> WorkspaceView {
        if self.windows.len() < 2 {
            self
        } else {
            WorkspaceView {
                windows: self.windows.subrange(1, self.windows.len() as int).push(self.windows[0]),
                focused: if self.focused == Some(self.windows[0]) {
                    Some(self.windows[1])
                } else {
                    self.focused
                },
                ..self
            }
        }
    }

    /// The workspace with the focused window moved to the head of the tiling
    /// order, where the master column begins. Without a focused window
    /// nothing changes.
    pub open spec fn promoted(self) -> WorkspaceView {
        match self.focused {
            Some(w) => if self.windows.contains(w) {
                WorkspaceView { windows: seq![w] + self.windows.remove_value(w), ..self }
            } else {
                self
            },
            None => self,
        }
    }
}

/// A workspace: its windows in tiling order, the record of each, the focus
/// pointer and the layout parameters.
#[derive(Debug, Clone)]
pub struct Workspace {
    pub id: u8,
    pub name: String,
    pub clients: HashMap<Window, ClientState>,
    /// The windows of `clients` in tiling order.
    pub order: Vec<Window>,
    pub focused_client: Option<Window>,
    pub layout_config: LayoutConfig,
}

impl View for Workspace {
    type V = WorkspaceView;

    open spec fn view(&self) -> WorkspaceView {
        WorkspaceView {
            id: self.id,
            name: self.name@,
            windows: self.order@,
            states: self.clients@,
            focused: self.focused_client,
            layout: self.layout_config,
        }
    }
}

impl Workspace {
    /// The invariant of [`WorkspaceView::wf`] holds of this workspace.
    pub open spec fn wf(&self) -> bool {
        self@.wf()
    }

    /// An empty workspace with the default layout parameters.
    pub fn new(id: u8, name: String) -> (ws: Self)
        ensures
            ws@ == (WorkspaceView {
                id,
                name: name@,
                windows: Seq::empty(),
                states: Map::empty(),
                focused: None,
                layout: LayoutConfig {
                    current: LayoutType::MasterStack,
                    master_ratio: 50,
                    nmaster: 1,
                    gap_size: 10,
                    screen_padding: 10,
                },
            }),
            ws.wf(),
    {
        let ws = Workspace {
            id,
            name,
            clients: HashMap::new(),
            order: Vec::new(),
            focused_client: None,
            layout_config: LayoutConfig::default(),
        };
        assert(ws@.states =~= Map::empty());
        ws
    }

    /// Adds `window` with the record `state`, or replaces the record of a
    /// window that is there already. The window takes the focus if nothing
    /// has it.
    pub fn add_client(&mut self, window: Window, state: ClientState)
        ensures
            final(self)@ == old(self)@.add_client(window, state),
            old(self).wf() ==> final(self).wf(),
    {
        if !self.clients.contains_key(&window) {
            self.order.push(window);
        }
        self.clients.insert(window, state);
        if self.focused_client.is_none() {
            self.focused_client = Some(window);
        }
        proof {
            if old(self).wf() {
                lemma_add_client_wf(old(self)@, window, state);
            }
        }
    }

    /// Takes `window` out and hands back its record, `None` if the workspace
    /// does not have it. If it had the focus, the lowest remaining handle
    /// gets it.
    pub fn remove_client(&mut self, window: Window) -> (r: Option<ClientState>)
        ensures
            final(self)@ == old(self)@.remove_client(window),
            r == if old(self)@.states.contains_key(window) {
                Some(old(self)@.states[window])
            } else {
                None
            },
            old(self).wf() ==> final(self).wf(),
    {
        let r = self.clients.remove(&window);
        match position(&self.order, window) {
            Some(i) => {
                self.order.remove(i);
            },
            None => {},
        }
        if self.focused_client == Some(window) {
            self.focused_client = lowest_window(&self.order);
        }
        proof {
            if old(self).wf() {
                lemma_remove_client_wf(old(self)@, window);
            }
        }
        r
    }

    /// Whether the workspace holds no window.
    pub fn is_empty(&self) -> (r: bool)
        ensures
            r == (self@.windows.len() == 0),
    {
        self.order.is_empty()
    }

    /// Number of windows in the workspace.
    pub fn len(&self) -> (r: usize)
        ensures
            r == self@.windows.len(),
    {
        self.order.len()
    }

    /// Whether `window` is one of the workspace's windows.
    pub fn contains(&self, window: Window) -> (r: bool)
        ensures
            r == self@.states.contains_key(window),
    {
        self.clients.contains_key(&window)
    }

    /// The record of `window`, if the workspace has it.
    pub fn client(&self, window: Window) -> (r: Option<ClientState>)
        ensures
            r == if self@.states.contains_key(window) {
                Some(self@.states[window])
            } else {
                None
            },
    {
        match self.clients.get(&window) {
            Some(s) => Some(*s),
            None => None,
        }
    }

    /// Replaces the record of `window`; does nothing and answers `false` if
    /// the workspace does not have it.
    pub fn set_client(&mut self, window: Window, state: ClientState) -> (r: bool)
        ensures
            final(self)@ == old(self)@.with_state(window, state),
            r == old(self)@.states.contains_key(window),
            old(self).wf() ==> final(self).wf(),
    {
        if self.clients.contains_key(&window) {
            self.clients.insert(window, state);
            proof {
                if old(self).wf() {
                    assert forall|w: Window| #[trigger]
                        final(self)@.windows.contains(w) <==> final(self)@.states.contains_key(
                            w,
                        ) by {
                        assert(old(self)@.windows.contains(w) <==> old(self)@.states.contains_key(w));
                    }
                }
            }
            true
        } else {
            false
        }
    }

    /// Points the focus at `window`, which is nothing or one of the
    /// workspace's windows. A window that the workspace does not have is
    /// refused: nothing changes and the answer is `false`.
    pub fn set_focus(&mut self, window: Option<Window>) -> (r: bool)
        ensures
            final(self)@ == old(self)@.set_focus(window),
            r == (window matches Some(w) ==> old(self)@.states.contains_key(w)),
            old(self).wf() ==> final(self).wf(),
    {
        match window {
            Some(w) => {
                if self.clients.contains_key(&w) {
                    self.focused_client = window;
                    true
                } else {
                    false
                }
            },
            None => {
                self.focused_client = None;
                true
            },
        }
    }
}

/// Adding a window keeps a workspace well formed.
pub proof fn lemma_add_client_wf(v: WorkspaceView, w: Window, s: ClientState)
    requires
        v.wf(),
    ensures
        v.add_client(w, s).wf(),
{
    let r = v.add_client(w, s);
    assert(v.windows.contains(w) <==> v.states.contains_key(w));
    if !v.states.contains_key(w) {
        assert(r.windows.last() == w);
        assert forall|i: int, j: int| 0 <= i < r.windows.len() && 0 <= j < r.windows.len() && i != j
            implies r.windows[i] != r.windows[j] by {
            if i == v.windows.len() {
                assert(v.windows[j] == r.windows[j]);
                assert(v.windows.contains(v.windows[j]));
            } else if j == v.windows.len() {
                assert(v.windows[i] == r.windows[i]);
                assert(v.windows.contains(v.windows[i]));
            }
        }
    }
    assert forall|x: Window| #[trigger] r.windows.contains(x) <==> r.states.contains_key(x) by {
        assert(v.windows.contains(x) <==> v.states.contains_key(x));
        if r.windows.contains(x) {
            let i = choose|i: int| 0 <= i < r.windows.len() && r.windows[i] == x;
            if i < v.windows.len() {
                assert(v.windows[i] == x);
                assert(v.windows.contains(x));
            }
        }
        if r.states.contains_key(x) {
            if x == w {
                if v.states.contains_key(w) {
                } else {
                    assert(r.windows[v.windows.len() as int] == w);
                }
            } else {
                let i = choose|i: int| 0 <= i < v.windows.len() && v.windows[i] == x;
                assert(r.windows[i] == x);
            }
        }
    }
}

/// What is left of a sequence without duplicates when `w` is taken out:
/// every other element, once, and `w` no more.
pub proof fn lemma_remove_value(s: Seq<Window>, w: Window)
    requires
        s.no_duplicates(),
    ensures
        s.remove_value(w).no_duplicates(),
        !s.remove_value(w).contains(w),
        forall|x: Window| x != w ==> (#[trigger] s.remove_value(w).contains(x) <==> s.contains(x)),
        s.contains(w) ==> s.remove_value(w).len() == s.len() - 1,
        !s.contains(w) ==> s.remove_value(w) == s,
{
    s.index_of_first_ensures(w);
    let r = s.remove_value(w);
    match s.index_of_first(w) {
        Some(k) => {
            s.remove_ensures(k);
            assert forall|i: int, j: int| 0 <= i < r.len() && 0 <= j < r.len() && i != j implies r[i]
                != r[j] by {
                let ii = if i < k {
                    i
                } else {
                    i + 1
                };
                let jj = if j < k {
                    j
                } else {
                    j + 1
                };
                assert(r[i] == s[ii]);
                assert(r[j] == s[jj]);
            }
            if r.contains(w) {
                let i = choose|i: int| 0 <= i < r.len() && r[i] == w;
                let ii = if i < k {
                    i
                } else {
                    i + 1
                };
                assert(r[i] == s[ii]);
                assert(s[k] == w);
            }
            assert forall|x: Window| x != w implies (#[trigger] r.contains(x) <==> s.contains(
                x,
            )) by {
                if r.contains(x) {
                    let i = choose|i: int| 0 <= i < r.len() && r[i] == x;
                    let ii = if i < k {
                        i
                    } else {
                        i + 1
                    };
                    assert(r[i] == s[ii]);
                }
                if s.contains(x) {
                    let i = choose|i: int| 0 <= i < s.len() && s[i] == x;
                    let ii = if i < k {
                        i
                    } else {
                        i - 1
                    };
                    assert(r[ii] == s[i]);
                }
            }
        },
        None => {},
    }
}

/// The lowest handle of a sequence is one of its elements.
pub proof fn lemma_lowest_is_member(s: Seq<Window>)
    ensures
        lowest(s) matches Some(w) ==> is_lowest(s, w),
        s.len() > 0 ==> lowest(s) is Some,
    decreases s.len(),
{
    if s.len() > 0 {
        let t = s.drop_last();
        lemma_lowest_is_member(t);
        let x = s.last();
        let m: Window = if t.len() == 0 {
            x
        } else {
            let l = lowest(t).unwrap();
            if x < l {
                x
            } else {
                l
            }
        };
        assert(s[s.len() - 1] == x);
        if t.len() > 0 {
            let l = lowest(t).unwrap();
            let i = choose|i: int| 0 <= i < t.len() && t[i] == l;
            assert(s[i] == l);
        }
        assert forall|i: int| 0 <= i < s.len() implies m <= #[trigger] s[i] by {
            if i < t.len() {
                assert(t[i] == s[i]);
            }
        }
        assert(is_lowest(s, m));
    }
}

/// The highest handle of a sequence is one of its elements.
pub proof fn lemma_highest_is_member(s: Seq<Window>)
    ensures
        highest(s) matches Some(w) ==> is_highest(s, w),
        s.len() > 0 ==> highest(s) is Some,
    decreases s.len(),
{
    if s.len() > 0 {
        let t = s.drop_last();
        lemma_highest_is_member(t);
        let x = s.last();
        let m: Window = if t.len() == 0 {
            x
        } else {
            let l = highest(t).unwrap();
            if x > l {
                x
            } else {
                l
            }
        };
        assert(s[s.len() - 1] == x);
        if t.len() > 0 {
            let l = highest(t).unwrap();
            let i = choose|i: int| 0 <= i < t.len() && t[i] == l;
            assert(s[i] == l);
        }
        assert forall|i: int| 0 <= i < s.len() implies m >= #[trigger] s[i] by {
            if i < t.len() {
                assert(t[i] == s[i]);
            }
        }
        assert(is_highest(s, m));
    }
}

/// Removing a window keeps a workspace well formed.
pub proof fn lemma_remove_client_wf(v: WorkspaceView, w: Window)
    requires
        v.wf(),
    ensures
        v.remove_client(w).wf(),
{
    let r = v.remove_client(w);
    lemma_remove_value(v.windows, w);
    lemma_lowest_is_member(r.windows);
    assert forall|x: Window| #[trigger] r.windows.contains(x) <==> r.states.contains_key(x) by {
        assert(v.windows.contains(x) <==> v.states.contains_key(x));
    }
    match r.focused {
        Some(f) => {
            if v.focused == Some(w) {
                assert(r.windows.contains(f));
            } else {
                assert(f != w);
            }
        },
        None => {},
    }
}

impl Workspace {
    /// Moves the focus to the next window in ascending order of handles,
    /// wrapping round, and answers whether the workspace has two windows or
    /// more, that is, whether a step was made.
    pub fn focus_next(&mut self) -> (moved: bool)
        requires
            old(self).wf(),
        ensures
            final(self)@ == old(self)@.focus_next(),
            moved == (old(self)@.windows.len() >= 2),
            final(self).wf(),
    {
        if self.order.len() < 2 {
            return false;
        }
        let base = self.focus_start();
        let next = next_window(&self.order, base);
        proof {
            lemma_next_in_cycle_is_member(self.order@, base);
            assert(self@.windows.contains(next) <==> self@.states.contains_key(next));
        }
        self.focused_client = Some(next);
        true
    }

    /// Moves the focus to the previous window in ascending order of handles,
    /// wrapping round, and answers whether a step was made.
    pub fn focus_prev(&mut self) -> (moved: bool)
        requires
            old(self).wf(),
        ensures
            final(self)@ == old(self)@.focus_prev(),
            moved == (old(self)@.windows.len() >= 2),
            final(self).wf(),
    {
        if self.order.len() < 2 {
            return false;
        }
        let base = self.focus_start();
        let prev = prev_window(&self.order, base);
        proof {
            lemma_prev_in_cycle_is_member(self.order@, base);
            assert(self@.windows.contains(prev) <==> self@.states.contains_key(prev));
        }
        self.focused_client = Some(prev);
        true
    }

    /// The handle from which a focus step sets out.
    fn focus_start(&self) -> (base: Window)
        requires
            self.wf(),
            self@.windows.len() > 0,
        ensures
            base == focus_base(self@.windows, self@.focused),
    {
        let found = match self.focused_client {
            Some(c) => {
                assert(self@.windows.contains(c) <==> self@.states.contains_key(c));
                if self.clients.contains_key(&c) {
                    Some(c)
                } else {
                    None
                }
            },
            None => None,
        };
        match found {
            Some(c) => c,
            None => {
                let l = lowest_window(&self.order);
                l.unwrap()
            },
        }
    }

    /// The windows that take part in tiling, in tiling order.
    pub fn tiled_windows(&self) -> (out: Vec<Window>)
        requires
            self.wf(),
        ensures
            out@ == self@.tiled(),
    {
        let mut out: Vec<Window> = Vec::new();
        let mut i: usize = 0;
        proof {
            reveal(Seq::filter);
            assert(self.order@.take(0) =~= Seq::<Window>::empty());
        }
        while i < self.order.len()
            invariant
                self.wf(),
                i <= self.order@.len(),
                out@ == tiled_of(self.order@.take(i as int), self.clients@),
            decreases self.order@.len() - i,
        {
            let w = self.order[i];
            let full = match self.clients.get(&w) {
                Some(s) => s.is_fullscreen,
                None => false,
            };
            proof {
                reveal(Seq::filter);
                let t = self.order@.take(i + 1);
                assert(t.drop_last() =~= self.order@.take(i as int));
                assert(t.last() == w);
                assert(self@.windows[i as int] == w);
                assert(self@.windows.contains(w) <==> self@.states.contains_key(w));
            }
            if !full {
                out.push(w);
            }
            i = i + 1;
        }
        proof {
            assert(self.order@.take(self.order@.len() as int) =~= self.order@);
        }
        out
    }

    /// Records the rectangle of each placement for its window.
    pub fn apply_placements(&mut self, ps: &Vec<Placement>)
        ensures
            final(self)@ == old(self)@.placed(ps@),
            old(self).wf() ==> final(self).wf(),
            final(self)@.id == old(self)@.id,
            final(self)@.windows == old(self)@.windows,
            final(self)@.focused == old(self)@.focused,
            final(self)@.layout == old(self)@.layout,
    {
        let mut i: usize = 0;
        proof {
            assert(ps@.take(0) =~= Seq::<Placement>::empty());
            lemma_placed_frame(old(self)@, ps@);
        }
        while i < ps.len()
            invariant
                i <= ps@.len(),
                self@ == old(self)@.placed(ps@.take(i as int)),
                old(self).wf() ==> self.wf(),
            decreases ps@.len() - i,
        {
            let p = ps[i];
            proof {
                let t = ps@.take(i + 1);
                assert(t.drop_last() =~= ps@.take(i as int));
                assert(t.last() == p);
            }
            match self.client(p.window) {
                Some(mut st) => {
                    st.set_geometry(p.rect);
                    self.set_client(p.window, st);
                },
                None => {},
            }
            i = i + 1;
        }
        proof {
            assert(ps@.take(ps@.len() as int) =~= ps@);
        }
    }

    /// Lays the tiled windows out on the screen `area`, records the new
    /// rectangles and hands them back in tiling order.
    pub fn relayout(&mut self, area: Rect) -> (out: Vec<Placement>)
        requires
            old(self).wf(),
        ensures
            out@ == old(self)@.placements(area),
            final(self)@ == old(self)@.relayout(area),
            final(self).wf(),
            final(self)@.id == old(self)@.id,
            final(self)@.windows == old(self)@.windows,
            final(self)@.focused == old(self)@.focused,
            final(self)@.layout == old(self)@.layout,
    {
        let tiled = self.tiled_windows();
        let out = compute(&tiled, area, &self.layout_config);
        self.apply_placements(&out);
        out
    }

    /// Moves the first window of the tiling order to its end. If it had the
    /// focus, the window that is first now gets it.
    pub fn rotate(&mut self) -> (moved: bool)
        requires
            old(self).wf(),
        ensures
            final(self)@ == old(self)@.rotated(),
            moved == (old(self)@.windows.len() >= 2),
            final(self).wf(),
    {
        if self.order.len() < 2 {
            return false;
        }
        let first = self.order.remove(0);
        self.order.push(first);
        if self.focused_client == Some(first) {
            self.focused_client = Some(self.order[0]);
        }
        proof {
            let o = old(self)@.windows;
            let n = self@.windows;
            assert(n =~= o.subrange(1, o.len() as int).push(o[0]));
            assert forall|i: int, j: int| 0 <= i < n.len() && 0 <= j < n.len() && i != j implies n[i]
                != n[j] by {
                let ii = if i == n.len() - 1 {
                    0
                } else {
                    i + 1
                };
                let jj = if j == n.len() - 1 {
                    0
                } else {
                    j + 1
                };
                assert(n[i] == o[ii]);
                assert(n[j] == o[jj]);
            }
            assert forall|w: Window| #[trigger] n.contains(w) <==> self@.states.contains_key(w) by {
                assert(o.contains(w) <==> old(self)@.states.contains_key(w));
                if n.contains(w) {
                    let i = choose|i: int| 0 <= i < n.len() && n[i] == w;
                    let ii = if i == n.len() - 1 {
                        0
                    } else {
                        i + 1
                    };
                    assert(o[ii] == w);
                }
                if o.contains(w) {
                    let i = choose|i: int| 0 <= i < o.len() && o[i] == w;
                    let ii = if i == 0 {
                        n.len() - 1
                    } else {
                        i - 1
                    };
                    assert(n[ii] == w);
                }
            }
            assert(n.contains(n[0]));
        }
        true
    }

    /// Moves the focused window to the head of the tiling order and answers
    /// whether there was a focused window to move.
    pub fn promote(&mut self) -> (moved: bool)
        requires
            old(self).wf(),
        ensures
            final(self)@ == old(self)@.promoted(),
            moved == (old(self)@.focused is Some),
            final(self).wf(),
    {
        match self.focused_client {
            Some(w) => {
                assert(self@.windows.contains(w) <==> self@.states.contains_key(w));
                match position(&self.order, w) {
                    Some(i) => {
                        self.order.remove(i);
                        self.order.insert(0, w);
                        proof {
                            let o = old(self)@.windows;
                            let r = o.remove_value(w);
                            let n = self@.windows;
                            lemma_remove_value(o, w);
                            assert(n =~= seq![w] + r);
                            assert forall|a: int, b: int|
                                0 <= a < n.len() && 0 <= b < n.len() && a != b implies n[a]
                                != n[b] by {
                                if a > 0 {
                                    assert(n[a] == r[a - 1]);
                                    assert(r.contains(r[a - 1]));
                                }
                                if b > 0 {
                                    assert(n[b] == r[b - 1]);
                                    assert(r.contains(r[b - 1]));
                                }
                            }
                            assert forall|x: Window| #[trigger]
                                n.contains(x) <==> self@.states.contains_key(x) by {
                                assert(o.contains(x) <==> old(self)@.states.contains_key(x));
                                if n.contains(x) {
                                    let a = choose|a: int| 0 <= a < n.len() && n[a] == x;
                                    if a > 0 {
                                        assert(r[a - 1] == x);
                                        assert(r.contains(x));
                                    }
                                }
                                if o.contains(x) {
                                    if x == w {
                                        assert(n[0] == w);
                                    } else {
                                        assert(r.contains(x));
                                        let a = choose|a: int| 0 <= a < r.len() && r[a] == x;
                                        assert(n[a + 1] == x);
                                    }
                                }
                            }
                        }
                    },
                    None => {},
                }
                true
            },
            None => false,
        }
    }
}

/// Recording placements changes the records of windows that the workspace
/// has, and nothing else: not which windows it has, nor their order, nor the
/// focus, nor the layout parameters.
pub proof fn lemma_placed_frame(ws: WorkspaceView, ps: Seq<Placement>)
    ensures
        ws.placed(ps).id == ws.id,
        ws.placed(ps).name == ws.name,
        ws.placed(ps).windows == ws.windows,
        ws.placed(ps).focused == ws.focused,
        ws.placed(ps).layout == ws.layout,
        ws.placed(ps).states.dom() == ws.states.dom(),
        forall|w: Window|
            ws.states.contains_key(w) ==> (#[trigger] ws.placed(ps).states[w]).is_fullscreen
                == ws.states[w].is_fullscreen && ws.placed(ps).states[w].saved_geometry()
                == ws.states[w].saved_geometry(),
        ws.wf() ==> ws.placed(ps).wf(),
    decreases ps.len(),
{
    if ps.len() > 0 {
        lemma_placed_frame(ws, ps.drop_last());
        let mid = ws.placed(ps.drop_last());
        let p = ps.last();
        assert(mid.place(p).states.dom() =~= mid.states.dom());
        assert(ws.placed(ps).states.dom() == ws.states.dom());
        if ws.wf() {
            let r = ws.placed(ps);
            assert forall|w: Window| #[trigger] r.windows.contains(w) <==> r.states.contains_key(
                w,
            ) by {
                assert(ws.windows.contains(w) <==> ws.states.contains_key(w));
                assert(r.states.dom().contains(w) <==> ws.states.dom().contains(w));
            }
        }
    }
}

/// `ps` places no window twice.
pub open spec fn places_each_once(ps: Seq<Placement>) -> bool {
    forall|i: int, j: int|
        0 <= i < ps.len() && 0 <= j < ps.len() && i != j ==> (#[trigger] ps[i]).window != (
        #[trigger] ps[j]).window
}

/// `ps` places the window `w`.
pub open spec fn places(ps: Seq<Placement>, w: Window) -> bool {
    exists|i: int| 0 <= i < ps.len() && (#[trigger] ps[i]).window == w
}

/// The tiled windows of a workspace are its windows that are not
/// fullscreen, each of them once.
pub proof fn lemma_tiled(windows: Seq<Window>, states: Map<Window, ClientState>)
    requires
        windows.no_duplicates(),
    ensures
        tiled_of(windows, states).no_duplicates(),
        forall|w: Window| #[trigger]
            tiled_of(windows, states).contains(w) <==> windows.contains(w)
                && !states[w].is_fullscreen,
    decreases windows.len(),
{
    reveal(Seq::filter);
    let f = tiled_of(windows, states);
    if windows.len() > 0 {
        let t = windows.drop_last();
        let x = windows.last();
        assert forall|i: int, j: int| 0 <= i < t.len() && 0 <= j < t.len() && i != j implies t[i]
            != t[j] by {
            assert(t[i] == windows[i] && t[j] == windows[j]);
        }
        lemma_tiled(t, states);
        let ft = tiled_of(t, states);
        assert(!t.contains(x)) by {
            if t.contains(x) {
                let i = choose|i: int| 0 <= i < t.len() && t[i] == x;
                assert(windows[i] == x && windows[windows.len() - 1] == x);
            }
        }
        assert forall|w: Window| #[trigger] f.contains(w) <==> windows.contains(w)
            && !states[w].is_fullscreen by {
            if f.contains(w) {
                let i = choose|i: int| 0 <= i < f.len() && f[i] == w;
                if i < ft.len() {
                    assert(ft[i] == w);
                    assert(ft.contains(w));
                    let k = choose|k: int| 0 <= k < t.len() && t[k] == w;
                    assert(windows[k] == w);
                } else {
                    assert(w == x);
                    assert(windows[windows.len() - 1] == x);
                }
            }
            if windows.contains(w) && !states[w].is_fullscreen {
                let k = choose|k: int| 0 <= k < windows.len() && windows[k] == w;
                if k < t.len() {
                    assert(t[k] == w);
                    assert(t.contains(w));
                    assert(ft.contains(w));
                    let i = choose|i: int| 0 <= i < ft.len() && ft[i] == w;
                    assert(f[i] == w);
                } else {
                    assert(f[ft.len() as int] == w);
                }
            }
        }
        if !states[x].is_fullscreen {
            assert forall|i: int, j: int| 0 <= i < f.len() && 0 <= j < f.len() && i != j implies f[i]
                != f[j] by {
                if i == ft.len() {
                    assert(ft[j] == f[j]);
                    assert(ft.contains(ft[j]));
                } else if j == ft.len() {
                    assert(ft[i] == f[i]);
                    assert(ft.contains(ft[i]));
                }
            }
        }
    }
}

/// After placements that place no window twice have been recorded, each
/// placed window of the workspace has the rectangle of its placement and is
/// otherwise as it was, and every window that was not placed is as it was.
pub proof fn lemma_placed_states(ws: WorkspaceView, ps: Seq<Placement>)
    requires
        places_each_once(ps),
    ensures
        forall|i: int|
            0 <= i < ps.len() && ws.states.contains_key((#[trigger] ps[i]).window)
                ==> ws.placed(ps).states[ps[i].window] == ws.states[ps[i].window].with_geometry(
                ps[i].rect,
            ),
        forall|w: Window|
            ws.states.contains_key(w) && !places(ps, w) ==> #[trigger] ws.placed(ps).states[w]
                == ws.states[w],
    decreases ps.len(),
{
    if ps.len() > 0 {
        let t = ps.drop_last();
        let p = ps.last();
        assert forall|i: int, j: int| 0 <= i < t.len() && 0 <= j < t.len() && i != j implies (
        #[trigger] t[i]).window != (#[trigger] t[j]).window by {
            assert(t[i] == ps[i] && t[j] == ps[j]);
        }
        lemma_placed_states(ws, t);
        lemma_placed_frame(ws, t);
        let mid = ws.placed(t);
        let r = ws.placed(ps);
        assert(mid.states.dom() == ws.states.dom());
        assert(!places(t, p.window)) by {
            if places(t, p.window) {
                let i = choose|i: int| 0 <= i < t.len() && (#[trigger] t[i]).window == p.window;
                assert(ps[i].window == ps[ps.len() - 1].window);
            }
        }
        assert forall|i: int|
            0 <= i < ps.len() && ws.states.contains_key((#[trigger] ps[i]).window) implies r.states[ps[i].window]
            == ws.states[ps[i].window].with_geometry(ps[i].rect) by {
            if i < t.len() {
                assert(t[i] == ps[i]);
                assert(ps[i].window != ps[ps.len() - 1].window);
            } else {
                assert(mid.states.contains_key(p.window));
                assert(mid.states[p.window] == ws.states[p.window]);
            }
        }
        assert forall|w: Window| ws.states.contains_key(w) && !places(ps, w) implies #[trigger] r.states[w]
            == ws.states[w] by {
            assert(ps[ps.len() - 1].window != w);
            assert(!places(t, w)) by {
                if places(t, w) {
                    let i = choose|i: int| 0 <= i < t.len() && (#[trigger] t[i]).window == w;
                    assert(ps[i].window == w);
                }
            }
        }
    }
}

/// What a layout recompute does to a well-formed workspace: the placements
/// are those of its tiled windows in tiling order, each placed window is
/// recorded at its rectangle, and every other window, the fullscreen ones
/// among them, keeps its record.
pub proof fn lemma_relayout(ws: WorkspaceView, area: Rect)
    requires
        ws.wf(),
    ensures
        ws.placements(area).len() == 0 || ws.placements(area).len() == ws.tiled().len(),
        forall|i: int|
            0 <= i < ws.placements(area).len() ==> (#[trigger] ws.placements(area)[i]).window
                == ws.tiled()[i] && ws.relayout(area).states[ws.tiled()[i]]
                == ws.states[ws.tiled()[i]].with_geometry(ws.placements(area)[i].rect),
        forall|w: Window|
            ws.states.contains_key(w) && (!ws.tiled().contains(w) || ws.placements(area).len()
                == 0) ==> #[trigger] ws.relayout(area).states[w] == ws.states[w],
        places_each_once(ws.placements(area)),
{
    let ps = ws.placements(area);
    let tiled = ws.tiled();
    lemma_tiled(ws.windows, ws.states);
    assert forall|i: int| 0 <= i < ps.len() implies (#[trigger] ps[i]).window == tiled[i] by {}
    assert(places_each_once(ps));
    lemma_placed_states(ws, ps);
    assert forall|i: int| 0 <= i < ps.len() implies ws.relayout(area).states[tiled[i]]
        == ws.states[tiled[i]].with_geometry(ps[i].rect) by {
        assert(ps[i].window == tiled[i]);
        assert(tiled.contains(tiled[i]));
        assert(ws.windows.contains(tiled[i]) <==> ws.states.contains_key(tiled[i]));
    }
    assert forall|w: Window|
        ws.states.contains_key(w) && (!tiled.contains(w) || ps.len() == 0) implies #[trigger] ws.relayout(
        area,
    ).states[w] == ws.states[w] by {
        if places(ps, w) {
            let i = choose|i: int| 0 <= i < ps.len() && (#[trigger] ps[i]).window == w;
            assert(tiled[i] == w);
        }
    }
}

/// A layout recompute of a workspace that was just laid out on the same
/// screen changes nothing.
pub proof fn lemma_relayout_idempotent(ws: WorkspaceView, area: Rect)
    requires
        ws.wf(),
    ensures
        ws.relayout(area).placements(area) == ws.placements(area),
        ws.relayout(area).relayout(area) == ws.relayout(area),
{
    let ps = ws.placements(area);
    let r = ws.relayout(area);
    lemma_placed_frame(ws, ps);
    lemma_relayout(ws, area);
    lemma_tiled(ws.windows, ws.states);
    lemma_tiled(r.windows, r.states);
    assert forall|i: int| 0 <= i < ws.windows.len() implies ws.states[#[trigger] ws.windows[i]].is_fullscreen
        == r.states[ws.windows[i]].is_fullscreen by {
        let w = ws.windows[i];
        assert(ws.windows.contains(w) <==> ws.states.contains_key(w));
        assert(ws.placed(ps).states[w].is_fullscreen == ws.states[w].is_fullscreen);
    }
    lemma_same_tiled(ws.windows, ws.states, r.states);
    assert(r.tiled() == ws.tiled());
    assert(r.placements(area) == ps);
    lemma_placed_frame(r, ps);
    lemma_placed_states(r, ps);
    let rr = r.placed(ps);
    assert(rr.states.dom() == r.states.dom());
    assert forall|w: Window| r.states.contains_key(w) implies #[trigger] rr.states[w]
        == r.states[w] by {
        if places(ps, w) {
            let i = choose|i: int| 0 <= i < ps.len() && (#[trigger] ps[i]).window == w;
            assert(ws.tiled()[i] == w);
            assert(ws.states.dom().contains(w) <==> r.states.dom().contains(w));
        }
    }
    assert(rr.states =~= r.states);
}

/// Which windows are tiled depends only on which records are fullscreen.
pub proof fn lemma_same_tiled(
    windows: Seq<Window>,
    a: Map<Window, ClientState>,
    b: Map<Window, ClientState>,
)
    requires
        forall|i: int|
            0 <= i < windows.len() ==> a[#[trigger] windows[i]].is_fullscreen
                == b[windows[i]].is_fullscreen,
    ensures
        tiled_of(windows, a) == tiled_of(windows, b),
    decreases windows.len(),
{
    reveal(Seq::filter);
    if windows.len() > 0 {
        let t = windows.drop_last();
        assert forall|i: int| 0 <= i < t.len() implies a[#[trigger] t[i]].is_fullscreen
            == b[t[i]].is_fullscreen by {
            assert(t[i] == windows[i]);
        }
        lemma_same_tiled(t, a, b);
        assert(windows.last() == windows[windows.len() - 1]);
    }
}

/// The next handle in the cycle is one of the handles.
pub proof fn lemma_next_in_cycle_is_member(s: Seq<Window>, c: Window)
    requires
        s.len() > 0,
    ensures
        s.contains(next_in_cycle(s, c)),
        has_above(s, c) ==> is_next_above(s, c, next_in_cycle(s, c)),
        !has_above(s, c) ==> is_lowest(s, next_in_cycle(s, c)),
{
    if has_above(s, c) {
        assert(s.take(s.len() as int) =~= s);
        lemma_next_above_exists(s, c, s.len() as int);
        let w = choose|w: Window| is_next_above(s.take(s.len() as int), c, w);
        assert(is_next_above(s, c, w));
    } else {
        lemma_lowest_is_member(s);
    }
}

proof fn lemma_next_above_exists(s: Seq<Window>, c: Window, n: int)
    requires
        0 <= n <= s.len(),
        has_above(s.take(n), c),
    ensures
        exists|w: Window| is_next_above(s.take(n), c, w),
    decreases n,
{
    let t = s.take(n);
    let p = s.take(n - 1);
    let x = s[n - 1];
    assert(n > 0);
    assert forall|i: int| 0 <= i < p.len() implies p[i] == t[i] by {}
    assert(t[n - 1] == x);
    if has_above(p, c) {
        lemma_next_above_exists(s, c, n - 1);
        let w = choose|w: Window| is_next_above(p, c, w);
        let i = choose|i: int| 0 <= i < p.len() && p[i] == w;
        assert(t[i] == w);
        let m = if x > c && x < w {
            x
        } else {
            w
        };
        assert forall|j: int| 0 <= j < t.len() && #[trigger] t[j] > c implies m <= t[j] by {
            if j < p.len() {
                assert(p[j] == t[j]);
            }
        }
        assert(is_next_above(t, c, m));
    } else {
        let j = choose|j: int| 0 <= j < t.len() && t[j] > c;
        if j < p.len() {
            assert(p[j] > c);
        }
        assert(x > c);
        assert forall|j: int| 0 <= j < t.len() && #[trigger] t[j] > c implies x <= t[j] by {
            if j < p.len() {
                assert(p[j] == t[j]);
            }
        }
        assert(is_next_above(t, c, x));
    }
}

/// The previous handle in the cycle is one of the handles.
pub proof fn lemma_prev_in_cycle_is_member(s: Seq<Window>, c: Window)
    requires
        s.len() > 0,
    ensures
        s.contains(prev_in_cycle(s, c)),
        has_below(s, c) ==> is_next_below(s, c, prev_in_cycle(s, c)),
        !has_below(s, c) ==> is_highest(s, prev_in_cycle(s, c)),
{
    if has_below(s, c) {
        assert(s.take(s.len() as int) =~= s);
        lemma_next_below_exists(s, c, s.len() as int);
        let w = choose|w: Window| is_next_below(s.take(s.len() as int), c, w);
        assert(is_next_below(s, c, w));
    } else {
        lemma_highest_is_member(s);
    }
}

proof fn lemma_next_below_exists(s: Seq<Window>, c: Window, n: int)
    requires
        0 <= n <= s.len(),
        has_below(s.take(n), c),
    ensures
        exists|w: Window| is_next_below(s.take(n), c, w),
    decreases n,
{
    let t = s.take(n);
    let p = s.take(n - 1);
    let x = s[n - 1];
    assert(n > 0);
    assert forall|i: int| 0 <= i < p.len() implies p[i] == t[i] by {}
    assert(t[n - 1] == x);
    if has_below(p, c) {
        lemma_next_below_exists(s, c, n - 1);
        let w = choose|w: Window| is_next_below(p, c, w);
        let i = choose|i: int| 0 <= i < p.len() && p[i] == w;
        assert(t[i] == w);
        let m = if x < c && x > w {
            x
        } else {
            w
        };
        assert forall|j: int| 0 <= j < t.len() && #[trigger] t[j] < c implies m >= t[j] by {
            if j < p.len() {
                assert(p[j] == t[j]);
            }
        }
        assert(is_next_below(t, c, m));
    } else {
        let j = choose|j: int| 0 <= j < t.len() && t[j] < c;
        if j < p.len() {
            assert(p[j] < c);
        }
        assert(x < c);
        assert forall|j: int| 0 <= j < t.len() && #[trigger] t[j] < c implies x >= t[j] by {
            if j < p.len() {
                assert(p[j] == t[j]);
            }
        }
        assert(is_next_below(t, c, x));
    }
}

/// A focus step forward and then one back, or one back and then one forward,
/// on an unchanged set of windows returns the focus to the window that had
/// it. With fewer than two windows neither step changes anything.
pub proof fn lemma_focus_round_trip(v: WorkspaceView)
    requires
        v.wf(),
        v.windows.len() >= 2 ==> v.focused is Some,
    ensures
        v.focus_next().focus_prev() == v,
        v.focus_prev().focus_next() == v,
        v.windows.len() < 2 ==> v.focus_next() == v && v.focus_prev() == v,
{
    if v.windows.len() >= 2 {
        let s = v.windows;
        let c = v.focused.unwrap();
        assert(s.contains(c) <==> v.states.contains_key(c));
        lemma_next_then_prev(s, c);
        lemma_prev_then_next(s, c);
        lemma_next_in_cycle_is_member(s, c);
        lemma_prev_in_cycle_is_member(s, c);
    }
}

/// In a cycle, the handle before the handle after `c` is `c`.
pub proof fn lemma_next_then_prev(s: Seq<Window>, c: Window)
    requires
        s.contains(c),
    ensures
        prev_in_cycle(s, next_in_cycle(s, c)) == c,
{
    lemma_next_in_cycle_is_member(s, c);
    let n = next_in_cycle(s, c);
    let ci = choose|i: int| 0 <= i < s.len() && s[i] == c;
    if has_above(s, c) {
        assert(s[ci] < n);
        assert(is_next_below(s, n, c)) by {
            assert forall|i: int| 0 <= i < s.len() && #[trigger] s[i] < n implies c >= s[i] by {
                if s[i] > c {
                    assert(n <= s[i]);
                }
            }
        }
        lemma_next_below_unique(s, n, c);
    } else {
        assert(!has_below(s, n)) by {
            if has_below(s, n) {
                let i = choose|i: int| 0 <= i < s.len() && s[i] < n;
                assert(n <= s[i]);
            }
        }
        assert(is_highest(s, c)) by {
            assert forall|i: int| 0 <= i < s.len() implies c >= #[trigger] s[i] by {
                if s[i] > c {
                    assert(has_above(s, c));
                }
            }
        }
        lemma_highest_unique(s, c);
    }
}

/// In a cycle, the handle after the handle before `c` is `c`.
pub proof fn lemma_prev_then_next(s: Seq<Window>, c: Window)
    requires
        s.contains(c),
    ensures
        next_in_cycle(s, prev_in_cycle(s, c)) == c,
{
    lemma_prev_in_cycle_is_member(s, c);
    let n = prev_in_cycle(s, c);
    let ci = choose|i: int| 0 <= i < s.len() && s[i] == c;
    if has_below(s, c) {
        assert(s[ci] > n);
        assert(is_next_above(s, n, c)) by {
            assert forall|i: int| 0 <= i < s.len() && #[trigger] s[i] > n implies c <= s[i] by {
                if s[i] < c {
                    assert(n >= s[i]);
                }
            }
        }
        lemma_next_above_unique(s, n, c);
    } else {
        assert(!has_above(s, n)) by {
            if has_above(s, n) {
                let i = choose|i: int| 0 <= i < s.len() && s[i] > n;
                assert(n >= s[i]);
            }
        }
        assert(is_lowest(s, c)) by {
            assert forall|i: int| 0 <= i < s.len() implies c <= #[trigger] s[i] by {
                if s[i] < c {
                    assert(has_below(s, c));
                }
            }
        }
        lemma_lowest_unique(s, c);
    }
}

/// The picture of the empty workspace number `id`, as the store makes it at
/// start: named by its number, with the default layout parameters.
pub open spec fn fresh_workspace(id: u8) -> WorkspaceView {
    WorkspaceView {
        id,
        name: decimal(id as nat),
        windows: Seq::empty(),
        states: Map::empty(),
        focused: None,
        layout: LayoutConfig {
            current: LayoutType::MasterStack,
            master_ratio: 50,
            nmaster: 1,
            gap_size: 10,
            screen_padding: 10,
        },
    }
}

/// The mathematical picture of the workspace store.
pub struct WorkspaceManagerView {
    /// The workspaces; workspace number `id` stands at index `id - 1`.
    pub workspaces: Seq<WorkspaceView>,
    /// Number of the workspace on display.
    pub current: u8,
    /// Number of the workspace that was on display before the last switch.
    pub last: u8,
}

impl WorkspaceManagerView {
    /// `id` is the number of one of the workspaces.
    pub open spec fn in_range(self, id: u8) -> bool {
        1 <= id <= self.workspaces.len()
    }

    /// The invariant of the store: between 1 and 255 workspaces, numbered
    /// from 1 in their order, each well formed, and both the current and the
    /// last workspace among them.
    pub open spec fn wf(self) -> bool {
        &&& 1 <= self.workspaces.len() <= 255
        &&& self.in_range(self.current)
        &&& self.in_range(self.last)
        &&& forall|i: int|
            0 <= i < self.workspaces.len() ==> (#[trigger] self.workspaces[i]).wf()
                && self.workspaces[i].id == i + 1
    }

    /// The workspace number `id`.
    pub open spec fn workspace(self, id: u8) -> WorkspaceView {
        self.workspaces[id - 1]
    }

    /// The workspace on display.
    pub open spec fn current_workspace(self) -> WorkspaceView {
        self.workspace(self.current)
    }

    /// The store with workspace number `id` replaced by `ws`.
    pub open spec fn with_workspace(self, id: u8, ws: WorkspaceView) -> WorkspaceManagerView {
        WorkspaceManagerView { workspaces: self.workspaces.update(id - 1, ws), ..self }
    }

    /// The store with the workspace on display replaced by `ws`.
    pub open spec fn with_current(self, ws: WorkspaceView) -> WorkspaceManagerView {
        self.with_workspace(self.current, ws)
    }

    /// A switch to `id` is one: `id` is a workspace and not the current one.
    pub open spec fn can_switch_to(self, id: u8) -> bool {
        self.in_range(id) && id != self.current
    }

    /// The store after a switch to workspace `id`: the workspace that was
    /// current becomes the last one. A switch that is none changes nothing.
    pub open spec fn switch_to(self, id: u8) -> WorkspaceManagerView {
        if self.can_switch_to(id) {
            WorkspaceManagerView { current: id, last: self.current, ..self }
        } else {
            self
        }
    }

    /// A move of `h` from workspace `from` to workspace `to` is one: both are
    /// workspaces, they differ, and `from` has `h`.
    pub open spec fn can_move(self, h: Window, from: u8, to: u8) -> bool {
        &&& self.in_range(to)
        &&& self.in_range(from)
        &&& from != to
        &&& self.workspace(from).states.contains_key(h)
    }

    /// The store after `h` has moved from workspace `from` to workspace `to`
    /// with its record. A move that is none changes nothing.
    pub open spec fn move_client(self, h: Window, from: u8, to: u8) -> WorkspaceManagerView {
        if self.can_move(h, from, to) {
            self.with_workspace(from, self.workspace(from).remove_client(h)).with_workspace(
                to,
                self.workspace(to).add_client(h, self.workspace(from).states[h]),
            )
        } else {
            self
        }
    }
}

/// The workspace store: a fixed list of workspaces, of which one is on
/// display.
pub struct WorkspaceManager {
    pub workspaces: Vec<Workspace>,
    pub current_workspace: u8,
    pub last_workspace: u8,
}

impl View for WorkspaceManager {
    type V = WorkspaceManagerView;

    open spec fn view(&self) -> WorkspaceManagerView {
        WorkspaceManagerView {
            workspaces: Seq::new(self.workspaces@.len(), |i: int| self.workspaces@[i]@),
            current: self.current_workspace,
            last: self.last_workspace,
        }
    }
}

impl WorkspaceManager {
    /// The invariant of [`WorkspaceManagerView::wf`] holds of this store.
    pub open spec fn wf(&self) -> bool {
        self@.wf()
    }

    /// A store of `num_workspaces` empty workspaces, numbered from 1 and
    /// named by their numbers, with workspace 1 on display.
    pub fn new(num_workspaces: u8) -> (m: Self)
        ensures
            m@.workspaces == Seq::new(num_workspaces as nat, |i: int| fresh_workspace((i + 1) as u8)),
            m@.current == 1,
            m@.last == 1,
            num_workspaces >= 1 ==> m.wf(),
    {
        let mut workspaces: Vec<Workspace> = Vec::new();
        let mut i: u8 = 0;
        while i < num_workspaces
            invariant
                i <= num_workspaces,
                workspaces@.len() == i,
                forall|j: int|
                    0 <= j < i ==> (#[trigger] workspaces@[j])@ == fresh_workspace((j + 1) as u8),
            decreases num_workspaces - i,
        {
            i = i + 1;
            workspaces.push(Workspace::new(i, decimal_string(i)));
        }
        let m = WorkspaceManager { workspaces, current_workspace: 1, last_workspace: 1 };
        assert(m@.workspaces =~= Seq::new(
            num_workspaces as nat,
            |i: int| fresh_workspace((i + 1) as u8),
        ));
        m
    }

    /// The workspace on display.
    pub fn current(&self) -> (ws: &Workspace)
        requires
            self.wf(),
        ensures
            ws@ == self@.current_workspace(),
            ws.wf(),
    {
        let i: usize = (self.current_workspace - 1) as usize;
        assert(self@.workspaces[i as int].wf());
        &self.workspaces[i]
    }

    /// The workspace on display, for changing. What the caller leaves in it
    /// is what the store then holds in its place.
    pub fn current_mut(&mut self) -> (ws: &mut Workspace)
        requires
            old(self).wf(),
        ensures
            *ws == old(self).workspaces@[old(self).current_workspace - 1],
            final(self).workspaces@ == old(self).workspaces@.update(
                old(self).current_workspace - 1,
                *final(ws),
            ),
            final(self).current_workspace == old(self).current_workspace,
            final(self).last_workspace == old(self).last_workspace,
            final(self)@ == old(self)@.with_current(final(ws)@),
            final(ws).wf() && final(ws).id == ws.id ==> final(self).wf(),
            ws@ == old(self)@.current_workspace(),
            ws.wf(),
    {
        let i: usize = (self.current_workspace - 1) as usize;
        proof {
            assert(self@.workspaces[i as int].wf());
            lemma_with_workspace(*old(self), *final(self), old(self).current_workspace);
        }
        &mut self.workspaces[i]
    }

    /// The workspace number `id`, if there is one, for changing.
    pub fn get_mut(&mut self, id: u8) -> (r: Option<&mut Workspace>)
        ensures
            r is Some == old(self)@.in_range(id),
            r matches Some(ws) ==> *ws == old(self).workspaces@[id - 1]
                && final(self).workspaces@ == old(self).workspaces@.update(id - 1, *final(ws)),
            r is None ==> final(self).workspaces@ == old(self).workspaces@,
            final(self).current_workspace == old(self).current_workspace,
            final(self).last_workspace == old(self).last_workspace,
            r matches Some(ws) ==> ws@ == old(self)@.workspace(id) && final(self)@ == old(
                self,
            )@.with_workspace(id, final(ws)@) && (old(self).wf() ==> ws.wf()) && (old(self).wf()
                && final(ws).wf() && final(ws).id == ws.id ==> final(self).wf()),
            r is None ==> final(self)@ == old(self)@,
    {
        if id < 1 || id as usize > self.workspaces.len() {
            assert(final(self)@.workspaces =~= old(self)@.workspaces);
            return None;
        }
        let i: usize = (id - 1) as usize;
        proof {
            assert(old(self).wf() ==> self@.workspaces[i as int].wf());
            lemma_with_workspace(*old(self), *final(self), id);
        }
        Some(&mut self.workspaces[i])
    }

    /// The workspace number `id`, if there is one.
    pub fn get(&self, id: u8) -> (r: Option<&Workspace>)
        ensures
            r is Some == self@.in_range(id),
            r matches Some(ws) ==> ws@ == self@.workspace(id) && (self.wf() ==> ws.wf()),
    {
        if id < 1 || id as usize > self.workspaces.len() {
            return None;
        }
        let i: usize = (id - 1) as usize;
        assert(self.wf() ==> self@.workspaces[i as int].wf());
        Some(&self.workspaces[i])
    }

    /// Makes workspace `id` the one on display and remembers the one that
    /// was as the last. Answers `false`, and changes nothing, if there is no
    /// workspace `id` or if it is on display already.
    pub fn switch_to(&mut self, id: u8) -> (switched: bool)
        ensures
            switched == old(self)@.can_switch_to(id),
            final(self)@ == old(self)@.switch_to(id),
            old(self).wf() ==> final(self).wf(),
    {
        if id < 1 || id as usize > self.workspaces.len() {
            return false;
        }
        if self.current_workspace != id {
            self.last_workspace = self.current_workspace;
            self.current_workspace = id;
            assert(final(self)@.workspaces =~= old(self)@.workspaces);
            true
        } else {
            false
        }
    }

    /// Moves `handle` with its record from workspace `from` to workspace
    /// `to`. Answers `false`, and changes nothing, if `to` or `from` is no
    /// workspace, if they are the same, or if `from` does not have `handle`.
    pub fn move_client(&mut self, handle: Window, from: u8, to: u8) -> (moved: bool)
        ensures
            moved == old(self)@.can_move(handle, from, to),
            final(self)@ == old(self)@.move_client(handle, from, to),
            old(self).wf() ==> final(self).wf(),
    {
        if to < 1 || to as usize > self.workspaces.len() {
            return false;
        }
        if from < 1 || from as usize > self.workspaces.len() || from == to {
            return false;
        }
        let fi: usize = (from - 1) as usize;
        let ti: usize = (to - 1) as usize;
        if !self.workspaces[fi].contains(handle) {
            return false;
        }
        let removed = self.workspaces[fi].remove_client(handle);
        let state = removed.unwrap();
        self.workspaces[ti].add_client(handle, state);
        proof {
            assert(final(self)@.workspaces =~= old(self)@.move_client(handle, from, to).workspaces);
            if old(self).wf() {
                lemma_move_client_wf(old(self)@, handle, from, to);
            }
        }
        true
    }

    /// Moves `window` from the workspace on display to workspace
    /// `target_workspace`, as [`WorkspaceManager::move_client`] does.
    pub fn move_window_to_workspace(&mut self, window: Window, target_workspace: u8) -> (moved:
        bool)
        ensures
            moved == old(self)@.can_move(window, old(self)@.current, target_workspace),
            final(self)@ == old(self)@.move_client(window, old(self)@.current, target_workspace),
            old(self).wf() ==> final(self).wf(),
    {
        let from = self.current_workspace;
        self.move_client(window, from, target_workspace)
    }

    /// Number of workspaces.
    pub fn count(&self) -> (n: usize)
        ensures
            n == self@.workspaces.len(),
    {
        self.workspaces.len()
    }
}

/// A store in which one workspace was replaced has the picture of the old
/// store with that workspace's picture replaced, and is well formed if the
/// old store and the new workspace are and the workspace kept its number.
pub proof fn lemma_with_workspace(before: WorkspaceManager, after: WorkspaceManager, id: u8)
    requires
        before@.in_range(id),
    ensures
        after.workspaces@ == before.workspaces@.update(id - 1, after.workspaces@[id - 1])
            && after.current_workspace == before.current_workspace && after.last_workspace
            == before.last_workspace ==> {
            &&& after@ == before@.with_workspace(id, after.workspaces@[id - 1]@)
            &&& before.wf() && after.workspaces@[id - 1].wf() && after.workspaces@[id - 1].id
                == before.workspaces@[id - 1].id ==> after.wf()
        },
{
    if after.workspaces@ == before.workspaces@.update(id - 1, after.workspaces@[id - 1])
        && after.current_workspace == before.current_workspace && after.last_workspace
        == before.last_workspace {
        assert(after@.workspaces =~= before@.workspaces.update(
            id - 1,
            after.workspaces@[id - 1]@,
        ));
        if before.wf() && after.workspaces@[id - 1].wf() && after.workspaces@[id - 1].id
            == before.workspaces@[id - 1].id {
            assert forall|i: int| 0 <= i < after@.workspaces.len() implies (
            #[trigger] after@.workspaces[i]).wf() && after@.workspaces[i].id == i + 1 by {
                assert(before@.workspaces[i].wf());
            }
        }
    }
}

/// Replacing the workspace on display twice is replacing it with the second
/// workspace.
pub proof fn lemma_with_current_twice(
    m: WorkspaceManagerView,
    a: WorkspaceView,
    b: WorkspaceView,
)
    requires
        m.in_range(m.current),
    ensures
        m.with_current(a).with_current(b) == m.with_current(b),
        m.with_current(a).current_workspace() == a,
{
    assert(m.with_current(a).with_current(b).workspaces =~= m.with_current(b).workspaces);
}

/// A move keeps the store well formed.
pub proof fn lemma_move_client_wf(m: WorkspaceManagerView, h: Window, from: u8, to: u8)
    requires
        m.wf(),
    ensures
        m.move_client(h, from, to).wf(),
{
    if m.can_move(h, from, to) {
        let r = m.move_client(h, from, to);
        lemma_remove_client_wf(m.workspace(from), h);
        lemma_add_client_wf(m.workspace(to), h, m.workspace(from).states[h]);
        assert forall|i: int| 0 <= i < r.workspaces.len() implies (#[trigger] r.workspaces[i]).wf()
            && r.workspaces[i].id == i + 1 by {
            assert(m.workspaces[i].wf());
        }
    }
}

/// Moving a window from workspace `a` to workspace `b` and then back from
/// `b` to `a` leaves it in `a`, with the record it had, and not in `b`. Both
/// moves take place.
pub proof fn lemma_move_there_and_back(m: WorkspaceManagerView, h: Window, a: u8, b: u8)
    requires
        m.wf(),
        m.in_range(a),
        m.in_range(b),
        a != b,
        m.workspace(a).states.contains_key(h),
    ensures
        m.can_move(h, a, b),
        m.move_client(h, a, b).can_move(h, b, a),
        m.move_client(h, a, b).move_client(h, b, a).workspace(a).states.contains_key(h),
        m.move_client(h, a, b).move_client(h, b, a).workspace(a).windows.contains(h),
        m.move_client(h, a, b).move_client(h, b, a).workspace(a).states[h] == m.workspace(
            a,
        ).states[h],
        !m.move_client(h, a, b).move_client(h, b, a).workspace(b).states.contains_key(h),
        !m.move_client(h, a, b).move_client(h, b, a).workspace(b).windows.contains(h),
        m.move_client(h, a, b).move_client(h, b, a).wf(),
{
    let m1 = m.move_client(h, a, b);
    lemma_move_client_wf(m, h, a, b);
    let m2 = m1.move_client(h, b, a);
    lemma_move_client_wf(m1, h, b, a);
    let wa = m2.workspace(a);
    let wb = m2.workspace(b);
    assert(m2.workspaces[a - 1].wf());
    assert(m2.workspaces[b - 1].wf());
    assert(wa.windows.contains(h) <==> wa.states.contains_key(h));
    assert(wb.windows.contains(h) <==> wb.states.contains_key(h));
}

/// A switch to the workspace that is on display already is refused and
/// changes nothing, however often it is asked for.
pub proof fn lemma_switch_to_current(m: WorkspaceManagerView)
    ensures
        !m.can_switch_to(m.current),
        m.switch_to(m.current) == m,
{
}

/// The commands that hide each of `windows`, in their order.
pub open spec fn unmap_commands(windows: Seq<Window>) -> Seq<Command> {
    Seq::new(windows.len(), |i: int| Command::UnmapWindow { window: windows[i] })
}

/// The commands that show each of `windows`, in their order.
pub open spec fn map_commands(windows: Seq<Window>) -> Seq<Command> {
    Seq::new(windows.len(), |i: int| Command::MapWindow { window: windows[i] })
}

/// The commands that hide each of `windows`.
pub fn unmap_all(windows: &Vec<Window>) -> (cmds: Vec<Command>)
    ensures
        cmds@ == unmap_commands(windows@),
{
    let mut cmds: Vec<Command> = Vec::new();
    let mut i: usize = 0;
    while i < windows.len()
        invariant
            i <= windows@.len(),
            cmds@ == Seq::new(i as nat, |j: int| Command::UnmapWindow { window: windows@[j] }),
        decreases windows@.len() - i,
    {
        cmds.push(Command::UnmapWindow { window: windows[i] });
        i = i + 1;
    }
    cmds
}

/// The commands that show each of `windows`.
pub fn map_all(windows: &Vec<Window>) -> (cmds: Vec<Command>)
    ensures
        cmds@ == map_commands(windows@),
{
    let mut cmds: Vec<Command> = Vec::new();
    let mut i: usize = 0;
    while i < windows.len()
        invariant
            i <= windows@.len(),
            cmds@ == Seq::new(i as nat, |j: int| Command::MapWindow { window: windows@[j] }),
        decreases windows@.len() - i,
    {
        cmds.push(Command::MapWindow { window: windows[i] });
        i = i + 1;
    }
    cmds
}

impl WindowManager {
    /// The step of `switch_to_workspace`.
    pub open spec fn switch_step(&self, workspace_id: u8) -> Step {
        let before = self.workspaces@;
        if before.can_switch_to(workspace_id) {
            let target = before.workspace(workspace_id);
            let focus = match target.focused {
                Some(w) => seq![Command::SetInputFocus { window: w }],
                None => Seq::<Command>::empty(),
            };
            Step {
                workspaces: before.switch_to(workspace_id).with_current(
                    target.relayout(self.screen()),
                ),
                commands: unmap_commands(before.current_workspace().windows) + map_commands(
                    target.windows,
                ) + focus + layout_commands(target, self.screen(), self.alerts@).push(
                    Command::Flush,
                ),
            }
        } else {
            self.idle()
        }
    }

    /// The step of `move_focused_to_workspace`.
    pub open spec fn move_focused_step(&self, workspace_id: u8) -> Step {
        let before = self.workspaces@;
        match before.current_workspace().focused {
            Some(w) => if before.can_move(w, before.current, workspace_id) {
                let moved = before.move_client(w, before.current, workspace_id);
                let rest = moved.current_workspace();
                let refocus = match rest.focused {
                    Some(n) => focus_commands(n) + self.borders_of(rest.windows, rest.focused),
                    None => Seq::<Command>::empty(),
                };
                Step {
                    workspaces: moved.with_current(rest.relayout(self.screen())),
                    commands: seq![Command::UnmapWindow { window: w }] + refocus + layout_commands(
                        rest,
                        self.screen(),
                        self.alerts@,
                    ).push(Command::Flush),
                }
            } else {
                self.idle()
            },
            None => self.idle(),
        }
    }

    /// The step of `rotate_windows`.
    pub open spec fn rotate_step(&self) -> Step {
        let ws = self.current();
        if ws.windows.len() < 2 {
            self.idle()
        } else {
            self.relaid(ws.rotated()).preceded_by(
                if ws.focused == Some(ws.windows[0]) {
                    focus_commands(ws.windows[1]) + self.borders_of(
                        ws.rotated().windows,
                        ws.rotated().focused,
                    )
                } else {
                    Seq::<Command>::empty()
                },
            )
        }
    }

    /// The step of `promote_to_master`.
    pub open spec fn promote_step(&self) -> Step {
        if self.current().focused is Some {
            self.relaid(self.current().promoted())
        } else {
            self.idle()
        }
    }

    /// Puts workspace `workspace_id` on display: the windows of the
    /// workspace that was on display are hidden, those of the new one shown
    /// and laid out, and its focused window gets the input focus. Where
    /// there is no such workspace, or it is on display already, nothing
    /// changes and no command is issued.
    pub fn switch_to_workspace(&mut self, workspace_id: u8) -> (cmds: Vec<Command>)
        requires
            old(self).wf(),
        ensures
            cmds@ == old(self).switch_step(workspace_id).commands,
            final(self).workspaces@ == old(self).switch_step(workspace_id).workspaces,
            old(self).same_but_workspaces(final(self)),
            final(self).wf(),
    {
        if workspace_id < 1 || workspace_id as usize > self.workspaces.count() {
            return Vec::new();
        }
        if self.workspaces.current_workspace == workspace_id {
            return Vec::new();
        }
        let mut cmds = unmap_all(&self.workspaces.current().order);
        self.workspaces.switch_to(workspace_id);
        let target = self.workspaces.current();
        extend(&mut cmds, map_all(&target.order));
        match target.focused_client {
            Some(w) => {
                cmds.push(Command::SetInputFocus { window: w });
            },
            None => {},
        }
        extend(&mut cmds, self.layout());
        cmds.push(Command::Flush);
        proof {
            let before = old(self).workspaces@;
            let target = before.workspace(workspace_id);
            let focus = match target.focused {
                Some(w) => seq![Command::SetInputFocus { window: w }],
                None => Seq::<Command>::empty(),
            };
            assert(cmds@ =~= unmap_commands(before.current_workspace().windows) + map_commands(
                target.windows,
            ) + focus + layout_commands(target, old(self).screen(), old(self).alerts@).push(
                Command::Flush,
            ));
        }
        cmds
    }

    /// Moves the focused window of the workspace on display to workspace
    /// `workspace_id`: it is hidden, the lowest handle that remains gets the
    /// focus, and what remains is laid out again. Where there is no such
    /// workspace, where it is the one on display, or where no window has
    /// the focus, nothing changes and no command is issued.
    pub fn move_focused_to_workspace(&mut self, workspace_id: u8) -> (cmds: Vec<Command>)
        requires
            old(self).wf(),
        ensures
            cmds@ == old(self).move_focused_step(workspace_id).commands,
            final(self).workspaces@ == old(self).move_focused_step(workspace_id).workspaces,
            old(self).same_but_workspaces(final(self)),
            final(self).wf(),
    {
        match self.focused_client() {
            Some(window) => {
                if !self.workspaces.move_window_to_workspace(window, workspace_id) {
                    return Vec::new();
                }
                let mut cmds: Vec<Command> = Vec::new();
                cmds.push(Command::UnmapWindow { window });
                match self.focused_client() {
                    Some(next) => {
                        cmds.push(Command::SetInputFocus { window: next });
                        cmds.push(Command::Raise { window: next });
                        extend(&mut cmds, self.update_window_borders());
                    },
                    None => {},
                }
                extend(&mut cmds, self.layout());
                cmds.push(Command::Flush);
                proof {
                    let before = old(self).workspaces@;
                    let moved = before.move_client(window, before.current, workspace_id);
                    let rest = moved.current_workspace();
                    let refocus = match rest.focused {
                        Some(n) => focus_commands(n) + old(self).borders_of(
                            rest.windows,
                            rest.focused,
                        ),
                        None => Seq::<Command>::empty(),
                    };
                    assert(cmds@ =~= seq![Command::UnmapWindow { window }] + refocus
                        + layout_commands(rest, old(self).screen(), old(self).alerts@).push(
                        Command::Flush,
                    ));
                }
                cmds
            },
            None => Vec::new(),
        }
    }

    /// Goes back to the workspace that was on display before the last
    /// switch.
    pub fn cycle_last_workspace(&mut self) -> (cmds: Vec<Command>)
        requires
            old(self).wf(),
        ensures
            cmds@ == old(self).switch_step(old(self).workspaces@.last).commands,
            final(self).workspaces@ == old(self).switch_step(old(self).workspaces@.last).workspaces,
            old(self).same_but_workspaces(final(self)),
            final(self).wf(),
    {
        let last = self.workspaces.last_workspace;
        self.switch_to_workspace(last)
    }

    /// Moves the first window of the tiling order of the workspace on
    /// display to its end and recomputes the layout. If that window had the
    /// focus, the window that is first now gets it. With fewer than two
    /// windows nothing happens.
    pub fn rotate_windows(&mut self) -> (cmds: Vec<Command>)
        requires
            old(self).wf(),
        ensures
            cmds@ == old(self).rotate_step().commands,
            final(self).workspaces@ == old(self).rotate_step().workspaces,
            old(self).same_but_workspaces(final(self)),
            final(self).wf(),
    {
        let ws = self.workspaces.current_mut();
        let had = ws.focused_client;
        if !ws.rotate() {
            proof {
                assert(final(self).workspaces@.workspaces =~= old(self).workspaces@.workspaces);
            }
            return Vec::new();
        }
        let now = ws.focused_client;
        let mut cmds: Vec<Command> = Vec::new();
        let ghost mid = self.workspaces@;
        match now {
            Some(w) => {
                if had != now {
                    cmds.push(Command::SetInputFocus { window: w });
                    cmds.push(Command::Raise { window: w });
                    extend(&mut cmds, self.update_window_borders());
                }
            },
            None => {},
        }
        let ghost head = cmds@;
        extend(&mut cmds, self.layout());
        proof {
            let ws = old(self).current();
            assert(ws.windows.no_duplicates());
            assert(ws.windows[0] != ws.windows[1]);
            lemma_with_current_twice(
                old(self).workspaces@,
                mid.current_workspace(),
                self.workspaces@.current_workspace(),
            );
            assert(cmds@ =~= head + layout_commands(
                ws.rotated(),
                old(self).screen(),
                old(self).alerts@,
            ));
        }
        cmds
    }

    /// Moves the focused window of the workspace on display to the head of
    /// the tiling order, where the master column begins, and recomputes the
    /// layout. Without a focused window nothing happens.
    pub fn promote_to_master(&mut self) -> (cmds: Vec<Command>)
        requires
            old(self).wf(),
        ensures
            cmds@ == old(self).promote_step().commands,
            final(self).workspaces@ == old(self).promote_step().workspaces,
            old(self).same_but_workspaces(final(self)),
            final(self).wf(),
    {
        let ws = self.workspaces.current_mut();
        if !ws.promote() {
            proof {
                assert(final(self).workspaces@.workspaces =~= old(self).workspaces@.workspaces);
            }
            return Vec::new();
        }
        let ghost mid = self.workspaces@;
        let cmds = self.layout();
        proof {
            lemma_with_current_twice(
                old(self).workspaces@,
                mid.current_workspace(),
                self.workspaces@.current_workspace(),
            );
        }
        cmds
    }
}

} // verus!
