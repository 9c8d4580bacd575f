//! Workspaces and their windows.
//!
//! A window is a row in the arena owned by its workspace: the row holds the
//! client-surface id, the window's rectangle in screen space and its
//! placement mode.  A window belongs to exactly one workspace at a time; at
//! most one window per workspace is fullscreen, and while one is, the
//! workspace's `full_geo` holds the rectangle to restore on leaving
//! fullscreen.

use vstd::prelude::*;

use crate::action::Direction;
use crate::geometry::{Point, Rect, Size, MAX_EXTENT};
use crate::layout::{lemma_master_stack_rect_in_zone, master_stack_rect, LayoutState, MasterStack};

verus! {

/// How a window is placed: tiled by the layout, floating freely, carried by
/// an interactive grab, or fullscreen.  The grab and fullscreen variants
/// remember the rectangle the window had before.
#[derive(Clone, Copy, PartialEq, Eq, Structural, Debug)]
pub enum WindowMode {
    Tiled,
    Floating,
    Grabed(Rect),
    Fullscreen(Rect),
}

/// One window: a client-surface id, its rectangle, and its placement mode.
#[derive(Clone, Copy, PartialEq, Eq, Structural, Debug)]
pub struct Window {
    pub id: u64,
    pub rect: Rect,
    pub mode: WindowMode,
}

impl Window {
    pub open spec fn wf(self) -> bool {
        &&& self.rect.wf()
        &&& match self.mode {
            WindowMode::Grabed(r) => r.wf(),
            WindowMode::Fullscreen(r) => r.wf(),
            _ => true,
        }
    }

    pub fn new(id: u64, rect: Rect, mode: WindowMode) -> (r: Window)
        ensures
            r == (Window { id, rect, mode }),
    {
        Window { id, rect, mode }
    }
}

/// Whether some row of `s` carries the id.
pub open spec fn seq_contains_id(s: Seq<Window>, id: u64) -> bool {
    exists|i: int| 0 <= i < s.len() && #[trigger] s[i].id == id
}

/// The index of the row carrying the id; meaningful when ids are unique.
pub open spec fn spec_index_of(s: Seq<Window>, id: u64) -> int {
    choose|i: int| 0 <= i < s.len() && #[trigger] s[i].id == id
}

/// The index of the fullscreen row, if one exists.
pub open spec fn spec_fullscreen_index(s: Seq<Window>) -> int {
    choose|i: int| 0 <= i < s.len() && (#[trigger] s[i].mode) is Fullscreen
}

/// Whether some row of `s` is fullscreen.
pub open spec fn seq_has_fullscreen(s: Seq<Window>) -> bool {
    exists|i: int| 0 <= i < s.len() && (#[trigger] s[i].mode) is Fullscreen
}

/// One desktop: an ordered window list (the tiling order), the active and
/// previously active window, the restore rectangle of the fullscreen window,
/// and the layout algorithm in use.
pub struct Workspace {
    pub full_geo: Option<Rect>,
    pub layout: LayoutState,
    pub windows: Vec<Window>,
    pub active_window: Option<u64>,
    pub prev_window: Option<u64>,
}

impl Workspace {
    pub open spec fn wf(self) -> bool {
        &&& forall|i: int| 0 <= i < self.windows.len() ==> (#[trigger] self.windows[i]).wf()
        &&& forall|i: int, j: int|
            0 <= i < j < self.windows.len() ==> #[trigger] self.windows[i].id
                != #[trigger] self.windows[j].id
        &&& forall|i: int, j: int|
            0 <= i < self.windows.len() && 0 <= j < self.windows.len() && (
            #[trigger] self.windows[i].mode) is Fullscreen && (
            #[trigger] self.windows[j].mode) is Fullscreen ==> i == j
        &&& forall|i: int|
            0 <= i < self.windows.len() && (#[trigger] self.windows[i].mode) is Fullscreen
                ==> self.full_geo == Some(self.windows[i].mode->Fullscreen_0)
        &&& match self.full_geo {
            Some(r) => r.wf() && seq_has_fullscreen(self.windows@),
            None => true,
        }
        &&& match self.active_window {
            Some(id) => seq_contains_id(self.windows@, id),
            None => true,
        }
    }

    pub fn new() -> (r: Workspace)
        ensures
            r.full_geo is None,
            r.windows@ =~= Seq::<Window>::empty(),
            r.active_window is None,
            r.prev_window is None,
            r.layout == LayoutState::MasterStack(MasterStack {  }),
            r.wf(),
    {
        Workspace {
            full_geo: None,
            layout: LayoutState::master_stack(),
            windows: Vec::new(),
            active_window: None,
            prev_window: None,
        }
    }

    /// The position of the window with this id in the tiling order.
    pub fn find_index(&self, id: u64) -> (r: Option<usize>)
        requires
            self.wf(),
        ensures
            match r {
                Some(i) => i < self.windows.len() && self.windows@[i as int].id == id && i as int
                    == spec_index_of(self.windows@, id),
                None => !seq_contains_id(self.windows@, id),
            },
    {
        let mut i: usize = 0;
        while i < self.windows.len()
            invariant
                self.wf(),
                0 <= i <= self.windows.len(),
                forall|j: int| 0 <= j < i ==> #[trigger] self.windows@[j].id != id,
            decreases self.windows.len() - i,
        {
            if self.windows[i].id == id {
                proof {
                    let c = spec_index_of(self.windows@, id);
                    assert(0 <= c < self.windows@.len() && self.windows@[c].id == id);
                }
                return Some(i);
            }
            i = i + 1;
        }
        None
    }

    /// The position of the fullscreen window, if one exists.
    pub fn fullscreen_index(&self) -> (r: Option<usize>)
        requires
            self.wf(),
        ensures
            match r {
                Some(i) => i < self.windows.len() && self.windows@[i as int].mode is Fullscreen
                    && i as int == spec_fullscreen_index(self.windows@),
                None => !seq_has_fullscreen(self.windows@),
            },
    {
        let mut i: usize = 0;
        while i < self.windows.len()
            invariant
                self.wf(),
                0 <= i <= self.windows.len(),
                forall|j: int| 0 <= j < i ==> !((#[trigger] self.windows@[j].mode) is Fullscreen),
            decreases self.windows.len() - i,
        {
            match self.windows[i].mode {
                WindowMode::Fullscreen(_) => {
                    proof {
                        let c = spec_fullscreen_index(self.windows@);
                        assert(0 <= c < self.windows@.len() && self.windows@[c].mode is Fullscreen);
                    }
                    return Some(i);
                },
                _ => {},
            }
            i = i + 1;
        }
        None
    }
}

/// How a workspace looks after the window with `id` is taken out of it:
/// the row is gone, and any stale reference to it is cleared — the active
/// and previous pointers if they named it, and the restore rectangle if the
/// departed window was the fullscreen one.
pub open spec fn remove_post(pre: Workspace, post: Workspace, id: u64) -> bool {
    if seq_contains_id(pre.windows@, id) {
        let i = spec_index_of(pre.windows@, id);
        &&& post.windows@ == pre.windows@.remove(i)
        &&& post.layout == pre.layout
        &&& post.active_window == (if pre.active_window == Some(id) {
            None::<u64>
        } else {
            pre.active_window
        })
        &&& post.prev_window == (if pre.prev_window == Some(id) {
            None::<u64>
        } else {
            pre.prev_window
        })
        &&& post.full_geo == (if pre.windows@[i].mode is Fullscreen {
            None::<Rect>
        } else {
            pre.full_geo
        })
    } else {
        post == pre
    }
}

impl Workspace {
    /// Take the window with this id out of the workspace, if it is here.
    pub fn remove_window(&mut self, id: u64) -> (removed: Option<Window>)
        requires
            old(self).wf(),
        ensures
            final(self).wf(),
            remove_post(*old(self), *final(self), id),
            match removed {
                None => *final(self) == *old(self) && !seq_contains_id(old(self).windows@, id),
                Some(w) => seq_contains_id(old(self).windows@, id) && w == old(self).windows@[
                    spec_index_of(old(self).windows@, id)
                ] && w.id == id,
            },
            !seq_contains_id(final(self).windows@, id),
            forall|j: int|
                0 <= j < final(self).windows@.len() ==> seq_contains_id(
                    old(self).windows@,
                    (#[trigger] final(self).windows@[j]).id,
                ),
    {
        let idx = match self.find_index(id) {
            Some(i) => i,
            None => {
                return None;
            },
        };
        let w = self.windows[idx];
        self.windows.remove(idx);
        match self.active_window {
            Some(a) => if a == id {
                self.active_window = None;
            },
            None => {},
        }
        match self.prev_window {
            Some(p) => if p == id {
                self.prev_window = None;
            },
            None => {},
        }
        match w.mode {
            WindowMode::Fullscreen(_) => {
                self.full_geo = None;
            },
            _ => {},
        }
        proof {
            let pre = old(self).windows@;
            let post = final(self).windows@;
            let i = idx as int;
            pre.remove_ensures(i);
            assert forall|j: int|
                0 <= j < post.len() implies seq_contains_id(pre, (#[trigger] post[j]).id) by {
                if j < i {
                    assert(post[j] == pre[j]);
                } else {
                    assert(post[j] == pre[j + 1]);
                }
            }
            assert forall|j: int| 0 <= j < post.len() implies #[trigger] post[j].id != id by {
                if j < i {
                    assert(post[j] == pre[j]);
                } else {
                    assert(post[j] == pre[j + 1]);
                }
            }
            assert forall|p: int, q: int| 0 <= p < q < post.len() implies #[trigger] post[p].id
                != #[trigger] post[q].id by {
                let p0 = if p < i {
                    p
                } else {
                    p + 1
                };
                let q0 = if q < i {
                    q
                } else {
                    q + 1
                };
                assert(post[p] == pre[p0] && post[q] == pre[q0]);
            }
            assert forall|p: int, q: int|
                0 <= p < post.len() && 0 <= q < post.len() && (#[trigger] post[p].mode)
                    is Fullscreen && (#[trigger] post[q].mode) is Fullscreen implies p == q by {
                let p0 = if p < i {
                    p
                } else {
                    p + 1
                };
                let q0 = if q < i {
                    q
                } else {
                    q + 1
                };
                assert(post[p] == pre[p0] && post[q] == pre[q0]);
            }
            assert forall|p: int|
                0 <= p < post.len() && (#[trigger] post[p].mode) is Fullscreen
                implies final(self).full_geo == Some(post[p].mode->Fullscreen_0) by {
                let p0 = if p < i {
                    p
                } else {
                    p + 1
                };
                assert(post[p] == pre[p0]);
                assert(!(pre[i].mode is Fullscreen)) by {
                    if pre[i].mode is Fullscreen {
                        assert(p0 == i);
                    }
                }
            }
            match final(self).full_geo {
                Some(_) => {
                    let c = spec_fullscreen_index(pre);
                    assert(seq_has_fullscreen(pre));
                    assert(0 <= c < pre.len() && pre[c].mode is Fullscreen);
                    assert(c != i);
                    let c1 = if c < i {
                        c
                    } else {
                        c - 1
                    };
                    assert(post[c1] == pre[c]);
                    assert(seq_has_fullscreen(post));
                },
                None => {},
            }
            match final(self).active_window {
                Some(aid) => {
                    let t = spec_index_of(pre, aid);
                    assert(seq_contains_id(pre, aid));
                    assert(0 <= t < pre.len() && pre[t].id == aid);
                    assert(t != i);
                    let t1 = if t < i {
                        t
                    } else {
                        t - 1
                    };
                    assert(post[t1] == pre[t]);
                    assert(seq_contains_id(post, aid));
                },
                None => {},
            }
            assert forall|j: int| 0 <= j < post.len() implies (#[trigger] post[j]).wf() by {
                let j0 = if j < i {
                    j
                } else {
                    j + 1
                };
                assert(post[j] == pre[j0]);
            }
        }
        Some(w)
    }

    /// Append a window new to this workspace and make it the active one.
    pub fn push_window(&mut self, window: Window)
        requires
            old(self).wf(),
            window.wf(),
            !(window.mode is Fullscreen),
            !seq_contains_id(old(self).windows@, window.id),
        ensures
            final(self).wf(),
            final(self).windows@ == old(self).windows@.push(window),
            final(self).active_window == Some(window.id),
            final(self).full_geo == old(self).full_geo,
            final(self).prev_window == old(self).prev_window,
            final(self).layout == old(self).layout,
    {
        self.windows.push(window);
        self.active_window = Some(window.id);
        proof {
            let pre = old(self).windows@;
            let post = final(self).windows@;
            let n = pre.len() as int;
            assert forall|p: int, q: int| 0 <= p < q < post.len() implies #[trigger] post[p].id
                != #[trigger] post[q].id by {
                if q == n {
                    assert(post[p] == pre[p]);
                    if pre[p].id == window.id {
                        assert(seq_contains_id(pre, window.id));
                    }
                }
            }
            assert forall|p: int, q: int|
                0 <= p < post.len() && 0 <= q < post.len() && (#[trigger] post[p].mode)
                    is Fullscreen && (#[trigger] post[q].mode) is Fullscreen implies p == q by {
                assert(p < n && q < n);
            }
            match final(self).full_geo {
                Some(_) => {
                    let c = spec_fullscreen_index(pre);
                    assert(seq_has_fullscreen(pre));
                    assert(0 <= c < n && pre[c].mode is Fullscreen);
                    assert(post[c].mode is Fullscreen);
                    assert(seq_has_fullscreen(post));
                },
                None => {},
            }
            assert(post[n].id == window.id);
            assert(seq_contains_id(post, window.id));
        }
    }
}

/// The fullscreen window among the workspace's windows, if one exists.
pub fn is_fullscreen(ws: &Workspace) -> (r: Option<u64>)
    requires
        ws.wf(),
    ensures
        match r {
            Some(id) => seq_has_fullscreen(ws.windows@) && id == ws.windows@[
                spec_fullscreen_index(ws.windows@)
            ].id,
            None => !seq_has_fullscreen(ws.windows@),
        },
{
    match ws.fullscreen_index() {
        Some(i) => Some(ws.windows[i].id),
        None => None,
    }
}

/// The workspace set: all desktops, the active one, and the previous one.
pub struct Workspaces {
    pub workspaces: Vec<Workspace>,
    pub active_workspace: usize,
    pub prev_workspace: usize,
}

impl Workspaces {
    pub open spec fn wf(self) -> bool {
        &&& 1 <= self.workspaces.len()
        &&& self.active_workspace < self.workspaces.len()
        &&& self.prev_workspace < self.workspaces.len()
        &&& forall|k: int| 0 <= k < self.workspaces.len() ==> (#[trigger] self.workspaces[k]).wf()
        &&& forall|k1: int, k2: int, i: int, j: int|
            0 <= k1 < self.workspaces.len() && 0 <= k2 < self.workspaces.len() && k1 != k2 && 0
                <= i < self.workspaces[k1].windows.len() && 0 <= j
                < self.workspaces[k2].windows.len() ==> #[trigger] self.workspaces[k1].windows[i].id
                != #[trigger] self.workspaces[k2].windows[j].id
    }

    /// The current workspace, as a spec value.
    pub open spec fn spec_current(self) -> Workspace {
        self.workspaces[self.active_workspace as int]
    }

    /// Whether any workspace holds the id.
    pub open spec fn spec_holds_id(self, id: u64) -> bool {
        exists|k: int|
            0 <= k < self.workspaces.len() && seq_contains_id(
                (#[trigger] self.workspaces[k]).windows@,
                id,
            )
    }

    /// All workspaces are created at startup and live for the process
    /// lifetime; there is at least one.
    pub fn new(w: u8) -> (r: Workspaces)
        requires
            w >= 1,
        ensures
            r.wf(),
            r.workspaces.len() == w,
            r.active_workspace == 0,
            r.prev_workspace == 0,
            forall|k: int| 0 <= k < w ==> (#[trigger] r.workspaces[k]).windows@.len() == 0,
            forall|k: int| 0 <= k < w ==> (#[trigger] r.workspaces[k]).active_window is None,
            forall|k: int| 0 <= k < w ==> (#[trigger] r.workspaces[k]).full_geo is None,
    {
        let mut workspaces: Vec<Workspace> = Vec::new();
        let mut i: usize = 0;
        while i < w as usize
            invariant
                0 <= i <= w,
                workspaces.len() == i,
                forall|k: int| 0 <= k < i ==> (#[trigger] workspaces[k]).windows@.len() == 0,
                forall|k: int| 0 <= k < i ==> (#[trigger] workspaces[k]).active_window is None,
                forall|k: int| 0 <= k < i ==> (#[trigger] workspaces[k]).full_geo is None,
                forall|k: int| 0 <= k < i ==> (#[trigger] workspaces[k]).wf(),
            decreases w - i,
        {
            workspaces.push(Workspace::new());
            i = i + 1;
        }
        Workspaces { workspaces, active_workspace: 0, prev_workspace: 0 }
    }

    pub fn get_current(&self) -> (r: &Workspace)
        requires
            self.wf(),
        ensures
            *r == self.spec_current(),
    {
        &self.workspaces[self.active_workspace]
    }

    pub fn active_ws(&self) -> (r: usize)
        ensures
            r == self.active_workspace,
    {
        self.active_workspace
    }

    pub fn is_ws_empty(&self, workspace: usize) -> (r: bool)
        requires
            workspace < self.workspaces.len(),
        ensures
            r == (self.workspaces[workspace as int].windows@.len() == 0),
    {
        self.workspaces[workspace].windows.len() == 0
    }

    pub fn get_active_window(&self) -> (r: Option<u64>)
        requires
            self.wf(),
        ensures
            r == self.spec_current().active_window,
    {
        self.workspaces[self.active_workspace].active_window
    }

    /// Record which window of the current workspace has the focus.  `None`
    /// clears the record; a window named must be on the current workspace.
    pub fn set_active_window(&mut self, window: Option<u64>)
        requires
            old(self).wf(),
            match window {
                Some(id) => seq_contains_id(old(self).spec_current().windows@, id),
                None => true,
            },
        ensures
            final(self).wf(),
            final(self).workspaces.len() == old(self).workspaces.len(),
            final(self).active_workspace == old(self).active_workspace,
            final(self).prev_workspace == old(self).prev_workspace,
            final(self).spec_current() == (Workspace {
                active_window: window,
                ..old(self).spec_current()
            }),
            forall|k: int|
                0 <= k < old(self).workspaces.len() && k != old(self).active_workspace ==> (
                #[trigger] final(self).workspaces[k]) == old(self).workspaces[k],
    {
        self.workspaces[self.active_workspace].active_window = window;
    }

    /// Switch to the named workspace; a request out of range is ignored.
    pub fn set_active_workspace(&mut self, workspace: usize)
        requires
            old(self).wf(),
        ensures
            final(self).wf(),
            final(self).workspaces == old(self).workspaces,
            workspace >= old(self).workspaces.len() ==> *final(self) == *old(self),
            workspace < old(self).workspaces.len() ==> final(self).active_workspace == workspace
                && final(self).prev_workspace == old(self).active_workspace,
    {
        if workspace >= self.workspaces.len() {
            return ;
        }
        self.prev_workspace = self.active_workspace;
        self.active_workspace = workspace;
    }

    /// Append a window to the current workspace and make it the active one.
    /// The window must be new to the whole workspace set and not fullscreen.
    pub fn insert_window(&mut self, window: Window)
        requires
            old(self).wf(),
            window.wf(),
            !(window.mode is Fullscreen),
            !old(self).spec_holds_id(window.id),
        ensures
            final(self).wf(),
            final(self).workspaces.len() == old(self).workspaces.len(),
            final(self).active_workspace == old(self).active_workspace,
            final(self).prev_workspace == old(self).prev_workspace,
            final(self).spec_current().windows@ == old(self).spec_current().windows@.push(window),
            final(self).spec_current().active_window == Some(window.id),
            final(self).spec_current().full_geo == old(self).spec_current().full_geo,
            final(self).spec_current().prev_window == old(self).spec_current().prev_window,
            final(self).spec_current().layout == old(self).spec_current().layout,
            forall|k: int|
                0 <= k < old(self).workspaces.len() && k != old(self).active_workspace ==> (
                #[trigger] final(self).workspaces[k]) == old(self).workspaces[k],
    {
        proof {
            assert(!seq_contains_id(old(self).spec_current().windows@, window.id)) by {
                if seq_contains_id(old(self).spec_current().windows@, window.id) {
                    assert(old(self).spec_holds_id(window.id));
                }
            }
        }
        let a = self.active_workspace;
        self.workspaces[a].windows.push(window);
        self.workspaces[a].active_window = Some(window.id);
        proof {
            let a = old(self).active_workspace as int;
            let pre = old(self).spec_current().windows@;
            let ws = final(self).workspaces[a];
            let n = pre.len() as int;
            assert(ws.windows@ =~= pre.push(window));
            // The new id is on no workspace, so not on this one either.
            assert forall|i: int| 0 <= i < n implies #[trigger] pre[i].id != window.id by {
                if pre[i].id == window.id {
                    assert(seq_contains_id(pre, window.id));
                    assert(old(self).spec_holds_id(window.id));
                }
            }
            assert forall|i: int, j: int| 0 <= i < j < ws.windows.len() implies #[trigger] ws.windows[i].id != #[trigger] ws.windows[j].id by {
                if j < n {
                    assert(old(self).workspaces[a].wf());
                } else {
                    assert(ws.windows[j].id == window.id);
                    assert(ws.windows[i] == pre[i]);
                }
            }
            assert forall|i: int, j: int|
                0 <= i < ws.windows.len() && 0 <= j < ws.windows.len() && (
                #[trigger] ws.windows[i].mode) is Fullscreen && (
                #[trigger] ws.windows[j].mode) is Fullscreen implies i == j by {
                assert(!(window.mode is Fullscreen));
                assert(i < n && j < n);
                assert(old(self).workspaces[a].wf());
            }
            match ws.full_geo {
                Some(_) => {
                    let c = spec_fullscreen_index(pre);
                    assert(seq_has_fullscreen(pre));
                    assert(0 <= c < n && pre[c].mode is Fullscreen);
                    assert(ws.windows@[c].mode is Fullscreen);
                    assert(seq_has_fullscreen(ws.windows@));
                },
                None => {},
            }
            assert(ws.windows@[n].id == window.id);
            assert(seq_contains_id(ws.windows@, window.id));
            assert(ws.wf());
            // No other workspace changed, and the new id was on none of them.
            assert forall|k1: int, k2: int, i: int, j: int|
                0 <= k1 < final(self).workspaces.len() && 0 <= k2 < final(self).workspaces.len()
                    && k1 != k2 && 0 <= i < final(self).workspaces[k1].windows.len() && 0 <= j
                    < final(self).workspaces[k2].windows.len() implies #[trigger] final(self).workspaces[k1].windows[i].id != #[trigger] final(self).workspaces[k2].windows[j].id by {
                let w1 = final(self).workspaces[k1].windows[i];
                let w2 = final(self).workspaces[k2].windows[j];
                if k1 == a && i == n {
                    if w2.id == window.id {
                        assert(seq_contains_id(old(self).workspaces[k2].windows@, w2.id));
                        assert(old(self).spec_holds_id(window.id));
                    }
                } else if k2 == a && j == n {
                    if w1.id == window.id {
                        assert(seq_contains_id(old(self).workspaces[k1].windows@, w1.id));
                        assert(old(self).spec_holds_id(window.id));
                    }
                } else {
                    assert(w1 == old(self).workspaces[k1].windows[i]);
                    assert(w2 == old(self).workspaces[k2].windows[j]);
                }
            }
        }
    }

    /// Remove the window with this id from whichever workspace holds it.
    /// Its departure clears the stale active/previous pointers, and the
    /// restore rectangle if it was the fullscreen window.
    pub fn remove_window(&mut self, id: u64)
        requires
            old(self).wf(),
        ensures
            final(self).wf(),
            final(self).workspaces.len() == old(self).workspaces.len(),
            final(self).active_workspace == old(self).active_workspace,
            final(self).prev_workspace == old(self).prev_workspace,
            forall|k: int|
                0 <= k < old(self).workspaces.len() ==> remove_post(
                    old(self).workspaces[k],
                    #[trigger] final(self).workspaces[k],
                    id,
                ),
            !final(self).spec_holds_id(id),
    {
        let n = self.workspaces.len();
        let mut k: usize = 0;
        while k < n
            invariant
                n == self.workspaces.len(),
                n == old(self).workspaces.len(),
                0 <= k <= n,
                self.active_workspace == old(self).active_workspace,
                self.prev_workspace == old(self).prev_workspace,
                forall|t: int|
                    0 <= t < k ==> remove_post(
                        old(self).workspaces[t],
                        #[trigger] self.workspaces[t],
                        id,
                    ),
                forall|t: int|
                    0 <= t < k ==> !seq_contains_id((#[trigger] self.workspaces[t]).windows@, id),
                forall|t: int|
                    0 <= t < k ==> (#[trigger] self.workspaces[t]).wf(),
                forall|t: int, j: int|
                    0 <= t < k && 0 <= j < self.workspaces[t].windows@.len() ==> seq_contains_id(
                        old(self).workspaces[t].windows@,
                        (#[trigger] self.workspaces[t].windows@[j]).id,
                    ),
                forall|t: int|
                    k <= t < n ==> #[trigger] self.workspaces[t] == old(self).workspaces[t],
                old(self).wf(),
            decreases n - k,
        {
            proof {
                assert(old(self).workspaces[k as int].wf());
            }
            self.workspaces[k].remove_window(id);
            k = k + 1;
        }
        proof {
            assert forall|k1: int, k2: int, i: int, j: int|
                0 <= k1 < self.workspaces.len() && 0 <= k2 < self.workspaces.len()
                    && k1 != k2 && 0 <= i < self.workspaces[k1].windows.len() && 0 <= j
                    < self.workspaces[k2].windows.len()
                implies #[trigger] self.workspaces[k1].windows[i].id
                    != #[trigger] self.workspaces[k2].windows[j].id by {
                let id1 = self.workspaces[k1].windows@[i].id;
                let id2 = self.workspaces[k2].windows@[j].id;
                assert(seq_contains_id(old(self).workspaces[k1].windows@, id1));
                assert(seq_contains_id(old(self).workspaces[k2].windows@, id2));
                if id1 == id2 {
                    let i0 = spec_index_of(old(self).workspaces[k1].windows@, id1);
                    let j0 = spec_index_of(old(self).workspaces[k2].windows@, id2);
                    assert(old(self).workspaces[k1].windows@[i0].id == id1);
                    assert(old(self).workspaces[k2].windows@[j0].id == id2);
                }
            }
            if self.spec_holds_id(id) {
                let k0 = choose|t: int|
                    0 <= t < self.workspaces.len() && seq_contains_id(
                        (#[trigger] self.workspaces[t]).windows@,
                        id,
                    );
                assert(!seq_contains_id(self.workspaces[k0].windows@, id));
            }
        }
    }

    /// Move the active window of the current workspace to the named one and
    /// switch there.  A request out of range, to the current workspace, or
    /// with nothing active is ignored.  A fullscreen window leaves
    /// fullscreen as it moves: it takes its restore rectangle along and is
    /// tiled again on the target workspace.
    pub fn move_window_to_ws(&mut self, ws_index: usize)
        requires
            old(self).wf(),
        ensures
            final(self).wf(),
            final(self).workspaces.len() == old(self).workspaces.len(),
            (ws_index >= old(self).workspaces.len() || ws_index == old(self).active_workspace
                || old(self).spec_current().active_window is None) ==> *final(self) == *old(self),
            ws_index < old(self).workspaces.len() && ws_index != old(self).active_workspace ==> (
            old(self).spec_current().active_window matches Some(id) ==> move_post(
                *old(self),
                *final(self),
                ws_index as int,
                id,
            )),
    {
        if ws_index >= self.workspaces.len() {
            return ;
        }
        if ws_index == self.active_workspace {
            return ;
        }
        let id = match self.get_active_window() {
            Some(id) => id,
            None => {
                return ;
            },
        };
        let a = self.active_workspace;
        let removed = self.workspaces[a].remove_window(id);
        let w0 = match removed {
            Some(w) => w,
            None => {
                proof {
                    assert(seq_contains_id(old(self).workspaces[a as int].windows@, id));
                }
                return ;
            },
        };
        let moved = match w0.mode {
            WindowMode::Fullscreen(r) => Window { id: w0.id, rect: r, mode: WindowMode::Tiled },
            _ => w0,
        };
        self.prev_workspace = a;
        self.active_workspace = ws_index;
        proof {
            // The id lived on the source workspace, so on no other.
            if seq_contains_id(old(self).workspaces[ws_index as int].windows@, id) {
                let i0 = spec_index_of(old(self).workspaces[a as int].windows@, id);
                let j0 = spec_index_of(old(self).workspaces[ws_index as int].windows@, id);
                assert(old(self).workspaces[a as int].windows@[i0].id == id);
                assert(old(self).workspaces[ws_index as int].windows@[j0].id == id);
            }
            assert(old(self).workspaces[a as int].wf());
            assert(moved.wf());
        }
        self.workspaces[ws_index].push_window(moved);
        proof {
            let pre = *old(self);
            let len = pre.workspaces.len() as int;
            let t = ws_index as int;
            let ai = a as int;
            assert forall|k1: int, k2: int, i: int, j: int|
                0 <= k1 < len && 0 <= k2 < len && k1 != k2
                    && 0 <= i < final(self).workspaces[k1].windows.len()
                    && 0 <= j < final(self).workspaces[k2].windows.len()
                implies #[trigger] final(self).workspaces[k1].windows[i].id
                    != #[trigger] final(self).workspaces[k2].windows[j].id by {
                let id1 = final(self).workspaces[k1].windows@[i].id;
                let id2 = final(self).workspaces[k2].windows@[j].id;
                if id1 == id2 {
                    // Trace each window back to the workspace it came from.
                    let o1: int = if k1 == t && i == pre.workspaces[t].windows@.len() {
                        ai
                    } else {
                        k1
                    };
                    let o2: int = if k2 == t && j == pre.workspaces[t].windows@.len() {
                        ai
                    } else {
                        k2
                    };
                    assert(seq_contains_id(pre.workspaces[o1].windows@, id1)) by {
                        if o1 == ai && k1 == t {
                            assert(id1 == id);
                            let i0 = spec_index_of(pre.workspaces[ai].windows@, id);
                            assert(pre.workspaces[ai].windows@[i0].id == id);
                        } else if k1 == ai {
                            assert(seq_contains_id(pre.workspaces[ai].windows@, id1));
                        } else {
                            assert(final(self).workspaces[k1] == pre.workspaces[k1]);
                        }
                    }
                    assert(seq_contains_id(pre.workspaces[o2].windows@, id2)) by {
                        if o2 == ai && k2 == t {
                            assert(id2 == id);
                            let j0 = spec_index_of(pre.workspaces[ai].windows@, id);
                            assert(pre.workspaces[ai].windows@[j0].id == id);
                        } else if k2 == ai {
                            assert(seq_contains_id(pre.workspaces[ai].windows@, id2));
                        } else {
                            assert(final(self).workspaces[k2] == pre.workspaces[k2]);
                        }
                    }
                    if o1 != o2 {
                        let u = spec_index_of(pre.workspaces[o1].windows@, id1);
                        let v = spec_index_of(pre.workspaces[o2].windows@, id2);
                        assert(pre.workspaces[o1].windows@[u].id == id1);
                        assert(pre.workspaces[o2].windows@[v].id == id2);
                    } else {
                        // Both trace to the source: but the moved id is no
                        // longer on the source after its removal.
                        assert(o1 == ai && o2 == ai);
                        if k1 == t {
                            assert(id1 == id);
                            assert(k2 == ai);
                            assert(!seq_contains_id(final(self).workspaces[ai].windows@, id));
                        } else {
                            assert(k1 == ai && k2 == t);
                            assert(id2 == id);
                            assert(!seq_contains_id(final(self).workspaces[ai].windows@, id));
                        }
                    }
                }
            }
        }
    }
}

/// A window belongs to exactly one workspace at a time: on a well-formed
/// workspace set, a window id found on one workspace is on no other.
pub proof fn lemma_workspace_isolation(wss: Workspaces, k1: int, k2: int, id: u64)
    requires
        wss.wf(),
        0 <= k1 < wss.workspaces.len(),
        0 <= k2 < wss.workspaces.len(),
        k1 != k2,
        seq_contains_id(wss.workspaces[k1].windows@, id),
    ensures
        !seq_contains_id(wss.workspaces[k2].windows@, id),
{
    if seq_contains_id(wss.workspaces[k2].windows@, id) {
        let i = spec_index_of(wss.workspaces[k1].windows@, id);
        let j = spec_index_of(wss.workspaces[k2].windows@, id);
        assert(wss.workspaces[k1].windows@[i].id == id);
        assert(wss.workspaces[k2].windows@[j].id == id);
    }
}

/// How the workspace set looks after the current workspace's active window
/// (with `id`) moved to workspace `t`: the source lost the row as
/// `remove_post` says, the target appended it exactly once and made it
/// active, the view switched to the target, and every other workspace is
/// untouched.  A window that was fullscreen moves tiled, with its restore
/// rectangle as its rectangle again.
pub open spec fn move_post(pre: Workspaces, post: Workspaces, t: int, id: u64) -> bool {
    let a = pre.active_workspace as int;
    let src = pre.workspaces[a];
    let i = spec_index_of(src.windows@, id);
    let w0 = src.windows@[i];
    let moved = if w0.mode is Fullscreen {
        Window { id: w0.id, rect: w0.mode->Fullscreen_0, mode: WindowMode::Tiled }
    } else {
        w0
    };
    &&& post.active_workspace == t
    &&& post.prev_workspace == a
    &&& post.workspaces.len() == pre.workspaces.len()
    &&& remove_post(src, post.workspaces[a], id)
    &&& post.workspaces[t].windows@ == pre.workspaces[t].windows@.push(moved)
    &&& post.workspaces[t].active_window == Some(id)
    &&& post.workspaces[t].full_geo == pre.workspaces[t].full_geo
    &&& post.workspaces[t].prev_window == pre.workspaces[t].prev_window
    &&& post.workspaces[t].layout == pre.workspaces[t].layout
    &&& forall|k: int|
        0 <= k < pre.workspaces.len() && k != a && k != t ==> #[trigger] post.workspaces[k]
            == pre.workspaces[k]
}

/// Magnitude of an integer.
pub open spec fn iabs(x: int) -> int {
    if x < 0 {
        -x
    } else {
        x
    }
}

/// Horizontal distance between the centers of candidate and focused window.
pub open spec fn spec_dx(focused: Window, cand: Window) -> int {
    cand.rect.spec_center().x - focused.rect.spec_center().x
}

/// Vertical distance between the centers of candidate and focused window.
pub open spec fn spec_dy(focused: Window, cand: Window) -> int {
    cand.rect.spec_center().y - focused.rect.spec_center().y
}

/// A candidate is valid for a direction iff its center lies strictly on
/// that side of the focused window's center and its extent on the
/// perpendicular axis overlaps the focused center's line: roughly aligned
/// windows win over diagonal ones.
pub open spec fn valid_candidate(dir: Direction, focused: Window, cand: Window) -> bool {
    let dx = spec_dx(focused, cand);
    let dy = spec_dy(focused, cand);
    match dir {
        Direction::Left => dx < 0 && iabs(dy) < cand.rect.size.h,
        Direction::Right => dx > 0 && iabs(dy) < cand.rect.size.h,
        Direction::Top => dy < 0 && iabs(dx) < cand.rect.size.w,
        Direction::Down => dy > 0 && iabs(dx) < cand.rect.size.w,
    }
}

/// Manhattan distance between the two centers.
pub open spec fn manhattan(focused: Window, cand: Window) -> int {
    iabs(spec_dx(focused, cand)) + iabs(spec_dy(focused, cand))
}

/// The best-candidate fold from position `k` on, carrying the best
/// `(index, distance)` seen so far: a valid candidate strictly closer than
/// the carried one replaces it, so ties keep the earliest window in the
/// list.
pub open spec fn best_from(
    s: Seq<Window>,
    focused: Window,
    dir: Direction,
    k: int,
    acc: Option<(int, int)>,
) -> Option<(int, int)>
    decreases s.len() - k,
{
    if k < 0 || k >= s.len() {
        acc
    } else {
        let cand = s[k];
        let better = match acc {
            None => true,
            Some(p) => manhattan(focused, cand) < p.1,
        };
        let acc2 = if cand.id != focused.id && valid_candidate(dir, focused, cand) && better {
            Some((k, manhattan(focused, cand)))
        } else {
            acc
        };
        best_from(s, focused, dir, k + 1, acc2)
    }
}

/// The winner of the best-candidate search over the whole list.
pub open spec fn best_candidate(s: Seq<Window>, focused: Window, dir: Direction) -> Option<
    (int, int),
> {
    best_from(s, focused, dir, 0, None)
}

/// Among all windows other than the focused one, the valid candidate of the
/// direction with the smallest Manhattan center distance, earliest in the
/// tiling order on a tie; its id and that distance.
pub fn best_window(direction: &Direction, ws: &Workspace, focused: Option<u64>) -> (r: Option<
    (u64, i32),
>)
    requires
        ws.wf(),
    ensures
        match focused {
            None => r is None,
            Some(fid) => {
                if !seq_contains_id(ws.windows@, fid) {
                    r is None
                } else {
                    let f = ws.windows@[spec_index_of(ws.windows@, fid)];
                    match best_candidate(ws.windows@, f, *direction) {
                        None => r is None,
                        Some(p) => r == Some((ws.windows@[p.0].id, p.1 as i32)),
                    }
                }
            },
        },
{
    let fid = match focused {
        Some(f) => f,
        None => {
            return None;
        },
    };
    let fi = match ws.find_index(fid) {
        Some(i) => i,
        None => {
            return None;
        },
    };
    let f = ws.windows[fi];
    let fc = f.rect.center();

    let ghost s = ws.windows@;
    let ghost dir = *direction;
    let mut best: Option<(u64, i32)> = None;
    let ghost mut best_idx: int = -1;
    let mut k: usize = 0;
    while k < ws.windows.len()
        invariant
            ws.wf(),
            0 <= k <= s.len(),
            s == ws.windows@,
            dir == *direction,
            0 <= fi < s.len(),
            f == s[fi as int],
            f.id == fid,
            fc == f.rect.spec_center(),
            match best {
                None => best_idx == -1 && best_from(s, f, dir, k as int, None) == best_candidate(
                    s,
                    f,
                    dir,
                ),
                Some(p) => 0 <= best_idx < k && s[best_idx].id == p.0 && p.1 == manhattan(
                    f,
                    s[best_idx],
                ) && best_from(s, f, dir, k as int, Some((best_idx, p.1 as int)))
                    == best_candidate(s, f, dir),
            },
        decreases s.len() - k,
    {
        let cand = ws.windows[k];
        proof {
            assert(s[k as int].wf());
        }
        if cand.id != fid {
            let cc = cand.rect.center();
            let dx = cc.x - fc.x;
            let dy = cc.y - fc.y;
            let adx = if dx < 0 {
                -dx
            } else {
                dx
            };
            let ady = if dy < 0 {
                -dy
            } else {
                dy
            };
            let valid = match direction {
                Direction::Left => dx < 0 && ady < cand.rect.size.h,
                Direction::Right => dx > 0 && ady < cand.rect.size.h,
                Direction::Top => dy < 0 && adx < cand.rect.size.w,
                Direction::Down => dy > 0 && adx < cand.rect.size.w,
            };
            if valid {
                let distance = adx + ady;
                proof {
                    assert(distance as int == manhattan(f, s[k as int]));
                }
                let replace = match best {
                    None => true,
                    Some(p) => distance < p.1,
                };
                if replace {
                    best = Some((cand.id, distance));
                    proof {
                        best_idx = k as int;
                    }
                }
            }
        }
        k = k + 1;
    }
    best
}

/// The center of the window with this id, if it is on the workspace.
pub fn window_center(ws: &Workspace, id: u64) -> (r: Option<Point>)
    requires
        ws.wf(),
    ensures
        match r {
            Some(p) => seq_contains_id(ws.windows@, id) && p == ws.windows@[spec_index_of(
                ws.windows@,
                id,
            )].rect.spec_center(),
            None => !seq_contains_id(ws.windows@, id),
        },
{
    match ws.find_index(id) {
        Some(i) => {
            proof {
                assert(ws.windows@[i as int].wf());
            }
            Some(ws.windows[i].rect.center())
        },
        None => None,
    }
}

/// What the focus winner is for the current workspace, if any: the index
/// and distance of the best candidate from the active window.
pub open spec fn spec_focus_winner(ws: Workspace, dir: Direction) -> Option<(int, int)> {
    match ws.active_window {
        None => None,
        Some(fid) => {
            if !seq_contains_id(ws.windows@, fid) {
                None
            } else {
                best_candidate(ws.windows@, ws.windows@[spec_index_of(ws.windows@, fid)], dir)
            }
        },
    }
}

/// A workspace after the focused window (row `fi`) and the winner (row
/// `bi`) changed places: floating windows trade their screen rectangles;
/// otherwise the two rows trade places in the tiling order.
pub open spec fn swap_post(pre: Workspace, post: Workspace, fi: int, bi: int) -> bool {
    let wf0 = pre.windows@[fi];
    let wb0 = pre.windows@[bi];
    &&& (if wf0.mode is Floating && wb0.mode is Floating {
        post.windows@ == pre.windows@.update(fi, Window { rect: wb0.rect, ..wf0 }).update(
            bi,
            Window { rect: wf0.rect, ..wb0 },
        )
    } else {
        post.windows@ == pre.windows@.update(fi, wb0).update(bi, wf0)
    })
    &&& post.active_window == pre.active_window
    &&& post.prev_window == pre.prev_window
    &&& post.full_geo == pre.full_geo
    &&& post.layout == pre.layout
}

impl Workspaces {
    /// Move the recorded pointer location to the center of the best
    /// candidate in the direction, so that pointer-driven focus picks that
    /// window up.  Nothing else changes; with no active window or no valid
    /// candidate the location stays.
    pub fn change_focus(&mut self, direction: &Direction, loc: &mut Point)
        requires
            old(self).wf(),
        ensures
            *final(self) == *old(self),
            match spec_focus_winner(old(self).spec_current(), *direction) {
                None => *final(loc) == *old(loc),
                Some(p) => *final(loc) == old(self).spec_current().windows@[p.0].rect.spec_center(),
            },
    {
        let focused = self.get_active_window();
        let a = self.active_workspace;
        match best_window(direction, &self.workspaces[a], focused) {
            Some((id, _)) => {
                proof {
                    let cur = old(self).spec_current();
                    let fid = cur.active_window.unwrap();
                    let f = cur.windows@[spec_index_of(cur.windows@, fid)];
                    let p = best_candidate(cur.windows@, f, *direction).unwrap();
                    lemma_best_from_winner(cur.windows@, f, *direction, 0, None);
                    assert(cur.windows@[p.0].id == id);
                    assert(seq_contains_id(cur.windows@, id));
                    let t = spec_index_of(cur.windows@, id);
                    assert(0 <= t < cur.windows@.len() && cur.windows@[t].id == id);
                    assert(t == p.0);
                }
                match window_center(&self.workspaces[a], id) {
                    Some(c) => {
                        *loc = c;
                    },
                    None => {},
                }
            },
            None => {},
        }
    }

    /// Swap the focused window with the best candidate in the direction —
    /// two floating windows trade rectangles, otherwise the rows trade
    /// places in the tiling order — and move the recorded pointer location
    /// to the winner's old center.  With no active window or no valid
    /// candidate nothing changes.
    pub fn move_window(&mut self, direction: &Direction, loc: &mut Point)
        requires
            old(self).wf(),
        ensures
            final(self).wf(),
            final(self).workspaces.len() == old(self).workspaces.len(),
            final(self).active_workspace == old(self).active_workspace,
            final(self).prev_workspace == old(self).prev_workspace,
            forall|k: int|
                0 <= k < old(self).workspaces.len() && k != old(self).active_workspace ==> (
                #[trigger] final(self).workspaces[k]) == old(self).workspaces[k],
            match spec_focus_winner(old(self).spec_current(), *direction) {
                None => *final(self) == *old(self) && *final(loc) == *old(loc),
                Some(p) => {
                    let cur = old(self).spec_current();
                    let fi = spec_index_of(cur.windows@, cur.active_window.unwrap());
                    &&& swap_post(cur, final(self).spec_current(), fi, p.0)
                    &&& *final(loc) == cur.windows@[p.0].rect.spec_center()
                },
            },
    {
        let focused = self.get_active_window();
        let a = self.active_workspace;
        let fid = match focused {
            Some(f) => f,
            None => {
                return ;
            },
        };
        let fi = match self.workspaces[a].find_index(fid) {
            Some(i) => i,
            None => {
                return ;
            },
        };
        let best = match best_window(direction, &self.workspaces[a], Some(fid)) {
            Some((id, _)) => id,
            None => {
                return ;
            },
        };
        let bi = match self.workspaces[a].find_index(best) {
            Some(i) => i,
            None => {
                proof {
                    let cur = old(self).spec_current();
                    let f = cur.windows@[fi as int];
                    let p = best_candidate(cur.windows@, f, *direction).unwrap();
                    lemma_best_from_winner(cur.windows@, f, *direction, 0, None);
                    assert(cur.windows@[p.0].id == best);
                }
                return ;
            },
        };
        proof {
            let cur = old(self).spec_current();
            let f = cur.windows@[fi as int];
            let p = best_candidate(cur.windows@, f, *direction).unwrap();
            lemma_best_from_winner(cur.windows@, f, *direction, 0, None);
            assert(cur.windows@[p.0].id == best);
            assert(bi as int == p.0);
            assert(cur.windows@[p.0].id != f.id);
        }
        let wf0 = self.workspaces[a].windows[fi];
        let wb0 = self.workspaces[a].windows[bi];
        match window_center(&self.workspaces[a], best) {
            Some(c) => {
                *loc = c;
            },
            None => {},
        }
        let both_floating = match (wf0.mode, wb0.mode) {
            (WindowMode::Floating, WindowMode::Floating) => true,
            _ => false,
        };
        if both_floating {
            self.workspaces[a].windows[fi].rect = wb0.rect;
            self.workspaces[a].windows[bi].rect = wf0.rect;
        } else {
            self.workspaces[a].windows[fi] = wb0;
            self.workspaces[a].windows[bi] = wf0;
        }
        proof {
            let cur = old(self).spec_current();
            let ws = self.workspaces[a as int];
            let pre = cur.windows@;
            let post = ws.windows@;
            let fi = fi as int;
            let bi = bi as int;
            assert(old(self).workspaces[a as int].wf());
            assert forall|j: int| 0 <= j < post.len() implies (#[trigger] post[j]).wf() by {
                assert(post[j] == pre[j] || post[j] == pre[fi] || post[j] == pre[bi]
                    || (post[j].id == pre[j].id && post[j].mode == pre[j].mode && post[j].rect
                    == pre[fi].rect) || (post[j].id == pre[j].id && post[j].mode == pre[j].mode
                    && post[j].rect == pre[bi].rect));
            }
            assert forall|p: int, q: int| 0 <= p < q < post.len() implies #[trigger] post[p].id
                != #[trigger] post[q].id by {
                let p0: int = if p == fi {
                    bi
                } else if p == bi {
                    fi
                } else {
                    p
                };
                let q0: int = if q == fi {
                    bi
                } else if q == bi {
                    fi
                } else {
                    q
                };
                if both_floating {
                    assert(post[p].id == pre[p].id && post[q].id == pre[q].id);
                } else {
                    assert(post[p].id == pre[p0].id && post[q].id == pre[q0].id);
                }
            }
            assert forall|p: int, q: int|
                0 <= p < post.len() && 0 <= q < post.len() && (#[trigger] post[p].mode)
                    is Fullscreen && (#[trigger] post[q].mode) is Fullscreen implies p == q by {
                let p0: int = if p == fi {
                    bi
                } else if p == bi {
                    fi
                } else {
                    p
                };
                let q0: int = if q == fi {
                    bi
                } else if q == bi {
                    fi
                } else {
                    q
                };
                if both_floating {
                    assert(post[p].mode == pre[p].mode && post[q].mode == pre[q].mode);
                } else {
                    assert(post[p].mode == pre[p0].mode && post[q].mode == pre[q0].mode);
                }
            }
            assert forall|p: int|
                0 <= p < post.len() && (#[trigger] post[p].mode) is Fullscreen
                implies ws.full_geo == Some(post[p].mode->Fullscreen_0) by {
                let p0: int = if both_floating {
                    p
                } else if p == fi {
                    bi
                } else if p == bi {
                    fi
                } else {
                    p
                };
                assert(post[p].mode == pre[p0].mode);
            }
            match ws.full_geo {
                Some(_) => {
                    let c = spec_fullscreen_index(pre);
                    assert(seq_has_fullscreen(pre));
                    assert(0 <= c < pre.len() && pre[c].mode is Fullscreen);
                    let c1: int = if both_floating {
                        c
                    } else if c == fi {
                        bi
                    } else if c == bi {
                        fi
                    } else {
                        c
                    };
                    assert(post[c1].mode == pre[c].mode);
                    assert(seq_has_fullscreen(post));
                },
                None => {},
            }
            match ws.active_window {
                Some(aw) => {
                    let t = spec_index_of(pre, aw);
                    assert(seq_contains_id(pre, aw));
                    assert(0 <= t < pre.len() && pre[t].id == aw);
                    let t1: int = if both_floating {
                        t
                    } else if t == fi {
                        bi
                    } else if t == bi {
                        fi
                    } else {
                        t
                    };
                    assert(post[t1].id == aw);
                    assert(seq_contains_id(post, aw));
                },
                None => {},
            }
            assert(ws.wf());
            assert forall|k1: int, k2: int, i: int, j: int|
                0 <= k1 < self.workspaces.len() && 0 <= k2 < self.workspaces.len() && k1 != k2
                    && 0 <= i < self.workspaces[k1].windows.len() && 0 <= j
                    < self.workspaces[k2].windows.len()
                implies #[trigger] self.workspaces[k1].windows[i].id
                    != #[trigger] self.workspaces[k2].windows[j].id by {
                let i0: int = if k1 != a as int || both_floating {
                    i
                } else if i == fi {
                    bi
                } else if i == bi {
                    fi
                } else {
                    i
                };
                let j0: int = if k2 != a as int || both_floating {
                    j
                } else if j == fi {
                    bi
                } else if j == bi {
                    fi
                } else {
                    j
                };
                assert(self.workspaces[k1].windows@[i].id == old(
                    self,
                ).workspaces[k1].windows@[i0].id);
                assert(self.workspaces[k2].windows@[j].id == old(
                    self,
                ).workspaces[k2].windows@[j0].id);
            }
            if both_floating {
                assert(post =~= pre.update(fi, Window { rect: pre[bi].rect, ..pre[fi] }).update(
                    bi,
                    Window { rect: pre[fi].rect, ..pre[bi] },
                ));
            } else {
                assert(post =~= pre.update(fi, pre[bi]).update(bi, pre[fi]));
            }
        }
    }
}

/// What the best-candidate fold hands back: either the accumulator it was
/// given, or a window of the list that is a valid candidate other than the
/// focused one, at its own distance.
pub proof fn lemma_best_from_winner(
    s: Seq<Window>,
    focused: Window,
    dir: Direction,
    k: int,
    acc: Option<(int, int)>,
)
    ensures
        match best_from(s, focused, dir, k, acc) {
            None => acc is None,
            Some(p) => acc == Some(p) || (0 <= p.0 < s.len() && s[p.0].id != focused.id
                && valid_candidate(dir, focused, s[p.0]) && p.1 == manhattan(focused, s[p.0])),
        },
    decreases s.len() - k,
{
    if k < 0 || k >= s.len() {
    } else {
        let cand = s[k];
        let better = match acc {
            None => true,
            Some(p) => manhattan(focused, cand) < p.1,
        };
        let acc2 = if cand.id != focused.id && valid_candidate(dir, focused, cand) && better {
            Some((k, manhattan(focused, cand)))
        } else {
            acc
        };
        lemma_best_from_winner(s, focused, dir, k + 1, acc2);
    }
}

/// The focus search is geometrically reversible on a two-window layout:
/// when the search to the right from X picks Y, whose vertical extent is
/// aligned with X's as well, the search to the left from Y picks X again,
/// at the same distance.
pub proof fn lemma_focus_symmetry(s: Seq<Window>, ix: int, iy: int)
    requires
        s.len() == 2,
        0 <= ix < 2,
        0 <= iy < 2,
        ix != iy,
        s[ix].id != s[iy].id,
        valid_candidate(Direction::Right, s[ix], s[iy]),
        iabs(spec_dy(s[iy], s[ix])) < s[ix].rect.size.h,
    ensures
        best_candidate(s, s[ix], Direction::Right) == Some((iy, manhattan(s[ix], s[iy]))),
        best_candidate(s, s[iy], Direction::Left) == Some((ix, manhattan(s[iy], s[ix]))),
{
    let x = s[ix];
    let y = s[iy];
    assert(spec_dx(y, x) == -spec_dx(x, y));
    assert(valid_candidate(Direction::Left, y, x));
    if ix == 0 {
        assert(best_from(s, x, Direction::Right, 0, None) == best_from(
            s,
            x,
            Direction::Right,
            1,
            None,
        ));
        assert(best_from(s, x, Direction::Right, 1, None) == best_from(
            s,
            x,
            Direction::Right,
            2,
            Some((1int, manhattan(x, y))),
        ));
        assert(best_from(s, y, Direction::Left, 0, None) == best_from(
            s,
            y,
            Direction::Left,
            1,
            Some((0int, manhattan(y, x))),
        ));
        assert(best_from(s, y, Direction::Left, 1, Some((0int, manhattan(y, x)))) == best_from(
            s,
            y,
            Direction::Left,
            2,
            Some((0int, manhattan(y, x))),
        ));
    } else {
        assert(best_from(s, x, Direction::Right, 0, None) == best_from(
            s,
            x,
            Direction::Right,
            1,
            Some((0int, manhattan(x, y))),
        ));
        assert(best_from(s, x, Direction::Right, 1, Some((0int, manhattan(x, y)))) == best_from(
            s,
            x,
            Direction::Right,
            2,
            Some((0int, manhattan(x, y))),
        ));
        assert(best_from(s, y, Direction::Left, 0, None) == best_from(
            s,
            y,
            Direction::Left,
            1,
            None,
        ));
        assert(best_from(s, y, Direction::Left, 1, None) == best_from(
            s,
            y,
            Direction::Left,
            2,
            Some((1int, manhattan(y, x))),
        ));
    }
}

/// How a workspace looks after the window with `id` went fullscreen over
/// `output_rect`: a window already fullscreen was first restored
/// (unconditional replacement), then the target's rectangle was recorded as
/// the workspace's restore rectangle and in the window's own mode, and the
/// window was mapped over the full output.
pub open spec fn fullscreen_post(pre: Workspace, post: Workspace, id: u64, output_rect: Rect) -> bool {
    let s0 = pre.windows@;
    let s1 = if seq_has_fullscreen(s0) {
        let f = spec_fullscreen_index(s0);
        s0.update(f, Window { id: s0[f].id, rect: s0[f].mode->Fullscreen_0, mode: WindowMode::Tiled })
    } else {
        s0
    };
    let i = spec_index_of(s1, id);
    &&& post.windows@ == s1.update(i, Window { id, rect: output_rect, mode: WindowMode::Fullscreen(s1[i].rect) })
    &&& post.full_geo == Some(s1[i].rect)
    &&& post.active_window == pre.active_window
    &&& post.prev_window == pre.prev_window
    &&& post.layout == pre.layout
}

/// How a workspace looks after leaving fullscreen: the fullscreen window,
/// if any, got its recorded rectangle back and is tiled again, and the
/// restore rectangle is cleared.  Without one, nothing changes.
pub open spec fn unfullscreen_post(pre: Workspace, post: Workspace) -> bool {
    if seq_has_fullscreen(pre.windows@) {
        let f = spec_fullscreen_index(pre.windows@);
        &&& post.windows@ == pre.windows@.update(
            f,
            Window { id: pre.windows@[f].id, rect: pre.windows@[f].mode->Fullscreen_0, mode: WindowMode::Tiled },
        )
        &&& post.full_geo is None
        &&& post.active_window == pre.active_window
        &&& post.prev_window == pre.prev_window
        &&& post.layout == pre.layout
    } else {
        post == pre
    }
}

impl Workspace {
    /// Restore the fullscreen window, if any: its recorded rectangle comes
    /// back, it is tiled again, and the restore rectangle is cleared.
    pub fn unfullscreen_request(&mut self)
        requires
            old(self).wf(),
        ensures
            final(self).wf(),
            unfullscreen_post(*old(self), *final(self)),
    {
        let f = match self.fullscreen_index() {
            Some(f) => f,
            None => {
                return ;
            },
        };
        let saved = match self.windows[f].mode {
            WindowMode::Fullscreen(r) => r,
            _ => Rect::new(0, 0, 0, 0),
        };
        self.windows[f].rect = saved;
        self.windows[f].mode = WindowMode::Tiled;
        self.full_geo = None;
        proof {
            let pre = old(self).windows@;
            let post = self.windows@;
            let fi = f as int;
            assert(post =~= pre.update(
                fi,
                Window { id: pre[fi].id, rect: pre[fi].mode->Fullscreen_0, mode: WindowMode::Tiled },
            ));
            assert forall|p: int, q: int| 0 <= p < q < post.len() implies #[trigger] post[p].id
                != #[trigger] post[q].id by {
                assert(post[p].id == pre[p].id && post[q].id == pre[q].id);
            }
            assert forall|p: int|
                0 <= p < post.len() && (#[trigger] post[p].mode) is Fullscreen implies false by {
                assert(pre[p].mode is Fullscreen && p != fi);
            }
            match self.active_window {
                Some(aw) => {
                    let t = spec_index_of(pre, aw);
                    assert(seq_contains_id(pre, aw));
                    assert(post[t].id == aw);
                    assert(seq_contains_id(post, aw));
                },
                None => {},
            }
            assert forall|j: int| 0 <= j < post.len() implies (#[trigger] post[j]).wf() by {
                assert(pre[j].wf());
            }
        }
    }

    /// Map the window with `id` over the whole output: a window already
    /// fullscreen is first restored (a second request replaces the first
    /// unconditionally), then the target's current rectangle is recorded as
    /// the restore rectangle, and its rectangle becomes the output's.
    pub fn fullscreen_request(&mut self, id: u64, output_rect: Rect)
        requires
            old(self).wf(),
            seq_contains_id(old(self).windows@, id),
            output_rect.wf(),
        ensures
            final(self).wf(),
            fullscreen_post(*old(self), *final(self), id, output_rect),
    {
        self.unfullscreen_request();
        proof {
            let s0 = old(self).windows@;
            let s1 = self.windows@;
            assert forall|j: int| 0 <= j < s1.len() implies #[trigger] s1[j].id == s0[j].id by {}
            assert(seq_contains_id(s1, id)) by {
                let t = spec_index_of(s0, id);
                assert(s0[t].id == id);
                assert(s1[t].id == id);
            }
        }
        let i = match self.find_index(id) {
            Some(i) => i,
            None => {
                proof {
                    assert(false);
                }
                return ;
            },
        };
        let saved = self.windows[i].rect;
        self.windows[i].mode = WindowMode::Fullscreen(saved);
        self.windows[i].rect = output_rect;
        self.full_geo = Some(saved);
        proof {
            let s0 = old(self).windows@;
            let mid = if seq_has_fullscreen(s0) {
                let f = spec_fullscreen_index(s0);
                s0.update(f, Window { id: s0[f].id, rect: s0[f].mode->Fullscreen_0, mode: WindowMode::Tiled })
            } else {
                s0
            };
            let post = self.windows@;
            let ii = i as int;
            assert(ii == spec_index_of(mid, id)) by {
                let t = spec_index_of(mid, id);
                assert(0 <= t < mid.len() && mid[t].id == id);
                assert(mid[ii].id == id);
            }
            assert(post =~= mid.update(
                ii,
                Window { id, rect: output_rect, mode: WindowMode::Fullscreen(mid[ii].rect) },
            ));
            assert forall|p: int, q: int| 0 <= p < q < post.len() implies #[trigger] post[p].id
                != #[trigger] post[q].id by {
                assert(post[p].id == mid[p].id && post[q].id == mid[q].id);
                assert(mid[p].id == s0[p].id && mid[q].id == s0[q].id);
            }
            assert forall|p: int, q: int|
                0 <= p < post.len() && 0 <= q < post.len() && (#[trigger] post[p].mode)
                    is Fullscreen && (#[trigger] post[q].mode) is Fullscreen implies p == q by {
                if p != ii {
                    assert(post[p].mode == mid[p].mode);
                    assert(!(mid[p].mode is Fullscreen));
                }
                if q != ii {
                    assert(post[q].mode == mid[q].mode);
                    assert(!(mid[q].mode is Fullscreen));
                }
            }
            assert(post[ii].mode is Fullscreen);
            assert(seq_has_fullscreen(post));
            assert(mid[ii].rect.wf()) by {
                if seq_has_fullscreen(s0) {
                    let f = spec_fullscreen_index(s0);
                    assert(s0[f].wf());
                    if ii == f {
                    } else {
                        assert(s0[ii].wf());
                    }
                } else {
                    assert(s0[ii].wf());
                }
            }
            match self.active_window {
                Some(aw) => {
                    let t = spec_index_of(s0, aw);
                    assert(seq_contains_id(s0, aw));
                    assert(post[t].id == aw);
                    assert(seq_contains_id(post, aw));
                },
                None => {},
            }
            assert forall|j: int| 0 <= j < post.len() implies (#[trigger] post[j]).wf() by {
                assert(s0[j].wf());
                if seq_has_fullscreen(s0) {
                    let f = spec_fullscreen_index(s0);
                    assert(s0[f].wf());
                }
            }
        }
    }
}

/// Entering fullscreen and leaving it right away restores the window's
/// pre-fullscreen rectangle exactly, leaves it tiled, clears the
/// workspace's restore rectangle, and touches no other window.
pub proof fn lemma_fullscreen_roundtrip(
    ws0: Workspace,
    ws1: Workspace,
    ws2: Workspace,
    id: u64,
    output_rect: Rect,
)
    requires
        ws0.wf(),
        ws1.wf(),
        seq_contains_id(ws0.windows@, id),
        !seq_has_fullscreen(ws0.windows@),
        fullscreen_post(ws0, ws1, id, output_rect),
        unfullscreen_post(ws1, ws2),
    ensures
        ws2.full_geo is None,
        ws2.windows@.len() == ws0.windows@.len(),
        ws2.windows@[spec_index_of(ws0.windows@, id)] == (Window {
            id,
            rect: ws0.windows@[spec_index_of(ws0.windows@, id)].rect,
            mode: WindowMode::Tiled,
        }),
        forall|j: int|
            0 <= j < ws0.windows@.len() && j != spec_index_of(ws0.windows@, id)
                ==> #[trigger] ws2.windows@[j] == ws0.windows@[j],
{
    let s0 = ws0.windows@;
    let i = spec_index_of(s0, id);
    assert(0 <= i < s0.len() && s0[i].id == id);
    assert(ws1.windows@ == s0.update(
        i,
        Window { id, rect: output_rect, mode: WindowMode::Fullscreen(s0[i].rect) },
    ));
    assert(ws1.windows@[i].mode is Fullscreen);
    assert(seq_has_fullscreen(ws1.windows@));
    let f = spec_fullscreen_index(ws1.windows@);
    assert(0 <= f < ws1.windows@.len() && ws1.windows@[f].mode is Fullscreen);
    assert(f == i);
    assert(ws2.windows@ == ws1.windows@.update(
        i,
        Window { id, rect: s0[i].rect, mode: WindowMode::Tiled },
    ));
}

/// A layout rectangle pulled in by the border offset on every side; an
/// edge too short for two offsets ends at length zero.
pub open spec fn shrink_rect(r: Rect, offset: int) -> Rect {
    Rect {
        loc: Point { x: (r.loc.x + offset) as i32, y: (r.loc.y + offset) as i32 },
        size: Size {
            w: (if r.size.w - 2 * offset >= 0 {
                r.size.w - 2 * offset
            } else {
                0int
            }) as i32,
            h: (if r.size.h - 2 * offset >= 0 {
                r.size.h - 2 * offset
            } else {
                0int
            }) as i32,
        },
    }
}

/// How many of the first `i` windows are tiled.
pub open spec fn tiled_before(s: Seq<Window>, i: int) -> int
    decreases i,
{
    if i <= 0 {
        0
    } else {
        tiled_before(s, i - 1) + if s[i - 1].mode is Tiled {
            1int
        } else {
            0int
        }
    }
}

/// A tiled-window count stays between zero and the prefix length.
pub proof fn lemma_tiled_before_bounds(s: Seq<Window>, i: int)
    requires
        0 <= i,
    ensures
        0 <= tiled_before(s, i) <= i,
    decreases i,
{
    if i > 0 {
        lemma_tiled_before_bounds(s, i - 1);
    }
}

/// Counting tiled windows grows monotonically with the prefix, and
/// strictly across a tiled position.
pub proof fn lemma_tiled_before_mono(s: Seq<Window>, i: int, j: int)
    requires
        0 <= i <= j,
    ensures
        tiled_before(s, i) <= tiled_before(s, j),
        0 <= tiled_before(s, i) <= i,
        i < j && 0 <= i < s.len() && s[i].mode is Tiled ==> tiled_before(s, i) < tiled_before(
            s,
            j,
        ),
    decreases j - i,
{
    lemma_tiled_before_bounds(s, i);
    if i < j {
        lemma_tiled_before_mono(s, i + 1, j);
    }
}

/// How a workspace looks after a layout pass over `zone` with the border
/// offset: with no window, or while one is fullscreen, nothing moves;
/// otherwise every tiled window gets its master-stack rectangle, shrunk by
/// the offset, by its rank among the tiled windows, and floating or grabbed
/// windows stay where they are.
pub open spec fn layout_post(pre: Workspace, post: Workspace, zone: Rect, offset: int) -> bool {
    if pre.windows@.len() == 0 || seq_has_fullscreen(pre.windows@) {
        post == pre
    } else {
        let n = tiled_before(pre.windows@, pre.windows@.len() as int);
        &&& post.windows@.len() == pre.windows@.len()
        &&& forall|i: int|
            0 <= i < pre.windows@.len() && ((#[trigger] pre.windows@[i]).mode is Tiled)
                ==> post.windows@[i] == (Window {
                id: pre.windows@[i].id,
                rect: shrink_rect(
                    master_stack_rect(tiled_before(pre.windows@, i), n, zone),
                    offset,
                ),
                mode: WindowMode::Tiled,
            })
        &&& forall|i: int|
            0 <= i < pre.windows@.len() && !((#[trigger] pre.windows@[i]).mode is Tiled)
                ==> post.windows@[i] == pre.windows@[i]
        &&& post.full_geo == pre.full_geo
        &&& post.active_window == pre.active_window
        &&& post.prev_window == pre.prev_window
        &&& post.layout == pre.layout
    }
}

/// A layout cell pulled in by the border offset.
fn shrink_cell(r: Rect, offset: i32) -> (out: Rect)
    requires
        r.wf(),
        0 <= offset <= MAX_EXTENT,
    ensures
        out == shrink_rect(r, offset as int),
{
    let w = if r.size.w - 2 * offset >= 0 {
        r.size.w - 2 * offset
    } else {
        0
    };
    let h = if r.size.h - 2 * offset >= 0 {
        r.size.h - 2 * offset
    } else {
        0
    };
    Rect { loc: Point { x: r.loc.x + offset, y: r.loc.y + offset }, size: Size { w, h } }
}

impl Workspace {
    /// Recompute the tiling: every tiled window is given its master-stack
    /// rectangle within `zone`, shrunk by the border offset; floating and
    /// grabbed windows keep their place, and while a window is fullscreen
    /// the pass does nothing.
    #[verifier::rlimit(100)]
    pub fn refresh_layout(&mut self, zone: Rect, offset: i32)
        requires
            old(self).wf(),
            zone.wf(),
            0 <= offset <= MAX_EXTENT,
            zone.loc.x + zone.size.w + offset <= MAX_EXTENT,
            zone.loc.y + zone.size.h + offset <= MAX_EXTENT,
            old(self).windows.len() < 0x8000_0000,
        ensures
            final(self).wf(),
            layout_post(*old(self), *final(self), zone, offset as int),
    {
        let len = self.windows.len();
        if len == 0 {
            return ;
        }
        match self.fullscreen_index() {
            Some(_) => {
                return ;
            },
            None => {},
        }
        let ghost s0 = self.windows@;

        // Rank the tiled windows and remember where each one sits.
        let mut ids: Vec<u64> = Vec::new();
        let mut positions: Vec<usize> = Vec::new();
        let mut i: usize = 0;
        while i < len
            invariant
                0 <= i <= len,
                len == s0.len(),
                s0 == self.windows@,
                ids@.len() == positions@.len(),
                positions@.len() == tiled_before(s0, i as int),
                forall|t: int|
                    0 <= t < positions@.len() ==> #[trigger] positions@[t] < i && s0[
                        positions@[t] as int
                    ].mode is Tiled && tiled_before(s0, positions@[t] as int) == t && ids@[t]
                        == s0[positions@[t] as int].id,
                forall|j: int|
                    0 <= j < i && (#[trigger] s0[j]).mode is Tiled ==> positions@[tiled_before(
                        s0,
                        j,
                    )] == j,
            decreases len - i,
        {
            let tiled = match self.windows[i].mode {
                WindowMode::Tiled => true,
                _ => false,
            };
            proof {
                lemma_tiled_before_bounds(s0, i as int);
            }
            if tiled {
                ids.push(self.windows[i].id);
                positions.push(i);
            }
            proof {
                assert forall|j: int|
                    0 <= j < i + 1 && (#[trigger] s0[j]).mode is Tiled implies positions@[
                    tiled_before(s0, j)
                ] == j by {
                    if j < i {
                        lemma_tiled_before_mono(s0, j, i as int);
                    }
                }
            }
            i = i + 1;
        }
        proof {
            lemma_tiled_before_mono(s0, 0, len as int);
            lemma_tiled_before_bounds(s0, len as int);
        }
        let ghost n = positions@.len() as int;

        // Ask the layout engine for the cells of the tiled windows.
        let placements = self.layout.placement(&ids, zone);

        // Hand each tiled window its cell, shrunk by the border offset.
        let mut t: usize = 0;
        while t < positions.len()
            invariant
                0 <= t <= positions@.len(),
                n == positions@.len(),
                len == s0.len(),
                len == self.windows@.len(),
                zone.wf(),
                0 <= offset <= MAX_EXTENT,
                zone.loc.x + zone.size.w + offset <= MAX_EXTENT,
                zone.loc.y + zone.size.h + offset <= MAX_EXTENT,
                s0 == old(self).windows@,
                n == tiled_before(s0, len as int),
                placements@.len() == n,
                forall|u: int|
                    0 <= u < n ==> (#[trigger] placements@[u]).geometry == master_stack_rect(
                        u,
                        n,
                        zone,
                    ),
                forall|u: int|
                    0 <= u < n ==> #[trigger] positions@[u] < len && s0[
                        positions@[u] as int
                    ].mode is Tiled && tiled_before(s0, positions@[u] as int) == u,
                forall|j: int|
                    0 <= j < len && (#[trigger] s0[j]).mode is Tiled ==> positions@[tiled_before(
                        s0,
                        j,
                    )] == j,
                self.full_geo == old(self).full_geo,
                self.active_window == old(self).active_window,
                self.prev_window == old(self).prev_window,
                self.layout == old(self).layout,
                forall|u: int|
                    0 <= u < t ==> self.windows@[positions@[u] as int] == (Window {
                        id: s0[positions@[u] as int].id,
                        rect: shrink_rect(placements@[u].geometry, offset as int),
                        mode: WindowMode::Tiled,
                    }),
                forall|j: int|
                    0 <= j < len && (!((#[trigger] s0[j]).mode is Tiled) || tiled_before(s0, j)
                        >= t) ==> self.windows@[j] == s0[j],
            decreases positions@.len() - t,
        {
            let i = positions[t];
            proof {
                lemma_master_stack_rect_in_zone(t as int, n, zone);
            }
            let cell = shrink_cell(placements[t].geometry, offset);
            self.windows[i].rect = cell;
            proof {
                assert(self.windows@[positions@[t as int] as int] == (Window {
                    id: s0[positions@[t as int] as int].id,
                    rect: shrink_rect(placements@[t as int].geometry, offset as int),
                    mode: WindowMode::Tiled,
                }));
                assert forall|j: int|
                    0 <= j < len && (!((#[trigger] s0[j]).mode is Tiled) || tiled_before(s0, j)
                        >= t + 1) implies self.windows@[j] == s0[j] by {
                    if s0[j].mode is Tiled {
                        lemma_tiled_before_mono(s0, j, len as int);
                        assert(positions@[tiled_before(s0, j)] == j);
                        assert(j != i as int);
                    }
                }
            }
            t = t + 1;
        }
        proof {
            let post = self.windows@;
            let n0 = tiled_before(s0, len as int);
            assert forall|j: int|
                0 <= j < len && ((#[trigger] s0[j]).mode is Tiled) implies post[j] == (Window {
                id: s0[j].id,
                rect: shrink_rect(master_stack_rect(tiled_before(s0, j), n0, zone), offset as int),
                mode: WindowMode::Tiled,
            }) by {
                let u = tiled_before(s0, j);
                lemma_tiled_before_mono(s0, j, len as int);
                assert(positions@[u] == j);
                assert(post[positions@[u] as int] == (Window {
                    id: s0[positions@[u] as int].id,
                    rect: shrink_rect(placements@[u].geometry, offset as int),
                    mode: WindowMode::Tiled,
                }));
            }

            lemma_layout_pass_wf(*old(self), *self, zone, offset as int);
        }
    }
}

/// A tiling pass keeps the workspace well formed: every tiled window took
/// a master-stack cell shrunk by the offset, everything else stayed.
/// A master-stack cell shrunk by the border offset is a well-formed
/// rectangle.
proof fn lemma_cell_wf(i: int, n: int, zone: Rect, offset: int)
    requires
        zone.wf(),
        0 <= offset <= MAX_EXTENT,
        zone.loc.x + zone.size.w + offset <= MAX_EXTENT,
        zone.loc.y + zone.size.h + offset <= MAX_EXTENT,
        0 <= i < n,
    ensures
        shrink_rect(master_stack_rect(i, n, zone), offset).wf(),
{
    lemma_master_stack_rect_in_zone(i, n, zone);
}

#[verifier::rlimit(100)]
proof fn lemma_layout_pass_wf(pre: Workspace, post: Workspace, zone: Rect, offset: int)
    requires
        pre.wf(),
        !seq_has_fullscreen(pre.windows@),
        zone.wf(),
        0 <= offset <= MAX_EXTENT,
        zone.loc.x + zone.size.w + offset <= MAX_EXTENT,
        zone.loc.y + zone.size.h + offset <= MAX_EXTENT,
        post.windows@.len() == pre.windows@.len(),
        forall|j: int|
            0 <= j < pre.windows@.len() && ((#[trigger] pre.windows@[j]).mode is Tiled)
                ==> post.windows@[j] == (Window {
                id: pre.windows@[j].id,
                rect: shrink_rect(
                    master_stack_rect(
                        tiled_before(pre.windows@, j),
                        tiled_before(pre.windows@, pre.windows@.len() as int),
                        zone,
                    ),
                    offset,
                ),
                mode: WindowMode::Tiled,
            }),
        forall|j: int|
            0 <= j < pre.windows@.len() && !((#[trigger] pre.windows@[j]).mode is Tiled)
                ==> post.windows@[j] == pre.windows@[j],
        post.full_geo == pre.full_geo,
        post.active_window == pre.active_window,
        post.prev_window == pre.prev_window,
    ensures
        post.wf(),
{
    let s0 = pre.windows@;
    let post_s = post.windows@;
    let len = s0.len() as int;
    let n0 = tiled_before(s0, len);
    assert forall|j: int|
        0 <= j < len implies (#[trigger] post_s[j]).id == s0[j].id && post_s[j].mode
        == s0[j].mode && post_s[j].wf() by {
        assert(s0[j].wf());
        if s0[j].mode is Tiled {
            lemma_tiled_before_mono(s0, j, len);
            lemma_cell_wf(tiled_before(s0, j), n0, zone, offset);
        }
    }
    assert forall|p: int, q: int| 0 <= p < q < post_s.len() implies #[trigger] post_s[p].id
        != #[trigger] post_s[q].id by {
        assert(post_s[p].id == s0[p].id && post_s[q].id == s0[q].id);
    }
    assert forall|p: int|
        0 <= p < post_s.len() && (#[trigger] post_s[p].mode) is Fullscreen implies false by {
        assert(post_s[p].mode == s0[p].mode);
    }
    match post.full_geo {
        Some(_) => {
            assert(seq_has_fullscreen(s0));
        },
        None => {},
    }
    match post.active_window {
        Some(aw) => {
            let u = spec_index_of(s0, aw);
            assert(seq_contains_id(s0, aw));
            assert(post_s[u].id == aw);
            assert(seq_contains_id(post_s, aw));
        },
        None => {},
    }
}

/// Half of `x`, rounded toward zero, as machine division rounds.
pub open spec fn half_toward_zero(x: int) -> int {
    if x >= 0 {
        x / 2
    } else {
        -((-x) / 2)
    }
}

/// The first window, in tiling order, whose rectangle grown by `offset`
/// contains the point; -1 when none does.
pub open spec fn spec_window_under(s: Seq<Window>, p: Point, offset: i32, i: int) -> int
    decreases s.len() - i,
{
    if i < 0 || i >= s.len() {
        -1
    } else if s[i].rect.spec_expand(offset).spec_contains(p) {
        i
    } else {
        spec_window_under(s, p, offset, i + 1)
    }
}

/// The window under the pointer: the first one whose rectangle, grown by
/// the border offset on every side, contains it.
pub fn window_under(ws: &Workspace, pointer: Point, offset: i32) -> (r: Option<u64>)
    requires
        ws.wf(),
        pointer.wf(),
        0 <= offset <= MAX_EXTENT,
    ensures
        ({
            let idx = spec_window_under(ws.windows@, pointer, offset, 0);
            match r {
                Some(id) => idx >= 0 && id == ws.windows@[idx].id,
                None => idx == -1,
            }
        }),
{
    let mut i: usize = 0;
    while i < ws.windows.len()
        invariant
            ws.wf(),
            pointer.wf(),
            0 <= offset <= MAX_EXTENT,
            0 <= i <= ws.windows.len(),
            spec_window_under(ws.windows@, pointer, offset, 0) == spec_window_under(
                ws.windows@,
                pointer,
                offset,
                i as int,
            ),
        decreases ws.windows.len() - i,
    {
        let w = ws.windows[i];
        proof {
            assert(ws.windows@[i as int].wf());
        }
        let geo = w.rect.expand(offset);
        if geo.contains(pointer) {
            return Some(w.id);
        }
        i = i + 1;
    }
    None
}

impl Workspace {
    /// Center the window in the area: its location becomes the area's,
    /// pushed in by half the free room on each axis; its size stays.
    pub fn place_on_center(&mut self, id: u64, area: Rect)
        requires
            old(self).wf(),
            seq_contains_id(old(self).windows@, id),
            area.wf(),
            0 <= area.loc.x && area.loc.x + area.size.w <= MAX_EXTENT / 2,
            0 <= area.loc.y && area.loc.y + area.size.h <= MAX_EXTENT / 2,
        ensures
            final(self).wf(),
            ({
                let i = spec_index_of(old(self).windows@, id);
                let w0 = old(self).windows@[i];
                let centered = Point {
                    x: (area.loc.x + half_toward_zero(area.size.w - w0.rect.size.w)) as i32,
                    y: (area.loc.y + half_toward_zero(area.size.h - w0.rect.size.h)) as i32,
                };
                final(self).windows@ == old(self).windows@.update(
                    i,
                    Window { id: w0.id, rect: Rect { loc: centered, size: w0.rect.size }, mode: w0.mode },
                )
            }),
            final(self).full_geo == old(self).full_geo,
            final(self).active_window == old(self).active_window,
            final(self).prev_window == old(self).prev_window,
            final(self).layout == old(self).layout,
    {
        let i = match self.find_index(id) {
            Some(i) => i,
            None => {
                proof {
                    assert(false);
                }
                return ;
            },
        };
        let w0 = self.windows[i];
        proof {
            assert(old(self).windows@[i as int].wf());
        }
        let x = area.loc.x + (area.size.w - w0.rect.size.w) / 2;
        let y = area.loc.y + (area.size.h - w0.rect.size.h) / 2;
        self.windows[i].rect = Rect { loc: Point { x, y }, size: w0.rect.size };
        proof {
            let ii = i as int;
            let centered = Point { x: x as i32, y: y as i32 };
            assert(x == area.loc.x + half_toward_zero(area.size.w - w0.rect.size.w));
            assert(y == area.loc.y + half_toward_zero(area.size.h - w0.rect.size.h));
            assert(-MAX_EXTENT <= x <= MAX_EXTENT && -MAX_EXTENT <= y <= MAX_EXTENT);
            assert(self.windows@ =~= old(self).windows@.update(
                ii,
                Window { id: w0.id, rect: Rect { loc: centered, size: w0.rect.size }, mode: w0.mode },
            ));
            assert forall|j: int|
                0 <= j < self.windows@.len() implies (#[trigger] self.windows@[j]).id == old(
                self,
            ).windows@[j].id && self.windows@[j].mode == old(self).windows@[j].mode
                && self.windows@[j].wf() by {
                assert(old(self).windows@[j].wf());
            }
            lemma_same_shape_wf(*old(self), *self);
        }
    }

    /// Force the window into floating mode at the given location, as the
    /// start of an interactive move does; its size stays.
    pub fn float_window_at(&mut self, id: u64, loc: Point)
        requires
            old(self).wf(),
            seq_contains_id(old(self).windows@, id),
            !(old(self).windows@[spec_index_of(old(self).windows@, id)].mode is Fullscreen),
            loc.wf(),
        ensures
            final(self).wf(),
            ({
                let i = spec_index_of(old(self).windows@, id);
                let w0 = old(self).windows@[i];
                final(self).windows@ == old(self).windows@.update(
                    i,
                    Window {
                        id: w0.id,
                        rect: Rect { loc, size: w0.rect.size },
                        mode: WindowMode::Floating,
                    },
                )
            }),
            final(self).full_geo == old(self).full_geo,
            final(self).active_window == old(self).active_window,
            final(self).prev_window == old(self).prev_window,
            final(self).layout == old(self).layout,
    {
        let i = match self.find_index(id) {
            Some(i) => i,
            None => {
                proof {
                    assert(false);
                }
                return ;
            },
        };
        let w0 = self.windows[i];
        proof {
            assert(old(self).windows@[i as int].wf());
        }
        self.windows[i] = Window {
            id: w0.id,
            rect: Rect { loc, size: w0.rect.size },
            mode: WindowMode::Floating,
        };
        proof {
            let pre = old(self).windows@;
            let post = self.windows@;
            let ii = i as int;
            assert forall|p: int, q: int| 0 <= p < q < post.len() implies #[trigger] post[p].id
                != #[trigger] post[q].id by {
                assert(post[p].id == pre[p].id && post[q].id == pre[q].id);
            }
            assert forall|p: int, q: int|
                0 <= p < post.len() && 0 <= q < post.len() && (#[trigger] post[p].mode)
                    is Fullscreen && (#[trigger] post[q].mode) is Fullscreen implies p == q by {
                assert(p != ii && q != ii);
                assert(post[p].mode == pre[p].mode && post[q].mode == pre[q].mode);
            }
            assert forall|p: int|
                0 <= p < post.len() && (#[trigger] post[p].mode) is Fullscreen
                implies final(self).full_geo == Some(post[p].mode->Fullscreen_0) by {
                assert(p != ii);
                assert(post[p].mode == pre[p].mode);
            }
            match final(self).full_geo {
                Some(_) => {
                    let c = spec_fullscreen_index(pre);
                    assert(seq_has_fullscreen(pre));
                    assert(0 <= c < pre.len() && pre[c].mode is Fullscreen);
                    assert(c != ii);
                    assert(post[c].mode is Fullscreen);
                    assert(seq_has_fullscreen(post));
                },
                None => {},
            }
            match final(self).active_window {
                Some(aw) => {
                    let t = spec_index_of(pre, aw);
                    assert(seq_contains_id(pre, aw));
                    assert(post[t].id == aw);
                    assert(seq_contains_id(post, aw));
                },
                None => {},
            }
            assert forall|j: int| 0 <= j < post.len() implies (#[trigger] post[j]).wf() by {
                assert(pre[j].wf());
            }
        }
    }
}

/// A workspace whose windows only changed their rectangles — same ids,
/// same modes, well-formed rectangles — is still well formed.
proof fn lemma_same_shape_wf(pre: Workspace, post: Workspace)
    requires
        pre.wf(),
        post.windows@.len() == pre.windows@.len(),
        forall|j: int|
            0 <= j < post.windows@.len() ==> (#[trigger] post.windows@[j]).id
                == pre.windows@[j].id && post.windows@[j].mode == pre.windows@[j].mode
                && post.windows@[j].wf(),
        post.full_geo == pre.full_geo,
        post.active_window == pre.active_window,
        post.prev_window == pre.prev_window,
    ensures
        post.wf(),
{
    let s0 = pre.windows@;
    let s1 = post.windows@;
    assert forall|p: int, q: int| 0 <= p < q < s1.len() implies #[trigger] s1[p].id
        != #[trigger] s1[q].id by {
        assert(s1[p].id == s0[p].id && s1[q].id == s0[q].id);
    }
    assert forall|p: int, q: int|
        0 <= p < s1.len() && 0 <= q < s1.len() && (#[trigger] s1[p].mode) is Fullscreen && (
        #[trigger] s1[q].mode) is Fullscreen implies p == q by {
        assert(s1[p].mode == s0[p].mode && s1[q].mode == s0[q].mode);
    }
    assert forall|p: int|
        0 <= p < s1.len() && (#[trigger] s1[p].mode) is Fullscreen implies post.full_geo == Some(
        s1[p].mode->Fullscreen_0,
    ) by {
        assert(s1[p].mode == s0[p].mode);
    }
    match post.full_geo {
        Some(_) => {
            let c = spec_fullscreen_index(s0);
            assert(seq_has_fullscreen(s0));
            assert(0 <= c < s0.len() && s0[c].mode is Fullscreen);
            assert(s1[c].mode is Fullscreen);
            assert(seq_has_fullscreen(s1));
        },
        None => {},
    }
    match post.active_window {
        Some(aw) => {
            let t = spec_index_of(s0, aw);
            assert(seq_contains_id(s0, aw));
            assert(s1[t].id == aw);
            assert(seq_contains_id(s1, aw));
        },
        None => {},
    }
}

impl Workspaces {
    /// Mutable access to the current workspace.
    pub fn get_current_mut(&mut self) -> (r: &mut Workspace)
        requires
            old(self).wf(),
        ensures
            *r == old(self).workspaces@[old(self).active_workspace as int],
            final(self).workspaces@ == old(self).workspaces@.update(
                old(self).active_workspace as int,
                *final(r),
            ),
            final(self).active_workspace == old(self).active_workspace,
            final(self).prev_workspace == old(self).prev_workspace,
    {
        let a = self.active_workspace;
        &mut self.workspaces[a]
    }
}

impl Workspace {
    /// Put the window back under the layout's control: its mode becomes
    /// tiled, its rectangle stays until the next layout pass.
    pub fn set_window_tiled(&mut self, id: u64)
        requires
            old(self).wf(),
            seq_contains_id(old(self).windows@, id),
            !(old(self).windows@[spec_index_of(old(self).windows@, id)].mode is Fullscreen),
        ensures
            final(self).wf(),
            ({
                let i = spec_index_of(old(self).windows@, id);
                let w0 = old(self).windows@[i];
                final(self).windows@ == old(self).windows@.update(
                    i,
                    Window { id: w0.id, rect: w0.rect, mode: WindowMode::Tiled },
                )
            }),
            final(self).full_geo == old(self).full_geo,
            final(self).active_window == old(self).active_window,
            final(self).prev_window == old(self).prev_window,
            final(self).layout == old(self).layout,
    {
        let i = match self.find_index(id) {
            Some(i) => i,
            None => {
                proof {
                    assert(false);
                }
                return ;
            },
        };
        let w0 = self.windows[i];
        proof {
            assert(old(self).windows@[i as int].wf());
        }
        self.windows[i] = Window { id: w0.id, rect: w0.rect, mode: WindowMode::Tiled };
        proof {
            let pre = old(self).windows@;
            let post = self.windows@;
            let ii = i as int;
            assert forall|p: int, q: int| 0 <= p < q < post.len() implies #[trigger] post[p].id
                != #[trigger] post[q].id by {
                assert(post[p].id == pre[p].id && post[q].id == pre[q].id);
            }
            assert forall|p: int, q: int|
                0 <= p < post.len() && 0 <= q < post.len() && (#[trigger] post[p].mode)
                    is Fullscreen && (#[trigger] post[q].mode) is Fullscreen implies p == q by {
                assert(p != ii && q != ii);
                assert(post[p].mode == pre[p].mode && post[q].mode == pre[q].mode);
            }
            assert forall|p: int|
                0 <= p < post.len() && (#[trigger] post[p].mode) is Fullscreen
                implies final(self).full_geo == Some(post[p].mode->Fullscreen_0) by {
                assert(p != ii);
                assert(post[p].mode == pre[p].mode);
            }
            match final(self).full_geo {
                Some(_) => {
                    let c = spec_fullscreen_index(pre);
                    assert(seq_has_fullscreen(pre));
                    assert(0 <= c < pre.len() && pre[c].mode is Fullscreen);
                    assert(c != ii);
                    assert(post[c].mode is Fullscreen);
                    assert(seq_has_fullscreen(post));
                },
                None => {},
            }
            match final(self).active_window {
                Some(aw) => {
                    let t = spec_index_of(pre, aw);
                    assert(seq_contains_id(pre, aw));
                    assert(post[t].id == aw);
                    assert(seq_contains_id(post, aw));
                },
                None => {},
            }
            assert forall|j: int| 0 <= j < post.len() implies (#[trigger] post[j]).wf() by {
                assert(pre[j].wf());
            }
        }
    }
}

/// A change confined to one workspace that kept every window id in place
/// keeps the whole workspace set well formed.
pub proof fn lemma_ids_preserved_wf(pre: Workspaces, post: Workspaces, k: int)
    requires
        pre.wf(),
        0 <= k < pre.workspaces.len(),
        post.workspaces.len() == pre.workspaces.len(),
        post.active_workspace == pre.active_workspace,
        post.prev_workspace == pre.prev_workspace,
        forall|t: int|
            0 <= t < pre.workspaces.len() && t != k ==> #[trigger] post.workspaces[t]
                == pre.workspaces[t],
        post.workspaces[k].wf(),
        post.workspaces[k].windows@.len() == pre.workspaces[k].windows@.len(),
        forall|j: int|
            0 <= j < pre.workspaces[k].windows@.len() ==> (#[trigger] post.workspaces[k].windows@[
                j
            ]).id == pre.workspaces[k].windows@[j].id,
    ensures
        post.wf(),
{
    assert forall|k1: int, k2: int, i: int, j: int|
        0 <= k1 < post.workspaces.len() && 0 <= k2 < post.workspaces.len() && k1 != k2 && 0 <= i
            < post.workspaces[k1].windows.len() && 0 <= j < post.workspaces[k2].windows.len()
        implies #[trigger] post.workspaces[k1].windows[i].id
            != #[trigger] post.workspaces[k2].windows[j].id by {
        assert(post.workspaces[k1].windows@[i].id == pre.workspaces[k1].windows@[i].id);
        assert(post.workspaces[k2].windows@[j].id == pre.workspaces[k2].windows@[j].id);
    }
}

/// The hit-test answer is -1 or a real window position.
pub proof fn lemma_window_under_range(s: Seq<Window>, p: Point, offset: i32, i: int)
    requires
        0 <= i,
    ensures
        spec_window_under(s, p, offset, i) == -1 || i <= spec_window_under(s, p, offset, i)
            < s.len(),
    decreases s.len() - i,
{
    if i < s.len() && !s[i].rect.spec_expand(offset).spec_contains(p) {
        lemma_window_under_range(s, p, offset, i + 1);
    }
}

} // verus!
