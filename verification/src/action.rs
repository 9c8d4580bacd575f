//! User-visible commands and the directions of spatial navigation.
//!
//! `execute` carries out the part of a command that concerns the workspace
//! state and answers with the outside work, if any, that the caller must
//! perform (spawn a process, close a client, switch the virtual terminal).

use vstd::prelude::*;

use crate::geometry::{Point, Rect, MAX_EXTENT};
use crate::workspaces::{
    fullscreen_post, half_toward_zero, lemma_ids_preserved_wf, move_post, seq_has_fullscreen,
    spec_focus_winner, spec_index_of, spec_window_under, swap_post, unfullscreen_post,
    Window, WindowMode, Workspaces,
};

verus! {

/// A side of the focused window, for focus navigation and window movement.
#[derive(Clone, Copy, PartialEq, Eq, Structural, Debug)]
pub enum Direction {
    Left,
    Right,
    Top,
    Down,
}

/// A command bound to a key or issued programmatically.
#[derive(Clone, PartialEq, Debug)]
pub enum Action {
    Exec { command: String },
    KillActive,
    Workspace { index: usize },
    MoveToWorkspace { index: usize },
    Exit,
    Fullscreen,
    MoveFocus { direction: Direction },
    MoveWindow { direction: Direction },
    VTSwitch(i32),
    SwitchLayout,
    ReloadConfig,
    FloatingWindow,
    MoveWindowMouse,
    ResizeWindowMouse,
}

/// The outside work a command asks for, handed back by `execute` for the
/// caller to perform; the workspace state itself is already updated.
pub enum ActionEffect {
    /// Nothing left to do.
    NoEffect,
    /// Spawn this command line.
    Spawn { command: String },
    /// Ask this client window to close.
    CloseWindow { window: u64 },
    /// Stop the event loop.
    Exit,
    /// Switch to this virtual terminal.
    SwitchVt { vt: i32 },
    /// Read the configuration again.
    ReloadConfig,
    /// Switch the keyboard to the next configured layout.
    SwitchLayout,
    /// Start an interactive pointer move of this window.
    BeginMoveGrab { window: u64 },
}

/// The next keyboard layout to cycle to: the one after the current, or
/// none when the list is exhausted and the caller falls back to the
/// default layout.
pub fn next_layout_index(layout_count: usize, current: usize) -> (r: Option<usize>)
    ensures
        current + 1 < layout_count ==> r == Some((current + 1) as usize),
        current + 1 >= layout_count ==> r is None,
{
    if current < usize::MAX && current + 1 < layout_count {
        Some(current + 1)
    } else {
        None
    }
}

/// Carry out the workspace-state part of a command and answer with the
/// outside work it asks for.  A relayout is the caller's next step where
/// geometry changed, as is re-deriving the keyboard focus.
pub fn execute(
    action: &Action,
    ws: &mut Workspaces,
    loc: &mut Point,
    output_rect: Rect,
    offset: i32,
) -> (r: ActionEffect)
    requires
        old(ws).wf(),
        old(loc).wf(),
        0 <= old(loc).x && 0 <= old(loc).y,
        output_rect.wf(),
        0 <= output_rect.loc.x && output_rect.loc.x + output_rect.size.w <= MAX_EXTENT / 2,
        0 <= output_rect.loc.y && output_rect.loc.y + output_rect.size.h <= MAX_EXTENT / 2,
        0 <= offset <= MAX_EXTENT,
        action matches Action::Workspace { index } ==> index >= 1,
        action matches Action::MoveToWorkspace { index } ==> index >= 1,
    ensures
        final(ws).wf(),
        final(ws).workspaces.len() == old(ws).workspaces.len(),
        match *action {
            Action::Exec { ref command } => *final(ws) == *old(ws) && *final(loc) == *old(loc)
                && (r matches ActionEffect::Spawn { command: ref c } && c@ == command@),
            Action::KillActive => *final(ws) == *old(ws) && *final(loc) == *old(loc) && r == (
            match old(ws).spec_current().active_window {
                Some(w) => ActionEffect::CloseWindow { window: w },
                None => ActionEffect::NoEffect,
            }),
            Action::Exit => *final(ws) == *old(ws) && *final(loc) == *old(loc) && r
                is Exit,
            Action::VTSwitch(vt) => *final(ws) == *old(ws) && *final(loc) == *old(loc) && r == (
            ActionEffect::SwitchVt { vt }),
            Action::SwitchLayout => *final(ws) == *old(ws) && *final(loc) == *old(loc) && r
                is SwitchLayout,
            Action::ReloadConfig => *final(ws) == *old(ws) && *final(loc) == *old(loc) && r
                is ReloadConfig,
            Action::ResizeWindowMouse => *final(ws) == *old(ws) && *final(loc) == *old(loc) && r
                is NoEffect,
            Action::Workspace { index } => *final(loc) == *old(loc) && r is NoEffect && final(ws).workspaces == old(ws).workspaces && (index - 1 >= old(ws).workspaces.len() ==> *final(ws) == *old(ws)) && (index - 1 < old(ws).workspaces.len() ==> final(ws).active_workspace
                == index - 1 && final(ws).prev_workspace == old(ws).active_workspace),
            Action::MoveToWorkspace { index } => *final(loc) == *old(loc) && r is NoEffect && (
            (index - 1 >= old(ws).workspaces.len() || index - 1 == old(ws).active_workspace || old(ws).spec_current().active_window is None) ==> *final(ws) == *old(ws)) && (index - 1 < old(ws).workspaces.len() && index - 1 != old(ws).active_workspace ==> (old(ws).spec_current().active_window matches Some(id) ==> move_post(
                *old(ws),
                *final(ws),
                index as int - 1,
                id,
            ))),
            Action::MoveFocus { ref direction } => *final(ws) == *old(ws) && r is NoEffect
                && match spec_focus_winner(old(ws).spec_current(), *direction) {
                None => *final(loc) == *old(loc),
                Some(p) => *final(loc) == old(ws).spec_current().windows@[p.0].rect.spec_center(),
            },
            Action::MoveWindow { ref direction } => r is NoEffect && final(ws).active_workspace
                == old(ws).active_workspace && final(ws).prev_workspace == old(ws).prev_workspace
                && (forall|k: int|
                0 <= k < old(ws).workspaces.len() && k != old(ws).active_workspace ==> (
                #[trigger] final(ws).workspaces[k]) == old(ws).workspaces[k]) && match spec_focus_winner(
                old(ws).spec_current(),
                *direction,
            ) {
                None => *final(ws) == *old(ws) && *final(loc) == *old(loc),
                Some(p) => {
                    let cur = old(ws).spec_current();
                    let fi = spec_index_of(cur.windows@, cur.active_window.unwrap());
                    &&& swap_post(cur, final(ws).spec_current(), fi, p.0)
                    &&& *final(loc) == cur.windows@[p.0].rect.spec_center()
                },
            },
            Action::Fullscreen => {
                let cur = old(ws).spec_current();
                &&& *final(loc) == *old(loc)
                &&& r is NoEffect
                &&& final(ws).active_workspace == old(ws).active_workspace
                &&& final(ws).prev_workspace == old(ws).prev_workspace
                &&& (forall|k: int|
                    0 <= k < old(ws).workspaces.len() && k != old(ws).active_workspace ==> (
                    #[trigger] final(ws).workspaces[k]) == old(ws).workspaces[k])
                &&& (seq_has_fullscreen(cur.windows@) ==> unfullscreen_post(
                    cur,
                    final(ws).spec_current(),
                ))
                &&& (!seq_has_fullscreen(cur.windows@) ==> match cur.active_window {
                    Some(id) => fullscreen_post(cur, final(ws).spec_current(), id, output_rect),
                    None => *final(ws) == *old(ws),
                })
            },
            Action::FloatingWindow => {
                let cur = old(ws).spec_current();
                &&& *final(loc) == *old(loc)
                &&& r is NoEffect
                &&& final(ws).active_workspace == old(ws).active_workspace
                &&& final(ws).prev_workspace == old(ws).prev_workspace
                &&& (forall|k: int|
                    0 <= k < old(ws).workspaces.len() && k != old(ws).active_workspace ==> (
                    #[trigger] final(ws).workspaces[k]) == old(ws).workspaces[k])
                &&& match cur.active_window {
                    None => *final(ws) == *old(ws),
                    Some(id) => {
                        let i = spec_index_of(cur.windows@, id);
                        let w0 = cur.windows@[i];
                        match w0.mode {
                            WindowMode::Tiled => {
                                let centered = Point {
                                    x: (output_rect.loc.x + half_toward_zero(
                                        output_rect.size.w - w0.rect.size.w,
                                    )) as i32,
                                    y: (output_rect.loc.y + half_toward_zero(
                                        output_rect.size.h - w0.rect.size.h,
                                    )) as i32,
                                };
                                &&& final(ws).spec_current().windows@ == cur.windows@.update(
                                    i,
                                    Window {
                                        id: w0.id,
                                        rect: Rect { loc: centered, size: w0.rect.size },
                                        mode: WindowMode::Floating,
                                    },
                                )
                                &&& final(ws).spec_current().full_geo == cur.full_geo
                                &&& final(ws).spec_current().active_window == cur.active_window
                                &&& final(ws).spec_current().prev_window == cur.prev_window
                                &&& final(ws).spec_current().layout == cur.layout
                            },
                            WindowMode::Floating => {
                                &&& final(ws).spec_current().windows@ == cur.windows@.update(
                                    i,
                                    Window { id: w0.id, rect: w0.rect, mode: WindowMode::Tiled },
                                )
                                &&& final(ws).spec_current().full_geo == cur.full_geo
                                &&& final(ws).spec_current().active_window == cur.active_window
                                &&& final(ws).spec_current().prev_window == cur.prev_window
                                &&& final(ws).spec_current().layout == cur.layout
                            },
                            _ => *final(ws) == *old(ws),
                        }
                    },
                }
            },
            Action::MoveWindowMouse => {
                let cur = old(ws).spec_current();
                let hit = spec_window_under(cur.windows@, *old(loc), offset, 0);
                &&& *final(loc) == *old(loc)
                &&& final(ws).active_workspace == old(ws).active_workspace
                &&& final(ws).prev_workspace == old(ws).prev_workspace
                &&& (forall|k: int|
                    0 <= k < old(ws).workspaces.len() && k != old(ws).active_workspace ==> (
                    #[trigger] final(ws).workspaces[k]) == old(ws).workspaces[k])
                &&& (hit == -1 ==> *final(ws) == *old(ws) && r is NoEffect)
                &&& (hit >= 0 ==> {
                    let w0 = cur.windows@[hit];
                    if w0.mode is Fullscreen {
                        *final(ws) == *old(ws) && r is NoEffect
                    } else {
                        let start = Point {
                            x: (old(loc).x - w0.rect.size.w / 2) as i32,
                            y: (old(loc).y - w0.rect.size.h / 2) as i32,
                        };
                        &&& r == (ActionEffect::BeginMoveGrab { window: w0.id })
                        &&& final(ws).spec_current().windows@ == cur.windows@.update(
                            hit,
                            Window {
                                id: w0.id,
                                rect: Rect { loc: start, size: w0.rect.size },
                                mode: WindowMode::Floating,
                            },
                        )
                        &&& final(ws).spec_current().full_geo == cur.full_geo
                        &&& final(ws).spec_current().active_window == cur.active_window
                        &&& final(ws).spec_current().prev_window == cur.prev_window
                        &&& final(ws).spec_current().layout == cur.layout
                    }
                })
            },
        },
{
    let a = ws.active_workspace;
    match action {
        Action::Exit => ActionEffect::Exit,
        Action::VTSwitch(vt) => ActionEffect::SwitchVt { vt: *vt },
        Action::Exec { command } => ActionEffect::Spawn { command: command.clone() },
        Action::SwitchLayout => ActionEffect::SwitchLayout,
        Action::ReloadConfig => ActionEffect::ReloadConfig,
        Action::ResizeWindowMouse => ActionEffect::NoEffect,
        Action::KillActive => {
            match ws.get_active_window() {
                Some(w) => ActionEffect::CloseWindow { window: w },
                None => ActionEffect::NoEffect,
            }
        },
        Action::Workspace { index } => {
            ws.set_active_workspace(*index - 1);
            ActionEffect::NoEffect
        },
        Action::MoveToWorkspace { index } => {
            ws.move_window_to_ws(*index - 1);
            ActionEffect::NoEffect
        },
        Action::MoveFocus { direction } => {
            ws.change_focus(direction, loc);
            ActionEffect::NoEffect
        },
        Action::MoveWindow { direction } => {
            ws.move_window(direction, loc);
            ActionEffect::NoEffect
        },
        Action::Fullscreen => {
            match ws.workspaces[a].fullscreen_index() {
                Some(_) => {
                    ws.workspaces[a].unfullscreen_request();
                    proof {
                        let pre = old(ws).spec_current().windows@;
                        let post = ws.workspaces@[a as int].windows@;
                        assert forall|j: int|
                            0 <= j < pre.len() implies (#[trigger] post[j]).id == pre[j].id by {}
                        lemma_ids_preserved_wf(*old(ws), *ws, a as int);
                    }
                },
                None => {
                    match ws.get_active_window() {
                        Some(id) => {
                            ws.workspaces[a].fullscreen_request(id, output_rect);
                            proof {
                                let pre = old(ws).spec_current().windows@;
                                let post = ws.workspaces@[a as int].windows@;
                                assert forall|j: int|
                                    0 <= j < pre.len() implies (#[trigger] post[j]).id
                                    == pre[j].id by {}
                                lemma_ids_preserved_wf(*old(ws), *ws, a as int);
                            }
                        },
                        None => {},
                    }
                },
            }
            ActionEffect::NoEffect
        },
        Action::FloatingWindow => {
            match ws.get_active_window() {
                Some(id) => {
                    let i = match ws.workspaces[a].find_index(id) {
                        Some(i) => i,
                        None => {
                            proof {
                                assert(false);
                            }
                            return ActionEffect::NoEffect;
                        },
                    };
                    let w0 = ws.workspaces[a].windows[i];
                    match w0.mode {
                        WindowMode::Tiled => {
                            let p = Point { x: 0, y: 0 };
                            ws.workspaces[a].float_window_at(id, w0.rect.loc);
                            ws.workspaces[a].place_on_center(id, output_rect);
                            proof {
                                let pre = old(ws).spec_current().windows@;
                                let post = ws.workspaces@[a as int].windows@;
                                assert forall|j: int|
                                    0 <= j < pre.len() implies (#[trigger] post[j]).id
                                    == pre[j].id by {}
                                lemma_ids_preserved_wf(*old(ws), *ws, a as int);
                                assert(post =~= pre.update(
                                    i as int,
                                    Window {
                                        id: w0.id,
                                        rect: Rect {
                                            loc: Point {
                                                x: (output_rect.loc.x + half_toward_zero(
                                                    output_rect.size.w - w0.rect.size.w,
                                                )) as i32,
                                                y: (output_rect.loc.y + half_toward_zero(
                                                    output_rect.size.h - w0.rect.size.h,
                                                )) as i32,
                                            },
                                            size: w0.rect.size,
                                        },
                                        mode: WindowMode::Floating,
                                    },
                                ));
                            }
                        },
                        WindowMode::Floating => {
                            ws.workspaces[a].set_window_tiled(id);
                            proof {
                                let pre = old(ws).spec_current().windows@;
                                let post = ws.workspaces@[a as int].windows@;
                                assert forall|j: int|
                                    0 <= j < pre.len() implies (#[trigger] post[j]).id
                                    == pre[j].id by {}
                                lemma_ids_preserved_wf(*old(ws), *ws, a as int);
                            }
                        },
                        _ => {},
                    }
                },
                None => {},
            }
            ActionEffect::NoEffect
        },
        Action::MoveWindowMouse => {
            let p = Point { x: loc.x, y: loc.y };
            match crate::workspaces::window_under(&ws.workspaces[a], p, offset) {
                None => ActionEffect::NoEffect,
                Some(id) => {
                    proof {
                        crate::workspaces::lemma_window_under_range(
                            old(ws).spec_current().windows@,
                            p,
                            offset,
                            0,
                        );
                    }
                    let i = match ws.workspaces[a].find_index(id) {
                        Some(i) => i,
                        None => {
                            proof {
                                assert(false);
                            }
                            return ActionEffect::NoEffect;
                        },
                    };
                    proof {
                        let cur = old(ws).spec_current();
                        let h = spec_window_under(cur.windows@, p, offset, 0);
                        assert(cur.windows@[h].id == id);
                        assert(i as int == h);
                    }
                    let w0 = ws.workspaces[a].windows[i];
                    match w0.mode {
                        WindowMode::Fullscreen(_) => ActionEffect::NoEffect,
                        _ => {
                            proof {
                                assert(old(ws).spec_current().windows@[i as int].wf());
                            }
                            let start = Point {
                                x: p.x - w0.rect.size.w / 2,
                                y: p.y - w0.rect.size.h / 2,
                            };
                            ws.workspaces[a].float_window_at(id, start);
                            proof {
                                let pre = old(ws).spec_current().windows@;
                                let post = ws.workspaces@[a as int].windows@;
                                assert forall|j: int|
                                    0 <= j < pre.len() implies (#[trigger] post[j]).id
                                    == pre[j].id by {}
                                lemma_ids_preserved_wf(*old(ws), *ws, a as int);
                            }
                            ActionEffect::BeginMoveGrab { window: id }
                        },
                    }
                },
            }
        },
    }
}

} // verus!
