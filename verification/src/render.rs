//! Assembly of the drawable elements of one frame.
//!
//! The list is ordered front to back — its first element is drawn topmost —
//! exactly as the hardware compositor consumes it: the pointer cursor
//! first, then the upper shell layers (overlay and top, topmost first),
//! then the windows, each as a border behind its content, and the bottom
//! shell layers (bottom and background) last.  While a window is
//! fullscreen it is the only window element and no borders are drawn.

use vstd::prelude::*;

use crate::geometry::{Point, Rect, MAX_EXTENT};
use crate::workspaces::{
    seq_has_fullscreen, spec_fullscreen_index, spec_window_under, window_under,
    lemma_window_under_range, Window, Workspace,
};

verus! {

/// Where a shell layer sits in the stacking order.
#[derive(Clone, Copy, PartialEq, Eq, Structural, Debug)]
pub enum LayerKind {
    Background,
    Bottom,
    Top,
    Overlay,
}

/// One shell layer surface: its id, its geometry, and its stacking kind.
#[derive(Clone, Copy, PartialEq, Eq, Structural, Debug)]
pub struct LayerSurface {
    pub id: u64,
    pub rect: Rect,
    pub kind: LayerKind,
}

/// One drawable element: the cursor texture, a client surface's content,
/// or a border drawn by the shader.  `active` picks the border color.
#[derive(Clone, Copy, PartialEq, Eq, Structural, Debug)]
pub enum CustomRenderElements {
    Texture { loc: Point },
    Window { window: u64, loc: Point },
    Shader { geo: Rect, active: bool, thickness: i32 },
}

/// Whether the layer belongs to the upper pass (overlay and top) rather
/// than the lower one (bottom and background).
pub open spec fn spec_is_upper(kind: LayerKind) -> bool {
    match kind {
        LayerKind::Top | LayerKind::Overlay => true,
        LayerKind::Background | LayerKind::Bottom => false,
    }
}

/// The elements of the layers among the first `i`, emitted topmost first,
/// keeping only the upper or only the lower ones.
pub open spec fn layer_elems_down(s: Seq<LayerSurface>, i: int, upper: bool) -> Seq<
    CustomRenderElements,
>
    decreases i,
{
    if i <= 0 {
        Seq::empty()
    } else {
        let l = s[i - 1];
        (if spec_is_upper(l.kind) == upper {
            seq![CustomRenderElements::Window { window: l.id, loc: l.rect.loc }]
        } else {
            Seq::empty()
        }) + layer_elems_down(s, i - 1, upper)
    }
}

/// The elements of the first `i` windows, emitted topmost first: for each,
/// a border sized to its rectangle grown by the thickness, colored by
/// whether it is the active window, directly behind its content.
pub open spec fn window_elems_down(
    s: Seq<Window>,
    i: int,
    active: Option<u64>,
    thickness: i32,
) -> Seq<CustomRenderElements>
    decreases i,
{
    if i <= 0 {
        Seq::empty()
    } else {
        let w = s[i - 1];
        seq![
            CustomRenderElements::Shader {
                geo: w.rect.spec_expand(thickness),
                active: active == Some(w.id),
                thickness,
            },
            CustomRenderElements::Window { window: w.id, loc: w.rect.loc },
        ] + window_elems_down(s, i - 1, active, thickness)
    }
}

/// The whole frame, front to back: cursor, upper layers, windows — or the
/// fullscreen window alone — and the lower layers.
pub open spec fn spec_render_elements(
    ws: Workspace,
    pointer: Point,
    layers: Seq<LayerSurface>,
    thickness: i32,
) -> Seq<CustomRenderElements> {
    let cursor = seq![CustomRenderElements::Texture { loc: pointer }];
    let upper = layer_elems_down(layers, layers.len() as int, true);
    let lower = layer_elems_down(layers, layers.len() as int, false);
    let wins = if seq_has_fullscreen(ws.windows@) {
        let f = spec_fullscreen_index(ws.windows@);
        seq![
            CustomRenderElements::Window {
                window: ws.windows@[f].id,
                loc: ws.windows@[f].rect.loc,
            },
        ]
    } else {
        window_elems_down(ws.windows@, ws.windows@.len() as int, ws.active_window, thickness)
    };
    cursor + upper + wins + lower
}

/// Build the element list of one frame for the current workspace; the
/// answer is exactly `spec_render_elements`, and the cursor is always its
/// first — topmost — element.
pub fn render_elements(
    ws: &Workspace,
    pointer: Point,
    layers: &Vec<LayerSurface>,
    border_thickness: i32,
) -> (r: Vec<CustomRenderElements>)
    requires
        ws.wf(),
        0 <= border_thickness <= MAX_EXTENT,
    ensures
        r@ == spec_render_elements(*ws, pointer, layers@, border_thickness),
        r@.len() > 0 && r@[0] == (CustomRenderElements::Texture { loc: pointer }),
{
    let ghost target = spec_render_elements(*ws, pointer, layers@, border_thickness);
    let ghost cursor_part = seq![CustomRenderElements::Texture { loc: pointer }];
    let ghost upper_part = layer_elems_down(layers@, layers@.len() as int, true);
    let ghost lower_part = layer_elems_down(layers@, layers@.len() as int, false);

    let mut elements: Vec<CustomRenderElements> = Vec::new();
    elements.push(CustomRenderElements::Texture { loc: pointer });

    // Upper shell layers, topmost first.
    let mut i: usize = layers.len();
    while i > 0
        invariant
            0 <= i <= layers.len(),
            elements@ + layer_elems_down(layers@, i as int, true) =~= cursor_part + upper_part,
        decreases i,
    {
        let l = layers[i - 1];
        match l.kind {
            LayerKind::Top | LayerKind::Overlay => {
                elements.push(CustomRenderElements::Window { window: l.id, loc: l.rect.loc });
            },
            _ => {},
        }
        i = i - 1;
    }
    proof {
        assert(elements@ =~= cursor_part + upper_part);
    }

    // Windows: the fullscreen one alone, else border and content each,
    // topmost first.
    match ws.fullscreen_index() {
        Some(f) => {
            let w = ws.windows[f];
            elements.push(CustomRenderElements::Window { window: w.id, loc: w.rect.loc });
            proof {
                assert(elements@ =~= cursor_part + upper_part + (if seq_has_fullscreen(
                    ws.windows@,
                ) {
                    seq![
                        CustomRenderElements::Window {
                            window: ws.windows@[spec_fullscreen_index(ws.windows@)].id,
                            loc: ws.windows@[spec_fullscreen_index(ws.windows@)].rect.loc,
                        },
                    ]
                } else {
                    Seq::empty()
                }));
            }
        },
        None => {
            let ghost wins_part = window_elems_down(
                ws.windows@,
                ws.windows@.len() as int,
                ws.active_window,
                border_thickness,
            );
            let active = ws.active_window;
            let mut j: usize = ws.windows.len();
            while j > 0
                invariant
                    0 <= j <= ws.windows.len(),
                    ws.wf(),
                    0 <= border_thickness <= MAX_EXTENT,
                    active == ws.active_window,
                    elements@ + window_elems_down(
                        ws.windows@,
                        j as int,
                        active,
                        border_thickness,
                    ) =~= cursor_part + upper_part + window_elems_down(
                        ws.windows@,
                        ws.windows@.len() as int,
                        active,
                        border_thickness,
                    ),
                decreases j,
            {
                let w = ws.windows[j - 1];
                proof {
                    assert(ws.windows@[j - 1].wf());
                }
                let is_active = match active {
                    Some(a) => a == w.id,
                    None => false,
                };
                elements.push(
                    CustomRenderElements::Shader {
                        geo: w.rect.expand(border_thickness),
                        active: is_active,
                        thickness: border_thickness,
                    },
                );
                elements.push(CustomRenderElements::Window { window: w.id, loc: w.rect.loc });
                j = j - 1;
            }
            proof {
                assert(elements@ =~= cursor_part + upper_part + wins_part);
            }
        },
    }

    // Bottom shell layers, topmost first.
    let ghost mid = elements@;
    let mut i: usize = layers.len();
    while i > 0
        invariant
            0 <= i <= layers.len(),
            elements@ + layer_elems_down(layers@, i as int, false) =~= mid + lower_part,
        decreases i,
    {
        let l = layers[i - 1];
        match l.kind {
            LayerKind::Background | LayerKind::Bottom => {
                elements.push(CustomRenderElements::Window { window: l.id, loc: l.rect.loc });
            },
            _ => {},
        }
        i = i - 1;
    }
    proof {
        assert(elements@ =~= mid + lower_part);
        assert(elements@ =~= target);
        assert(elements@[0] == (CustomRenderElements::Texture { loc: pointer }));
    }
    elements
}

/// While a window is fullscreen, no border is drawn: every element of the
/// frame besides the cursor is a surface's content.
pub proof fn lemma_fullscreen_draws_alone(
    ws: Workspace,
    pointer: Point,
    layers: Seq<LayerSurface>,
    thickness: i32,
)
    requires
        ws.wf(),
        seq_has_fullscreen(ws.windows@),
    ensures
        forall|j: int|
            0 <= j < spec_render_elements(ws, pointer, layers, thickness).len() ==> !((
            #[trigger] spec_render_elements(ws, pointer, layers, thickness)[j]) is Shader),
{
    let s = spec_render_elements(ws, pointer, layers, thickness);
    let cursor = seq![CustomRenderElements::Texture { loc: pointer }];
    let upper = layer_elems_down(layers, layers.len() as int, true);
    let lower = layer_elems_down(layers, layers.len() as int, false);
    let f = spec_fullscreen_index(ws.windows@);
    let wins = seq![
        CustomRenderElements::Window { window: ws.windows@[f].id, loc: ws.windows@[f].rect.loc },
    ];
    lemma_layer_elems_down_windows(layers, layers.len() as int, true);
    lemma_layer_elems_down_windows(layers, layers.len() as int, false);
    assert forall|j: int| 0 <= j < s.len() implies !((#[trigger] s[j]) is Shader) by {
        if j == 0 {
            assert(s[j] == cursor[0]);
        } else if j < 1 + upper.len() {
            assert(s[j] == upper[j - 1]);
        } else if j < 1 + upper.len() + wins.len() {
            assert(s[j] == wins[j - 1 - upper.len()]);
        } else {
            assert(s[j] == lower[j - 1 - upper.len() - wins.len()]);
        }
    }
}

/// Every element a layer pass emits is a surface-content element.
proof fn lemma_layer_elems_down_windows(s: Seq<LayerSurface>, i: int, upper: bool)
    ensures
        forall|j: int|
            0 <= j < layer_elems_down(s, i, upper).len() ==> (#[trigger] layer_elems_down(
                s,
                i,
                upper,
            )[j]) is Window,
    decreases i,
{
    if i <= 0 {
    } else {
        lemma_layer_elems_down_windows(s, i - 1, upper);
    }
}

/// The topmost layer of the wanted half (upper or lower) whose geometry
/// contains the point, among the first `i` layers; -1 when none does.
pub open spec fn spec_layer_under(s: Seq<LayerSurface>, upper: bool, p: Point, i: int) -> int
    decreases i,
{
    if i <= 0 {
        -1
    } else if spec_is_upper(s[i - 1].kind) == upper && s[i - 1].rect.spec_contains(p) {
        i - 1
    } else {
        spec_layer_under(s, upper, p, i - 1)
    }
}

/// The layer-under search answers -1 or a real layer position of the
/// wanted half containing the point.
pub proof fn lemma_layer_under_range(s: Seq<LayerSurface>, upper: bool, p: Point, i: int)
    requires
        i <= s.len(),
    ensures
        spec_layer_under(s, upper, p, i) == -1 || (0 <= spec_layer_under(s, upper, p, i) < i
            && spec_is_upper(s[spec_layer_under(s, upper, p, i)].kind) == upper),
    decreases i,
{
    if i > 0 && !(spec_is_upper(s[i - 1].kind) == upper && s[i - 1].rect.spec_contains(p)) {
        lemma_layer_under_range(s, upper, p, i - 1);
    }
}

/// What is under the pointer, searched from the highest layer down for
/// proper occlusion: an overlay or top shell layer first, then a window —
/// hit on its border-expanded rectangle — then a bottom or background
/// layer.  The answer names the surface and where its geometry starts.
pub fn surface_under(
    layers: &Vec<LayerSurface>,
    ws: &Workspace,
    pointer: Point,
    offset: i32,
) -> (r: Option<(u64, Point)>)
    requires
        ws.wf(),
        pointer.wf(),
        0 <= offset <= MAX_EXTENT,
        forall|i: int| 0 <= i < layers@.len() ==> (#[trigger] layers@[i]).rect.wf(),
    ensures
        ({
            let lu = spec_layer_under(layers@, true, pointer, layers@.len() as int);
            let wu = spec_window_under(ws.windows@, pointer, offset, 0);
            let ll = spec_layer_under(layers@, false, pointer, layers@.len() as int);
            if lu >= 0 {
                r == Some((layers@[lu].id, layers@[lu].rect.loc))
            } else if wu >= 0 {
                r == Some((ws.windows@[wu].id, ws.windows@[wu].rect.spec_expand(offset).loc))
            } else if ll >= 0 {
                r == Some((layers@[ll].id, layers@[ll].rect.loc))
            } else {
                r is None
            }
        }),
{
    match layer_under(layers, true, pointer) {
        Some(hit) => {
            return Some(hit);
        },
        None => {},
    }
    match window_under(ws, pointer, offset) {
        Some(id) => {
            proof {
                lemma_window_under_range(ws.windows@, pointer, offset, 0);
            }
            let i = match ws.find_index(id) {
                Some(i) => i,
                None => {
                    proof {
                        assert(false);
                    }
                    return None;
                },
            };
            proof {
                let h = spec_window_under(ws.windows@, pointer, offset, 0);
                assert(ws.windows@[h].id == id);
                assert(i as int == h);
                assert(ws.windows@[i as int].wf());
            }
            let geo = ws.windows[i].rect.expand(offset);
            return Some((id, geo.loc));
        },
        None => {},
    }
    layer_under(layers, false, pointer)
}

/// The topmost layer of the wanted half containing the point.
fn layer_under(layers: &Vec<LayerSurface>, upper: bool, pointer: Point) -> (r: Option<(u64, Point)>)
    requires
        pointer.wf(),
        forall|i: int| 0 <= i < layers@.len() ==> (#[trigger] layers@[i]).rect.wf(),
    ensures
        ({
            let lu = spec_layer_under(layers@, upper, pointer, layers@.len() as int);
            if lu >= 0 {
                r == Some((layers@[lu].id, layers@[lu].rect.loc))
            } else {
                r is None
            }
        }),
{
    let mut i: usize = layers.len();
    while i > 0
        invariant
            0 <= i <= layers@.len(),
            pointer.wf(),
            forall|t: int| 0 <= t < layers@.len() ==> (#[trigger] layers@[t]).rect.wf(),
            spec_layer_under(layers@, upper, pointer, layers@.len() as int) == spec_layer_under(
                layers@,
                upper,
                pointer,
                i as int,
            ),
        decreases i,
    {
        let l = layers[i - 1];
        let half = match l.kind {
            LayerKind::Top | LayerKind::Overlay => true,
            LayerKind::Background | LayerKind::Bottom => false,
        };
        proof {
            assert(layers@[i - 1].rect.wf());
        }
        if half == upper && l.rect.contains(pointer) {
            return Some((l.id, l.rect.loc));
        }
        i = i - 1;
    }
    None
}

} // verus!
