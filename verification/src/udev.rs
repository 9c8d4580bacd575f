//! The device registry: one entry per GPU node found by hotplug, each
//! owning one render surface per connected display controller.
//!
//! The kernel handles themselves (device nodes, DRM objects, EGL contexts)
//! live with the caller; the registry keeps the bookkeeping the rest of
//! the compositor decides by — which device owns which surface, which
//! output is mapped into the shared screen space, and each surface's
//! scheduling state — and answers with the action the caller must perform:
//! scan a device's connectors, render a surface, or disable the protocol
//! globals of a torn-down device.

use vstd::prelude::*;

use crate::config::{spec_has_output, spec_output_for, Config, OutputData};
use crate::geometry::{Point, Rect, Size, MAX_EXTENT};
use crate::scheduler::{SchedState, SurfaceSched};

verus! {

/// A display mode as the connector advertises it: pixels and millihertz.
#[derive(Clone, Copy, PartialEq, Eq, Structural, Debug)]
pub struct Mode {
    pub width: i32,
    pub height: i32,
    pub refresh_mhz: i32,
    pub preferred: bool,
}

/// A hotplug event for a GPU device node.
#[derive(Clone, Copy, PartialEq, Eq, Structural, Debug)]
pub enum UdevEvent {
    Added { device_id: u64 },
    Changed { device_id: u64 },
    Removed { device_id: u64 },
}

/// One render surface: the per-connector state of a device's output.
#[derive(Clone, Copy, PartialEq, Eq, Structural, Debug)]
pub struct Surface {
    pub device_id: u64,
    pub crtc: u64,
    pub global_id: u64,
    pub mode: Mode,
    pub position: Point,
    pub scale_percent: u32,
    pub sched: SurfaceSched,
}

/// One GPU device entry: its node, the node rendering for it, and one
/// surface per connected display controller.
pub struct Device {
    pub node: u64,
    pub render_node: u64,
    pub surfaces: Vec<Surface>,
}

impl Device {
    pub open spec fn wf(self) -> bool {
        &&& forall|i: int, j: int|
            0 <= i < j < self.surfaces.len() ==> #[trigger] self.surfaces[i].crtc
                != #[trigger] self.surfaces[j].crtc
        &&& forall|i: int|
            0 <= i < self.surfaces.len() ==> (#[trigger] self.surfaces[i]).device_id == self.node
    }
}

/// Whether some surface drives this display controller.
pub open spec fn spec_has_crtc(s: Seq<Surface>, crtc: u64) -> bool {
    exists|i: int| 0 <= i < s.len() && #[trigger] s[i].crtc == crtc
}

/// The index of the surface driving this display controller.
pub open spec fn spec_crtc_index(s: Seq<Surface>, crtc: u64) -> int {
    choose|i: int| 0 <= i < s.len() && #[trigger] s[i].crtc == crtc
}

/// An output mapped into the screen space shared by all workspaces.
#[derive(Clone, Copy, PartialEq, Eq, Structural, Debug)]
pub struct MappedOutput {
    pub device_id: u64,
    pub crtc: u64,
    pub rect: Rect,
}

/// The screen space: where each live output sits.  Every workspace sees
/// the same outputs, so the compositor keeps one map for all of them.
pub struct ScreenSpace {
    pub outputs: Vec<MappedOutput>,
}

/// Whether an output of this device and controller is mapped.
pub open spec fn spec_has_output_at(s: Seq<MappedOutput>, device_id: u64, crtc: u64) -> bool {
    exists|i: int|
        0 <= i < s.len() && #[trigger] s[i].device_id == device_id && #[trigger] s[i].crtc == crtc
}

impl ScreenSpace {
    pub open spec fn wf(self) -> bool {
        &&& forall|i: int, j: int|
            0 <= i < j < self.outputs.len() ==> !(#[trigger] self.outputs[i].device_id
                == #[trigger] self.outputs[j].device_id && self.outputs[i].crtc
                == self.outputs[j].crtc)
        &&& forall|i: int| 0 <= i < self.outputs.len() ==> (#[trigger] self.outputs[i]).rect.wf()
    }

    pub fn new() -> (r: ScreenSpace)
        ensures
            r.wf(),
            r.outputs@.len() == 0,
    {
        ScreenSpace { outputs: Vec::new() }
    }

    /// Map an output, or move it when this device and controller are
    /// already mapped.
    pub fn map_output(&mut self, m: MappedOutput)
        requires
            old(self).wf(),
            m.rect.wf(),
        ensures
            final(self).wf(),
            spec_has_output_at(old(self).outputs@, m.device_id, m.crtc) ==> final(self).outputs@
                =~= old(self).outputs@.update(
                choose|i: int|
                    0 <= i < old(self).outputs@.len() && #[trigger] old(self).outputs@[i].device_id == m.device_id && #[trigger] old(self).outputs@[i].crtc == m.crtc,
                m,
            ),
            !spec_has_output_at(old(self).outputs@, m.device_id, m.crtc) ==> final(self).outputs@
                =~= old(self).outputs@.push(m),
    {
        let mut i: usize = 0;
        while i < self.outputs.len()
            invariant
                0 <= i <= self.outputs.len(),
                *self == *old(self),
                old(self).wf(),
                m.rect.wf(),
                forall|j: int|
                    0 <= j < i ==> !(#[trigger] self.outputs@[j].device_id == m.device_id
                        && self.outputs@[j].crtc == m.crtc),
            decreases self.outputs.len() - i,
        {
            if self.outputs[i].device_id == m.device_id && self.outputs[i].crtc == m.crtc {
                self.outputs[i] = m;
                proof {
                    let pre = old(self).outputs@;
                    let ii = i as int;
                    let c = choose|t: int|
                        0 <= t < pre.len() && #[trigger] pre[t].device_id == m.device_id
                            && #[trigger] pre[t].crtc == m.crtc;
                    assert(pre[ii].device_id == m.device_id && pre[ii].crtc == m.crtc);
                    assert(0 <= c < pre.len() && pre[c].device_id == m.device_id && pre[c].crtc
                        == m.crtc);
                    if c < ii {
                        assert(!(pre[c].device_id == m.device_id && pre[c].crtc == m.crtc));
                    }
                    if c > ii {
                        assert(!(pre[ii].device_id == pre[c].device_id && pre[ii].crtc
                            == pre[c].crtc));
                    }
                    assert(c == ii);
                    let post = self.outputs@;
                    assert(post =~= pre.update(ii, m));
                    assert forall|p: int, q: int|
                        0 <= p < q < post.len() implies !(#[trigger] post[p].device_id
                        == #[trigger] post[q].device_id && post[p].crtc == post[q].crtc) by {
                        assert(post[p].device_id == pre[p].device_id && post[p].crtc
                            == pre[p].crtc);
                        assert(post[q].device_id == pre[q].device_id && post[q].crtc
                            == pre[q].crtc);
                    }
                    assert forall|p: int|
                        0 <= p < post.len() implies (#[trigger] post[p]).rect.wf() by {
                        if p != ii {
                            assert(post[p] == pre[p]);
                        }
                    }
                }
                return ;
            }
            i = i + 1;
        }
        self.outputs.push(m);
        proof {
            let post = self.outputs@;
            let n = old(self).outputs@.len() as int;
            assert forall|p: int, q: int|
                0 <= p < q < post.len() implies !(#[trigger] post[p].device_id
                == #[trigger] post[q].device_id && post[p].crtc == post[q].crtc) by {
                if q == n {
                    assert(post[p] == old(self).outputs@[p]);
                }
            }
        }
    }

    /// Unmap every output of the removed device; all others stay, in
    /// order.
    pub fn unmap_device(&mut self, device_id: u64)
        requires
            old(self).wf(),
        ensures
            final(self).wf(),
            final(self).outputs@ == old(self).outputs@.filter(
                |m: MappedOutput| m.device_id != device_id,
            ),
    {
        let ghost pred = |m: MappedOutput| m.device_id != device_id;
        let mut kept: Vec<MappedOutput> = Vec::new();
        let ghost mut src: Seq<int> = Seq::empty();
        let mut i: usize = 0;
        while i < self.outputs.len()
            invariant
                0 <= i <= self.outputs.len(),
                *self == *old(self),
                old(self).wf(),
                kept@ =~= old(self).outputs@.take(i as int).filter(pred),
                pred == (|m: MappedOutput| m.device_id != device_id),
                src.len() == kept@.len(),
                forall|p: int|
                    0 <= p < src.len() ==> 0 <= #[trigger] src[p] < i && kept@[p] == old(self).outputs@[src[p]],
                forall|p: int, q: int| 0 <= p < q < src.len() ==> src[p] < src[q],
            decreases self.outputs.len() - i,
        {
            let m = self.outputs[i];
            proof {
                reveal(Seq::filter);
                let cur = old(self).outputs@.take(i as int);
                let next = old(self).outputs@.take(i as int + 1);
                assert(next.drop_last() =~= cur);
                assert(next.last() == old(self).outputs@[i as int]);
            }
            if m.device_id != device_id {
                kept.push(m);
                proof {
                    src = src.push(i as int);
                }
            }
            i = i + 1;
        }
        proof {
            assert(old(self).outputs@.take(old(self).outputs@.len() as int) =~= old(self).outputs@);
        }
        self.outputs = kept;
        proof {
            let post = self.outputs@;
            let pre = old(self).outputs@;
            assert forall|p: int, q: int|
                0 <= p < q < post.len() implies !(#[trigger] post[p].device_id
                == #[trigger] post[q].device_id && post[p].crtc == post[q].crtc) by {
                assert(post[p] == pre[src[p]] && post[q] == pre[src[q]]);
                assert(src[p] < src[q]);
            }
            assert forall|p: int| 0 <= p < post.len() implies (#[trigger] post[p]).rect.wf() by {
                assert(post[p] == pre[src[p]]);
            }
        }
    }
}

impl Mode {
    /// A mode the registry can hold: non-negative timings, extents within
    /// the coordinate space.
    pub open spec fn wf(self) -> bool {
        &&& 0 <= self.width <= MAX_EXTENT
        &&& 0 <= self.height <= MAX_EXTENT
        &&& 0 <= self.refresh_mhz
    }
}

impl Device {
    /// Install the surface for its display controller, replacing the one
    /// already driving that controller, if any.
    pub fn insert_surface(&mut self, s: Surface)
        requires
            old(self).wf(),
            s.device_id == old(self).node,
        ensures
            final(self).wf(),
            final(self).node == old(self).node,
            final(self).render_node == old(self).render_node,
            spec_has_crtc(old(self).surfaces@, s.crtc) ==> final(self).surfaces@ =~= old(self).surfaces@.update(spec_crtc_index(old(self).surfaces@, s.crtc), s),
            !spec_has_crtc(old(self).surfaces@, s.crtc) ==> final(self).surfaces@ =~= old(self).surfaces@.push(s),
    {
        let mut i: usize = 0;
        while i < self.surfaces.len()
            invariant
                0 <= i <= self.surfaces.len(),
                *self == *old(self),
                old(self).wf(),
                s.device_id == old(self).node,
                forall|j: int| 0 <= j < i ==> #[trigger] self.surfaces@[j].crtc != s.crtc,
            decreases self.surfaces.len() - i,
        {
            if self.surfaces[i].crtc == s.crtc {
                self.surfaces[i] = s;
                proof {
                    let pre = old(self).surfaces@;
                    let ii = i as int;
                    let c = spec_crtc_index(pre, s.crtc);
                    assert(pre[ii].crtc == s.crtc);
                    assert(spec_has_crtc(pre, s.crtc));
                    assert(0 <= c < pre.len() && pre[c].crtc == s.crtc);
                    assert(c == ii);
                    let post = self.surfaces@;
                    assert(post =~= pre.update(ii, s));
                    assert forall|p: int, q: int| 0 <= p < q < post.len() implies #[trigger] post[p].crtc != #[trigger] post[q].crtc by {
                        assert(post[p].crtc == pre[p].crtc && post[q].crtc == pre[q].crtc);
                    }
                    assert forall|p: int| 0 <= p < post.len() implies (#[trigger] post[p]).device_id == final(self).node by {
                        if p != ii {
                            assert(post[p] == pre[p]);
                        }
                    }
                }
                return ;
            }
            i = i + 1;
        }
        self.surfaces.push(s);
        proof {
            let pre = old(self).surfaces@;
            let post = self.surfaces@;
            let n = pre.len() as int;
            assert forall|p: int, q: int| 0 <= p < q < post.len() implies #[trigger] post[p].crtc != #[trigger] post[q].crtc by {
                if q == n {
                    assert(post[p] == pre[p]);
                }
            }
            assert forall|p: int| 0 <= p < post.len() implies (#[trigger] post[p]).device_id == final(self).node by {
                if p < n {
                    assert(post[p] == pre[p]);
                }
            }
        }
    }

    /// Drop the surface of a disconnected display controller; the
    /// protocol-visible global stays registered until the whole device is
    /// removed, so a reconnecting connector finds it again.
    pub fn remove_surface(&mut self, crtc: u64)
        requires
            old(self).wf(),
        ensures
            final(self).wf(),
            final(self).node == old(self).node,
            final(self).render_node == old(self).render_node,
            spec_has_crtc(old(self).surfaces@, crtc) ==> final(self).surfaces@ =~= old(self).surfaces@.remove(spec_crtc_index(old(self).surfaces@, crtc)),
            !spec_has_crtc(old(self).surfaces@, crtc) ==> *final(self) == *old(self),
    {
        let mut i: usize = 0;
        while i < self.surfaces.len()
            invariant
                0 <= i <= self.surfaces.len(),
                *self == *old(self),
                old(self).wf(),
                forall|j: int| 0 <= j < i ==> #[trigger] self.surfaces@[j].crtc != crtc,
            decreases self.surfaces.len() - i,
        {
            if self.surfaces[i].crtc == crtc {
                self.surfaces.remove(i);
                proof {
                    let pre = old(self).surfaces@;
                    let ii = i as int;
                    let c = spec_crtc_index(pre, crtc);
                    assert(pre[ii].crtc == crtc);
                    assert(spec_has_crtc(pre, crtc));
                    assert(0 <= c < pre.len() && pre[c].crtc == crtc);
                    assert(c == ii);
                    let post = self.surfaces@;
                    pre.remove_ensures(ii);
                    assert forall|p: int, q: int| 0 <= p < q < post.len() implies #[trigger] post[p].crtc != #[trigger] post[q].crtc by {
                        let p0: int = if p < ii { p } else { p + 1 };
                        let q0: int = if q < ii { q } else { q + 1 };
                        assert(post[p] == pre[p0] && post[q] == pre[q0]);
                    }
                    assert forall|p: int| 0 <= p < post.len() implies (#[trigger] post[p]).device_id == final(self).node by {
                        let p0: int = if p < ii { p } else { p + 1 };
                        assert(post[p] == pre[p0]);
                    }
                }
                return ;
            }
            i = i + 1;
        }
    }
}

/// A connector scan result: a connector came up on a display controller
/// with the modes it advertises, or went away.
pub enum DrmScanEvent {
    Connected { crtc: u64, name: String, modes: Vec<Mode> },
    Disconnected { crtc: u64 },
}

/// Whether some device entry has this node.
pub open spec fn spec_has_device(s: Seq<Device>, node: u64) -> bool {
    exists|i: int| 0 <= i < s.len() && #[trigger] s[i].node == node
}

/// The index of the device entry with this node.
pub open spec fn spec_device_index(s: Seq<Device>, node: u64) -> int {
    choose|i: int| 0 <= i < s.len() && #[trigger] s[i].node == node
}

/// What the caller must do next after a hotplug event.
pub enum UdevAction {
    /// A new device appeared: open its node, find its render node, then
    /// register it with `on_device_added`.
    OpenDevice { device_id: u64 },
    /// A known device changed: scan its connectors and feed the results
    /// to `on_connector_event`.
    ScanConnectors { device_id: u64 },
    /// A device is gone: disable these protocol globals.
    DisableGlobals { globals: Vec<u64> },
    /// Nothing to do (an event for an unknown device).
    Ignore,
}

/// The device registry.
pub struct UdevData {
    pub primary_gpu: u64,
    pub devices: Vec<Device>,
}

impl UdevData {
    pub open spec fn wf(self) -> bool {
        &&& forall|i: int, j: int|
            0 <= i < j < self.devices.len() ==> #[trigger] self.devices[i].node
                != #[trigger] self.devices[j].node
        &&& forall|i: int| 0 <= i < self.devices.len() ==> (#[trigger] self.devices[i]).wf()
    }

    pub fn new(primary_gpu: u64) -> (r: UdevData)
        ensures
            r.wf(),
            r.primary_gpu == primary_gpu,
            r.devices@.len() == 0,
    {
        UdevData { primary_gpu, devices: Vec::new() }
    }

    /// Register a device that was just opened, with the node that renders
    /// for it; a re-added node starts over with no surfaces.  Its
    /// connectors must be scanned next, so the answer is always `true`.
    pub fn on_device_added(&mut self, node: u64, render_node: u64) -> (scan: bool)
        requires
            old(self).wf(),
        ensures
            final(self).wf(),
            final(self).primary_gpu == old(self).primary_gpu,
            scan,
            ({
                let entry = Device { node, render_node, surfaces: final(self).devices@[
                    spec_device_index(final(self).devices@, node)
                ].surfaces };
                &&& spec_has_device(final(self).devices@, node)
                &&& final(self).devices@[spec_device_index(final(self).devices@, node)].node
                    == node
                &&& final(self).devices@[spec_device_index(final(self).devices@, node)].render_node
                    == render_node
                &&& final(self).devices@[spec_device_index(final(self).devices@, node)].surfaces@
                    =~= Seq::<Surface>::empty()
            }),
            spec_has_device(old(self).devices@, node) ==> final(self).devices@.len() == old(self).devices@.len(),
            !spec_has_device(old(self).devices@, node) ==> final(self).devices@.len() == old(self).devices@.len() + 1,
            forall|k: int|
                0 <= k < old(self).devices@.len() && old(self).devices@[k].node != node
                    ==> #[trigger] final(self).devices@[k] == old(self).devices@[k],
    {
        let mut i: usize = 0;
        while i < self.devices.len()
            invariant
                0 <= i <= self.devices.len(),
                *self == *old(self),
                old(self).wf(),
                forall|j: int| 0 <= j < i ==> #[trigger] self.devices@[j].node != node,
            decreases self.devices.len() - i,
        {
            if self.devices[i].node == node {
                self.devices[i] = Device { node, render_node, surfaces: Vec::new() };
                proof {
                    let pre = old(self).devices@;
                    let post = self.devices@;
                    let ii = i as int;
                    assert(post.len() == pre.len());
                    assert(post[ii].node == node && post[ii].render_node == render_node
                        && post[ii].surfaces@ =~= Seq::<Surface>::empty());
                    assert forall|p: int, q: int| 0 <= p < q < post.len() implies #[trigger] post[p].node != #[trigger] post[q].node by {
                        assert(post[p].node == pre[p].node && post[q].node == pre[q].node);
                    }
                    assert forall|p: int| 0 <= p < post.len() implies (#[trigger] post[p]).wf() by {
                        if p != ii {
                            assert(post[p] == pre[p]);
                        }
                    }
                    let c = spec_device_index(post, node);
                    assert(spec_has_device(post, node));
                    assert(0 <= c < post.len() && post[c].node == node);
                    assert(c == ii);
                }
                return true;
            }
            i = i + 1;
        }
        self.devices.push(Device { node, render_node, surfaces: Vec::new() });
        proof {
            let pre = old(self).devices@;
            let post = self.devices@;
            let n = pre.len() as int;
            assert forall|p: int, q: int| 0 <= p < q < post.len() implies #[trigger] post[p].node != #[trigger] post[q].node by {
                if q == n {
                    assert(post[p] == pre[p]);
                }
            }
            assert forall|p: int| 0 <= p < post.len() implies (#[trigger] post[p]).wf() by {
                if p < n {
                    assert(post[p] == pre[p]);
                }
            }
            let c = spec_device_index(post, node);
            assert(post[n].node == node);
            assert(spec_has_device(post, node));
            assert(0 <= c < post.len() && post[c].node == node);
            assert(c == n);
        }
        true
    }

    /// Tear a device down: its entry leaves the registry, its outputs
    /// leave the screen space, and the globals of all its surfaces come
    /// back so the caller can disable them on the display.
    pub fn on_device_removed(&mut self, node: u64, screen: &mut ScreenSpace) -> (globals: Vec<
        u64,
    >)
        requires
            old(self).wf(),
            old(screen).wf(),
        ensures
            final(self).wf(),
            final(screen).wf(),
            final(self).primary_gpu == old(self).primary_gpu,
            !spec_has_device(old(self).devices@, node) ==> *final(self) == *old(self)
                && *final(screen) == *old(screen) && globals@.len() == 0,
            spec_has_device(old(self).devices@, node) ==> ({
                let d = spec_device_index(old(self).devices@, node);
                &&& final(self).devices@ =~= old(self).devices@.remove(d)
                &&& globals@ =~= old(self).devices@[d].surfaces@.map_values(
                    |s: Surface| s.global_id,
                )
                &&& final(screen).outputs@ == old(screen).outputs@.filter(
                    |m: MappedOutput| m.device_id != node,
                )
            }),
    {
        let mut i: usize = 0;
        let n = self.devices.len();
        while i < n
            invariant
                0 <= i <= n,
                n == self.devices.len(),
                *self == *old(self),
                *screen == *old(screen),
                old(self).wf(),
                old(screen).wf(),
                forall|j: int| 0 <= j < i ==> #[trigger] self.devices@[j].node != node,
            decreases n - i,
        {
            if self.devices[i].node == node {
                proof {
                    let pre = old(self).devices@;
                    let c = spec_device_index(pre, node);
                    assert(pre[i as int].node == node);
                    assert(spec_has_device(pre, node));
                    assert(0 <= c < pre.len() && pre[c].node == node);
                    assert(c == i as int);
                }
                let dev = &self.devices[i];
                let mut globals: Vec<u64> = Vec::new();
                let mut t: usize = 0;
                while t < dev.surfaces.len()
                    invariant
                        0 <= t <= dev.surfaces.len(),
                        globals@ =~= dev.surfaces@.take(t as int).map_values(
                            |s: Surface| s.global_id,
                        ),
                    decreases dev.surfaces.len() - t,
                {
                    globals.push(dev.surfaces[t].global_id);
                    proof {
                        assert(dev.surfaces@.take(t as int + 1).drop_last() =~= dev.surfaces@.take(
                            t as int,
                        ));
                        assert(globals@ =~= dev.surfaces@.take(t as int + 1).map_values(
                            |s: Surface| s.global_id,
                        ));
                    }
                    t = t + 1;
                }
                proof {
                    assert(dev.surfaces@.take(dev.surfaces@.len() as int) =~= dev.surfaces@);
                }
                self.devices.remove(i);
                screen.unmap_device(node);
                proof {
                    let pre = old(self).devices@;
                    let post = self.devices@;
                    let ii = i as int;
                    pre.remove_ensures(ii);
                    assert forall|p: int, q: int| 0 <= p < q < post.len() implies #[trigger] post[p].node != #[trigger] post[q].node by {
                        let p0: int = if p < ii { p } else { p + 1 };
                        let q0: int = if q < ii { q } else { q + 1 };
                        assert(post[p] == pre[p0] && post[q] == pre[q0]);
                    }
                    assert forall|p: int| 0 <= p < post.len() implies (#[trigger] post[p]).wf() by {
                        let p0: int = if p < ii { p } else { p + 1 };
                        assert(post[p] == pre[p0]);
                    }
                }
                return globals;
            }
            i = i + 1;
        }
        Vec::new()
    }

    /// Route a hotplug event: a fresh device must be opened, a changed one
    /// rescanned, a removed one torn down.
    pub fn on_udev_event(&mut self, event: UdevEvent, screen: &mut ScreenSpace) -> (action:
        UdevAction)
        requires
            old(self).wf(),
            old(screen).wf(),
        ensures
            final(self).wf(),
            final(screen).wf(),
            match event {
                UdevEvent::Added { device_id } => *final(self) == *old(self) && *final(screen)
                    == *old(screen) && action == (UdevAction::OpenDevice { device_id }),
                UdevEvent::Changed { device_id } => *final(self) == *old(self) && *final(screen)
                    == *old(screen) && action == (if spec_has_device(
                    old(self).devices@,
                    device_id,
                ) {
                    UdevAction::ScanConnectors { device_id }
                } else {
                    UdevAction::Ignore
                }),
                UdevEvent::Removed { device_id } => {
                    if spec_has_device(old(self).devices@, device_id) {
                        let d = spec_device_index(old(self).devices@, device_id);
                        &&& final(self).devices@ =~= old(self).devices@.remove(d)
                        &&& final(self).primary_gpu == old(self).primary_gpu
                        &&& final(screen).outputs@ == old(screen).outputs@.filter(
                            |m: MappedOutput| m.device_id != device_id,
                        )
                        &&& action matches UdevAction::DisableGlobals { globals } && globals@
                            =~= old(self).devices@[d].surfaces@.map_values(
                            |s: Surface| s.global_id,
                        )
                    } else {
                        &&& *final(self) == *old(self)
                        &&& *final(screen) == *old(screen)
                        &&& action is Ignore
                    }
                },
            },
    {
        match event {
            UdevEvent::Added { device_id } => UdevAction::OpenDevice { device_id },
            UdevEvent::Changed { device_id } => {
                if self.find_device(device_id) {
                    UdevAction::ScanConnectors { device_id }
                } else {
                    UdevAction::Ignore
                }
            },
            UdevEvent::Removed { device_id } => {
                if self.find_device(device_id) {
                    let globals = self.on_device_removed(device_id, screen);
                    UdevAction::DisableGlobals { globals }
                } else {
                    UdevAction::Ignore
                }
            },
        }
    }

    /// The position of this device node's entry in the registry.
    pub fn find_device_index(&self, node: u64) -> (r: Option<usize>)
        requires
            self.wf(),
        ensures
            match r {
                Some(i) => i < self.devices.len() && self.devices@[i as int].node == node && i
                    as int == spec_device_index(self.devices@, node),
                None => !spec_has_device(self.devices@, node),
            },
    {
        let mut i: usize = 0;
        while i < self.devices.len()
            invariant
                self.wf(),
                0 <= i <= self.devices.len(),
                forall|j: int| 0 <= j < i ==> #[trigger] self.devices@[j].node != node,
            decreases self.devices.len() - i,
        {
            if self.devices[i].node == node {
                proof {
                    let c = spec_device_index(self.devices@, node);
                    assert(self.devices@[i as int].node == node);
                    assert(spec_has_device(self.devices@, node));
                    assert(0 <= c < self.devices@.len() && self.devices@[c].node == node);
                }
                return Some(i);
            }
            i = i + 1;
        }
        None
    }

    /// Whether the registry knows this device node.
    pub fn find_device(&self, node: u64) -> (r: bool)
        ensures
            r == spec_has_device(self.devices@, node),
    {
        let mut i: usize = 0;
        while i < self.devices.len()
            invariant
                0 <= i <= self.devices.len(),
                forall|j: int| 0 <= j < i ==> #[trigger] self.devices@[j].node != node,
            decreases self.devices.len() - i,
        {
            if self.devices[i].node == node {
                return true;
            }
            i = i + 1;
        }
        false
    }
}

/// The position of the first preferred mode from `i` on, or -1.
pub open spec fn spec_first_preferred(s: Seq<Mode>, i: int) -> int
    decreases s.len() - i,
{
    if i < 0 || i >= s.len() {
        -1
    } else if s[i].preferred {
        i
    } else {
        spec_first_preferred(s, i + 1)
    }
}

/// The first-preferred search answers -1 or a real position of a
/// preferred mode.
pub proof fn lemma_first_preferred_range(s: Seq<Mode>, i: int)
    requires
        0 <= i,
    ensures
        spec_first_preferred(s, i) == -1 || (i <= spec_first_preferred(s, i) < s.len() && s[
            spec_first_preferred(s, i)
        ].preferred),
    decreases s.len() - i,
{
    if i < s.len() && !s[i].preferred {
        lemma_first_preferred_range(s, i + 1);
    }
}

/// The mode a connector comes up in before any override: the first mode
/// it marks preferred, else the first it advertises at all.
pub open spec fn spec_base_mode(s: Seq<Mode>) -> Mode
    recommends
        s.len() > 0,
{
    let f = spec_first_preferred(s, 0);
    if f >= 0 {
        s[f]
    } else {
        s[0]
    }
}

/// The mode the output runs in: the base mode, with the configured
/// resolution and refresh rate put over it where an override exists.
pub open spec fn spec_picked_mode(s: Seq<Mode>, cfg: Option<OutputData>) -> Mode
    recommends
        s.len() > 0,
{
    let base = spec_base_mode(s);
    match cfg {
        Some(d) => Mode {
            width: d.resolution.0,
            height: d.resolution.1,
            refresh_mhz: (d.refresh_rate * 1000) as i32,
            preferred: base.preferred,
        },
        None => base,
    }
}

/// Pick the display mode for a connector: its preferred mode, the first
/// advertised one as fallback, under the persisted override if one is
/// configured.  With no advertised mode at all there is nothing to pick.
pub fn pick_mode(modes: &Vec<Mode>, cfg: Option<OutputData>) -> (r: Option<Mode>)
    requires
        match cfg {
            Some(d) => 0 <= d.refresh_rate <= 1000000,
            None => true,
        },
    ensures
        modes@.len() == 0 <==> r is None,
        modes@.len() > 0 ==> r == Some(spec_picked_mode(modes@, cfg)),
{
    if modes.len() == 0 {
        return None;
    }
    let mut base = modes[0];
    let mut i: usize = 0;
    let mut found = false;
    while i < modes.len() && !found
        invariant
            0 <= i <= modes.len(),
            modes@.len() > 0,
            spec_first_preferred(modes@, 0) == spec_first_preferred(modes@, i as int) || (found
                && spec_first_preferred(modes@, 0) >= 0),
            found ==> spec_first_preferred(modes@, 0) >= 0 && base == modes@[spec_first_preferred(
                modes@,
                0,
            )],
            !found ==> base == modes@[0],
        decreases modes.len() - i + (if found {
            0int
        } else {
            1int
        }),
    {
        if modes[i].preferred {
            base = modes[i];
            found = true;
            proof {
                assert(spec_first_preferred(modes@, i as int) == i as int);
            }
        } else {
            i = i + 1;
        }
    }
    proof {
        if !found {
            assert(spec_first_preferred(modes@, modes@.len() as int) == -1);
        }
    }
    match cfg {
        Some(d) => Some(
            Mode {
                width: d.resolution.0,
                height: d.resolution.1,
                refresh_mhz: d.refresh_rate * 1000,
                preferred: base.preferred,
            },
        ),
        None => Some(base),
    }
}

/// The surface a connected display controller gets: the picked mode, the
/// configured position and scale or their defaults, and an idle scheduler.
pub open spec fn spec_connected_surface(
    node: u64,
    crtc: u64,
    global_id: u64,
    modes: Seq<Mode>,
    cfg: Option<OutputData>,
) -> Surface {
    let mode = spec_picked_mode(modes, cfg);
    let position = match cfg {
        Some(d) => Point { x: d.possition.0, y: d.possition.1 },
        None => Point { x: 0, y: 0 },
    };
    let scale_percent = match cfg {
        Some(d) => d.scale_percent,
        None => 100,
    };
    Surface {
        device_id: node,
        crtc,
        global_id,
        mode,
        position,
        scale_percent,
        sched: SurfaceSched { state: SchedState::Idle, last_presentation_micros: None },
    }
}

impl UdevData {
    /// Handle one connector scan result.
    ///
    /// A connection builds the surface for its display controller —
    /// preferred mode or first advertised one, overridden by the persisted
    /// per-output configuration; an output disabled there never appears —
    /// maps the output into the shared screen space, and schedules the
    /// first frame: the answer names the device and controller to render
    /// now.  A disconnection drops the controller's surface; the
    /// protocol-visible global stays up until the whole device is removed,
    /// and so does the output's place in the screen space.
    pub fn on_connector_event(
        &mut self,
        screen: &mut ScreenSpace,
        config: &Config,
        node: u64,
        event: &DrmScanEvent,
        global_id: u64,
    ) -> (r: Option<(u64, u64)>)
        requires
            old(self).wf(),
            old(screen).wf(),
            config.wf(),
            match event {
                DrmScanEvent::Connected { modes, .. } => forall|i: int|
                    0 <= i < modes@.len() ==> (#[trigger] modes@[i]).wf(),
                DrmScanEvent::Disconnected { .. } => true,
            },
        ensures
            final(self).wf(),
            final(screen).wf(),
            final(self).primary_gpu == old(self).primary_gpu,
            !spec_has_device(old(self).devices@, node) ==> *final(self) == *old(self)
                && *final(screen) == *old(screen) && r is None,
            match *event {
                DrmScanEvent::Disconnected { crtc } => {
                    &&& *final(screen) == *old(screen)
                    &&& r is None
                    &&& spec_has_device(old(self).devices@, node) ==> ({
                        let d = spec_device_index(old(self).devices@, node);
                        let pre_s = old(self).devices@[d].surfaces@;
                        &&& final(self).devices@.len() == old(self).devices@.len()
                        &&& forall|k: int|
                            0 <= k < old(self).devices@.len() && k != d ==> #[trigger] final(self).devices@[k] == old(self).devices@[k]
                        &&& final(self).devices@[d].node == node
                        &&& final(self).devices@[d].render_node == old(self).devices@[d].render_node
                        &&& (spec_has_crtc(pre_s, crtc) ==> final(self).devices@[d].surfaces@
                            =~= pre_s.remove(spec_crtc_index(pre_s, crtc)))
                        &&& (!spec_has_crtc(pre_s, crtc) ==> final(self).devices@[d]
                            == old(self).devices@[d])
                    })
                },
                DrmScanEvent::Connected { crtc, ref name, ref modes } => ({
                    let known = spec_has_device(old(self).devices@, node);
                    let cfg = if spec_has_output(config.spec_outputs(), name@) {
                        Some(spec_output_for(config.spec_outputs(), name@))
                    } else {
                        None::<OutputData>
                    };
                    let disabled = match cfg {
                        Some(d) => !d.enabled,
                        None => false,
                    };
                    if !known || disabled || modes@.len() == 0 {
                        &&& *final(self) == *old(self)
                        &&& *final(screen) == *old(screen)
                        &&& r is None
                    } else {
                        let d = spec_device_index(old(self).devices@, node);
                        let pre_s = old(self).devices@[d].surfaces@;
                        let surf = spec_connected_surface(node, crtc, global_id, modes@, cfg);
                        &&& r == Some((node, crtc))
                        &&& final(self).devices@.len() == old(self).devices@.len()
                        &&& forall|k: int|
                            0 <= k < old(self).devices@.len() && k != d ==> #[trigger] final(self).devices@[k] == old(self).devices@[k]
                        &&& final(self).devices@[d].node == node
                        &&& final(self).devices@[d].render_node == old(self).devices@[d].render_node
                        &&& (spec_has_crtc(pre_s, crtc) ==> final(self).devices@[d].surfaces@
                            =~= pre_s.update(spec_crtc_index(pre_s, crtc), surf))
                        &&& (!spec_has_crtc(pre_s, crtc) ==> final(self).devices@[d].surfaces@
                            =~= pre_s.push(surf))
                        &&& ({
                            let m = MappedOutput {
                                device_id: node,
                                crtc,
                                rect: Rect {
                                    loc: surf.position,
                                    size: Size { w: surf.mode.width, h: surf.mode.height },
                                },
                            };
                            &&& (spec_has_output_at(old(screen).outputs@, node, crtc) ==> final(screen).outputs@ =~= old(screen).outputs@.update(
                                choose|i: int|
                                    0 <= i < old(screen).outputs@.len() && #[trigger] old(screen).outputs@[i].device_id == node && #[trigger] old(screen).outputs@[i].crtc == crtc,
                                m,
                            ))
                            &&& (!spec_has_output_at(old(screen).outputs@, node, crtc) ==> final(screen).outputs@ =~= old(screen).outputs@.push(m))
                        })
                    }
                }),
            },
    {
        let idx = match self.find_device_index(node) {
            Some(i) => i,
            None => {
                return None;
            },
        };
        match event {
            DrmScanEvent::Disconnected { crtc } => {
                self.devices[idx].remove_surface(*crtc);
                proof {
                    assert forall|p: int, q: int|
                        0 <= p < q < self.devices@.len() implies #[trigger] self.devices@[p].node != #[trigger] self.devices@[q].node by {
                        assert(self.devices@[p].node == old(self).devices@[p].node);
                        assert(self.devices@[q].node == old(self).devices@[q].node);
                    }
                }
                None
            },
            DrmScanEvent::Connected { crtc, name, modes } => {
                let cfg = config.output_for(name);
                proof {
                    match cfg {
                        Some(d) => {
                            let es = config.spec_outputs();
                            let i = choose|i: int|
                                0 <= i < es.len() && (#[trigger] es[i]).0 == name@;
                            assert(0 <= i < es.len() && es[i].1 == d);
                        },
                        None => {},
                    }
                }
                match cfg {
                    Some(d) => if !d.enabled {
                        return None;
                    },
                    None => {},
                }
                let mode = match pick_mode(modes, cfg) {
                    Some(m) => m,
                    None => {
                        return None;
                    },
                };
                proof {
                    lemma_first_preferred_range(modes@, 0);
                    assert(0 <= mode.width <= MAX_EXTENT && 0 <= mode.height <= MAX_EXTENT) by {
                        match cfg {
                            Some(_) => {},
                            None => {
                                let f = spec_first_preferred(modes@, 0);
                                if f >= 0 {
                                    assert(modes@[f].wf());
                                } else {
                                    assert(modes@[0].wf());
                                }
                            },
                        }
                    }
                }
                let position = match cfg {
                    Some(d) => Point { x: d.possition.0, y: d.possition.1 },
                    None => Point { x: 0, y: 0 },
                };
                let scale_percent = match cfg {
                    Some(d) => d.scale_percent,
                    None => 100,
                };
                let surf = Surface {
                    device_id: node,
                    crtc: *crtc,
                    global_id,
                    mode,
                    position,
                    scale_percent,
                    sched: SurfaceSched::new(),
                };
                self.devices[idx].insert_surface(surf);
                proof {
                    assert forall|p: int, q: int|
                        0 <= p < q < self.devices@.len() implies #[trigger] self.devices@[p].node != #[trigger] self.devices@[q].node by {
                        assert(self.devices@[p].node == old(self).devices@[p].node);
                        assert(self.devices@[q].node == old(self).devices@[q].node);
                    }
                }
                screen.map_output(
                    MappedOutput {
                        device_id: node,
                        crtc: *crtc,
                        rect: Rect { loc: position, size: Size { w: mode.width, h: mode.height } },
                    },
                );
                Some((node, *crtc))
            },
        }
    }
}

} // verus!
