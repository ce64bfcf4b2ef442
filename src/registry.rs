use vstd::prelude::*;
use std::collections::HashMap;
use crate::canvas::{iso_render, SCENE_BACKGROUND, SCENE_SIDE_LIMIT};

verus! {

broadcast use vstd::std_specs::hash::group_hash_axioms;

/// std::time::Instant, carried opaquely by timestamp entries.
#[verifier::external_type_specification]
#[verifier::external_body]
pub struct ExInstant(std::time::Instant);

/// Relies on std::time::Instant::now: a monotonic start point; nothing is
/// known of its value.
pub assume_specification[ std::time::Instant::now ]() -> std::time::Instant;

/// Relies on std::time::Instant::elapsed: the time since the instant.
pub assume_specification[ std::time::Instant::elapsed ](i: &std::time::Instant) -> core::time::Duration;

/// Relies on core::time::Duration::as_millis: whole milliseconds.
pub assume_specification[ core::time::Duration::as_millis ](d: &core::time::Duration) -> u128;

/// The colour a new window's frame starts with.
pub const WINDOW_BACKGROUND: u32 = 0x333333;

/// The colour a new voxel scene's frame starts with.
pub const VOXEL_BACKGROUND: u32 = SCENE_BACKGROUND;

/// The largest frame, in pixels, that a window or scene may have.
pub const MAX_PIXELS: u64 = 67_108_864;

/// A counter that interpreted programs can create and bump.
pub struct StatefulCounter {
    pub count: i64,
}

/// The frame of a display window; the window itself is owned by the host.
pub struct RegistryWindowState {
    pub buffer: Vec<u32>,
    pub width: usize,
    pub height: usize,
}

/// An isometric voxel scene and its frame; its window is owned by the host.
pub struct VoxelWorldState {
    pub buffer: Vec<u32>,
    pub width: usize,
    pub height: usize,
    pub voxels: Vec<(i32, i32, i32)>,
}

/// The resource behind a handle.
///
/// For a file and a GPU context the descriptor or device is owned by the host,
/// under the same handle.
pub enum NativeHandle {
    Counter(StatefulCounter),
    Window(RegistryWindowState),
    File,
    Timestamp(std::time::Instant),
    GpuContext,
    VoxelWorld(VoxelWorldState),
}

pub struct RegistryEntry {
    pub handle: NativeHandle,
    pub ref_count: usize,
}

/// A non-fatal condition at the native boundary, for the host to log.
#[derive(Clone, Copy, Debug, PartialEq, Eq, Structural)]
pub enum Diagnostic {
    NotFound(i64),
    WrongKind(i64),
    DoubleFree(i64),
    CreateFailed,
}

/// The handle table: integer handles mapped to reference-counted resources.
pub struct Registry {
    pub table: HashMap<u64, RegistryEntry>,
    pub next_id: u64,
    pub diagnostics: Vec<Diagnostic>,
}

/// A frame holds `width * height` pixels, and a scene's sides are in range.
pub open spec fn handle_ok(h: NativeHandle) -> bool {
    match h {
        NativeHandle::Window(ws) => ws.buffer@.len() == ws.width * ws.height,
        NativeHandle::VoxelWorld(vw) => vw.buffer@.len() == vw.width * vw.height && vw.width
            <= SCENE_SIDE_LIMIT && vw.height <= SCENE_SIDE_LIMIT,
        _ => true,
    }
}

/// The table key of a handle, when the handle can name an entry at all.
pub open spec fn key_of(h: i64) -> Option<u64> {
    if h >= 1 {
        Some(h as u64)
    } else {
        None
    }
}

impl Registry {
    /// Every entry is live (`ref_count > 0`) and was issued from the counter.
    pub open spec fn wf(&self) -> bool {
        &&& 1 <= self.next_id <= i64::MAX as u64
        &&& forall|k: u64| #[trigger]
            self.table@.contains_key(k) ==> 1 <= k < self.next_id && self.table@[k].ref_count > 0
                && handle_ok(self.table@[k].handle)
    }

    /// The entry that handle `h` names, if any.
    pub open spec fn entry(&self, h: i64) -> Option<RegistryEntry> {
        match key_of(h) {
            Some(k) => if self.table@.contains_key(k) {
                Some(self.table@[k])
            } else {
                None
            },
            None => None,
        }
    }

    pub fn new() -> (r: Registry)
        ensures
            r.wf(),
            r.table@ == Map::<u64, RegistryEntry>::empty(),
            r.next_id == 1,
            r.diagnostics@ == Seq::<Diagnostic>::empty(),
    {
        Registry { table: HashMap::new(), next_id: 1, diagnostics: Vec::new() }
    }

    /// Stores `handle` under a fresh id with one reference; -1 once the ids
    /// are spent.
    pub fn allocate(&mut self, handle: NativeHandle) -> (r: i64)
        requires
            old(self).wf(),
            handle_ok(handle),
        ensures
            final(self).wf(),
            final(self).diagnostics == old(self).diagnostics,
            old(self).next_id < i64::MAX as u64 ==> {
                &&& r == old(self).next_id as i64
                &&& final(self).next_id == old(self).next_id + 1
                &&& final(self).table@ == old(self).table@.insert(
                    old(self).next_id,
                    RegistryEntry { handle, ref_count: 1 },
                )
            },
            old(self).next_id == i64::MAX as u64 ==> r == -1 && final(self).table@ == old(self).table@
                && final(self).next_id == old(self).next_id,
    {
        if self.next_id == i64::MAX as u64 {
            return -1;
        }
        let id = self.next_id;
        self.table.insert(id, RegistryEntry { handle, ref_count: 1 });
        self.next_id = id + 1;
        id as i64
    }
}

/// The table after a retain of `h`: one more reference (saturating), or no
/// change when `h` names nothing.
pub open spec fn retained(t: Map<u64, RegistryEntry>, h: i64) -> Map<u64, RegistryEntry> {
    match key_of(h) {
        Some(k) => if t.contains_key(k) {
            t.insert(
                k,
                RegistryEntry {
                    handle: t[k].handle,
                    ref_count: if t[k].ref_count < usize::MAX {
                        (t[k].ref_count + 1) as usize
                    } else {
                        t[k].ref_count
                    },
                },
            )
        } else {
            t
        },
        None => t,
    }
}

/// The table after a release of `h`: one reference fewer, the entry gone
/// with its last one, or no change when `h` names nothing.
pub open spec fn released(t: Map<u64, RegistryEntry>, h: i64) -> Map<u64, RegistryEntry> {
    match key_of(h) {
        Some(k) => if t.contains_key(k) {
            if t[k].ref_count <= 1 {
                t.remove(k)
            } else {
                t.insert(
                    k,
                    RegistryEntry { handle: t[k].handle, ref_count: (t[k].ref_count - 1) as usize },
                )
            }
        } else {
            t
        },
        None => t,
    }
}

/// `n` retains of `h` in a row.
pub open spec fn retained_n(t: Map<u64, RegistryEntry>, h: i64, n: nat) -> Map<u64, RegistryEntry>
    decreases n,
{
    if n == 0 {
        t
    } else {
        retained(retained_n(t, h, (n - 1) as nat), h)
    }
}

/// `n` releases of `h` in a row.
pub open spec fn released_n(t: Map<u64, RegistryEntry>, h: i64, n: nat) -> Map<u64, RegistryEntry>
    decreases n,
{
    if n == 0 {
        t
    } else {
        released(released_n(t, h, (n - 1) as nat), h)
    }
}

proof fn lemma_retained_n(t: Map<u64, RegistryEntry>, h: i64, n: nat)
    requires
        key_of(h) is Some,
        t.contains_key(h as u64),
        t[h as u64].ref_count + n <= usize::MAX,
    ensures
        retained_n(t, h, n) == t.insert(
            h as u64,
            RegistryEntry { handle: t[h as u64].handle, ref_count: (t[h as u64].ref_count + n) as usize },
        ),
    decreases n,
{
    if n > 0 {
        lemma_retained_n(t, h, (n - 1) as nat);
        assert(retained_n(t, h, n) =~= t.insert(
            h as u64,
            RegistryEntry { handle: t[h as u64].handle, ref_count: (t[h as u64].ref_count + n) as usize },
        ));
    } else {
        assert(t.insert(h as u64, RegistryEntry { handle: t[h as u64].handle, ref_count: t[h as u64].ref_count }) =~= t);
    }
}

proof fn lemma_released_n(t: Map<u64, RegistryEntry>, h: i64, n: nat)
    requires
        key_of(h) is Some,
        t.contains_key(h as u64),
        t[h as u64].ref_count > n,
    ensures
        released_n(t, h, n) == t.insert(
            h as u64,
            RegistryEntry { handle: t[h as u64].handle, ref_count: (t[h as u64].ref_count - n) as usize },
        ),
    decreases n,
{
    if n > 0 {
        lemma_released_n(t, h, (n - 1) as nat);
        assert(released_n(t, h, n) =~= t.insert(
            h as u64,
            RegistryEntry { handle: t[h as u64].handle, ref_count: (t[h as u64].ref_count - n) as usize },
        ));
    } else {
        assert(t.insert(h as u64, RegistryEntry { handle: t[h as u64].handle, ref_count: t[h as u64].ref_count }) =~= t);
    }
}

/// Retains and releases balance: from an entry with one reference, `n`
/// retains then `n` releases give the table back unchanged; one release more
/// removes the entry; and releasing a handle that names nothing changes
/// nothing, so the entry is removed once and never again.
pub proof fn lemma_retain_release_balanced(t: Map<u64, RegistryEntry>, h: i64, n: nat)
    requires
        key_of(h) is Some,
        t.contains_key(h as u64),
        t[h as u64].ref_count == 1,
        n < usize::MAX,
    ensures
        released_n(retained_n(t, h, n), h, n) == t,
        released_n(retained_n(t, h, n), h, n + 1) == t.remove(h as u64),
        released(t.remove(h as u64), h) == t.remove(h as u64),
{
    let k = h as u64;
    lemma_retained_n(t, h, n);
    let up = retained_n(t, h, n);
    lemma_released_n(up, h, n);
    assert(released_n(up, h, n) =~= t);
    assert(released_n(up, h, n + 1) == released(t, h));
    assert(released(t, h) =~= t.remove(k));
    assert(released(t.remove(k), h) =~= t.remove(k));
}

/// The table after freeing `h`: its entry gone, or no change when `h` names
/// nothing.
pub open spec fn freed(t: Map<u64, RegistryEntry>, h: i64) -> Map<u64, RegistryEntry> {
    match key_of(h) {
        Some(k) => t.remove(k),
        None => t,
    }
}

/// The table after incrementing `h`: a counter one up (wrapping), or no
/// change when `h` names no counter.
pub open spec fn incremented(t: Map<u64, RegistryEntry>, h: i64) -> Map<u64, RegistryEntry> {
    match key_of(h) {
        Some(k) => if t.contains_key(k) {
            match t[k].handle {
                NativeHandle::Counter(c) => t.insert(
                    k,
                    RegistryEntry {
                        handle: NativeHandle::Counter(StatefulCounter { count: c.count.wrapping_add(1) }),
                        ref_count: t[k].ref_count,
                    },
                ),
                _ => t,
            }
        } else {
            t
        },
        None => t,
    }
}

/// `u` is `t` with a fresh timestamp entry under `id`.
pub open spec fn timestamp_added(t: Map<u64, RegistryEntry>, id: u64, u: Map<u64, RegistryEntry>) -> bool {
    exists|i: std::time::Instant|
        u == t.insert(id, RegistryEntry { handle: NativeHandle::Timestamp(i), ref_count: 1 })
}

/// What reading `h` as a timestamp may give: a count of milliseconds, or -1
/// when `h` names no timestamp.
pub open spec fn elapsed_reading(reg: Registry, h: i64, r: i64) -> bool {
    match reg.entry(h) {
        Some(RegistryEntry { handle: NativeHandle::Timestamp(_), .. }) => r >= 0,
        _ => r == -1,
    }
}

/// `u` is `t` with the voxel (`x`, `y`, `z`) (low 32 bits each) added to the
/// scene of `h`, or `t` itself when `h` names no scene.
pub open spec fn block_added(
    t: Map<u64, RegistryEntry>,
    h: i64,
    x: i64,
    y: i64,
    z: i64,
    u: Map<u64, RegistryEntry>,
) -> bool {
    match key_of(h) {
        Some(k) => if t.contains_key(k) && t[k].handle is VoxelWorld {
            let vw = t[k].handle->VoxelWorld_0;
            &&& u.dom() == t.dom()
            &&& forall|j: u64| j != k && #[trigger] t.contains_key(j) ==> u[j] == t[j]
            &&& match u[k] {
                RegistryEntry { handle: NativeHandle::VoxelWorld(nw), ref_count } => ref_count
                    == t[k].ref_count && nw.width == vw.width && nw.height == vw.height && nw.buffer
                    == vw.buffer && nw.voxels@ == vw.voxels@.push((x as i32, y as i32, z as i32)),
                _ => false,
            }
        } else {
            u == t
        },
        None => u == t,
    }
}

/// `u` is `t` with every pixel of the window of `h` set to `color`, or `t`
/// itself when `h` names no window.
pub open spec fn window_filled(t: Map<u64, RegistryEntry>, h: i64, color: u32, u: Map<u64, RegistryEntry>) -> bool {
    match key_of(h) {
        Some(k) => if t.contains_key(k) && t[k].handle is Window {
            let ws = t[k].handle->Window_0;
            &&& u.dom() == t.dom()
            &&& forall|j: u64| j != k && #[trigger] t.contains_key(j) ==> u[j] == t[j]
            &&& match u[k] {
                RegistryEntry { handle: NativeHandle::Window(nw), ref_count } => ref_count
                    == t[k].ref_count && nw.width == ws.width && nw.height == ws.height
                    && nw.buffer@ == Seq::new(ws.buffer@.len(), |_i: int| color),
                _ => false,
            }
        } else {
            u == t
        },
        None => u == t,
    }
}

/// Adds one reference to the entry of `handle_id`.
pub fn registry_retain(reg: &mut Registry, handle_id: i64)
    requires
        old(reg).wf(),
    ensures
        final(reg).wf(),
        final(reg).next_id == old(reg).next_id,
        final(reg).table@ == retained(old(reg).table@, handle_id),
        match old(reg).entry(handle_id) {
            Some(e) => {
                &&& final(reg).table@ == old(reg).table@.insert(
                    handle_id as u64,
                    RegistryEntry {
                        handle: e.handle,
                        ref_count: if e.ref_count < usize::MAX {
                            (e.ref_count + 1) as usize
                        } else {
                            e.ref_count
                        },
                    },
                )
                &&& final(reg).diagnostics == old(reg).diagnostics
            },
            None => {
                &&& final(reg).table@ == old(reg).table@
                &&& final(reg).diagnostics@ == old(reg).diagnostics@.push(
                    Diagnostic::NotFound(handle_id),
                )
            },
        },
{
    if handle_id < 1 {
        reg.diagnostics.push(Diagnostic::NotFound(handle_id));
        return;
    }
    let id = handle_id as u64;
    match reg.table.remove(&id) {
        Some(mut e) => {
            if e.ref_count < usize::MAX {
                e.ref_count = e.ref_count + 1;
            }
            reg.table.insert(id, e);
            assert(reg.table@ =~= old(reg).table@.insert(id, e));
        },
        None => {
            assert(reg.table@ =~= old(reg).table@);
            reg.diagnostics.push(Diagnostic::NotFound(handle_id));
        },
    }
}


/// Drops one reference; the entry goes when none is left. True when the entry
/// was removed, so that the host releases what it holds under the handle.
pub fn registry_release(reg: &mut Registry, handle_id: i64) -> (removed: bool)
    requires
        old(reg).wf(),
    ensures
        final(reg).wf(),
        final(reg).next_id == old(reg).next_id,
        final(reg).table@ == released(old(reg).table@, handle_id),
        match old(reg).entry(handle_id) {
            Some(e) => {
                &&& removed == (e.ref_count == 1)
                &&& e.ref_count == 1 ==> final(reg).table@ == old(reg).table@.remove(handle_id as u64)
                &&& e.ref_count > 1 ==> final(reg).table@ == old(reg).table@.insert(
                    handle_id as u64,
                    RegistryEntry { handle: e.handle, ref_count: (e.ref_count - 1) as usize },
                )
                &&& final(reg).diagnostics == old(reg).diagnostics
            },
            None => {
                &&& !removed
                &&& final(reg).table@ == old(reg).table@
                &&& final(reg).diagnostics@ == old(reg).diagnostics@.push(
                    Diagnostic::NotFound(handle_id),
                )
            },
        },
{
    if handle_id < 1 {
        reg.diagnostics.push(Diagnostic::NotFound(handle_id));
        return false;
    }
    let id = handle_id as u64;
    match reg.table.remove(&id) {
        Some(mut e) => {
            if e.ref_count > 1 {
                e.ref_count = e.ref_count - 1;
                reg.table.insert(id, e);
                assert(reg.table@ =~= old(reg).table@.insert(id, e));
                false
            } else {
                true
            }
        },
        None => {
            assert(reg.table@ =~= old(reg).table@);
            reg.diagnostics.push(Diagnostic::NotFound(handle_id));
            false
        },
    }
}

/// Removes the entry whatever its count; a missing one is logged as a double
/// free. True when an entry was removed.
pub fn registry_free(reg: &mut Registry, handle_id: i64) -> (removed: bool)
    requires
        old(reg).wf(),
    ensures
        final(reg).table@ == freed(old(reg).table@, handle_id),
        final(reg).wf(),
        final(reg).next_id == old(reg).next_id,
        removed == old(reg).entry(handle_id).is_some(),
        removed ==> final(reg).table@ == old(reg).table@.remove(handle_id as u64)
            && final(reg).diagnostics == old(reg).diagnostics,
        !removed ==> final(reg).table@ == old(reg).table@ && final(reg).diagnostics@
            == old(reg).diagnostics@.push(Diagnostic::DoubleFree(handle_id)),
{
    if handle_id < 1 {
        reg.diagnostics.push(Diagnostic::DoubleFree(handle_id));
        return false;
    }
    let id = handle_id as u64;
    match reg.table.remove(&id) {
        Some(_) => true,
        None => {
            assert(reg.table@ =~= old(reg).table@);
            reg.diagnostics.push(Diagnostic::DoubleFree(handle_id));
            false
        },
    }
}

/// Closes a window: its handle is freed.
pub fn registry_window_close(reg: &mut Registry, handle_id: i64) -> (removed: bool)
    requires
        old(reg).wf(),
    ensures
        final(reg).table@ == freed(old(reg).table@, handle_id),
        final(reg).wf(),
        final(reg).next_id == old(reg).next_id,
        removed == old(reg).entry(handle_id).is_some(),
        removed ==> final(reg).table@ == old(reg).table@.remove(handle_id as u64)
            && final(reg).diagnostics == old(reg).diagnostics,
        !removed ==> final(reg).table@ == old(reg).table@ && final(reg).diagnostics@
            == old(reg).diagnostics@.push(Diagnostic::DoubleFree(handle_id)),
{
    registry_free(reg, handle_id)
}

/// A new counter at 0.
pub fn registry_create_counter(reg: &mut Registry) -> (r: i64)
    requires
        old(reg).wf(),
    ensures
        final(reg).wf(),
        final(reg).diagnostics == old(reg).diagnostics,
        old(reg).next_id < i64::MAX as u64 ==> {
            &&& r == old(reg).next_id as i64
            &&& final(reg).next_id == old(reg).next_id + 1
            &&& final(reg).table@ == old(reg).table@.insert(
                old(reg).next_id,
                RegistryEntry { handle: NativeHandle::Counter(StatefulCounter { count: 0 }), ref_count: 1 },
            )
        },
        old(reg).next_id == i64::MAX as u64 ==> r == -1 && final(reg).table@ == old(reg).table@,
{
    reg.allocate(NativeHandle::Counter(StatefulCounter { count: 0 }))
}

/// Adds one to a counter (wrapping at the end of the range).
pub fn registry_increment(reg: &mut Registry, handle_id: i64)
    requires
        old(reg).wf(),
    ensures
        final(reg).table@ == incremented(old(reg).table@, handle_id),
        final(reg).wf(),
        final(reg).next_id == old(reg).next_id,
        match old(reg).entry(handle_id) {
            Some(RegistryEntry { handle: NativeHandle::Counter(c), ref_count }) => {
                &&& final(reg).table@ == old(reg).table@.insert(
                    handle_id as u64,
                    RegistryEntry {
                        handle: NativeHandle::Counter(StatefulCounter { count: c.count.wrapping_add(1) }),
                        ref_count,
                    },
                )
                &&& final(reg).diagnostics == old(reg).diagnostics
            },
            Some(_) => {
                &&& final(reg).table@ == old(reg).table@
                &&& final(reg).diagnostics@ == old(reg).diagnostics@.push(
                    Diagnostic::WrongKind(handle_id),
                )
            },
            None => {
                &&& final(reg).table@ == old(reg).table@
                &&& final(reg).diagnostics@ == old(reg).diagnostics@.push(
                    Diagnostic::NotFound(handle_id),
                )
            },
        },
{
    if handle_id < 1 {
        reg.diagnostics.push(Diagnostic::NotFound(handle_id));
        return;
    }
    let id = handle_id as u64;
    match reg.table.remove(&id) {
        Some(e) => {
            let RegistryEntry { handle, ref_count } = e;
            match handle {
                NativeHandle::Counter(c) => {
                    let n = RegistryEntry {
                        handle: NativeHandle::Counter(StatefulCounter { count: c.count.wrapping_add(1) }),
                        ref_count,
                    };
                    reg.table.insert(id, n);
                    assert(reg.table@ =~= old(reg).table@.insert(id, n));
                },
                other => {
                    let back = RegistryEntry { handle: other, ref_count };
                    reg.table.insert(id, back);
                    assert(reg.table@ =~= old(reg).table@);
                    reg.diagnostics.push(Diagnostic::WrongKind(handle_id));
                },
            }
        },
        None => {
            assert(reg.table@ =~= old(reg).table@);
            reg.diagnostics.push(Diagnostic::NotFound(handle_id));
        },
    }
}

/// What reading `h` as a counter gives: its count, or -1 when `h` names no
/// counter.
pub open spec fn counter_reading(reg: Registry, h: i64) -> i64 {
    match reg.entry(h) {
        Some(RegistryEntry { handle: NativeHandle::Counter(c), .. }) => c.count,
        _ => -1i64,
    }
}

/// The count of a counter; -1 for any other handle.
pub fn registry_get_value(reg: &mut Registry, handle_id: i64) -> (r: i64)
    requires
        old(reg).wf(),
    ensures
        final(reg).wf(),
        final(reg).table@ == old(reg).table@,
        final(reg).next_id == old(reg).next_id,
        r == counter_reading(*old(reg), handle_id),
        match old(reg).entry(handle_id) {
            Some(RegistryEntry { handle: NativeHandle::Counter(c), .. }) => r == c.count
                && final(reg).diagnostics == old(reg).diagnostics,
            Some(_) => r == -1 && final(reg).diagnostics@ == old(reg).diagnostics@.push(
                Diagnostic::WrongKind(handle_id),
            ),
            None => r == -1 && final(reg).diagnostics@ == old(reg).diagnostics@.push(
                Diagnostic::NotFound(handle_id),
            ),
        },
{
    if handle_id < 1 {
        reg.diagnostics.push(Diagnostic::NotFound(handle_id));
        return -1;
    }
    let id = handle_id as u64;
    match reg.table.get(&id) {
        Some(e) => match &e.handle {
            NativeHandle::Counter(c) => c.count,
            _ => {
                reg.diagnostics.push(Diagnostic::WrongKind(handle_id));
                -1
            },
        },
        None => {
            reg.diagnostics.push(Diagnostic::NotFound(handle_id));
            -1
        },
    }
}

/// The number of live entries.
pub fn registry_dump(reg: &Registry) -> (r: i64)
    ensures
        reg.table@.len() <= i64::MAX ==> r == reg.table@.len(),
        reg.table@.len() > i64::MAX ==> r == i64::MAX,
{
    let n = reg.table.len();
    proof {
        vstd::std_specs::hash::axiom_spec_hash_map_len(&reg.table);
    }
    if n as u64 > i64::MAX as u64 {
        i64::MAX
    } else {
        n as i64
    }
}


/// A new timestamp that holds the time of the call.
pub fn registry_now(reg: &mut Registry) -> (r: i64)
    requires
        old(reg).wf(),
    ensures
        old(reg).next_id < i64::MAX as u64 ==> timestamp_added(old(reg).table@, old(reg).next_id, final(reg).table@),
        final(reg).wf(),
        final(reg).diagnostics == old(reg).diagnostics,
        old(reg).next_id < i64::MAX as u64 ==> {
            &&& r == old(reg).next_id as i64
            &&& final(reg).next_id == old(reg).next_id + 1
            &&& exists|t: std::time::Instant|
                final(reg).table@ == old(reg).table@.insert(
                    old(reg).next_id,
                    RegistryEntry { handle: NativeHandle::Timestamp(t), ref_count: 1 },
                )
        },
        old(reg).next_id == i64::MAX as u64 ==> r == -1 && final(reg).table@ == old(reg).table@,
{
    let t = std::time::Instant::now();
    let r = reg.allocate(NativeHandle::Timestamp(t));
    assert(old(reg).next_id < i64::MAX as u64 ==> reg.table@ == old(reg).table@.insert(
        old(reg).next_id,
        RegistryEntry { handle: NativeHandle::Timestamp(t), ref_count: 1 },
    ));
    r
}

/// Milliseconds since a timestamp was taken (saturated to the `i64` range);
/// -1 for any other handle.
pub fn registry_elapsed_ms(reg: &mut Registry, handle_id: i64) -> (r: i64)
    requires
        old(reg).wf(),
    ensures
        elapsed_reading(*old(reg), handle_id, r),
        final(reg).wf(),
        final(reg).table@ == old(reg).table@,
        final(reg).next_id == old(reg).next_id,
        match old(reg).entry(handle_id) {
            Some(RegistryEntry { handle: NativeHandle::Timestamp(_), .. }) => r >= 0
                && final(reg).diagnostics == old(reg).diagnostics,
            Some(_) => r == -1 && final(reg).diagnostics@ == old(reg).diagnostics@.push(
                Diagnostic::WrongKind(handle_id),
            ),
            None => r == -1 && final(reg).diagnostics@ == old(reg).diagnostics@.push(
                Diagnostic::NotFound(handle_id),
            ),
        },
{
    if handle_id < 1 {
        reg.diagnostics.push(Diagnostic::NotFound(handle_id));
        return -1;
    }
    let id = handle_id as u64;
    match reg.table.get(&id) {
        Some(e) => match &e.handle {
            NativeHandle::Timestamp(t) => {
                let ms = t.elapsed().as_millis();
                if ms > i64::MAX as u128 {
                    i64::MAX
                } else {
                    ms as i64
                }
            },
            _ => {
                reg.diagnostics.push(Diagnostic::WrongKind(handle_id));
                -1
            },
        },
        None => {
            reg.diagnostics.push(Diagnostic::NotFound(handle_id));
            -1
        },
    }
}

/// `n` pixels of colour `c`.
pub fn filled(n: usize, c: u32) -> (v: Vec<u32>)
    ensures
        v@ == Seq::new(n as nat, |_i: int| c),
{
    let mut v: Vec<u32> = Vec::new();
    let mut i: usize = 0;
    while i < n
        invariant
            i <= n,
            v@ == Seq::new(i as nat, |_i: int| c),
        decreases n - i,
    {
        v.push(c);
        i = i + 1;
        assert(v@ =~= Seq::new(i as nat, |_i: int| c));
    }
    v
}

/// A frame size that a window or scene may have.
pub open spec fn frame_size_ok(width: i64, height: i64) -> bool {
    0 <= width <= MAX_PIXELS && 0 <= height <= MAX_PIXELS && width * height <= MAX_PIXELS
}

/// A frame of `width` by `height` pixels, all of colour `c`.
pub open spec fn blank_frame(buffer: Seq<u32>, width: int, height: int, c: u32) -> bool {
    buffer == Seq::new((width * height) as nat, |_i: int| c)
}

/// Registers a resource the host has just opened, or logs that opening
/// failed (`opened` false): then -1, and the table and the id counter stay
/// as they were.
fn register_opened(reg: &mut Registry, opened: bool, handle: NativeHandle) -> (r: i64)
    requires
        old(reg).wf(),
        handle_ok(handle),
    ensures
        final(reg).wf(),
        opened && old(reg).next_id < i64::MAX as u64 ==> {
            &&& r == old(reg).next_id as i64
            &&& final(reg).next_id == old(reg).next_id + 1
            &&& final(reg).table@ == old(reg).table@.insert(
                old(reg).next_id,
                RegistryEntry { handle, ref_count: 1 },
            )
            &&& final(reg).diagnostics == old(reg).diagnostics
        },
        !opened || old(reg).next_id == i64::MAX as u64 ==> {
            &&& r == -1
            &&& final(reg).table@ == old(reg).table@
            &&& final(reg).next_id == old(reg).next_id
            &&& final(reg).diagnostics@ == old(reg).diagnostics@.push(Diagnostic::CreateFailed)
        },
{
    if !opened {
        reg.diagnostics.push(Diagnostic::CreateFailed);
        return -1;
    }
    let r = reg.allocate(handle);
    if r == -1 {
        reg.diagnostics.push(Diagnostic::CreateFailed);
    }
    r
}

/// Registers a window of `width` by `height` whose frame starts as
/// `WINDOW_BACKGROUND`. `opened` says whether the host could open it; on
/// failure, or for a size out of range, -1 and nothing is inserted.
pub fn registry_create_window(reg: &mut Registry, width: i64, height: i64, opened: bool) -> (r: i64)
    requires
        old(reg).wf(),
    ensures
        opened && frame_size_ok(width, height) && old(reg).next_id < i64::MAX as u64 ==> final(reg).diagnostics
            == old(reg).diagnostics,
        !(opened && frame_size_ok(width, height) && old(reg).next_id < i64::MAX as u64) ==> final(reg).diagnostics@
            == old(reg).diagnostics@.push(Diagnostic::CreateFailed),
        final(reg).wf(),
        opened && frame_size_ok(width, height) && old(reg).next_id < i64::MAX as u64 ==> {
            &&& r == old(reg).next_id as i64
            &&& final(reg).next_id == old(reg).next_id + 1
            &&& final(reg).table@.dom() == old(reg).table@.dom().insert(old(reg).next_id)
            &&& forall|k: u64| k != old(reg).next_id && #[trigger] old(reg).table@.contains_key(k)
                ==> final(reg).table@[k] == old(reg).table@[k]
            &&& match final(reg).table@[old(reg).next_id] {
                RegistryEntry { handle: NativeHandle::Window(ws), ref_count } => ref_count == 1
                    && ws.width == width && ws.height == height && blank_frame(
                    ws.buffer@,
                    width as int,
                    height as int,
                    WINDOW_BACKGROUND,
                ),
                _ => false,
            }
        },
        !(opened && frame_size_ok(width, height) && old(reg).next_id < i64::MAX as u64) ==> {
            &&& r == -1
            &&& final(reg).table@ == old(reg).table@
            &&& final(reg).next_id == old(reg).next_id
        },
{
    if !(opened && 0 <= width && width <= MAX_PIXELS as i64 && 0 <= height && height
        <= MAX_PIXELS as i64) {
        reg.diagnostics.push(Diagnostic::CreateFailed);
        return -1;
    }
    assert((width as u64) * (height as u64) <= 67_108_864u64 * 67_108_864u64) by (nonlinear_arith)
        requires
            0 <= width <= 67_108_864,
            0 <= height <= 67_108_864,
    ;
    if (width as u64) * (height as u64) > MAX_PIXELS {
        reg.diagnostics.push(Diagnostic::CreateFailed);
        return -1;
    }
    let w = width as usize;
    let h = height as usize;
    assert(w * h <= MAX_PIXELS) by (nonlinear_arith)
        requires
            w == width,
            h == height,
            (width as u64) * (height as u64) <= MAX_PIXELS,
    ;
    let buffer = filled(w * h, WINDOW_BACKGROUND);
    register_opened(reg, true, NativeHandle::Window(RegistryWindowState { buffer, width: w, height: h }))
}

/// The frame of a window, for the host to present; `None` for any other
/// handle.
pub fn registry_window_update(reg: &Registry, handle_id: i64) -> (r: Option<&RegistryWindowState>)
    requires
        reg.wf(),
    ensures
        match reg.entry(handle_id) {
            Some(RegistryEntry { handle: NativeHandle::Window(ws), .. }) => r == Some(&ws),
            _ => r.is_none(),
        },
{
    if handle_id < 1 {
        return None;
    }
    let id = handle_id as u64;
    match reg.table.get(&id) {
        Some(e) => match &e.handle {
            NativeHandle::Window(ws) => Some(ws),
            _ => None,
        },
        None => None,
    }
}

/// One colour channel held to 0..=255.
pub open spec fn channel(v: i64) -> u32 {
    if v < 0 {
        0
    } else if v > 255 {
        255
    } else {
        v as u32
    }
}

/// `0x00RRGGBB` from three channels, each held to 0..=255.
pub open spec fn pack_rgb_spec(r: i64, g: i64, b: i64) -> u32 {
    (channel(r) * 65536 + channel(g) * 256 + channel(b)) as u32
}

pub fn pack_rgb(r: i64, g: i64, b: i64) -> (c: u32)
    ensures
        c == pack_rgb_spec(r, g, b),
{
    let cr: u32 = if r < 0 {
        0
    } else if r > 255 {
        255
    } else {
        r as u32
    };
    let cg: u32 = if g < 0 {
        0
    } else if g > 255 {
        255
    } else {
        g as u32
    };
    let cb: u32 = if b < 0 {
        0
    } else if b > 255 {
        255
    } else {
        b as u32
    };
    cr * 65536 + cg * 256 + cb
}

/// Paints the whole frame of a window in one colour.
pub fn registry_fill_color(reg: &mut Registry, window_handle: i64, r: i64, g: i64, b: i64)
    requires
        old(reg).wf(),
    ensures
        window_filled(old(reg).table@, window_handle, pack_rgb_spec(r, g, b), final(reg).table@),
        final(reg).wf(),
        final(reg).next_id == old(reg).next_id,
        match old(reg).entry(window_handle) {
            Some(RegistryEntry { handle: NativeHandle::Window(ws), ref_count }) => {
                &&& final(reg).table@.dom() == old(reg).table@.dom()
                &&& forall|k: u64| k != window_handle as u64 && #[trigger] old(reg).table@.contains_key(k)
                    ==> final(reg).table@[k] == old(reg).table@[k]
                &&& match final(reg).table@[window_handle as u64] {
                    RegistryEntry { handle: NativeHandle::Window(nw), ref_count: rc } => rc == ref_count
                        && nw.width == ws.width && nw.height == ws.height && nw.buffer@ == Seq::new(
                        ws.buffer@.len(),
                        |_i: int| pack_rgb_spec(r, g, b),
                    ),
                    _ => false,
                }
                &&& final(reg).diagnostics == old(reg).diagnostics
            },
            Some(_) => final(reg).table@ == old(reg).table@ && final(reg).diagnostics@
                == old(reg).diagnostics@.push(Diagnostic::WrongKind(window_handle)),
            None => final(reg).table@ == old(reg).table@ && final(reg).diagnostics@
                == old(reg).diagnostics@.push(Diagnostic::NotFound(window_handle)),
        },
{
    let color = pack_rgb(r, g, b);
    if window_handle < 1 {
        reg.diagnostics.push(Diagnostic::NotFound(window_handle));
        return;
    }
    let id = window_handle as u64;
    match reg.table.remove(&id) {
        Some(e) => {
            let RegistryEntry { handle, ref_count } = e;
            match handle {
                NativeHandle::Window(ws) => {
                    let RegistryWindowState { buffer, width, height } = ws;
                    let nb = filled(buffer.len(), color);
                    let n = RegistryEntry {
                        handle: NativeHandle::Window(RegistryWindowState { buffer: nb, width, height }),
                        ref_count,
                    };
                    reg.table.insert(id, n);
                },
                other => {
                    let back = RegistryEntry { handle: other, ref_count };
                    reg.table.insert(id, back);
                    assert(reg.table@ =~= old(reg).table@);
                    reg.diagnostics.push(Diagnostic::WrongKind(window_handle));
                },
            }
        },
        None => {
            assert(reg.table@ =~= old(reg).table@);
            reg.diagnostics.push(Diagnostic::NotFound(window_handle));
        },
    }
}

/// Registers a file the host has opened for writing (`opened`); -1 and no
/// entry when it could not. The id is taken before the attempt, so a failed
/// one is spent too.
pub fn registry_file_create(reg: &mut Registry, opened: bool) -> (r: i64)
    requires
        old(reg).wf(),
    ensures
        final(reg).wf(),
        old(reg).next_id < i64::MAX as u64 ==> final(reg).next_id == old(reg).next_id + 1,
        old(reg).next_id == i64::MAX as u64 ==> final(reg).next_id == old(reg).next_id,
        opened && old(reg).next_id < i64::MAX as u64 ==> {
            &&& r == old(reg).next_id as i64
            &&& final(reg).table@ == old(reg).table@.insert(
                old(reg).next_id,
                RegistryEntry { handle: NativeHandle::File, ref_count: 1 },
            )
            &&& final(reg).diagnostics == old(reg).diagnostics
        },
        !opened || old(reg).next_id == i64::MAX as u64 ==> {
            &&& r == -1
            &&& final(reg).table@ == old(reg).table@
            &&& final(reg).diagnostics@ == old(reg).diagnostics@.push(Diagnostic::CreateFailed)
        },
{
    if !opened && reg.next_id < i64::MAX as u64 {
        reg.next_id = reg.next_id + 1;
        reg.diagnostics.push(Diagnostic::CreateFailed);
        return -1;
    }
    register_opened(reg, opened, NativeHandle::File)
}

/// Whether `handle_id` names a file, so that the host may append to it; a
/// missing or other handle is logged.
pub fn registry_file_write(reg: &mut Registry, handle_id: i64) -> (r: bool)
    requires
        old(reg).wf(),
    ensures
        final(reg).wf(),
        final(reg).table@ == old(reg).table@,
        final(reg).next_id == old(reg).next_id,
        match old(reg).entry(handle_id) {
            Some(RegistryEntry { handle: NativeHandle::File, .. }) => r && final(reg).diagnostics
                == old(reg).diagnostics,
            Some(_) => !r && final(reg).diagnostics@ == old(reg).diagnostics@.push(
                Diagnostic::WrongKind(handle_id),
            ),
            None => !r && final(reg).diagnostics@ == old(reg).diagnostics@.push(
                Diagnostic::NotFound(handle_id),
            ),
        },
{
    if handle_id < 1 {
        reg.diagnostics.push(Diagnostic::NotFound(handle_id));
        return false;
    }
    let id = handle_id as u64;
    match reg.table.get(&id) {
        Some(e) => match &e.handle {
            NativeHandle::File => true,
            _ => {
                reg.diagnostics.push(Diagnostic::WrongKind(handle_id));
                false
            },
        },
        None => {
            reg.diagnostics.push(Diagnostic::NotFound(handle_id));
            false
        },
    }
}

/// Registers a GPU context once the host has a device (`device_ready`); -1
/// and no entry when there is no adapter or device.
pub fn registry_gpu_init(reg: &mut Registry, device_ready: bool) -> (r: i64)
    requires
        old(reg).wf(),
    ensures
        device_ready && old(reg).next_id < i64::MAX as u64 ==> final(reg).diagnostics == old(reg).diagnostics,
        !(device_ready && old(reg).next_id < i64::MAX as u64) ==> final(reg).diagnostics@ == old(reg).diagnostics@.push(
            Diagnostic::CreateFailed,
        ),
        final(reg).wf(),
        device_ready && old(reg).next_id < i64::MAX as u64 ==> {
            &&& r == old(reg).next_id as i64
            &&& final(reg).next_id == old(reg).next_id + 1
            &&& final(reg).table@ == old(reg).table@.insert(
                old(reg).next_id,
                RegistryEntry { handle: NativeHandle::GpuContext, ref_count: 1 },
            )
        },
        !device_ready || old(reg).next_id == i64::MAX as u64 ==> {
            &&& r == -1
            &&& final(reg).table@ == old(reg).table@
            &&& final(reg).next_id == old(reg).next_id
        },
{
    register_opened(reg, device_ready, NativeHandle::GpuContext)
}


/// Registers a voxel scene of `width` by `height` with no voxels and a frame
/// of `VOXEL_BACKGROUND`. `opened` says whether the host could open its
/// window; on failure, or for a size out of range, -1 and nothing is inserted.
pub fn registry_voxel_world_create(reg: &mut Registry, width: i64, height: i64, opened: bool) -> (r:
    i64)
    requires
        old(reg).wf(),
    ensures
        opened && frame_size_ok(width, height) && old(reg).next_id < i64::MAX as u64 ==> final(reg).diagnostics
            == old(reg).diagnostics,
        !(opened && frame_size_ok(width, height) && old(reg).next_id < i64::MAX as u64) ==> final(reg).diagnostics@
            == old(reg).diagnostics@.push(Diagnostic::CreateFailed),
        final(reg).wf(),
        opened && frame_size_ok(width, height) && old(reg).next_id < i64::MAX as u64 ==> {
            &&& r == old(reg).next_id as i64
            &&& final(reg).next_id == old(reg).next_id + 1
            &&& final(reg).table@.dom() == old(reg).table@.dom().insert(old(reg).next_id)
            &&& forall|k: u64| k != old(reg).next_id && #[trigger] old(reg).table@.contains_key(k)
                ==> final(reg).table@[k] == old(reg).table@[k]
            &&& match final(reg).table@[old(reg).next_id] {
                RegistryEntry { handle: NativeHandle::VoxelWorld(vw), ref_count } => ref_count == 1
                    && vw.width == width && vw.height == height && vw.voxels@.len() == 0
                    && blank_frame(vw.buffer@, width as int, height as int, VOXEL_BACKGROUND),
                _ => false,
            }
        },
        !(opened && frame_size_ok(width, height) && old(reg).next_id < i64::MAX as u64) ==> {
            &&& r == -1
            &&& final(reg).table@ == old(reg).table@
            &&& final(reg).next_id == old(reg).next_id
        },
{
    if !(opened && 0 <= width && width <= MAX_PIXELS as i64 && 0 <= height && height
        <= MAX_PIXELS as i64) {
        reg.diagnostics.push(Diagnostic::CreateFailed);
        return -1;
    }
    assert((width as u64) * (height as u64) <= 67_108_864u64 * 67_108_864u64) by (nonlinear_arith)
        requires
            0 <= width <= 67_108_864,
            0 <= height <= 67_108_864,
    ;
    if (width as u64) * (height as u64) > MAX_PIXELS {
        reg.diagnostics.push(Diagnostic::CreateFailed);
        return -1;
    }
    let w = width as usize;
    let h = height as usize;
    assert(w * h <= MAX_PIXELS) by (nonlinear_arith)
        requires
            w == width,
            h == height,
            (width as u64) * (height as u64) <= MAX_PIXELS,
    ;
    let buffer = filled(w * h, VOXEL_BACKGROUND);
    register_opened(
        reg,
        true,
        NativeHandle::VoxelWorld(VoxelWorldState { buffer, width: w, height: h, voxels: Vec::new() }),
    )
}

/// Adds a voxel at (`x`, `y`, `z`) to a scene; each coordinate keeps its low
/// 32 bits.
pub fn registry_voxel_add_block(reg: &mut Registry, world_handle: i64, x: i64, y: i64, z: i64)
    requires
        old(reg).wf(),
    ensures
        block_added(old(reg).table@, world_handle, x, y, z, final(reg).table@),
        final(reg).wf(),
        final(reg).next_id == old(reg).next_id,
        match old(reg).entry(world_handle) {
            Some(RegistryEntry { handle: NativeHandle::VoxelWorld(vw), ref_count }) => {
                &&& final(reg).table@.dom() == old(reg).table@.dom()
                &&& forall|k: u64| k != world_handle as u64 && #[trigger] old(reg).table@.contains_key(k)
                    ==> final(reg).table@[k] == old(reg).table@[k]
                &&& match final(reg).table@[world_handle as u64] {
                    RegistryEntry { handle: NativeHandle::VoxelWorld(nw), ref_count: rc } => rc == ref_count
                        && nw.width == vw.width && nw.height == vw.height && nw.buffer == vw.buffer
                        && nw.voxels@ == vw.voxels@.push((x as i32, y as i32, z as i32)),
                    _ => false,
                }
                &&& final(reg).diagnostics == old(reg).diagnostics
            },
            Some(_) => final(reg).table@ == old(reg).table@ && final(reg).diagnostics@
                == old(reg).diagnostics@.push(Diagnostic::WrongKind(world_handle)),
            None => final(reg).table@ == old(reg).table@ && final(reg).diagnostics@
                == old(reg).diagnostics@.push(Diagnostic::NotFound(world_handle)),
        },
{
    if world_handle < 1 {
        reg.diagnostics.push(Diagnostic::NotFound(world_handle));
        return;
    }
    let id = world_handle as u64;
    match reg.table.remove(&id) {
        Some(e) => {
            let RegistryEntry { handle, ref_count } = e;
            match handle {
                NativeHandle::VoxelWorld(vw) => {
                    let VoxelWorldState { buffer, width, height, voxels } = vw;
                    let mut voxels = voxels;
                    voxels.push((x as i32, y as i32, z as i32));
                    let n = RegistryEntry {
                        handle: NativeHandle::VoxelWorld(VoxelWorldState { buffer, width, height, voxels }),
                        ref_count,
                    };
                    reg.table.insert(id, n);
                },
                other => {
                    let back = RegistryEntry { handle: other, ref_count };
                    reg.table.insert(id, back);
                    assert(reg.table@ =~= old(reg).table@);
                    reg.diagnostics.push(Diagnostic::WrongKind(world_handle));
                },
            }
        },
        None => {
            assert(reg.table@ =~= old(reg).table@);
            reg.diagnostics.push(Diagnostic::NotFound(world_handle));
        },
    }
}

/// Renders a scene's frame from its voxels and hands it to the host to
/// present; `None` for any other handle, with nothing changed.
pub fn registry_voxel_render_frame(reg: &mut Registry, world_handle: i64) -> (r: Option<&VoxelWorldState>)
    requires
        old(reg).wf(),
    ensures
        final(reg).wf(),
        final(reg).next_id == old(reg).next_id,
        final(reg).diagnostics == old(reg).diagnostics,
        final(reg).table@.dom() == old(reg).table@.dom(),
        forall|k: u64| k != world_handle as u64 && #[trigger] old(reg).table@.contains_key(k)
            ==> final(reg).table@[k] == old(reg).table@[k],
        match old(reg).entry(world_handle) {
            Some(RegistryEntry { handle: NativeHandle::VoxelWorld(vw), ref_count }) => {
                &&& r.is_some()
                &&& final(reg).table@[world_handle as u64] == RegistryEntry {
                    handle: NativeHandle::VoxelWorld(*r.unwrap()),
                    ref_count,
                }
                &&& r.unwrap().width == vw.width
                &&& r.unwrap().height == vw.height
                &&& r.unwrap().voxels == vw.voxels
                &&& r.unwrap().buffer@.len() == vw.buffer@.len()
                &&& forall|m: int| 0 <= m < r.unwrap().buffer@.len()
                    ==> #[trigger] crate::canvas::scene_colors().contains(r.unwrap().buffer@[m])
            },
            _ => r.is_none() && final(reg).table@ == old(reg).table@,
        },
{
    if world_handle < 1 {
        return None;
    }
    let id = world_handle as u64;
    match reg.table.remove(&id) {
        Some(e) => {
            let RegistryEntry { handle, ref_count } = e;
            match handle {
                NativeHandle::VoxelWorld(vw) => {
                    let VoxelWorldState { buffer, width, height, voxels } = vw;
                    let mut buffer = buffer;
                    iso_render(&mut buffer, width, height, &voxels);
                    let n = RegistryEntry {
                        handle: NativeHandle::VoxelWorld(VoxelWorldState { buffer, width, height, voxels }),
                        ref_count,
                    };
                    reg.table.insert(id, n);
                    match reg.table.get(&id) {
                        Some(e) => match &e.handle {
                            NativeHandle::VoxelWorld(vw) => Some(vw),
                            _ => None,
                        },
                        None => None,
                    }
                },
                other => {
                    let back = RegistryEntry { handle: other, ref_count };
                    reg.table.insert(id, back);
                    assert(reg.table@ =~= old(reg).table@);
                    None
                },
            }
        },
        None => {
            assert(reg.table@ =~= old(reg).table@);
            None
        },
    }
}

} // verus!
