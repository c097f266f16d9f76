//! Bind group layouts planned from shader reflection: one layout per group,
//! in order of group, each with its entries in the order the bindings were
//! met, merged across the vertex and fragment stages.
use vstd::prelude::*;

use crate::shader_types::{
    bindings_view, BindingView, ReflectView, ShaderBindingInfo, ShaderBindingType, ShaderReflect,
    StorageAccess, STORAGE_ATOMIC, STORAGE_READ, STORAGE_WRITE,
};

verus! {

/// Stage bit of the vertex stage.
pub const STAGE_VERTEX: u32 = 1;
/// Stage bit of the fragment stage.
pub const STAGE_FRAGMENT: u32 = 2;
/// Stage bit of the compute stage.
pub const STAGE_COMPUTE: u32 = 4;

/// How a storage texture may be accessed.
#[derive(Debug, Clone, Copy, PartialEq, Eq, Hash, Structural)]
pub enum StorageTextureAccess {
    ReadWrite,
    ReadOnly,
    WriteOnly,
    Atomic,
}

/// The kind of a layout entry.
#[derive(Debug, Clone, Copy, PartialEq, Eq, Hash, Structural)]
pub enum LayoutBindingType {
    UniformBuffer { min_size: Option<u64> },
    StorageBuffer { read_only: bool, min_size: Option<u64> },
    Texture { multisampled: bool },
    Sampler { comparison: bool },
    StorageTexture { access: StorageTextureAccess },
}

/// One entry of a bind group layout: its binding, its kind, and the stages
/// (a set of `STAGE_*` bits) that see it.
#[derive(Debug, Clone, Copy, PartialEq, Eq, Hash, Structural)]
pub struct LayoutEntry {
    pub binding: u32,
    pub ty: LayoutBindingType,
    pub visibility: u32,
}

/// The layout of one bind group.
#[derive(Debug, Clone, PartialEq, Eq, Hash)]
pub struct GroupLayout {
    pub group: u32,
    pub entries: Vec<LayoutEntry>,
}

/// The least binding size of a buffer of `size` bytes: none for 0 or for
/// `u32::MAX` (a buffer of no fixed size).
pub open spec fn spec_min_size(size: u32) -> Option<u64> {
    if size == u32::MAX || size == 0 {
        None
    } else {
        Some(size as u64)
    }
}

/// The layout kind of a binding kind; `None` for push constants and for
/// storage textures with no access flag, on which the library panics.
pub open spec fn spec_layout_type(ty: ShaderBindingType) -> Option<LayoutBindingType> {
    match ty {
        ShaderBindingType::UniformBuffer(size) => Some(LayoutBindingType::UniformBuffer { min_size: spec_min_size(size) }),
        ShaderBindingType::Texture(multisampled) => Some(LayoutBindingType::Texture { multisampled }),
        ShaderBindingType::Sampler(comparison) => Some(LayoutBindingType::Sampler { comparison }),
        ShaderBindingType::StorageBuffer(size, access) => Some(
            LayoutBindingType::StorageBuffer {
                read_only: access.bits & STORAGE_READ == STORAGE_READ && !(access.bits & STORAGE_WRITE == STORAGE_WRITE),
                min_size: spec_min_size(size),
            },
        ),
        ShaderBindingType::StorageTexture(access) => {
            let read = access.bits & STORAGE_READ == STORAGE_READ;
            let write = access.bits & STORAGE_WRITE == STORAGE_WRITE;
            let atomic = access.bits & STORAGE_ATOMIC == STORAGE_ATOMIC;
            if read && write {
                Some(LayoutBindingType::StorageTexture { access: StorageTextureAccess::ReadWrite })
            } else if read {
                Some(LayoutBindingType::StorageTexture { access: StorageTextureAccess::ReadOnly })
            } else if write {
                Some(LayoutBindingType::StorageTexture { access: StorageTextureAccess::WriteOnly })
            } else if atomic {
                Some(LayoutBindingType::StorageTexture { access: StorageTextureAccess::Atomic })
            } else {
                None
            }
        },
        ShaderBindingType::PushConstant(_) => None,
    }
}

/// A storage buffer is laid out read-only exactly when the shader reads it
/// and does not write it: any access that writes gives a writable layout,
/// and a read-only access a read-only one.
pub proof fn lemma_storage_buffer_read_only(size: u32, access: StorageAccess)
    ensures
        spec_layout_type(ShaderBindingType::StorageBuffer(size, access)) matches Some(
            LayoutBindingType::StorageBuffer { read_only, .. },
        ) && (read_only <==> (access.bits & 1 == 1 && access.bits & 2 == 0)),
        access.bits & 2 == 2 ==> !(spec_layout_type(ShaderBindingType::StorageBuffer(size, access))
            ->Some_0->StorageBuffer_read_only),
{
    let b = access.bits;
    assert(b & 2 == 2 || b & 2 == 0) by (bit_vector);
    assert(b & 1 == 1 || b & 1 == 0) by (bit_vector);
}

fn min_size(size: u32) -> (r: Option<u64>)
    ensures
        r == spec_min_size(size),
{
    if size == u32::MAX || size == 0 {
        None
    } else {
        Some(size as u64)
    }
}

/// The layout kind of a binding kind, where it has one.
pub fn layout_binding_type(ty: ShaderBindingType) -> (r: Option<LayoutBindingType>)
    ensures
        r == spec_layout_type(ty),
{
    match ty {
        ShaderBindingType::UniformBuffer(size) => Some(LayoutBindingType::UniformBuffer { min_size: min_size(size) }),
        ShaderBindingType::Texture(multisampled) => Some(LayoutBindingType::Texture { multisampled }),
        ShaderBindingType::Sampler(comparison) => Some(LayoutBindingType::Sampler { comparison }),
        ShaderBindingType::StorageBuffer(size, access) => {
            let read = access.contains(StorageAccess::read());
            let write = access.contains(StorageAccess::write());
            Some(LayoutBindingType::StorageBuffer { read_only: read && !write, min_size: min_size(size) })
        },
        ShaderBindingType::StorageTexture(access) => {
            let read = access.contains(StorageAccess::read());
            let write = access.contains(StorageAccess::write());
            let atomic = access.contains(StorageAccess::atomic());
            if read && write {
                Some(LayoutBindingType::StorageTexture { access: StorageTextureAccess::ReadWrite })
            } else if read {
                Some(LayoutBindingType::StorageTexture { access: StorageTextureAccess::ReadOnly })
            } else if write {
                Some(LayoutBindingType::StorageTexture { access: StorageTextureAccess::WriteOnly })
            } else if atomic {
                Some(LayoutBindingType::StorageTexture { access: StorageTextureAccess::Atomic })
            } else {
                None
            }
        },
        ShaderBindingType::PushConstant(_) => None,
    }
}

// ---------------------------------------------------------------------------
// Planning
// ---------------------------------------------------------------------------

/// One binding to place: the binding, the stage bits it is seen from, and
/// whether it merges into an entry of the same group and binding.
pub struct LayoutItem {
    pub binding: BindingView,
    pub stages: u32,
    pub merge: bool,
}

/// The bindings of a reflection that the graphics layout takes: vertex and
/// fragment bindings merge by slot; those of a combined shader are seen by
/// both stages; compute shaders contribute nothing.
pub open spec fn graphics_items(r: ReflectView) -> Seq<LayoutItem> {
    match r {
        ReflectView::Vertex { bindings, .. } => bindings.map_values(
            |b: BindingView| LayoutItem { binding: b, stages: STAGE_VERTEX, merge: true },
        ),
        ReflectView::Fragment { bindings, .. } => bindings.map_values(
            |b: BindingView| LayoutItem { binding: b, stages: STAGE_FRAGMENT, merge: true },
        ),
        ReflectView::VertexFragment { bindings, .. } => bindings.map_values(
            |b: BindingView| LayoutItem { binding: b, stages: STAGE_VERTEX | STAGE_FRAGMENT, merge: false },
        ),
        ReflectView::Compute { .. } => Seq::empty(),
    }
}

/// The bindings of a reflection that the compute layout takes: only those of
/// a compute shader.
pub open spec fn compute_items(r: ReflectView) -> Seq<LayoutItem> {
    match r {
        ReflectView::Compute { bindings, .. } => bindings.map_values(
            |b: BindingView| LayoutItem { binding: b, stages: STAGE_COMPUTE, merge: false },
        ),
        _ => Seq::empty(),
    }
}

/// The items that one reflection contributes to a graphics layout
/// (`compute` false) or to a compute layout (`compute` true).
pub open spec fn reflect_items(r: ReflectView, compute: bool) -> Seq<LayoutItem> {
    if compute {
        compute_items(r)
    } else {
        graphics_items(r)
    }
}

/// Index of the first entry with this binding, at or after `k`; -1 if none.
pub open spec fn first_binding_index(es: Seq<LayoutEntry>, binding: u32, k: int) -> int
    decreases es.len() - k,
{
    if k < 0 || k >= es.len() {
        -1
    } else if es[k].binding == binding {
        k
    } else {
        first_binding_index(es, binding, k + 1)
    }
}

/// The entries of each group after placing one item: a merging item whose
/// slot is taken adds its stages to the first entry there; otherwise a new
/// entry goes last in its group.
pub open spec fn place_item(st: Map<u32, Seq<LayoutEntry>>, item: LayoutItem) -> Map<u32, Seq<LayoutEntry>> {
    let g = item.binding.group;
    let es = if st.contains_key(g) { st[g] } else { Seq::empty() };
    let k = first_binding_index(es, item.binding.binding, 0);
    if item.merge && k >= 0 {
        let e = es[k];
        st.insert(g, es.update(k, LayoutEntry { visibility: e.visibility | item.stages, ..e }))
    } else {
        let entry = LayoutEntry {
            binding: item.binding.binding,
            ty: spec_layout_type(item.binding.ty)->Some_0,
            visibility: item.stages,
        };
        st.insert(g, es.push(entry))
    }
}

/// The entries of each group after placing the first `n` of `items` on
/// top of `st`.
pub open spec fn place_seq(st: Map<u32, Seq<LayoutEntry>>, items: Seq<LayoutItem>, n: nat) -> Map<u32, Seq<LayoutEntry>>
    decreases n,
{
    if n == 0 || n > items.len() {
        st
    } else {
        place_item(place_seq(st, items, (n - 1) as nat), items[n - 1])
    }
}

/// The entries of each group after the bindings of the first `n`
/// reflections.
pub open spec fn plan_fold(rs: Seq<ReflectView>, compute: bool, n: nat) -> Map<u32, Seq<LayoutEntry>>
    decreases n,
{
    if n == 0 || n > rs.len() {
        Map::empty()
    } else {
        let items = reflect_items(rs[n - 1], compute);
        place_seq(plan_fold(rs, compute, (n - 1) as nat), items, items.len())
    }
}

/// Whether every binding that the layout takes from `rs` has a layout kind.
pub open spec fn reflects_layoutable(rs: Seq<ReflectView>, compute: bool) -> bool {
    forall|r: int, i: int| 0 <= r < rs.len() && 0 <= i < reflect_items(rs[r], compute).len()
        ==> (#[trigger] spec_layout_type(reflect_items(rs[r], compute)[i].binding.ty)) is Some
}

/// The views of a sequence of reflections.
pub open spec fn reflects_view(rs: Seq<ShaderReflect>) -> Seq<ReflectView> {
    rs.map_values(|r: ShaderReflect| r@)
}

/// Whether `out` lists the groups of `st`, each once, in increasing order,
/// each with its entries.
pub open spec fn layouts_match(out: Seq<GroupLayout>, st: Map<u32, Seq<LayoutEntry>>) -> bool {
    &&& forall|i: int, j: int| 0 <= i < j < out.len() ==> (#[trigger] out[i]).group < (#[trigger] out[j]).group
    &&& forall|i: int| 0 <= i < out.len() ==> st.contains_key((#[trigger] out[i]).group) && st[out[i].group] == out[i].entries@
    &&& forall|g: u32| st.contains_key(g) ==> exists|i: int| 0 <= i < out.len() && (#[trigger] out[i]).group == g
}

/// Places one binding into the layouts, kept in order of group.
fn place_binding(out: &mut Vec<GroupLayout>, b: &ShaderBindingInfo, stages: u32, merge: bool, Ghost(st): Ghost<Map<u32, Seq<LayoutEntry>>>)
    requires
        layouts_match(old(out)@, st),
        spec_layout_type(b.ty) is Some,
    ensures
        layouts_match(final(out)@, place_item(st, LayoutItem { binding: b@, stages, merge })),
{
    let ghost item = LayoutItem { binding: b@, stages, merge };
    let ty = match layout_binding_type(b.ty) {
        Some(t) => t,
        None => {
            assert(false);
            return;
        },
    };
    let g = b.group;
    // Find the group, or the place where it belongs.
    let mut i: usize = 0;
    while i < out.len() && out[i].group < g
        invariant
            i <= out@.len(),
            out@ == old(out)@,
            forall|k: int| 0 <= k < i ==> (#[trigger] out@[k]).group < g,
        decreases out@.len() - i,
    {
        i = i + 1;
    }
    if i < out.len() && out[i].group == g {
        assert(st.contains_key(g));
        let mut entries = out[i].entries.clone();
        assert(entries@ == st[g]);
        let mut k: usize = 0;
        while k < entries.len() && entries[k].binding != b.binding
            invariant
                k <= entries@.len(),
                entries@ == st[g],
                first_binding_index(entries@, b.binding, 0) == first_binding_index(entries@, b.binding, k as int),
            decreases entries@.len() - k,
        {
            k = k + 1;
        }
        if merge && k < entries.len() {
            let e = entries[k];
            entries.set(k, LayoutEntry { visibility: e.visibility | stages, ..e });
        } else {
            proof {
                if k < entries@.len() {
                    assert(!merge);
                } else {
                    assert(first_binding_index(entries@, b.binding, k as int) == -1);
                }
            }
            entries.push(LayoutEntry { binding: b.binding, ty, visibility: stages });
        }
        let ghost new_st = place_item(st, item);
        let ghost before = out@;
        out.set(i, GroupLayout { group: g, entries });
        proof {
            assert forall|g2: u32| new_st.contains_key(g2) implies exists|j: int| 0 <= j < out@.len() && (#[trigger] out@[j]).group == g2 by {
                if g2 != g {
                    assert(st.contains_key(g2));
                    let j = choose|j: int| 0 <= j < before.len() && (#[trigger] before[j]).group == g2;
                    assert(out@[j].group == g2);
                } else {
                    assert(out@[i as int].group == g2);
                }
            }
        }
    } else {
        proof {
            if st.contains_key(g) {
                let j = choose|j: int| 0 <= j < out@.len() && (#[trigger] out@[j]).group == g;
                if j < i {
                    assert(out@[j].group < g);
                } else if j > i {
                    assert(out@[i as int].group < out@[j].group);
                }
            }
            assert(!st.contains_key(g));
            assert(first_binding_index(Seq::<LayoutEntry>::empty(), b.binding, 0) == -1);
        }
        let mut entries: Vec<LayoutEntry> = Vec::new();
        entries.push(LayoutEntry { binding: b.binding, ty, visibility: stages });
        let ghost new_st = place_item(st, item);
        let ghost before = out@;
        out.insert(i, GroupLayout { group: g, entries });
        proof {
            assert(entries@ =~= Seq::<LayoutEntry>::empty().push(LayoutEntry { binding: b.binding, ty, visibility: stages }));
            assert forall|j: int| 0 <= j < out@.len() implies new_st.contains_key((#[trigger] out@[j]).group) && new_st[out@[j].group] == out@[j].entries@ by {
                if j < i {
                    assert(out@[j] == before[j]);
                } else if j > i {
                    assert(out@[j] == before[j - 1]);
                    assert(before[j - 1].group > g) by {
                        assert(before[i as int].group >= g);
                        if j - 1 > i {
                            assert(before[i as int].group < before[j - 1].group);
                        }
                    }
                }
            }
            assert forall|j1: int, j2: int| 0 <= j1 < j2 < out@.len() implies (#[trigger] out@[j1]).group < (#[trigger] out@[j2]).group by {
                if j2 == i {
                    assert(out@[j1] == before[j1]);
                } else if j1 == i {
                    assert(out@[j2] == before[j2 - 1]);
                    assert(before[i as int].group >= g);
                    if j2 - 1 > i {
                        assert(before[i as int].group < before[j2 - 1].group);
                    }
                } else if j1 < i && j2 > i {
                    assert(out@[j1] == before[j1]);
                    assert(out@[j2] == before[j2 - 1]);
                    assert(before[j2 - 1].group >= g) by {
                        assert(before[i as int].group >= g);
                        if j2 - 1 > i {
                            assert(before[i as int].group < before[j2 - 1].group);
                        }
                    }
                } else if j2 < i {
                    assert(out@[j1] == before[j1]);
                    assert(out@[j2] == before[j2]);
                } else {
                    assert(out@[j1] == before[j1 - 1]);
                    assert(out@[j2] == before[j2 - 1]);
                }
            }
            assert forall|g2: u32| new_st.contains_key(g2) implies exists|j: int| 0 <= j < out@.len() && (#[trigger] out@[j]).group == g2 by {
                if g2 != g {
                    assert(st.contains_key(g2));
                    let j = choose|j: int| 0 <= j < before.len() && (#[trigger] before[j]).group == g2;
                    if j < i {
                        assert(out@[j].group == g2);
                    } else {
                        assert(out@[j + 1].group == g2);
                    }
                } else {
                    assert(out@[i as int].group == g2);
                }
            }
        }
    }
}

fn place_reflect(out: &mut Vec<GroupLayout>, r: &ShaderReflect, compute: bool, Ghost(st): Ghost<Map<u32, Seq<LayoutEntry>>>)
    requires
        layouts_match(old(out)@, st),
        forall|i: int| 0 <= i < reflect_items(r@, compute).len() ==> (#[trigger] spec_layout_type(reflect_items(r@, compute)[i].binding.ty)) is Some,
    ensures
        layouts_match(final(out)@, place_seq(st, reflect_items(r@, compute), reflect_items(r@, compute).len())),
{
    let ghost items = reflect_items(r@, compute);
    let (bindings, stages, merge, take): (&Vec<ShaderBindingInfo>, u32, bool, bool) = match r {
        ShaderReflect::Vertex { bindings, .. } => (bindings, STAGE_VERTEX, true, !compute),
        ShaderReflect::Fragment { bindings, .. } => (bindings, STAGE_FRAGMENT, true, !compute),
        ShaderReflect::VertexFragment { bindings, .. } => (bindings, STAGE_VERTEX | STAGE_FRAGMENT, false, !compute),
        ShaderReflect::Compute { bindings, .. } => (bindings, STAGE_COMPUTE, false, compute),
    };
    if !take {
        assert(items.len() == 0);
        return;
    }
    assert(items =~= bindings_view(bindings@).map_values(|b: BindingView| LayoutItem { binding: b, stages, merge }));
    let mut i: usize = 0;
    while i < bindings.len()
        invariant
            i <= bindings@.len(),
            items.len() == bindings@.len(),
            forall|k: int| 0 <= k < items.len() ==> #[trigger] items[k] == (LayoutItem { binding: bindings@[k]@, stages, merge }),
            forall|k: int| 0 <= k < items.len() ==> (#[trigger] spec_layout_type(items[k].binding.ty)) is Some,
            layouts_match(out@, place_seq(st, items, i as nat)),
        decreases bindings@.len() - i,
    {
        assert(items[i as int] == (LayoutItem { binding: bindings@[i as int]@, stages, merge }));
        assert(spec_layout_type(items[i as int].binding.ty) is Some);
        place_binding(out, &bindings[i], stages, merge, Ghost(place_seq(st, items, i as nat)));
        i = i + 1;
    }
}

/// The bind group layouts of a set of reflections: for a graphics shader
/// (`compute` false) from its vertex, fragment and combined reflections,
/// for a compute shader from its compute reflection. One layout per group,
/// in increasing order of group, each holding exactly [`plan_fold`]'s
/// entries for it.
pub fn plan_layouts(reflects: &Vec<ShaderReflect>, compute: bool) -> (out: Vec<GroupLayout>)
    requires
        reflects_layoutable(reflects_view(reflects@), compute),
    ensures
        layouts_match(out@, plan_fold(reflects_view(reflects@), compute, reflects@.len())),
{
    let ghost rs = reflects_view(reflects@);
    let mut out: Vec<GroupLayout> = Vec::new();
    let mut r: usize = 0;
    while r < reflects.len()
        invariant
            r <= reflects@.len(),
            rs == reflects_view(reflects@),
            reflects_layoutable(rs, compute),
            layouts_match(out@, plan_fold(rs, compute, r as nat)),
        decreases reflects@.len() - r,
    {
        assert(rs[r as int] == reflects@[r as int]@);
        assert forall|i: int| 0 <= i < reflect_items(reflects@[r as int]@, compute).len()
            implies (#[trigger] spec_layout_type(reflect_items(reflects@[r as int]@, compute)[i].binding.ty)) is Some by {
            assert(spec_layout_type(reflect_items(rs[r as int], compute)[i].binding.ty) is Some);
        }
        place_reflect(&mut out, &reflects[r], compute, Ghost(plan_fold(rs, compute, r as nat)));
        r = r + 1;
    }
    out
}

} // verus!
