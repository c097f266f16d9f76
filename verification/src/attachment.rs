use vstd::prelude::*;
use crate::shader_types::{ShaderBindingInfo, ShaderBindingType, ShaderReflect};

verus! {

/// The resource bound to one slot of a bind group, by kind, with the
/// handle under which the application keeps the GPU object.
#[derive(Debug, Clone, Copy, PartialEq, Eq, Hash, Structural)]
pub enum BindGroupType {
    Uniform(u64),
    Texture(u64),
    TextureStorage(u64),
    Sampler(u64),
    Storage(u64),
}

/// A resource attached to the slot `binding` of the bind group `group`.
#[derive(Debug, Clone, Copy, PartialEq, Eq, Hash, Structural)]
pub struct BindGroupAttachment {
    pub group: u32,
    pub binding: u32,
    pub attachment: BindGroupType,
}

/// Whether an attachment sits in the slot (`group`, `binding`).
pub open spec fn same_slot(a: BindGroupAttachment, group: u32, binding: u32) -> bool {
    a.group == group && a.binding == binding
}

/// No two attachments of the list share a slot.
pub open spec fn slots_unique(s: Seq<BindGroupAttachment>) -> bool {
    forall|i: int, j: int|
        #![trigger s[i], s[j]]
        0 <= i < j < s.len() ==> !same_slot(s[i], s[j].group, s[j].binding)
}

/// Whether an attachment of the given kind may be bound where a shader
/// declares a binding of type `ty`: uniform buffers and push constants take
/// uniforms, storage buffers take storage buffers, storage textures take
/// storage textures, samplers take samplers and textures take textures.
pub open spec fn spec_kind_matches(ty: ShaderBindingType, a: BindGroupType) -> bool {
    match ty {
        ShaderBindingType::UniformBuffer(_) => a is Uniform,
        ShaderBindingType::StorageBuffer(_, _) => a is Storage,
        ShaderBindingType::StorageTexture(_) => a is TextureStorage,
        ShaderBindingType::Sampler(_) => a is Sampler,
        ShaderBindingType::Texture(_) => a is Texture,
        ShaderBindingType::PushConstant(_) => a is Uniform,
    }
}

/// Checks an attachment's kind against the type that the shader declares.
pub fn attachment_matches(ty: ShaderBindingType, a: BindGroupType) -> (r: bool)
    ensures
        r == spec_kind_matches(ty, a),
{
    match ty {
        ShaderBindingType::UniformBuffer(_) => matches!(a, BindGroupType::Uniform(_)),
        ShaderBindingType::StorageBuffer(_, _) => matches!(a, BindGroupType::Storage(_)),
        ShaderBindingType::StorageTexture(_) => matches!(a, BindGroupType::TextureStorage(_)),
        ShaderBindingType::Sampler(_) => matches!(a, BindGroupType::Sampler(_)),
        ShaderBindingType::Texture(_) => matches!(a, BindGroupType::Texture(_)),
        ShaderBindingType::PushConstant(_) => matches!(a, BindGroupType::Uniform(_)),
    }
}

/// Whether some attachment of the list sits in the slot.
pub open spec fn has_slot(s: Seq<BindGroupAttachment>, group: u32, binding: u32) -> bool {
    exists|i: int| 0 <= i < s.len() && same_slot(#[trigger] s[i], group, binding)
}

/// `i` is the first index of the list whose attachment sits in the slot.
pub open spec fn is_first_slot(s: Seq<BindGroupAttachment>, group: u32, binding: u32, i: int) -> bool {
    &&& 0 <= i < s.len()
    &&& same_slot(s[i], group, binding)
    &&& forall|j: int| 0 <= j < i ==> !same_slot(#[trigger] s[j], group, binding)
}

/// The first index of the list whose attachment sits in the slot.
pub open spec fn first_slot(s: Seq<BindGroupAttachment>, group: u32, binding: u32) -> int {
    choose|i: int| is_first_slot(s, group, binding, i)
}

/// The list after an attachment is set: it takes the place of the first
/// attachment in its slot, or goes to the end when the slot is free.
pub open spec fn spec_replace_or_push(s: Seq<BindGroupAttachment>, a: BindGroupAttachment) -> Seq<BindGroupAttachment> {
    if has_slot(s, a.group, a.binding) {
        s.update(first_slot(s, a.group, a.binding), a)
    } else {
        s.push(a)
    }
}

/// The list without the attachments in the slot, in their order.
pub open spec fn spec_without_slot(s: Seq<BindGroupAttachment>, group: u32, binding: u32) -> Seq<BindGroupAttachment> {
    s.filter(|a: BindGroupAttachment| !same_slot(a, group, binding))
}

/// Finds the first attachment of the list in the slot.
pub fn find_slot(s: &Vec<BindGroupAttachment>, group: u32, binding: u32) -> (r: Option<usize>)
    ensures
        r is Some <==> has_slot(s@, group, binding),
        r matches Some(i) ==> is_first_slot(s@, group, binding, i as int) && i as int == first_slot(s@, group, binding),
{
    let mut i: usize = 0;
    while i < s.len()
        invariant
            i <= s.len(),
            forall|j: int| 0 <= j < i ==> !same_slot(#[trigger] s@[j], group, binding),
        decreases s.len() - i,
    {
        if s[i].group == group && s[i].binding == binding {
            proof {
                assert(is_first_slot(s@, group, binding, i as int));
                let c = first_slot(s@, group, binding);
                assert(is_first_slot(s@, group, binding, c));
                if c < i {
                    assert(!same_slot(s@[c], group, binding));
                } else if c > i {
                    assert(!same_slot(s@[i as int], group, binding));
                }
            }
            return Some(i);
        }
        i += 1;
    }
    None
}

/// Sets an attachment in its slot: it replaces the attachment that was
/// there, else it is added at the end.
pub fn replace_or_push(s: &mut Vec<BindGroupAttachment>, a: BindGroupAttachment)
    ensures
        final(s)@ == spec_replace_or_push(old(s)@, a),
{
    match find_slot(s, a.group, a.binding) {
        Some(i) => {
            s.set(i, a);
        },
        None => {
            s.push(a);
        },
    }
}

/// Removes every attachment in the slot, keeping the others in order.
pub fn remove_slot(s: &mut Vec<BindGroupAttachment>, group: u32, binding: u32)
    ensures
        final(s)@ == spec_without_slot(old(s)@, group, binding),
{
    let ghost pred = |a: BindGroupAttachment| !same_slot(a, group, binding);
    let mut kept: Vec<BindGroupAttachment> = Vec::new();
    let mut i: usize = 0;
    while i < s.len()
        invariant
            i <= s.len(),
            pred == (|a: BindGroupAttachment| !same_slot(a, group, binding)),
            kept@ == s@.take(i as int).filter(pred),
        decreases s.len() - i,
    {
        proof {
            reveal(Seq::filter);
            assert(s@.take(i as int + 1).drop_last() =~= s@.take(i as int));
        }
        if !(s[i].group == group && s[i].binding == binding) {
            kept.push(s[i]);
        }
        i += 1;
    }
    proof {
        assert(s@.take(s@.len() as int) =~= s@);
    }
    *s = kept;
}

/// Setting an attachment keeps the slots of a list unique, leaves the
/// attachment in its slot, and leaves every other slot as it was.
pub proof fn lemma_replace_or_push_slots(s: Seq<BindGroupAttachment>, a: BindGroupAttachment)
    requires
        slots_unique(s),
    ensures
        slots_unique(spec_replace_or_push(s, a)),
        spec_replace_or_push(s, a).contains(a),
        forall|x: BindGroupAttachment|
            !same_slot(x, a.group, a.binding) ==> (spec_replace_or_push(s, a).contains(x) <==> s.contains(x)),
{
    let r = spec_replace_or_push(s, a);
    if has_slot(s, a.group, a.binding) {
        let w = choose|i: int| 0 <= i < s.len() && same_slot(#[trigger] s[i], a.group, a.binding);
        assert(is_first_slot(s, a.group, a.binding, w)) by {
            assert forall|j: int| 0 <= j < w implies !same_slot(#[trigger] s[j], a.group, a.binding) by {
                assert(!same_slot(s[j], s[w].group, s[w].binding));
            }
        }
        let f = first_slot(s, a.group, a.binding);
        assert(is_first_slot(s, a.group, a.binding, f));
        assert(r[f] == a);
        assert forall|x: BindGroupAttachment| !same_slot(x, a.group, a.binding) implies (r.contains(x) <==> s.contains(x)) by {
            if r.contains(x) {
                let k = choose|k: int| 0 <= k < r.len() && r[k] == x;
                assert(k != f);
                assert(s[k] == x);
            }
            if s.contains(x) {
                let k = choose|k: int| 0 <= k < s.len() && s[k] == x;
                assert(k != f);
                assert(r[k] == x);
            }
        }
        assert forall|i: int, j: int| #![trigger r[i], r[j]] 0 <= i < j < r.len() implies !same_slot(r[i], r[j].group, r[j].binding) by {
            if i == f {
                assert(!same_slot(s[i], s[j].group, s[j].binding));
            } else if j == f {
                assert(!same_slot(s[i], s[j].group, s[j].binding));
            } else {
                assert(!same_slot(s[i], s[j].group, s[j].binding));
            }
        }
    } else {
        assert(r[s.len() as int] == a);
        assert forall|x: BindGroupAttachment| !same_slot(x, a.group, a.binding) implies (r.contains(x) <==> s.contains(x)) by {
            if r.contains(x) {
                let k = choose|k: int| 0 <= k < r.len() && r[k] == x;
                assert(k < s.len());
                assert(s[k] == x);
            }
            if s.contains(x) {
                let k = choose|k: int| 0 <= k < s.len() && s[k] == x;
                assert(r[k] == x);
            }
        }
        assert forall|i: int, j: int| #![trigger r[i], r[j]] 0 <= i < j < r.len() implies !same_slot(r[i], r[j].group, r[j].binding) by {
            if j == s.len() {
                assert(!same_slot(s[i], a.group, a.binding));
            } else {
                assert(!same_slot(s[i], s[j].group, s[j].binding));
            }
        }
    }
}

/// Removing a slot keeps the slots of a list unique, leaves nothing in that
/// slot, and leaves every other slot as it was.
pub proof fn lemma_without_slot_slots(s: Seq<BindGroupAttachment>, group: u32, binding: u32)
    requires
        slots_unique(s),
    ensures
        slots_unique(spec_without_slot(s, group, binding)),
        !has_slot(spec_without_slot(s, group, binding), group, binding),
        forall|x: BindGroupAttachment|
            !same_slot(x, group, binding) ==> (spec_without_slot(s, group, binding).contains(x) <==> s.contains(x)),
    decreases s.len(),
{
    let pred = |a: BindGroupAttachment| !same_slot(a, group, binding);
    let r = spec_without_slot(s, group, binding);
    reveal(Seq::filter);
    if s.len() == 0 {
        assert(r =~= s);
    } else {
        let d = s.drop_last();
        assert(slots_unique(d)) by {
            assert forall|i: int, j: int| #![trigger d[i], d[j]] 0 <= i < j < d.len() implies !same_slot(d[i], d[j].group, d[j].binding) by {
                assert(d[i] == s[i] && d[j] == s[j]);
            }
        }
        lemma_without_slot_slots(d, group, binding);
        let rd = spec_without_slot(d, group, binding);
        assert(r == (if pred(s.last()) { rd.push(s.last()) } else { rd }));
        assert forall|x: BindGroupAttachment| !same_slot(x, group, binding) implies (r.contains(x) <==> s.contains(x)) by {
            if s.contains(x) {
                let k = choose|k: int| 0 <= k < s.len() && s[k] == x;
                if k < d.len() {
                    assert(d[k] == x);
                    assert(d.contains(x));
                    assert(rd.contains(x));
                    let m = choose|m: int| 0 <= m < rd.len() && rd[m] == x;
                    if pred(s.last()) {
                        assert(r[m] == x);
                    }
                } else {
                    assert(r[r.len() - 1] == x);
                }
            }
            if r.contains(x) {
                let k = choose|k: int| 0 <= k < r.len() && r[k] == x;
                if k < rd.len() {
                    assert(rd[k] == x);
                    assert(rd.contains(x));
                    assert(d.contains(x));
                    let m = choose|m: int| 0 <= m < d.len() && d[m] == x;
                    assert(s[m] == x);
                } else {
                    assert(s[s.len() - 1] == x);
                }
            }
        }
        if pred(s.last()) {
            assert forall|i: int, j: int| #![trigger r[i], r[j]] 0 <= i < j < r.len() implies !same_slot(r[i], r[j].group, r[j].binding) by {
                if j == rd.len() {
                    assert(r[i] == rd[i]);
                    assert(!same_slot(rd[i], group, binding));
                    assert(rd.contains(r[i]));
                    assert(d.contains(r[i]));
                    let m = choose|m: int| 0 <= m < d.len() && d[m] == r[i];
                    assert(!same_slot(s[m], s[s.len() - 1].group, s[s.len() - 1].binding));
                } else {
                    assert(r[i] == rd[i] && r[j] == rd[j]);
                }
            }
            assert forall|i: int| 0 <= i < r.len() implies !same_slot(#[trigger] r[i], group, binding) by {
                if i < rd.len() {
                    assert(r[i] == rd[i]);
                    assert(!same_slot(rd[i], group, binding));
                }
            }
        }
    }
}

/// The type of the first binding of the list in the slot.
pub open spec fn spec_find_binding(bs: Seq<ShaderBindingInfo>, group: u32, binding: u32) -> Option<ShaderBindingType>
    decreases bs.len(),
{
    if bs.len() == 0 {
        None
    } else if bs[0].group == group && bs[0].binding == binding {
        Some(bs[0].ty)
    } else {
        spec_find_binding(bs.drop_first(), group, binding)
    }
}

/// Looks up the type of the first binding of the list in the slot.
pub fn find_binding(bs: &Vec<ShaderBindingInfo>, group: u32, binding: u32) -> (r: Option<ShaderBindingType>)
    ensures
        r == spec_find_binding(bs@, group, binding),
{
    let mut i: usize = 0;
    proof {
        assert(bs@.skip(0) =~= bs@);
    }
    while i < bs.len()
        invariant
            i <= bs.len(),
            spec_find_binding(bs@, group, binding) == spec_find_binding(bs@.skip(i as int), group, binding),
        decreases bs.len() - i,
    {
        proof {
            assert(bs@.skip(i as int).drop_first() =~= bs@.skip(i as int + 1));
        }
        if bs[i].group == group && bs[i].binding == binding {
            return Some(bs[i].ty);
        }
        i += 1;
    }
    None
}

/// The bindings of a vertex, fragment or combined reflection; a compute
/// reflection has none to offer to a render pass.
pub open spec fn pass_bindings(r: ShaderReflect) -> Option<Seq<ShaderBindingInfo>> {
    match r {
        ShaderReflect::Vertex { bindings, .. } => Some(bindings@),
        ShaderReflect::Fragment { bindings, .. } => Some(bindings@),
        ShaderReflect::VertexFragment { bindings, .. } => Some(bindings@),
        ShaderReflect::Compute { .. } => None,
    }
}

/// The type of the slot in the first graphics reflection that declares it.
pub open spec fn spec_find_in_reflects(rs: Seq<ShaderReflect>, group: u32, binding: u32) -> Option<ShaderBindingType>
    decreases rs.len(),
{
    if rs.len() == 0 {
        None
    } else {
        match pass_bindings(rs[0]) {
            Some(bs) => match spec_find_binding(bs, group, binding) {
                Some(t) => Some(t),
                None => spec_find_in_reflects(rs.drop_first(), group, binding),
            },
            None => spec_find_in_reflects(rs.drop_first(), group, binding),
        }
    }
}

/// Looks up the type of a slot in the graphics reflections of a shader.
pub fn find_reflect_binding(rs: &Vec<ShaderReflect>, group: u32, binding: u32) -> (r: Option<ShaderBindingType>)
    ensures
        r == spec_find_in_reflects(rs@, group, binding),
{
    let mut i: usize = 0;
    proof {
        assert(rs@.skip(0) =~= rs@);
    }
    while i < rs.len()
        invariant
            i <= rs.len(),
            spec_find_in_reflects(rs@, group, binding) == spec_find_in_reflects(rs@.skip(i as int), group, binding),
        decreases rs.len() - i,
    {
        proof {
            assert(rs@.skip(i as int).drop_first() =~= rs@.skip(i as int + 1));
        }
        let found = match &rs[i] {
            ShaderReflect::Vertex { bindings, .. } => find_binding(bindings, group, binding),
            ShaderReflect::Fragment { bindings, .. } => find_binding(bindings, group, binding),
            ShaderReflect::VertexFragment { bindings, .. } => find_binding(bindings, group, binding),
            ShaderReflect::Compute { .. } => None,
        };
        if found.is_some() {
            return found;
        }
        i += 1;
    }
    None
}

/// The size of the first push constant of the list.
pub open spec fn spec_first_push_constant(bs: Seq<ShaderBindingInfo>) -> Option<u32>
    decreases bs.len(),
{
    if bs.len() == 0 {
        None
    } else {
        match bs[0].ty {
            ShaderBindingType::PushConstant(size) => Some(size),
            _ => spec_first_push_constant(bs.drop_first()),
        }
    }
}

/// The size of the first push constant of the first graphics reflection
/// that declares one, or 0 when none does.
pub open spec fn spec_push_constant_size(rs: Seq<ShaderReflect>) -> u32
    decreases rs.len(),
{
    if rs.len() == 0 {
        0
    } else {
        match pass_bindings(rs[0]) {
            Some(bs) => match spec_first_push_constant(bs) {
                Some(size) => size,
                None => spec_push_constant_size(rs.drop_first()),
            },
            None => spec_push_constant_size(rs.drop_first()),
        }
    }
}

/// Looks up the size of the first push constant of the list.
pub fn first_push_constant(bs: &Vec<ShaderBindingInfo>) -> (r: Option<u32>)
    ensures
        r == spec_first_push_constant(bs@),
{
    let mut i: usize = 0;
    proof {
        assert(bs@.skip(0) =~= bs@);
    }
    while i < bs.len()
        invariant
            i <= bs.len(),
            spec_first_push_constant(bs@) == spec_first_push_constant(bs@.skip(i as int)),
        decreases bs.len() - i,
    {
        proof {
            assert(bs@.skip(i as int).drop_first() =~= bs@.skip(i as int + 1));
        }
        if let ShaderBindingType::PushConstant(size) = bs[i].ty {
            return Some(size);
        }
        i += 1;
    }
    None
}

/// The push constant size that the graphics reflections declare (0 when
/// none declares one).
pub fn push_constant_size(rs: &Vec<ShaderReflect>) -> (r: u32)
    ensures
        r == spec_push_constant_size(rs@),
{
    let mut i: usize = 0;
    proof {
        assert(rs@.skip(0) =~= rs@);
    }
    while i < rs.len()
        invariant
            i <= rs.len(),
            spec_push_constant_size(rs@) == spec_push_constant_size(rs@.skip(i as int)),
        decreases rs.len() - i,
    {
        proof {
            assert(rs@.skip(i as int).drop_first() =~= rs@.skip(i as int + 1));
        }
        let found = match &rs[i] {
            ShaderReflect::Vertex { bindings, .. } => first_push_constant(bindings),
            ShaderReflect::Fragment { bindings, .. } => first_push_constant(bindings),
            ShaderReflect::VertexFragment { bindings, .. } => first_push_constant(bindings),
            ShaderReflect::Compute { .. } => None,
        };
        if let Some(size) = found {
            return size;
        }
        i += 1;
    }
    0
}

/// The number of zero bytes that bring a length up to a multiple of 4.
pub open spec fn pad4(len: nat) -> nat {
    if len % 4 == 0 { 0 } else { (4 - len % 4) as nat }
}

/// Push constant data, padded with zero bytes to a multiple of 4 bytes.
pub open spec fn spec_pad_push_constants(data: Seq<u8>) -> Seq<u8> {
    data + Seq::new(pad4(data.len()), |i: int| 0u8)
}

/// Copies push constant data and pads it with zero bytes to a multiple of
/// 4 bytes, as the GPU takes it.
pub fn pad_push_constants(data: &[u8]) -> (r: Vec<u8>)
    ensures
        r@ == spec_pad_push_constants(data@),
        r@.len() % 4 == 0,
{
    let mut r: Vec<u8> = Vec::new();
    let mut i: usize = 0;
    while i < data.len()
        invariant
            i <= data@.len(),
            r@ == data@.take(i as int),
        decreases data@.len() - i,
    {
        r.push(data[i]);
        i += 1;
        proof {
            assert(r@ =~= data@.take(i as int));
        }
    }
    let n: usize = data.len();
    let pad: usize = if n % 4 == 0 { 0 } else { 4 - n % 4 };
    let mut k: usize = 0;
    while k < pad
        invariant
            k <= pad,
            pad == pad4(data@.len()),
            n == data@.len(),
            r@ == data@ + Seq::new(k as nat, |i: int| 0u8),
        decreases pad - k,
    {
        r.push(0u8);
        k += 1;
        proof {
            assert(r@ =~= data@ + Seq::new(k as nat, |i: int| 0u8));
        }
    }
    proof {
        assert(data@.take(n as int) =~= data@);
    }
    r
}

/// The attachments of one bind group, in ascending order of binding.
#[derive(Debug, Clone, PartialEq, Eq)]
pub struct BindGroupEntries {
    pub group: u32,
    pub entries: Vec<BindGroupAttachment>,
}

/// The bindings of the list rise strictly.
pub open spec fn bindings_ascending(e: Seq<BindGroupAttachment>) -> bool {
    forall|k: int, l: int| #![trigger e[k], e[l]] 0 <= k < l < e.len() ==> e[k].binding < e[l].binding
}

/// `r` sorts the attachments `s` into bind groups: one entry per group,
/// none empty, each holding attachments of `s` in that group in ascending
/// order of binding, and every attachment of `s` in the entry of its group.
pub open spec fn groups_of(r: Seq<BindGroupEntries>, s: Seq<BindGroupAttachment>) -> bool {
    &&& forall|i: int, j: int| #![trigger r[i], r[j]] 0 <= i < j < r.len() ==> r[i].group != r[j].group
    &&& forall|i: int| 0 <= i < r.len() ==> (#[trigger] r[i]).entries@.len() > 0 && bindings_ascending(r[i].entries@)
    &&& forall|i: int, k: int|
        0 <= i < r.len() && 0 <= k < r[i].entries@.len() ==> (#[trigger] r[i].entries@[k]).group == r[i].group
            && s.contains(r[i].entries@[k])
    &&& forall|m: int|
        0 <= m < s.len() ==> exists|i: int|
            0 <= i < r.len() && r[i].group == (#[trigger] s[m]).group && r[i].entries@.contains(s[m])
}

/// Inserts an attachment into a list ordered by binding, at the place its
/// binding calls for.
fn insert_by_binding(e: &mut Vec<BindGroupAttachment>, a: BindGroupAttachment)
    requires
        bindings_ascending(old(e)@),
        forall|k: int| 0 <= k < old(e)@.len() ==> (#[trigger] old(e)@[k]).binding != a.binding,
    ensures
        bindings_ascending(final(e)@),
        final(e)@.len() == old(e)@.len() + 1,
        final(e)@.contains(a),
        forall|x: BindGroupAttachment| #[trigger] final(e)@.contains(x) <==> (old(e)@.contains(x) || x == a),
{
    let mut p: usize = 0;
    while p < e.len() && e[p].binding < a.binding
        invariant
            p <= e.len(),
            e@ == old(e)@,
            forall|k: int| 0 <= k < p ==> (#[trigger] e@[k]).binding < a.binding,
        decreases e.len() - p,
    {
        p += 1;
    }
    assert(p < e.len() ==> e@[p as int].binding != a.binding);
    let ghost old_e = e@;
    e.insert(p, a);
    proof {
        old_e.insert_ensures(p as int, a);
        let n = e@;
        assert(n[p as int] == a);
        assert forall|k: int, l: int| #![trigger n[k], n[l]] 0 <= k < l < n.len() implies n[k].binding < n[l].binding by {
            if l < p {
                assert(n[k] == old_e[k] && n[l] == old_e[l]);
            } else if l == p {
                assert(n[k] == old_e[k]);
            } else if k < p {
                assert(n[k] == old_e[k] && n[l] == old_e[l - 1]);
                assert(old_e[k].binding < a.binding);
                assert(old_e[p as int].binding > a.binding);
                if l - 1 > p {
                    assert(old_e[p as int].binding < old_e[l - 1].binding);
                }
            } else if k == p {
                assert(n[l] == old_e[l - 1]);
                assert(old_e[p as int].binding > a.binding);
                if l - 1 > p {
                    assert(old_e[p as int].binding < old_e[l - 1].binding);
                }
            } else {
                assert(n[k] == old_e[k - 1] && n[l] == old_e[l - 1]);
            }
        }
        assert forall|x: BindGroupAttachment| #[trigger] n.contains(x) <==> (old_e.contains(x) || x == a) by {
            if n.contains(x) {
                let k = choose|k: int| 0 <= k < n.len() && n[k] == x;
                if k < p {
                    assert(old_e[k] == x);
                } else if k > p {
                    assert(old_e[k - 1] == x);
                }
            }
            if old_e.contains(x) {
                let k = choose|k: int| 0 <= k < old_e.len() && old_e[k] == x;
                if k < p {
                    assert(n[k] == x);
                } else {
                    assert(n[k + 1] == x);
                }
            }
            if x == a {
                assert(n[p as int] == x);
            }
        }
    }
}

/// Sorts attachments with distinct slots into bind groups, each group's
/// attachments in ascending order of binding; the groups come in the order
/// in which they first occur.
pub fn group_attachments(s: &Vec<BindGroupAttachment>) -> (r: Vec<BindGroupEntries>)
    requires
        slots_unique(s@),
    ensures
        groups_of(r@, s@),
{
    let mut r: Vec<BindGroupEntries> = Vec::new();
    let mut m: usize = 0;
    while m < s.len()
        invariant
            m <= s.len(),
            slots_unique(s@),
            groups_of(r@, s@.take(m as int)),
        decreases s.len() - m,
    {
        let a = s[m];
        let ghost pre = s@.take(m as int);
        let ghost post = s@.take(m as int + 1);
        assert(post =~= pre.push(a));
        let mut gi: usize = 0;
        while gi < r.len() && r[gi].group != a.group
            invariant
                gi <= r.len(),
                forall|i: int| 0 <= i < gi ==> (#[trigger] r@[i]).group != a.group,
            decreases r.len() - gi,
        {
            gi += 1;
        }
        let ghost old_r = r@;
        if gi < r.len() {
            let mut ge = r.remove(gi);
            proof {
                old_r.remove_ensures(gi as int);
                assert forall|k: int| 0 <= k < ge.entries@.len() implies (#[trigger] ge.entries@[k]).binding != a.binding by {
                    assert(old_r[gi as int] == ge);
                    let x = ge.entries@[k];
                    assert(old_r[gi as int].entries@[k] == x);
                    assert(pre.contains(x));
                    let j = choose|j: int| 0 <= j < pre.len() && pre[j] == x;
                    assert(s@[j] == x);
                    assert(!same_slot(s@[j], s@[m as int].group, s@[m as int].binding));
                }
            }
            insert_by_binding(&mut ge.entries, a);
            r.insert(gi, ge);
            proof {
                let n = r@;
                assert(n =~= old_r.update(gi as int, ge));
                let g0 = old_r[gi as int];
                assert forall|i: int, j: int| #![trigger n[i], n[j]] 0 <= i < j < n.len() implies n[i].group != n[j].group by {
                    assert(old_r[i].group != old_r[j].group);
                }
                assert forall|i: int| 0 <= i < n.len() implies (#[trigger] n[i]).entries@.len() > 0 && bindings_ascending(n[i].entries@) by {
                    assert(old_r[i] == old_r[i]);
                }
                assert forall|i: int, k: int|
                    0 <= i < n.len() && 0 <= k < n[i].entries@.len() implies (#[trigger] n[i].entries@[k]).group == n[i].group
                        && post.contains(n[i].entries@[k]) by {
                    let x = n[i].entries@[k];
                    if i == gi {
                        assert(ge.entries@.contains(x));
                        if x != a {
                            assert(g0.entries@.contains(x));
                            let kk = choose|kk: int| 0 <= kk < g0.entries@.len() && g0.entries@[kk] == x;
                            assert(old_r[i].entries@[kk] == x);
                        }
                    } else {
                        assert(old_r[i].entries@[k] == x);
                    }
                    if pre.contains(x) {
                        let j = choose|j: int| 0 <= j < pre.len() && pre[j] == x;
                        assert(post[j] == x);
                    }
                    if x == a {
                        assert(post[m as int] == x);
                    }
                }
                assert forall|q: int| 0 <= q < post.len() implies exists|i: int|
                    0 <= i < n.len() && n[i].group == (#[trigger] post[q]).group && n[i].entries@.contains(post[q]) by {
                    if q < m {
                        assert(post[q] == pre[q]);
                        let i = choose|i: int| 0 <= i < old_r.len() && old_r[i].group == (#[trigger] pre[q]).group && old_r[i].entries@.contains(pre[q]);
                        if i == gi {
                            assert(ge.entries@.contains(post[q]));
                            assert(n[i] == ge);
                        } else {
                            assert(n[i] == old_r[i]);
                        }
                    } else {
                        assert(post[q] == a);
                        assert(n[gi as int] == ge);
                        assert(ge.entries@.contains(a));
                    }
                }
            }
        } else {
            let mut e: Vec<BindGroupAttachment> = Vec::new();
            e.push(a);
            r.push(BindGroupEntries { group: a.group, entries: e });
            proof {
                let n = r@;
                let last = n.len() - 1;
                assert(n[last].entries@ =~= seq![a]);
                assert forall|i: int, j: int| #![trigger n[i], n[j]] 0 <= i < j < n.len() implies n[i].group != n[j].group by {
                    if j < last {
                        assert(old_r[i].group != old_r[j].group);
                    } else {
                        assert(n[i] == old_r[i]);
                    }
                }
                assert forall|i: int| 0 <= i < n.len() implies (#[trigger] n[i]).entries@.len() > 0 && bindings_ascending(n[i].entries@) by {
                    if i < last {
                        assert(n[i] == old_r[i]);
                    }
                }
                assert forall|i: int, k: int|
                    0 <= i < n.len() && 0 <= k < n[i].entries@.len() implies (#[trigger] n[i].entries@[k]).group == n[i].group
                        && post.contains(n[i].entries@[k]) by {
                    let x = n[i].entries@[k];
                    if i < last {
                        assert(n[i] == old_r[i]);
                        assert(pre.contains(x));
                        let j = choose|j: int| 0 <= j < pre.len() && pre[j] == x;
                        assert(post[j] == x);
                    } else {
                        assert(x == a);
                        assert(post[m as int] == x);
                    }
                }
                assert forall|q: int| 0 <= q < post.len() implies exists|i: int|
                    0 <= i < n.len() && n[i].group == (#[trigger] post[q]).group && n[i].entries@.contains(post[q]) by {
                    if q < m {
                        assert(post[q] == pre[q]);
                        let i = choose|i: int| 0 <= i < old_r.len() && old_r[i].group == (#[trigger] pre[q]).group && old_r[i].entries@.contains(pre[q]);
                        assert(n[i] == old_r[i]);
                    } else {
                        assert(post[q] == a);
                        assert(n[last].entries@[0] == a);
                    }
                }
            }
        }
        m += 1;
    }
    proof {
        assert(s@.take(s@.len() as int) =~= s@);
    }
    r
}

/// Removing a slot that holds nothing leaves the list as it is.
proof fn lemma_without_absent_slot(s: Seq<BindGroupAttachment>, group: u32, binding: u32)
    requires
        !has_slot(s, group, binding),
    ensures
        spec_without_slot(s, group, binding) == s,
    decreases s.len(),
{
    reveal(Seq::filter);
    if s.len() > 0 {
        let d = s.drop_last();
        assert(!has_slot(d, group, binding)) by {
            if has_slot(d, group, binding) {
                let i = choose|i: int| 0 <= i < d.len() && same_slot(#[trigger] d[i], group, binding);
                assert(s[i] == d[i]);
            }
        }
        lemma_without_absent_slot(d, group, binding);
        assert(!same_slot(s[s.len() - 1], group, binding));
        assert(d.push(s.last()) =~= s);
    }
}

/// Attaching a resource to a free slot and then emptying that slot gives
/// back the list as it was.
pub proof fn lemma_remove_undoes_insert(s: Seq<BindGroupAttachment>, a: BindGroupAttachment)
    requires
        !has_slot(s, a.group, a.binding),
    ensures
        spec_without_slot(spec_replace_or_push(s, a), a.group, a.binding) == s,
{
    let r = s.push(a);
    assert(spec_replace_or_push(s, a) == r);
    reveal(Seq::filter);
    assert(r.drop_last() =~= s);
    lemma_without_absent_slot(s, a.group, a.binding);
}

/// Setting a slot twice is setting it once, to the second resource.
pub proof fn lemma_replace_twice(s: Seq<BindGroupAttachment>, a: BindGroupAttachment, b: BindGroupAttachment)
    requires
        a.group == b.group,
        a.binding == b.binding,
    ensures
        spec_replace_or_push(spec_replace_or_push(s, a), b) == spec_replace_or_push(s, b),
{
    let (g, n) = (a.group, a.binding);
    let r = spec_replace_or_push(s, a);
    if has_slot(s, g, n) {
        let w = choose|i: int| 0 <= i < s.len() && same_slot(#[trigger] s[i], g, n);
        let f = first_slot(s, g, n);
        assert(is_first_slot(s, g, n, f)) by {
            lemma_first_slot_exists(s, g, n, w);
        }
        assert(r == s.update(f, a));
        assert(is_first_slot(r, g, n, f)) by {
            assert forall|j: int| 0 <= j < f implies !same_slot(#[trigger] r[j], g, n) by {
                assert(r[j] == s[j]);
            }
        }
        assert(has_slot(r, g, n)) by {
            assert(same_slot(r[f], g, n));
        }
        let f2 = first_slot(r, g, n);
        assert(is_first_slot(r, g, n, f2));
        assert(f2 == f) by {
            if f2 < f {
                assert(!same_slot(r[f2], g, n));
            } else if f2 > f {
                assert(!same_slot(r[f], g, n));
            }
        }
        assert(r.update(f, b) =~= s.update(f, b));
    } else {
        assert(r == s.push(a));
        let e = s.len() as int;
        assert(is_first_slot(r, g, n, e)) by {
            assert forall|j: int| 0 <= j < e implies !same_slot(#[trigger] r[j], g, n) by {
                assert(r[j] == s[j]);
                if same_slot(s[j], g, n) {
                    assert(has_slot(s, g, n));
                }
            }
        }
        assert(has_slot(r, g, n)) by {
            assert(same_slot(r[e], g, n));
        }
        let f2 = first_slot(r, g, n);
        assert(is_first_slot(r, g, n, f2));
        assert(f2 == e) by {
            if f2 < e {
                assert(!same_slot(r[f2], g, n));
            }
        }
        assert(r.update(e, b) =~= s.push(b));
    }
}

/// Where some attachment sits in the slot, a first one does.
proof fn lemma_first_slot_exists(s: Seq<BindGroupAttachment>, group: u32, binding: u32, w: int)
    requires
        0 <= w < s.len(),
        same_slot(s[w], group, binding),
    ensures
        exists|i: int| is_first_slot(s, group, binding, i),
    decreases w,
{
    if exists|j: int| 0 <= j < w && same_slot(#[trigger] s[j], group, binding) {
        let j = choose|j: int| 0 <= j < w && same_slot(#[trigger] s[j], group, binding);
        lemma_first_slot_exists(s, group, binding, j);
    } else {
        assert(is_first_slot(s, group, binding, w));
    }
}

} // verus!
