//! The binary shader format: a magic tag, the shader kind, its entry point,
//! its bindings, its vertex input where it has one, and its SPIR-V code.
//! All integers are little-endian.
use vstd::prelude::*;
use vstd::slice::{slice_subrange, slice_to_vec};
use vstd::utf8::*;

use crate::shader_types::{
    bindings_view, input_view, BindingView, ReflectView, ShaderBindingInfo, ShaderBindingType, ShaderReflect, StorageAccess,
    VertexInputReflection, VertexInputType, VertexInputView, STORAGE_ALL, VertexDataKind, vertex_components,
    vertex_component_bytes, vertex_data_kind,
};

verus! {

/// A compiled shader together with its reflection data.
#[derive(Debug, Clone)]
pub struct BinaryShader {
    pub spirv: Vec<u8>,
    pub reflect: ShaderReflect,
}

/// A read position in a byte slice.
pub struct ShaderCursor<'a> {
    pub data: &'a [u8],
    pub pos: usize,
}

impl<'a> ShaderCursor<'a> {
    /// A cursor at the start of `data`.
    pub fn new(data: &'a [u8]) -> (r: ShaderCursor<'a>)
        ensures
            r.data@ == data@,
            r.pos == 0,
    {
        ShaderCursor { data, pos: 0 }
    }
}

// ---------------------------------------------------------------------------
// Numbers and messages
// ---------------------------------------------------------------------------

/// The value of four bytes read as a little-endian unsigned integer.
pub open spec fn le_u32_value(b: Seq<u8>) -> int {
    b[0] as int + b[1] as int * 0x100 + b[2] as int * 0x1_0000 + b[3] as int * 0x100_0000
}

/// The value of eight bytes read as a little-endian unsigned integer.
pub open spec fn le_u64_value(b: Seq<u8>) -> int {
    le_u32_value(b) + le_u32_value(b.subrange(4, 8)) * 0x1_0000_0000
}

/// The decimal digit `d` as a character.
pub open spec fn digit_char(d: nat) -> char {
    (48 + d) as char
}

/// The decimal representation of `n`, as `Display` writes it.
pub open spec fn decimal(n: nat) -> Seq<char>
    decreases n,
{
    if n < 10 {
        seq![digit_char(n)]
    } else {
        decimal(n / 10) + seq![digit_char(n % 10)]
    }
}

pub open spec fn msg_read_u32() -> Seq<char> {
    "Failed to read u32"@
}

pub open spec fn msg_read_u64() -> Seq<char> {
    "Failed to read u64"@
}

pub open spec fn msg_read_bytes() -> Seq<char> {
    "Failed to read bytes"@
}

pub open spec fn msg_invalid_utf8() -> Seq<char> {
    "Invalid UTF-8 string"@
}

pub open spec fn msg_read_magic() -> Seq<char> {
    "Failed to read magic"@
}

pub open spec fn msg_invalid_magic() -> Seq<char> {
    "Invalid shader magic"@
}

pub open spec fn msg_storage_access() -> Seq<char> {
    "Invalid storage access"@
}

pub open spec fn msg_storage_texture_access() -> Seq<char> {
    "Invalid storage texture access"@
}

pub open spec fn msg_entry_point_format() -> Seq<char> {
    "Invalid vertex/fragment entry point format"@
}

pub open spec fn msg_unknown_binding(t: u32) -> Seq<char> {
    "Unknown binding type ID: "@ + decimal(t as nat)
}

pub open spec fn msg_vertex_type(t: u32) -> Seq<char> {
    "Invalid vertex input type: "@ + decimal(t as nat)
}

pub open spec fn msg_unknown_shader(t: u32) -> Seq<char> {
    "Unknown shader type ID: "@ + decimal(t as nat)
}

/// Calls `byteorder_lite::LittleEndian::read_u32`, which reads the first four
/// bytes of `buf` as a little-endian `u32` and panics on fewer than four.
#[verifier::external_body]
pub(crate) fn le_read_u32(buf: &[u8]) -> (r: u32)
    requires
        buf@.len() >= 4,
    ensures
        r as int == le_u32_value(buf@),
{
    <byteorder_lite::LittleEndian as byteorder_lite::ByteOrder>::read_u32(buf)
}

/// Calls `byteorder_lite::LittleEndian::read_u64`, which reads the first eight
/// bytes of `buf` as a little-endian `u64` and panics on fewer than eight.
#[verifier::external_body]
fn le_read_u64(buf: &[u8]) -> (r: u64)
    requires
        buf@.len() >= 8,
    ensures
        r as int == le_u64_value(buf@),
{
    <byteorder_lite::LittleEndian as byteorder_lite::ByteOrder>::read_u64(buf)
}

/// Calls `String::from_utf8`, which, as std documents, succeeds exactly on
/// valid UTF-8 and then holds the characters that the bytes encode.
#[verifier::external_body]
pub(crate) fn string_from_utf8(bytes: Vec<u8>) -> (r: Option<String>)
    ensures
        r is Some <==> valid_utf8(bytes@),
        r matches Some(s) ==> s@ == decode_utf8(bytes@),
{
    String::from_utf8(bytes).ok()
}

/// The one-character string of the digit `d`.
fn digit_str(d: u64) -> (r: &'static str)
    requires
        d < 10,
    ensures
        r@ == seq![digit_char(d as nat)],
{
    proof {
        reveal_strlit("0");
        reveal_strlit("1");
        reveal_strlit("2");
        reveal_strlit("3");
        reveal_strlit("4");
        reveal_strlit("5");
        reveal_strlit("6");
        reveal_strlit("7");
        reveal_strlit("8");
        reveal_strlit("9");
    }
    match d {
        0 => "0",
        1 => "1",
        2 => "2",
        3 => "3",
        4 => "4",
        5 => "5",
        6 => "6",
        7 => "7",
        8 => "8",
        _ => "9",
    }
}

/// Appends `n` in decimal to `s`.
pub fn push_decimal(s: &mut String, n: u64)
    ensures
        final(s)@ == old(s)@ + decimal(n as nat),
    decreases n,
{
    if n >= 10 {
        push_decimal(s, n / 10);
    }
    let d = digit_str(n % 10);
    s.append(d);
    proof {
        if n >= 10 {
            assert(decimal(n as nat) == decimal((n / 10) as nat) + seq![digit_char((n % 10) as nat)]);
            assert(s@ =~= old(s)@ + decimal(n as nat));
        } else {
            assert(s@ =~= old(s)@ + decimal(n as nat));
        }
    }
}

/// `prefix` followed by `n` in decimal.
fn message_with_number(prefix: &str, n: u32) -> (r: String)
    ensures
        r@ == prefix@ + decimal(n as nat),
{
    let mut s = prefix.to_owned();
    push_decimal(&mut s, n as u64);
    s
}

// ---------------------------------------------------------------------------
// The format, as a specification
// ---------------------------------------------------------------------------

/// The `n` bytes at `p`, if they are there.
pub open spec fn spec_take(d: Seq<u8>, p: int, n: int) -> Option<Seq<u8>> {
    if 0 <= p && 0 <= n && p + n <= d.len() {
        Some(d.subrange(p, p + n))
    } else {
        None
    }
}

pub open spec fn sp_u32(d: Seq<u8>, p: int) -> Result<(u32, int), Seq<char>> {
    match spec_take(d, p, 4) {
        Some(b) => Ok((le_u32_value(b) as u32, p + 4)),
        None => Err(msg_read_u32()),
    }
}

pub open spec fn sp_u64(d: Seq<u8>, p: int) -> Result<(u64, int), Seq<char>> {
    match spec_take(d, p, 8) {
        Some(b) => Ok((le_u64_value(b) as u64, p + 8)),
        None => Err(msg_read_u64()),
    }
}

pub open spec fn sp_bytes(d: Seq<u8>, p: int, n: int) -> Result<(Seq<u8>, int), Seq<char>> {
    match spec_take(d, p, n) {
        Some(b) => Ok((b, p + n)),
        None => Err(msg_read_bytes()),
    }
}

pub open spec fn sp_string(d: Seq<u8>, p: int, n: int) -> Result<(Seq<char>, int), Seq<char>> {
    match sp_bytes(d, p, n) {
        Ok((b, q)) => if valid_utf8(b) {
            Ok((decode_utf8(b), q))
        } else {
            Err(msg_invalid_utf8())
        },
        Err(e) => Err(e),
    }
}

/// A string stored as its byte length followed by its UTF-8 bytes.
pub open spec fn sp_sized_string(d: Seq<u8>, p: int) -> Result<(Seq<char>, int), Seq<char>> {
    match sp_u32(d, p) {
        Ok((n, q)) => sp_string(d, q, n as int),
        Err(e) => Err(e),
    }
}

/// Storage access flags stored as a `u32`.
pub open spec fn sp_access(d: Seq<u8>, p: int, msg: Seq<char>) -> Result<(StorageAccess, int), Seq<char>> {
    match sp_u32(d, p) {
        Ok((a, q)) => if a <= STORAGE_ALL {
            Ok((StorageAccess { bits: a }, q))
        } else {
            Err(msg)
        },
        Err(e) => Err(e),
    }
}

/// A binding kind: a type id, then what that kind carries.
pub open spec fn sp_binding_type(d: Seq<u8>, p: int) -> Result<(ShaderBindingType, int), Seq<char>> {
    match sp_u32(d, p) {
        Err(e) => Err(e),
        Ok((t, q)) => if t == 0 {
            match sp_u32(d, q) {
                Ok((s, r)) => Ok((ShaderBindingType::UniformBuffer(s), r)),
                Err(e) => Err(e),
            }
        } else if t == 1 {
            match sp_u32(d, q) {
                Ok((s, r)) => match sp_access(d, r, msg_storage_access()) {
                    Ok((a, r2)) => Ok((ShaderBindingType::StorageBuffer(s, a), r2)),
                    Err(e) => Err(e),
                },
                Err(e) => Err(e),
            }
        } else if t == 2 {
            match sp_access(d, q, msg_storage_texture_access()) {
                Ok((a, r)) => Ok((ShaderBindingType::StorageTexture(a), r)),
                Err(e) => Err(e),
            }
        } else if t == 3 {
            match sp_u32(d, q) {
                Ok((v, r)) => Ok((ShaderBindingType::Sampler(v != 0), r)),
                Err(e) => Err(e),
            }
        } else if t == 4 {
            match sp_u32(d, q) {
                Ok((v, r)) => Ok((ShaderBindingType::Texture(v != 0), r)),
                Err(e) => Err(e),
            }
        } else if t == 5 {
            match sp_u32(d, q) {
                Ok((s, r)) => Ok((ShaderBindingType::PushConstant(s), r)),
                Err(e) => Err(e),
            }
        } else {
            Err(msg_unknown_binding(t))
        },
    }
}

/// One binding: group, binding, name, kind.
pub open spec fn sp_binding(d: Seq<u8>, p: int) -> Result<(BindingView, int), Seq<char>> {
    match sp_u32(d, p) {
        Err(e) => Err(e),
        Ok((group, q1)) => match sp_u32(d, q1) {
            Err(e) => Err(e),
            Ok((binding, q2)) => match sp_sized_string(d, q2) {
                Err(e) => Err(e),
                Ok((name, q3)) => match sp_binding_type(d, q3) {
                    Err(e) => Err(e),
                    Ok((ty, q4)) => Ok((BindingView { binding, group, name, ty }, q4)),
                },
            },
        },
    }
}

/// `n` bindings, one after the other.
pub open spec fn sp_bindings(d: Seq<u8>, p: int, n: nat) -> Result<(Seq<BindingView>, int), Seq<char>>
    decreases n,
{
    if n == 0 {
        Ok((Seq::empty(), p))
    } else {
        match sp_bindings(d, p, (n - 1) as nat) {
            Err(e) => Err(e),
            Ok((bs, q)) => match sp_binding(d, q) {
                Err(e) => Err(e),
                Ok((b, r)) => Ok((bs.push(b), r)),
            },
        }
    }
}

/// The vertex attribute format that a type id stands for.
pub open spec fn vertex_type_of_id(id: u32) -> Option<VertexInputType> {
    if id == 0 {
        Some(VertexInputType::Float32)
    } else if id == 1 {
        Some(VertexInputType::Float32x2)
    } else if id == 2 {
        Some(VertexInputType::Float32x3)
    } else if id == 3 {
        Some(VertexInputType::Float32x4)
    } else if id == 4 {
        Some(VertexInputType::Sint32)
    } else if id == 5 {
        Some(VertexInputType::Sint32x2)
    } else if id == 6 {
        Some(VertexInputType::Sint32x3)
    } else if id == 7 {
        Some(VertexInputType::Sint32x4)
    } else if id == 8 {
        Some(VertexInputType::Uint32)
    } else if id == 9 {
        Some(VertexInputType::Uint32x2)
    } else if id == 10 {
        Some(VertexInputType::Uint32x3)
    } else if id == 11 {
        Some(VertexInputType::Uint32x4)
    } else {
        None
    }
}

/// The attribute type ids run over the 32-bit formats in a fixed order:
/// ids 0 to 3 are floats, 4 to 7 signed and 8 to 11 unsigned integers, and
/// within each four the id modulo 4, plus one, is the number of
/// components. Every id from 12 on stands for nothing. So distinct ids
/// stand for distinct formats.
pub proof fn lemma_vertex_type_ids(id: u32)
    ensures
        vertex_type_of_id(id) is Some <==> id < 12,
        vertex_type_of_id(id) matches Some(t) ==> {
            &&& vertex_components(t) == id % 4 + 1
            &&& vertex_component_bytes(t) == 4
            &&& vertex_data_kind(t) == if id < 4 {
                VertexDataKind::Float
            } else if id < 8 {
                VertexDataKind::Sint
            } else {
                VertexDataKind::Uint
            }
        },
{
}

/// Distinct attribute type ids stand for distinct formats.
pub proof fn lemma_vertex_type_ids_distinct(i: u32, j: u32)
    requires
        i != j,
        vertex_type_of_id(i) is Some,
    ensures
        vertex_type_of_id(i) != vertex_type_of_id(j),
{
    lemma_vertex_type_ids(i);
    lemma_vertex_type_ids(j);
}

/// One vertex attribute: location, offset, format id.
pub open spec fn sp_attribute(d: Seq<u8>, p: int) -> Result<((u32, u64, VertexInputType), int), Seq<char>> {
    match sp_u32(d, p) {
        Err(e) => Err(e),
        Ok((location, q1)) => match sp_u64(d, q1) {
            Err(e) => Err(e),
            Ok((offset, q2)) => match sp_u32(d, q2) {
                Err(e) => Err(e),
                Ok((id, q3)) => match vertex_type_of_id(id) {
                    Some(ty) => Ok(((location, offset, ty), q3)),
                    None => Err(msg_vertex_type(id)),
                },
            },
        },
    }
}

/// `n` vertex attributes, one after the other.
pub open spec fn sp_attributes(d: Seq<u8>, p: int, n: nat) -> Result<(Seq<(u32, u64, VertexInputType)>, int), Seq<char>>
    decreases n,
{
    if n == 0 {
        Ok((Seq::empty(), p))
    } else {
        match sp_attributes(d, p, (n - 1) as nat) {
            Err(e) => Err(e),
            Ok((xs, q)) => match sp_attribute(d, q) {
                Err(e) => Err(e),
                Ok((x, r)) => Ok((xs.push(x), r)),
            },
        }
    }
}

/// A vertex input: its name, its stride, its attributes.
pub open spec fn sp_vertex_input(d: Seq<u8>, p: int) -> Result<(VertexInputView, int), Seq<char>> {
    match sp_sized_string(d, p) {
        Err(e) => Err(e),
        Ok((name, q1)) => match sp_u32(d, q1) {
            Err(e) => Err(e),
            Ok((stride, q2)) => match sp_u32(d, q2) {
                Err(e) => Err(e),
                Ok((count, q3)) => match sp_attributes(d, q3, count as nat) {
                    Err(e) => Err(e),
                    Ok((attributes, q4)) => Ok(
                        (VertexInputView { name, stride: stride as u64, attributes }, q4),
                    ),
                },
            },
        },
    }
}

/// Whether `s` holds no comma.
pub open spec fn comma_free(s: Seq<char>) -> bool {
    forall|k: int| 0 <= k < s.len() ==> s[k] != ','
}

/// Whether the comma at `i` is the only one in `s`.
pub open spec fn only_comma_at(s: Seq<char>, i: int) -> bool {
    0 <= i < s.len() && s[i] == ',' && comma_free(s.take(i)) && comma_free(s.skip(i + 1))
}

/// The two parts of `s` around its one comma; `None` where `s` holds no
/// comma or more than one.
pub open spec fn split_pair(s: Seq<char>) -> Option<(Seq<char>, Seq<char>)> {
    if exists|i: int| only_comma_at(s, i) {
        let i = choose|i: int| only_comma_at(s, i);
        Some((s.take(i), s.skip(i + 1)))
    } else {
        None
    }
}

/// Byte `i` of the magic tag `est-binary-shader-v1`.
pub open spec fn magic_byte_at(i: int) -> u8 {
    if i == 0 { 101 } else if i == 1 { 115 } else if i == 2 { 116 } else if i == 3 { 45 }
    else if i == 4 { 98 } else if i == 5 { 105 } else if i == 6 { 110 } else if i == 7 { 97 }
    else if i == 8 { 114 } else if i == 9 { 121 } else if i == 10 { 45 } else if i == 11 { 115 }
    else if i == 12 { 104 } else if i == 13 { 97 } else if i == 14 { 100 } else if i == 15 { 101 }
    else if i == 16 { 114 } else if i == 17 { 45 } else if i == 18 { 118 } else { 49 }
}

/// The magic tag that starts every binary shader: `est-binary-shader-v1`.
pub open spec fn shader_magic() -> Seq<u8> {
    Seq::new(20, |i: int| magic_byte_at(i))
}

/// Header: magic, shader kind, entry point and bindings.
pub open spec fn sp_header(d: Seq<u8>) -> Result<((u32, Seq<char>, Seq<BindingView>), int), Seq<char>> {
    match spec_take(d, 0, 20) {
        None => Err(msg_read_magic()),
        Some(m) => if m != shader_magic() {
            Err(msg_invalid_magic())
        } else {
            match sp_u32(d, 20) {
                Err(e) => Err(e),
                Ok((kind, q1)) => match sp_sized_string(d, q1) {
                    Err(e) => Err(e),
                    Ok((entry, q2)) => match sp_u32(d, q2) {
                        Err(e) => Err(e),
                        Ok((count, q3)) => match sp_bindings(d, q3, count as nat) {
                            Err(e) => Err(e),
                            Ok((bindings, q4)) => Ok(((kind, entry, bindings), q4)),
                        },
                    },
                },
            }
        },
    }
}

/// The vertex input, read only for the kinds with a vertex stage.
pub open spec fn sp_optional_input(d: Seq<u8>, p: int, kind: u32) -> Result<(Option<VertexInputView>, int), Seq<char>> {
    if kind == 0 || kind == 2 {
        match sp_vertex_input(d, p) {
            Ok((v, q)) => Ok((Some(v), q)),
            Err(e) => Err(e),
        }
    } else {
        Ok((None, p))
    }
}

/// The reflection that a kind, entry point, input and bindings make.
pub open spec fn sp_reflect(kind: u32, entry: Seq<char>, input: Option<VertexInputView>, bindings: Seq<BindingView>) -> Result<ReflectView, Seq<char>> {
    if kind == 0 {
        Ok(ReflectView::Vertex { entry_point: entry, input, bindings })
    } else if kind == 1 {
        Ok(ReflectView::Fragment { entry_point: entry, bindings })
    } else if kind == 2 {
        match split_pair(entry) {
            Some((v, f)) => Ok(
                ReflectView::VertexFragment {
                    vertex_entry_point: v,
                    vertex_input: input,
                    fragment_entry_point: f,
                    bindings,
                },
            ),
            None => Err(msg_entry_point_format()),
        }
    } else if kind == 3 {
        Ok(ReflectView::Compute { entry_point: entry, bindings })
    } else {
        Err(msg_unknown_shader(kind))
    }
}

/// What `load_binary_shader` makes of the bytes `d`: the SPIR-V code and the
/// reflection, or the message of the first fault.
pub open spec fn sp_shader(d: Seq<u8>) -> Result<(Seq<u8>, ReflectView), Seq<char>> {
    match sp_header(d) {
        Err(e) => Err(e),
        Ok(((kind, entry, bindings), q1)) => match sp_optional_input(d, q1, kind) {
            Err(e) => Err(e),
            Ok((input, q2)) => match sp_reflect(kind, entry, input, bindings) {
                Err(e) => Err(e),
                Ok(reflect) => match sp_u32(d, q2) {
                    Err(e) => Err(e),
                    Ok((n, q3)) => match sp_bytes(d, q3, n as int) {
                        Err(e) => Err(e),
                        Ok((spirv, _)) => Ok((spirv, reflect)),
                    },
                },
            },
        },
    }
}

// ---------------------------------------------------------------------------
// Readers
// ---------------------------------------------------------------------------

/// Reads a little-endian `u32` at the cursor and moves past it; fails with
/// "Failed to read u32", leaving the cursor where it was, where fewer than
/// four bytes are left.
pub fn read_u32(cursor: &mut ShaderCursor) -> (res: Result<u32, String>)
    ensures
        final(cursor).data@ == old(cursor).data@,
        match sp_u32(old(cursor).data@, old(cursor).pos as int) {
            Ok((v, q)) => res == Ok::<u32, String>(v) && final(cursor).pos == q,
            Err(m) => res matches Err(e) && e@ == m && final(cursor).pos == old(cursor).pos,
        },
{
    let len = cursor.data.len();
    if cursor.pos <= len && len - cursor.pos >= 4 {
        let b = slice_subrange(cursor.data, cursor.pos, cursor.pos + 4);
        let v = le_read_u32(b);
        cursor.pos = cursor.pos + 4;
        Ok(v)
    } else {
        Err("Failed to read u32".to_owned())
    }
}

/// Reads a little-endian `u64` at the cursor and moves past it; fails with
/// "Failed to read u64", leaving the cursor where it was, where fewer than
/// eight bytes are left.
pub fn read_u64(cursor: &mut ShaderCursor) -> (res: Result<u64, String>)
    ensures
        final(cursor).data@ == old(cursor).data@,
        match sp_u64(old(cursor).data@, old(cursor).pos as int) {
            Ok((v, q)) => res == Ok::<u64, String>(v) && final(cursor).pos == q,
            Err(m) => res matches Err(e) && e@ == m && final(cursor).pos == old(cursor).pos,
        },
{
    let len = cursor.data.len();
    if cursor.pos <= len && len - cursor.pos >= 8 {
        let b = slice_subrange(cursor.data, cursor.pos, cursor.pos + 8);
        let v = le_read_u64(b);
        proof {
            assert(b@.subrange(4, 8) =~= cursor.data@.subrange(cursor.pos + 4, cursor.pos + 8));
        }
        cursor.pos = cursor.pos + 8;
        Ok(v)
    } else {
        Err("Failed to read u64".to_owned())
    }
}

/// Reads the next `len` bytes and moves past them; fails with "Failed to
/// read bytes", leaving the cursor where it was, where fewer are left.
pub fn read_bytes(cursor: &mut ShaderCursor, len: usize) -> (res: Result<Vec<u8>, String>)
    ensures
        final(cursor).data@ == old(cursor).data@,
        match sp_bytes(old(cursor).data@, old(cursor).pos as int, len as int) {
            Ok((b, q)) => res matches Ok(v) && v@ == b && final(cursor).pos == q,
            Err(m) => res matches Err(e) && e@ == m && final(cursor).pos == old(cursor).pos,
        },
{
    let total = cursor.data.len();
    if cursor.pos <= total && total - cursor.pos >= len {
        let b = slice_subrange(cursor.data, cursor.pos, cursor.pos + len);
        let v = slice_to_vec(b);
        cursor.pos = cursor.pos + len;
        Ok(v)
    } else {
        Err("Failed to read bytes".to_owned())
    }
}

/// Reads the next `len` bytes as a UTF-8 string and moves past them. Fails
/// as [`read_bytes`] does where fewer bytes are left, and with "Invalid
/// UTF-8 string", past the bytes, where they are not valid UTF-8.
pub fn read_utf8_string(cursor: &mut ShaderCursor, len: usize) -> (res: Result<String, String>)
    ensures
        final(cursor).data@ == old(cursor).data@,
        final(cursor).pos == match sp_bytes(old(cursor).data@, old(cursor).pos as int, len as int) {
            Ok((_, q)) => q,
            Err(_) => old(cursor).pos as int,
        },
        match sp_string(old(cursor).data@, old(cursor).pos as int, len as int) {
            Ok((s, _)) => res matches Ok(r) && r@ == s,
            Err(m) => res matches Err(e) && e@ == m,
        },
{
    let bytes = match read_bytes(cursor, len) {
        Ok(b) => b,
        Err(e) => return Err(e),
    };
    match string_from_utf8(bytes) {
        Some(s) => Ok(s),
        None => Err("Invalid UTF-8 string".to_owned()),
    }
}

fn read_sized_string(cursor: &mut ShaderCursor) -> (res: Result<String, String>)
    ensures
        final(cursor).data@ == old(cursor).data@,
        match sp_sized_string(old(cursor).data@, old(cursor).pos as int) {
            Ok((s, q)) => res matches Ok(r) && r@ == s && final(cursor).pos == q,
            Err(m) => res matches Err(e) && e@ == m,
        },
{
    let n = match read_u32(cursor) {
        Ok(v) => v,
        Err(e) => return Err(e),
    };
    read_utf8_string(cursor, n as usize)
}

fn read_access(cursor: &mut ShaderCursor, msg: &str) -> (res: Result<StorageAccess, String>)
    ensures
        final(cursor).data@ == old(cursor).data@,
        match sp_access(old(cursor).data@, old(cursor).pos as int, msg@) {
            Ok((a, q)) => res == Ok::<StorageAccess, String>(a) && final(cursor).pos == q,
            Err(m) => res matches Err(e) && e@ == m,
        },
{
    let bits = match read_u32(cursor) {
        Ok(v) => v,
        Err(e) => return Err(e),
    };
    match StorageAccess::from_bits(bits) {
        Some(a) => Ok(a),
        None => Err(msg.to_owned()),
    }
}

fn read_binding_type(cursor: &mut ShaderCursor) -> (res: Result<ShaderBindingType, String>)
    ensures
        final(cursor).data@ == old(cursor).data@,
        match sp_binding_type(old(cursor).data@, old(cursor).pos as int) {
            Ok((t, q)) => res == Ok::<ShaderBindingType, String>(t) && final(cursor).pos == q,
            Err(m) => res matches Err(e) && e@ == m,
        },
{
    let t = match read_u32(cursor) {
        Ok(v) => v,
        Err(e) => return Err(e),
    };
    if t == 0 {
        match read_u32(cursor) {
            Ok(s) => Ok(ShaderBindingType::UniformBuffer(s)),
            Err(e) => Err(e),
        }
    } else if t == 1 {
        let s = match read_u32(cursor) {
            Ok(v) => v,
            Err(e) => return Err(e),
        };
        match read_access(cursor, "Invalid storage access") {
            Ok(a) => Ok(ShaderBindingType::StorageBuffer(s, a)),
            Err(e) => Err(e),
        }
    } else if t == 2 {
        match read_access(cursor, "Invalid storage texture access") {
            Ok(a) => Ok(ShaderBindingType::StorageTexture(a)),
            Err(e) => Err(e),
        }
    } else if t == 3 {
        match read_u32(cursor) {
            Ok(v) => Ok(ShaderBindingType::Sampler(v != 0)),
            Err(e) => Err(e),
        }
    } else if t == 4 {
        match read_u32(cursor) {
            Ok(v) => Ok(ShaderBindingType::Texture(v != 0)),
            Err(e) => Err(e),
        }
    } else if t == 5 {
        match read_u32(cursor) {
            Ok(s) => Ok(ShaderBindingType::PushConstant(s)),
            Err(e) => Err(e),
        }
    } else {
        Err(message_with_number("Unknown binding type ID: ", t))
    }
}

fn read_binding(cursor: &mut ShaderCursor) -> (res: Result<ShaderBindingInfo, String>)
    ensures
        final(cursor).data@ == old(cursor).data@,
        match sp_binding(old(cursor).data@, old(cursor).pos as int) {
            Ok((b, q)) => res matches Ok(r) && r@ == b && final(cursor).pos == q,
            Err(m) => res matches Err(e) && e@ == m,
        },
{
    let group = match read_u32(cursor) {
        Ok(v) => v,
        Err(e) => return Err(e),
    };
    let binding = match read_u32(cursor) {
        Ok(v) => v,
        Err(e) => return Err(e),
    };
    let name = match read_sized_string(cursor) {
        Ok(v) => v,
        Err(e) => return Err(e),
    };
    let ty = match read_binding_type(cursor) {
        Ok(v) => v,
        Err(e) => return Err(e),
    };
    Ok(ShaderBindingInfo { binding, group, name, ty })
}

/// Once `k` bindings fail to read, so do any more of them, with the same
/// message.
proof fn lemma_bindings_error_stays(d: Seq<u8>, p: int, k: nat, n: nat)
    requires
        k <= n,
        sp_bindings(d, p, k) is Err,
    ensures
        sp_bindings(d, p, n) == sp_bindings(d, p, k),
    decreases n - k,
{
    if k < n {
        lemma_bindings_error_stays(d, p, k, (n - 1) as nat);
    }
}

/// Once `k` attributes fail to read, so do any more of them, with the same
/// message.
proof fn lemma_attributes_error_stays(d: Seq<u8>, p: int, k: nat, n: nat)
    requires
        k <= n,
        sp_attributes(d, p, k) is Err,
    ensures
        sp_attributes(d, p, n) == sp_attributes(d, p, k),
    decreases n - k,
{
    if k < n {
        lemma_attributes_error_stays(d, p, k, (n - 1) as nat);
    }
}

fn read_bindings(cursor: &mut ShaderCursor, count: u32) -> (res: Result<Vec<ShaderBindingInfo>, String>)
    ensures
        final(cursor).data@ == old(cursor).data@,
        match sp_bindings(old(cursor).data@, old(cursor).pos as int, count as nat) {
            Ok((bs, q)) => res matches Ok(v) && bindings_view(v@) == bs && final(cursor).pos == q,
            Err(m) => res matches Err(e) && e@ == m,
        },
{
    let ghost d = cursor.data@;
    let ghost p = cursor.pos as int;
    let mut bindings: Vec<ShaderBindingInfo> = Vec::new();
    assert(bindings_view(bindings@) =~= Seq::<BindingView>::empty());
    let mut i: u32 = 0;
    while i < count
        invariant
            cursor.data@ == d,
            d == old(cursor).data@,
            p == old(cursor).pos as int,
            i <= count,
            sp_bindings(d, p, i as nat) == Ok::<(Seq<BindingView>, int), Seq<char>>(
                (bindings_view(bindings@), cursor.pos as int),
            ),
        decreases count - i,
    {
        let b = match read_binding(cursor) {
            Ok(b) => b,
            Err(e) => {
                proof {
                    lemma_bindings_error_stays(d, p, (i + 1) as nat, count as nat);
                }
                return Err(e);
            },
        };
        let ghost before = bindings@;
        bindings.push(b);
        proof {
            assert(bindings_view(bindings@) =~= bindings_view(before).push(b@));
        }
        i = i + 1;
    }
    Ok(bindings)
}

fn read_vertex_type(id: u32) -> (r: Option<VertexInputType>)
    ensures
        r == vertex_type_of_id(id),
{
    if id == 0 {
        Some(VertexInputType::Float32)
    } else if id == 1 {
        Some(VertexInputType::Float32x2)
    } else if id == 2 {
        Some(VertexInputType::Float32x3)
    } else if id == 3 {
        Some(VertexInputType::Float32x4)
    } else if id == 4 {
        Some(VertexInputType::Sint32)
    } else if id == 5 {
        Some(VertexInputType::Sint32x2)
    } else if id == 6 {
        Some(VertexInputType::Sint32x3)
    } else if id == 7 {
        Some(VertexInputType::Sint32x4)
    } else if id == 8 {
        Some(VertexInputType::Uint32)
    } else if id == 9 {
        Some(VertexInputType::Uint32x2)
    } else if id == 10 {
        Some(VertexInputType::Uint32x3)
    } else if id == 11 {
        Some(VertexInputType::Uint32x4)
    } else {
        None
    }
}

fn read_attribute(cursor: &mut ShaderCursor) -> (res: Result<(u32, u64, VertexInputType), String>)
    ensures
        final(cursor).data@ == old(cursor).data@,
        match sp_attribute(old(cursor).data@, old(cursor).pos as int) {
            Ok((a, q)) => res == Ok::<(u32, u64, VertexInputType), String>(a) && final(cursor).pos == q,
            Err(m) => res matches Err(e) && e@ == m,
        },
{
    let location = match read_u32(cursor) {
        Ok(v) => v,
        Err(e) => return Err(e),
    };
    let offset = match read_u64(cursor) {
        Ok(v) => v,
        Err(e) => return Err(e),
    };
    let id = match read_u32(cursor) {
        Ok(v) => v,
        Err(e) => return Err(e),
    };
    match read_vertex_type(id) {
        Some(ty) => Ok((location, offset, ty)),
        None => Err(message_with_number("Invalid vertex input type: ", id)),
    }
}

fn read_attributes(cursor: &mut ShaderCursor, count: u32) -> (res: Result<Vec<(u32, u64, VertexInputType)>, String>)
    ensures
        final(cursor).data@ == old(cursor).data@,
        match sp_attributes(old(cursor).data@, old(cursor).pos as int, count as nat) {
            Ok((xs, q)) => res matches Ok(v) && v@ == xs && final(cursor).pos == q,
            Err(m) => res matches Err(e) && e@ == m,
        },
{
    let ghost d = cursor.data@;
    let ghost p = cursor.pos as int;
    let mut attributes: Vec<(u32, u64, VertexInputType)> = Vec::new();
    let mut i: u32 = 0;
    while i < count
        invariant
            cursor.data@ == d,
            d == old(cursor).data@,
            p == old(cursor).pos as int,
            i <= count,
            sp_attributes(d, p, i as nat) == Ok::<(Seq<(u32, u64, VertexInputType)>, int), Seq<char>>(
                (attributes@, cursor.pos as int),
            ),
        decreases count - i,
    {
        let a = match read_attribute(cursor) {
            Ok(a) => a,
            Err(e) => {
                proof {
                    lemma_attributes_error_stays(d, p, (i + 1) as nat, count as nat);
                }
                return Err(e);
            },
        };
        attributes.push(a);
        i = i + 1;
    }
    Ok(attributes)
}

fn read_vertex_input(cursor: &mut ShaderCursor) -> (res: Result<VertexInputReflection, String>)
    ensures
        final(cursor).data@ == old(cursor).data@,
        match sp_vertex_input(old(cursor).data@, old(cursor).pos as int) {
            Ok((v, q)) => res matches Ok(r) && r@ == v && final(cursor).pos == q,
            Err(m) => res matches Err(e) && e@ == m,
        },
{
    let name = match read_sized_string(cursor) {
        Ok(v) => v,
        Err(e) => return Err(e),
    };
    let stride = match read_u32(cursor) {
        Ok(v) => v,
        Err(e) => return Err(e),
    };
    let count = match read_u32(cursor) {
        Ok(v) => v,
        Err(e) => return Err(e),
    };
    let attributes = match read_attributes(cursor, count) {
        Ok(v) => v,
        Err(e) => return Err(e),
    };
    Ok(VertexInputReflection { name, stride: stride as u64, attributes })
}

fn magic_byte(i: usize) -> (b: u8)
    requires
        i < 20,
    ensures
        b == magic_byte_at(i as int),
{
    if i == 0 { 101 } else if i == 1 { 115 } else if i == 2 { 116 } else if i == 3 { 45 }
    else if i == 4 { 98 } else if i == 5 { 105 } else if i == 6 { 110 } else if i == 7 { 97 }
    else if i == 8 { 114 } else if i == 9 { 121 } else if i == 10 { 45 } else if i == 11 { 115 }
    else if i == 12 { 104 } else if i == 13 { 97 } else if i == 14 { 100 } else if i == 15 { 101 }
    else if i == 16 { 114 } else if i == 17 { 45 } else if i == 18 { 118 } else { 49 }
}

fn check_magic(data: &[u8]) -> (res: Result<(), String>)
    ensures
        match spec_take(data@, 0, 20) {
            None => res matches Err(e) && e@ == msg_read_magic(),
            Some(m) => if m != shader_magic() {
                res matches Err(e) && e@ == msg_invalid_magic()
            } else {
                res is Ok
            },
        },
{
    if data.len() < 20 {
        return Err("Failed to read magic".to_owned());
    }
    let mut i: usize = 0;
    while i < 20
        invariant
            data@.len() >= 20,
            i <= 20,
            forall|k: int| 0 <= k < i ==> data@[k] == magic_byte_at(k),
        decreases 20 - i,
    {
        if data[i] != magic_byte(i) {
            proof {
                assert(data@.subrange(0, 20)[i as int] != shader_magic()[i as int]);
            }
            return Err("Invalid shader magic".to_owned());
        }
        i = i + 1;
    }
    assert(data@.subrange(0, 20) =~= shader_magic());
    Ok(())
}

/// Where `s` holds commas at two places, it has no single comma.
proof fn lemma_two_commas(s: Seq<char>, a: int, b: int)
    requires
        0 <= a < s.len(),
        0 <= b < s.len(),
        a != b,
        s[a] == ',',
        s[b] == ',',
    ensures
        forall|k: int| !only_comma_at(s, k),
{
    assert forall|k: int| !only_comma_at(s, k) by {
        if 0 <= k < s.len() {
            let c = if k == a { b } else { a };
            if c < k {
                assert(s.take(k)[c] == ',');
            } else {
                assert(s.skip(k + 1)[c - k - 1] == ',');
            }
        }
    }
}

/// Splits an entry point list `vertex,fragment` at its one comma.
fn split_entry_points(s: &String) -> (r: Option<(String, String)>)
    ensures
        match split_pair(s@) {
            Some((a, b)) => r matches Some((x, y)) && x@ == a && y@ == b,
            None => r is None,
        },
{
    let st = s.as_str();
    let n = st.unicode_len();
    let mut found: Option<usize> = None;
    let mut i: usize = 0;
    while i < n
        invariant
            st@ == s@,
            n == s@.len(),
            i <= n,
            found is None ==> comma_free(s@.take(i as int)),
            found matches Some(j) ==> j < i && s@[j as int] == ',' && comma_free(s@.take(j as int))
                && (forall|k: int| j < k < i ==> s@[k] != ','),
        decreases n - i,
    {
        let c = st.get_char(i);
        if c == ',' {
            match found {
                Some(j) => {
                    proof {
                        lemma_two_commas(s@, j as int, i as int);
                    }
                    return None;
                },
                None => {
                    proof {
                        assert(s@.take(i as int) =~= s@.take((i + 1) as int).take(i as int));
                    }
                    found = Some(i);
                },
            }
        } else {
            proof {
                if found is None {
                    assert forall|k: int| 0 <= k < i + 1 implies #[trigger] s@.take((i + 1) as int)[k] != ',' by {
                        if k < i {
                            assert(s@.take(i as int)[k] == s@[k]);
                        }
                    }
                }
            }
        }
        i = i + 1;
    }
    match found {
        None => {
            proof {
                assert(s@.take(n as int) =~= s@);
                if exists|k: int| only_comma_at(s@, k) {
                    let k = choose|k: int| only_comma_at(s@, k);
                    assert(s@.take(n as int)[k] == ',');
                }
            }
            None
        },
        Some(j) => {
            let first = st.substring_char(0, j).to_owned();
            let second = st.substring_char(j + 1, n).to_owned();
            proof {
                assert forall|k: int| 0 <= k < s@.skip(j + 1).len() implies #[trigger] s@.skip(j + 1)[k] != ',' by {
                    assert(s@.skip(j + 1)[k] == s@[j + 1 + k]);
                }
                assert(only_comma_at(s@, j as int));
                let k = choose|k: int| only_comma_at(s@, k);
                if k != j {
                    lemma_two_commas(s@, j as int, k);
                }
                assert(s@.subrange(0, j as int) =~= s@.take(j as int));
                assert(s@.subrange(j + 1, n as int) =~= s@.skip(j + 1));
            }
            Some((first, second))
        },
    }
}

fn build_reflect(
    kind: u32,
    entry: String,
    input: Option<VertexInputReflection>,
    bindings: Vec<ShaderBindingInfo>,
) -> (res: Result<ShaderReflect, String>)
    ensures
        match sp_reflect(kind, entry@, input_view(input), bindings_view(bindings@)) {
            Ok(r) => res matches Ok(x) && x@ == r,
            Err(m) => res matches Err(e) && e@ == m,
        },
{
    if kind == 0 {
        Ok(ShaderReflect::Vertex { entry_point: entry, input, bindings })
    } else if kind == 1 {
        Ok(ShaderReflect::Fragment { entry_point: entry, bindings })
    } else if kind == 2 {
        match split_entry_points(&entry) {
            Some((v, f)) => Ok(
                ShaderReflect::VertexFragment {
                    vertex_entry_point: v,
                    vertex_input: input,
                    fragment_entry_point: f,
                    bindings,
                },
            ),
            None => Err("Invalid vertex/fragment entry point format".to_owned()),
        }
    } else if kind == 3 {
        Ok(ShaderReflect::Compute { entry_point: entry, bindings })
    } else {
        Err(message_with_number("Unknown shader type ID: ", kind))
    }
}

/// Loads a binary shader: the magic tag, the shader kind (0 vertex,
/// 1 fragment, 2 vertex and fragment, 3 compute), the entry point (for kind 2
/// the two entry points joined by one comma), the bindings, the vertex input
/// for kinds 0 and 2, and the SPIR-V code. The result is exactly
/// [`sp_shader`] of the bytes; each fault gives the message stated there.
pub fn load_binary_shader(data: &[u8]) -> (res: Result<BinaryShader, String>)
    ensures
        match sp_shader(data@) {
            Ok((spirv, reflect)) => res matches Ok(s) && s.spirv@ == spirv && s.reflect@ == reflect,
            Err(m) => res matches Err(e) && e@ == m,
        },
{
    match check_magic(data) {
        Ok(()) => {},
        Err(e) => return Err(e),
    }
    let mut cursor = ShaderCursor::new(data);
    cursor.pos = 20;
    let kind = match read_u32(&mut cursor) {
        Ok(v) => v,
        Err(e) => return Err(e),
    };
    let entry = match read_sized_string(&mut cursor) {
        Ok(v) => v,
        Err(e) => return Err(e),
    };
    let count = match read_u32(&mut cursor) {
        Ok(v) => v,
        Err(e) => return Err(e),
    };
    let bindings = match read_bindings(&mut cursor, count) {
        Ok(v) => v,
        Err(e) => return Err(e),
    };
    let input = if kind == 0 || kind == 2 {
        match read_vertex_input(&mut cursor) {
            Ok(v) => Some(v),
            Err(e) => return Err(e),
        }
    } else {
        None
    };
    let reflect = match build_reflect(kind, entry, input, bindings) {
        Ok(r) => r,
        Err(e) => return Err(e),
    };
    let n = match read_u32(&mut cursor) {
        Ok(v) => v,
        Err(e) => return Err(e),
    };
    let spirv = match read_bytes(&mut cursor, n as usize) {
        Ok(v) => v,
        Err(e) => return Err(e),
    };
    Ok(BinaryShader { spirv, reflect })
}

} // verus!
