//! GPU buffers: usage flags, what building a buffer comes to, resizing of
//! contents, alignment of uploads, and mapping.
use vstd::prelude::*;

verus! {

/// Usage flags of a buffer, with the bits of the GPU API: `MAP_READ` (1),
/// `MAP_WRITE` (2), `COPY_SRC` (4), `COPY_DST` (8), `INDEX` (0x10),
/// `VERTEX` (0x20), `UNIFORM` (0x40), `STORAGE` (0x80), `INDIRECT` (0x100),
/// `QUERY_RESOLVE` (0x200).
#[derive(Debug, Clone, Copy, PartialEq, Eq, Hash, Structural)]
pub struct BufferUsage {
    pub bits: u32,
}

/// The same flags under their other name.
pub type BufferUsages = BufferUsage;

pub const BUFFER_MAP_READ: u32 = 0x0001;
pub const BUFFER_MAP_WRITE: u32 = 0x0002;
pub const BUFFER_COPY_SRC: u32 = 0x0004;
pub const BUFFER_COPY_DST: u32 = 0x0008;
pub const BUFFER_INDEX: u32 = 0x0010;
pub const BUFFER_VERTEX: u32 = 0x0020;
pub const BUFFER_UNIFORM: u32 = 0x0040;
pub const BUFFER_STORAGE: u32 = 0x0080;
pub const BUFFER_INDIRECT: u32 = 0x0100;
pub const BUFFER_QUERY_RESOLVE: u32 = 0x0200;
/// Every defined buffer usage bit.
pub const BUFFER_ALL: u32 = 0x03FF;

impl BufferUsage {
    /// No usage.
    pub fn empty() -> (r: BufferUsage)
        ensures
            r.bits == 0,
    {
        BufferUsage { bits: 0 }
    }

    /// The flags with these bits; `None` where a bit names no flag.
    pub fn from_bits(bits: u32) -> (r: Option<BufferUsage>)
        ensures
            r is Some <==> bits & !BUFFER_ALL == 0,
            r matches Some(u) ==> u.bits == bits,
    {
        if bits & !BUFFER_ALL == 0 {
            Some(BufferUsage { bits })
        } else {
            None
        }
    }

    /// Whether every bit of `other` is set in `self`.
    pub fn contains(&self, other: BufferUsage) -> (r: bool)
        ensures
            r == (self.bits & other.bits == other.bits),
    {
        self.bits & other.bits == other.bits
    }

    /// The bits of `self` and of `other`.
    pub fn union(&self, other: BufferUsage) -> (r: BufferUsage)
        ensures
            r.bits == self.bits | other.bits,
    {
        BufferUsage { bits: self.bits | other.bits }
    }
}

/// Why a buffer operation failed.
#[derive(Debug, Clone, Copy, PartialEq, Eq, Hash, Structural)]
pub enum BufferError {
    InvalidUsage,
    InvalidSize,
    BufferNotReadable,
    BufferNotWritable,
    FailedToMapBuffer,
}

/// Whether a mapped buffer is read or written.
#[derive(Debug, Clone, Copy, PartialEq, Eq, Hash, Structural)]
pub enum BufferMapMode {
    Read,
    Write,
}

/// The settings of a buffer to create: its contents or its length, its
/// usage and whether it starts mapped.
#[derive(Debug, Clone)]
pub struct BufferBuilder {
    pub data: Option<Vec<u8>>,
    pub len: usize,
    pub usage: BufferUsage,
    pub mapped: bool,
}

/// What creating a buffer comes to: its size, usage, whether it is mapped,
/// the contents to upload and the bytes of its mapping.
#[derive(Debug, Clone)]
pub struct BufferPlan {
    pub size: u64,
    pub usage: BufferUsage,
    pub mapped: bool,
    pub contents: Option<Vec<u8>>,
    pub mapped_buffer: Vec<u8>,
}

impl BufferBuilder {
    /// No contents, length 0, no usage, not mapped.
    pub fn new() -> (r: BufferBuilder)
        ensures
            r.data is None && r.len == 0 && r.usage.bits == 0 && !r.mapped,
    {
        BufferBuilder { data: None, len: 0, usage: BufferUsage::empty(), mapped: false }
    }

    /// A buffer of `len` bytes with no given contents.
    pub fn set_data_empty(self, len: usize) -> (r: BufferBuilder)
        ensures
            r.len == len && r.data == self.data && r.usage == self.usage && r.mapped == self.mapped,
    {
        BufferBuilder { len, ..self }
    }

    /// A buffer holding these bytes.
    pub fn set_data_vec(self, data: Vec<u8>) -> (r: BufferBuilder)
        ensures
            r.data matches Some(d) && d@ == data@,
            r.len == data@.len(),
            r.usage == self.usage && r.mapped == self.mapped,
    {
        let len = data.len();
        BufferBuilder { data: Some(data), len, ..self }
    }

    /// A buffer holding a copy of these bytes.
    pub fn set_data_slice(self, data: &[u8]) -> (r: BufferBuilder)
        ensures
            r.data matches Some(d) && d@ == data@,
            r.len == data@.len(),
            r.usage == self.usage && r.mapped == self.mapped,
    {
        let v = vstd::slice::slice_to_vec(data);
        let len = v.len();
        BufferBuilder { data: Some(v), len, ..self }
    }

    /// The usage flags.
    pub fn set_usage(self, usage: BufferUsage) -> (r: BufferBuilder)
        ensures
            r.usage == usage && r.len == self.len && r.data == self.data && r.mapped == self.mapped,
    {
        BufferBuilder { usage, ..self }
    }

    /// Whether the buffer starts mapped for writing.
    pub fn set_mapped(self, mapped: bool) -> (r: BufferBuilder)
        ensures
            r.mapped == mapped && r.len == self.len && r.data == self.data && r.usage == self.usage,
    {
        BufferBuilder { mapped, ..self }
    }

    /// What building comes to: without contents, a zeroed buffer of `len`
    /// bytes (mapped as that many zero bytes when mapped); with contents, a
    /// buffer of exactly those bytes (mapped as a copy of them when mapped).
    /// A buffer of no bytes fails with `InvalidSize`.
    pub fn build(self) -> (res: Result<BufferPlan, BufferError>)
        ensures
            match self.data {
                None => if self.len == 0 {
                    res == Err::<BufferPlan, BufferError>(BufferError::InvalidSize)
                } else {
                    res matches Ok(p) && p.size == self.len && p.usage == self.usage && p.mapped == self.mapped
                        && p.contents is None
                        && p.mapped_buffer@ == if self.mapped {
                            Seq::new(self.len as nat, |i: int| 0u8)
                        } else {
                            Seq::<u8>::empty()
                        }
                },
                Some(d) => if d@.len() == 0 {
                    res == Err::<BufferPlan, BufferError>(BufferError::InvalidSize)
                } else {
                    res matches Ok(p) && p.size == d@.len() && p.usage == self.usage && p.mapped == self.mapped
                        && p.contents == Some(d)
                        && p.mapped_buffer@ == if self.mapped { d@ } else { Seq::<u8>::empty() }
                },
            },
    {
        match self.data {
            None => {
                if self.len == 0 {
                    return Err(BufferError::InvalidSize);
                }
                let mapped_buffer = if self.mapped {
                    vec![0u8; self.len]
                } else {
                    Vec::new()
                };
                proof {
                    if self.mapped {
                        assert(mapped_buffer@ =~= Seq::new(self.len as nat, |i: int| 0u8));
                    }
                }
                Ok(BufferPlan { size: self.len as u64, usage: self.usage, mapped: self.mapped, contents: None, mapped_buffer })
            },
            Some(d) => {
                if d.len() == 0 {
                    return Err(BufferError::InvalidSize);
                }
                let mapped_buffer = if self.mapped {
                    vstd::slice::slice_to_vec(d.as_slice())
                } else {
                    Vec::new()
                };
                let size = d.len() as u64;
                Ok(BufferPlan { size, usage: self.usage, mapped: self.mapped, contents: Some(d), mapped_buffer })
            },
        }
    }
}

/// The contents of a buffer resized to `size` bytes: cut, or padded with
/// zeros.
pub open spec fn resized(old: Seq<u8>, size: int) -> Seq<u8> {
    Seq::new(size as nat, |i: int| if i < old.len() { old[i] } else { 0u8 })
}

/// The contents a resized buffer keeps: the old bytes cut to `size`, or
/// padded with zeros to it. A size of 0 fails with `InvalidSize`.
pub fn resize_contents(old: Vec<u8>, size: u64) -> (res: Result<Vec<u8>, BufferError>)
    requires
        size <= usize::MAX,
    ensures
        size == 0 ==> res == Err::<Vec<u8>, BufferError>(BufferError::InvalidSize),
        size != 0 ==> (res matches Ok(v) && v@ == resized(old@, size as int)),
{
    if size == 0 {
        return Err(BufferError::InvalidSize);
    }
    let mut data = old;
    let ghost o = data@;
    let n = size as usize;
    if data.len() < n {
        data.resize(n, 0u8);
    } else if data.len() > n {
        data.truncate(n);
    }
    assert(data@ =~= resized(o, size as int));
    Ok(data)
}

/// Whether a resized buffer keeps its contents: only a buffer that is both
/// a copy source and readable by mapping has them copied.
pub open spec fn keeps_contents(usage: BufferUsage) -> bool {
    usage.bits & BUFFER_COPY_SRC == BUFFER_COPY_SRC && usage.bits & BUFFER_MAP_READ == BUFFER_MAP_READ
}

/// Whether a buffer of this usage keeps its contents when resized.
pub fn resize_keeps_contents(usage: BufferUsage) -> (r: bool)
    ensures
        r == keeps_contents(usage),
{
    usage.contains(BufferUsage { bits: BUFFER_COPY_SRC }) && usage.contains(BufferUsage { bits: BUFFER_MAP_READ })
}

/// What resizing a buffer of this usage to `size` bytes creates: where the
/// usage keeps contents and they could be read back, the old contents cut
/// or padded with zeros to the new size; otherwise `None`, for a new empty
/// buffer. A size of 0 fails with `InvalidSize`.
pub fn resize_plan(usage: BufferUsage, old: Option<Vec<u8>>, size: u64) -> (res: Result<Option<Vec<u8>>, BufferError>)
    requires
        size <= usize::MAX,
    ensures
        size == 0 ==> res == Err::<Option<Vec<u8>>, BufferError>(BufferError::InvalidSize),
        size != 0 ==> match old {
            Some(o) => if keeps_contents(usage) {
                res matches Ok(Some(v)) && v@ == resized(o@, size as int)
            } else {
                res matches Ok(None)
            },
            None => res matches Ok(None),
        },
{
    if size == 0 {
        return Err(BufferError::InvalidSize);
    }
    if !resize_keeps_contents(usage) {
        return Ok(None);
    }
    match old {
        Some(o) => match resize_contents(o, size) {
            Ok(v) => Ok(Some(v)),
            Err(e) => Err(e),
        },
        None => Ok(None),
    }
}

/// Whether raw data of `len` bytes may be written into a buffer of this
/// usage and size: the buffer must be a copy destination, at least `len`
/// bytes long.
pub open spec fn raw_write_ok(usage: BufferUsage, size: u64, len: int) -> bool {
    usage.bits & BUFFER_COPY_DST == BUFFER_COPY_DST && len <= size
}

/// Checks a write of `len` bytes of raw data into a buffer: one that is not
/// a copy destination fails with `BufferNotWritable`, one smaller than the
/// data with `InvalidSize`.
pub fn check_raw_write(usage: BufferUsage, size: u64, len: u64) -> (res: Result<(), BufferError>)
    ensures
        res is Ok <==> raw_write_ok(usage, size, len as int),
        usage.bits & BUFFER_COPY_DST != BUFFER_COPY_DST ==> res == Err::<(), BufferError>(BufferError::BufferNotWritable),
        usage.bits & BUFFER_COPY_DST == BUFFER_COPY_DST && len > size ==> res == Err::<(), BufferError>(
            BufferError::InvalidSize,
        ),
{
    if !usage.contains(BufferUsage { bits: BUFFER_COPY_DST }) {
        return Err(BufferError::BufferNotWritable);
    }
    if len > size {
        return Err(BufferError::InvalidSize);
    }
    Ok(())
}

/// Whether a buffer with this usage can hold the arguments of an indirect
/// draw: it must have the `INDIRECT` usage.
pub fn can_draw_indirect(usage: BufferUsage) -> (r: bool)
    ensures
        r == (usage.bits & BUFFER_INDIRECT == BUFFER_INDIRECT),
{
    usage.contains(BufferUsage { bits: BUFFER_INDIRECT })
}

/// Bytes that buffer copies must come in multiples of.
pub const COPY_BUFFER_ALIGNMENT: u64 = 4;

/// `n` rounded up to a multiple of 4.
pub open spec fn aligned_len(n: int) -> int {
    ((n + 3) / 4) * 4
}

/// The bytes of an upload padded with zeros to a multiple of 4 bytes.
pub fn pad_to_copy_alignment(data: &[u8]) -> (r: Vec<u8>)
    requires
        data@.len() + 3 <= usize::MAX,
    ensures
        r@ == resized(data@, aligned_len(data@.len() as int)),
        r@.len() % 4 == 0,
        data@.len() <= r@.len() < data@.len() + 4,
{
    let mut v = vstd::slice::slice_to_vec(data);
    let n = v.len();
    if n % 4 != 0 {
        let target = (n + 3) / 4 * 4;
        v.resize(target, 0u8);
    }
    proof {
        assert(aligned_len(n as int) % 4 == 0);
        if n % 4 == 0 {
            assert(aligned_len(n as int) == n);
        }
    }
    assert(v@ =~= resized(data@, aligned_len(data@.len() as int)));
    v
}

/// Whether a buffer with this usage can be read back: it must be a copy
/// source or mappable for reading.
pub open spec fn readable(usage: BufferUsage) -> bool {
    usage.bits & BUFFER_COPY_SRC == BUFFER_COPY_SRC || usage.bits & BUFFER_MAP_READ == BUFFER_MAP_READ
}

/// Checks that a buffer can be read back; fails with `BufferNotReadable`
/// otherwise.
pub fn check_readable(usage: BufferUsage) -> (res: Result<(), BufferError>)
    ensures
        res is Ok <==> readable(usage),
        res is Err ==> res == Err::<(), BufferError>(BufferError::BufferNotReadable),
{
    if !usage.contains(BufferUsage { bits: BUFFER_COPY_SRC }) && !usage.contains(BufferUsage { bits: BUFFER_MAP_READ }) {
        return Err(BufferError::BufferNotReadable);
    }
    Ok(())
}

/// The byte size of a buffer rounded up to a multiple of 4, and at least 4.
pub open spec fn spec_buffer_size(size: u64) -> u64 {
    let a = aligned_len(size as int);
    if a < 4 { 4 } else { a as u64 }
}

/// The size a buffer is created with: rounded up to a multiple of 4, and at
/// least 4.
pub fn aligned_buffer_size(size: u64) -> (r: u64)
    requires
        0 < size,
        size + 3 <= u64::MAX,
    ensures
        r == spec_buffer_size(size),
        r % 4 == 0,
        r >= size,
{
    let a = (size + 3) / 4 * 4;
    if a < 4 { 4 } else { a }
}

} // verus!
