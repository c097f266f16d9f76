//! Caches of GPU objects that expire when left unused: pipelines and bind
//! groups by key, and staging buffers by size.
use vstd::prelude::*;

verus! {

/// Frames that an unused pipeline is kept.
pub const PIPELINE_LIFETIME_FRAMES: usize = 50;
/// Frames that an unused bind group is kept.
pub const BIND_GROUP_LIFETIME: usize = 100;
/// Frames that an unused staging buffer is kept.
pub const STAGING_MAX_CYCLES: u64 = 60;

/// A cached value, its key, and the frames since it was last used.
pub struct CacheEntry<V> {
    pub key: usize,
    pub value: V,
    pub age: usize,
}

/// Values by key, each dropped once it has gone `limit` frames unused.
pub struct LifetimeCache<V> {
    entries: Vec<CacheEntry<V>>,
    limit: usize,
}

/// The entries after one frame: those unused for fewer than `limit` frames
/// stay, one frame older.
pub open spec fn spec_cycle<V>(m: Map<usize, (V, usize)>, limit: usize) -> Map<usize, (V, usize)> {
    Map::new(
        |k: usize| m.contains_key(k) && m[k].1 < limit,
        |k: usize| (m[k].0, (m[k].1 + 1) as usize),
    )
}

/// The entries after `n` frames.
pub open spec fn spec_cycles<V>(m: Map<usize, (V, usize)>, limit: usize, n: nat) -> Map<usize, (V, usize)>
    decreases n,
{
    if n == 0 {
        m
    } else {
        spec_cycle(spec_cycles(m, limit, (n - 1) as nat), limit)
    }
}

impl<V> LifetimeCache<V> {
    /// Keys are unique and every age is below the machine's limit.
    pub closed spec fn wf(&self) -> bool {
        &&& forall|i: int, j: int| 0 <= i < j < self.entries@.len() ==> (#[trigger] self.entries@[i]).key != (#[trigger] self.entries@[j]).key
        &&& forall|i: int| 0 <= i < self.entries@.len() ==> (#[trigger] self.entries@[i]).age <= self.limit
    }

    /// The cached values by key, with their ages.
    pub closed spec fn view(&self) -> Map<usize, (V, usize)> {
        Map::new(
            |k: usize| exists|i: int| 0 <= i < self.entries@.len() && (#[trigger] self.entries@[i]).key == k,
            |k: usize| {
                let i = choose|i: int| 0 <= i < self.entries@.len() && (#[trigger] self.entries@[i]).key == k;
                (self.entries@[i].value, self.entries@[i].age)
            },
        )
    }

    /// The number of frames an unused value is kept.
    pub closed spec fn spec_limit(&self) -> usize {
        self.limit
    }

    /// An empty cache whose values are kept `limit` frames unused.
    pub fn new(limit: usize) -> (r: LifetimeCache<V>)
        ensures
            r.wf(),
            r.view() =~= Map::<usize, (V, usize)>::empty(),
            r.spec_limit() == limit,
    {
        LifetimeCache { entries: Vec::new(), limit }
    }

    proof fn lemma_view_at(&self, i: int)
        requires
            self.wf(),
            0 <= i < self.entries@.len(),
        ensures
            self.view().contains_key(self.entries@[i].key),
            self.view()[self.entries@[i].key] == (self.entries@[i].value, self.entries@[i].age),
    {
        let k = self.entries@[i].key;
        assert(exists|j: int| 0 <= j < self.entries@.len() && (#[trigger] self.entries@[j]).key == k);
        let j = choose|j: int| 0 <= j < self.entries@.len() && (#[trigger] self.entries@[j]).key == k;
        if j != i {
            if i < j {
                assert(self.entries@[i].key != self.entries@[j].key);
            } else {
                assert(self.entries@[j].key != self.entries@[i].key);
            }
        }
    }

    fn find(&self, key: usize) -> (r: Option<usize>)
        requires
            self.wf(),
        ensures
            match r {
                Some(i) => i < self.entries@.len() && self.entries@[i as int].key == key,
                None => !self.view().contains_key(key),
            },
    {
        let mut i: usize = 0;
        while i < self.entries.len()
            invariant
                i <= self.entries@.len(),
                forall|j: int| 0 <= j < i ==> (#[trigger] self.entries@[j]).key != key,
            decreases self.entries@.len() - i,
        {
            if self.entries[i].key == key {
                return Some(i);
            }
            i = i + 1;
        }
        None
    }

    /// Whether a value is cached under `key`; using it makes it new again.
    pub fn touch(&mut self, key: usize) -> (r: bool)
        requires
            old(self).wf(),
        ensures
            final(self).wf(),
            final(self).spec_limit() == old(self).spec_limit(),
            r == old(self).view().contains_key(key),
            r ==> final(self).view() == old(self).view().insert(key, (old(self).view()[key].0, 0usize)),
            !r ==> final(self).view() == old(self).view(),
    {
        match self.find(key) {
            None => false,
            Some(i) => {
                proof {
                    old(self).lemma_view_at(i as int);
                }
                let ghost before = self.view();
                self.entries[i].age = 0;
                proof {
                    assert(self.wf());
                    let after = self.view();
                    let expect = before.insert(key, (before[key].0, 0usize));
                    assert forall|k: usize| after.contains_key(k) <==> expect.contains_key(k) by {
                        if expect.contains_key(k) && k != key {
                            let j = choose|j: int| 0 <= j < old(self).entries@.len() && (#[trigger] old(self).entries@[j]).key == k;
                            assert(self.entries@[j].key == k);
                        }
                        if after.contains_key(k) {
                            let j = choose|j: int| 0 <= j < self.entries@.len() && (#[trigger] self.entries@[j]).key == k;
                            assert(old(self).entries@[j].key == k);
                        }
                    }
                    assert forall|k: usize| after.contains_key(k) implies after[k] == expect[k] by {
                        let j = choose|j: int| 0 <= j < self.entries@.len() && (#[trigger] self.entries@[j]).key == k;
                        self.lemma_view_at(j);
                        old(self).lemma_view_at(j);
                    }
                    assert(after =~= expect);
                }
                true
            },
        }
    }

    /// The value cached under `key`, if any.
    pub fn value(&self, key: usize) -> (r: Option<&V>)
        requires
            self.wf(),
        ensures
            match r {
                Some(v) => self.view().contains_key(key) && *v == self.view()[key].0,
                None => !self.view().contains_key(key),
            },
    {
        match self.find(key) {
            None => None,
            Some(i) => {
                proof {
                    self.lemma_view_at(i as int);
                }
                Some(&self.entries[i].value)
            },
        }
    }

    /// Caches `value` under `key` as new, replacing what was there.
    pub fn insert(&mut self, key: usize, value: V)
        requires
            old(self).wf(),
        ensures
            final(self).wf(),
            final(self).spec_limit() == old(self).spec_limit(),
            final(self).view() == old(self).view().insert(key, (value, 0usize)),
    {
        let ghost before = self.view();
        let ghost v = value;
        match self.find(key) {
            Some(i) => {
                proof {
                    old(self).lemma_view_at(i as int);
                }
                self.entries.set(i, CacheEntry { key, value, age: 0 });
                proof {
                    assert forall|a: int, b: int| 0 <= a < b < self.entries@.len() implies (#[trigger] self.entries@[a]).key != (#[trigger] self.entries@[b]).key by {
                        assert(old(self).entries@[a].key != old(self).entries@[b].key);
                    }
                    assert(self.wf());
                    let after = self.view();
                    let expect = before.insert(key, (v, 0usize));
                    assert forall|k: usize| after.contains_key(k) <==> expect.contains_key(k) by {
                        if expect.contains_key(k) && k != key {
                            let j = choose|j: int| 0 <= j < old(self).entries@.len() && (#[trigger] old(self).entries@[j]).key == k;
                            assert(self.entries@[j].key == k);
                        }
                        if after.contains_key(k) && k != key {
                            let j = choose|j: int| 0 <= j < self.entries@.len() && (#[trigger] self.entries@[j]).key == k;
                            assert(old(self).entries@[j].key == k);
                        }
                        if k == key {
                            assert(self.entries@[i as int].key == k);
                        }
                    }
                    assert forall|k: usize| after.contains_key(k) implies after[k] == expect[k] by {
                        let j = choose|j: int| 0 <= j < self.entries@.len() && (#[trigger] self.entries@[j]).key == k;
                        self.lemma_view_at(j);
                        if k != key {
                            old(self).lemma_view_at(j);
                        }
                    }
                    assert(after =~= expect);
                }
            },
            None => {
                self.entries.push(CacheEntry { key, value, age: 0 });
                proof {
                    let n = old(self).entries@.len();
                    assert forall|a: int, b: int| 0 <= a < b < self.entries@.len() implies (#[trigger] self.entries@[a]).key != (#[trigger] self.entries@[b]).key by {
                        if b == n {
                            old(self).lemma_view_at(a);
                        } else {
                            assert(old(self).entries@[a].key != old(self).entries@[b].key);
                        }
                    }
                    assert(self.wf());
                    let after = self.view();
                    let expect = before.insert(key, (v, 0usize));
                    assert forall|k: usize| after.contains_key(k) <==> expect.contains_key(k) by {
                        if expect.contains_key(k) && k != key {
                            let j = choose|j: int| 0 <= j < old(self).entries@.len() && (#[trigger] old(self).entries@[j]).key == k;
                            assert(self.entries@[j].key == k);
                        }
                        if after.contains_key(k) && k != key {
                            let j = choose|j: int| 0 <= j < self.entries@.len() && (#[trigger] self.entries@[j]).key == k;
                            assert(j != n);
                            assert(old(self).entries@[j].key == k);
                        }
                        if k == key {
                            assert(self.entries@[n as int].key == k);
                        }
                    }
                    assert forall|k: usize| after.contains_key(k) implies after[k] == expect[k] by {
                        let j = choose|j: int| 0 <= j < self.entries@.len() && (#[trigger] self.entries@[j]).key == k;
                        self.lemma_view_at(j);
                        if j != n {
                            old(self).lemma_view_at(j);
                        }
                    }
                    assert(after =~= expect);
                }
            },
        }
    }

    /// Ends a frame: values unused for `limit` frames are dropped, the others
    /// grow one frame older.
    #[verifier::rlimit(40)]
    pub fn cycle(&mut self)
        requires
            old(self).wf(),
        ensures
            final(self).wf(),
            final(self).spec_limit() == old(self).spec_limit(),
            final(self).view() == spec_cycle(old(self).view(), old(self).spec_limit()),
    {
        let ghost before = self.view();
        let ghost olds = self.entries@;
        let limit = self.limit;
        let mut kept: Vec<CacheEntry<V>> = Vec::new();
        let mut rest: Vec<CacheEntry<V>> = Vec::new();
        std::mem::swap(&mut rest, &mut self.entries);
        let n = rest.len();
        let mut i: usize = 0;
        let ghost mut src: Seq<int> = Seq::empty();
        proof {
            assert(rest@ =~= olds.skip(0));
        }
        while i < n
            invariant
                n == olds.len(),
                i <= n,
                rest@ == olds.skip(i as int),
                limit == old(self).limit,
                olds == old(self).entries@,
                old(self).wf(),
                src.len() == kept@.len(),
                forall|a: int| 0 <= a < src.len() ==> 0 <= #[trigger] src[a] < i,
                forall|a: int, b: int| 0 <= a < b < src.len() ==> #[trigger] src[a] < #[trigger] src[b],
                forall|a: int| 0 <= a < src.len() ==> (#[trigger] kept@[a]).key == olds[src[a]].key
                    && olds[src[a]].age < limit && kept@[a].value == olds[src[a]].value && kept@[a].age == olds[src[a]].age + 1,
                forall|j: int| 0 <= j < i && (#[trigger] olds[j]).age < limit ==> src.contains(j),
            decreases n - i,
        {
            let e = rest.remove(0);
            proof {
                assert(e == olds[i as int]);
                assert(rest@ =~= olds.skip(i + 1));
            }
            if e.age < limit {
                kept.push(CacheEntry { key: e.key, value: e.value, age: e.age + 1 });
                proof {
                    let old_src = src;
                    src = src.push(i as int);
                    assert forall|j: int| 0 <= j < i + 1 && (#[trigger] olds[j]).age < limit implies src.contains(j) by {
                        if j < i {
                            assert(old_src.contains(j));
                            let a = choose|a: int| 0 <= a < old_src.len() && old_src[a] == j;
                            assert(src[a] == j);
                        } else {
                            assert(src[src.len() - 1] == j);
                        }
                    }
                }
            } else {
                proof {
                    assert forall|j: int| 0 <= j < i + 1 && (#[trigger] olds[j]).age < limit implies src.contains(j) by {
                        assert(j < i);
                    }
                }
            }
            i = i + 1;
        }
        self.entries = kept;
        proof {
            assert forall|a: int, b: int| 0 <= a < b < self.entries@.len() implies (#[trigger] self.entries@[a]).key != (#[trigger] self.entries@[b]).key by {
                assert(src[a] < src[b]);
                assert(olds[src[a]].key != olds[src[b]].key);
            }
            assert(self.wf());
            let after = self.view();
            let expect = spec_cycle(before, limit);
            assert forall|k: usize| after.contains_key(k) <==> expect.contains_key(k) by {
                if after.contains_key(k) {
                    let a = choose|a: int| 0 <= a < self.entries@.len() && (#[trigger] self.entries@[a]).key == k;
                    old(self).lemma_view_at(src[a]);
                }
                if expect.contains_key(k) {
                    let j = choose|j: int| 0 <= j < olds.len() && (#[trigger] olds[j]).key == k;
                    old(self).lemma_view_at(j);
                    assert(src.contains(j));
                    let a = choose|a: int| 0 <= a < src.len() && src[a] == j;
                    assert(self.entries@[a].key == k);
                }
            }
            assert forall|k: usize| after.contains_key(k) implies after[k] == expect[k] by {
                let a = choose|a: int| 0 <= a < self.entries@.len() && (#[trigger] self.entries@[a]).key == k;
                self.lemma_view_at(a);
                old(self).lemma_view_at(src[a]);
            }
            assert(after =~= expect);
        }
    }
}

/// A value cached and then left unused stays for `limit` frames and is gone
/// at the frame after.
pub proof fn lemma_unused_value_expires<V>(m: Map<usize, (V, usize)>, limit: usize, key: usize, n: nat)
    requires
        m.contains_key(key),
        m[key].1 == 0,
    ensures
        n <= limit ==> spec_cycles(m, limit, n).contains_key(key) && spec_cycles(m, limit, n)[key] == (m[key].0, n as usize),
        n > limit ==> !spec_cycles(m, limit, n).contains_key(key),
    decreases n,
{
    if n > 0 {
        lemma_unused_value_expires(m, limit, key, (n - 1) as nat);
        if n > limit + 1 {
            assert(!spec_cycles(m, limit, (n - 1) as nat).contains_key(key));
        }
    }
}

// ---------------------------------------------------------------------------
// Staging buffers
// ---------------------------------------------------------------------------

/// A staging buffer: its size, the frames since it was last used, and
/// whether it was used in this frame.
pub struct StagingItem<B> {
    pub buffer: B,
    pub size: u64,
    pub cycle: u64,
    pub used: bool,
}

/// Staging buffers that are reused across frames.
pub struct StagingBuffer<B> {
    pub items: Vec<StagingItem<B>>,
}

/// The bytes a staging upload of `len` bytes takes: rounded up to 4.
pub open spec fn staging_size(len: int) -> int {
    ((len + 3) / 4) * 4
}

/// Index of the first item at or after `k` that is unused in this frame and
/// large enough for `size` bytes, or -1.
pub open spec fn first_free<B>(items: Seq<StagingItem<B>>, size: u64, k: int) -> int
    decreases items.len() - k,
{
    if k < 0 || k >= items.len() {
        -1
    } else if !items[k].used && items[k].size >= size {
        k
    } else {
        first_free(items, size, k + 1)
    }
}

impl<B> StagingBuffer<B> {
    /// No staging buffer yet.
    pub fn new() -> (r: StagingBuffer<B>)
        ensures
            r.items@.len() == 0,
    {
        StagingBuffer { items: Vec::new() }
    }

    /// Ends a frame: every buffer grows one frame older and becomes free;
    /// those unused for `STAGING_MAX_CYCLES` frames are dropped.
    pub fn cycle(&mut self)
        requires
            forall|i: int| 0 <= i < old(self).items@.len() ==> (#[trigger] old(self).items@[i]).cycle < u64::MAX,
        ensures
            final(self).items@.len() <= old(self).items@.len(),
            forall|i: int| 0 <= i < final(self).items@.len() ==> !(#[trigger] final(self).items@[i]).used
                && final(self).items@[i].cycle < STAGING_MAX_CYCLES,
            final(self).items@ == old(self).items@.filter(|it: StagingItem<B>| it.cycle + 1 < STAGING_MAX_CYCLES).map_values(
                |it: StagingItem<B>| StagingItem { cycle: (it.cycle + 1) as u64, used: false, ..it },
            ),
    {
        let ghost olds = self.items@;
        let ghost keep = |it: StagingItem<B>| it.cycle + 1 < STAGING_MAX_CYCLES;
        let ghost step = |it: StagingItem<B>| StagingItem { cycle: (it.cycle + 1) as u64, used: false, ..it };
        let mut rest: Vec<StagingItem<B>> = Vec::new();
        std::mem::swap(&mut rest, &mut self.items);
        let n = rest.len();
        let mut kept: Vec<StagingItem<B>> = Vec::new();
        let mut i: usize = 0;
        proof {
            assert(rest@ =~= olds.skip(0));
            assert(olds.take(0).filter(keep) =~= Seq::<StagingItem<B>>::empty());
        }
        while i < n
            invariant
                n == olds.len(),
                i <= olds.len(),
                keep == (|it: StagingItem<B>| it.cycle + 1 < STAGING_MAX_CYCLES),
                step == (|it: StagingItem<B>| StagingItem { cycle: (it.cycle + 1) as u64, used: false, ..it }),
                rest@ == olds.skip(i as int),
                olds == old(self).items@,
                forall|j: int| 0 <= j < olds.len() ==> (#[trigger] olds[j]).cycle < u64::MAX,
                kept@ == olds.take(i as int).filter(keep).map_values(step),
            decreases n - i,
        {
            let it = rest.remove(0);
            proof {
                assert(it == olds[i as int]);
                assert(rest@ =~= olds.skip(i + 1));
                assert(olds.take(i + 1) =~= olds.take(i as int).push(olds[i as int]));
                olds.take(i as int).lemma_filter_push(olds[i as int], keep);
            }
            let c = it.cycle + 1;
            if c < STAGING_MAX_CYCLES {
                kept.push(StagingItem { buffer: it.buffer, size: it.size, cycle: c, used: false });
                proof {
                    assert(keep(olds[i as int]));
                    assert(olds.take(i + 1).filter(keep) == olds.take(i as int).filter(keep).push(olds[i as int]));
                    assert(kept@ =~= olds.take(i + 1).filter(keep).map_values(step));
                }
            } else {
                proof {
                    assert(!keep(olds[i as int]));
                    assert(olds.take(i + 1).filter(keep) == olds.take(i as int).filter(keep));
                }
            }
            i = i + 1;
        }
        proof {
            assert(olds.take(i as int) =~= olds);
            assert forall|j: int| 0 <= j < kept@.len() implies !(#[trigger] kept@[j]).used && kept@[j].cycle < STAGING_MAX_CYCLES by {
                let f = olds.filter(keep);
                olds.lemma_filter_pred(keep, j);
                assert(keep(f[j]));
            }
            olds.lemma_filter_len(keep);
        }
        self.items = kept;
    }

    /// Finds a staging buffer for an upload of `len` bytes: the first one
    /// unused in this frame and large enough for the rounded size becomes
    /// used and new again (`Ok` of its index); with none, `Err` of the size
    /// that a new buffer needs, which [`StagingBuffer::push`] adds.
    pub fn reserve(&mut self, len: usize) -> (r: Result<usize, u64>)
        requires
            len as int + 3 <= u64::MAX,
        ensures
            match r {
                Ok(i) => i as int == first_free(old(self).items@, staging_size(len as int) as u64, 0) && i < old(self).items@.len()
                    && final(self).items@ == old(self).items@.update(i as int, StagingItem { used: true, cycle: 0, ..old(self).items@[i as int] }),
                Err(size) => size as int == staging_size(len as int)
                    && first_free(old(self).items@, size, 0) == -1 && final(self).items@ == old(self).items@,
            },
    {
        let size: u64 = (len as u64 + 3) / 4 * 4;
        let mut i: usize = 0;
        while i < self.items.len()
            invariant
                i <= self.items@.len(),
                self.items@ == old(self).items@,
                size as int == staging_size(len as int),
                first_free(self.items@, size, 0) == first_free(self.items@, size, i as int),
            decreases self.items@.len() - i,
        {
            if !self.items[i].used && self.items[i].size >= size {
                self.items[i].used = true;
                self.items[i].cycle = 0;
                return Ok(i);
            }
            i = i + 1;
        }
        Err(size)
    }

    /// Adds a new staging buffer of `size` bytes, used in this frame.
    pub fn push(&mut self, buffer: B, size: u64)
        ensures
            final(self).items@ == old(self).items@.push(StagingItem { buffer, size, cycle: 0, used: true }),
    {
        self.items.push(StagingItem { buffer, size, cycle: 0, used: true });
    }
}

/// The bytes to upload to a staging buffer: the data followed by zeros up to
/// a multiple of 4 bytes.
pub fn staging_upload(data: &[u8]) -> (r: Vec<u8>)
    requires
        data@.len() + 3 <= usize::MAX,
    ensures
        r@.len() == staging_size(data@.len() as int),
        r@.take(data@.len() as int) == data@,
        forall|i: int| data@.len() <= i < r@.len() ==> r@[i] == 0,
{
    let v = crate::buffer::pad_to_copy_alignment(data);
    assert(v@.take(data@.len() as int) =~= data@);
    v
}

} // verus!
