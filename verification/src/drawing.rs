//! Index and batch bookkeeping of immediate-mode 2D drawing.
use vstd::prelude::*;

verus! {

/// The three indices of the triangle `q` of a triangle list.
pub open spec fn tri(s: Seq<u16>, q: int) -> (u16, u16, u16) {
    (s[3 * q], s[3 * q + 1], s[3 * q + 2])
}

/// `out` is the triangle list of the triangle fan `fan`: the triangle `q`
/// joins the fan's centre to its vertices `q + 1` and `q + 2`.
pub open spec fn is_fan_list(out: Seq<u16>, fan: Seq<u16>) -> bool {
    &&& out.len() == 3 * (fan.len() - 2)
    &&& forall|q: int| 0 <= q < fan.len() - 2 ==> #[trigger] tri(out, q) == (fan[0], fan[q + 1], fan[q + 2])
}

/// Turns the indices of a triangle fan into those of a triangle list, in
/// place; fewer than three indices are left as they are.
pub fn triangle_fan_to_list_indices_ref(param: &mut Vec<u16>)
    requires
        3 * old(param)@.len() <= usize::MAX,
    ensures
        old(param)@.len() < 3 ==> final(param)@ == old(param)@,
        old(param)@.len() >= 3 ==> is_fan_list(final(param)@, old(param)@),
{
    let n = param.len();
    if n < 3 {
        return;
    }
    let mut out: Vec<u16> = Vec::new();
    let mut i: usize = 1;
    while i < n - 1
        invariant
            1 <= i <= n - 1,
            n == param@.len(),
            n >= 3,
            3 * n <= usize::MAX,
            out@.len() == 3 * (i - 1),
            forall|q: int| 0 <= q < i - 1 ==> #[trigger] tri(out@, q) == (param@[0], param@[q + 1], param@[q + 2]),
        decreases n - 1 - i,
    {
        let ghost before = out@;
        out.push(param[0]);
        out.push(param[i]);
        out.push(param[i + 1]);
        proof {
            assert forall|q: int| 0 <= q < i implies #[trigger] tri(out@, q) == (param@[0], param@[q + 1], param@[q + 2]) by {
                if q < i - 1 {
                    assert(tri(before, q) == (param@[0], param@[q + 1], param@[q + 2]));
                    assert(out@[3 * q] == before[3 * q]);
                    assert(out@[3 * q + 1] == before[3 * q + 1]);
                    assert(out@[3 * q + 2] == before[3 * q + 2]);
                }
            }
        }
        i += 1;
    }
    *param = out;
}

/// Indices moved past the `base` vertices already queued.
pub open spec fn rebased(indices: Seq<u16>, base: u16) -> Seq<u16> {
    Seq::new(indices.len(), |k: int| (indices[k] + base) as u16)
}

/// Offsets the indices of new geometry by the number of vertices already
/// queued, so that they point at the new vertices.
pub fn rebase_indices(indices: &[u16], base: u16) -> (r: Vec<u16>)
    requires
        forall|k: int| 0 <= k < indices@.len() ==> #[trigger] indices@[k] + base <= u16::MAX,
    ensures
        r@ == rebased(indices@, base),
{
    let mut r: Vec<u16> = Vec::new();
    let mut k: usize = 0;
    while k < indices.len()
        invariant
            k <= indices@.len(),
            forall|j: int| 0 <= j < indices@.len() ==> #[trigger] indices@[j] + base <= u16::MAX,
            r@ == rebased(indices@.take(k as int), base),
        decreases indices@.len() - k,
    {
        let v = indices[k] + base;
        r.push(v);
        k += 1;
        proof {
            assert(r@ =~= rebased(indices@.take(k as int), base));
        }
    }
    proof {
        assert(indices@.take(indices@.len() as int) =~= indices@);
    }
    r
}

/// A run of indices drawn with one state: where it starts in the index
/// list, how many indices it covers, and the state it is drawn with (a
/// number the caller gives each distinct texture, blend, clip and shader
/// setting).
#[derive(Debug, Clone, Copy, PartialEq, Eq, Structural)]
pub struct DrawBatch {
    pub state: u64,
    pub start_index: u32,
    pub count: u32,
}

/// The number of indices that a list of batches covers.
pub open spec fn batch_total(q: Seq<DrawBatch>) -> int
    decreases q.len(),
{
    if q.len() == 0 {
        0
    } else {
        batch_total(q.drop_last()) + q.last().count
    }
}

/// Groups queued geometry into batches that share a drawing state.
#[derive(Debug, Clone)]
pub struct DrawQueue {
    pub queue: Vec<DrawBatch>,
    pub current: Option<DrawBatch>,
}

/// The batches tile `n` indices in order: the first starts at 0, each next
/// one starts where the one before it ends, and the last ends at `n`.
pub open spec fn tiles(q: Seq<DrawBatch>, n: int) -> bool {
    &&& q.len() == 0 ==> n == 0
    &&& q.len() > 0 ==> {
        &&& q[0].start_index == 0
        &&& forall|k: int| 0 <= k < q.len() - 1 ==> #[trigger] q[k + 1].start_index == q[k].start_index + q[k].count
        &&& q.last().start_index + q.last().count == n
    }
}

impl DrawQueue {
    /// The number of indices the closed batches and the open one cover.
    pub open spec fn total(&self) -> int {
        batch_total(self.queue@) + match self.current {
            Some(b) => b.count as int,
            None => 0,
        }
    }

    /// The closed batches followed by the open one.
    pub open spec fn all(&self) -> Seq<DrawBatch> {
        match self.current {
            Some(b) => self.queue@.push(b),
            None => self.queue@,
        }
    }

    /// Whether the open batch is drawn with `state`.
    pub open spec fn continues(&self, state: u64) -> bool {
        self.current matches Some(b) && b.state == state
    }

    /// The open batch after queuing `count` indices from `start_index` with
    /// `state`: the open one grown, or a new one.
    pub open spec fn opened(&self, state: u64, count: u32, start_index: u32) -> DrawBatch {
        if self.continues(state) {
            DrawBatch { count: (self.current->0.count + count) as u32, ..self.current->0 }
        } else {
            DrawBatch { state, start_index, count }
        }
    }

    /// The closed batches after queuing with `state`: the open batch is
    /// closed where the state changes.
    pub open spec fn closed(&self, state: u64) -> Seq<DrawBatch> {
        match self.current {
            Some(b) => if b.state == state { self.queue@ } else { self.queue@.push(b) },
            None => self.queue@,
        }
    }

    pub fn new() -> (r: DrawQueue)
        ensures
            r.queue@.len() == 0,
            r.current is None,
            r.total() == 0,
    {
        DrawQueue { queue: Vec::new(), current: None }
    }

    /// Queues `count` indices, starting at `start_index`, drawn with
    /// `state`: they extend the open batch when it has the same state, and
    /// otherwise close it and open a new one.
    pub fn push_queue(&mut self, state: u64, count: u32, start_index: u32)
        requires
            old(self).current matches Some(b) ==> (b.state == state ==> b.count + count <= u32::MAX),
        ensures
            final(self).total() == old(self).total() + count,
            final(self).queue@ == old(self).closed(state),
            final(self).current == Some(old(self).opened(state, count, start_index)),
    {
        match self.current {
            Some(b) => {
                if b.state == state {
                    self.current = Some(DrawBatch { count: b.count + count, ..b });
                } else {
                    self.queue.push(b);
                    self.current = Some(DrawBatch { state, start_index, count });
                    proof {
                        assert(self.queue@.drop_last() =~= old(self).queue@);
                    }
                }
            },
            None => {
                self.current = Some(DrawBatch { state, start_index, count });
            },
        }
    }

    /// Closes the open batch and gives all batches in order.
    pub fn finish(self) -> (r: Vec<DrawBatch>)
        ensures
            r@ == match self.current {
                Some(b) => self.queue@.push(b),
                None => self.queue@,
            },
            batch_total(r@) == self.total(),
    {
        let mut q = self.queue;
        if let Some(b) = self.current {
            q.push(b);
            proof {
                assert(q@.drop_last() =~= self.queue@);
            }
        }
        q
    }
}

/// The geometry queued by a drawing context: how many vertices, the index
/// list, and the batches over it.
#[derive(Debug, Clone)]
pub struct DrawGeometry {
    pub vertex_count: usize,
    pub indices: Vec<u16>,
    pub batches: DrawQueue,
}

impl DrawGeometry {
    /// The batches, closed and open, tile the index list in order.
    pub open spec fn wf(&self) -> bool {
        tiles(self.batches.all(), self.indices@.len() as int)
    }

    pub fn new() -> (r: DrawGeometry)
        ensures
            r.wf(),
            r.vertex_count == 0,
            r.indices@.len() == 0,
            r.batches.queue@.len() == 0,
            r.batches.current is None,
    {
        DrawGeometry { vertex_count: 0, indices: Vec::new(), batches: DrawQueue::new() }
    }

    /// Whether geometry of `vertices` new vertices with these indices fits:
    /// the indices, moved past the queued vertices (their count taken
    /// modulo 2^16), stay 16-bit, and the counts stay within their types.
    pub open spec fn fits(&self, vertices: usize, indices: Seq<u16>, state: u64) -> bool {
        &&& forall|k: int| 0 <= k < indices.len() ==> #[trigger] indices[k] + (#[verifier::truncate] (self.vertex_count as u16)) <= u16::MAX
        &&& self.vertex_count + vertices <= usize::MAX
        &&& self.indices@.len() + indices.len() <= u32::MAX
        &&& (self.batches.current matches Some(b) ==> (b.state == state ==> b.count + indices.len() <= u32::MAX))
    }

    /// Queues geometry of `vertices` new vertices drawn with the indices
    /// (relative to the new vertices) in drawing state `state`. Geometry
    /// without vertices or without indices is ignored.
    pub fn push_geometry(&mut self, vertices: usize, indices: &[u16], state: u64)
        requires
            old(self).fits(vertices, indices@, state),
        ensures
            vertices == 0 || indices@.len() == 0 ==> *final(self) == *old(self),
            vertices != 0 && indices@.len() != 0 ==> {
                &&& final(self).vertex_count == old(self).vertex_count + vertices
                &&& final(self).indices@ == old(self).indices@ + rebased(indices@, #[verifier::truncate] (old(self).vertex_count as u16))
                &&& final(self).batches.total() == old(self).batches.total() + indices@.len()
                &&& final(self).batches.queue@ == old(self).batches.closed(state)
                &&& final(self).batches.current == Some(
                    old(self).batches.opened(state, indices@.len() as u32, old(self).indices@.len() as u32),
                )
            },
            old(self).wf() ==> final(self).wf(),
    {
        if vertices == 0 || indices.len() == 0 {
            return;
        }
        let base = #[verifier::truncate] (self.vertex_count as u16);
        let moved = rebase_indices(indices, base);
        let start = self.indices.len() as u32;
        self.batches.push_queue(state, indices.len() as u32, start);
        let mut k: usize = 0;
        let ghost before = self.indices@;
        while k < moved.len()
            invariant
                k <= moved@.len(),
                self.indices@ == before + moved@.take(k as int),
                before == old(self).indices@,
                self.vertex_count == old(self).vertex_count,
                old(self).vertex_count + vertices <= usize::MAX,
                vertices != 0 && indices@.len() != 0,
                self.batches.total() == old(self).batches.total() + indices@.len(),
                self.batches.queue@ == old(self).batches.closed(state),
                self.batches.current == Some(old(self).batches.opened(state, indices@.len() as u32, before.len() as u32)),
                moved@ == rebased(indices@, base),
                base == (#[verifier::truncate] (old(self).vertex_count as u16)),
            decreases moved@.len() - k,
        {
            self.indices.push(moved[k]);
            k += 1;
            proof {
                assert(self.indices@ =~= before + moved@.take(k as int));
            }
        }
        proof {
            assert(moved@.take(moved@.len() as int) =~= moved@);
            if tiles(old(self).batches.all(), before.len() as int) {
                lemma_queue_keeps_tiling(old(self).batches, state, indices@.len() as u32, before.len() as int);
                assert(self.batches.all() =~= old(self).batches.closed(state).push(
                    old(self).batches.opened(state, indices@.len() as u32, before.len() as u32),
                ));
            }
        }
        self.vertex_count = self.vertex_count + vertices;
    }
}

/// Queuing `count` indices at the end of `n` tiled indices keeps the batches
/// tiling the index list, now `n + count` long.
pub proof fn lemma_queue_keeps_tiling(q: DrawQueue, state: u64, count: u32, n: int)
    requires
        tiles(q.all(), n),
        0 <= n <= u32::MAX,
        q.current matches Some(b) ==> (b.state == state ==> b.count + count <= u32::MAX),
    ensures
        tiles(q.closed(state).push(q.opened(state, count, n as u32)), n + count),
{
    let after = q.closed(state).push(q.opened(state, count, n as u32));
    let before = q.all();
    if q.continues(state) {
        assert(after.drop_last() =~= before.drop_last());
        assert forall|k: int| 0 <= k < after.len() - 1 implies #[trigger] after[k + 1].start_index == after[k].start_index + after[k].count by {
            if k + 1 < after.len() - 1 {
                assert(before[k + 1] == after[k + 1]);
            }
        }
    } else {
        assert(after.drop_last() =~= before);
        assert forall|k: int| 0 <= k < after.len() - 1 implies #[trigger] after[k + 1].start_index == after[k].start_index + after[k].count by {
            if k + 1 < after.len() - 1 {
                assert(before[k + 1] == after[k + 1]);
            }
        }
    }
}

} // verus!
