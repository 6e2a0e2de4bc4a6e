use vstd::prelude::*;
use crate::geometry::{PageRect, ScreenRect};

verus! {

/// One tile to paint.
#[derive(Clone, Copy, Debug, PartialEq, Eq, Structural)]
pub struct BufferRequest {
    /// The tile's region in page space.
    pub page_rect: PageRect,
    /// The tile's region in device pixels; the buffer has this size.
    pub screen_rect: ScreenRect,
    /// Monotonic age of the content this tile shows.
    pub content_age: usize,
}

/// A filled (or fillable) raster tile.
#[derive(Clone, Copy, Debug, PartialEq, Eq, Structural)]
pub struct LayerBuffer {
    /// Handle of the native surface that holds the pixels.
    pub native_surface: u64,
    /// The page-space region this buffer shows.
    pub rect: PageRect,
    /// The device-pixel region this buffer covers.
    pub screen_pos: ScreenRect,
    /// Scale the content was painted at (bit pattern of a 32-bit float).
    pub resolution: u32,
    /// Bytes per row: four per pixel.
    pub stride: usize,
    /// Whether the pixels were produced on the CPU.
    pub painted_with_cpu: bool,
    /// Age of the content, copied from the request.
    pub content_age: usize,
}

/// Memory held by one buffer.
pub open spec fn buffer_bytes(b: LayerBuffer) -> int {
    b.stride as int * b.screen_pos.height as int
}

/// Memory held by a sequence of buffers.
pub open spec fn total_bytes(s: Seq<LayerBuffer>) -> int
    decreases s.len(),
{
    if s.len() == 0 {
        0
    } else {
        buffer_bytes(s[0]) + total_bytes(s.drop_first())
    }
}

/// Whether a buffer has the given size in device pixels.
pub open spec fn has_size(b: LayerBuffer, width: usize, height: usize) -> bool {
    b.screen_pos.width == width && b.screen_pos.height == height
}

/// Index of the most recently inserted buffer of that size, or -1.
pub open spec fn last_match(s: Seq<LayerBuffer>, width: usize, height: usize) -> int
    decreases s.len(),
{
    if s.len() == 0 {
        -1
    } else if has_size(s.last(), width, height) {
        s.len() - 1
    } else {
        last_match(s.drop_last(), width, height)
    }
}

/// Drops the oldest buffers until the rest fit within `budget`.
pub open spec fn trim(s: Seq<LayerBuffer>, budget: int) -> Seq<LayerBuffer>
    decreases s.len(),
{
    if total_bytes(s) <= budget || s.len() == 0 {
        s
    } else {
        trim(s.drop_first(), budget)
    }
}

pub proof fn lemma_last_match_range(s: Seq<LayerBuffer>, width: usize, height: usize)
    ensures
        -1 <= last_match(s, width, height) < s.len(),
        last_match(s, width, height) != -1 ==> has_size(s[last_match(s, width, height)], width, height),
    decreases s.len(),
{
    if s.len() > 0 && !has_size(s.last(), width, height) {
        lemma_last_match_range(s.drop_last(), width, height);
    }
}

pub proof fn lemma_total_nonneg(s: Seq<LayerBuffer>)
    ensures
        total_bytes(s) >= 0,
    decreases s.len(),
{
    if s.len() > 0 {
        lemma_total_nonneg(s.drop_first());
    }
}

pub proof fn lemma_total_push(s: Seq<LayerBuffer>, b: LayerBuffer)
    ensures
        total_bytes(s.push(b)) == total_bytes(s) + buffer_bytes(b),
    decreases s.len(),
{
    if s.len() > 0 {
        lemma_total_push(s.drop_first(), b);
        assert(s.push(b).drop_first() =~= s.drop_first().push(b));
        assert(s.push(b)[0] == s[0]);
    } else {
        assert(s.push(b).drop_first() =~= Seq::<LayerBuffer>::empty());
        assert(total_bytes(Seq::<LayerBuffer>::empty()) == 0);
        assert(s.push(b)[0] == b);
    }
}

pub proof fn lemma_total_remove(s: Seq<LayerBuffer>, i: int)
    requires
        0 <= i < s.len(),
    ensures
        total_bytes(s.remove(i)) == total_bytes(s) - buffer_bytes(s[i]),
    decreases s.len(),
{
    if i > 0 {
        lemma_total_remove(s.drop_first(), i - 1);
        assert(s.remove(i).drop_first() =~= s.drop_first().remove(i - 1));
    } else {
        assert(s.remove(0) =~= s.drop_first());
    }
}

/// A trimmed sequence whose newest buffer alone exceeds the budget is empty.
pub proof fn lemma_trim_oversized(s: Seq<LayerBuffer>, budget: int)
    requires
        s.len() > 0,
        buffer_bytes(s.last()) > budget,
        budget >= 0,
    ensures
        trim(s, budget) == Seq::<LayerBuffer>::empty(),
    decreases s.len(),
{
    lemma_total_push(s.drop_last(), s.last());
    lemma_total_nonneg(s.drop_last());
    assert(s.drop_last().push(s.last()) =~= s);
    assert(total_bytes(s) > budget);
    assert(trim(s, budget) == trim(s.drop_first(), budget));
    if s.len() == 1 {
        assert(s.drop_first() =~= Seq::<LayerBuffer>::empty());
    } else {
        assert(s.drop_first().last() == s.last());
        lemma_trim_oversized(s.drop_first(), budget);
    }
}

/// Trimming keeps the newest buffer when it fits within the budget on its own.
pub proof fn lemma_trim_keeps_newest(s: Seq<LayerBuffer>, budget: int)
    requires
        s.len() > 0,
        0 <= buffer_bytes(s.last()) <= budget,
    ensures
        trim(s, budget).len() > 0,
        trim(s, budget).last() == s.last(),
    decreases s.len(),
{
    if total_bytes(s) > budget {
        if s.len() == 1 {
            assert(s.drop_first() =~= Seq::<LayerBuffer>::empty());
            assert(total_bytes(s) == buffer_bytes(s[0]) + total_bytes(s.drop_first()));
        } else {
            lemma_trim_keeps_newest(s.drop_first(), budget);
        }
    }
}

/// A bounded cache of unused buffers, looked up by size in device pixels.
pub struct BufferMap {
    /// Held buffers, oldest first.
    buffers: Vec<LayerBuffer>,
    /// Bytes held in all.
    mem: usize,
    /// Most bytes that may be held.
    max_mem: usize,
}

impl BufferMap {
    /// The held buffers, oldest first.
    pub closed spec fn view(&self) -> Seq<LayerBuffer> {
        self.buffers@
    }

    /// The byte budget this pool was created with.
    pub closed spec fn budget(&self) -> nat {
        self.max_mem as nat
    }

    /// The held bytes are counted and within budget.
    pub closed spec fn wf(&self) -> bool {
        &&& self.mem as int == total_bytes(self.buffers@)
        &&& self.mem <= self.max_mem
    }

    /// Creates an empty pool that holds at most `max_mem` bytes.
    pub fn new(max_mem: usize) -> (r: BufferMap)
        ensures
            r.wf(),
            r@ == Seq::<LayerBuffer>::empty(),
            r.budget() == max_mem,
    {
        BufferMap { buffers: Vec::new(), mem: 0, max_mem }
    }

    /// Bytes held by the pool.
    pub fn mem(&self) -> (r: usize)
        requires
            self.wf(),
        ensures
            r as int == total_bytes(self@),
            r <= self.budget(),
    {
        self.mem
    }

    /// Number of buffers held.
    pub fn len(&self) -> (r: usize)
        ensures
            r == self@.len(),
    {
        self.buffers.len()
    }

    /// Removes and returns the most recently inserted buffer of exactly the
    /// given size, if there is one.
    pub fn find(&mut self, width: usize, height: usize) -> (r: Option<LayerBuffer>)
        requires
            old(self).wf(),
        ensures
            final(self).wf(),
            final(self).budget() == old(self).budget(),
            last_match(old(self)@, width, height) == -1 ==> r is None && final(self)@ == old(self)@,
            last_match(old(self)@, width, height) != -1 ==> {
                let i = last_match(old(self)@, width, height);
                &&& r == Some(old(self)@[i])
                &&& final(self)@ == old(self)@.remove(i)
            },
    {
        let ghost s = self.buffers@;
        proof {
            lemma_last_match_range(s, width, height);
        }
        let mut i: usize = self.buffers.len();
        assert(s.subrange(0, i as int) =~= s);
        while i > 0
            invariant
                i <= s.len(),
                s == old(self)@,
                self.buffers@ == s,
                self.mem as int == total_bytes(s),
                self.mem <= self.max_mem,
                self.max_mem == old(self).max_mem,
                -1 <= last_match(s, width, height) < s.len(),
                last_match(s, width, height) == last_match(s.subrange(0, i as int), width, height),
            decreases i,
        {
            let b = &self.buffers[i - 1];
            if b.screen_pos.width == width && b.screen_pos.height == height {
                assert(s.subrange(0, i as int).last() == s[i - 1]);
                assert(last_match(s, width, height) == i - 1);
                let found = self.buffers.remove(i - 1);
                proof {
                    lemma_total_remove(s, i - 1);
                    lemma_total_nonneg(self.buffers@);
                    assert(found.stride as int * found.screen_pos.height as int <= self.mem);
                }
                self.mem = self.mem - (found.stride * found.screen_pos.height);
                return Some(found);
            }
            assert(s.subrange(0, i as int).drop_last() =~= s.subrange(0, i - 1));
            i = i - 1;
        }
        None
    }

    /// Adds a buffer as the most recent of its size, then evicts the oldest
    /// buffers until the pool is within budget again. Returns the evicted
    /// buffers, oldest first; they must be destroyed with the graphics context.
    pub fn insert(&mut self, buffer: LayerBuffer) -> (evicted: Vec<LayerBuffer>)
        requires
            old(self).wf(),
        ensures
            final(self).wf(),
            final(self).budget() == old(self).budget(),
            final(self)@ == trim(old(self)@.push(buffer), old(self).budget() as int),
            evicted@ + final(self)@ == old(self)@.push(buffer),
    {
        let ghost s = self.buffers@;
        let ghost budget = self.max_mem as int;
        let size = buffer.stride.checked_mul(buffer.screen_pos.height);
        let fits = match size {
            Some(n) => n <= self.max_mem,
            None => false,
        };
        if !fits {
            proof {
                lemma_trim_oversized(s.push(buffer), budget);
            }
            let mut evicted = Vec::new();
            std::mem::swap(&mut evicted, &mut self.buffers);
            evicted.push(buffer);
            self.mem = 0;
            assert(evicted@ + self.buffers@ =~= s.push(buffer));
            return evicted;
        }
        let size = size.unwrap();
        let mut evicted: Vec<LayerBuffer> = Vec::new();
        while self.mem > self.max_mem - size
            invariant
                self.wf(),
                self.max_mem == budget,
                size as int == buffer_bytes(buffer),
                size <= self.max_mem,
                evicted@ + self.buffers@ == s,
                trim(self.buffers@.push(buffer), budget) == trim(s.push(buffer), budget),
            decreases self.buffers.len(),
        {
            let ghost cur = self.buffers@;
            proof {
                if cur.len() == 0 {
                    assert(total_bytes(cur) == 0);
                }
                lemma_total_push(cur, buffer);
                assert(cur.push(buffer).drop_first() =~= cur.drop_first().push(buffer));
                lemma_total_remove(cur, 0);
                assert(cur.remove(0) =~= cur.drop_first());
                lemma_total_nonneg(cur.drop_first());
            }
            let oldest = self.buffers.remove(0);
            self.mem = self.mem - (oldest.stride * oldest.screen_pos.height);
            evicted.push(oldest);
            assert(evicted@ + self.buffers@ =~= s);
        }
        proof {
            lemma_total_push(self.buffers@, buffer);
        }
        self.buffers.push(buffer);
        self.mem = self.mem + size;
        assert(evicted@ + self.buffers@ =~= s.push(buffer));
        evicted
    }

    /// Removes every buffer and returns them, oldest first; they must be
    /// destroyed with the graphics context.
    pub fn clear(&mut self) -> (r: Vec<LayerBuffer>)
        requires
            old(self).wf(),
        ensures
            final(self).wf(),
            final(self).budget() == old(self).budget(),
            final(self)@ == Seq::<LayerBuffer>::empty(),
            r@ == old(self)@,
    {
        let mut r = Vec::new();
        std::mem::swap(&mut r, &mut self.buffers);
        self.mem = 0;
        r
    }
}

/// Trimming always leaves the pool within its budget.
pub proof fn lemma_trim_within_budget(s: Seq<LayerBuffer>, budget: int)
    requires
        budget >= 0,
    ensures
        total_bytes(trim(s, budget)) <= budget,
    decreases s.len(),
{
    if total_bytes(s) > budget && s.len() > 0 {
        lemma_trim_within_budget(s.drop_first(), budget);
    }
}

/// A pool never holds more bytes than its budget: an insertion trims the
/// pool back within budget, a lookup only removes a buffer, and clearing
/// leaves nothing.
pub proof fn lemma_pool_budget(s: Seq<LayerBuffer>, b: LayerBuffer, i: int, budget: int)
    requires
        budget >= 0,
        total_bytes(s) <= budget,
    ensures
        total_bytes(trim(s.push(b), budget)) <= budget,
        0 <= i < s.len() ==> total_bytes(s.remove(i)) <= budget,
        total_bytes(Seq::<LayerBuffer>::empty()) <= budget,
{
    lemma_trim_within_budget(s.push(b), budget);
    if 0 <= i < s.len() {
        lemma_total_remove(s, i);
        assert(buffer_bytes(s[i]) >= 0);
    }
}

/// Of two buffers of one size inserted in turn, a lookup of that size yields
/// the second, provided the second fits the budget by itself.
pub proof fn lemma_lifo_reuse(s: Seq<LayerBuffer>, b1: LayerBuffer, b2: LayerBuffer, budget: int)
    requires
        total_bytes(s) <= budget,
        b1.screen_pos.width == b2.screen_pos.width,
        b1.screen_pos.height == b2.screen_pos.height,
        buffer_bytes(b2) <= budget,
    ensures
        ({
            let after = trim(trim(s.push(b1), budget).push(b2), budget);
            let i = last_match(after, b2.screen_pos.width, b2.screen_pos.height);
            &&& i == after.len() - 1
            &&& after[i] == b2
        }),
{
    let t = trim(s.push(b1), budget).push(b2);
    assert(t.last() == b2);
    lemma_trim_keeps_newest(t, budget);
}

} // verus!
