use vstd::prelude::*;

verus! {

/// Number of the first `i` tiles of a batch that go to worker `w`, when tile
/// `j` goes to worker `j % workers`.
pub open spec fn sent_to(i: nat, w: nat, workers: nat) -> nat
    decreases i,
{
    if i == 0 {
        0
    } else {
        sent_to((i - 1) as nat, w, workers) + if (i - 1) as nat % workers == w {
            1nat
        } else {
            0nat
        }
    }
}

/// Closed form of `sent_to`.
pub proof fn lemma_sent_to(i: nat, w: nat, workers: nat)
    requires
        w < workers,
    ensures
        sent_to(i, w, workers) == i / workers + if i % workers > w {
            1nat
        } else {
            0nat
        },
    decreases i,
{
    if i == 0 {
        assert(0nat / workers == 0 && 0nat % workers == 0) by (nonlinear_arith)
            requires
                workers > 0,
        ;
    } else {
        let p = (i - 1) as nat;
        lemma_sent_to(p, w, workers);
        let q = p / workers;
        let m = p % workers;
        assert(p == workers * q + m && m < workers) by {
            vstd::arithmetic::div_mod::lemma_fundamental_div_mod(p as int, workers as int);
        }
        if m == workers - 1 {
            assert(i == workers * (q + 1) + 0) by (nonlinear_arith)
                requires
                    p == workers * q + m,
                    m == workers - 1,
                    i == p + 1,
            ;
            vstd::arithmetic::div_mod::lemma_fundamental_div_mod_converse(
                i as int,
                workers as int,
                (q + 1) as int,
                0,
            );
        } else {
            assert(i == workers * q + (m + 1));
            vstd::arithmetic::div_mod::lemma_fundamental_div_mod_converse(
                i as int,
                workers as int,
                q as int,
                (m + 1) as int,
            );
        }
    }
}

/// At most `i` of the first `i` tiles go to any one worker.
pub proof fn lemma_sent_to_bound(i: nat, w: nat, workers: nat)
    ensures
        sent_to(i, w, workers) <= i,
    decreases i,
{
    if i > 0 {
        lemma_sent_to_bound((i - 1) as nat, w, workers);
    }
}

/// Tiles are dealt round-robin and each worker answers in the order it was
/// sent work, so tile `i` is the `(i / workers)`-th tile that worker
/// `i % workers` receives, and reading answers back with the same indexing
/// pairs every tile with its own painted buffer.
pub proof fn lemma_round_robin_position(i: nat, workers: nat)
    requires
        workers > 0,
    ensures
        sent_to(i, i % workers, workers) == i / workers,
        i / workers < sent_to(i + 1, i % workers, workers),
{
    lemma_sent_to(i, i % workers, workers);
    assert(i % workers < workers);
}

/// Worker that paints tile `i` of a batch.
pub fn worker_for_tile(i: usize, workers: usize) -> (r: usize)
    requires
        workers > 0,
    ensures
        r == i % workers,
        r < workers,
{
    i % workers
}

/// Number of tiles of a batch of `tile_count` that worker `w` receives.
pub fn tiles_for_worker(tile_count: usize, w: usize, workers: usize) -> (r: usize)
    requires
        w < workers,
    ensures
        r == sent_to(tile_count as nat, w as nat, workers as nat),
{
    proof {
        lemma_sent_to(tile_count as nat, w as nat, workers as nat);
        lemma_sent_to_bound(tile_count as nat, w as nat, workers as nat);
    }
    let extra: usize = if tile_count % workers > w { 1 } else { 0 };
    tile_count / workers + extra
}

/// Puts the answers of the workers back in tile order: `per_worker[w]` holds
/// worker `w`'s answers in the order it was sent tiles, and answer `i` of
/// the result is read from worker `i % workers` at position `i / workers`.
pub fn gather_in_tile_order<T: Copy>(per_worker: &Vec<Vec<T>>, tile_count: usize) -> (r: Vec<T>)
    requires
        per_worker@.len() > 0,
        forall|w: int|
            0 <= w < per_worker@.len() ==> #[trigger] per_worker@[w]@.len() == sent_to(
                tile_count as nat,
                w as nat,
                per_worker@.len() as nat,
            ),
    ensures
        r@.len() == tile_count,
        forall|i: int|
            0 <= i < tile_count ==> r@[i] == per_worker@[i % per_worker@.len() as int]@[i
                / per_worker@.len() as int],
{
    let workers = per_worker.len();
    let mut r: Vec<T> = Vec::new();
    let mut i: usize = 0;
    while i < tile_count
        invariant
            workers == per_worker@.len(),
            workers > 0,
            i <= tile_count,
            r@.len() == i,
            forall|w: int|
                0 <= w < per_worker@.len() ==> #[trigger] per_worker@[w]@.len() == sent_to(
                    tile_count as nat,
                    w as nat,
                    workers as nat,
                ),
            forall|j: int| 0 <= j < i ==> r@[j] == per_worker@[j % workers as int]@[j / workers as int],
        decreases tile_count - i,
    {
        let w = i % workers;
        proof {
            lemma_round_robin_position(i as nat, workers as nat);
            lemma_sent_to(i as nat + 1, w as nat, workers as nat);
            lemma_sent_to(tile_count as nat, w as nat, workers as nat);
            assert(sent_to(i as nat + 1, w as nat, workers as nat) <= sent_to(tile_count as nat, w as nat, workers as nat))
                by {
                lemma_sent_to_monotone(i as nat + 1, tile_count as nat, w as nat, workers as nat);
            }
        }
        r.push(per_worker[w][i / workers]);
        i = i + 1;
    }
    r
}

proof fn lemma_sent_to_monotone(a: nat, b: nat, w: nat, workers: nat)
    requires
        a <= b,
    ensures
        sent_to(a, w, workers) <= sent_to(b, w, workers),
    decreases b,
{
    if a < b {
        lemma_sent_to_monotone(a, (b - 1) as nat, w, workers);
    }
}

} // verus!
