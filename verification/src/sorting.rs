use vstd::prelude::*;
use crate::chunk::Chunk;
use crate::world::{dist_sq, distance_squared, distinct_positions, has_chunk_at, lemma_dist_sq_fits};

verus! {

/// How far a chunk is from `center`: the square of the straight-line
/// distance between its coordinates and `center`.
pub open spec fn remoteness(chunk: Chunk, center: (usize, usize)) -> int {
    dist_sq(chunk.pos, center)
}

/// A run of chunks ordered farthest first, with `chunk` put in behind every
/// chunk that is at least as far from `center` as it is.
pub open spec fn insert_by_distance(run: Seq<Chunk>, chunk: Chunk, center: (usize, usize)) -> Seq<
    Chunk,
>
    decreases run.len(),
{
    if run.len() == 0 {
        seq![chunk]
    } else if remoteness(run.last(), center) >= remoteness(chunk, center) {
        run.push(chunk)
    } else {
        insert_by_distance(run.drop_last(), chunk, center).push(run.last())
    }
}

/// The chunks ordered farthest from `center` first. Chunks that are equally
/// far keep the order they had.
pub open spec fn farthest_first(chunks: Seq<Chunk>, center: (usize, usize)) -> Seq<Chunk>
    decreases chunks.len(),
{
    if chunks.len() == 0 {
        Seq::empty()
    } else {
        insert_by_distance(farthest_first(chunks.drop_last(), center), chunks.last(), center)
    }
}

/// Whether no chunk of a run is farther from `center` than one before it.
pub open spec fn is_farthest_first(run: Seq<Chunk>, center: (usize, usize)) -> bool {
    forall|i: int, j: int|
        0 <= i <= j < run.len() ==> remoteness(#[trigger] run[i], center) >= remoteness(
            #[trigger] run[j],
            center,
        )
}

/// Where [`insert_by_distance`] puts a chunk: at the place `p` of the run such
/// that every chunk from `p` on is nearer than it, and the chunk before `p`,
/// if any, is not.
pub proof fn lemma_insert_place(run: Seq<Chunk>, chunk: Chunk, center: (usize, usize), p: int)
    requires
        0 <= p <= run.len(),
        forall|j: int| p <= j < run.len() ==> remoteness(#[trigger] run[j], center) < remoteness(chunk, center),
        p > 0 ==> remoteness(run[p - 1], center) >= remoteness(chunk, center),
    ensures
        insert_by_distance(run, chunk, center) == run.insert(p, chunk),
    decreases run.len(),
{
    if run.len() == 0 {
        assert(run.insert(p, chunk) =~= seq![chunk]);
    } else if p == run.len() {
        assert(run.insert(p, chunk) =~= run.push(chunk));
    } else {
        assert(remoteness(run[run.len() - 1], center) < remoteness(chunk, center));
        lemma_insert_place(run.drop_last(), chunk, center, p);
        assert(run.drop_last().insert(p, chunk).push(run.last()) =~= run.insert(p, chunk));
    }
}

/// [`insert_by_distance`] puts the chunk somewhere in the run and leaves the
/// rest in place; where the run was ordered farthest first, so is the result.
pub proof fn lemma_insert_somewhere(run: Seq<Chunk>, chunk: Chunk, center: (usize, usize)) -> (p:
    int)
    ensures
        0 <= p <= run.len(),
        insert_by_distance(run, chunk, center) == run.insert(p, chunk),
        is_farthest_first(run, center) ==> is_farthest_first(
            insert_by_distance(run, chunk, center),
            center,
        ),
    decreases run.len(),
{
    if run.len() == 0 {
        assert(run.insert(0, chunk) =~= seq![chunk]);
        0
    } else if remoteness(run.last(), center) >= remoteness(chunk, center) {
        assert(run.insert(run.len() as int, chunk) =~= run.push(chunk));
        run.len() as int
    } else {
        let p = lemma_insert_somewhere(run.drop_last(), chunk, center);
        let front = insert_by_distance(run.drop_last(), chunk, center);
        assert(run.drop_last().insert(p, chunk).push(run.last()) =~= run.insert(p, chunk));
        if is_farthest_first(run, center) {
            assert(is_farthest_first(run.drop_last(), center)) by {
                assert forall|i: int, j: int| 0 <= i <= j < run.drop_last().len() implies remoteness(
                    #[trigger] run.drop_last()[i],
                    center,
                ) >= remoteness(#[trigger] run.drop_last()[j], center) by {
                    assert(run.drop_last()[i] == run[i] && run.drop_last()[j] == run[j]);
                }
            }
            let out = front.push(run.last());
            assert forall|i: int, j: int| 0 <= i <= j < out.len() implies remoteness(
                #[trigger] out[i],
                center,
            ) >= remoteness(#[trigger] out[j], center) by {
                if j < front.len() {
                    assert(out[i] == front[i] && out[j] == front[j]);
                } else if i < front.len() {
                    assert(out[i] == front[i]);
                    if i < p {
                        assert(front[i] == run[i]);
                    } else if i > p {
                        assert(front[i] == run[i - 1]);
                    }
                }
            }
        }
        p
    }
}

/// [`farthest_first`] rearranges: it gives the same chunks, each as often as
/// before, no chunk farther from `center` than one before it.
pub proof fn lemma_farthest_first_sorts(chunks: Seq<Chunk>, center: (usize, usize))
    ensures
        farthest_first(chunks, center).len() == chunks.len(),
        farthest_first(chunks, center).to_multiset() == chunks.to_multiset(),
        is_farthest_first(farthest_first(chunks, center), center),
    decreases chunks.len(),
{
    if chunks.len() == 0 {
        assert(chunks =~= Seq::<Chunk>::empty());
    } else {
        let rest = chunks.drop_last();
        let last = chunks.last();
        let front = farthest_first(rest, center);
        lemma_farthest_first_sorts(rest, center);
        let p = lemma_insert_somewhere(front, last, center);
        vstd::seq_lib::to_multiset_insert(front, p, last);
        vstd::seq_lib::to_multiset_build(rest, last);
        assert(rest.push(last) =~= chunks);
        assert(front.insert(p, last).to_multiset() == front.to_multiset().insert(last));
        assert(rest.push(last).to_multiset() == rest.to_multiset().insert(last));
    }
}

/// [`farthest_first`] keeps chunks in order and at distinct coordinates, and
/// neither adds nor loses a coordinate.
pub proof fn lemma_farthest_first_keeps(chunks: Seq<Chunk>, center: (usize, usize))
    ensures
        farthest_first(chunks, center).len() == chunks.len(),
        (forall|i: int| 0 <= i < chunks.len() ==> (#[trigger] chunks[i]).wf()) ==> (forall|i: int|
            0 <= i < chunks.len() ==> (#[trigger] farthest_first(chunks, center)[i]).wf()),
        forall|pos: (usize, usize)|
            has_chunk_at(farthest_first(chunks, center), pos) <==> has_chunk_at(chunks, pos),
        distinct_positions(chunks) ==> distinct_positions(farthest_first(chunks, center)),
    decreases chunks.len(),
{
    let out = farthest_first(chunks, center);
    if chunks.len() == 0 {
    } else {
        let rest = chunks.drop_last();
        let last = chunks.last();
        let front = farthest_first(rest, center);
        lemma_farthest_first_keeps(rest, center);
        let p = lemma_insert_somewhere(front, last, center);
        assert(out == front.insert(p, last));
        assert forall|i: int| 0 <= i < out.len() implies (out[i] == last && i == p) || (exists|
            k: int,
        |
            0 <= k < front.len() && #[trigger] front[k] == out[i] && k == (if i < p {
                i
            } else {
                i - 1
            })) by {
            if i < p {
                assert(front[i] == out[i]);
            } else if i > p {
                assert(front[i - 1] == out[i]);
            }
        }
        if forall|i: int| 0 <= i < chunks.len() ==> (#[trigger] chunks[i]).wf() {
            assert forall|i: int| 0 <= i < rest.len() implies (#[trigger] rest[i]).wf() by {
                assert(rest[i] == chunks[i]);
            }
            assert(chunks[chunks.len() - 1].wf());
            assert forall|i: int| 0 <= i < chunks.len() implies (#[trigger] out[i]).wf() by {
                if i < p {
                    assert(front[i] == out[i]);
                } else if i > p {
                    assert(front[i - 1] == out[i]);
                }
            }
        }
        assert forall|pos: (usize, usize)| has_chunk_at(out, pos) <==> has_chunk_at(
            chunks,
            pos,
        ) by {
            if has_chunk_at(out, pos) {
                let i = choose|i: int| 0 <= i < out.len() && (#[trigger] out[i]).pos == pos;
                if i == p {
                    assert(chunks[chunks.len() - 1].pos == pos);
                } else {
                    let k = if i < p {
                        i
                    } else {
                        i - 1
                    };
                    assert(front[k] == out[i]);
                    assert(has_chunk_at(front, pos));
                    assert(has_chunk_at(rest, pos));
                    let j = choose|j: int| 0 <= j < rest.len() && (#[trigger] rest[j]).pos == pos;
                    assert(chunks[j].pos == pos);
                }
            }
            if has_chunk_at(chunks, pos) {
                let j = choose|j: int| 0 <= j < chunks.len() && (#[trigger] chunks[j]).pos == pos;
                if j == chunks.len() - 1 {
                    assert(out[p].pos == pos);
                } else {
                    assert(rest[j].pos == pos);
                    assert(has_chunk_at(rest, pos));
                    assert(has_chunk_at(front, pos));
                    let k = choose|k: int| 0 <= k < front.len() && (#[trigger] front[k]).pos == pos;
                    if k < p {
                        assert(out[k] == front[k]);
                    } else {
                        assert(out[k + 1] == front[k]);
                    }
                }
            }
        }
        if distinct_positions(chunks) {
            assert(distinct_positions(rest)) by {
                assert forall|i: int, j: int|
                    0 <= i < rest.len() && 0 <= j < rest.len() && i != j implies (
                #[trigger] rest[i]).pos != (#[trigger] rest[j]).pos by {
                    assert(rest[i] == chunks[i] && rest[j] == chunks[j]);
                }
            }
            assert(!has_chunk_at(front, last.pos)) by {
                if has_chunk_at(rest, last.pos) {
                    let j = choose|j: int|
                        0 <= j < rest.len() && (#[trigger] rest[j]).pos == last.pos;
                    assert(chunks[j].pos == chunks[chunks.len() - 1].pos);
                }
            }
            assert forall|i: int, j: int|
                0 <= i < out.len() && 0 <= j < out.len() && i != j implies (#[trigger] out[i]).pos
                != (#[trigger] out[j]).pos by {
                let ki = if i < p {
                    i
                } else {
                    i - 1
                };
                let kj = if j < p {
                    j
                } else {
                    j - 1
                };
                if i != p {
                    assert(front[ki] == out[i]);
                }
                if j != p {
                    assert(front[kj] == out[j]);
                }
            }
        }
    }
}

/// Orders chunks farthest from `center` first, chunks that are equally far
/// keeping their order.
pub fn sort_farthest_first(chunks: &mut Vec<Chunk>, center: (usize, usize))
    requires
        forall|i: int| 0 <= i < old(chunks)@.len() ==> (#[trigger] old(chunks)@[i]).wf(),
        center.0 <= 0x8000_0000_0000_0000,
        center.1 <= 0x8000_0000_0000_0000,
    ensures
        final(chunks)@ == farthest_first(old(chunks)@, center),
{
    let ghost all = chunks@;
    let mut rest: Vec<Chunk> = Vec::new();
    std::mem::swap(chunks, &mut rest);
    let ghost mut done: int = 0;
    proof {
        assert(all.take(0) =~= Seq::<Chunk>::empty());
        assert(all.skip(0) =~= all);
    }
    while rest.len() > 0
        invariant
            0 <= done <= all.len(),
            forall|i: int| 0 <= i < all.len() ==> (#[trigger] all[i]).wf(),
            center.0 <= 0x8000_0000_0000_0000,
            center.1 <= 0x8000_0000_0000_0000,
            rest@ == all.skip(done),
            chunks@ == farthest_first(all.take(done), center),
        decreases rest.len(),
    {
        let chunk = rest.remove(0);
        proof {
            assert(chunk == all[done]);
            assert(all[done].wf());
            lemma_farthest_first_keeps(all.take(done), center);
            assert forall|i: int| 0 <= i < chunks@.len() implies (#[trigger] chunks@[i]).wf() by {
                assert forall|j: int| 0 <= j < all.take(done).len() implies (
                #[trigger] all.take(done)[j]).wf() by {
                    assert(all.take(done)[j] == all[j]);
                }
            }
            lemma_dist_sq_fits(chunk.pos, center);
        }
        let key: u128 = distance_squared(chunk.pos, center);
        let mut p: usize = chunks.len();
        let mut searching: bool = true;
        while searching && p > 0
            invariant
                p <= chunks.len(),
                key == remoteness(chunk, center),
                center.0 <= 0x8000_0000_0000_0000,
                center.1 <= 0x8000_0000_0000_0000,
                forall|i: int| 0 <= i < chunks@.len() ==> (#[trigger] chunks@[i]).wf(),
                forall|j: int|
                    p <= j < chunks@.len() ==> remoteness(#[trigger] chunks@[j], center) < key,
                !searching ==> p > 0 && remoteness(chunks@[p - 1], center) >= key,
            decreases p + (if searching { 1int } else { 0int }),
        {
            proof {
                assert(chunks@[p - 1].wf());
                lemma_dist_sq_fits(chunks@[p - 1].pos, center);
            }
            if distance_squared(chunks[p - 1].pos, center) < key {
                p -= 1;
            } else {
                searching = false;
            }
        }
        proof {
            lemma_insert_place(chunks@, chunk, center, p as int);
            assert(all.take(done + 1).drop_last() =~= all.take(done));
            assert(all.take(done + 1).last() == all[done]);
            assert(all.skip(done).remove(0) =~= all.skip(done + 1));
        }
        chunks.insert(p, chunk);
        proof {
            done = done + 1;
        }
    }
    proof {
        assert(all.take(done) =~= all);
    }
}

} // verus!
