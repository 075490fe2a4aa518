use vstd::prelude::*;

verus! {

/// Largest tile value that may still merge; its double is the largest tile a `u32` holds.
pub const MAX_MERGE: u32 = 0x4000_0000;

/// A tile value: `0` for an empty cell, else a power of two.
pub open spec fn is_pow2(v: nat) -> bool
    decreases v,
{
    if v <= 1 {
        v == 1
    } else {
        v % 2 == 0 && is_pow2(v / 2)
    }
}

/// A cell value that a grid may hold: empty, or a power of two from `2` up to `2 * MAX_MERGE`.
pub open spec fn is_tile(v: u32) -> bool {
    v == 0 || (2 <= v <= 2 * MAX_MERGE && is_pow2(v as nat))
}

/// Settles the tiles of a line, nearest the destination edge first.
/// Returns the settled tiles packed toward the edge and whether the last of them
/// came out of a merge. A tile advances over empty cells, merges with an equal
/// settled tile that is not itself the result of a merge, and otherwise stops.
pub open spec fn settle(s: Seq<u32>) -> (Seq<u32>, bool)
    decreases s.len(),
{
    if s.len() == 0 {
        (Seq::empty(), false)
    } else {
        let prev = settle(s.drop_last());
        let out = prev.0;
        let v = s.last();
        if v == 0 {
            prev
        } else if out.len() > 0 && out.last() == v && !prev.1 && v <= MAX_MERGE {
            (out.update(out.len() - 1, (2 * v) as u32), true)
        } else {
            (out.push(v), false)
        }
    }
}

/// `out` followed by empty cells up to four cells.
pub open spec fn pad4(out: Seq<u32>) -> Seq<u32> {
    Seq::new(4, |i: int| if i < out.len() { out[i] } else { 0u32 })
}

/// A line of four cells after a slide toward its index `0`.
pub open spec fn slid_line(s: Seq<u32>) -> Seq<u32> {
    pad4(settle(s).0)
}


/// The nonzero cells of a line, in order.
pub open spec fn tiles_of(s: Seq<u32>) -> Seq<u32>
    decreases s.len(),
{
    if s.len() == 0 {
        Seq::empty()
    } else if s.last() == 0 {
        tiles_of(s.drop_last())
    } else {
        tiles_of(s.drop_last()).push(s.last())
    }
}

/// Each tile of `outs` is one tile of `ins`, or two equal neighbouring tiles of `ins`
/// merged into their sum; the order is kept and every tile of `ins` is used once.
pub open spec fn made_of(ins: Seq<u32>, outs: Seq<u32>) -> bool
    decreases ins.len(),
{
    if ins.len() == 0 {
        outs.len() == 0
    } else if outs.len() == 0 {
        false
    } else {
        (outs.last() == ins.last() && made_of(ins.drop_last(), outs.drop_last())) || (
        ins.len() >= 2 && ins[ins.len() - 2] == ins.last() && outs.last() == 2 * ins.last()
            && made_of(ins.drop_last().drop_last(), outs.drop_last()))
    }
}

/// Settling a line merges each tile at most once, with one equal neighbour.
pub proof fn lemma_settle_made_of(s: Seq<u32>)
    ensures
        made_of(tiles_of(s), settle(s).0),
        settle(s).0.len() > 0 && !settle(s).1 ==> settle(s).0.last() == tiles_of(s).last()
            && made_of(tiles_of(s).drop_last(), settle(s).0.drop_last()),
    decreases s.len(),
{
    if s.len() > 0 {
        lemma_settle_made_of(s.drop_last());
        let prev = settle(s.drop_last());
        let t = tiles_of(s.drop_last());
        let v = s.last();
        if v != 0 {
            let t2 = t.push(v);
            assert(t2.drop_last() =~= t);
            if prev.0.len() > 0 && prev.0.last() == v && !prev.1 && v <= MAX_MERGE {
                let o2 = prev.0.update(prev.0.len() - 1, (2 * v) as u32);
                assert(o2.drop_last() =~= prev.0.drop_last());
                assert(t2.drop_last().drop_last() =~= t.drop_last());
            } else {
                assert(prev.0.push(v).drop_last() =~= prev.0);
            }
        }
    }
}

proof fn lemma_double_pow2(v: nat)
    requires
        is_pow2(v),
    ensures
        is_pow2(2 * v),
{
    assert((2 * v) / 2 == v);
}

proof fn lemma_settle_tiles(s: Seq<u32>)
    requires
        forall|i: int| 0 <= i < s.len() ==> is_tile(s[i]),
    ensures
        forall|i: int| 0 <= i < settle(s).0.len() ==> is_tile(#[trigger] settle(s).0[i]) && settle(s).0[i] != 0,
        settle(s).0.len() <= s.len(),
    decreases s.len(),
{
    if s.len() > 0 {
        lemma_settle_tiles(s.drop_last());
        let prev = settle(s.drop_last());
        let v = s.last();
        if v != 0 && prev.0.len() > 0 && prev.0.last() == v && !prev.1 && v <= MAX_MERGE {
            lemma_double_pow2(v as nat);
        }
    }
}

/// Sliding a line of tile values gives a line of tile values.
pub proof fn lemma_slid_line_tiles(s: Seq<u32>)
    requires
        s.len() == 4,
        forall|i: int| 0 <= i < 4 ==> is_tile(s[i]),
    ensures
        forall|i: int| 0 <= i < 4 ==> is_tile(#[trigger] slid_line(s)[i]),
{
    lemma_settle_tiles(s);
}

/// Slides one line of four cells toward its index `0`.
pub fn slide_line(line: [u32; 4]) -> (r: [u32; 4])
    ensures
        r@ == slid_line(line@),
{
    let mut out: [u32; 4] = [0, 0, 0, 0];
    let mut n: usize = 0;
    let mut merged = false;
    for i in 0..4
        invariant
            n <= i,
            n == settle(line@.take(i as int)).0.len(),
            merged == settle(line@.take(i as int)).1,
            forall|j: int| 0 <= j < n ==> out@[j] == settle(line@.take(i as int)).0[j],
            forall|j: int| n <= j < 4 ==> out@[j] == 0,
    {
        assert(line@.take(i + 1).drop_last() =~= line@.take(i as int));
        let v = line[i];
        if v != 0 {
            if n > 0 && out[n - 1] == v && !merged && v <= MAX_MERGE {
                out[n - 1] = 2 * v;
                merged = true;
            } else {
                out[n] = v;
                n = n + 1;
                merged = false;
            }
        }
    }
    assert(line@.take(4) =~= line@);
    assert(out@ =~= slid_line(line@));
    out
}

} // verus!
