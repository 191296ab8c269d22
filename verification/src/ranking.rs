//! Ordering of search results: higher score first, then more stars, then
//! catalog order.

use vstd::prelude::*;

verus! {

/// A ranked entry: score, stars and position in the catalog.
pub type Ranked = (i32, u64, usize);

/// `a` comes before `b`: higher score, or equal score and more stars, or both
/// equal and earlier in the catalog.
pub open spec fn ranks_before(a: Ranked, b: Ranked) -> bool {
    a.0 > b.0 || (a.0 == b.0 && (a.1 > b.1 || (a.1 == b.1 && a.2 < b.2)))
}

pub open spec fn strictly_ranked(s: Seq<Ranked>) -> bool {
    forall|i: int, j: int| 0 <= i < j < s.len() ==> ranks_before(#[trigger] s[i], #[trigger] s[j])
}

pub open spec fn positions_increase(s: Seq<Ranked>) -> bool {
    forall|i: int, j: int| 0 <= i < j < s.len() ==> (#[trigger] s[i]).2 < (#[trigger] s[j]).2
}

fn ranks_before_exec(a: Ranked, b: Ranked) -> (r: bool)
    ensures
        r == ranks_before(a, b),
{
    a.0 > b.0 || (a.0 == b.0 && (a.1 > b.1 || (a.1 == b.1 && a.2 < b.2)))
}

/// Sorts entries into ranking order. Sorting by score and stars is stable:
/// entries that tie keep their catalog order.
pub fn rank_entries(entries: &Vec<Ranked>) -> (r: Vec<Ranked>)
    requires
        positions_increase(entries@),
    ensures
        r@.len() == entries@.len(),
        forall|x: Ranked| r@.contains(x) <==> entries@.contains(x),
        strictly_ranked(r@),
{
    let mut out: Vec<Ranked> = Vec::new();
    let mut i: usize = 0;
    while i < entries.len()
        invariant
            i <= entries.len(),
            positions_increase(entries@),
            out@.len() == i,
            forall|x: Ranked| out@.contains(x) <==> entries@.subrange(0, i as int).contains(x),
            strictly_ranked(out@),
        decreases entries.len() - i,
    {
        let e = entries[i];
        assert forall|k: int| 0 <= k < out@.len() implies (#[trigger] out@[k]).2 < e.2 by {
            assert(out@.contains(out@[k]));
            let j = choose|j: int| 0 <= j < i && entries@.subrange(0, i as int)[j] == out@[k];
            assert(entries@[j] == out@[k]);
        }
        let mut pos: usize = 0;
        while pos < out.len() && ranks_before_exec(out[pos], e)
            invariant
                pos <= out@.len(),
                forall|k: int| 0 <= k < pos ==> ranks_before(#[trigger] out@[k], e),
            decreases out@.len() - pos,
        {
            pos = pos + 1;
        }
        let ghost old_out = out@;
        proof {
            assert forall|k: int| pos <= k < old_out.len() implies ranks_before(e, #[trigger] old_out[k]) by {
                if k > pos {
                    assert(ranks_before(old_out[pos as int], old_out[k]));
                }
                assert(!ranks_before(old_out[pos as int], e));
                assert(old_out[k].2 < e.2);
            }
            old_out.insert_ensures(pos as int, e);
        }
        out.insert(pos, e);
        proof {
            let n = out@;
            assert forall|a: int, b: int| 0 <= a < b < n.len() implies ranks_before(#[trigger] n[a], #[trigger] n[b]) by {
                if b < pos {
                } else if b == pos {
                    assert(n[a] == old_out[a]);
                } else if a < pos {
                    assert(n[b] == old_out[b - 1]);
                    assert(ranks_before(old_out[a], e));
                    assert(ranks_before(e, old_out[b - 1]));
                } else if a == pos {
                    assert(n[b] == old_out[b - 1]);
                } else {
                    assert(n[a] == old_out[a - 1]);
                    assert(n[b] == old_out[b - 1]);
                }
            }
            assert forall|x: Ranked| n.contains(x) <==> entries@.subrange(0, i + 1).contains(x) by {
                let pre = entries@.subrange(0, i as int);
                let pre1 = entries@.subrange(0, i + 1);
                if n.contains(x) {
                    let k = choose|k: int| 0 <= k < n.len() && n[k] == x;
                    if k == pos {
                        assert(pre1[i as int] == x);
                    } else {
                        let k0 = if k < pos { k } else { k - 1 };
                        assert(old_out[k0] == x);
                        assert(old_out.contains(x));
                        let j = choose|j: int| 0 <= j < pre.len() && pre[j] == x;
                        assert(pre1[j] == x);
                    }
                }
                if pre1.contains(x) {
                    let j = choose|j: int| 0 <= j < pre1.len() && pre1[j] == x;
                    if j == i {
                        assert(n[pos as int] == x);
                    } else {
                        assert(pre[j] == x);
                        assert(pre.contains(x));
                        assert(old_out.contains(x));
                        let k0 = choose|k: int| 0 <= k < old_out.len() && old_out[k] == x;
                        if k0 < pos {
                            assert(n[k0] == x);
                        } else {
                            assert(n[k0 + 1] == x);
                        }
                    }
                }
            }
        }
        i = i + 1;
    }
    assert(entries@.subrange(0, i as int) =~= entries@);
    out
}

} // verus!
