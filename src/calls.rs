//! The calls this library makes into rand and itertools, each with the
//! contract the library relies on.

use vstd::prelude::*;
use crate::geometry::Pos;
use itertools::Itertools;
use rand::seq::IteratorRandom;

verus! {

/// `s` with every element after its first occurrence left out, in order.
pub open spec fn unique_seq<T>(s: Seq<T>) -> Seq<T>
    decreases s.len(),
{
    if s.len() == 0 {
        s
    } else {
        let r = unique_seq(s.drop_last());
        if r.contains(s.last()) {
            r
        } else {
            r.push(s.last())
        }
    }
}

pub proof fn lemma_unique_seq<T>(s: Seq<T>)
    ensures
        unique_seq(s).no_duplicates(),
        forall|x: T| #[trigger] unique_seq(s).contains(x) <==> s.contains(x),
    decreases s.len(),
{
    if s.len() > 0 {
        let p = s.drop_last();
        lemma_unique_seq(p);
        assert forall|x: T| s.contains(x) <==> (p.contains(x) || x == s.last()) by {
            if s.contains(x) {
                let i = choose|i: int| 0 <= i < s.len() && s[i] == x;
                if i < s.len() - 1 {
                    assert(p[i] == x);
                }
            }
            if p.contains(x) {
                let i = choose|i: int| 0 <= i < p.len() && p[i] == x;
                assert(s[i] == x);
            }
            if x == s.last() {
                assert(s[s.len() - 1] == x);
            }
        }
        let r = unique_seq(p);
        if !r.contains(s.last()) {
            let q = r.push(s.last());
            assert forall|x: T| q.contains(x) <==> (r.contains(x) || x == s.last()) by {
                if q.contains(x) {
                    let i = choose|i: int| 0 <= i < q.len() && q[i] == x;
                    if i < r.len() {
                        assert(r[i] == x);
                    }
                }
                if r.contains(x) {
                    let i = choose|i: int| 0 <= i < r.len() && r[i] == x;
                    assert(q[i] == x);
                }
                if x == s.last() {
                    assert(q[q.len() - 1] == x);
                }
            }
        }
    }
}

/// Relies on itertools' `Itertools::unique`: it keeps the first occurrence of
/// each value, in the order of the input (equality of the `(x, y)` pairs).
#[verifier::external_body]
pub(crate) fn unique_cells(v: Vec<Pos>) -> (r: Vec<Pos>)
    ensures
        r@ == unique_seq(v@),
{
    v.into_iter().map(|p| (p.x, p.y)).unique().map(|(x, y)| Pos { x, y }).collect()
}

/// Relies on rand's `IteratorRandom::choose` over `thread_rng()`: `None` for
/// no candidates, otherwise one of them.
#[verifier::external_body]
pub(crate) fn choose_cell(candidates: &Vec<Pos>) -> (r: Option<Pos>)
    ensures
        r is None <==> candidates@.len() == 0,
        r matches Some(p) ==> candidates@.contains(p),
{
    candidates.iter().copied().choose(&mut rand::thread_rng())
}

} // verus!
