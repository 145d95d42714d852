//! The nearest forward intersection among candidate ray parameters.

use vstd::prelude::*;
use crate::scalar::{Scalar, INFINITY_BITS};

verus! {

/// A parameter counts when it is `>= 0` and `< infinity`: at or ahead of the
/// ray's origin, and a number.
pub open spec fn forward(t: Scalar) -> bool {
    t.at_least(Scalar { bits: 0 }) && t.below(Scalar { bits: INFINITY_BITS })
}

/// Whether any entry of `ts` counts.
pub open spec fn has_forward(ts: Seq<Scalar>) -> bool {
    exists|k: int| 0 <= k < ts.len() && forward(#[trigger] ts[k])
}

/// `ts[j]` counts, nothing in `ts` that counts is smaller, and nothing before
/// it that counts is as small.
pub open spec fn first_least(ts: Seq<Scalar>, j: int) -> bool {
    &&& 0 <= j < ts.len()
    &&& forward(ts[j])
    &&& forall|k: int| 0 <= k < ts.len() && forward(#[trigger] ts[k]) ==> ts[j].rank() <= ts[k].rank()
    &&& forall|k: int| 0 <= k < j && forward(#[trigger] ts[k]) ==> ts[j].rank() < ts[k].rank()
}

/// Whether any object has an entry that counts.
pub open spec fn any_forward(cs: Seq<Seq<Scalar>>) -> bool {
    exists|k: int| 0 <= k < cs.len() && has_forward(#[trigger] cs[k])
}

/// Object `i` is the one met first, at parameter `t`: `t` is the first least
/// entry of object `i`, no object has a smaller entry that counts, and no
/// object before `i` has one as small.
pub open spec fn nearest_at(cs: Seq<Seq<Scalar>>, i: int, t: Scalar) -> bool {
    &&& 0 <= i < cs.len()
    &&& exists|j: int| first_least(cs[i], j) && cs[i][j] == t
    &&& forall|k: int, l: int|
        0 <= k < cs.len() && 0 <= l < cs[k].len() && forward(#[trigger] cs[k][l]) ==> t.rank()
            <= cs[k][l].rank()
    &&& forall|k: int, l: int|
        0 <= k < i && 0 <= l < cs[k].len() && forward(#[trigger] cs[k][l]) ==> t.rank()
            < cs[k][l].rank()
}

/// Whether `hit` is the answer for the candidates `cs`: the object met first
/// with its parameter, or `None` where no object has an entry that counts.
pub open spec fn resolves(cs: Seq<Seq<Scalar>>, hit: Option<(Scalar, usize)>) -> bool {
    match hit {
        None => !any_forward(cs),
        Some((t, i)) => nearest_at(cs, i as int, t),
    }
}

/// The candidate lists of a vector of vectors.
pub open spec fn lists(candidates: Seq<Vec<Scalar>>) -> Seq<Seq<Scalar>> {
    Seq::new(candidates.len(), |i: int| candidates[i]@)
}

/// The first least entry of `ts` that counts, with its index; `None` when no
/// entry counts.
pub fn nearest_forward(ts: &Vec<Scalar>) -> (r: Option<(Scalar, usize)>)
    ensures
        r is None <==> !has_forward(ts@),
        r matches Some((t, j)) ==> first_least(ts@, j as int) && t == ts@[j as int],
{
    let mut best = Scalar::infinity();
    let mut at: usize = 0;
    let mut i: usize = 0;
    while i < ts.len()
        invariant
            i <= ts.len(),
            !best.nan(),
            best.bits == INFINITY_BITS ==> forall|k: int| 0 <= k < i ==> !forward(#[trigger] ts@[k]),
            best.bits != INFINITY_BITS ==> first_least(ts@.take(i as int), at as int) && best
                == ts@[at as int],
        decreases ts.len() - i,
    {
        let t = ts[i];
        if t.ge(Scalar::zero()) && t.lt(best) {
            best = t;
            at = i;
        }
        i += 1;
    }
    assert(ts@.take(i as int) =~= ts@);
    if best.same(Scalar::infinity()) {
        None
    } else {
        Some((best, at))
    }
}

/// The object met first and the parameter at which it is met; `None` when no
/// object has an entry that counts. Of two objects with equal least entries the
/// earlier one is returned.
pub fn nearest_hit(candidates: &Vec<Vec<Scalar>>) -> (r: Option<(Scalar, usize)>)
    ensures
        resolves(lists(candidates@), r),
        r is None <==> !any_forward(lists(candidates@)),
{
    let ghost cs = lists(candidates@);
    let mut found: Option<(Scalar, usize)> = None;
    let mut i: usize = 0;
    while i < candidates.len()
        invariant
            i <= candidates.len(),
            cs == lists(candidates@),
            found is None <==> !any_forward(cs.take(i as int)),
            found matches Some((t, at)) ==> nearest_at(cs.take(i as int), at as int, t),
        decreases candidates.len() - i,
    {
        let own = nearest_forward(&candidates[i]);
        proof {
            assert(cs[i as int] == candidates@[i as int]@);
            lemma_extend(cs, i as int, found, own);
        }
        match own {
            None => {},
            Some((t, _)) => {
                match found {
                    None => {
                        found = Some((t, i));
                    },
                    Some((previous, _)) => {
                        if t.lt(previous) {
                            found = Some((t, i));
                        }
                    },
                }
            },
        }
        i += 1;
    }
    assert(cs.take(i as int) =~= cs);
    found
}

/// What one more object does to the nearest of the objects before it.
spec fn step(
    found: Option<(Scalar, usize)>,
    own: Option<(Scalar, usize)>,
    i: usize,
) -> Option<(Scalar, usize)> {
    match own {
        None => found,
        Some((t, _)) => match found {
            None => Some((t, i)),
            Some((previous, _)) => if t.below(previous) {
                Some((t, i))
            } else {
                found
            },
        },
    }
}

proof fn lemma_extend(
    cs: Seq<Seq<Scalar>>,
    i: int,
    found: Option<(Scalar, usize)>,
    own: Option<(Scalar, usize)>,
)
    requires
        0 <= i < cs.len(),
        i <= usize::MAX,
        found is None <==> !any_forward(cs.take(i)),
        found matches Some((t, at)) ==> nearest_at(cs.take(i), at as int, t),
        own is None <==> !has_forward(cs[i]),
        own matches Some((t, j)) ==> first_least(cs[i], j as int) && t == cs[i][j as int],
    ensures
        step(found, own, i as usize) is None <==> !any_forward(cs.take(i + 1)),
        step(found, own, i as usize) matches Some((t, at)) ==> nearest_at(
            cs.take(i + 1),
            at as int,
            t,
        ),
{
    let before = cs.take(i);
    let after = cs.take(i + 1);
    assert(forall|k: int| 0 <= k < i ==> #[trigger] after[k] == before[k]);
    assert(after[i] == cs[i]);
    if any_forward(before) {
        let k = choose|k: int| 0 <= k < before.len() && has_forward(#[trigger] before[k]);
        assert(has_forward(after[k]));
    }
    if has_forward(cs[i]) {
        assert(has_forward(after[i]));
    }
    if any_forward(after) {
        let k = choose|k: int| 0 <= k < after.len() && has_forward(#[trigger] after[k]);
        if k < i {
            assert(has_forward(before[k]));
        }
    }
    match step(found, own, i as usize) {
        None => {},
        Some((t, at)) => {
            if at as int == i && own is Some && t == own.unwrap().0 {
                let j = own.unwrap().1 as int;
                assert(first_least(after[i], j) && after[i][j] == t);
                assert forall|k: int, l: int|
                    0 <= k < after.len() && 0 <= l < after[k].len() && forward(
                        #[trigger] after[k][l],
                    ) implies t.rank() <= after[k][l].rank() by {
                    if k < i {
                        assert(forward(before[k][l]));
                        assert(has_forward(before[k]));
                    }
                }
                assert forall|k: int, l: int|
                    0 <= k < i && 0 <= l < after[k].len() && forward(
                        #[trigger] after[k][l],
                    ) implies t.rank() < after[k][l].rank() by {
                    assert(forward(before[k][l]));
                    assert(has_forward(before[k]));
                }
            } else {
                let a = at as int;
                assert(nearest_at(before, a, t));
                let j = choose|j: int| first_least(before[a], j) && before[a][j] == t;
                assert(first_least(after[a], j) && after[a][j] == t);
                assert forall|k: int, l: int|
                    0 <= k < after.len() && 0 <= l < after[k].len() && forward(
                        #[trigger] after[k][l],
                    ) implies t.rank() <= after[k][l].rank() by {
                    if k < i {
                        assert(forward(before[k][l]));
                    }
                }
                assert forall|k: int, l: int|
                    0 <= k < a && 0 <= l < after[k].len() && forward(
                        #[trigger] after[k][l],
                    ) implies t.rank() < after[k][l].rank() by {
                    assert(forward(before[k][l]));
                }
            }
        },
    }
}

/// A list has at most one first least entry.
pub proof fn lemma_first_least_unique(ts: Seq<Scalar>, j: int, k: int)
    requires
        first_least(ts, j),
        first_least(ts, k),
    ensures
        j == k,
{
}

/// A list has a first least entry exactly when it has an entry that counts.
pub proof fn lemma_first_least_exists(ts: Seq<Scalar>)
    ensures
        has_forward(ts) <==> exists|j: int| first_least(ts, j),
    decreases ts.len(),
{
    if has_forward(ts) {
        let k = choose|k: int| 0 <= k < ts.len() && forward(#[trigger] ts[k]);
        let front = ts.take(ts.len() - 1);
        let last = ts.len() - 1;
        assert(forall|m: int| 0 <= m < last ==> #[trigger] front[m] == ts[m]);
        lemma_first_least_exists(front);
        if has_forward(front) {
            let j = choose|j: int| first_least(front, j);
            if forward(ts[last]) && ts[last].rank() < front[j].rank() {
                assert forall|m: int| 0 <= m < last && forward(#[trigger] ts[m]) implies ts[last].rank()
                    < ts[m].rank() by {
                    assert(forward(front[m]));
                }
                assert(first_least(ts, last));
            } else {
                assert forall|m: int| 0 <= m < ts.len() && forward(#[trigger] ts[m]) implies ts[j].rank()
                    <= ts[m].rank() by {
                    if m < last {
                        assert(forward(front[m]));
                    }
                }
                assert forall|m: int| 0 <= m < j && forward(#[trigger] ts[m]) implies ts[j].rank()
                    < ts[m].rank() by {
                    assert(forward(front[m]));
                }
                assert(first_least(ts, j));
            }
        } else {
            assert forall|m: int| 0 <= m < last implies !forward(#[trigger] ts[m]) by {
                assert(front[m] == ts[m]);
            }
            assert(k == last);
            assert(first_least(ts, last));
        }
    }
    if exists|j: int| first_least(ts, j) {
        let j = choose|j: int| first_least(ts, j);
        assert(forward(ts[j]));
    }
}

/// A ray meets at most one object first, and at one parameter: two answers to
/// the same question are the same answer.
pub proof fn lemma_nearest_unique(cs: Seq<Seq<Scalar>>, i: int, t: Scalar, k: int, u: Scalar)
    requires
        nearest_at(cs, i, t),
        nearest_at(cs, k, u),
    ensures
        i == k,
        t == u,
{
    let j = choose|j: int| first_least(cs[i], j) && cs[i][j] == t;
    let l = choose|l: int| first_least(cs[k], l) && cs[k][l] == u;
    assert(forward(cs[i][j]));
    assert(forward(cs[k][l]));
    if i == k {
        lemma_first_least_unique(cs[i], j, l);
    }
}

/// Of two objects the one with the smaller least parameter `>= 0` is met
/// first, and where the two are equal, the one that was added first.
pub proof fn lemma_nearer_of_two(a: Seq<Scalar>, b: Seq<Scalar>, ja: int, jb: int)
    requires
        first_least(a, ja),
        first_least(b, jb),
    ensures
        a[ja].rank() <= b[jb].rank() ==> nearest_at(seq![a, b], 0, a[ja]),
        b[jb].rank() < a[ja].rank() ==> nearest_at(seq![a, b], 1, b[jb]),
{
    let cs = seq![a, b];
    assert(cs[0] == a && cs[1] == b);
    assert(first_least(cs[0], ja) && cs[0][ja] == a[ja]);
    assert(first_least(cs[1], jb) && cs[1][jb] == b[jb]);
}

/// An object whose ray parameters are all behind the origin, or not numbers,
/// is never the one met first.
pub proof fn lemma_behind_is_skipped(cs: Seq<Seq<Scalar>>, i: int, t: Scalar)
    requires
        nearest_at(cs, i, t),
    ensures
        has_forward(cs[i]),
        forward(t),
{
    let j = choose|j: int| first_least(cs[i], j) && cs[i][j] == t;
    assert(forward(cs[i][j]));
}

} // verus!
