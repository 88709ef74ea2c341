use vstd::prelude::*;
use crate::clue::{Category, Clue};
use crate::random::draw_below;
use crate::value::tier_at;

verus! {

/// Some clue of `clues` carries exactly the raw value `v`.
pub open spec fn has_value(clues: Seq<Clue>, v: Option<i32>) -> bool {
    exists|i: int| 0 <= i < clues.len() && #[trigger] clues[i].value == v
}

/// `r` is `src` with its value set to `v`.
pub open spec fn revalued(r: Clue, src: Clue, v: Option<i32>) -> bool {
    &&& r.id == src.id
    &&& r.answer == src.answer
    &&& r.question == src.question
    &&& r.category_id == src.category_id
    &&& r.value == v
}

/// A clue for value `v` can be drawn from `clues`: one carries `v`, or `v` is
/// a value and an unvalued clue can stand in for it.
pub open spec fn fillable(clues: Seq<Clue>, v: Option<i32>) -> bool {
    has_value(clues, v) || (v is Some && has_value(clues, None))
}

/// `r` is a valid draw for value `v` from `clues`: one of the clues carrying
/// `v` when there is one, else an unvalued clue with its value forced to `v`.
pub open spec fn drawn_for(r: Clue, clues: Seq<Clue>, v: Option<i32>) -> bool {
    if has_value(clues, v) {
        exists|i: int| 0 <= i < clues.len() && clues[i].value == v && #[trigger] clues[i] == r
    } else {
        exists|i: int| 0 <= i < clues.len() && clues[i].value is None && revalued(r, #[trigger] clues[i], v)
    }
}

/// All five tiers of `clues` can be filled.
pub open spec fn all_tiers_fillable(clues: Seq<Clue>) -> bool {
    forall|t: int| 0 <= t < 5 ==> fillable(clues, Some(#[trigger] tier_at(t)))
}

/// `out` holds one valid draw per tier, in ascending tier order.
pub open spec fn shuffled_from(out: Seq<Clue>, clues: Seq<Clue>) -> bool {
    &&& out.len() == 5
    &&& forall|t: int| 0 <= t < 5 ==> (#[trigger] out[t]).value == Some(tier_at(t))
    &&& forall|t: int| 0 <= t < 5 ==> drawn_for(#[trigger] out[t], clues, Some(tier_at(t)))
}

/// Positions of the clues of `clues` whose value is exactly `v`, ascending.
pub open spec fn positions_with(clues: Seq<Clue>, v: Option<i32>) -> Seq<int>
    decreases clues.len(),
{
    if clues.len() == 0 {
        Seq::empty()
    } else {
        let p = positions_with(clues.drop_last(), v);
        if clues.last().value == v {
            p.push(clues.len() - 1)
        } else {
            p
        }
    }
}

/// The positions a draw for value `v` chooses among: those carrying `v`,
/// else, when `v` is a value, those with no value.
pub open spec fn candidates(clues: Seq<Clue>, v: Option<i32>) -> Seq<int> {
    if positions_with(clues, v).len() > 0 {
        positions_with(clues, v)
    } else if v is Some {
        positions_with(clues, None)
    } else {
        Seq::empty()
    }
}

/// The clue that draw number `k` among the candidates for `v` yields, with
/// its value set to `v`.
pub open spec fn drawn_at(clues: Seq<Clue>, v: Option<i32>, k: int) -> Option<Clue> {
    if 0 <= k < candidates(clues, v).len() {
        Some(Clue { value: v, ..clues[candidates(clues, v)[k]] })
    } else {
        None
    }
}

proof fn lemma_positions_with(clues: Seq<Clue>, v: Option<i32>)
    ensures
        forall|k: int| 0 <= k < positions_with(clues, v).len() ==> {
            &&& 0 <= #[trigger] positions_with(clues, v)[k] < clues.len()
            &&& clues[positions_with(clues, v)[k]].value == v
        },
        positions_with(clues, v).len() == 0 <==> !has_value(clues, v),
    decreases clues.len(),
{
    if clues.len() > 0 {
        let d = clues.drop_last();
        lemma_positions_with(d, v);
        if has_value(d, v) {
            let i = choose|i: int| 0 <= i < d.len() && #[trigger] d[i].value == v;
            assert(clues[i].value == v);
        }
        if has_value(clues, v) && clues.last().value != v {
            let i = choose|i: int| 0 <= i < clues.len() && #[trigger] clues[i].value == v;
            assert(d[i].value == v);
        }
    }
}

/// Positions of the clues of `clues` whose value is exactly `v`, ascending.
fn positions_with_value(clues: &Vec<Clue>, v: Option<i32>) -> (r: Vec<usize>)
    ensures
        r@.len() == positions_with(clues@, v).len(),
        forall|k: int| 0 <= k < r@.len() ==> #[trigger] r@[k] as int == positions_with(clues@, v)[k],
{
    let mut r: Vec<usize> = Vec::new();
    let mut i: usize = 0;
    while i < clues.len()
        invariant
            i <= clues@.len(),
            r@.len() == positions_with(clues@.take(i as int), v).len(),
            forall|k: int| 0 <= k < r@.len() ==> #[trigger] r@[k] as int == positions_with(clues@.take(i as int), v)[k],
        decreases clues.len() - i,
    {
        assert(clues@.take(i + 1).drop_last() =~= clues@.take(i as int));
        if clues[i].value == v {
            r.push(i);
        }
        i = i + 1;
    }
    assert(clues@.take(clues@.len() as int) =~= clues@);
    r
}

/// Positions a draw for `value` chooses among (see `candidates`).
fn candidate_positions(category: &Category, value: Option<i32>) -> (r: Vec<usize>)
    ensures
        r@.len() == candidates(category.clues@, value).len(),
        forall|k: int| 0 <= k < r@.len() ==> #[trigger] r@[k] as int == candidates(category.clues@, value)[k],
{
    let exact = positions_with_value(&category.clues, value);
    if exact.len() > 0 || value.is_none() {
        exact
    } else {
        positions_with_value(&category.clues, None)
    }
}

/// How many clues a draw for `value` chooses among.
pub fn candidate_count(category: &Category, value: Option<i32>) -> (r: usize)
    ensures
        r == candidates(category.clues@, value).len(),
{
    candidate_positions(category, value).len()
}

/// The clue that draw number `k` among the candidates for `value` yields:
/// the `k`-th clue carrying `value`, or, when none does and `value` is a
/// value, the `k`-th unvalued clue with its value set to `value`. `None` when
/// `k` is out of range.
pub fn clue_at(category: &Category, value: Option<i32>, k: usize) -> (r: Option<Clue>)
    ensures
        r == drawn_at(category.clues@, value, k as int),
{
    let pos = candidate_positions(category, value);
    if k >= pos.len() {
        return None;
    }
    proof {
        lemma_positions_with(category.clues@, value);
        lemma_positions_with(category.clues@, None);
    }
    let p = pos[k];
    let mut clue = category.clues[p].clone();
    clue.value = value;
    Some(clue)
}

/// Uniformly draws one clue of `category` carrying `value`; when none does and
/// `value` is a value, draws an unvalued clue and forces its value to `value`.
/// `None` when neither is possible.
pub fn get_clue_sample(category: &Category, value: Option<i32>) -> (r: Option<Clue>)
    ensures
        r is Some <==> fillable(category.clues@, value),
        r is Some ==> drawn_for(r.unwrap(), category.clues@, value),
        r is Some ==> exists|k: int| 0 <= k < candidates(category.clues@, value).len() && r == drawn_at(category.clues@, value, k),
{
    proof {
        lemma_positions_with(category.clues@, value);
        lemma_positions_with(category.clues@, None);
    }
    let n = candidate_count(category, value);
    if n == 0 {
        return None;
    }
    let k = draw_below(n);
    let r = clue_at(category, value, k);
    proof {
        let clues = category.clues@;
        let i = candidates(clues, value)[k as int];
        let c = r.unwrap();
        if has_value(clues, value) {
            assert(clues[i].value == value);
            assert(clues[i] == c);
        } else {
            assert(clues[i].value is None);
            assert(revalued(c, clues[i], value));
        }
    }
    r
}

/// Picks one clue per canonical tier, in ascending tier order, into a copy of
/// `category`; `None` when some tier cannot be filled.
pub fn shuffle_category(category: &Category) -> (r: Option<Category>)
    ensures
        r is Some <==> all_tiers_fillable(category.clues@),
        r is Some ==> {
            &&& r.unwrap().id == category.id
            &&& r.unwrap().title == category.title
            &&& r.unwrap().clues_count == category.clues_count
            &&& shuffled_from(r.unwrap().clues@, category.clues@)
        },
{
    let tiers: [i32; 5] = [200, 400, 600, 800, 1000];
    let mut clues: Vec<Clue> = Vec::new();
    let mut t: usize = 0;
    while t < 5
        invariant
            t <= 5,
            tiers@ == seq![200i32, 400, 600, 800, 1000],
            clues@.len() == t,
            forall|s: int| 0 <= s < t ==> fillable(category.clues@, Some(#[trigger] tier_at(s))),
            forall|s: int| 0 <= s < t ==> (#[trigger] clues@[s]).value == Some(tier_at(s)),
            forall|s: int| 0 <= s < t ==> drawn_for(#[trigger] clues@[s], category.clues@, Some(tier_at(s))),
        decreases 5 - t,
    {
        let v = tiers[t];
        assert(v == tier_at(t as int));
        match get_clue_sample(category, Some(v)) {
            Some(c) => {
                clues.push(c);
            },
            None => {
                return None;
            },
        }
        t = t + 1;
    }
    Some(Category { id: category.id, title: category.title.clone(), clues_count: category.clues_count, clues })
}

/// When every tier has a clue carrying its value and the clue identifiers of
/// `clues` are distinct, a shuffle keeps clues of `clues` unchanged and their
/// identifiers distinct.
pub proof fn lemma_shuffle_keeps_ids_distinct(out: Seq<Clue>, clues: Seq<Clue>)
    requires
        shuffled_from(out, clues),
        forall|t: int| 0 <= t < 5 ==> has_value(clues, Some(#[trigger] tier_at(t))),
        forall|i: int, j: int| 0 <= i < clues.len() && 0 <= j < clues.len() && i != j ==> #[trigger] clues[i].id != #[trigger] clues[j].id,
    ensures
        forall|t: int| 0 <= t < 5 ==> clues.contains(#[trigger] out[t]),
        forall|t1: int, t2: int| 0 <= t1 < 5 && 0 <= t2 < 5 && t1 != t2 ==> #[trigger] out[t1].id != #[trigger] out[t2].id,
{
    assert forall|t: int| 0 <= t < 5 implies clues.contains(#[trigger] out[t]) by {
        assert(drawn_for(out[t], clues, Some(tier_at(t))));
        let i = choose|i: int| 0 <= i < clues.len() && clues[i].value == Some(tier_at(t)) && #[trigger] clues[i] == out[t];
    }
    assert forall|t1: int, t2: int| 0 <= t1 < 5 && 0 <= t2 < 5 && t1 != t2 implies #[trigger] out[t1].id != #[trigger] out[t2].id by {
        assert(drawn_for(out[t1], clues, Some(tier_at(t1))));
        assert(drawn_for(out[t2], clues, Some(tier_at(t2))));
        let i1 = choose|i: int| 0 <= i < clues.len() && clues[i].value == Some(tier_at(t1)) && #[trigger] clues[i] == out[t1];
        let i2 = choose|i: int| 0 <= i < clues.len() && clues[i].value == Some(tier_at(t2)) && #[trigger] clues[i] == out[t2];
        assert(tier_at(t1) != tier_at(t2));
        assert(i1 != i2);
    }
}

} // verus!
