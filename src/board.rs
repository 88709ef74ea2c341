use vstd::prelude::*;
use vstd::std_specs::iter::IteratorSpec;
use crate::clue::{Category, Clue};
use crate::value::{BoardValue, tier_amount};

verus! {

/// A clue placed on a board: its tier, whether it is a daily double, and
/// whether it is still to be played.
#[derive(Debug)]
pub struct BoardClue {
    pub board_value: BoardValue,
    pub daily_double: bool,
    pub active: bool,
    pub inner: Clue,
}

/// A category placed on a board with its clues, one per tier.
#[derive(Debug)]
pub struct BoardCategory {
    pub clues: Vec<BoardClue>,
    pub inner: Category,
}

/// A board: its categories in order.
#[derive(Debug)]
pub struct Board {
    pub categories: Vec<BoardCategory>,
}

/// All clues of `cats`, category after category.
pub open spec fn flat_clues(cats: Seq<BoardCategory>) -> Seq<BoardClue>
    decreases cats.len(),
{
    if cats.len() == 0 {
        Seq::empty()
    } else {
        flat_clues(cats.drop_last()) + cats.last().clues@
    }
}

/// Whether a clue is still to be played.
pub open spec fn is_active(c: BoardClue) -> bool {
    c.active
}

/// The clues of `s` that are still to be played, in order.
pub open spec fn active_of(s: Seq<BoardClue>) -> Seq<BoardClue> {
    s.filter(|c: BoardClue| is_active(c))
}

impl Clone for BoardClue {
    fn clone(&self) -> (r: Self)
        ensures
            r == *self,
    {
        BoardClue {
            board_value: self.board_value,
            daily_double: self.daily_double,
            active: self.active,
            inner: self.inner.clone(),
        }
    }
}

impl Clone for BoardCategory {
    fn clone(&self) -> (r: Self)
        ensures
            r.clues@ == self.clues@,
            r.inner.id == self.inner.id,
            r.inner.title == self.inner.title,
            r.inner.clues_count == self.inner.clues_count,
            r.inner.clues@ == self.inner.clues@,
    {
        let clues = self.clues.clone();
        proof {
            assert forall|i: int| 0 <= i < clues@.len() implies clues@[i] == self.clues@[i] by {
                assert(cloned::<BoardClue>(self.clues[i], clues[i]));
            }
            assert(clues@ =~= self.clues@);
        }
        BoardCategory { clues, inner: self.inner.clone() }
    }
}

impl BoardClue {
    /// A new clue, active, with the given tier and daily-double flag.
    pub fn new(board_value: BoardValue, daily_double: bool, inner: Clue) -> (r: BoardClue)
        ensures
            r.board_value == board_value,
            r.daily_double == daily_double,
            r.active,
            r.inner == inner,
    {
        BoardClue { board_value, daily_double, active: true, inner }
    }

    /// Points of the clue on a board whose values are scaled by `multiplier`.
    pub fn value(&self, multiplier: i32) -> (r: i32)
        requires
            i32::MIN <= tier_amount(self.board_value) * multiplier <= i32::MAX,
        ensures
            r == tier_amount(self.board_value) * multiplier,
    {
        self.board_value.amount() * multiplier
    }

    /// Identifier of the underlying clue.
    pub fn id(&self) -> (r: u64)
        ensures
            r == self.inner.id,
    {
        self.inner.id
    }
}

impl BoardCategory {
    pub fn new(clues: Vec<BoardClue>, inner: Category) -> (r: BoardCategory)
        ensures
            r.clues@ == clues@,
            r.inner == inner,
    {
        BoardCategory { clues, inner }
    }

    /// The clues, in tier order.
    pub fn iter_clues(&self) -> (r: std::slice::Iter<'_, BoardClue>)
        ensures
            r.remaining() == self.clues@.as_ref(),
    {
        self.clues.as_slice().iter()
    }

    /// The first clue of the given tier, if any.
    pub fn get(&self, value: BoardValue) -> (r: Option<&BoardClue>)
        ensures
            r is None <==> forall|i: int| 0 <= i < self.clues@.len() ==> (#[trigger] self.clues@[i]).board_value != value,
            r is Some ==> exists|i: int|
                0 <= i < self.clues@.len() && #[trigger] self.clues@[i] == *r.unwrap() && self.clues@[i].board_value == value
                    && forall|j: int| 0 <= j < i ==> self.clues@[j].board_value != value,
    {
        let mut i: usize = 0;
        while i < self.clues.len()
            invariant
                i <= self.clues@.len(),
                forall|j: int| 0 <= j < i ==> (#[trigger] self.clues@[j]).board_value != value,
            decreases self.clues.len() - i,
        {
            if self.clues[i].board_value == value {
                return Some(&self.clues[i]);
            }
            i = i + 1;
        }
        None
    }

    /// The first clue of the given tier, for changing in place.
    pub fn get_mut(&mut self, value: BoardValue) -> (r: Option<&mut BoardClue>)
        ensures
            final(self).inner == old(self).inner,
            r is None <==> forall|i: int| 0 <= i < old(self).clues@.len() ==> (#[trigger] old(self).clues@[i]).board_value != value,
            r is None ==> final(self).clues@ == old(self).clues@,
            r is Some ==> exists|i: int|
                0 <= i < old(self).clues@.len() && (#[trigger] old(self).clues@[i]).board_value == value
                    && (forall|j: int| 0 <= j < i ==> old(self).clues@[j].board_value != value)
                    && *r.unwrap() == old(self).clues@[i]
                    && final(self).clues@ == old(self).clues@.update(i, *final(r.unwrap())),
    {
        let mut i: usize = 0;
        while i < self.clues.len()
            invariant
                i <= self.clues@.len(),
                self.clues@ == old(self).clues@,
                self.inner == old(self).inner,
                forall|j: int| 0 <= j < i ==> (#[trigger] self.clues@[j]).board_value != value,
            decreases self.clues.len() - i,
        {
            if self.clues[i].board_value == value {
                return Some(&mut self.clues[i]);
            }
            i = i + 1;
        }
        None
    }

    /// Marks the first clue of the given tier as played (`active == false`) or
    /// not; returns whether such a clue exists.
    pub fn set_active(&mut self, value: BoardValue, active: bool) -> (found: bool)
        ensures
            final(self).inner == old(self).inner,
            found <==> exists|i: int| 0 <= i < old(self).clues@.len() && (#[trigger] old(self).clues@[i]).board_value == value,
            !found ==> final(self).clues@ == old(self).clues@,
            found ==> exists|i: int|
                0 <= i < old(self).clues@.len() && (#[trigger] old(self).clues@[i]).board_value == value
                    && (forall|j: int| 0 <= j < i ==> old(self).clues@[j].board_value != value)
                    && final(self).clues@ == old(self).clues@.update(i, BoardClue { active, ..old(self).clues@[i] }),
    {
        let mut i: usize = 0;
        while i < self.clues.len()
            invariant
                i <= self.clues@.len(),
                self.clues@ == old(self).clues@,
                self.inner == old(self).inner,
                forall|j: int| 0 <= j < i ==> (#[trigger] self.clues@[j]).board_value != value,
            decreases self.clues.len() - i,
        {
            if self.clues[i].board_value == value {
                let mut c = self.clues[i].clone();
                c.active = active;
                self.clues.set(i, c);
                return true;
            }
            i = i + 1;
        }
        false
    }

    /// The source category.
    pub fn inner(&self) -> (r: &Category)
        ensures
            *r == self.inner,
    {
        &self.inner
    }

    /// Identifier of the source category.
    pub fn id(&self) -> (r: u64)
        ensures
            r == self.inner.id,
    {
        self.inner.id
    }
}

/// `a` and `b` hold the same categories with the same clues.
pub open spec fn same_board(a: Board, b: Board) -> bool {
    &&& a.categories@.len() == b.categories@.len()
    &&& forall|i: int| 0 <= i < a.categories@.len() ==> {
        &&& (#[trigger] a.categories@[i]).clues@ == b.categories@[i].clues@
        &&& a.categories@[i].inner.id == b.categories@[i].inner.id
        &&& a.categories@[i].inner.title == b.categories@[i].inner.title
        &&& a.categories@[i].inner.clues_count == b.categories@[i].inner.clues_count
        &&& a.categories@[i].inner.clues@ == b.categories@[i].inner.clues@
    }
}

impl Clone for Board {
    fn clone(&self) -> (r: Self)
        ensures
            same_board(r, *self),
    {
        let categories = self.categories.clone();
        proof {
            assert forall|i: int| 0 <= i < categories@.len() implies {
                &&& (#[trigger] categories@[i]).clues@ == self.categories@[i].clues@
                &&& categories@[i].inner.id == self.categories@[i].inner.id
                &&& categories@[i].inner.title == self.categories@[i].inner.title
                &&& categories@[i].inner.clues_count == self.categories@[i].inner.clues_count
                &&& categories@[i].inner.clues@ == self.categories@[i].inner.clues@
            } by {
                assert(cloned::<BoardCategory>(self.categories[i], categories[i]));
            }
        }
        Board { categories }
    }
}

/// Each clue of `cats` taken one by one: adding a category adds its clues at
/// the end.
proof fn lemma_flat_take_step(cats: Seq<BoardCategory>, i: int)
    requires
        0 <= i < cats.len(),
    ensures
        flat_clues(cats.take(i + 1)) == flat_clues(cats.take(i)) + cats[i].clues@,
{
    assert(cats.take(i + 1).drop_last() =~= cats.take(i));
}

impl Board {
    pub fn new(categories: Vec<BoardCategory>) -> (r: Board)
        ensures
            r.categories@ == categories@,
    {
        Board { categories }
    }

    /// Number of clues on the board still to be played.
    pub fn active_clues(&self) -> (r: usize)
        ensures
            r == active_of(flat_clues(self.categories@)).len(),
    {
        self.borrow_flat_active_clues().len()
    }

    /// The first category with identifier `id`, if any.
    pub fn get_category_by_id(&self, id: u64) -> (r: Option<&BoardCategory>)
        ensures
            r is None <==> forall|i: int| 0 <= i < self.categories@.len() ==> (#[trigger] self.categories@[i]).inner.id != id,
            r is Some ==> exists|i: int|
                0 <= i < self.categories@.len() && #[trigger] self.categories@[i] == *r.unwrap() && self.categories@[i].inner.id == id
                    && forall|j: int| 0 <= j < i ==> self.categories@[j].inner.id != id,
    {
        let mut i: usize = 0;
        while i < self.categories.len()
            invariant
                i <= self.categories@.len(),
                forall|j: int| 0 <= j < i ==> (#[trigger] self.categories@[j]).inner.id != id,
            decreases self.categories.len() - i,
        {
            if self.categories[i].id() == id {
                return Some(&self.categories[i]);
            }
            i = i + 1;
        }
        None
    }

    /// The categories, in board order.
    pub fn iter_categories(&self) -> (r: std::slice::Iter<'_, BoardCategory>)
        ensures
            r.remaining() == self.categories@.as_ref(),
    {
        self.categories.as_slice().iter()
    }

    /// Marks clue `clue` of category `category` (positions on the board) as
    /// played (`active == false`) or not; returns whether that position exists.
    pub fn set_clue_active(&mut self, category: usize, clue: usize, active: bool) -> (found: bool)
        ensures
            found <==> category < old(self).categories@.len() && clue < old(self).categories@[category as int].clues@.len(),
            !found ==> final(self).categories@ == old(self).categories@,
            found ==> final(self).categories@.len() == old(self).categories@.len(),
            found ==> forall|i: int| 0 <= i < old(self).categories@.len() && i != category ==>
                #[trigger] final(self).categories@[i] == old(self).categories@[i],
            found ==> final(self).categories@[category as int].inner == old(self).categories@[category as int].inner,
            found ==> final(self).categories@[category as int].clues@ == old(self).categories@[category as int].clues@.update(
                clue as int,
                BoardClue { active, ..old(self).categories@[category as int].clues@[clue as int] },
            ),
    {
        if category >= self.categories.len() || clue >= self.categories[category].clues.len() {
            return false;
        }
        let mut c = self.categories[category].clues[clue].clone();
        c.active = active;
        let mut cat = self.categories.remove(category);
        cat.clues.set(clue, c);
        self.categories.insert(category, cat);
        proof {
            assert(self.categories@ =~= old(self).categories@.update(category as int, cat));
        }
        true
    }

    /// Every clue of the board, category after category.
    pub fn borrow_flat_clues(&self) -> (r: Vec<&BoardClue>)
        ensures
            r@.len() == flat_clues(self.categories@).len(),
            forall|k: int| 0 <= k < r@.len() ==> *(#[trigger] r@[k]) == flat_clues(self.categories@)[k],
    {
        let mut r: Vec<&BoardClue> = Vec::new();
        let mut i: usize = 0;
        while i < self.categories.len()
            invariant
                i <= self.categories@.len(),
                r@.len() == flat_clues(self.categories@.take(i as int)).len(),
                forall|k: int| 0 <= k < r@.len() ==> *(#[trigger] r@[k]) == flat_clues(self.categories@.take(i as int))[k],
            decreases self.categories.len() - i,
        {
            let clues = &self.categories[i].clues;
            proof {
                lemma_flat_take_step(self.categories@, i as int);
            }
            let ghost before = flat_clues(self.categories@.take(i as int));
            let mut j: usize = 0;
            while j < clues.len()
                invariant
                    j <= clues@.len(),
                    r@.len() == before.len() + j,
                    forall|k: int| 0 <= k < r@.len() ==> *(#[trigger] r@[k]) == (before + clues@)[k],
                decreases clues.len() - j,
            {
                r.push(&clues[j]);
                j = j + 1;
            }
            i = i + 1;
        }
        proof {
            assert(self.categories@.take(self.categories@.len() as int) =~= self.categories@);
        }
        r
    }

    /// The clues still to be played, category after category.
    pub fn borrow_flat_active_clues(&self) -> (r: Vec<&BoardClue>)
        ensures
            r@.len() == active_of(flat_clues(self.categories@)).len(),
            forall|k: int| 0 <= k < r@.len() ==> *(#[trigger] r@[k]) == active_of(flat_clues(self.categories@))[k],
    {
        let all = self.borrow_flat_clues();
        let ghost flat = flat_clues(self.categories@);
        let mut r: Vec<&BoardClue> = Vec::new();
        let mut i: usize = 0;
        while i < all.len()
            invariant
                i <= all@.len(),
                all@.len() == flat.len(),
                forall|k: int| 0 <= k < all@.len() ==> *(#[trigger] all@[k]) == flat[k],
                r@.len() == active_of(flat.take(i as int)).len(),
                forall|k: int| 0 <= k < r@.len() ==> *(#[trigger] r@[k]) == active_of(flat.take(i as int))[k],
            decreases all.len() - i,
        {
            proof {
                assert(flat.take(i + 1).drop_last() =~= flat.take(i as int));
                reveal_with_fuel(Seq::filter, 1);
            }
            let c: &BoardClue = all[i];
            if c.active {
                r.push(c);
            }
            i = i + 1;
        }
        proof {
            assert(flat.take(flat.len() as int) =~= flat);
        }
        r
    }
}

/// Active clues of a concatenation are those of each part.
proof fn lemma_active_of_add(a: Seq<BoardClue>, b: Seq<BoardClue>)
    ensures
        active_of(a + b).len() == active_of(a).len() + active_of(b).len(),
{
    Seq::filter_distributes_over_add(a, b, |c: BoardClue| is_active(c));
}

/// A sequence of clues that are all active is its own active part.
proof fn lemma_all_active(s: Seq<BoardClue>)
    requires
        forall|k: int| 0 <= k < s.len() ==> (#[trigger] s[k]).active,
    ensures
        active_of(s).len() == s.len(),
    decreases s.len(),
{
    reveal_with_fuel(Seq::filter, 1);
    if s.len() > 0 {
        lemma_all_active(s.drop_last());
    }
}

/// Categories of five clues that are all active give five active clues each.
proof fn lemma_fresh_categories(cats: Seq<BoardCategory>)
    requires
        forall|i: int| 0 <= i < cats.len() ==> (#[trigger] cats[i]).clues@.len() == 5,
        forall|i: int, j: int| 0 <= i < cats.len() && 0 <= j < 5 ==> (#[trigger] cats[i].clues@[j]).active,
    ensures
        active_of(flat_clues(cats)).len() == 5 * cats.len(),
    decreases cats.len(),
{
    if cats.len() > 0 {
        let last = cats.last();
        lemma_fresh_categories(cats.drop_last());
        lemma_active_of_add(flat_clues(cats.drop_last()), last.clues@);
        assert forall|k: int| 0 <= k < last.clues@.len() implies (#[trigger] last.clues@[k]).active by {
            assert(cats[cats.len() - 1].clues@[k].active);
        }
        lemma_all_active(last.clues@);
    }
}

/// On a board of `n` categories of five clues, all of them still to be
/// played, the number of active clues is `5 * n`.
pub proof fn lemma_fresh_board_active(b: Board, n: nat)
    requires
        b.categories@.len() == n,
        forall|i: int| 0 <= i < n ==> (#[trigger] b.categories@[i]).clues@.len() == 5,
        forall|i: int, j: int| 0 <= i < n && 0 <= j < 5 ==> (#[trigger] b.categories@[i].clues@[j]).active,
    ensures
        active_of(flat_clues(b.categories@)).len() == 5 * n,
{
    lemma_fresh_categories(b.categories@);
}

/// Marking one active clue as played lowers the count of active clues by one.
pub proof fn lemma_mark_played(before: Board, after: Board, category: int, clue: int)
    requires
        0 <= category < before.categories@.len(),
        0 <= clue < before.categories@[category].clues@.len(),
        before.categories@[category].clues@[clue].active,
        after.categories@.len() == before.categories@.len(),
        forall|i: int| 0 <= i < before.categories@.len() && i != category ==> #[trigger] after.categories@[i] == before.categories@[i],
        after.categories@[category].clues@ == before.categories@[category].clues@.update(
            clue,
            BoardClue { active: false, ..before.categories@[category].clues@[clue] },
        ),
    ensures
        active_of(flat_clues(after.categories@)).len() + 1 == active_of(flat_clues(before.categories@)).len(),
{
    lemma_mark_played_flat(before.categories@, after.categories@, category, clue);
}

proof fn lemma_mark_played_flat(before: Seq<BoardCategory>, after: Seq<BoardCategory>, category: int, clue: int)
    requires
        0 <= category < before.len(),
        0 <= clue < before[category].clues@.len(),
        before[category].clues@[clue].active,
        after.len() == before.len(),
        forall|i: int| 0 <= i < before.len() && i != category ==> #[trigger] after[i] == before[i],
        after[category].clues@ == before[category].clues@.update(
            clue,
            BoardClue { active: false, ..before[category].clues@[clue] },
        ),
    ensures
        active_of(flat_clues(after)).len() + 1 == active_of(flat_clues(before)).len(),
    decreases before.len(),
{
    let n = before.len() - 1;
    lemma_active_of_add(flat_clues(before.drop_last()), before.last().clues@);
    lemma_active_of_add(flat_clues(after.drop_last()), after.last().clues@);
    if category == n {
        assert(after.drop_last() =~= before.drop_last());
        let s = before.last().clues@;
        let t = after.last().clues@;
        assert(s =~= s.take(clue) + seq![s[clue]] + s.skip(clue + 1));
        assert(t =~= s.take(clue) + seq![t[clue]] + s.skip(clue + 1));
        lemma_active_of_add(s.take(clue) + seq![s[clue]], s.skip(clue + 1));
        lemma_active_of_add(s.take(clue), seq![s[clue]]);
        lemma_active_of_add(s.take(clue) + seq![t[clue]], s.skip(clue + 1));
        lemma_active_of_add(s.take(clue), seq![t[clue]]);
        reveal_with_fuel(Seq::filter, 2);
    } else {
        assert(after.last() == before.last());
        lemma_mark_played_flat(before.drop_last(), after.drop_last(), category, clue);
    }
}

/// The clues of `s` already played, in order.
pub open spec fn played_of(s: Seq<BoardClue>) -> Seq<BoardClue> {
    s.filter(|c: BoardClue| !is_active(c))
}

proof fn lemma_active_played_split(s: Seq<BoardClue>)
    ensures
        active_of(s).len() + played_of(s).len() == s.len(),
    decreases s.len(),
{
    reveal_with_fuel(Seq::filter, 1);
    if s.len() > 0 {
        lemma_active_played_split(s.drop_last());
    }
}

proof fn lemma_flat_len(cats: Seq<BoardCategory>)
    requires
        forall|i: int| 0 <= i < cats.len() ==> (#[trigger] cats[i]).clues@.len() == 5,
    ensures
        flat_clues(cats).len() == 5 * cats.len(),
    decreases cats.len(),
{
    if cats.len() > 0 {
        lemma_flat_len(cats.drop_last());
    }
}

/// On a board of `n` categories of five clues each, of which `k` have been
/// played, `5 * n - k` clues are active.
pub proof fn lemma_active_after_play(b: Board, n: nat)
    requires
        b.categories@.len() == n,
        forall|i: int| 0 <= i < n ==> (#[trigger] b.categories@[i]).clues@.len() == 5,
    ensures
        active_of(flat_clues(b.categories@)).len() == 5 * n - played_of(flat_clues(b.categories@)).len(),
{
    lemma_flat_len(b.categories@);
    lemma_active_played_split(flat_clues(b.categories@));
}

} // verus!
