use vstd::prelude::*;
use crate::board::{Board, BoardCategory, BoardClue};
use crate::clue::{Category, Clue};
use crate::random::{draw_below, sample_below};
use crate::shuffle::{all_tiers_fillable, shuffle_category, shuffled_from};
use crate::value::{BoardValue, normalize, tier_amount, tier_at, tier_of};

verus! {

/// Smallest category identifier drawn.
pub const MIN_CATEGORY_ID: u64 = 7000;

/// One past the largest category identifier drawn.
pub const MAX_CATEGORY_ID: u64 = 15000;

/// Why a board could not be generated.
#[derive(Debug, PartialEq, Eq)]
pub enum BoardError {
    /// More daily doubles were asked for than the board has categories.
    TooManyDailyDoubles,
    /// The upstream service failed to deliver a record.
    Upstream(String),
    /// Every identifier of the category range has been drawn already.
    CategoryIdsExhausted,
}

/// A category fit for a board: five clues, one per tier in ascending order.
pub open spec fn board_ready(c: Category) -> bool {
    &&& c.clues@.len() == 5
    &&& forall|t: int| 0 <= t < 5 ==> (#[trigger] c.clues@[t]).value == Some(tier_at(t))
}

/// The board clue that clue `j` of `c` becomes, given the daily-double
/// identifiers.
pub open spec fn placed_clue(c: Category, j: int, daily_doubles: Seq<u64>) -> BoardClue {
    BoardClue {
        board_value: tier_of(Some(tier_at(j))).unwrap(),
        daily_double: daily_doubles.contains(c.clues@[j].id),
        active: true,
        inner: c.clues@[j],
    }
}

/// `bc` is category `c` placed on a board with the given daily-double
/// identifiers.
pub open spec fn placed_category(bc: BoardCategory, c: Category, daily_doubles: Seq<u64>) -> bool {
    &&& bc.inner == c
    &&& bc.clues@.len() == c.clues@.len()
    &&& forall|j: int| 0 <= j < c.clues@.len() ==> #[trigger] bc.clues@[j] == placed_clue(c, j, daily_doubles)
}

/// `cats[k]` and `pos[k]` locate the `k`-th daily double of `cats`; the
/// categories located are distinct, and a clue of `cats` is flagged exactly
/// when its identifier is that of a located clue.
pub open spec fn daily_doubles_at(cats: Seq<Category>, at: Seq<int>, pos: Seq<int>, daily_doubles: Seq<u64>) -> bool {
    &&& at.len() == pos.len()
    &&& at.len() == daily_doubles.len()
    &&& at.no_duplicates()
    &&& forall|k: int| 0 <= k < at.len() ==> {
        &&& 0 <= #[trigger] at[k] < cats.len()
        &&& 0 <= pos[k] < cats[at[k]].clues@.len()
        &&& daily_doubles[k] == cats[at[k]].clues@[pos[k]].id
    }
}

/// Whether `v` holds `x`.
fn contains_id(v: &Vec<u64>, x: u64) -> (r: bool)
    ensures
        r == v@.contains(x),
{
    let mut i: usize = 0;
    while i < v.len()
        invariant
            i <= v@.len(),
            forall|j: int| 0 <= j < i ==> v@[j] != x,
        decreases v.len() - i,
    {
        if v[i] == x {
            return true;
        }
        i = i + 1;
    }
    false
}

/// Identifiers of `[MIN_CATEGORY_ID, hi)` that `used` does not hold,
/// ascending.
pub open spec fn free_ids(used: Seq<u64>, hi: int) -> Seq<u64>
    decreases hi - MIN_CATEGORY_ID,
{
    if hi <= MIN_CATEGORY_ID {
        Seq::empty()
    } else {
        let p = free_ids(used, hi - 1);
        if used.contains((hi - 1) as u64) {
            p
        } else {
            p.push((hi - 1) as u64)
        }
    }
}

/// Every identifier of the range that `used_ids` does not hold, ascending.
fn free_category_ids(used_ids: &Vec<u64>) -> (r: Vec<u64>)
    ensures
        r@ == free_ids(used_ids@, MAX_CATEGORY_ID as int),
        forall|k: int| 0 <= k < r@.len() ==> MIN_CATEGORY_ID <= #[trigger] r@[k] < MAX_CATEGORY_ID && !used_ids@.contains(r@[k]),
        r@.len() == 0 <==> forall|id: u64| MIN_CATEGORY_ID <= id < MAX_CATEGORY_ID ==> used_ids@.contains(id),
{
    let mut free: Vec<u64> = Vec::new();
    let mut id: u64 = MIN_CATEGORY_ID;
    while id < MAX_CATEGORY_ID
        invariant
            MIN_CATEGORY_ID <= id <= MAX_CATEGORY_ID,
            free@ == free_ids(used_ids@, id as int),
            forall|k: int| 0 <= k < free@.len() ==> MIN_CATEGORY_ID <= #[trigger] free@[k] < MAX_CATEGORY_ID && !used_ids@.contains(free@[k]),
            free@.len() == 0 ==> forall|x: u64| MIN_CATEGORY_ID <= x < id ==> used_ids@.contains(x),
            free@.len() > 0 ==> exists|x: u64| MIN_CATEGORY_ID <= x < id && !used_ids@.contains(x),
        decreases MAX_CATEGORY_ID - id,
    {
        if !contains_id(used_ids, id) {
            free.push(id);
        }
        id = id + 1;
    }
    free
}

/// The `k`-th identifier of the range that `used_ids` does not hold, counted
/// in ascending order; `None` when there are not that many.
pub fn category_id_at(used_ids: &Vec<u64>, k: usize) -> (r: Option<u64>)
    ensures
        r == if k < free_ids(used_ids@, MAX_CATEGORY_ID as int).len() {
            Some(free_ids(used_ids@, MAX_CATEGORY_ID as int)[k as int])
        } else {
            None::<u64>
        },
{
    let free = free_category_ids(used_ids);
    if k < free.len() {
        Some(free[k])
    } else {
        None
    }
}

/// Uniformly draws a category identifier of `[MIN_CATEGORY_ID, MAX_CATEGORY_ID)`
/// that `used_ids` does not hold; `None` when it holds all of them.
pub fn draw_category_id(used_ids: &Vec<u64>) -> (r: Option<u64>)
    ensures
        r is Some ==> MIN_CATEGORY_ID <= r.unwrap() < MAX_CATEGORY_ID && !used_ids@.contains(r.unwrap()),
        r is Some ==> exists|k: int| 0 <= k < free_ids(used_ids@, MAX_CATEGORY_ID as int).len()
            && r.unwrap() == free_ids(used_ids@, MAX_CATEGORY_ID as int)[k],
        r is None <==> forall|id: u64| MIN_CATEGORY_ID <= id < MAX_CATEGORY_ID ==> used_ids@.contains(id),
{
    let free = free_category_ids(used_ids);
    if free.len() == 0 {
        return None;
    }
    let k = draw_below(free.len());
    let r = free[k];
    assert(!used_ids@.contains(r));
    Some(r)
}

/// Uniformly picks `num_daily_doubles` distinct categories and, in each, one
/// clue; returns the identifiers of the picked clues.
pub fn pick_daily_doubles(categories: &Vec<Category>, num_daily_doubles: usize) -> (r: Vec<u64>)
    requires
        num_daily_doubles <= categories@.len(),
        forall|i: int| 0 <= i < categories@.len() ==> board_ready(#[trigger] categories@[i]),
    ensures
        r@.len() == num_daily_doubles,
        exists|at: Seq<int>, pos: Seq<int>| daily_doubles_at(categories@, at, pos, r@),
{
    let chosen = sample_below(categories.len(), num_daily_doubles);
    let mut r: Vec<u64> = Vec::new();
    let ghost mut pos: Seq<int> = Seq::empty();
    let mut k: usize = 0;
    while k < chosen.len()
        invariant
            k <= chosen@.len(),
            chosen@.len() == num_daily_doubles,
            chosen@.no_duplicates(),
            forall|i: int| 0 <= i < chosen@.len() ==> chosen@[i] < categories@.len(),
            forall|i: int| 0 <= i < categories@.len() ==> board_ready(#[trigger] categories@[i]),
            r@.len() == k,
            pos.len() == k,
            forall|i: int| 0 <= i < k ==> 0 <= #[trigger] pos[i] < 5 && r@[i] == categories@[chosen@[i] as int].clues@[pos[i]].id,
        decreases chosen.len() - k,
    {
        let c = chosen[k];
        let j = draw_below(5);
        assert(categories@[c as int].clues@.len() == 5);
        r.push(categories[c].clues[j].id);
        proof {
            pos = pos.push(j as int);
        }
        k = k + 1;
    }
    let ghost at = chosen@.map_values(|c: usize| c as int);
    assert forall|a: int, b: int| 0 <= a < at.len() && 0 <= b < at.len() && a != b implies at[a] != at[b] by {
        assert(chosen@[a] != chosen@[b]);
    }
    assert(daily_doubles_at(categories@, at, pos, r@));
    r
}

/// Places every category on a board, each clue with its tier and with the
/// daily-double flag set when its identifier is in `daily_doubles`.
pub fn assemble_board(categories: Vec<Category>, daily_doubles: &Vec<u64>) -> (r: Board)
    requires
        forall|i: int| 0 <= i < categories@.len() ==> board_ready(#[trigger] categories@[i]),
    ensures
        r.categories@.len() == categories@.len(),
        forall|i: int| 0 <= i < categories@.len() ==> placed_category(#[trigger] r.categories@[i], categories@[i], daily_doubles@),
{
    let ghost cats = categories@;
    let mut placed: Vec<BoardCategory> = Vec::new();
    let mut rest = categories;
    let mut i: usize = 0;
    let n = rest.len();
    while rest.len() > 0
        invariant
            cats.len() == n,
            i + rest@.len() == cats.len(),
            rest@ == cats.subrange(i as int, cats.len() as int),
            placed@.len() == i,
            forall|t: int| 0 <= t < cats.len() ==> board_ready(#[trigger] cats[t]),
            forall|t: int| 0 <= t < i ==> placed_category(#[trigger] placed@[t], cats[t], daily_doubles@),
        decreases rest.len(),
    {
        let c = rest.remove(0);
        assert(c == cats[i as int]);
        let mut clues: Vec<BoardClue> = Vec::new();
        let mut j: usize = 0;
        while j < c.clues.len()
            invariant
                i < cats.len(),
                c == cats[i as int],
                board_ready(c),
                j <= c.clues@.len(),
                clues@.len() == j,
                forall|t: int| 0 <= t < j ==> #[trigger] clues@[t] == placed_clue(c, t, daily_doubles@),
            decreases c.clues.len() - j,
        {
            let clue = c.clues[j].clone();
            assert(clue.value == Some(tier_at(j as int)));
            let tier = normalize(clue.value).unwrap();
            let flagged = contains_id(daily_doubles, clue.id);
            clues.push(BoardClue::new(tier, flagged, clue));
            j = j + 1;
        }
        placed.push(BoardCategory::new(clues, c));
        i = i + 1;
    }
    Board::new(placed)
}

/// The source categories of a board, in order.
pub open spec fn board_sources(b: Board) -> Seq<Category> {
    b.categories@.map_values(|c: BoardCategory| c.inner)
}

/// The category identifiers of a board, in order.
pub open spec fn category_ids(b: Board) -> Seq<u64> {
    b.categories@.map_values(|c: BoardCategory| c.inner.id)
}

/// `b` is a board of `n` categories as generation leaves it: each category
/// is a board-ready source placed with the daily-double identifiers `dd`.
pub open spec fn generated_board(b: Board, n: nat, dd: Seq<u64>) -> bool {
    &&& b.categories@.len() == n
    &&& forall|i: int| 0 <= i < n ==> board_ready(#[trigger] b.categories@[i].inner)
    &&& forall|i: int| 0 <= i < n ==> placed_category(#[trigger] b.categories@[i], b.categories@[i].inner, dd)
}

/// Generation of one board, step by step: the caller fetches each category
/// whose identifier `next_category_id` hands out and passes the outcome to
/// `on_category`, until `is_complete`; then `finish` yields the board.
pub struct BoardGenerator {
    num_categories: u32,
    num_daily_doubles: u32,
    categories: Vec<Category>,
    used_ids: Vec<u64>,
    pending: Option<u64>,
    start: Ghost<Seq<u64>>,
}

impl BoardGenerator {
    #[verifier::type_invariant]
    spec fn inv(&self) -> bool {
        &&& self.num_daily_doubles <= self.num_categories
        &&& self.categories@.len() <= self.num_categories
        &&& forall|i: int| 0 <= i < self.categories@.len() ==> board_ready(#[trigger] self.categories@[i])
        &&& self.start@.is_prefix_of(self.used_ids@)
        &&& forall|i: int| 0 <= i < self.categories@.len() ==> {
            &&& self.used_ids@.contains(#[trigger] self.categories@[i].id)
            &&& !self.start@.contains(self.categories@[i].id)
        }
        &&& forall|i: int, j: int| 0 <= i < j < self.categories@.len() ==> #[trigger] self.categories@[i].id != #[trigger] self.categories@[j].id
        &&& self.pending is Some ==> {
            &&& self.used_ids@.contains(self.pending.unwrap())
            &&& !self.start@.contains(self.pending.unwrap())
            &&& forall|i: int| 0 <= i < self.categories@.len() ==> #[trigger] self.categories@[i].id != self.pending.unwrap()
        }
    }

    /// Categories accepted so far, each with one clue per tier.
    pub closed spec fn accepted(&self) -> Seq<Category> {
        self.categories@
    }

    /// Every category identifier drawn, before and during this generation.
    pub closed spec fn used(&self) -> Seq<u64> {
        self.used_ids@
    }

    /// The identifiers drawn before this generation began.
    pub closed spec fn start(&self) -> Seq<u64> {
        self.start@
    }

    /// The identifier whose category is awaited.
    pub closed spec fn pending(&self) -> Option<u64> {
        self.pending
    }

    pub closed spec fn target(&self) -> nat {
        self.num_categories as nat
    }

    pub closed spec fn daily_double_target(&self) -> nat {
        self.num_daily_doubles as nat
    }

    /// Starts generating a board of `num_categories` categories with
    /// `num_daily_doubles` daily doubles, never drawing an identifier that
    /// `used_ids` holds.
    pub fn new(num_categories: u32, num_daily_doubles: u32, used_ids: Vec<u64>) -> (r: Result<BoardGenerator, BoardError>)
        ensures
            r is Err <==> num_daily_doubles > num_categories,
            r is Err ==> r == Err::<BoardGenerator, BoardError>(BoardError::TooManyDailyDoubles),
            r is Ok ==> {
                let g = r.unwrap();
                &&& g.accepted().len() == 0
                &&& g.used() == used_ids@
                &&& g.start() == used_ids@
                &&& g.pending() is None
                &&& g.target() == num_categories
                &&& g.daily_double_target() == num_daily_doubles
            },
    {
        if num_daily_doubles > num_categories {
            return Err(BoardError::TooManyDailyDoubles);
        }
        let ghost start = used_ids@;
        Ok(BoardGenerator {
            num_categories,
            num_daily_doubles,
            categories: Vec::new(),
            used_ids,
            pending: None,
            start: Ghost(start),
        })
    }

    /// Whether all categories have been accepted.
    pub fn is_complete(&self) -> (r: bool)
        ensures
            r == (self.accepted().len() == self.target()),
    {
        proof {
            use_type_invariant(self);
        }
        self.categories.len() as u32 == self.num_categories
    }

    /// Draws the identifier of the next category to fetch and records it as
    /// used; `None` when every identifier of the range is used.
    pub fn next_category_id(self) -> (r: (BoardGenerator, Option<u64>))
        ensures
            r.0.accepted() == self.accepted(),
            r.0.start() == self.start(),
            r.0.target() == self.target(),
            r.0.daily_double_target() == self.daily_double_target(),
            r.1 is None <==> forall|id: u64| MIN_CATEGORY_ID <= id < MAX_CATEGORY_ID ==> self.used().contains(id),
            r.1 is None ==> r.0.used() == self.used() && r.0.pending() == self.pending(),
            r.1 is Some ==> {
                &&& MIN_CATEGORY_ID <= r.1.unwrap() < MAX_CATEGORY_ID
                &&& !self.used().contains(r.1.unwrap())
                &&& r.0.used() == self.used().push(r.1.unwrap())
                &&& r.0.pending() == r.1
            },
    {
        proof {
            use_type_invariant(&self);
        }
        match draw_category_id(&self.used_ids) {
            None => (self, None),
            Some(id) => {
                assert(!self.used().contains(id));
                let BoardGenerator { num_categories, num_daily_doubles, categories, mut used_ids, pending, start } = self;
                let ghost old_used = used_ids@;
                used_ids.push(id);
                proof {
                    assert forall|i: int| 0 <= i < categories@.len() implies used_ids@.contains(#[trigger] categories@[i].id) by {
                        assert(old_used.contains(categories@[i].id));
                        let k = choose|k: int| 0 <= k < old_used.len() && old_used[k] == categories@[i].id;
                        assert(used_ids@[k] == old_used[k]);
                    }
                    assert(used_ids@[old_used.len() as int] == id);
                    if start@.contains(id) {
                        let k = choose|k: int| 0 <= k < start@.len() && start@[k] == id;
                        assert(old_used[k] == id);
                    }
                    assert(start@.is_prefix_of(used_ids@)) by {
                        assert(start@ =~= used_ids@.subrange(0, start@.len() as int));
                    }
                }
                let next = BoardGenerator { num_categories, num_daily_doubles, categories, used_ids, pending: Some(id), start };
                (next, Some(id))
            },
        }
    }

    /// Takes in the outcome of fetching the awaited category. A fetch error
    /// ends generation. A category is accepted when it is the one awaited,
    /// room is left, and each tier can be filled; it is then reduced to one
    /// clue per tier. Returns whether it was accepted.
    pub fn on_category(self, fetched: Result<Category, String>) -> (r: (BoardGenerator, Result<bool, BoardError>))
        ensures
            r.0.used() == self.used(),
            r.0.start() == self.start(),
            r.0.target() == self.target(),
            r.0.daily_double_target() == self.daily_double_target(),
            fetched is Err ==> r.1 == Err::<bool, BoardError>(BoardError::Upstream(fetched->Err_0)) && r.0.accepted() == self.accepted(),
            fetched is Ok ==> {
                let c = fetched->Ok_0;
                &&& r.1 is Ok
                &&& r.0.pending() is None
                &&& r.1->Ok_0 <==> (self.pending() == Some(c.id) && self.accepted().len() < self.target()
                    && all_tiers_fillable(c.clues@))
                &&& !r.1->Ok_0 ==> r.0.accepted() == self.accepted()
                &&& r.1->Ok_0 ==> r.0.accepted().len() == self.accepted().len() + 1
                    && r.0.accepted().drop_last() == self.accepted()
                    && r.0.accepted().last().id == c.id
                    && r.0.accepted().last().title == c.title
                    && shuffled_from(r.0.accepted().last().clues@, c.clues@)
            },
    {
        proof {
            use_type_invariant(&self);
        }
        let c = match fetched {
            Err(e) => {
                return (self, Err(BoardError::Upstream(e)));
            },
            Ok(c) => c,
        };
        let BoardGenerator { num_categories, num_daily_doubles, mut categories, used_ids, pending, start } = self;
        if pending != Some(c.id) || categories.len() as u32 >= num_categories {
            let next = BoardGenerator { num_categories, num_daily_doubles, categories, used_ids, pending: None, start };
            return (next, Ok(false));
        }
        match shuffle_category(&c) {
            None => {
                let next = BoardGenerator { num_categories, num_daily_doubles, categories, used_ids, pending: None, start };
                (next, Ok(false))
            },
            Some(shuffled) => {
                let ghost old_cats = categories@;
                categories.push(shuffled);
                proof {
                    assert(categories@.drop_last() =~= old_cats);
                    assert(categories@[old_cats.len() as int] == shuffled);
                }
                let next = BoardGenerator { num_categories, num_daily_doubles, categories, used_ids, pending: None, start };
                (next, Ok(true))
            },
        }
    }

    /// The finished board: the accepted categories in order, with the daily
    /// doubles placed; also every identifier used so far.
    pub fn finish(self) -> (r: (Board, Vec<u64>))
        requires
            self.accepted().len() == self.target(),
        ensures
            r.1@ == self.used(),
            board_sources(r.0) == self.accepted(),
            exists|dd: Seq<u64>| {
                &&& dd.len() == self.daily_double_target()
                &&& generated_board(r.0, self.target(), dd)
                &&& exists|at: Seq<int>, pos: Seq<int>| daily_doubles_at(board_sources(r.0), at, pos, dd)
            },
            forall|i: int| 0 <= i < self.accepted().len() ==> {
                &&& self.used().contains(#[trigger] category_ids(r.0)[i])
                &&& !self.start().contains(category_ids(r.0)[i])
            },
            category_ids(r.0).no_duplicates(),
    {
        proof {
            use_type_invariant(&self);
        }
        let dd = pick_daily_doubles(&self.categories, self.num_daily_doubles as usize);
        let ghost cats = self.categories@;
        let board = assemble_board(self.categories, &dd);
        proof {
            assert(board_sources(board) =~= cats);
            assert(generated_board(board, self.num_categories as nat, dd@));
            assert forall|i: int| 0 <= i < cats.len() implies #[trigger] category_ids(board)[i] == cats[i].id by {}
            assert(category_ids(board).no_duplicates()) by {
                assert forall|i: int, j: int| 0 <= i < category_ids(board).len() && 0 <= j < category_ids(board).len() && i != j
                    implies category_ids(board)[i] != category_ids(board)[j] by {
                    if i < j {
                        assert(cats[i].id != cats[j].id);
                    } else {
                        assert(cats[j].id != cats[i].id);
                    }
                }
            }
        }
        (board, self.used_ids)
    }
}

/// Some clue of `c` has tier `v`.
pub open spec fn has_tier(c: BoardCategory, v: BoardValue) -> bool {
    exists|j: int| 0 <= j < c.clues@.len() && (#[trigger] c.clues@[j]).board_value == v
}

/// Every category of a generated board has five clues, one per tier: no two
/// clues share a tier and every tier is present.
pub proof fn lemma_one_clue_per_tier(b: Board, n: nat, dd: Seq<u64>)
    requires
        generated_board(b, n, dd),
    ensures
        forall|i: int| 0 <= i < n ==> (#[trigger] b.categories@[i]).clues@.len() == 5,
        forall|i: int, j1: int, j2: int| 0 <= i < n && 0 <= j1 < 5 && 0 <= j2 < 5 && j1 != j2
            ==> (#[trigger] b.categories@[i].clues@[j1]).board_value != (#[trigger] b.categories@[i].clues@[j2]).board_value,
        forall|i: int, v: BoardValue| 0 <= i < n ==> #[trigger] has_tier(b.categories@[i], v),
        forall|i: int, j: int| 0 <= i < n && 0 <= j < 5 ==> tier_amount((#[trigger] b.categories@[i].clues@[j]).board_value) == tier_at(j),
{
    assert forall|i: int, j: int| 0 <= i < n && 0 <= j < 5 implies tier_amount((#[trigger] b.categories@[i].clues@[j]).board_value) == tier_at(j) by {
        assert(placed_category(b.categories@[i], b.categories@[i].inner, dd));
        assert(b.categories@[i].clues@[j] == placed_clue(b.categories@[i].inner, j, dd));
    }
    assert forall|i: int, v: BoardValue| 0 <= i < n implies #[trigger] has_tier(b.categories@[i], v) by {
        let c = b.categories@[i];
        assert(tier_amount(c.clues@[0].board_value) == 200);
        assert(tier_amount(c.clues@[1].board_value) == 400);
        assert(tier_amount(c.clues@[2].board_value) == 600);
        assert(tier_amount(c.clues@[3].board_value) == 800);
        assert(tier_amount(c.clues@[4].board_value) == 1000);
    }
}

/// No clue identifier occurs at two places of the board.
pub open spec fn clue_ids_distinct(b: Board) -> bool {
    forall|i1: int, j1: int, i2: int, j2: int|
        0 <= i1 < b.categories@.len() && 0 <= j1 < b.categories@[i1].clues@.len() && 0 <= i2 < b.categories@.len()
            && 0 <= j2 < b.categories@[i2].clues@.len() && (i1 != i2 || j1 != j2)
            ==> (#[trigger] b.categories@[i1].clues@[j1]).inner.id != (#[trigger] b.categories@[i2].clues@[j2]).inner.id
}

/// On a generated board whose clue identifiers are distinct, the flagged
/// clues are exactly the `dd.len()` located ones, each in a category of its
/// own: a clue is flagged if and only if one placement points at it.
pub proof fn lemma_daily_doubles_placed(b: Board, n: nat, dd: Seq<u64>, at: Seq<int>, pos: Seq<int>)
    requires
        generated_board(b, n, dd),
        daily_doubles_at(board_sources(b), at, pos, dd),
        clue_ids_distinct(b),
    ensures
        at.len() == dd.len(),
        at.no_duplicates(),
        forall|i: int, j: int| 0 <= i < n && 0 <= j < 5 ==>
            ((#[trigger] b.categories@[i].clues@[j]).daily_double <==> exists|k: int| 0 <= k < at.len() && at[k] == i && pos[k] == j),
{
    assert forall|i: int, j: int| 0 <= i < n && 0 <= j < 5 implies
        ((#[trigger] b.categories@[i].clues@[j]).daily_double <==> exists|k: int| 0 <= k < at.len() && at[k] == i && pos[k] == j) by {
        let c = b.categories@[i];
        assert(placed_category(c, c.inner, dd));
        assert(c.clues@[j] == placed_clue(c.inner, j, dd));
        if c.clues@[j].daily_double {
            let k = choose|k: int| 0 <= k < dd.len() && dd[k] == c.inner.clues@[j].id;
            assert(0 <= at[k] < n);
            let ck = b.categories@[at[k]];
            assert(board_sources(b)[at[k]] == ck.inner);
            assert(placed_category(ck, ck.inner, dd));
            assert(ck.clues@[pos[k]] == placed_clue(ck.inner, pos[k], dd));
            assert(ck.clues@[pos[k]].inner.id == c.clues@[j].inner.id);
        }
        if exists|k: int| 0 <= k < at.len() && at[k] == i && pos[k] == j {
            let k = choose|k: int| 0 <= k < at.len() && at[k] == i && pos[k] == j;
            assert(board_sources(b)[i] == c.inner);
            assert(dd[k] == c.inner.clues@[j].id);
            assert(dd.contains(c.inner.clues@[j].id));
        }
    }
}

} // verus!
