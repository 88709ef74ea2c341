use vstd::prelude::*;
use crate::board::{Board, BoardClue, flat_clues, same_board};
use crate::clue::{Category, Clue};
use crate::shuffle::{all_tiers_fillable, shuffled_from};
use crate::generator::{
    BoardError, BoardGenerator, board_sources, category_ids, daily_doubles_at, generated_board,
};

verus! {

/// Identifiers of every clue of a board, category after category.
pub open spec fn board_clue_ids(b: Board) -> Seq<u64> {
    flat_clues(b.categories@).map_values(|c: BoardClue| c.inner.id)
}

/// `id` is the identifier of a clue on one of the two boards.
pub open spec fn on_boards(single: Board, double: Board, id: u64) -> bool {
    board_clue_ids(single).contains(id) || board_clue_ids(double).contains(id)
}

/// `b` is a generated board of `n` categories with `k` daily doubles.
pub open spec fn well_generated(b: Board, n: nat, k: nat) -> bool {
    exists|dd: Seq<u64>| {
        &&& dd.len() == k
        &&& generated_board(b, n, dd)
        &&& exists|at: Seq<int>, pos: Seq<int>| daily_doubles_at(board_sources(b), at, pos, dd)
    }
}

/// No category identifier appears twice over the two boards.
pub open spec fn categories_unique(single: Board, double: Board) -> bool {
    (category_ids(single) + category_ids(double)).no_duplicates()
}

/// A generated game: a single-value board, a double-value board and a bonus
/// clue.
pub struct Jeopardy {
    jeopardy_board: Board,
    double_jeopardy_board: Board,
    final_jeopardy_clue: Clue,
}

impl Jeopardy {
    pub closed spec fn single(&self) -> Board {
        self.jeopardy_board
    }

    pub closed spec fn double(&self) -> Board {
        self.double_jeopardy_board
    }

    pub closed spec fn bonus(&self) -> Clue {
        self.final_jeopardy_clue
    }

    pub fn get_jeopardy_board(&self) -> (r: Board)
        ensures
            same_board(r, self.single()),
    {
        self.jeopardy_board.clone()
    }

    pub fn get_double_jeopardy_board(&self) -> (r: Board)
        ensures
            same_board(r, self.double()),
    {
        self.double_jeopardy_board.clone()
    }

    pub fn get_final_jeopardy_clue(&self) -> (r: Clue)
        ensures
            r == self.bonus(),
    {
        self.final_jeopardy_clue.clone()
    }
}

/// Whether any clue of either board has identifier `id`.
pub fn bonus_collides(single: &Board, double: &Board, id: u64) -> (r: bool)
    ensures
        r == on_boards(*single, *double, id),
{
    let a = single.borrow_flat_clues();
    let b = double.borrow_flat_clues();
    let mut i: usize = 0;
    while i < a.len()
        invariant
            i <= a@.len(),
            a@.len() == flat_clues(single.categories@).len(),
            forall|k: int| 0 <= k < a@.len() ==> *(#[trigger] a@[k]) == flat_clues(single.categories@)[k],
            forall|k: int| 0 <= k < i ==> board_clue_ids(*single)[k] != id,
        decreases a.len() - i,
    {
        if a[i].id() == id {
            assert(board_clue_ids(*single)[i as int] == id);
            return true;
        }
        i = i + 1;
    }
    let mut j: usize = 0;
    while j < b.len()
        invariant
            j <= b@.len(),
            b@.len() == flat_clues(double.categories@).len(),
            forall|k: int| 0 <= k < b@.len() ==> *(#[trigger] b@[k]) == flat_clues(double.categories@)[k],
            forall|k: int| 0 <= k < j ==> board_clue_ids(*double)[k] != id,
        decreases b.len() - j,
    {
        if b[j].id() == id {
            assert(board_clue_ids(*double)[j as int] == id);
            return true;
        }
        j = j + 1;
    }
    false
}

/// What the caller of a `GameAssembler` does next.
#[derive(Debug)]
pub enum GameAction {
    /// Fetch the category with this identifier and pass it to `on_category`.
    FetchCategory(u64),
    /// Fetch one random clue and pass it to `on_random_clue`.
    FetchRandomClue,
    /// The game is complete: take it with `into_game`.
    Ready,
    /// Generation has failed.
    Failed(BoardError),
}

/// Generation of a whole game, step by step: the single-value board, then the
/// double-value board, sharing one registry of drawn category identifiers,
/// then the bonus clue. The caller performs the fetch each `GameAction` asks
/// for and passes back the outcome.
pub struct GameAssembler {
    single_categories: u32,
    single_daily_doubles: u32,
    double_categories: u32,
    double_daily_doubles: u32,
    generator: Option<BoardGenerator>,
    single: Option<Board>,
    double: Option<Board>,
    bonus: Option<Clue>,
    bonus_fetches: u8,
}

/// The bonus clue must be fetched (again): none has come yet, or the first
/// one is also on a board.
pub open spec fn bonus_wanted(single: Board, double: Board, bonus: Option<Clue>, fetches: nat) -> bool {
    fetches == 0 || (fetches == 1 && on_boards(single, double, bonus.unwrap().id))
}

impl GameAssembler {
    #[verifier::type_invariant]
    spec fn inv(&self) -> bool {
        &&& self.single_daily_doubles <= self.single_categories
        &&& self.double_daily_doubles <= self.double_categories
        &&& self.generator is Some <==> self.double is None
        &&& self.single is None ==> self.double is None
        &&& self.bonus is Some <==> self.bonus_fetches > 0
        &&& self.bonus_fetches <= 2
        &&& self.bonus is Some ==> self.double is Some
        &&& self.single is None ==> {
            let g = self.generator.unwrap();
            &&& g.target() == self.single_categories
            &&& g.daily_double_target() == self.single_daily_doubles
        }
        &&& self.single is Some ==> well_generated(self.single.unwrap(), self.single_categories as nat, self.single_daily_doubles as nat)
        &&& self.single is Some ==> category_ids(self.single.unwrap()).no_duplicates()
        &&& (self.single is Some && self.double is None) ==> {
            let g = self.generator.unwrap();
            &&& g.target() == self.double_categories
            &&& g.daily_double_target() == self.double_daily_doubles
            &&& forall|i: int| 0 <= i < category_ids(self.single.unwrap()).len()
                ==> g.start().contains(#[trigger] category_ids(self.single.unwrap())[i])
        }
        &&& self.double is Some ==> {
            &&& well_generated(self.double.unwrap(), self.double_categories as nat, self.double_daily_doubles as nat)
            &&& categories_unique(self.single.unwrap(), self.double.unwrap())
        }
    }

    /// The finished single-value board, once there is one.
    pub closed spec fn single_board(&self) -> Option<Board> {
        self.single
    }

    /// The finished double-value board, once there is one.
    pub closed spec fn double_board(&self) -> Option<Board> {
        self.double
    }

    /// The generation of the board under way, if any.
    pub closed spec fn generator(&self) -> Option<BoardGenerator> {
        self.generator
    }

    /// The last bonus clue received.
    pub closed spec fn bonus_clue(&self) -> Option<Clue> {
        self.bonus
    }

    /// How many bonus clues have been received.
    pub closed spec fn bonus_fetches(&self) -> nat {
        self.bonus_fetches as nat
    }

    pub closed spec fn shape(&self) -> (u32, u32, u32, u32) {
        (self.single_categories, self.single_daily_doubles, self.double_categories, self.double_daily_doubles)
    }

    /// Whether the game is complete.
    pub open spec fn ready(&self) -> bool {
        &&& self.double_board() is Some
        &&& !bonus_wanted(self.single_board().unwrap(), self.double_board().unwrap(), self.bonus_clue(), self.bonus_fetches())
    }

    /// Starts generating a game whose boards have the given numbers of
    /// categories and daily doubles; fails before any fetch when a board asks
    /// for more daily doubles than it has categories.
    pub fn new(single_categories: u32, single_daily_doubles: u32, double_categories: u32, double_daily_doubles: u32) -> (r: Result<GameAssembler, BoardError>)
        ensures
            r is Err <==> (single_daily_doubles > single_categories || double_daily_doubles > double_categories),
            r is Err ==> r == Err::<GameAssembler, BoardError>(BoardError::TooManyDailyDoubles),
            r is Ok ==> {
                let a = r.unwrap();
                &&& a.shape() == (single_categories, single_daily_doubles, double_categories, double_daily_doubles)
                &&& a.single_board() is None
                &&& a.generator() is Some
                &&& a.generator().unwrap().used().len() == 0
                &&& a.generator().unwrap().accepted().len() == 0
                &&& a.bonus_fetches() == 0
            },
    {
        if double_daily_doubles > double_categories {
            return Err(BoardError::TooManyDailyDoubles);
        }
        match BoardGenerator::new(single_categories, single_daily_doubles, Vec::new()) {
            Err(e) => Err(e),
            Ok(g) => Ok(GameAssembler {
                single_categories,
                single_daily_doubles,
                double_categories,
                double_daily_doubles,
                generator: Some(g),
                single: None,
                double: None,
                bonus: None,
                bonus_fetches: 0,
            }),
        }
    }

    /// Decides the next step: finishes a board whose categories are all in,
    /// asks for the next category of the board under way, or, both boards
    /// being done, asks for a bonus clue until one is settled.
    pub fn next(self) -> (r: (GameAssembler, GameAction))
        ensures
            r.0.shape() == self.shape(),
            r.0.bonus_clue() == self.bonus_clue(),
            r.0.bonus_fetches() == self.bonus_fetches(),
            r.1 is Failed ==> r.1 == GameAction::Failed(BoardError::CategoryIdsExhausted),
            r.1 is FetchCategory ==> {
                let id = r.1->FetchCategory_0;
                let g = r.0.generator().unwrap();
                &&& r.0.generator() is Some
                &&& crate::generator::MIN_CATEGORY_ID <= id < crate::generator::MAX_CATEGORY_ID
                &&& g.pending() == Some(id)
                &&& g.used().len() > 0 && g.used().last() == id
                &&& !g.used().drop_last().contains(id)
            },
            r.1 is FetchRandomClue <==> (r.0.double_board() is Some && bonus_wanted(
                r.0.single_board().unwrap(),
                r.0.double_board().unwrap(),
                self.bonus_clue(),
                self.bonus_fetches(),
            )),
            r.1 is Ready <==> r.0.ready(),
            self.double_board() is Some ==> r.0.single_board() == self.single_board() && r.0.double_board() == self.double_board(),
            self.double_board() is None ==> {
                let g = self.generator().unwrap();
                let done = g.accepted().len() == g.target();
                &&& (self.single_board() is None && !done) ==> r.0.single_board() is None && r.0.double_board() is None
                &&& (self.single_board() is None && done) ==> {
                    &&& r.0.single_board() is Some
                    &&& board_sources(r.0.single_board().unwrap()) == g.accepted()
                    &&& (r.0.double_board() is Some <==> self.shape().2 == 0)
                    &&& r.0.double_board() is Some ==> board_sources(r.0.double_board().unwrap()).len() == 0
                }
                &&& (self.single_board() is Some && done) ==> {
                    &&& r.0.single_board() == self.single_board()
                    &&& r.0.double_board() is Some
                    &&& board_sources(r.0.double_board().unwrap()) == g.accepted()
                }
                &&& (self.single_board() is Some && !done) ==> r.0.single_board() == self.single_board() && r.0.double_board() is None
                &&& r.0.double_board() is None ==> {
                    &&& r.1 is Failed <==> forall|id: u64| crate::generator::MIN_CATEGORY_ID <= id < crate::generator::MAX_CATEGORY_ID
                        ==> g.used().contains(id)
                    &&& r.1 is FetchCategory <==> exists|id: u64| crate::generator::MIN_CATEGORY_ID <= id < crate::generator::MAX_CATEGORY_ID
                        && !g.used().contains(id)
                }
            },
    {
        proof {
            use_type_invariant(&self);
        }
        let GameAssembler {
            single_categories,
            single_daily_doubles,
            double_categories,
            double_daily_doubles,
            mut generator,
            mut single,
            mut double,
            bonus,
            bonus_fetches,
        } = self;
        if single.is_none() {
            let g = generator.unwrap();
            if g.is_complete() {
                let (board, used) = g.finish();
                let g2 = BoardGenerator::new(double_categories, double_daily_doubles, used).unwrap();
                single = Some(board);
                generator = Some(g2);
            } else {
                generator = Some(g);
            }
        }
        if double.is_none() {
            let g = generator.unwrap();
            if single.is_some() && g.is_complete() {
                let (board, used) = g.finish();
                proof {
                    let s = single.unwrap();
                    let ab = category_ids(s) + category_ids(board);
                    assert forall|i: int, j: int| 0 <= i < ab.len() && 0 <= j < ab.len() && i != j implies ab[i] != ab[j] by {
                        let n = category_ids(s).len() as int;
                        if i < n && j >= n {
                            assert(g.start().contains(category_ids(s)[i]));
                            assert(!g.start().contains(category_ids(board)[j - n]));
                        } else if j < n && i >= n {
                            assert(g.start().contains(category_ids(s)[j]));
                            assert(!g.start().contains(category_ids(board)[i - n]));
                        } else if i >= n && j >= n {
                            assert(category_ids(board)[i - n] != category_ids(board)[j - n]);
                        }
                    }
                }
                double = Some(board);
                generator = None;
            } else {
                let (g, drawn) = g.next_category_id();
                let action = match drawn {
                    Some(id) => GameAction::FetchCategory(id),
                    None => GameAction::Failed(BoardError::CategoryIdsExhausted),
                };
                let next = GameAssembler {
                    single_categories,
                    single_daily_doubles,
                    double_categories,
                    double_daily_doubles,
                    generator: Some(g),
                    single,
                    double,
                    bonus,
                    bonus_fetches,
                };
                return (next, action);
            }
        }
        let action = if bonus_fetches == 0 {
            GameAction::FetchRandomClue
        } else if bonus_fetches == 1 && bonus_collides(single.as_ref().unwrap(), double.as_ref().unwrap(), bonus.as_ref().unwrap().id) {
            GameAction::FetchRandomClue
        } else {
            GameAction::Ready
        };
        let next = GameAssembler {
            single_categories,
            single_daily_doubles,
            double_categories,
            double_daily_doubles,
            generator,
            single,
            double,
            bonus,
            bonus_fetches,
        };
        (next, action)
    }

    /// Passes the outcome of a category fetch to the board under way. A
    /// fetch error ends generation; with no board under way the category is
    /// ignored. Returns whether the category was accepted.
    pub fn on_category(self, fetched: Result<Category, String>) -> (r: (GameAssembler, Result<bool, BoardError>))
        ensures
            r.0.shape() == self.shape(),
            r.0.single_board() == self.single_board(),
            r.0.double_board() == self.double_board(),
            r.0.bonus_clue() == self.bonus_clue(),
            r.0.bonus_fetches() == self.bonus_fetches(),
            fetched is Err ==> r.1 == Err::<bool, BoardError>(BoardError::Upstream(fetched->Err_0)),
            fetched is Ok && self.generator() is None ==> r.1 == Ok::<bool, BoardError>(false),
            fetched is Ok && self.generator() is Some ==> {
                let c = fetched->Ok_0;
                let g = self.generator().unwrap();
                &&& r.1 is Ok
                &&& r.1->Ok_0 <==> (g.pending() == Some(c.id) && g.accepted().len() < g.target() && all_tiers_fillable(c.clues@))
                &&& r.1->Ok_0 ==> r.0.generator().unwrap().accepted().drop_last() == g.accepted()
                    && r.0.generator().unwrap().accepted().last().id == c.id
                    && shuffled_from(r.0.generator().unwrap().accepted().last().clues@, c.clues@)
            },
    {
        proof {
            use_type_invariant(&self);
        }
        let GameAssembler {
            single_categories,
            single_daily_doubles,
            double_categories,
            double_daily_doubles,
            generator,
            single,
            double,
            bonus,
            bonus_fetches,
        } = self;
        let (generator, outcome) = match generator {
            None => {
                match fetched {
                    Err(e) => (None, Err(BoardError::Upstream(e))),
                    Ok(_) => (None, Ok(false)),
                }
            },
            Some(g) => {
                let (g, outcome) = g.on_category(fetched);
                (Some(g), outcome)
            },
        };
        let next = GameAssembler {
            single_categories,
            single_daily_doubles,
            double_categories,
            double_daily_doubles,
            generator,
            single,
            double,
            bonus,
            bonus_fetches,
        };
        (next, outcome)
    }

    /// Passes the outcome of a random-clue fetch. A fetch error ends
    /// generation. Once both boards are done, the clue becomes the bonus clue,
    /// replacing an earlier one; a third clue and a clue that comes before the
    /// boards are done are ignored. Returns whether the clue was taken.
    pub fn on_random_clue(self, fetched: Result<Clue, String>) -> (r: (GameAssembler, Result<bool, BoardError>))
        ensures
            r.0.shape() == self.shape(),
            r.0.single_board() == self.single_board(),
            r.0.double_board() == self.double_board(),
            r.0.generator() == self.generator(),
            fetched is Err ==> r.1 == Err::<bool, BoardError>(BoardError::Upstream(fetched->Err_0))
                && r.0.bonus_clue() == self.bonus_clue() && r.0.bonus_fetches() == self.bonus_fetches(),
            fetched is Ok ==> {
                &&& r.1 is Ok
                &&& r.1->Ok_0 <==> (self.double_board() is Some && self.bonus_fetches() < 2)
                &&& r.1->Ok_0 ==> r.0.bonus_clue() == Some(fetched->Ok_0) && r.0.bonus_fetches() == self.bonus_fetches() + 1
                &&& !r.1->Ok_0 ==> r.0.bonus_clue() == self.bonus_clue() && r.0.bonus_fetches() == self.bonus_fetches()
            },
    {
        proof {
            use_type_invariant(&self);
        }
        let GameAssembler {
            single_categories,
            single_daily_doubles,
            double_categories,
            double_daily_doubles,
            generator,
            single,
            double,
            bonus,
            bonus_fetches,
        } = self;
        let (bonus, bonus_fetches, outcome) = match fetched {
            Err(e) => (bonus, bonus_fetches, Err(BoardError::Upstream(e))),
            Ok(c) => {
                if double.is_some() && bonus_fetches < 2 {
                    (Some(c), bonus_fetches + 1, Ok(true))
                } else {
                    (bonus, bonus_fetches, Ok(false))
                }
            },
        };
        let next = GameAssembler {
            single_categories,
            single_daily_doubles,
            double_categories,
            double_daily_doubles,
            generator,
            single,
            double,
            bonus,
            bonus_fetches,
        };
        (next, outcome)
    }

    /// The finished game; `None` while it is not complete.
    pub fn into_game(self) -> (r: Option<Jeopardy>)
        ensures
            r is Some <==> self.ready(),
            r is Some ==> {
                let game = r.unwrap();
                let (n1, k1, n2, k2) = self.shape();
                &&& game.single() == self.single_board().unwrap()
                &&& game.double() == self.double_board().unwrap()
                &&& game.bonus() == self.bonus_clue().unwrap()
                &&& well_generated(game.single(), n1 as nat, k1 as nat)
                &&& well_generated(game.double(), n2 as nat, k2 as nat)
                &&& categories_unique(game.single(), game.double())
                &&& (self.bonus_fetches() == 1 ==> !on_boards(game.single(), game.double(), game.bonus().id))
            },
    {
        proof {
            use_type_invariant(&self);
        }
        if self.double.is_none() || self.bonus_fetches == 0 {
            return None;
        }
        let GameAssembler { single, double, bonus, bonus_fetches, .. } = self;
        let single = single.unwrap();
        let double = double.unwrap();
        let bonus = bonus.unwrap();
        if bonus_fetches == 1 && bonus_collides(&single, &double, bonus.id) {
            return None;
        }
        Some(Jeopardy { jeopardy_board: single, double_jeopardy_board: double, final_jeopardy_clue: bonus })
    }
}

} // verus!
