use jeopardy::board::{Board, BoardCategory, BoardClue};
use jeopardy::clue::{Category, Clue};
use jeopardy::game::{bonus_collides, GameAction, GameAssembler};
use jeopardy::generator::{
    assemble_board, category_id_at, draw_category_id, pick_daily_doubles, BoardError, BoardGenerator, MAX_CATEGORY_ID,
    MIN_CATEGORY_ID,
};
use jeopardy::value::BoardValue;
use std::collections::HashSet;

const VALUES: [i32; 5] = [200, 400, 600, 800, 1000];

fn clue(id: u64, value: Option<i32>, category_id: u64) -> Clue {
    Clue {
        id,
        answer: format!("answer {}", id),
        question: format!("question {}", id),
        value,
        category_id,
    }
}

/// A fixture category: two clues per value, with identifiers derived from the
/// category identifier.
fn fixture_category(id: u64) -> Category {
    let mut clues = Vec::new();
    for (t, v) in VALUES.iter().enumerate() {
        clues.push(clue(id * 100 + t as u64, Some(*v), id));
        clues.push(clue(id * 100 + 50 + t as u64, Some(*v), id));
    }
    Category { id, title: format!("category {}", id), clues_count: 10, clues }
}

/// A category that cannot fill the 1000 tier.
fn broken_category(id: u64) -> Category {
    let clues = vec![clue(id * 100, Some(200), id), clue(id * 100 + 1, Some(400), id)];
    Category { id, title: format!("broken {}", id), clues_count: 2, clues }
}

fn ready_category(id: u64) -> Category {
    let mut clues = Vec::new();
    for (t, v) in VALUES.iter().enumerate() {
        clues.push(clue(id * 100 + t as u64, Some(*v), id));
    }
    Category { id, title: format!("category {}", id), clues_count: 5, clues }
}

fn run_board(num_categories: u32, num_daily_doubles: u32, used: Vec<u64>) -> (Board, Vec<u64>) {
    let mut g = BoardGenerator::new(num_categories, num_daily_doubles, used).unwrap();
    while !g.is_complete() {
        let (next, id) = g.next_category_id();
        let id = id.unwrap();
        let (next, accepted) = next.on_category(Ok(fixture_category(id)));
        assert_eq!(accepted, Ok(true));
        g = next;
    }
    g.finish()
}

fn check_board_shape(board: &Board, num_categories: usize, num_daily_doubles: usize) {
    assert_eq!(board.categories.len(), num_categories);
    let mut dd_categories = 0;
    for cat in board.iter_categories() {
        assert_eq!(cat.clues.len(), 5);
        let tiers: Vec<i32> = cat.iter_clues().map(|c| c.board_value.amount()).collect();
        assert_eq!(tiers, VALUES.to_vec());
        let flagged = cat.iter_clues().filter(|c| c.daily_double).count();
        assert!(flagged <= 1);
        dd_categories += flagged;
        for c in cat.iter_clues() {
            assert!(c.active);
            assert_eq!(c.inner.category_id, cat.id());
        }
    }
    assert_eq!(dd_categories, num_daily_doubles);
    let ids: HashSet<u64> = board.iter_categories().map(|c| c.id()).collect();
    assert_eq!(ids.len(), num_categories);
    for id in ids.iter() {
        assert!(MIN_CATEGORY_ID <= *id && *id < MAX_CATEGORY_ID);
    }
}

/// Drives a whole game; `random_clues` are handed out in order for the bonus.
fn run_game(mut random_clues: Vec<Clue>) -> (GameAssembler, usize) {
    random_clues.reverse();
    let mut assembler = GameAssembler::new(6, 1, 6, 2).unwrap();
    let mut fetched = 0;
    loop {
        let (next, action) = assembler.next();
        assembler = next;
        match action {
            GameAction::FetchCategory(id) => {
                let (next, r) = assembler.on_category(Ok(fixture_category(id)));
                assert_eq!(r, Ok(true));
                assembler = next;
            }
            GameAction::FetchRandomClue => {
                fetched += 1;
                let (next, r) = assembler.on_random_clue(Ok(random_clues.pop().unwrap()));
                assert_eq!(r, Ok(true));
                assembler = next;
            }
            GameAction::Ready => return (assembler, fetched),
            GameAction::Failed(e) => panic!("generation failed: {:?}", e),
        }
    }
}

#[test]
fn generated_board_has_requested_shape() {
    let (board, used) = run_board(6, 1, Vec::new());
    check_board_shape(&board, 6, 1);
    assert_eq!(used.len(), 6);
    assert_eq!(board.active_clues(), 30);
}

#[test]
fn repeated_generation_keeps_structure() {
    for _ in 0..5 {
        let (board, _) = run_board(6, 1, Vec::new());
        check_board_shape(&board, 6, 1);
    }
}

#[test]
fn daily_doubles_equal_categories() {
    let (board, _) = run_board(4, 4, Vec::new());
    check_board_shape(&board, 4, 4);
}

#[test]
fn board_avoids_used_identifiers() {
    let used: Vec<u64> = (MIN_CATEGORY_ID..MIN_CATEGORY_ID + 7990).collect();
    let (board, after) = run_board(6, 2, used.clone());
    check_board_shape(&board, 6, 2);
    assert_eq!(after.len(), used.len() + 6);
    for cat in board.iter_categories() {
        assert!(cat.id() >= MIN_CATEGORY_ID + 7990);
    }
}

#[test]
fn too_many_daily_doubles_is_rejected() {
    assert_eq!(BoardGenerator::new(6, 7, Vec::new()).err(), Some(BoardError::TooManyDailyDoubles));
    assert_eq!(GameAssembler::new(6, 7, 6, 2).err(), Some(BoardError::TooManyDailyDoubles));
    assert_eq!(GameAssembler::new(6, 1, 6, 7).err(), Some(BoardError::TooManyDailyDoubles));
    assert!(GameAssembler::new(6, 1, 6, 2).is_ok());
}

#[test]
fn fetch_error_is_propagated() {
    let g = BoardGenerator::new(6, 1, Vec::new()).unwrap();
    let (g, id) = g.next_category_id();
    assert!(id.is_some());
    let (_, r) = g.on_category(Err("service down".to_string()));
    assert_eq!(r, Err(BoardError::Upstream("service down".to_string())));
}

#[test]
fn unfillable_category_is_skipped_and_redrawn() {
    let g = BoardGenerator::new(1, 0, Vec::new()).unwrap();
    let (g, first) = g.next_category_id();
    let first = first.unwrap();
    let (g, r) = g.on_category(Ok(broken_category(first)));
    assert_eq!(r, Ok(false));
    assert!(!g.is_complete());
    let (g, second) = g.next_category_id();
    let second = second.unwrap();
    assert_ne!(first, second);
    let (g, r) = g.on_category(Ok(fixture_category(second)));
    assert_eq!(r, Ok(true));
    assert!(g.is_complete());
    let (board, used) = g.finish();
    assert_eq!(used, vec![first, second]);
    assert_eq!(board.categories[0].id(), second);
}

#[test]
fn category_other_than_requested_is_ignored() {
    let g = BoardGenerator::new(1, 0, Vec::new()).unwrap();
    let (g, id) = g.next_category_id();
    let (g, r) = g.on_category(Ok(fixture_category(id.unwrap() + 1)));
    assert_eq!(r, Ok(false));
    assert!(!g.is_complete());
}

#[test]
fn exhausted_identifier_range() {
    let used: Vec<u64> = (MIN_CATEGORY_ID..MAX_CATEGORY_ID).collect();
    assert_eq!(draw_category_id(&used), None);
    let g = BoardGenerator::new(1, 0, used).unwrap();
    let (_, id) = g.next_category_id();
    assert_eq!(id, None);
    let used: Vec<u64> = (MIN_CATEGORY_ID..MAX_CATEGORY_ID).filter(|i| *i != 12345).collect();
    assert_eq!(draw_category_id(&used), Some(12345));
}

#[test]
fn daily_double_picks_are_distinct_categories() {
    let cats: Vec<Category> = (1..=6).map(ready_category).collect();
    for _ in 0..20 {
        let dd = pick_daily_doubles(&cats, 3);
        assert_eq!(dd.len(), 3);
        let owners: HashSet<u64> = dd.iter().map(|id| id / 100).collect();
        assert_eq!(owners.len(), 3);
    }
    assert!(pick_daily_doubles(&cats, 0).is_empty());
}

#[test]
fn assembly_flags_listed_clues() {
    let cats: Vec<Category> = vec![ready_category(1), ready_category(2)];
    let board = assemble_board(cats, &vec![102, 204]);
    assert_eq!(board.categories.len(), 2);
    let flagged: Vec<u64> = board.borrow_flat_clues().iter().filter(|c| c.daily_double).map(|c| c.id()).collect();
    assert_eq!(flagged, vec![102, 204]);
    assert_eq!(board.categories[0].get(BoardValue::SixHundred).unwrap().id(), 102);
    assert_eq!(board.categories[1].get(BoardValue::OneThousand).unwrap().id(), 204);
    assert_eq!(board.categories[1].get(BoardValue::OneThousand).unwrap().value(2), 2000);
}

#[test]
fn active_clues_drop_as_clues_are_played() {
    let (mut board, _) = run_board(6, 1, Vec::new());
    assert_eq!(board.active_clues(), 30);
    assert!(board.set_clue_active(0, 0, false));
    assert!(board.set_clue_active(3, 4, false));
    assert!(board.set_clue_active(5, 2, false));
    assert_eq!(board.active_clues(), 27);
    assert_eq!(board.borrow_flat_active_clues().len(), 27);
    assert_eq!(board.borrow_flat_clues().len(), 30);
    // Marking a played clue again changes nothing.
    assert!(board.set_clue_active(0, 0, false));
    assert_eq!(board.active_clues(), 27);
    assert!(!board.set_clue_active(6, 0, false));
    assert!(!board.set_clue_active(0, 5, false));
    assert!(board.set_clue_active(0, 0, true));
    assert_eq!(board.active_clues(), 28);
}

#[test]
fn category_accessors() {
    let (mut board, _) = run_board(2, 0, Vec::new());
    let id = board.categories[1].id();
    let cat = board.get_category_by_id(id).unwrap();
    assert_eq!(cat.inner().title, format!("category {}", id));
    assert!(board.get_category_by_id(1).is_none());
    let cat: &mut BoardCategory = &mut board.categories[0];
    assert!(cat.set_active(BoardValue::EightHundred, false));
    assert!(!cat.get(BoardValue::EightHundred).unwrap().active);
    assert_eq!(board.active_clues(), 9);
}

#[test]
fn board_clue_value_scales() {
    let c = BoardClue::new(BoardValue::FourHundred, true, clue(9, Some(400), 1));
    assert!(c.active);
    assert!(c.daily_double);
    assert_eq!(c.value(1), 400);
    assert_eq!(c.value(2), 800);
    assert_eq!(c.id(), 9);
}

#[test]
fn game_scenario_with_fixture_service() {
    let (assembler, fetched) = run_game(vec![clue(1, Some(400), 3)]);
    assert_eq!(fetched, 1);
    let game = assembler.into_game().unwrap();
    let single = game.get_jeopardy_board();
    let double = game.get_double_jeopardy_board();
    check_board_shape(&single, 6, 1);
    check_board_shape(&double, 6, 2);
    let mut ids: HashSet<u64> = single.iter_categories().map(|c| c.id()).collect();
    ids.extend(double.iter_categories().map(|c| c.id()));
    assert_eq!(ids.len(), 12);
    assert_eq!(game.get_final_jeopardy_clue().id, 1);
    assert!(!bonus_collides(&single, &double, 1));
}

#[test]
fn colliding_bonus_clue_is_replaced_once() {
    let mut assembler = GameAssembler::new(6, 1, 6, 2).unwrap();
    let mut first_category: Option<u64> = None;
    let mut bonus_fetches = 0;
    loop {
        let (next, action) = assembler.next();
        assembler = next;
        match action {
            GameAction::FetchCategory(id) => {
                if first_category.is_none() {
                    first_category = Some(id);
                }
                // Each clue of a ready category lands on the board.
                let (next, r) = assembler.on_category(Ok(ready_category(id)));
                assert_eq!(r, Ok(true));
                assembler = next;
            }
            GameAction::FetchRandomClue => {
                bonus_fetches += 1;
                let c = if bonus_fetches == 1 {
                    clue(first_category.unwrap() * 100, Some(200), 0)
                } else {
                    clue(42, Some(600), 0)
                };
                let (next, r) = assembler.on_random_clue(Ok(c));
                assert_eq!(r, Ok(true));
                assembler = next;
            }
            GameAction::Ready => break,
            GameAction::Failed(e) => panic!("generation failed: {:?}", e),
        }
    }
    assert_eq!(bonus_fetches, 2);
    let game = assembler.into_game().unwrap();
    assert_eq!(game.get_final_jeopardy_clue().id, 42);
    assert_eq!(game.get_final_jeopardy_clue().value, Some(600));
}

#[test]
fn second_collision_is_accepted() {
    let mut assembler = GameAssembler::new(1, 0, 1, 0).unwrap();
    let mut first_category: Option<u64> = None;
    let mut bonus_fetches = 0;
    loop {
        let (next, action) = assembler.next();
        assembler = next;
        match action {
            GameAction::FetchCategory(id) => {
                if first_category.is_none() {
                    first_category = Some(id);
                }
                let (next, _) = assembler.on_category(Ok(ready_category(id)));
                assembler = next;
            }
            GameAction::FetchRandomClue => {
                bonus_fetches += 1;
                let c = clue(first_category.unwrap() * 100 + bonus_fetches, Some(200), 0);
                let (next, _) = assembler.on_random_clue(Ok(c));
                assembler = next;
            }
            GameAction::Ready => break,
            GameAction::Failed(e) => panic!("generation failed: {:?}", e),
        }
    }
    assert_eq!(bonus_fetches, 2);
    let game = assembler.into_game().unwrap();
    assert_eq!(game.get_final_jeopardy_clue().id, first_category.unwrap() * 100 + 2);
}

#[test]
fn bonus_fetch_error_is_propagated() {
    let assembler = GameAssembler::new(0, 0, 0, 0).unwrap();
    let (assembler, action) = assembler.next();
    assert!(matches!(action, GameAction::FetchRandomClue));
    let (assembler, r) = assembler.on_random_clue(Err("timeout".to_string()));
    assert_eq!(r, Err(BoardError::Upstream("timeout".to_string())));
    assert!(assembler.into_game().is_none());
}

#[test]
fn category_id_at_counts_free_identifiers() {
    let used = vec![MIN_CATEGORY_ID, MIN_CATEGORY_ID + 2];
    assert_eq!(category_id_at(&used, 0), Some(MIN_CATEGORY_ID + 1));
    assert_eq!(category_id_at(&used, 1), Some(MIN_CATEGORY_ID + 3));
    let last = (MAX_CATEGORY_ID - MIN_CATEGORY_ID - 3) as usize;
    assert_eq!(category_id_at(&used, last), Some(MAX_CATEGORY_ID - 1));
    assert_eq!(category_id_at(&used, last + 1), None);
}

#[test]
fn get_mut_changes_clue_in_place() {
    let (mut board, _) = run_board(1, 0, Vec::new());
    let cat = &mut board.categories[0];
    let c = cat.get_mut(BoardValue::SixHundred).unwrap();
    assert_eq!(c.board_value, BoardValue::SixHundred);
    c.active = false;
    assert!(!cat.get(BoardValue::SixHundred).unwrap().active);
    assert_eq!(board.active_clues(), 4);
}
