use jeopardy::clue::{Category, Clue};
use jeopardy::shuffle::{get_clue_sample, shuffle_category};

fn clue(id: u64, value: Option<i32>) -> Clue {
    Clue {
        id,
        answer: format!("answer {}", id),
        question: format!("question {}", id),
        value,
        category_id: 1,
    }
}

fn category(clues: Vec<Clue>) -> Category {
    let n = clues.len() as u32;
    Category { id: 1, title: "fixture".to_string(), clues_count: n, clues }
}

#[test]
fn shuffle_with_duplicates_picks_one_per_value() {
    let mut clues = Vec::new();
    let mut id = 0;
    for v in [200, 400, 600, 800, 1000].iter() {
        for _ in 0..3 {
            clues.push(clue(id, Some(*v)));
            id += 1;
        }
    }
    let source = category(clues);
    for _ in 0..20 {
        let out = shuffle_category(&source).unwrap();
        assert_eq!(out.id, 1);
        assert_eq!(out.title, "fixture");
        assert_eq!(out.clues.len(), 5);
        for (t, v) in [200, 400, 600, 800, 1000].iter().enumerate() {
            let c = &out.clues[t];
            assert_eq!(c.value, Some(*v));
            let src = source.clues.iter().find(|s| s.id == c.id).unwrap();
            assert_eq!(src.value, Some(*v));
            assert_eq!(src.question, c.question);
        }
    }
}

#[test]
fn shuffle_fills_missing_value_from_unvalued_clue() {
    let source = category(vec![
        clue(1, Some(200)),
        clue(2, Some(400)),
        clue(3, Some(800)),
        clue(4, Some(1000)),
        clue(5, None),
    ]);
    let out = shuffle_category(&source).unwrap();
    assert_eq!(out.clues.len(), 5);
    assert_eq!(out.clues[2].id, 5);
    assert_eq!(out.clues[2].value, Some(600));
    assert_eq!(out.clues[2].question, "question 5");
}

#[test]
fn shuffle_without_fallback_gives_no_result() {
    let source = category(vec![
        clue(1, Some(200)),
        clue(2, Some(400)),
        clue(3, Some(800)),
        clue(4, Some(1000)),
        clue(5, Some(300)),
    ]);
    assert!(shuffle_category(&source).is_none());
}

#[test]
fn shuffle_of_empty_category_gives_no_result() {
    assert!(shuffle_category(&category(Vec::new())).is_none());
}

#[test]
fn clue_sample_draws_only_matching_clues() {
    let source = category(vec![clue(1, Some(200)), clue(2, Some(400)), clue(3, Some(200)), clue(4, None)]);
    for _ in 0..20 {
        let c = get_clue_sample(&source, Some(200)).unwrap();
        assert!(c.id == 1 || c.id == 3);
        assert_eq!(c.value, Some(200));
    }
    let c = get_clue_sample(&source, Some(1000)).unwrap();
    assert_eq!(c.id, 4);
    assert_eq!(c.value, Some(1000));
    let c = get_clue_sample(&source, None).unwrap();
    assert_eq!(c.id, 4);
    assert_eq!(c.value, None);
}

#[test]
fn clue_sample_for_absent_value_without_unvalued_clue_is_none() {
    let source = category(vec![clue(1, Some(200))]);
    assert!(get_clue_sample(&source, None).is_none());
    assert!(get_clue_sample(&source, Some(400)).is_none());
}

#[test]
fn clue_at_indexes_candidates_in_order() {
    let source = category(vec![clue(1, Some(200)), clue(2, None), clue(3, Some(200)), clue(4, None)]);
    assert_eq!(jeopardy::shuffle::candidate_count(&source, Some(200)), 2);
    assert_eq!(jeopardy::shuffle::clue_at(&source, Some(200), 0).unwrap().id, 1);
    assert_eq!(jeopardy::shuffle::clue_at(&source, Some(200), 1).unwrap().id, 3);
    assert!(jeopardy::shuffle::clue_at(&source, Some(200), 2).is_none());
    assert_eq!(jeopardy::shuffle::candidate_count(&source, Some(800)), 2);
    let c = jeopardy::shuffle::clue_at(&source, Some(800), 1).unwrap();
    assert_eq!(c.id, 4);
    assert_eq!(c.value, Some(800));
    assert_eq!(c.answer, "answer 4");
    assert_eq!(jeopardy::shuffle::candidate_count(&category(vec![clue(1, Some(200))]), Some(400)), 0);
}
