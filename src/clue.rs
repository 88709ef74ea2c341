use vstd::prelude::*;

verus! {

/// A clue record as supplied by the upstream clue service.
#[derive(Debug)]
pub struct Clue {
    /// Unique identifier of the clue.
    pub id: u64,
    pub answer: String,
    pub question: String,
    /// Point value; absent when the upstream record never had one.
    pub value: Option<i32>,
    /// Identifier of the category the clue belongs to.
    pub category_id: u64,
}

/// A category record with its raw clue collection.
#[derive(Debug)]
pub struct Category {
    /// Unique identifier of the category.
    pub id: u64,
    pub title: String,
    /// Number of clues the upstream service reports for the category.
    pub clues_count: u32,
    /// The clues, possibly with duplicates, missing tiers or unvalued entries.
    pub clues: Vec<Clue>,
}

impl Clone for Clue {
    fn clone(&self) -> (r: Self)
        ensures
            r == *self,
    {
        Clue {
            id: self.id,
            answer: self.answer.clone(),
            question: self.question.clone(),
            value: self.value,
            category_id: self.category_id,
        }
    }
}

impl Clone for Category {
    fn clone(&self) -> (r: Self)
        ensures
            r.id == self.id,
            r.title == self.title,
            r.clues_count == self.clues_count,
            r.clues@ == self.clues@,
    {
        let clues = self.clues.clone();
        proof {
            assert forall|i: int| 0 <= i < clues@.len() implies clues@[i] == self.clues@[i] by {
                assert(cloned::<Clue>(self.clues[i], clues[i]));
            }
            assert(clues@ =~= self.clues@);
        }
        Category {
            id: self.id,
            title: self.title.clone(),
            clues_count: self.clues_count,
            clues,
        }
    }
}

} // verus!
