use vstd::prelude::*;

verus! {

/// One of the five canonical point tiers of a board clue.
#[derive(PartialEq, Eq, Structural, Clone, Copy, Debug)]
pub enum BoardValue {
    TwoHundred,
    FourHundred,
    SixHundred,
    EightHundred,
    OneThousand,
}

/// Point amount of a tier.
pub open spec fn tier_amount(v: BoardValue) -> i32 {
    match v {
        BoardValue::TwoHundred => 200,
        BoardValue::FourHundred => 400,
        BoardValue::SixHundred => 600,
        BoardValue::EightHundred => 800,
        BoardValue::OneThousand => 1000,
    }
}

/// Amount of the tier at position `i` in ascending order (0..5).
pub open spec fn tier_at(i: int) -> i32 {
    if i == 0 {
        200
    } else if i == 1 {
        400
    } else if i == 2 {
        600
    } else if i == 3 {
        800
    } else {
        1000
    }
}

/// True when `amount` is one of the five canonical amounts.
pub open spec fn is_canonical(amount: i32) -> bool {
    amount == 200 || amount == 400 || amount == 600 || amount == 800 || amount == 1000
}

/// The tier a raw clue value denotes, if any.
pub open spec fn tier_of(raw: Option<i32>) -> Option<BoardValue> {
    match raw {
        Some(200) => Some(BoardValue::TwoHundred),
        Some(400) => Some(BoardValue::FourHundred),
        Some(600) => Some(BoardValue::SixHundred),
        Some(800) => Some(BoardValue::EightHundred),
        Some(1000) => Some(BoardValue::OneThousand),
        _ => None,
    }
}

impl BoardValue {
    /// Point amount of this tier.
    pub fn amount(self) -> (r: i32)
        ensures
            r == tier_amount(self),
    {
        match self {
            BoardValue::TwoHundred => 200,
            BoardValue::FourHundred => 400,
            BoardValue::SixHundred => 600,
            BoardValue::EightHundred => 800,
            BoardValue::OneThousand => 1000,
        }
    }
}

/// Maps a raw clue value to its canonical tier; `None` for an absent or
/// non-canonical value.
pub fn normalize(raw: Option<i32>) -> (r: Option<BoardValue>)
    ensures
        r == tier_of(raw),
{
    match raw {
        Some(200) => Some(BoardValue::TwoHundred),
        Some(400) => Some(BoardValue::FourHundred),
        Some(600) => Some(BoardValue::SixHundred),
        Some(800) => Some(BoardValue::EightHundred),
        Some(1000) => Some(BoardValue::OneThousand),
        _ => None,
    }
}

/// Normalizing succeeds exactly on the five canonical amounts, and the tier it
/// yields carries the amount it was read from.
pub proof fn lemma_normalize_round_trip(raw: Option<i32>)
    ensures
        tier_of(raw) is Some <==> (raw is Some && is_canonical(raw.unwrap())),
        tier_of(raw) is Some ==> tier_amount(tier_of(raw).unwrap()) == raw.unwrap(),
{
}

} // verus!
