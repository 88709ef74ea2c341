use jeopardy::value::{normalize, BoardValue};

#[test]
fn normalize_accepts_canonical_values() {
    let cases = [
        (200, BoardValue::TwoHundred),
        (400, BoardValue::FourHundred),
        (600, BoardValue::SixHundred),
        (800, BoardValue::EightHundred),
        (1000, BoardValue::OneThousand),
    ];
    for (raw, tier) in cases.iter() {
        let got = normalize(Some(*raw)).unwrap();
        assert_eq!(got, *tier);
        assert_eq!(got.amount(), *raw);
    }
}

#[test]
fn normalize_rejects_other_values() {
    assert_eq!(normalize(None), None);
    for raw in [0, 100, 199, 201, 300, 1200, 2000, -200].iter() {
        assert_eq!(normalize(Some(*raw)), None);
    }
}
