use mmtk_openjdk::budget::TraceBudget;

#[test]
fn budget_lets_as_many_through_as_it_holds() {
    let mut budget = TraceBudget::usual();
    for _ in 0..64 {
        assert!(budget.take());
    }
    for _ in 0..100 {
        assert!(!budget.take());
    }
    assert_eq!(budget.remaining, -100);
}

#[test]
fn below_the_least_budget_lies_the_greatest() {
    let mut budget = TraceBudget { remaining: i32::MIN };
    assert!(!budget.take());
    assert_eq!(budget.remaining, i32::MAX);
    assert!(budget.take());
}

#[test]
fn unset_budget_is_settled_by_what_is_configured() {
    let cases = [
        (Some("3"), 3),
        (Some("+3"), 3),
        (Some("0"), 0),
        (Some("-0"), 0),
        (Some("-5"), -5),
        (Some("0007"), 7),
        (Some("2147483647"), i32::MAX),
        (Some("-2147483648"), i32::MIN),
    ];
    for (text, expected) in cases {
        let mut budget = TraceBudget::unset();
        budget.settle(text);
        assert_eq!(budget.remaining, expected);
    }
}

#[test]
fn text_that_is_no_number_gives_the_usual_budget() {
    let texts = [
        None,
        Some(""),
        Some("+"),
        Some("-"),
        Some("+-1"),
        Some(" 3"),
        Some("3 "),
        Some("1_000"),
        Some("0x10"),
        Some("many"),
        Some("2147483648"),
        Some("-2147483649"),
    ];
    for text in texts {
        let mut budget = TraceBudget::unset();
        budget.settle(text);
        assert_eq!(budget.remaining, 64);
    }
}

#[test]
fn settled_budget_stays() {
    let mut budget = TraceBudget { remaining: 0 };
    budget.settle(Some("9"));
    assert_eq!(budget.remaining, 0);
    let mut budget = TraceBudget { remaining: 12 };
    budget.settle(Some("9"));
    assert_eq!(budget.remaining, 12);
}

#[test]
fn budget_comes_round() {
    let mut budget = TraceBudget::unset();
    let mut granted: Vec<bool> = Vec::new();
    for _ in 0..8 {
        budget.settle(Some("3"));
        granted.push(budget.take());
    }
    assert_eq!(granted, vec![true, true, true, false, true, true, true, false]);
    assert_eq!(budget.remaining, -1);
}

#[test]
fn no_budget_grants_nothing() {
    for text in ["0", "-7"] {
        let mut budget = TraceBudget::unset();
        for _ in 0..20 {
            budget.settle(Some(text));
            assert!(!budget.take());
        }
    }
}
