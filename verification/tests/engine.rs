use credit_card_types::CardTypeError;
use credit_card_types::Code;
use credit_card_types::CreditCardPool;
use credit_card_types::CreditCardType;
use credit_card_types::PatternRule;

fn custom_card(id: &str, patterns: Vec<PatternRule>) -> CreditCardType {
    CreditCardType {
        nice_type: id.to_string(),
        type_: id.to_string(),
        patterns,
        gaps: vec![4, 8, 12],
        lengths: vec![16],
        code: Code {
            name: "CVV".to_string(),
            size: 3,
        },
        match_strength: 0,
    }
}

#[test]
fn identify_is_deterministic() {
    let pool = CreditCardPool::new();
    for input in ["", "4", "62", "6277809", "4111111111111111", "0"] {
        let first = pool.get_credit_card_type(input).unwrap();
        let second = pool.get_credit_card_type(input).unwrap();
        assert_eq!(first, second, "Failed for {}", input);
    }
}

#[test]
fn empty_input_returns_whole_catalog_in_order() {
    let pool = CreditCardPool::new();
    let identified = pool.get_credit_card_type("").unwrap();
    let all = pool.get_all_card_types();
    assert_eq!(identified, all);
    assert_eq!(all.len(), 12);
    let ids = all.iter().map(|card| card.type_.as_str()).collect::<Vec<_>>();
    assert_eq!(
        ids,
        vec![
            "american-express",
            "diners-club",
            "discover",
            "elo",
            "hiper",
            "hipercard",
            "jcb",
            "maestro",
            "mastercard",
            "mir",
            "unionpay",
            "visa",
        ]
    );
}

#[test]
fn singleton_survives_extension() {
    let pool = CreditCardPool::new();
    let short = pool.get_credit_card_type("650033").unwrap();
    assert_eq!(short.len(), 1);
    assert_eq!(short[0].type_, "elo");
    let long = pool.get_credit_card_type("6500331111111111").unwrap();
    assert!(long.is_empty() || long.iter().any(|card| card.type_ == "elo"));
    assert_eq!(long.len(), 1);
}

#[test]
fn upsert_is_idempotent() {
    let mut once = CreditCardPool::new();
    let mut twice = CreditCardPool::new();
    let card = custom_card("custom", vec![PatternRule::Exact("77".to_string())]);
    once.insert_card_type(card.clone());
    twice.insert_card_type(card.clone());
    twice.insert_card_type(card);
    assert_eq!(once, twice);
    assert_eq!(once.get_all_card_types().len(), 13);
}

#[test]
fn upsert_replaces_in_place() {
    let mut pool = CreditCardPool::new();
    let replacement = custom_card("visa", vec![PatternRule::Exact("9".to_string())]);
    pool.insert_card_type(replacement);
    let all = pool.get_all_card_types();
    assert_eq!(all.len(), 12);
    assert_eq!(all[11].type_, "visa");
    let found = pool.get_credit_card_type("9").unwrap();
    assert_eq!(found.len(), 1);
    assert_eq!(found[0].type_, "visa");
    let gone = pool.get_credit_card_type("4111111111111111").unwrap();
    assert!(gone.iter().all(|card| card.type_ != "visa"));
}

#[test]
fn remove_card_type_deletes_only_its_id() {
    let mut pool = CreditCardPool::new();
    pool.remove_card_type("visa");
    assert_eq!(pool.get_all_card_types().len(), 11);
    let found = pool.get_credit_card_type("411").unwrap();
    assert_eq!(found.len(), 0);
    pool.remove_card_type("no-such-network");
    assert_eq!(pool.get_all_card_types().len(), 11);
}

#[test]
fn empty_catalog_matches_nothing() {
    let pool = CreditCardPool::new_empty();
    assert_eq!(pool.get_all_card_types().len(), 0);
    assert_eq!(pool.get_credit_card_type("").unwrap().len(), 0);
    assert_eq!(pool.get_credit_card_type("4").unwrap().len(), 0);
}

#[test]
fn non_digit_input_is_rejected() {
    let pool = CreditCardPool::new();
    for input in ["4a1", "x", "411111111111111x", " 411", "4.1"] {
        let result = pool.get_credit_card_type(input);
        assert_eq!(result, Err(CardTypeError::InvalidInput), "Failed for {}", input);
    }
}

#[test]
fn malformed_range_bounds_are_reported() {
    let mut pool = CreditCardPool::new_empty();
    let bad = custom_card(
        "bad-bounds",
        vec![PatternRule::Range("3O0".to_string(), "305".to_string())],
    );
    pool.insert_card_type(bad);
    // At width one the bad character is not reached yet.
    assert_eq!(pool.get_credit_card_type("3").unwrap().len(), 1);
    // At full width the lower bound cannot be read as a number.
    assert_eq!(
        pool.get_credit_card_type("300"),
        Err(CardTypeError::InvalidRuleBounds)
    );
}

#[test]
fn short_range_bound_is_reported() {
    let mut pool = CreditCardPool::new_empty();
    let bad = custom_card(
        "short-bound",
        vec![PatternRule::Range("30".to_string(), "305".to_string())],
    );
    pool.insert_card_type(bad);
    assert_eq!(
        pool.get_credit_card_type("305"),
        Err(CardTypeError::InvalidRuleBounds)
    );
}

#[test]
fn match_strength_is_width_of_first_matching_rule() {
    let pool = CreditCardPool::new();
    let visa = pool.get_credit_card_type("4111111111111111").unwrap();
    assert_eq!(visa[0].match_strength, 1);
    let unionpay = pool.get_credit_card_type("6220558812340000").unwrap();
    assert_eq!(unionpay[0].type_, "unionpay");
    assert_eq!(unionpay[0].match_strength, 5);
    let elo = pool.get_credit_card_type("6277809990229178").unwrap();
    assert_eq!(elo[0].type_, "elo");
    assert_eq!(elo[0].match_strength, 6);
}

#[test]
fn short_input_is_not_length_qualified() {
    let pool = CreditCardPool::new();
    // "30" matches the diners-club range 300-305 at a truncated width, but
    // is too short to qualify on the rule's own width, so its strength is 0.
    let found = pool.get_credit_card_type("30").unwrap();
    assert_eq!(found.len(), 1);
    assert_eq!(found[0].type_, "diners-club");
    assert_eq!(found[0].match_strength, 0);
}

#[test]
fn exact_rule_matches_by_shared_prefix() {
    let rule = PatternRule::Exact("4111".to_string());
    assert_eq!(credit_card_types::utils::matches("41", &rule), Ok(true));
    assert_eq!(credit_card_types::utils::matches("4111", &rule), Ok(true));
    assert_eq!(credit_card_types::utils::matches("41119999", &rule), Ok(true));
    assert_eq!(credit_card_types::utils::matches("42", &rule), Ok(false));
    assert_eq!(credit_card_types::utils::matches("", &rule), Ok(true));
}

#[test]
fn range_rule_compares_at_shared_width() {
    let rule = PatternRule::Range("620000".to_string(), "629999".to_string());
    assert_eq!(credit_card_types::utils::matches("62", &rule), Ok(true));
    assert_eq!(credit_card_types::utils::matches("61", &rule), Ok(false));
    assert_eq!(credit_card_types::utils::matches("6", &rule), Ok(true));
    assert_eq!(credit_card_types::utils::matches("625000111", &rule), Ok(true));
    assert_eq!(credit_card_types::utils::matches("630000111", &rule), Ok(false));
}

#[test]
fn disambiguation_prefers_the_most_specific_match() {
    let pool = CreditCardPool::new();
    // Both elo (width six) and maestro (width one) fully qualify here; the
    // more specific rule wins, and keeps winning as digits arrive.
    let short = pool.get_credit_card_type("6277809").unwrap();
    assert_eq!(short.len(), 1);
    assert_eq!(short[0].type_, "elo");
    let long = pool.get_credit_card_type("6277809990229178").unwrap();
    assert_eq!(long.len(), 1);
    assert_eq!(long[0].type_, "elo");
}

#[test]
fn disambiguation_ties_break_in_catalog_order() {
    let mut pool = CreditCardPool::new_empty();
    pool.insert_card_type(custom_card(
        "first",
        vec![PatternRule::Exact("12".to_string())],
    ));
    pool.insert_card_type(custom_card(
        "second",
        vec![PatternRule::Exact("12".to_string())],
    ));
    let found = pool.get_credit_card_type("12").unwrap();
    assert_eq!(found.len(), 1);
    assert_eq!(found[0].type_, "first");
    assert_eq!(found[0].match_strength, 2);
}

#[test]
fn well_formedness_check_separates_good_and_bad_catalogs() {
    let mut pool = CreditCardPool::new();
    assert!(pool.is_well_formed());
    pool.insert_card_type(custom_card(
        "bad-bounds",
        vec![PatternRule::Range("3O0".to_string(), "305".to_string())],
    ));
    assert!(!pool.is_well_formed());
}

#[test]
fn error_messages_name_the_failure() {
    assert_eq!(
        CardTypeError::InvalidInput.message(),
        "card number contains a non-digit character"
    );
    assert_eq!(
        CardTypeError::InvalidRuleBounds.message(),
        "range rule bounds are not valid digit strings"
    );
}
