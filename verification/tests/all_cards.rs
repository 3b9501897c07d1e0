use credit_card_types::Code;
use credit_card_types::CreditCardPool;
use credit_card_types::CreditCardType;
use credit_card_types::PatternRule;

fn exact(prefix: &str) -> PatternRule {
    PatternRule::Exact(prefix.to_string())
}

fn code(name: &str, size: u32) -> Code {
    Code {
        name: name.to_string(),
        size,
    }
}

#[test]
fn test_single_card_types() {
    let card_tests = [
        ["411", "visa"],
        ["4111111111111111", "visa"],
        ["4012888888881881", "visa"],
        ["4222222222222", "visa"],
        ["4462030000000000", "visa"],
        ["4484070000000000", "visa"],
        ["411111111111111111", "visa"],
        ["4111111111111111110", "visa"],
        ["431274", "elo"],
        ["451416", "elo"],
        ["457393", "elo"],
        ["401178", "elo"],
        ["401179", "elo"],
        ["438935", "elo"],
        ["457631", "elo"],
        ["457632", "elo"],
        ["4576321111111111", "elo"],
        ["5066991111111118", "elo"],
        ["504175", "elo"],
        ["6277809", "elo"],
        ["6277809990229178", "elo"],
        ["650033", "elo"],
        ["6500331111111111", "elo"],
        ["2221", "mastercard"],
        ["2222", "mastercard"],
        ["2223", "mastercard"],
        ["2224", "mastercard"],
        ["2225", "mastercard"],
        ["2226", "mastercard"],
        ["2225", "mastercard"],
        ["2226", "mastercard"],
        ["223", "mastercard"],
        ["2239", "mastercard"],
        ["23", "mastercard"],
        ["24", "mastercard"],
        ["25", "mastercard"],
        ["26", "mastercard"],
        ["27", "mastercard"],
        ["270", "mastercard"],
        ["271", "mastercard"],
        ["272", "mastercard"],
        ["2720", "mastercard"],
        ["51", "mastercard"],
        ["52", "mastercard"],
        ["53", "mastercard"],
        ["54", "mastercard"],
        ["55", "mastercard"],
        ["5555555555554444", "mastercard"],
        ["5454545454545454", "mastercard"],
        ["34", "american-express"],
        ["37", "american-express"],
        ["341", "american-express"],
        ["34343434343434", "american-express"],
        ["378282246310005", "american-express"],
        ["371449635398431", "american-express"],
        ["378734493671000", "american-express"],
        ["30", "diners-club"],
        ["300", "diners-club"],
        ["36", "diners-club"],
        ["38", "diners-club"],
        ["39", "diners-club"],
        ["30569309025904", "diners-club"],
        ["38520000023237", "diners-club"],
        ["36700102000000", "diners-club"],
        ["36148900647913", "diners-club"],
        ["6011", "discover"],
        ["644", "discover"],
        ["644", "discover"],
        ["645", "discover"],
        ["646", "discover"],
        ["647", "discover"],
        ["648", "discover"],
        ["649", "discover"],
        ["6011000400000000", "discover"],
        ["6011111111111117", "discover"],
        ["6011000990139424", "discover"],
        ["62123456789002", "unionpay"],
        ["621234567890003", "unionpay"],
        ["6221258812340000", "unionpay"],
        ["622018111111111111", "unionpay"],
        ["6212345678900000003", "unionpay"],
        ["56", "maestro"],
        ["57", "maestro"],
        ["58", "maestro"],
        ["59", "maestro"],
        ["67", "maestro"],
        ["6304000000000000", "maestro"],
        ["6799990100000000019", "maestro"],
        ["62183", "maestro"],
        ["1", "jcb"],
        ["35", "jcb"],
        ["2131", "jcb"],
        ["21312", "jcb"],
        ["1800", "jcb"],
        ["18002", "jcb"],
        ["3530111333300000", "jcb"],
        ["3566002020360505", "jcb"],
        ["35308796121637357", "jcb"],
        ["353445444300732639", "jcb"],
        ["3537286818376838569", "jcb"],
        ["6221260000000000", "unionpay"],
        ["6221260000000000000", "unionpay"],
        ["6222000000000000", "unionpay"],
        ["6228000000000000", "unionpay"],
        ["6229250000000000", "unionpay"],
        ["6229250000000000000", "unionpay"],
        ["6240000000000000", "unionpay"],
        ["6260000000000000000", "unionpay"],
        ["6282000000000000", "unionpay"],
        ["6289000000000000000", "unionpay"],
        ["6221558812340000", "unionpay"],
        ["6269992058134322", "unionpay"],
        ["622018111111111111", "unionpay"],
        ["8", "unionpay"],
        ["8100513433325374", "unionpay"],
        ["8111700872004845", "unionpay"],
        ["8141618644273338", "unionpay"],
        ["8158163233706018", "unionpay"],
        ["8168524506870054", "unionpay"],
        ["220", "mir"],
        ["2200", "mir"],
        ["2204", "mir"],
        ["22000000000000000", "mir"],
        ["22049999999999999", "mir"],
        ["6062820524845321", "hipercard"],
        ["6062820000", "hipercard"],
        ["6370950000000005", "hiper"],
        ["637095", "hiper"],
        ["637609", "hiper"],
        ["637599", "hiper"],
        ["637612", "hiper"],
        ["637568", "hiper"],
        ["63737423", "hiper"],
        ["63743358", "hiper"],
    ];

    let card_types = CreditCardPool::new();

    for test in card_tests.iter() {
        let card_type = card_types.get_credit_card_type(test[0]).unwrap();
        assert_eq!(card_type[0].type_, test[1], "Failed for {}", test[0]);
    }
}

#[test]
fn test_multiple_card_types() {
    let card_tests: [(&str, &[&str]); 39] = [
        (
            "",
            &[
                "american-express",
                "diners-club",
                "discover",
                "elo",
                "hiper",
                "hipercard",
                "jcb",
                "maestro",
                "mastercard",
                "mir",
                "unionpay",
                "visa",
            ],
        ),
        ("2", &["mastercard", "jcb", "mir"]),
        ("3", &["american-express", "diners-club", "jcb"]),
        ("5", &["mastercard", "maestro", "elo"]),
        ("50", &["maestro", "elo"]),
        (
            "6",
            &[
                "discover",
                "unionpay",
                "maestro",
                "elo",
                "hiper",
                "hipercard",
            ],
        ),
        ("60", &["discover", "maestro", "hipercard"]),
        ("601", &["discover", "maestro"]),
        ("64", &["discover", "maestro"]),
        ("62", &["unionpay", "maestro", "elo"]),
        ("4", &["visa", "maestro", "elo"]),
        ("43", &["visa", "elo"]),
        ("431", &["visa", "elo"]),
        ("4312", &["visa", "elo"]),
        ("43127", &["visa", "elo"]),
        ("45141", &["visa", "elo"]),
        ("45739", &["visa", "elo"]),
        ("40117", &["visa", "elo"]),
        ("43893", &["visa", "elo"]),
        ("45763", &["visa", "elo"]),
        ("6277", &["unionpay", "maestro", "elo"]),
        ("62778", &["unionpay", "maestro", "elo"]),
        ("63", &["maestro", "elo", "hiper"]),
        ("636", &["maestro", "elo"]),
        ("6362", &["maestro", "elo"]),
        ("63629", &["maestro", "elo"]),
        ("637", &["maestro", "hiper"]),
        ("637374", &["maestro", "hiper"]),
        ("637433", &["maestro", "hiper"]),
        ("606", &["maestro", "hipercard"]),
        ("627", &["unionpay", "maestro", "elo"]),
        ("6062", &["maestro", "hipercard"]),
        ("6370", &["maestro", "hiper"]),
        ("6376", &["maestro", "hiper"]),
        ("6375", &["maestro", "hiper"]),
        ("65", &["discover", "maestro", "elo"]),
        ("655", &["discover", "maestro", "elo"]),
        ("6550", &["discover", "maestro", "elo"]),
        ("65502", &["discover", "maestro", "elo"]),
    ];

    let card_types = CreditCardPool::new();

    for test in card_tests.iter() {
        let found = card_types.get_credit_card_type(test.0).unwrap();
        let mut card_names = found
            .iter()
            .map(|card| card.type_.as_str())
            .collect::<Vec<_>>();
        card_names.sort();
        let mut should_match = test.1.to_vec();
        should_match.sort();
        assert_eq!(card_names, should_match, "Failed for {}", test.0);
    }
}

#[test]
fn test_invalid_card_types() {
    let card_tests = [
        "0", "12", "123", "181", "1802", "221", "222099", "2721", "212", "2132", "306", "31", "32",
        "33", "7", "9",
    ];

    let card_types = CreditCardPool::new();
    for test in card_tests.iter() {
        let card_type = card_types.get_credit_card_type(test).unwrap();
        assert_eq!(card_type.len(), 0, "Failed for {}", test);
    }
}

#[test]
fn test_card_ccv() {
    let card_tests = [
        ("5454545454545454", code("CVC", 3)),
        ("4111111111111111", code("CVV", 3)),
        ("378734493671000", code("CID", 4)),
        ("6011000990139424", code("CID", 3)),
        ("30569309025904", code("CVV", 3)),
        ("30569309025904", code("CVV", 3)),
        ("6220558812340000", code("CVN", 3)),
        ("6304000000000000", code("CVC", 3)),
        ("2200000000000000", code("CVP2", 3)),
    ];

    let card_types = CreditCardPool::new();

    for test in card_tests.iter() {
        let found = card_types.get_credit_card_type(test.0).unwrap();
        let card_names = found.iter().map(|card| card.code.clone()).collect::<Vec<_>>();
        let should_match = test.1.clone();
        assert_eq!(card_names, vec![should_match], "Failed for {}", test.0);
    }
}

#[test]
fn test_add_custom_card() {
    let mut card_types = CreditCardPool::new();
    let card_type = CreditCardType {
        type_: "custom".to_string(),
        match_strength: 0,
        nice_type: "Custom".to_string(),
        patterns: vec![exact("1234567890123456")],
        lengths: vec![16],
        gaps: vec![4, 8, 12],
        code: code("CVC", 3),
    };
    card_types.insert_card_type(card_type);
    let card_types = card_types.get_credit_card_type("1234567890123456").unwrap();
    let card_names = card_types
        .iter()
        .map(|card| card.type_.clone())
        .collect::<Vec<_>>();
    assert_eq!(card_names, vec!["custom".to_string()]);
    assert_eq!(card_types[0].match_strength, 16);
}

#[test]
fn test_create_default_card_type() {
    let mut card_types = CreditCardPool::new();
    let default_card_type = CreditCardType::default();
    card_types.insert_card_type(default_card_type);

    let card_types = card_types.get_credit_card_type("1234567890123456").unwrap();

    let card_names = card_types
        .iter()
        .map(|card| card.type_.clone())
        .collect::<Vec<_>>();

    assert_eq!(card_names, vec!["default".to_string()]);
}

fn assert_send_sync<T: Send + Sync>() {}

fn assert_partial_eq_eq<T: PartialEq + Eq>() {}

fn assert_debug<T: std::fmt::Debug>() {}

fn assert_partial_ord_ord<T: PartialOrd + Ord>() {}

#[test]
fn test_trait_implementations() {
    assert_send_sync::<CreditCardPool>();

    assert_send_sync::<CreditCardType>();
    assert_partial_eq_eq::<CreditCardType>();
    assert_debug::<CreditCardType>();
    assert_partial_ord_ord::<CreditCardType>();

    assert_send_sync::<Code>();
    assert_partial_eq_eq::<Code>();
    assert_debug::<Code>();
    assert_partial_ord_ord::<Code>();
}
