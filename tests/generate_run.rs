use discount_function::config::{configuration_from_fields, resolve_configuration, DiscountConfiguration};
use discount_function::decimal::Decimal;
use discount_function::generate::{
    carries_excluded_tag, cart_lines_discounts_generate_run, generate_candidates, has_product_class,
    offer_message, operations_for, run_with_configuration,
};
use discount_function::model::{
    Cart, CartLine, CartLinesDiscountsGenerateRunResult, CartOperation, Discount, DiscountClass,
    HasTag, Input, Merchandise, Product, ProductDiscountCandidate, ProductDiscountCandidateTarget,
    ProductDiscountCandidateValue, ProductDiscountSelectionStrategy, ProductVariant,
};

fn tag(name: &str, present: bool) -> HasTag {
    HasTag { tag: name.to_string(), has_tag: present }
}

fn variant_line(id: &str, tags: Vec<HasTag>) -> CartLine {
    CartLine {
        id: id.to_string(),
        merchandise: Merchandise::ProductVariant(ProductVariant {
            product: Product { has_tags: tags },
        }),
    }
}

fn custom_line(id: &str) -> CartLine {
    CartLine { id: id.to_string(), merchandise: Merchandise::CustomProduct }
}

fn input(classes: Vec<DiscountClass>, payload: Option<&str>, lines: Vec<CartLine>) -> Input {
    Input {
        discount: Discount {
            discount_classes: classes,
            metafield: payload.map(|p| p.to_string()),
        },
        cart: Cart { lines },
    }
}

fn dec(negative: bool, mantissa: u64, exponent: i32) -> Decimal {
    Decimal { negative, mantissa, exponent }
}

fn only_operation(r: &CartLinesDiscountsGenerateRunResult) -> &Vec<ProductDiscountCandidate> {
    assert_eq!(r.operations.len(), 1);
    match &r.operations[0] {
        CartOperation::ProductDiscountsAdd(op) => {
            assert_eq!(op.selection_strategy, ProductDiscountSelectionStrategy::All);
            &op.candidates
        }
    }
}

fn target_id(c: &ProductDiscountCandidate) -> String {
    assert_eq!(c.targets.len(), 1);
    match &c.targets[0] {
        ProductDiscountCandidateTarget::CartLine(t) => {
            assert_eq!(t.quantity, None);
            t.id.clone()
        }
    }
}

fn percentage(c: &ProductDiscountCandidate) -> Decimal {
    match c.value {
        ProductDiscountCandidateValue::Percentage(p) => p.value,
    }
}

#[test]
fn default_configuration_discounts_untagged_line() {
    let r = cart_lines_discounts_generate_run(&input(
        vec![DiscountClass::Product],
        None,
        vec![variant_line("gid://shopify/CartLine/1", vec![])],
    ));
    let cs = only_operation(&r);
    assert_eq!(cs.len(), 1);
    assert_eq!(target_id(&cs[0]), "gid://shopify/CartLine/1");
    assert_eq!(cs[0].message.as_deref(), Some("10% off"));
    assert_eq!(percentage(&cs[0]), dec(false, 1, 1));
    assert_eq!(cs[0].associated_discount_code, None);
}

#[test]
fn default_excluded_tag_removes_line() {
    let r = cart_lines_discounts_generate_run(&input(
        vec![DiscountClass::Product],
        None,
        vec![variant_line("gid://shopify/CartLine/1", vec![tag("NO_DISCOUNT", true)])],
    ));
    assert!(r.operations.is_empty());
}

#[test]
fn order_class_only_gives_nothing() {
    let r = cart_lines_discounts_generate_run(&input(
        vec![DiscountClass::Order],
        None,
        vec![variant_line("gid://shopify/CartLine/1", vec![])],
    ));
    assert!(r.operations.is_empty());
}

#[test]
fn configured_tag_and_percentage() {
    let r = cart_lines_discounts_generate_run(&input(
        vec![DiscountClass::Product],
        Some(r#"{"percentage": 15.0, "excludedTag": "VIP"}"#),
        vec![
            variant_line("gid://shopify/CartLine/1", vec![tag("VIP", true)]),
            variant_line("gid://shopify/CartLine/2", vec![tag("NO_DISCOUNT", true)]),
        ],
    ));
    let cs = only_operation(&r);
    assert_eq!(cs.len(), 1);
    assert_eq!(target_id(&cs[0]), "gid://shopify/CartLine/2");
    assert_eq!(cs[0].message.as_deref(), Some("15% off"));
    assert_eq!(percentage(&cs[0]), dec(false, 15, 0));
}

#[test]
fn malformed_payload_uses_defaults() {
    let r = cart_lines_discounts_generate_run(&input(
        vec![DiscountClass::Product],
        Some(r#"{"percentage": 15.0, "excludedTag": "#),
        vec![
            variant_line("gid://shopify/CartLine/1", vec![]),
            variant_line("gid://shopify/CartLine/2", vec![tag("NO_DISCOUNT", true)]),
        ],
    ));
    let cs = only_operation(&r);
    assert_eq!(cs.len(), 1);
    assert_eq!(target_id(&cs[0]), "gid://shopify/CartLine/1");
    assert_eq!(cs[0].message.as_deref(), Some("10% off"));
    assert_eq!(percentage(&cs[0]), dec(false, 1, 1));
}

#[test]
fn empty_cart_gives_nothing() {
    for classes in [vec![DiscountClass::Product], vec![DiscountClass::Order], vec![]] {
        for payload in [None, Some(r#"{"percentage": 20, "excludedTag": "X"}"#), Some("oops")] {
            let r = cart_lines_discounts_generate_run(&input(classes.clone(), payload, vec![]));
            assert!(r.operations.is_empty());
        }
    }
}

#[test]
fn non_variant_lines_are_skipped() {
    let r = cart_lines_discounts_generate_run(&input(
        vec![DiscountClass::Product],
        None,
        vec![custom_line("a"), variant_line("b", vec![]), custom_line("c")],
    ));
    let cs = only_operation(&r);
    assert_eq!(cs.len(), 1);
    assert_eq!(target_id(&cs[0]), "b");
    let only_custom = cart_lines_discounts_generate_run(&input(
        vec![DiscountClass::Product],
        None,
        vec![custom_line("a")],
    ));
    assert!(only_custom.operations.is_empty());
}

#[test]
fn tag_needs_presence_and_exact_name() {
    let r = cart_lines_discounts_generate_run(&input(
        vec![DiscountClass::Order, DiscountClass::Product],
        None,
        vec![
            variant_line("a", vec![tag("NO_DISCOUNT", false)]),
            variant_line("b", vec![tag("no_discount", true)]),
            variant_line("c", vec![tag(" NO_DISCOUNT", true)]),
            variant_line("d", vec![tag("SALE", true), tag("NO_DISCOUNT", true)]),
        ],
    ));
    let cs = only_operation(&r);
    let ids: Vec<String> = cs.iter().map(target_id).collect();
    assert_eq!(ids, vec!["a".to_string(), "b".to_string(), "c".to_string()]);
}

#[test]
fn all_excluded_gives_no_operation() {
    let lines = vec![variant_line("a", vec![tag("NO_DISCOUNT", true)])];
    let cs = generate_candidates(&lines, &DiscountConfiguration::default());
    assert!(cs.is_empty());
    assert!(operations_for(cs).is_empty());
}

#[test]
fn repeated_runs_agree() {
    let req = input(
        vec![DiscountClass::Product],
        Some(r#"{"percentage": 12.5, "excludedTag": "VIP"}"#),
        vec![variant_line("a", vec![]), variant_line("b", vec![tag("VIP", true)]), custom_line("c")],
    );
    let first = cart_lines_discounts_generate_run(&req);
    let second = cart_lines_discounts_generate_run(&req);
    assert_eq!(format!("{:?}", first), format!("{:?}", second));
    let cs = only_operation(&first);
    assert_eq!(cs[0].message.as_deref(), Some("12.5% off"));
}

#[test]
fn payload_decoding() {
    let c = resolve_configuration(&Some(r#"{"percentage": 15.0, "excludedTag": "VIP"}"#.to_string()));
    assert_eq!(c.percentage, dec(false, 15, 0));
    assert_eq!(c.excluded_tag, "VIP");
    let c = resolve_configuration(&Some(r#"{"percentage": 7, "excludedTag": "", "other": [1]}"#.to_string()));
    assert_eq!(c.percentage, dec(false, 7, 0));
    assert_eq!(c.excluded_tag, "");
    let c = resolve_configuration(&Some(r#"{"percentage": -150.25, "excludedTag": "A"}"#.to_string()));
    assert_eq!(c.percentage, dec(true, 15025, -2));
    for bad in [
        "",
        "not json",
        r#"{"percentage": "15", "excludedTag": "VIP"}"#,
        r#"{"percentage": 15}"#,
        r#"{"excludedTag": "VIP"}"#,
        r#"{"percentage": 15, "excludedTag": 3}"#,
        r#"[15, "VIP"]"#,
        r#"{"percent": 15, "excludedTag": "VIP"}"#,
    ] {
        let c = resolve_configuration(&Some(bad.to_string()));
        assert_eq!(c.percentage, dec(false, 1, 1), "payload {}", bad);
        assert_eq!(c.excluded_tag, "NO_DISCOUNT", "payload {}", bad);
    }
    let c = resolve_configuration(&None);
    assert_eq!(c.percentage, dec(false, 1, 1));
    assert_eq!(c.excluded_tag, "NO_DISCOUNT");
}

#[test]
fn fields_to_configuration() {
    let c = configuration_from_fields(Some(("1.5e1".to_string(), "T".to_string())));
    assert_eq!(c.percentage, dec(false, 15, 0));
    assert_eq!(c.excluded_tag, "T");
    let c = configuration_from_fields(Some(("abc".to_string(), "T".to_string())));
    assert_eq!(c.percentage, dec(false, 1, 1));
    assert_eq!(c.excluded_tag, "NO_DISCOUNT");
    let c = configuration_from_fields(None);
    assert_eq!(c.excluded_tag, "NO_DISCOUNT");
}

#[test]
fn decimal_parsing() {
    assert_eq!(Decimal::parse("15.0"), Some(dec(false, 15, 0)));
    assert_eq!(Decimal::parse("10"), Some(dec(false, 1, 1)));
    assert_eq!(Decimal::parse("0.125"), Some(dec(false, 125, -3)));
    assert_eq!(Decimal::parse("-2.50"), Some(dec(true, 25, -1)));
    assert_eq!(Decimal::parse("1e21"), Some(dec(false, 1, 21)));
    assert_eq!(Decimal::parse("1.5E-7"), Some(dec(false, 15, -8)));
    assert_eq!(Decimal::parse("2e+3"), Some(dec(false, 2, 3)));
    assert_eq!(Decimal::parse("0.000"), Some(dec(false, 0, 0)));
    assert_eq!(Decimal::parse("-0.0"), Some(dec(true, 0, 0)));
    assert_eq!(Decimal::parse("18446744073709551615"), Some(dec(false, 18446744073709551615, 0)));
    assert_eq!(Decimal::parse("18446744073709551616"), None);
    assert_eq!(Decimal::parse("1e2147483648"), None);
    for bad in ["", "-", ".5", "5.", "1e", "1e-", "+1", "1.2.3", "1x", " 1", "--1", "1e5e5"] {
        assert_eq!(Decimal::parse(bad), None, "text {}", bad);
    }
}

#[test]
fn decimal_rendering() {
    assert_eq!(dec(false, 1, 1).to_text(), "10");
    assert_eq!(dec(false, 15, 0).to_text(), "15");
    assert_eq!(dec(false, 125, -1).to_text(), "12.5");
    assert_eq!(dec(false, 125, -3).to_text(), "0.125");
    assert_eq!(dec(false, 15, -8).to_text(), "0.00000015");
    assert_eq!(dec(true, 25, -1).to_text(), "-2.5");
    assert_eq!(dec(false, 0, 0).to_text(), "0");
    assert_eq!(dec(true, 0, 0).to_text(), "-0");
    assert_eq!(dec(false, 7, 3).to_text(), "7000");
    assert_eq!(dec(false, 18446744073709551615, 0).to_text(), "18446744073709551615");
}

#[test]
fn offer_messages() {
    assert_eq!(offer_message(dec(false, 1, 1)), "10% off");
    assert_eq!(offer_message(dec(false, 333, -1)), "33.3% off");
}

#[test]
fn class_and_tag_checks() {
    assert!(has_product_class(&vec![DiscountClass::Shipping, DiscountClass::Product]));
    assert!(!has_product_class(&vec![DiscountClass::Shipping, DiscountClass::Order]));
    assert!(!has_product_class(&vec![]));
    let p = Product { has_tags: vec![tag("A", false), tag("B", true)] };
    assert!(carries_excluded_tag(&p, &"B".to_string()));
    assert!(!carries_excluded_tag(&p, &"A".to_string()));
    assert!(!carries_excluded_tag(&p, &"C".to_string()));
}

#[test]
fn run_under_given_configuration() {
    let config = configuration_from_fields(Some(("25".to_string(), "VIP".to_string())));
    let req = input(
        vec![DiscountClass::Product],
        None,
        vec![variant_line("a", vec![tag("VIP", true)]), variant_line("b", vec![])],
    );
    let r = run_with_configuration(&req, &config);
    let cs = only_operation(&r);
    assert_eq!(cs.len(), 1);
    assert_eq!(target_id(&cs[0]), "b");
    assert_eq!(cs[0].message.as_deref(), Some("25% off"));
}
