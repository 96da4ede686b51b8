//! Tests of the target list: parsing, length, iteration and chunking.

use promodoc::domain::PromotionKind;
use promodoc::domain::Targets;
use promodoc::domain::validate_targets;

#[test]
fn test_targets() {
    let targets = Targets::try_from("asdf,fdsa,1234,4321");
    let mut it = targets.iter();
    assert_eq!(&"asdf".to_string(), it.next().unwrap());
    assert_eq!(&"fdsa".to_string(), it.next().unwrap());
    assert_eq!(&"1234".to_string(), it.next().unwrap());
    assert_eq!(&"4321".to_string(), it.next().unwrap())
}

#[test]
fn test_targets_prepare() {
    let targets = Targets::try_from("1,2,3,4,5");
    let prepped = targets.clone().prepare();
    assert_eq!(prepped, vec![Targets::try_from("1,2,3"), Targets::try_from("4,5")])
}

#[test]
fn test_targets_prepare_exact_three() {
    let targets = Targets::try_from("1,2,3");
    let prepped = targets.clone().prepare();
    assert_eq!(prepped, vec![Targets::try_from("1,2,3")])
}

#[test]
fn test_targets_prepare_long_list() {
    let targets = Targets::try_from("1,2,3,4,5,6,7,8,9");
    let prepped = targets.clone().prepare();
    assert_eq!(
        prepped,
        vec![Targets::try_from("1,2,3"), Targets::try_from("4,5,6"), Targets::try_from("7,8,9")]
    )
}

#[test]
fn test_targets_prepare_long_list_plus_one() {
    let targets = Targets::try_from("1,2,3,4,5,6,7,8,9,10");
    let prepped = targets.clone().prepare();
    assert_eq!(
        prepped,
        vec![
            Targets::try_from("1,2,3"),
            Targets::try_from("4,5,6"),
            Targets::try_from("7,8,9"),
            Targets::try_from("10")
        ]
    )
}

#[test]
fn test_targets_len_conventions() {
    // A single empty element stands for "no targets".
    assert_eq!(Targets::try_from("").len(), 0);
    assert_eq!(Targets::try_from("a").len(), 1);
    // Multi-element lists never special-case emptiness: "a," parses to
    // ["a", ""] and reports two elements.
    assert_eq!(Targets::try_from("a,").len(), 2);
}

#[test]
fn test_targets_prepare_empty_is_no_group() {
    let targets = Targets::try_from("");
    let prepped = targets.clone().prepare();
    assert_eq!(prepped.len(), 0);
}

#[test]
fn test_targets_prepare_single() {
    let targets = Targets::try_from("only");
    let prepped = targets.clone().prepare();
    assert_eq!(prepped, vec![Targets::try_from("only")]);
}

#[test]
fn test_targets_prepare_consumes_the_list() {
    let mut targets = Targets::try_from("1,2,3,4");
    let prepped = targets.prepare();
    assert_eq!(prepped.len(), 2);
    assert_eq!(targets.len(), 0);
    assert!(targets.iter().next().is_none());
}

#[test]
fn test_targets_push_trims() {
    let mut targets = Targets::new();
    targets.push("  spaced \t".to_string());
    let mut it = targets.iter();
    assert_eq!(&"spaced".to_string(), it.next().unwrap());
    assert!(it.next().is_none());
}

#[test]
fn test_targets_parse_trims_each_piece() {
    let targets = Targets::try_from(" a , b ,c");
    assert_eq!(targets, Targets::try_from("a,b,c"));
}

#[test]
fn test_targets_joined() {
    assert_eq!(Targets::try_from("a,b").joined(), "a,b");
    assert_eq!(Targets::try_from("x").joined(), "x");
    // Nothing is written before the join of an empty prefix, so a leading
    // empty element does not produce a leading comma.
    assert_eq!(Targets::try_from(",a").joined(), "a");
    assert_eq!(Targets::try_from("a,,b").joined(), "a,,b");
}

#[test]
fn test_validate_images_flags_untagged() {
    let targets = Targets::try_from("nginx:1.2,redis");
    let bad = validate_targets(PromotionKind::Images, &targets);
    assert_eq!(bad, vec!["redis".to_string()]);
}

#[test]
fn test_validate_config_maps_flags_tagged() {
    let targets = Targets::try_from("nginx:1.2,redis");
    let bad = validate_targets(PromotionKind::ConfigMaps, &targets);
    assert_eq!(bad, vec!["nginx:1.2".to_string()]);
}

#[test]
fn test_validate_secrets_checks_nothing() {
    let targets = Targets::try_from("nginx:1.2,redis");
    let bad = validate_targets(PromotionKind::Secrets, &targets);
    assert!(bad.is_empty());
}

#[test]
fn test_validate_empty_list_flags_nothing() {
    let targets = Targets::try_from("");
    let bad = validate_targets(PromotionKind::Images, &targets);
    assert!(bad.is_empty());
}
