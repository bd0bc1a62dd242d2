use bins::range::{BidirectionalRange, AnyContains, flatten_range_list, parse_range_list};
use bins::error::BinsError;

#[test]
fn parse_descending_range_enumerates_backward() {
    let r = BidirectionalRange::parse_usize("2-0").unwrap();
    assert_eq!(r, BidirectionalRange::new(2, 0));
    assert_eq!(r.indices(), vec![2, 1, 0]);
}

#[test]
fn parse_bare_number_is_singleton() {
    let r = BidirectionalRange::parse_usize("0").unwrap();
    assert_eq!(r, BidirectionalRange::new(0, 0));
    assert_eq!(r.indices(), vec![0]);
}

#[test]
fn parse_three_components_fails() {
    let e = BidirectionalRange::parse_usize("1-2-3").unwrap_err();
    assert_eq!(e, BinsError::BadRange);
}

#[test]
fn parse_non_numeric_component_fails() {
    let e = BidirectionalRange::parse_usize("abc").unwrap_err();
    assert_eq!(e, BinsError::BadRangeNumber("abc".to_owned()));
    let e = BidirectionalRange::parse_usize("1-x").unwrap_err();
    assert_eq!(e, BinsError::BadRangeNumber("x".to_owned()));
    let e = BidirectionalRange::parse_usize("y-2").unwrap_err();
    assert_eq!(e, BinsError::BadRangeNumber("y".to_owned()));
    let e = BidirectionalRange::parse_usize("").unwrap_err();
    assert_eq!(e, BinsError::BadRangeNumber(String::new()));
    let e = BidirectionalRange::parse_usize("5-").unwrap_err();
    assert_eq!(e, BinsError::BadRangeNumber(String::new()));
}

#[test]
fn parse_ascending_range_enumerates_forward() {
    let r = BidirectionalRange::parse_usize("3-6").unwrap();
    assert_eq!(r, BidirectionalRange::new(3, 6));
    assert_eq!(r.indices(), vec![3, 4, 5, 6]);
}

#[test]
fn singleton_range_enumerates_exactly_one_index() {
    let r = BidirectionalRange::new(4, 4);
    assert_eq!(r.indices(), vec![4]);
    assert!(r.contains(4));
    assert!(!r.contains(3));
    assert!(!r.contains(5));
}

#[test]
fn contains_is_direction_aware() {
    let up = BidirectionalRange::new(2, 5);
    assert!(up.contains(2) && up.contains(3) && up.contains(5));
    assert!(!up.contains(1) && !up.contains(6));
    let down = BidirectionalRange::new(5, 2);
    assert!(down.contains(2) && down.contains(4) && down.contains(5));
    assert!(!down.contains(1) && !down.contains(6));
}

#[test]
fn contains_agrees_with_enumeration() {
    for r in [BidirectionalRange::new(2, 5), BidirectionalRange::new(5, 2)] {
        let listed = r.indices();
        for x in 0..8usize {
            assert_eq!(r.contains(x), listed.contains(&x));
        }
    }
}

#[test]
fn any_contains_checks_every_range() {
    let rs = vec![BidirectionalRange::new(1, 2), BidirectionalRange::new(7, 5)];
    assert!(rs.any_contains(1));
    assert!(rs.any_contains(2));
    assert!(!rs.any_contains(3));
    assert!(rs.any_contains(5));
    assert!(rs.any_contains(6));
    assert!(rs.any_contains(7));
    assert!(!rs.any_contains(8));
}

#[test]
fn parse_list_keeps_token_order() {
    let rs = parse_range_list("2-0,5,7-9").unwrap();
    assert_eq!(
        rs,
        vec![
            BidirectionalRange::new(2, 0),
            BidirectionalRange::new(5, 5),
            BidirectionalRange::new(7, 9),
        ],
    );
}

#[test]
fn parse_list_reports_first_bad_token() {
    let e = parse_range_list("1,oops,3").unwrap_err();
    assert_eq!(e, BinsError::BadRangeNumber("oops".to_owned()));
    let e = parse_range_list("1,2-3-4").unwrap_err();
    assert_eq!(e, BinsError::BadRange);
    let e = parse_range_list("").unwrap_err();
    assert_eq!(e, BinsError::BadRangeNumber(String::new()));
    let e = parse_range_list("1,").unwrap_err();
    assert_eq!(e, BinsError::BadRangeNumber(String::new()));
}

#[test]
fn flatten_keeps_list_order_and_repeats() {
    let rs = vec![
        BidirectionalRange::new(3, 1),
        BidirectionalRange::new(1, 1),
        BidirectionalRange::new(1, 1),
    ];
    assert_eq!(flatten_range_list(&rs), vec![3, 2, 1, 1, 1]);
}
