use butterware::side::{destinations, route, Destination, Half, Side};

#[test]
fn this_side_runs_locally_only() {
    assert!(Side::This.includes_this(Half::Left));
    assert!(!Side::This.includes_other(Half::Left));
    assert!(Side::This.includes_this(Half::Right));
    assert!(!Side::This.includes_other(Half::Right));
}

#[test]
fn other_side_is_forwarded_only() {
    assert!(!Side::Other.includes_this(Half::Left));
    assert!(Side::Other.includes_other(Half::Left));
}

#[test]
fn named_halves_depend_on_build() {
    assert!(Side::Left.includes_this(Half::Left));
    assert!(!Side::Left.includes_other(Half::Left));
    assert!(!Side::Left.includes_this(Half::Right));
    assert!(Side::Left.includes_other(Half::Right));
    assert!(Side::Right.includes_this(Half::Right));
    assert!(Side::Right.includes_other(Half::Left));
}

#[test]
fn both_reaches_both_halves() {
    assert_eq!(destinations(Side::Both, Half::Left), vec![Destination::ThisHalf, Destination::OtherHalf]);
    assert_eq!(destinations(Side::Right, Half::Left), vec![Destination::OtherHalf]);
    assert_eq!(route(Side::This, Half::Right, 7u8), vec![(Destination::ThisHalf, 7u8)]);
}

#[test]
fn opposite_half() {
    assert_eq!(Half::Left.opposite(), Half::Right);
    assert_eq!(Half::Right.opposite(), Half::Left);
}
