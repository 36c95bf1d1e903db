use crossterm::attributes::Attribute;
use crossterm::attributes::Attributes;

fn collect(attrs: Attributes) -> Vec<Attribute> {
    let mut it = attrs;
    let mut out = Vec::new();
    while let Some(a) = it.next() {
        out.push(a);
    }
    out
}

#[test]
fn test_attributes() {
    let mut attributes: Attributes = Attribute::Bold.into();
    assert!(attributes.has(Attribute::Bold));
    attributes.set(Attribute::Italic);
    assert!(attributes.has(Attribute::Italic));
    attributes.unset(Attribute::Italic);
    assert!(!attributes.has(Attribute::Italic));
    attributes.toggle(Attribute::Bold);
    assert!(attributes.is_empty());
}

#[test]
fn iteration_follows_mutation() {
    let mut attrs = Attributes::from_slice(&[Attribute::Bold]);
    attrs.set(Attribute::Italic);
    assert_eq!(collect(attrs), vec![Attribute::Bold, Attribute::Italic]);
    attrs.unset(Attribute::Italic);
    assert_eq!(collect(attrs), vec![Attribute::Bold]);
    attrs.toggle(Attribute::Bold);
    assert!(attrs.is_empty());
}

#[test]
fn iteration_of_empty_set_ends_at_once() {
    let mut attrs = Attributes::default();
    assert_eq!(attrs.next(), None);
    assert_eq!(attrs.next(), None);
}

#[test]
fn iteration_is_exhausted_once_done() {
    let mut attrs: Attributes = Attribute::Dim.into();
    assert_eq!(attrs.next(), Some(Attribute::Dim));
    assert_eq!(attrs.next(), None);
    attrs.set(Attribute::CrossedOut);
    assert_eq!(attrs.next(), None);
}

#[test]
fn iteration_ascends_bit_positions() {
    let attrs = Attributes::from_slice(&[
        Attribute::CrossedOut,
        Attribute::Reset,
        Attribute::Underlined,
    ]);
    assert_eq!(
        collect(attrs),
        vec![Attribute::Reset, Attribute::Underlined, Attribute::CrossedOut]
    );
}

#[test]
fn equality_ignores_the_iteration_cursor() {
    let original = Attributes::from_slice(&[Attribute::Bold, Attribute::Italic]);
    let mut advanced = original;
    assert_eq!(advanced.next(), Some(Attribute::Bold));
    assert_eq!(original, advanced);
    advanced.unset(Attribute::Italic);
    assert_ne!(original, advanced);
}

#[test]
fn duplicates_collapse_on_conversion() {
    let with_duplicates =
        Attributes::from_slice(&[Attribute::Bold, Attribute::Italic, Attribute::Bold]);
    let deduplicated = Attributes::from_slice(&[Attribute::Bold, Attribute::Italic]);
    assert_eq!(with_duplicates, deduplicated);
}

#[test]
fn union_holds_members_of_either() {
    let x = Attributes::from_slice(&[Attribute::Bold, Attribute::Dim]);
    let y = Attributes::from_slice(&[Attribute::Dim, Attribute::Hidden]);
    let u = x.union(y);
    assert!(u.has(Attribute::Bold));
    assert!(u.has(Attribute::Dim));
    assert!(u.has(Attribute::Hidden));
    assert!(!u.has(Attribute::Reverse));
    assert_eq!(
        collect(u),
        vec![Attribute::Bold, Attribute::Dim, Attribute::Hidden]
    );
}

#[test]
fn intersection_holds_members_of_both() {
    let x = Attributes::from_slice(&[Attribute::Bold, Attribute::Dim]);
    let y = Attributes::from_slice(&[Attribute::Dim, Attribute::Hidden]);
    let i = x.intersection(y);
    assert!(!i.has(Attribute::Bold));
    assert!(i.has(Attribute::Dim));
    assert!(!i.has(Attribute::Hidden));
    assert_eq!(collect(i), vec![Attribute::Dim]);
}

#[test]
fn symmetric_difference_holds_members_of_exactly_one() {
    let x = Attributes::from_slice(&[Attribute::Bold, Attribute::Dim]);
    let y = Attributes::from_slice(&[Attribute::Dim, Attribute::Hidden]);
    let d = x.symmetric_difference(y);
    assert!(d.has(Attribute::Bold));
    assert!(!d.has(Attribute::Dim));
    assert!(d.has(Attribute::Hidden));
}

#[test]
fn extend_adds_and_never_removes() {
    let mut x = Attributes::from_slice(&[Attribute::Bold]);
    let y = Attributes::from_slice(&[Attribute::Italic, Attribute::Hidden]);
    x.extend(y);
    assert!(x.has(Attribute::Bold));
    assert!(x.has(Attribute::Italic));
    assert!(x.has(Attribute::Hidden));
    assert!(!x.has(Attribute::Reset));
}

#[test]
fn set_and_unset_are_idempotent() {
    let mut x = Attributes::default();
    x.set(Attribute::Reverse);
    x.set(Attribute::Reverse);
    assert_eq!(collect(x), vec![Attribute::Reverse]);
    x.unset(Attribute::Reverse);
    x.unset(Attribute::Reverse);
    assert!(x.is_empty());
}
