use protodoc::error::DocError;
use protodoc::names::FullyQualifiedTypeName;

#[test]
fn fully_qualified_type_name_processing() {
    let name = FullyQualifiedTypeName::parse(".foo.bar.Baz").unwrap();
    assert_eq!(name.package, "foo.bar");
    assert_eq!(name.name, "Baz");
}

#[test]
fn reference_keeps_original_text() {
    let name = FullyQualifiedTypeName::parse(".a.B").unwrap();
    assert_eq!(name.original, ".a.B");
    assert_eq!(name.package, "a");
    assert_eq!(name.name, "B");
}

#[test]
fn reference_without_dots_is_malformed() {
    match FullyQualifiedTypeName::parse("Baz") {
        Err(DocError::MalformedTypeReference(t)) => assert_eq!(t, "Baz"),
        _ => panic!("expected a malformed reference"),
    }
}

#[test]
fn reference_with_one_dot_is_malformed() {
    assert!(matches!(
        FullyQualifiedTypeName::parse(".Baz"),
        Err(DocError::MalformedTypeReference(_))
    ));
}

#[test]
fn nested_reference_splits_at_last_dot() {
    let name = FullyQualifiedTypeName::parse(".pkg.Outer.Inner").unwrap();
    assert_eq!(name.package, "pkg.Outer");
    assert_eq!(name.name, "Inner");
}
