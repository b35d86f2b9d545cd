use cvar::ComparePath;

#[test]
fn test_compare_id() {
    assert_eq!(ComparePath::cmp("foo", "foo"), ComparePath::True);
    assert_eq!(ComparePath::cmp("foo.bar", "foo"), ComparePath::Part("bar"));
    assert_eq!(ComparePath::cmp("foo.bar", "foo.bar"), ComparePath::True);
    assert_eq!(ComparePath::cmp("foo.bar.baz", "foo.bar"), ComparePath::Part("baz"));
    assert_eq!(ComparePath::cmp("fooz", "foo"), ComparePath::False);
    assert_eq!(ComparePath::cmp("foo.bar.baz", "bar.baz"), ComparePath::False);
    assert_eq!(ComparePath::cmp("foo", "foo.bar"), ComparePath::False);
    // Degenerate cases: empty string node names
    assert_eq!(ComparePath::cmp("foo.", "foo"), ComparePath::Part(""));
    assert_eq!(ComparePath::cmp("foo.", "foo."), ComparePath::True);
    assert_eq!(ComparePath::cmp("foo", "foo."), ComparePath::False);
    assert_eq!(ComparePath::cmp("", ""), ComparePath::True);
    assert_eq!(ComparePath::cmp(".", ""), ComparePath::Part(""));
    assert_eq!(ComparePath::cmp(".", "."), ComparePath::True);
    assert_eq!(ComparePath::cmp("", "."), ComparePath::False);
    assert_eq!(ComparePath::cmp(".foo", "foo"), ComparePath::False);
    assert_eq!(ComparePath::cmp(".foo", ".foo"), ComparePath::True);
    assert_eq!(ComparePath::cmp("foo", ".foo"), ComparePath::False);
}

#[test]
fn compare_names_with_separator() {
    // A name containing the separator matches positionally, not as nesting.
    assert_eq!(ComparePath::cmp("foo.bar", "foo.b"), ComparePath::False);
    assert_eq!(ComparePath::cmp("a.b.c", "a.b"), ComparePath::Part("c"));
    assert_eq!(ComparePath::cmp("a.b.c", "a"), ComparePath::Part("b.c"));
}
