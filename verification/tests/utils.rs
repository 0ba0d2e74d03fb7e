use composite_visitor::utils::iter::NoneIterator;
use composite_visitor::utils::text::same_text;

#[test]
fn none_iterator_is_always_at_its_end() {
    let mut it: NoneIterator<u32> = NoneIterator::new();
    assert_eq!(it.next(), None);
    assert_eq!(it.next(), None);
}

#[test]
fn same_text_compares_characters() {
    assert!(same_text("abc", "abc"));
    assert!(same_text("", ""));
    assert!(!same_text("abc", "abd"));
    assert!(!same_text("abc", "ab"));
    assert!(!same_text("", "a"));
}
