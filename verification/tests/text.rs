use rocm_backend::text::{number_list_text, signed_text, unsigned_text};

#[test]
fn numbers_read_as_usual() {
    assert_eq!(unsigned_text(0), "0");
    assert_eq!(unsigned_text(9), "9");
    assert_eq!(unsigned_text(10), "10");
    assert_eq!(unsigned_text(u64::MAX), format!("{}", u64::MAX));
    assert_eq!(signed_text(0), "0");
    assert_eq!(signed_text(719), "719");
    assert_eq!(signed_text(-1), "-1");
    assert_eq!(signed_text(i32::MIN), format!("{}", i32::MIN));
}

#[test]
fn lists_read_as_debug_writes_them() {
    for list in [vec![], vec![7usize], vec![6, 3, 1], vec![usize::MAX, 0]] {
        assert_eq!(number_list_text(&list), format!("{:?}", list));
    }
}
