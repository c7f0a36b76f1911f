use nds_core::trace::index_matches;
use nds_core::CartLoadError;

#[test]
fn range_admits_its_indices_only() {
    assert!(!index_matches(b"10..20", 9));
    assert!(index_matches(b"10..20", 10));
    assert!(index_matches(b"10..20", 19));
    assert!(!index_matches(b"10..20", 20));
    assert!(!index_matches(b"5..5", 5));
    assert!(index_matches(b"+3..+4", 3));
    assert!(!index_matches(b"007..8", 6));
}

#[test]
fn unreadable_range_admits_all() {
    for text in ["", "7", "..", "1..", "..2", "a..b", "1.2", "1...2", "+..1", "-1..2", " 1..2", "1..2 "] {
        assert!(index_matches(text.as_bytes(), 1000), "{text:?}");
    }
    let largest = usize::MAX.to_string();
    assert!(!index_matches(format!("{largest}..0").as_bytes(), 5));
    assert!(index_matches(format!("{largest}0..0").as_bytes(), 5));
    assert!(!index_matches(format!("1..{largest}").as_bytes(), 0));
}

#[test]
fn load_errors_read_as_text() {
    let header: CartLoadError<u8, u8> = CartLoadError::Header(1);
    assert_eq!(header.message("rom too small"), "header parse failed: rom too small");
    let boot: CartLoadError<u8, u8> = CartLoadError::DirectBoot(2);
    assert_eq!(boot.message("bad entry"), "direct boot failed: bad entry");
}
