use insta_kill::loading::LoadingTicker;

#[test]
fn the_spinner_turns_through_its_marks() {
    let mut t = LoadingTicker::default();
    assert!(!t.animate_loading_texts(149_999));
    assert_eq!(t.mark, ' ');
    assert!(t.animate_loading_texts(1));
    assert_eq!(t.mark, '/');
    assert_eq!(t.ticks, 0);
    assert!(t.animate_loading_texts(150_000));
    assert_eq!(t.mark, '-');
    assert!(t.animate_loading_texts(u64::MAX));
    assert_eq!(t.mark, '\\');
    assert!(t.animate_loading_texts(150_000));
    assert_eq!(t.mark, '|');
    assert!(t.animate_loading_texts(150_000));
    assert_eq!(t.mark, '/');
}
