use yt_grab::registry::{cancel, ActiveDownloads, CancelledIds};

#[test]
fn table_gives_back_what_was_recorded() {
    let mut t: ActiveDownloads<u32> = ActiveDownloads::new();
    assert_eq!(t.insert("a".to_string(), 1), None);
    assert_eq!(t.insert("b".to_string(), 2), None);
    assert_eq!(t.insert("a".to_string(), 3), Some(1));
    assert_eq!(t.remove("a"), Some(3));
    assert_eq!(t.remove("a"), None);
    assert_eq!(t.remove("b"), Some(2));
    assert_eq!(t.remove("c"), None);
}

#[test]
fn cancelled_ids_are_remembered() {
    let mut c = CancelledIds::new();
    assert!(!c.contains("x"));
    c.insert("x".to_string());
    c.insert("x".to_string());
    assert!(c.contains("x"));
    assert!(!c.contains("y"));
    c.remove("x");
    assert!(!c.contains("x"));
    c.remove("x");
    assert!(!c.contains("x"));
}

#[test]
fn cancel_marks_and_takes_out_the_process() {
    let mut c = CancelledIds::new();
    let mut t: ActiveDownloads<&str> = ActiveDownloads::new();
    t.insert("d1".to_string(), "child1");
    assert_eq!(cancel(&mut c, &mut t, "d1"), Some("child1"));
    assert!(c.contains("d1"));
    assert_eq!(t.remove("d1"), None);
    assert_eq!(cancel(&mut c, &mut t, "d2"), None);
    assert!(c.contains("d2"));
}
