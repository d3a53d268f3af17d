use workset::highlight::{fits_table, highlight, Segment};
use workset::watch::{is_relevant, Debounce};

#[test]
fn changes_inside_metadata_do_not_matter() {
    assert!(is_relevant("/ws/github.com/acme/widgets/src/main.rs"));
    assert!(is_relevant("relative/file"));
    assert!(is_relevant(""));
    assert!(is_relevant("/ws/a/.gitignore"));
    assert!(is_relevant("/ws/a/x.git/file"));
    assert!(!is_relevant("/ws/github.com/acme/widgets/.git/index"));
    assert!(!is_relevant("/ws/a/.git"));
    assert!(!is_relevant(".git/HEAD"));
    assert!(!is_relevant("/ws/.workset/github.com/acme/widgets/HEAD"));
    assert!(!is_relevant("/ws/.workset"));
}

#[test]
fn burst_of_changes_raises_one_signal() {
    let mut debounce = Debounce::new(500);
    assert!(!debounce.poll(0));
    debounce.notice(1000);
    assert!(!debounce.poll(1200));
    debounce.notice(1300);
    debounce.notice(1400);
    assert!(!debounce.poll(1500));
    assert!(!debounce.poll(1899));
    assert!(debounce.poll(1900));
    assert!(!debounce.poll(1900));
    assert!(!debounce.poll(5000));
    debounce.notice(6000);
    assert!(debounce.poll(9000));
}

#[test]
fn earlier_change_does_not_shorten_the_wait() {
    let mut debounce = Debounce::new(100);
    debounce.notice(1000);
    debounce.notice(900);
    assert_eq!(debounce.last_change, Some(1000));
    assert!(!debounce.poll(1050));
    assert!(!debounce.poll(10));
    assert!(debounce.poll(1100));
    let mut immediate = Debounce::new(0);
    immediate.notice(5);
    assert!(immediate.poll(5));
}

#[test]
fn highlight_of_a_long_path_asks_the_matcher() {
    let long = format!("{}/abc", "x".repeat(5000));
    let lit = |text: &str| Segment { text: text.to_string(), highlighted: true };
    assert_eq!(highlight("abc", &long, "abc", false), vec![lit("a"), lit("b"), lit("c")]);
    assert!(fits_table(5000, 3));
    assert!(fits_table(67108864, 67108864) == (usize::BITS >= 64));
    assert!(!fits_table(67108865, 1));
    assert!(!fits_table(1, 67108865));
}
