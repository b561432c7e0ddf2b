use method_rs::pool_size::{parse_positive, worker_count};
use method_rs::thread_pool::ThreadPool;

#[test]
fn parse_positive_reads_counts() {
    assert_eq!(parse_positive("1"), Some(1));
    assert_eq!(parse_positive("8"), Some(8));
    assert_eq!(parse_positive("16"), Some(16));
    assert_eq!(parse_positive("+12"), Some(12));
    assert_eq!(parse_positive("007"), Some(7));
    assert_eq!(parse_positive("1234567"), Some(1234567));
    assert_eq!(parse_positive(&usize::MAX.to_string()), Some(usize::MAX));
}

#[test]
fn parse_positive_refuses_what_is_no_count() {
    assert_eq!(parse_positive(""), None);
    assert_eq!(parse_positive("+"), None);
    assert_eq!(parse_positive("0"), None);
    assert_eq!(parse_positive("000"), None);
    assert_eq!(parse_positive("+0"), None);
    assert_eq!(parse_positive("-3"), None);
    assert_eq!(parse_positive("4 "), None);
    assert_eq!(parse_positive(" 4"), None);
    assert_eq!(parse_positive("4.0"), None);
    assert_eq!(parse_positive("four"), None);
    assert_eq!(parse_positive("++4"), None);
    assert_eq!(parse_positive("4+"), None);
    assert_eq!(parse_positive("٤"), None);
    assert_eq!(parse_positive("18446744073709551616"), None);
    assert_eq!(parse_positive("99999999999999999999999999"), None);
}

#[test]
fn parse_positive_agrees_with_std_on_positive_numbers() {
    for text in ["3", "+3", "03", "0", "", "x", "3x", "-1", "4294967296", "18446744073709551615"] {
        let expected = text.parse::<usize>().ok().filter(|n| *n > 0);
        assert_eq!(parse_positive(text), expected, "for {:?}", text);
    }
}

#[test]
fn worker_count_takes_the_setting_or_the_processors() {
    assert_eq!(worker_count(Some("6"), 4), 6);
    assert_eq!(worker_count(None, 4), 4);
    assert_eq!(worker_count(Some("0"), 4), 4);
    assert_eq!(worker_count(Some("many"), 4), 4);
    assert_eq!(worker_count(Some(""), 12), 12);
    assert_eq!(worker_count(Some("-2"), 1), 1);
}

#[test]
fn a_pool_without_a_setting_has_a_worker() {
    assert!(ThreadPool::new(None).num_workers() >= 1);
    assert!(ThreadPool::new(Some("0")).num_workers() >= 1);
    assert!(ThreadPool::new(Some("junk")).num_workers() >= 1);
    assert_eq!(ThreadPool::new(Some("0")).num_workers(), ThreadPool::new(None).num_workers());
    assert_eq!(ThreadPool::new(Some("5")).num_workers(), 5);
}
