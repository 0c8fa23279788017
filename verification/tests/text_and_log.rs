use dsh_studio::log::{append_line, log_tail, LOG_CAP_BYTES, LOG_KEEP_BYTES, TAIL_CHARS};
use dsh_studio::text::{push_decimal, same_text, sort_profiles, starts_with_text, text_le_exec};

#[test]
fn decimal_rendering() {
    for n in [0u16, 7, 10, 99, 100, 8080, 65535] {
        let mut s = String::from("p=");
        push_decimal(&mut s, n);
        assert_eq!(s, format!("p={n}"));
    }
}

#[test]
fn text_comparisons() {
    assert!(same_text("héllo", "héllo"));
    assert!(!same_text("héllo", "hello"));
    assert!(!same_text("abc", "ab"));
    assert!(starts_with_text("profile:work", "profile:"));
    assert!(!starts_with_text("prof", "profile:"));
    assert!(starts_with_text("x", ""));
}

#[test]
fn byte_order_matches_std() {
    let pairs = [("a", "b"), ("b", "a"), ("", "a"), ("a", ""), ("ab", "a"), ("Z", "a"), ("é", "z"), ("same", "same")];
    for (a, b) in pairs {
        assert_eq!(text_le_exec(a, b), a <= b, "{a} {b}");
    }
}

#[test]
fn profiles_are_sorted_like_std() {
    let names: Vec<String> = ["work", "Zeta", "alpha", "émile", "beta", "alpha2", "b"].iter().map(|s| s.to_string()).collect();
    let mut expected = names.clone();
    expected.sort();
    assert_eq!(sort_profiles(names), expected);
    assert_eq!(sort_profiles(vec![]), Vec::<String>::new());
}

#[test]
fn log_is_kept_whole_up_to_the_cap() {
    let mut log = String::new();
    let line = "x".repeat(99) + "\n";
    for _ in 0..30 {
        append_line(&mut log, &line);
    }
    assert_eq!(log.len(), 3000);
    assert_eq!(LOG_CAP_BYTES, 3000);
}

#[test]
fn log_past_the_cap_keeps_its_last_2000_bytes() {
    let mut log = String::new();
    for i in 0..31 {
        let line = format!("{:099}\n", i);
        append_line(&mut log, &line);
    }
    assert_eq!(log.len(), LOG_KEEP_BYTES);
    assert!(log.ends_with(&format!("{:099}\n", 30)));
    assert!(log.starts_with(&format!("{:099}\n", 11)));
}

#[test]
fn cut_inside_a_character_moves_to_the_next_character() {
    // 3003 bytes; the last 2000 begin inside an "é", so the cut moves one byte on.
    let mut log = String::new();
    let line = "é".repeat(1501) + "\n";
    append_line(&mut log, &line);
    assert_eq!(log, "é".repeat(999) + "\n");
    assert_eq!(log.len(), 1999);
    assert!(line.ends_with(&log));

    // When the cut falls on a character, exactly the last 2000 bytes stay.
    let mut log = "a".repeat(2999);
    let ok_line = "b".repeat(2001);
    append_line(&mut log, &ok_line);
    assert_eq!(log, "b".repeat(2000));
}

#[test]
fn tail_of_the_log() {
    assert_eq!(log_tail(""), None);
    assert_eq!(log_tail("short"), Some("short".to_string()));
    let long = "0123456789".repeat(100);
    let t = log_tail(&long).unwrap();
    assert_eq!(t.chars().count(), TAIL_CHARS);
    assert_eq!(t, long[100..].to_string());
}

#[test]
fn past_the_cap_the_log_keeps_nearly_2000_bytes() {
    let mut log = String::new();
    let mut all = String::new();
    for i in 0..200 {
        let line = format!("{}€{}\n", "é".repeat(i % 7), i);
        all.push_str(&line);
        append_line(&mut log, &line);
        assert!(all.ends_with(&log));
        assert!(log.len() <= 3000);
        if all.len() > 3000 {
            assert!(log.len() + 3 >= 2000);
        } else {
            assert_eq!(log, all);
        }
    }
}

#[test]
fn distinct_profiles_come_out_strictly_ordered() {
    let names: Vec<String> = ["b", "a", "c", "ab"].iter().map(|s| s.to_string()).collect();
    let sorted = sort_profiles(names);
    for w in sorted.windows(2) {
        assert!(w[0] < w[1]);
    }
}
