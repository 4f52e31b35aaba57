use pmc::logs::{initial_lines, split_raw_lines, tail_lines, MAX_INITIAL_LINES, MAX_LOG_LINES};
use std::io::BufRead;

fn numbered(n: usize) -> Vec<u8> {
    let mut bytes = Vec::new();
    for i in 0..n {
        bytes.extend_from_slice(format!("line {i}\n").as_bytes());
    }
    bytes
}

#[test]
fn missing_file_gives_an_empty_view() {
    assert!(tail_lines(None).is_empty());
    assert!(initial_lines(None).is_empty());
}

#[test]
fn empty_file_has_no_lines() {
    assert!(tail_lines(Some(b"")).is_empty());
    assert!(initial_lines(Some(b"")).is_empty());
    assert!(split_raw_lines(b"").is_empty());
}

#[test]
fn short_file_is_kept_whole() {
    assert_eq!(tail_lines(Some(b"one\ntwo\nthree\n")), vec!["one", "two", "three"]);
    assert_eq!(tail_lines(Some(b"one\ntwo\nthree")), vec!["one", "two", "three"]);
    assert_eq!(initial_lines(Some(b"one\ntwo\nthree")), vec!["one", "two", "three"]);
}

#[test]
fn tail_keeps_the_last_five_hundred_lines() {
    assert_eq!(MAX_LOG_LINES, 500);
    for n in [0usize, 1, 499, 500, 501, 620, 1500] {
        let lines = tail_lines(Some(&numbered(n)));
        let kept = n.min(500);
        assert_eq!(lines.len(), kept);
        for (k, line) in lines.iter().enumerate() {
            assert_eq!(line, &format!("line {}", n - kept + k));
        }
    }
}

#[test]
fn initial_view_keeps_the_first_hundred_lines() {
    assert_eq!(MAX_INITIAL_LINES, 100);
    for n in [0usize, 1, 99, 100, 101, 750] {
        let lines = initial_lines(Some(&numbered(n)));
        let kept = n.min(100);
        assert_eq!(lines.len(), kept);
        for (k, line) in lines.iter().enumerate() {
            assert_eq!(line, &format!("line {k}"));
        }
    }
}

#[test]
fn line_endings_are_taken_off() {
    assert_eq!(
        split_raw_lines(b"a\r\nb\n\nc\r\r\n\r\nd\r"),
        vec![b"a".to_vec(), b"b".to_vec(), b"".to_vec(), b"c\r".to_vec(), b"".to_vec(), b"d\r".to_vec()]
    );
    assert_eq!(split_raw_lines(b"\n"), vec![b"".to_vec()]);
    assert_eq!(split_raw_lines(b"\r\n"), vec![b"".to_vec()]);
    assert_eq!(split_raw_lines(b"\r"), vec![b"\r".to_vec()]);
    assert_eq!(split_raw_lines(b"x"), vec![b"x".to_vec()]);
    assert_eq!(tail_lines(Some(b"a\r\nb\n\nc")), vec!["a", "b", "", "c"]);
}

#[test]
fn lines_agree_with_the_standard_reader() {
    let samples: [&[u8]; 8] = [
        b"",
        b"\n\n",
        b"a\nb",
        b"a\r\nb\r\n",
        b"a\rb\n\r",
        b"caf\xc3\xa9\n\xff\xfe\nok\n",
        b"\xe2\x82\nhalf\n\xe2\x82\xac\n",
        b"tab\there \n",
    ];
    for bytes in samples {
        let expected: Vec<String> = bytes.lines().filter_map(|l| l.ok()).collect();
        assert_eq!(tail_lines(Some(bytes)), expected);
        let first: Vec<String> = bytes.lines().take(100).filter_map(|l| l.ok()).collect();
        assert_eq!(initial_lines(Some(bytes)), first);
    }
}

#[test]
fn lines_that_are_not_text_are_dropped() {
    assert_eq!(tail_lines(Some(b"good\n\xff\xfe bad\nalso good\n")), vec!["good", "also good"]);
    assert_eq!(tail_lines(Some(b"\xc3\x28\n")), Vec::<String>::new());
    assert_eq!(tail_lines(Some("zwölf\n日本語\n".as_bytes())), vec!["zwölf", "日本語"]);
}

#[test]
fn initial_view_reads_a_hundred_lines_before_it_drops_any() {
    let mut bytes = Vec::new();
    for i in 0..150 {
        if i % 2 == 0 {
            bytes.extend_from_slice(b"\xff\n");
        } else {
            bytes.extend_from_slice(format!("text {i}\n").as_bytes());
        }
    }
    let lines = initial_lines(Some(&bytes));
    assert_eq!(lines.len(), 50);
    assert_eq!(lines[0], "text 1");
    assert_eq!(lines[49], "text 99");
    let tail = tail_lines(Some(&bytes));
    assert_eq!(tail.len(), 75);
    assert_eq!(tail[74], "text 149");
}
