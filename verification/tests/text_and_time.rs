use sysmon::clock::{format_hms, format_time};
use sysmon::text::{contains, i32_text, is_whitespace, pad_right, parse_i32, split_whitespace, trim, u64_text};

#[test]
fn format_time_minutes_and_seconds() {
    assert_eq!(format_time(0), "00:00");
    assert_eq!(format_time(59), "00:59");
    assert_eq!(format_time(3725), "02:05");
    assert_eq!(format_time(3600 * 5 + 60 * 59 + 7), "59:07");
    assert_eq!(format_time(u64::MAX), format!("{:02}:{:02}", (u64::MAX / 60) % 60, u64::MAX % 60));
}

#[test]
fn format_hms_keeps_all_hours() {
    assert_eq!(format_hms(0), "00:00:00");
    assert_eq!(format_hms(3725), "01:02:05");
    assert_eq!(format_hms(100 * 3600 + 1), "100:00:01");
    let s = 1_700_000_000u64;
    assert_eq!(format_hms(s), format!("{:02}:{:02}:{:02}", s / 3600, (s / 60) % 60, s % 60));
}

#[test]
fn format_time_reads_back() {
    for s in [0u64, 1, 61, 3599, 3600, 86399, 123456789] {
        let t = format_time(s);
        assert_eq!(t.len(), 5);
        assert_eq!(&t[2..3], ":");
        assert_eq!(t[0..2].parse::<u64>().unwrap(), (s / 60) % 60);
        assert_eq!(t[3..5].parse::<u64>().unwrap(), s % 60);
    }
}

#[test]
fn integers_in_decimal() {
    assert_eq!(u64_text(0), "0");
    assert_eq!(u64_text(1234567890), "1234567890");
    assert_eq!(u64_text(u64::MAX), u64::MAX.to_string());
    assert_eq!(i32_text(-42), "-42");
    assert_eq!(i32_text(i32::MIN), "-2147483648");
    assert_eq!(i32_text(i32::MAX), "2147483647");
}

#[test]
fn parse_matches_std() {
    for s in ["0", "42", "+42", "-42", "", "+", "-", "2147483647", "2147483648", "-2147483648",
              "-2147483649", "12a", " 1", "00017", "-0", "99999999999999999999", "٣"] {
        assert_eq!(parse_i32(s), s.parse::<i32>().ok(), "input {:?}", s);
    }
}

#[test]
fn parse_reads_back_text() {
    for x in [0, 1, -1, 7, -300, 65535, i32::MAX, i32::MIN] {
        assert_eq!(parse_i32(&i32_text(x)), Some(x));
    }
}

#[test]
fn whitespace_matches_std() {
    for c in [' ', '\t', '\n', '\u{0B}', '\u{0C}', '\r', '\u{85}', '\u{A0}', '\u{1680}', '\u{2000}', '\u{200A}',
              '\u{2028}', '\u{2029}', '\u{202F}', '\u{205F}', '\u{3000}', 'a', '0', '\u{200B}', '\u{FEFF}', '\u{180E}'] {
        assert_eq!(is_whitespace(c), c.is_whitespace(), "char {:?}", c);
    }
}

#[test]
fn split_and_trim_match_std() {
    for s in ["", "   ", "a", "  ls  -l \t x\n", "kill\u{3000}12", "one two  three", "\u{A0}x\u{A0}"] {
        let ours = split_whitespace(s);
        let std: Vec<String> = s.split_whitespace().map(|w| w.to_string()).collect();
        assert_eq!(ours, std, "input {:?}", s);
        assert_eq!(trim(s), s.trim(), "input {:?}", s);
    }
}

#[test]
fn infix_search() {
    assert!(contains("Samsung SSD 970", "SSD"));
    assert!(contains("HDD", "HDD"));
    assert!(!contains("HD", "HDD"));
    assert!(contains("anything", ""));
    assert!(!contains("amdgpu", "GPU"));
    assert!(contains("amdgpu edge", "gpu"));
}

#[test]
fn padding_matches_format() {
    assert_eq!(pad_right("PID", 8), format!("{:<8}", "PID"));
    assert_eq!(pad_right("a very long name", 4), "a very long name");
    assert_eq!(pad_right("日本", 5), format!("{:<5}", "日本"));
}
