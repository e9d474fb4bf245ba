use rust_dll::timestamp::{MAX_YEAR, MIN_YEAR};
use rust_dll::{current_timestamp, format_timestamp, release, Timestamp};

fn at(year: i32, month: u32, day: u32, hour: u32, minute: u32, second: u32) -> Timestamp {
    Timestamp { year, month, day, hour, minute, second }
}

fn has_layout(s: &[u8]) -> bool {
    s.len() == 19
        && s.iter().enumerate().all(|(i, b)| match i {
            2 | 5 => *b == b'-',
            10 => *b == b' ',
            13 | 16 => *b == b':',
            _ => b.is_ascii_digit(),
        })
}

#[test]
fn formats_end_of_year() {
    let h = format_timestamp(&at(2025, 12, 31, 23, 59, 59));
    assert_eq!(h.as_bytes(), b"31-12-2025 23:59:59");
    assert_eq!(h.as_bytes_with_nul(), b"31-12-2025 23:59:59\0");
}

#[test]
fn pads_small_fields_with_zeros() {
    let h = format_timestamp(&at(2024, 2, 29, 0, 5, 7));
    assert_eq!(h.as_bytes(), b"29-02-2024 00:05:07");
}

#[test]
fn pads_small_years_to_four_digits() {
    assert_eq!(format_timestamp(&at(5, 1, 1, 0, 0, 0)).as_bytes(), b"01-01-0005 00:00:00");
    assert_eq!(format_timestamp(&at(0, 3, 1, 12, 0, 0)).as_bytes(), b"01-03-0000 12:00:00");
    assert_eq!(format_timestamp(&at(9999, 12, 31, 23, 59, 59)).as_bytes(), b"31-12-9999 23:59:59");
}

#[test]
fn signs_years_beyond_four_digits() {
    assert_eq!(format_timestamp(&at(10000, 1, 1, 0, 0, 0)).as_bytes(), b"01-01-+10000 00:00:00");
    assert_eq!(format_timestamp(&at(-5, 6, 15, 8, 30, 0)).as_bytes(), b"15-06--0005 08:30:00");
    assert_eq!(format_timestamp(&at(MAX_YEAR, 12, 31, 1, 2, 3)).as_bytes(), b"31-12-+262142 01:02:03");
    assert_eq!(format_timestamp(&at(MIN_YEAR, 1, 1, 0, 0, 0)).as_bytes(), b"01-01--262143 00:00:00");
}

#[test]
fn current_timestamp_has_layout() {
    let h = current_timestamp();
    assert!(has_layout(h.as_bytes()));
    let s = std::str::from_utf8(h.as_bytes()).unwrap();
    let day: u32 = s[0..2].parse().unwrap();
    let month: u32 = s[3..5].parse().unwrap();
    let year: i32 = s[6..10].parse().unwrap();
    assert!((1..=31).contains(&day));
    assert!((1..=12).contains(&month));
    assert!(year >= 2024);
    release(Some(h));
}

#[test]
fn current_timestamps_do_not_go_back() {
    let key = |s: &[u8]| -> Vec<u8> {
        let mut k = Vec::new();
        k.extend_from_slice(&s[6..10]);
        k.extend_from_slice(&s[3..5]);
        k.extend_from_slice(&s[0..2]);
        k.extend_from_slice(&s[11..19]);
        k
    };
    let first = current_timestamp();
    let second = current_timestamp();
    assert!(key(first.as_bytes()) <= key(second.as_bytes()));
}
