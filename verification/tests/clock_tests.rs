use street_sim::clock::{Clock, Duration, END_OF_DAY_TICKS, TICKS_PER_SECOND};

#[test]
fn zero_is_the_start() {
    assert_eq!(Clock::zero().ticks(), 0);
    assert_eq!(Clock::zero(), Clock::from_ticks(0));
    assert_eq!(Duration::zero().ticks(), 0);
}

#[test]
fn seconds_and_minutes_scale_to_ticks() {
    assert_eq!(TICKS_PER_SECOND, 10);
    assert_eq!(Clock::from_seconds(30).ticks(), 300);
    assert_eq!(Clock::from_minutes(2).ticks(), 1200);
    assert_eq!(Clock::from_seconds(u32::MAX).ticks(), 42_949_672_950);
    assert_eq!(Duration::from_seconds(60), Duration::from_minutes(1));
    assert_eq!(Duration::from_minutes(5).ticks(), 3000);
}

#[test]
fn end_of_day_is_the_last_tick() {
    assert_eq!(Clock::end_of_day().ticks(), END_OF_DAY_TICKS);
    assert_eq!(Clock::end_of_day().format(), "23:59:59.9");
}

#[test]
fn clocks_are_equal_iff_ticks_are() {
    assert_eq!(Clock::from_seconds(6), Clock::from_ticks(60));
    assert_ne!(Clock::from_ticks(60), Clock::from_ticks(61));
    assert!(Clock::from_ticks(60) < Clock::from_ticks(61));
}

#[test]
fn parse_reads_seconds() {
    assert_eq!(Clock::parse("30"), Some(Clock::from_ticks(300)));
    assert_eq!(Clock::parse("0"), Some(Clock::zero()));
    assert_eq!(Clock::parse("0.5"), Some(Clock::from_ticks(5)));
    assert_eq!(Clock::parse("90"), Some(Clock::from_ticks(900)));
    assert_eq!(Clock::parse("007"), Some(Clock::from_ticks(70)));
}

#[test]
fn parse_reads_minutes_and_hours() {
    assert_eq!(Clock::parse("1:30"), Some(Clock::from_ticks(900)));
    assert_eq!(Clock::parse("1:90"), Some(Clock::from_ticks(1500)));
    assert_eq!(Clock::parse("01:02:03.4"), Some(Clock::from_ticks(37_234)));
    assert_eq!(Clock::parse("23:59:59.9"), Some(Clock::end_of_day()));
    assert_eq!(Clock::parse("100:00:00"), Some(Clock::from_ticks(3_600_000)));
}

#[test]
fn parse_turns_down_malformed_text() {
    for text in [
        "", "abc", ":", ".", "1:", ":30", "1::2", "1:2:3:4", "1.", ".5", "1.23", "1.2.3",
        "12.5:00", "1:2.5:3", " 30", "30 ", "-30", "+30", "3o", "1:2:x", "１２",
    ] {
        assert_eq!(Clock::parse(text), None, "{:?}", text);
    }
}

#[test]
fn parse_turns_down_what_does_not_fit() {
    assert_eq!(Clock::parse("1844674407370955161.5"), Some(Clock::from_ticks(u64::MAX)));
    assert_eq!(Clock::parse("1844674407370955161.6"), None);
    assert_eq!(Clock::parse("1844674407370955162"), None);
    assert_eq!(Clock::parse("99999999999999999999999"), None);
    assert_eq!(Clock::parse("99999999999999999999:00:00"), None);
    assert_eq!(Clock::parse("512409557603044:00:00"), None);
    assert_eq!(
        Clock::parse("000000000000000000000000000001"),
        Some(Clock::from_ticks(10))
    );
}

#[test]
fn format_writes_padded_fields() {
    assert_eq!(Clock::zero().format(), "00:00:00.0");
    assert_eq!(Clock::from_ticks(37_234).format(), "01:02:03.4");
    assert_eq!(Clock::from_ticks(9).format(), "00:00:00.9");
    assert_eq!(Clock::from_ticks(3_600_000).format(), "100:00:00.0");
    assert_eq!(Clock::from_ticks(36_000 * 12 + 600 * 34 + 560 + 7).format(), "12:34:56.7");
}

#[test]
fn as_filename_has_no_colon() {
    assert_eq!(Clock::from_ticks(37_234).as_filename(), "01h02m03.4s");
    assert_eq!(Clock::zero().as_filename(), "00h00m00.0s");
}

#[test]
fn parse_inverts_format() {
    let mut ticks: u64 = 0;
    while ticks < 200_000 {
        let clock = Clock::from_ticks(ticks);
        assert_eq!(Clock::parse(&clock.format()), Some(clock));
        ticks += 37;
    }
    for ticks in [863_999, 864_000, 4_294_967_295, u64::MAX - 1, u64::MAX] {
        let clock = Clock::from_ticks(ticks);
        assert_eq!(Clock::parse(&clock.format()), Some(clock));
    }
}

#[test]
fn addition_never_wraps() {
    let late = Clock::from_ticks(u64::MAX - 5);
    assert_eq!(late.checked_add(Duration::from_ticks(5)), Some(Clock::from_ticks(u64::MAX)));
    assert_eq!(late.checked_add(Duration::from_ticks(6)), None);
    assert_eq!(
        Clock::from_seconds(1).checked_add(Duration::from_seconds(2)),
        Some(Clock::from_seconds(3))
    );
    assert_eq!(
        Duration::from_ticks(u64::MAX).checked_add(Duration::from_ticks(1)),
        None
    );
    assert_eq!(
        Duration::from_ticks(4).checked_add(Duration::from_ticks(1)),
        Some(Duration::from_ticks(5))
    );
}

#[test]
fn since_measures_forward_only() {
    let early = Clock::from_seconds(10);
    let late = Clock::from_seconds(25);
    assert_eq!(late.since(early), Some(Duration::from_seconds(15)));
    assert_eq!(early.since(early), Some(Duration::zero()));
    assert_eq!(early.since(late), None);
}

#[test]
fn multiples_of_a_span() {
    assert!(Clock::from_minutes(3).is_multiple_of(Duration::from_minutes(1)));
    assert!(!Clock::from_seconds(61).is_multiple_of(Duration::from_minutes(1)));
    assert!(Clock::zero().is_multiple_of(Duration::from_seconds(30)));
    assert!(!Clock::zero().is_multiple_of(Duration::zero()));
    assert!(!Clock::from_seconds(3).is_multiple_of(Duration::zero()));
}
