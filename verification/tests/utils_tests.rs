use zhipukit::ansi::strip_ansi;
use zhipukit::utils::{balance_base_url, build_url, format_remaining, format_status_bar};

#[test]
fn balance_url_for_mainland_endpoint() {
    assert_eq!(balance_base_url("https://open.bigmodel.cn"), "https://www.bigmodel.cn");
}

#[test]
fn balance_url_replaces_every_occurrence() {
    assert_eq!(
        balance_base_url("https://open.bigmodel.cn/open.bigmodel.cn"),
        "https://www.bigmodel.cn/www.bigmodel.cn"
    );
}

#[test]
fn balance_url_other_bigmodel_host_unchanged() {
    assert_eq!(balance_base_url("https://dev.bigmodel.cn"), "https://dev.bigmodel.cn");
}

#[test]
fn balance_url_international_endpoint_unchanged() {
    assert_eq!(balance_base_url("https://api.z.ai"), "https://api.z.ai");
}

#[test]
fn build_url_trims_trailing_slashes() {
    assert_eq!(build_url("https://a.example///", "/x/y"), "https://a.example/x/y");
    assert_eq!(build_url("https://a.example", "/x"), "https://a.example/x");
    assert_eq!(build_url("", "/x"), "/x");
}

#[test]
fn status_bar_empty_at_zero() {
    assert_eq!(
        format_status_bar(0, 3),
        "\x1b[32m○\x1b[0m○\x1b[0m○\x1b[0m"
    );
}

#[test]
fn status_bar_partial_circle() {
    // 12%: two full circles (5% each), the third half filled
    assert_eq!(
        format_status_bar(12, 4),
        "\x1b[32m●\x1b[32m●\x1b[32m◑\x1b[0m○\x1b[0m"
    );
    assert_eq!(format_status_bar(6, 2), "\x1b[32m●\x1b[32m◔\x1b[0m");
    assert_eq!(format_status_bar(9, 2), "\x1b[32m●\x1b[32m◕\x1b[0m");
    assert_eq!(format_status_bar(10, 3), "\x1b[32m●\x1b[32m●\x1b[32m○\x1b[0m");
}

#[test]
fn status_bar_full_from_half_with_colours() {
    assert_eq!(format_status_bar(50, 2), "\x1b[32m●\x1b[32m●\x1b[0m");
    assert_eq!(format_status_bar(75, 2), "\x1b[33m●\x1b[33m●\x1b[0m");
    assert_eq!(format_status_bar(90, 3), "\x1b[31m●\x1b[31m●\x1b[31m●\x1b[0m");
    assert_eq!(format_status_bar(250, 1), "\x1b[31m●\x1b[0m");
}

#[test]
fn status_bar_negative_is_empty_green() {
    assert_eq!(format_status_bar(-40, 1), "\x1b[32m○\x1b[0m");
    assert_eq!(format_status_bar(5, 0), "\x1b[0m");
}

#[test]
fn status_bar_shows_length_circles() {
    assert_eq!(strip_ansi(&format_status_bar(12, 4)), "●●◑○");
    assert_eq!(strip_ansi(&format_status_bar(99, 10)), "●●●●●●●●●●");
    assert_eq!(strip_ansi(&format_status_bar(43, 10)), "●●●●●●●●◕○");
}

#[test]
fn remaining_time_texts() {
    assert_eq!(format_remaining(0), "0m");
    assert_eq!(format_remaining(59_999), "0m");
    assert_eq!(format_remaining(60_000), "1m");
    assert_eq!(format_remaining(3_600_000), "1h 0m");
    assert_eq!(format_remaining(5_400_000), "1h 30m");
    assert_eq!(format_remaining(18_000_000), "5h 0m");
    assert_eq!(format_remaining(7_260_000), "2h 1m");
}

#[test]
fn remaining_time_rounds_toward_zero_for_negatives() {
    assert_eq!(format_remaining(-120_000), "-2m");
    assert_eq!(format_remaining(-3_700_000), "-1m");
    assert_eq!(format_remaining(i64::MIN), "-12m");
    assert_eq!(format_remaining(i64::MAX), "2562047788015h 12m");
}

#[test]
fn strip_ansi_removes_sequences() {
    assert_eq!(strip_ansi("\x1b[1mOpus 4\x1b[0m"), "Opus 4");
    assert_eq!(strip_ansi("plain"), "plain");
    assert_eq!(strip_ansi("a\x1bb"), "ab");
    assert_eq!(strip_ansi("x\x1b[12"), "x");
    assert_eq!(strip_ansi("x\x1b["), "x");
    assert_eq!(strip_ansi("\x1b[38;5;10mgreen\x1b[0m!"), "green!");
    assert_eq!(strip_ansi(""), "");
}

#[test]
fn strip_ansi_twice_is_once() {
    for s in ["\x1b[31mred\x1b", "a\x1b\x1b[0m\x1bb", "\x1b[\x1b[1mx", "●\x1b[33m◑"] {
        let once = strip_ansi(s);
        assert!(!once.contains('\x1b'));
        assert_eq!(strip_ansi(&once), once);
    }
    assert_eq!(strip_ansi("\x1b[\x1b[1mx"), "x");
}

#[test]
fn balance_url_twice_is_once() {
    for e in ["https://open.bigmodel.cn", "https://open.open.bigmodel.cn/x", "https://api.z.ai", "open.bigmodel.cnopen.bigmodel.cn"] {
        let once = balance_base_url(e);
        assert!(!once.contains("open.bigmodel.cn"));
        assert_eq!(once, e.replace("open.bigmodel.cn", "www.bigmodel.cn"));
        assert_eq!(balance_base_url(&once), once);
    }
}

#[test]
fn strip_ansi_keeps_plain_text() {
    for s in ["plain text", "●◑○ 40%", ""] {
        assert_eq!(strip_ansi(s), s);
    }
}
