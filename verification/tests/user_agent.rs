use ipregistry::is_bot;

#[test]
fn detects_bots() {
    for ua in [
        "Mozilla/5.0 (compatible; Googlebot/2.1; +http://www.google.com/bot.html)",
        "Mozilla/5.0 (compatible; Baiduspider/2.0)",
        "Mozilla/5.0 (compatible; Yahoo! Slurp)",
        "SomeBOT/1.0",
    ] {
        assert!(is_bot(ua), "{ua} should be detected as a bot");
    }
}

#[test]
fn does_not_flag_regular_browsers() {
    for ua in [
        "Mozilla/5.0 (Macintosh; Intel Mac OS X 10_15_7) AppleWebKit/537.36 \
         (KHTML, like Gecko) Chrome/120.0 Safari/537.36",
        "Mozilla/5.0 (iPhone; CPU iPhone OS 17_0 like Mac OS X) Version/17.0 Mobile Safari",
        "",
    ] {
        assert!(!is_bot(ua), "{ua} should not be detected as a bot");
    }
}

#[test]
fn bot_detection_is_ascii_case_insensitive_only() {
    assert!(is_bot("SPIDER"));
    assert!(is_bot("sLuRp"));
    assert!(is_bot("bot"));
    assert!(!is_bot("bo t"));
    assert!(!is_bot("b\u{f6}t"));
    assert!(!is_bot("spide"));
}
