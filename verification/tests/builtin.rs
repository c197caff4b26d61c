use telebots::blocks::Block;
use telebots::builtin::{fmt_duration, is_addressed, is_help, is_stats, render_help, render_stats};
use telebots::metrics::Metrics;

#[test]
fn addressed_command_detection() {
    assert!(is_addressed("/stats", "/stats", "bot"));
    assert!(is_addressed("/stats", "/stats@bot", "bot"));
    assert!(is_addressed("/stats", "/stats extra args", "bot"));
    assert!(!is_addressed("/stats", "/stats@other", "bot"));
    assert!(!is_addressed("/stats", "/help", "bot"));
    assert!(!is_addressed("/stats", "stats", "bot"));
}

#[test]
fn help_command_detection() {
    assert!(is_help("/help", "bot"));
    assert!(is_help("/help@bot", "bot"));
    assert!(is_help("/help extra args", "bot"));
    assert!(!is_help("/help@other", "bot"));
    assert!(!is_help("/price", "bot"));
    assert!(!is_help("help", "bot"));
}

#[test]
fn stats_command_detection() {
    assert!(is_stats("/stats", "bot"));
    assert!(is_stats("/stats@bot", "bot"));
    assert!(is_stats("/stats extra args", "bot"));
    assert!(!is_stats("/stats@other", "bot"));
    assert!(!is_stats("/price", "bot"));
    assert!(!is_stats("stats", "bot"));
}

#[test]
fn stats_duration_formatting() {
    assert_eq!(fmt_duration(59), "0m");
    assert_eq!(fmt_duration(5 * 60), "5m");
    assert_eq!(fmt_duration(3 * 3_600 + 5 * 60), "3h 5m");
    assert_eq!(fmt_duration(2 * 86_400 + 3_600), "2d 1h");
}

#[test]
fn mention_is_case_insensitive_and_may_be_empty() {
    assert!(is_addressed("/stats", "/stats@BoT now", "bot"));
    assert!(is_addressed("/stats", "/stats@", "bot"));
    assert!(!is_addressed("/stats", "/STATS", "bot"));
    assert!(!is_addressed("/stats", "", "bot"));
}

#[test]
fn stats_block_lists_the_snapshot() {
    let mut m = Metrics::new("degen", "1.2.3");
    m.note_command_at(10);
    m.job_started();
    let h = m.health_at(10, 3_700);
    assert_eq!(
        render_stats(&h).build(),
        "📊 degen v1.2.3\nuptime: 1h 1m\ntelegram: ok\ncommands: 1\njobs: 1 active · 0 failed\npanics: 0"
    );
}

#[test]
fn help_block_appends_the_tail() {
    let mut tail = Block::new();
    tail.line("Models: a, b");
    assert_eq!(
        render_help("/price — Price", Some(&tail)).build(),
        "/price — Price\n\n/help — Show help\n/stats — Show bot stats\n\nModels: a, b"
    );
    assert_eq!(
        render_help("/price — Price", None).build(),
        "/price — Price\n\n/help — Show help\n/stats — Show bot stats"
    );
}
