use maki_ui::status_bar::{
    RetryInfo, SpanStyle, Status, StatusBar, StatusBarContext, UsageStats, SPINNER_VERBS,
    SPINNER_VERB_COUNT,
};

use std::time::Instant;

const SECOND: u128 = 1_000_000_000;

#[test]
fn clear_expired_hint_removes_stale_flash() {
    let mut bar = StatusBar::new(0, Instant::now(), String::new(), None);
    bar.flash("Copied".into());
    bar.clear_expired_hint();
    assert!(bar.flash_text().is_none());
}

#[test]
fn clear_flash_removes_flash() {
    let mut bar = StatusBar::new(999 * SECOND, Instant::now(), String::new(), None);
    bar.flash("Copied".into());
    bar.clear_flash();
    assert!(bar.flash_text().is_none());
}

#[test]
fn flash_text_returns_the_message() {
    let mut bar = StatusBar::new(999 * SECOND, Instant::now(), String::new(), None);
    assert_eq!(bar.flash_text(), None);
    bar.flash("Copied".into());
    assert_eq!(bar.flash_text(), Some("Copied"));
    bar.flash("Saved".into());
    assert_eq!(bar.flash_text(), Some("Saved"));
}

#[test]
fn clear_expired_hint_keeps_fresh_flash() {
    let mut bar = StatusBar::new(999 * SECOND, Instant::now(), String::new(), None);
    bar.flash("Copied".into());
    bar.clear_expired_hint();
    assert_eq!(bar.flash_text(), Some("Copied"));
}

#[test]
fn flash_expired_compares_with_duration() {
    let mut bar = StatusBar::new(2 * SECOND, Instant::now(), String::new(), None);
    assert!(!bar.flash_expired(100 * SECOND));
    bar.flash("Copied".into());
    let shown = bar.millis_since_start() as u128 * 1_000_000;
    // Shown no later than now; well before two seconds have passed.
    assert!(!bar.flash_expired(shown));
    assert!(bar.flash_expired(shown + 3 * SECOND));
}

#[test]
fn spinner_due_after_interval() {
    let bar = StatusBar::new(SECOND, Instant::now(), String::new(), None);
    assert!(!bar.spinner_due(0));
    assert!(!bar.spinner_due(2_999_999_999));
    assert!(bar.spinner_due(3 * SECOND));
}

#[test]
fn advance_spinner_verb_cycles() {
    let mut bar = StatusBar::new(SECOND, Instant::now(), String::new(), None);
    let first = bar.spinner_verb();
    let mut seen = std::collections::HashSet::new();
    seen.insert(first);
    for _ in 1..SPINNER_VERB_COUNT {
        bar.advance_spinner_verb();
        assert!(seen.insert(bar.spinner_verb()));
    }
    bar.advance_spinner_verb();
    assert_eq!(bar.spinner_verb(), first);
    assert_eq!(SPINNER_VERBS.len(), SPINNER_VERB_COUNT);
}

#[test]
fn tick_spinner_keeps_verb_within_interval() {
    let mut bar = StatusBar::new(SECOND, Instant::now(), String::new(), None);
    let verb = bar.spinner_verb();
    bar.tick_spinner();
    assert_eq!(bar.spinner_verb(), verb);
}

#[test]
fn poll_branch_update_reports_signal() {
    let (tx, rx) = flume::bounded(1);
    let mut bar = StatusBar::new(SECOND, Instant::now(), "~/app".to_string(), Some(rx));
    assert!(!bar.poll_branch_update());
    tx.try_send(()).unwrap();
    assert!(bar.poll_branch_update());
    assert!(!bar.poll_branch_update());
    let mut plain = StatusBar::new(SECOND, Instant::now(), String::new(), None);
    assert!(!plain.poll_branch_update());
}

fn context(status: Status) -> StatusBarContext {
    StatusBarContext {
        status,
        mode_label: "build".to_string(),
        model_id: "model-x".to_string(),
        stats: UsageStats {
            context_size: 12_345,
            context_window: 100_000,
            cost: "0.125".to_string(),
            global_cost: "1.500".to_string(),
            show_global: true,
        },
        auto_scroll: false,
        chat_name: Some("notes".to_string()),
        retry_info: Some(RetryInfo { message: "overloaded".to_string(), attempt: 2, secs_left: 5 }),
        thinking_label: Some("high".to_string()),
    }
}

fn texts(spans: &[maki_ui::status_bar::StyledText]) -> Vec<(String, SpanStyle)> {
    spans.iter().map(|s| (s.text.clone(), s.style)).collect()
}

#[test]
fn view_while_streaming() {
    let mut bar = StatusBar::new(SECOND, Instant::now(), "~/app:main".to_string(), None);
    bar.flash("Copied".into());
    let verb = bar.spinner_verb().to_string();
    let line = bar.view(&context(Status::Streaming), "|");
    assert_eq!(
        texts(&line.left),
        vec![
            (" |".to_string(), SpanStyle::Spinner),
            (format!(" {verb}"), SpanStyle::Spinner),
            (" build".to_string(), SpanStyle::Mode),
            (" [notes]".to_string(), SpanStyle::Context),
            (" auto-scroll paused".to_string(), SpanStyle::Context),
            (" overloaded".to_string(), SpanStyle::RetryError),
            (" \u{b7} retrying in 5s (#2)".to_string(), SpanStyle::RetryInfo),
            (" Copied".to_string(), SpanStyle::Flash),
        ]
    );
    assert_eq!(
        texts(&line.right),
        vec![
            ("~/app:main".to_string(), SpanStyle::Context),
            ("  ".to_string(), SpanStyle::Plain),
            ("model-x".to_string(), SpanStyle::Context),
            (" [high]".to_string(), SpanStyle::Context),
            ("  12.3k (12%) $0.125 ".to_string(), SpanStyle::Foreground),
            (" \u{3a3}$1.500 ".to_string(), SpanStyle::Foreground),
        ]
    );
}

#[test]
fn view_on_error_drops_right_side() {
    let bar = StatusBar::new(SECOND, Instant::now(), "~/app".to_string(), None);
    let mut ctx = context(Status::Error { message: "boom".to_string() });
    ctx.auto_scroll = true;
    ctx.chat_name = None;
    ctx.retry_info = None;
    let line = bar.view(&ctx, "|");
    assert_eq!(
        texts(&line.left),
        vec![
            (" build".to_string(), SpanStyle::Mode),
            (" boom".to_string(), SpanStyle::Error),
        ]
    );
    assert!(line.right.is_empty());
}

#[test]
fn view_idle_without_extras() {
    let bar = StatusBar::new(SECOND, Instant::now(), "/tmp/other".to_string(), None);
    let mut ctx = context(Status::Idle);
    ctx.auto_scroll = true;
    ctx.chat_name = None;
    ctx.retry_info = None;
    ctx.thinking_label = None;
    ctx.stats.show_global = false;
    ctx.stats.context_size = 999;
    ctx.stats.context_window = 0;
    let line = bar.view(&ctx, "|");
    assert_eq!(texts(&line.left), vec![(" build".to_string(), SpanStyle::Mode)]);
    assert_eq!(
        texts(&line.right),
        vec![
            ("/tmp/other".to_string(), SpanStyle::Context),
            ("  ".to_string(), SpanStyle::Plain),
            ("model-x".to_string(), SpanStyle::Context),
            ("  999 (0%) $0.125 ".to_string(), SpanStyle::Foreground),
        ]
    );
}

#[test]
fn clear_expired_hint_at_follows_lifetime() {
    let mut bar = StatusBar::new(2 * SECOND, Instant::now(), String::new(), None);
    bar.flash_at("Copied".into(), 10 * SECOND);
    bar.clear_expired_hint_at(11 * SECOND);
    assert_eq!(bar.flash_text(), Some("Copied"));
    bar.clear_expired_hint_at(12 * SECOND - 1);
    assert_eq!(bar.flash_text(), Some("Copied"));
    bar.clear_expired_hint_at(12 * SECOND);
    assert_eq!(bar.flash_text(), None);
}

#[test]
fn tick_spinner_at_waits_for_interval() {
    let mut bar = StatusBar::new(SECOND, Instant::now(), String::new(), None);
    bar.advance_spinner_verb_at(5 * SECOND);
    let verb = bar.spinner_verb();
    bar.tick_spinner_at(7 * SECOND);
    assert_eq!(bar.spinner_verb(), verb);
    bar.tick_spinner_at(8 * SECOND);
    let next = bar.spinner_verb();
    assert_ne!(next, verb);
    bar.tick_spinner_at(8 * SECOND + 1);
    assert_eq!(bar.spinner_verb(), next);
    bar.tick_spinner_at(11 * SECOND);
    assert_ne!(bar.spinner_verb(), next);
}
