use telebots::metrics::{CommandHealth, Metrics};

#[test]
fn metrics_health_reflects_startup_state() {
    let m = Metrics::new("test", "0.1.0");
    let h = m.health();
    assert_eq!(h.service, "test");
    assert_eq!(h.version, "0.1.0");
    assert_eq!(h.telegram, "ok");
    assert!(h.healthy);
    assert_eq!(h.jobs_active, 0);
    assert!(m.alive());
}

#[test]
fn metrics_failed_heartbeat_flips_telegram_flag() {
    let mut m = Metrics::new("test", "0.1.0");
    m.heartbeat_failed();
    assert_eq!(m.health().telegram, "unreachable");
    assert!(!m.health().healthy);
    // Still alive until the last heartbeat goes stale.
    assert!(m.alive());
}

#[test]
fn metrics_job_counters_track_activity() {
    let mut m = Metrics::new("test", "0.1.0");
    m.note_command();
    m.note_command();
    m.note_dispatch_error();
    m.job_started();
    m.job_started();
    m.job_finished(true);
    let h = m.health();
    assert_eq!(h.commands_total, 2);
    assert_eq!(h.dispatch_errors_total, 1);
    assert_eq!(h.jobs_active, 1);
    assert_eq!(h.jobs_failed_total, 1);
    m.note_panic();
    assert_eq!(m.health().panics_total, 1);
}

#[test]
fn per_command_counters_track_executions_and_errors() {
    let mut m = Metrics::new("test", "0.1.0");
    m.note_command_named("price");
    m.note_command_named("price");
    m.note_command_named("info");
    m.note_command_error("price");
    let h = m.health();
    assert_eq!(h.command("price").unwrap().total, 2);
    assert_eq!(h.command("price").unwrap().errors, 1);
    assert_eq!(h.command("info").unwrap().total, 1);
    assert_eq!(h.command("info").unwrap().errors, 0);
}

#[test]
fn usage_reporter_accumulates_tokens_and_cost() {
    let mut m = Metrics::new("test", "0.1.0");
    let usage = m.usage_reporter();
    usage.report(10, 20, 500);
    usage.report(5, 15, 250);
    let h = m.health();
    assert_eq!(h.llm_prompt_tokens_total, 15);
    assert_eq!(h.llm_completion_tokens_total, 35);
    assert_eq!(h.llm_requests_total, 2);
    assert_eq!(h.llm_cost_micro_usd_total, 750);
}

#[test]
fn liveness_follows_the_last_heartbeat() {
    let mut m = Metrics::new("test", "0.1.0");
    m.heartbeat_ok_at(1_000);
    assert!(m.alive_at(1_180));
    assert!(!m.alive_at(1_181));
    let h = m.health_at(1_200, 7);
    assert!(!h.healthy);
    assert_eq!(h.uptime_secs, 7);
    assert_eq!(h.last_heartbeat_ago_secs, Some(200));
    let earlier = m.health_at(900, 0);
    assert_eq!(earlier.last_heartbeat_ago_secs, Some(0));
    assert!(earlier.healthy);
}

#[test]
fn error_on_a_new_command_counts_no_execution() {
    let mut m = Metrics::new("test", "0.1.0");
    m.note_command_error("boom");
    m.note_command_at(50);
    let h = m.health_at(60, 0);
    assert_eq!(h.command("boom"), Some(CommandHealth { total: 0, errors: 1 }));
    assert_eq!(h.command("other"), None);
    assert_eq!(h.last_command_ago_secs, Some(10));
    assert_eq!(h.commands.len(), 1);
}

#[test]
fn job_finished_without_failure_keeps_failure_count() {
    let mut m = Metrics::new("test", "0.1.0");
    m.job_started();
    m.job_finished(false);
    let h = m.health();
    assert_eq!(h.jobs_active, 0);
    assert_eq!(h.jobs_failed_total, 0);
}

#[test]
fn liveness_follows_only_the_last_successful_heartbeat() {
    let mut m = Metrics::new("test", "0.1.0");
    m.heartbeat_ok_at(1_000);
    m.heartbeat_failed();
    m.note_command_at(5_000);
    m.job_started();
    m.job_finished(true);
    m.note_panic();
    assert!(m.alive_at(1_180));
    assert!(!m.alive_at(1_181));
    let h = m.health_at(1_100, 7);
    assert_eq!(h.commands_total, 1);
    assert_eq!(h.jobs_active, 0);
    assert_eq!(h.jobs_failed_total, 1);
    assert_eq!(h.panics_total, 1);
    assert_eq!(h.last_heartbeat_ago_secs, Some(100));
    assert_eq!(h.last_command_ago_secs, Some(0));
    assert!(!h.healthy);
}
