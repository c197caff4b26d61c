use telebots::bot::{
    parse_u16, Bot, BotError, BotRun, RunAction, RunEvent, Server, Telemetry, DRAIN_GRACE_SECS,
};
use telebots::command::MenuEntry;

#[test]
fn builder_requires_a_token() {
    assert!(matches!(Bot::builder().service("degen").build(), Err(BotError::MissingToken)));
    let bot = Bot::builder()
        .token("123:abc")
        .service("degen")
        .version("0.2.0")
        .metrics_port(9101)
        .build()
        .unwrap();
    assert_eq!(bot.token(), "123:abc");
    assert_eq!(bot.service(), "degen");
    assert_eq!(bot.version(), "0.2.0");
    assert_eq!(bot.metrics_port(), 9101);
    assert_eq!(bot.metrics_addr(), "0.0.0.0");
    let local = Bot::builder().token("t").metrics_addr("127.0.0.1").build().unwrap();
    assert_eq!(local.metrics_addr(), "127.0.0.1");
    assert_eq!(local.metrics_port(), 0);
}

#[test]
fn error_messages() {
    assert_eq!(
        BotError::MissingToken.message(),
        "missing bot token — set it with Bot::builder().token(...)"
    );
    assert_eq!(
        BotError::GetMe("Unauthorized".into()).message(),
        "getMe failed — check the bot token (Unauthorized)"
    );
    let source = std::io::Error::new(std::io::ErrorKind::AddrInUse, "in use");
    assert_eq!(
        BotError::Bind { port: 9100, source }.message(),
        "failed to bind metrics port 9100"
    );
}

#[test]
fn metrics_port_defaults_per_service() {
    assert_eq!(Server::port_for("degen", None), 9101);
    assert_eq!(Server::port_for("imagine", None), 9102);
    assert_eq!(Server::port_for("other", None), 9100);
    assert_eq!(Server::port_for("degen", Some("9200")), 9200);
    assert_eq!(Server::port_for("degen", Some("+9200")), 9200);
    assert_eq!(Server::port_for("degen", Some("70000")), 9101);
    assert_eq!(Server::port_for("imagine", Some("abc")), 9102);
    assert_eq!(Server::port_for("other", Some("")), 9100);
}

#[test]
fn ports_parse_like_str_parse() {
    for s in ["0", "65535", "65536", "+1", "-1", "+", "", " 1", "007", "99999999999"] {
        assert_eq!(parse_u16(s), s.parse::<u16>().ok(), "{s:?}");
    }
}

#[test]
fn log_filter_and_format() {
    assert_eq!(
        Telemetry::fallback_filter("degen"),
        "degen=info,teloxide=warn,reqwest=warn"
    );
    assert!(Telemetry::json_output(Some("1")));
    assert!(!Telemetry::json_output(Some("true")));
    assert!(!Telemetry::json_output(None));
}

#[test]
fn run_fails_fast_on_a_bad_token() {
    let mut run = BotRun::new(None, "0.0.0.0", 9100);
    assert!(matches!(run.next(RunEvent::Begin), RunAction::GetMe));
    match run.next(RunEvent::Me(Err("401".into()))) {
        RunAction::Exit(Err(BotError::GetMe(m))) => assert_eq!(m, "401"),
        _ => panic!("expected the token failure"),
    }
}

#[test]
fn run_registers_menu_binds_serves_and_drains() {
    let menu = vec![MenuEntry { command: "/help".into(), description: "Show help".into() }];
    let mut run = BotRun::new(Some(menu), "0.0.0.0", 9101);
    assert!(matches!(run.next(RunEvent::Begin), RunAction::GetMe));
    match run.next(RunEvent::Me(Ok(()))) {
        RunAction::RegisterMenu(m) => assert_eq!(m[0].command, "/help"),
        _ => panic!("expected the menu"),
    }
    assert!(matches!(
        run.next(RunEvent::MenuRegistered),
        RunAction::BindMetrics { addr: "0.0.0.0", port: 9101 }
    ));
    assert!(matches!(run.next(RunEvent::Bound(Ok(()))), RunAction::Serve));
    assert!(matches!(
        run.next(RunEvent::Stopped),
        RunAction::Drain { grace_secs } if grace_secs == DRAIN_GRACE_SECS
    ));
    assert!(matches!(run.next(RunEvent::Drained), RunAction::Exit(Ok(()))));
}

#[test]
fn run_stops_when_the_port_is_taken() {
    let mut run = BotRun::new(None, "0.0.0.0", 9100);
    run.next(RunEvent::Begin);
    assert!(matches!(run.next(RunEvent::Me(Ok(()))), RunAction::BindMetrics { port: 9100, .. }));
    let source = std::io::Error::new(std::io::ErrorKind::AddrInUse, "in use");
    assert!(matches!(
        run.next(RunEvent::Bound(Err(source))),
        RunAction::Exit(Err(BotError::Bind { port: 9100, .. }))
    ));
}
