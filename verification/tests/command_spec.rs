use telebots::command::{
    MetaItem, MetaValue,
    apply_rename_rule, parse_aliases, CommandTable, EnumAttrs, Fields, SpecError, VariantDecl,
};

#[derive(Clone, Debug, PartialEq)]
enum TestCommand {
    Hi,
    Echo(String),
    Ping,
    Renamed,
    Secret,
}

fn decl(ident: &str, fields: Fields, description: &str) -> VariantDecl {
    VariantDecl {
        ident: ident.to_string(),
        fields,
        description: Some(description.to_string()),
        rename: None,
        aliases: None,
        hide: false,
    }
}

/// The table of `TestCommand`, declared with `rename_rule = "snake_case"`
/// and `description = "Test commands:"`.
fn table() -> CommandTable {
    let attrs = EnumAttrs {
        rename_rule: Some("snake_case".to_string()),
        description: Some("Test commands:".to_string()),
        prefix: None,
        separator: None,
    };
    let mut ping = decl("Ping", Fields::Unit, "Ping");
    ping.aliases = Some("p".to_string());
    let mut renamed = decl("Renamed", Fields::Unit, "Renamed command");
    renamed.rename = Some("renamed".to_string());
    let mut secret = decl("Secret", Fields::Unit, "Hidden from help");
    secret.hide = true;
    let decls = vec![
        decl("Hi", Fields::Unit, "Say hi"),
        decl("Echo", Fields::Unnamed(1), "Echo text"),
        ping,
        renamed,
        secret,
    ];
    CommandTable::from_decls(attrs, &decls).unwrap()
}

fn parse(s: &str, bot: &str) -> Option<TestCommand> {
    let parsed = table().parse(s, bot)?;
    Some(match parsed.index {
        0 => TestCommand::Hi,
        1 => TestCommand::Echo(parsed.args),
        2 => TestCommand::Ping,
        3 => TestCommand::Renamed,
        4 => TestCommand::Secret,
        _ => unreachable!(),
    })
}

#[test]
fn help_lists_visible_commands() {
    assert_eq!(
        table().help(),
        "Test commands:\n\n/hi — Say hi\n/echo — Echo text\n/ping, /p — Ping\n/renamed — Renamed command"
    );
}

#[test]
fn parse_matches_command_and_arguments() {
    assert_eq!(parse("/hi", "bot"), Some(TestCommand::Hi));
    assert_eq!(
        parse("/echo hello world", "bot"),
        Some(TestCommand::Echo("hello world".into()))
    );
    // Hidden commands still parse.
    assert_eq!(parse("/secret", "bot"), Some(TestCommand::Secret));
    assert_eq!(parse("/nope", "bot"), None);
}

#[test]
fn parse_matches_aliases() {
    assert_eq!(parse("/ping", "bot"), Some(TestCommand::Ping));
    assert_eq!(parse("/p", "bot"), Some(TestCommand::Ping));
}

#[test]
fn parse_respects_explicit_rename() {
    assert_eq!(parse("/renamed", "bot"), Some(TestCommand::Renamed));
    assert_eq!(parse("/renamed_command", "bot"), None);
}

#[test]
fn parse_handles_bot_mention() {
    assert_eq!(
        parse("/echo@mybot hi", "mybot"),
        Some(TestCommand::Echo("hi".into()))
    );
    assert_eq!(parse("/echo@otherbot hi", "mybot"), None);
}

#[test]
fn menu_lists_visible_primary_commands() {
    let menu = table().menu();
    let names = menu.iter().map(|m| m.command.as_str()).collect::<Vec<_>>();
    assert_eq!(names, ["/hi", "/echo", "/ping", "/renamed"]);
}

#[test]
fn mention_is_case_insensitive_and_unit_commands_ignore_arguments() {
    assert_eq!(parse("/hi@BOT extra words", "bot"), Some(TestCommand::Hi));
    assert_eq!(parse("/echo", "bot"), Some(TestCommand::Echo(String::new())));
}

#[test]
fn menu_carries_descriptions() {
    let menu = table().menu();
    assert_eq!(menu[2].description, "Ping");
    assert_eq!(menu.len(), 4);
}

#[test]
fn aliases_are_split_trimmed_and_filtered() {
    assert_eq!(parse_aliases(" a, b ,,c ,"), vec!["a", "b", "c"]);
    assert!(parse_aliases("").is_empty());
    assert!(parse_aliases(" , ").is_empty());
}

#[test]
fn rename_rules_follow_heck() {
    assert_eq!(apply_rename_rule("snake_case", "FearGreed").unwrap(), "fear_greed");
    assert_eq!(apply_rename_rule("kebab-case", "FearGreed").unwrap(), "fear-greed");
    assert_eq!(apply_rename_rule("SCREAMING_SNAKE_CASE", "FearGreed").unwrap(), "FEAR_GREED");
    assert_eq!(apply_rename_rule("SCREAMING-KEBAB-CASE", "FearGreed").unwrap(), "FEAR-GREED");
    assert_eq!(apply_rename_rule("camelCase", "FearGreed").unwrap(), "fearGreed");
    assert_eq!(apply_rename_rule("PascalCase", "fear_greed").unwrap(), "FearGreed");
    assert_eq!(apply_rename_rule("lowercase", "FearGreed").unwrap(), "feargreed");
    assert_eq!(apply_rename_rule("UPPERCASE", "FearGreed").unwrap(), "FEARGREED");
    assert_eq!(apply_rename_rule("identity", "FearGreed").unwrap(), "FearGreed");
    assert!(matches!(
        apply_rename_rule("Title Case", "FearGreed"),
        Err(SpecError::InvalidRenameRule(r)) if r == "Title Case"
    ));
}

#[test]
fn custom_prefix_and_separator() {
    let attrs = EnumAttrs {
        rename_rule: None,
        description: None,
        prefix: Some("!".to_string()),
        separator: Some("|".to_string()),
    };
    let decls = vec![decl("Go", Fields::Unnamed(1), "")];
    let table = CommandTable::from_decls(attrs, &decls).unwrap();
    assert_eq!(table.help(), "!Go");
    let parsed = table.parse("!Go|a b", "bot").unwrap();
    assert_eq!(parsed.index, 0);
    assert_eq!(parsed.args, "a b");
    assert!(table.parse("/Go", "bot").is_none());
}

#[test]
fn bad_declarations_are_reported() {
    let attrs = EnumAttrs {
        rename_rule: Some("weird".to_string()),
        ..EnumAttrs::default()
    };
    let decls = vec![decl("Hi", Fields::Unit, "")];
    assert!(matches!(
        CommandTable::from_decls(attrs, &decls),
        Err(SpecError::InvalidRenameRule(r)) if r == "weird"
    ));

    let decls = vec![decl("Pair", Fields::Unnamed(2), ""), decl("Named", Fields::Named, "")];
    assert!(matches!(
        CommandTable::from_decls(EnumAttrs::default(), &decls),
        Err(SpecError::FieldCount(v)) if v == "Pair"
    ));
    let decls = vec![decl("Named", Fields::Named, "")];
    assert!(matches!(
        CommandTable::from_decls(EnumAttrs::default(), &decls),
        Err(SpecError::NamedFields(v)) if v == "Named"
    ));
}

#[test]
fn command_options_are_read_from_meta_items() {
    let item = |k: &str, v: MetaValue| MetaItem { key: k.to_string(), value: v };
    let s = |v: &str| MetaValue::Str(v.to_string());
    let attrs = EnumAttrs::from_meta(&vec![
        item("rename_rule", s("snake_case")),
        item("description", s("Old")),
        item("description", s("Test commands:")),
    ])
    .unwrap();
    assert_eq!(attrs.rename_rule.as_deref(), Some("snake_case"));
    assert_eq!(attrs.description.as_deref(), Some("Test commands:"));
    assert_eq!(attrs.prefix, None);
    assert!(matches!(
        EnumAttrs::from_meta(&vec![item("hide", MetaValue::Missing)]),
        Err(SpecError::Unsupported(k)) if k == "hide"
    ));
    assert!(matches!(
        EnumAttrs::from_meta(&vec![item("prefix", MetaValue::Other), item("bogus", s("x"))]),
        Err(SpecError::BadValue(k)) if k == "prefix"
    ));

    let v = VariantDecl::from_meta(
        "Ping".to_string(),
        Fields::Unit,
        &vec![item("description", s("Ping")), item("aliases", s("p, pong")), item("hide", MetaValue::Missing)],
    )
    .unwrap();
    assert_eq!(v.description.as_deref(), Some("Ping"));
    assert_eq!(v.aliases.as_deref(), Some("p, pong"));
    assert!(v.hide);
    assert_eq!(v.rename, None);
    assert!(matches!(
        VariantDecl::from_meta("X".into(), Fields::Unit, &vec![item("hide", s("yes"))]),
        Err(SpecError::BadValue(k)) if k == "hide"
    ));
    assert!(matches!(
        VariantDecl::from_meta("X".into(), Fields::Unit, &vec![item("prefix", s("!"))]),
        Err(SpecError::Unsupported(k)) if k == "prefix"
    ));
}

#[test]
fn aliases_trim_unicode_white_space() {
    assert_eq!(parse_aliases("\tp\u{a0},\u{3000}q\n"), vec!["p", "q"]);
}
