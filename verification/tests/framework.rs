use soundfx::framework::{
    args_pattern_string, interaction_args, permission_denied_reply, Arg, ArgKind, Args, Command,
    CommandKind, CommandMatch, DispatchAction, DispatchEvent, DispatchStep, ExecutePlan, OptionValue,
    PermissionLevel, RegexFramework,
};

fn arg(name: &str, kind: ArgKind) -> Arg {
    Arg { name: name.to_string(), description: String::new(), kind, required: true }
}

fn command(names: &[&str], kind: CommandKind, level: PermissionLevel, args: Vec<Arg>) -> Command {
    Command {
        names: names.iter().map(|n| n.to_string()).collect(),
        desc: String::from("d"),
        examples: vec![],
        group: String::from("g"),
        kind,
        required_permissions: level,
        args,
    }
}

#[test]
fn argument_patterns() {
    assert_eq!(arg("n", ArgKind::String).to_regex(), r"(?P<n>.+?)");
    assert_eq!(arg("n", ArgKind::Integer).to_regex(), r"(?P<n>\d+)");
    assert_eq!(arg("loud", ArgKind::Boolean).to_regex(), r"(?P<loud>loud)?");
    assert_eq!(arg("u", ArgKind::User).to_regex(), r"<(@|@!)(?P<u>\d+)>");
    assert_eq!(arg("c", ArgKind::Channel).to_regex(), r"<#(?P<c>\d+)>");
    assert_eq!(arg("r", ArgKind::Role).to_regex(), r"<@&(?P<r>\d+)>");
    assert_eq!(arg("m", ArgKind::Mentionable).to_regex(), r"<(?P<m_pref>@|@!|@&|#)(?P<m>\d+)>");
    assert_eq!(arg("x", ArgKind::Attachment).to_regex(), "");
    let schema = vec![arg("a", ArgKind::Integer), arg("b", ArgKind::String)];
    assert_eq!(args_pattern_string(&schema), r"(?P<a>\d+)\s*(?P<b>.+?)$");
    assert_eq!(args_pattern_string(&vec![]), "$");
}

#[test]
fn args_insert_then_named() {
    let mut args = Args::new();
    assert_eq!(args.named("query"), None);
    args.insert("query".to_string(), "beep".to_string());
    assert_eq!(args.named("query").map(|s| s.as_str()), Some("beep"));
    args.insert("query".to_string(), "boop".to_string());
    args.insert("other".to_string(), "x".to_string());
    assert_eq!(args.named("query").map(|s| s.as_str()), Some("boop"));
    assert_eq!(args.named("other").map(|s| s.as_str()), Some("x"));
}

#[test]
fn args_from_message_text() {
    let schema = vec![arg("volume", ArgKind::Integer), arg("name", ArgKind::String)];
    let args = Args::from("50 my sound", &schema).expect("the pattern compiles");
    assert_eq!(args.named("volume").map(|s| s.as_str()), Some("50"));
    assert_eq!(args.named("name").map(|s| s.as_str()), Some("my sound"));
    let none = Args::from("no digits here", &schema).expect("the pattern compiles");
    assert_eq!(none.named("volume"), None);
    let bad = vec![arg("bad name", ArgKind::String)];
    assert!(Args::from("x", &bad).is_none());
}

#[test]
fn args_from_groups_later_wins() {
    let groups = vec![("a".to_string(), "1".to_string()), ("a".to_string(), "2".to_string())];
    let args = Args::from_groups(&groups);
    assert_eq!(args.named("a").map(|s| s.as_str()), Some("2"));
}

#[test]
fn slash_options_become_args() {
    let options = vec![
        ("loud".to_string(), Some(OptionValue::Bool(true))),
        ("quiet".to_string(), Some(OptionValue::Bool(false))),
        ("n".to_string(), Some(OptionValue::Number("12".to_string()))),
        ("name".to_string(), Some(OptionValue::Text("beep".to_string()))),
        ("other".to_string(), Some(OptionValue::Other)),
        ("missing".to_string(), None),
    ];
    let args = interaction_args(&options);
    assert_eq!(args.named("loud").map(|s| s.as_str()), Some("loud"));
    assert_eq!(args.named("quiet").map(|s| s.as_str()), Some(""));
    assert_eq!(args.named("n").map(|s| s.as_str()), Some("12"));
    assert_eq!(args.named("name").map(|s| s.as_str()), Some("beep"));
    assert_eq!(args.named("other").map(|s| s.as_str()), Some(""));
    assert_eq!(args.named("missing"), None);
}

#[test]
fn permissions() {
    let unrestricted = command(&["a"], CommandKind::Both, PermissionLevel::Unrestricted, vec![]);
    let managed = command(&["b"], CommandKind::Both, PermissionLevel::Managed, vec![]);
    let restricted = command(&["c"], CommandKind::Both, PermissionLevel::Restricted, vec![]);
    let roles = vec![5u64, 6];
    assert!(unrestricted.check_permissions(false, Err(()), 1, &roles));
    assert!(restricted.check_permissions(true, Err(()), 1, &roles));
    assert!(!restricted.check_permissions(false, Ok(None), 1, &roles));
    assert!(managed.check_permissions(false, Ok(None), 1, &roles));
    assert!(managed.check_permissions(false, Ok(Some(6)), 1, &roles));
    assert!(managed.check_permissions(false, Ok(Some(1)), 1, &roles));
    assert!(!managed.check_permissions(false, Ok(Some(7)), 1, &roles));
    assert!(!managed.check_permissions(false, Err(()), 1, &roles));
    assert!(managed.check_permissions(true, Ok(Some(7)), 1, &roles));
}

#[test]
fn permission_replies() {
    assert_eq!(
        permission_denied_reply(PermissionLevel::Managed, true).as_deref(),
        Some("You must either be an Admin or have a role specified by `/roles` to do this command")
    );
    assert_eq!(
        permission_denied_reply(PermissionLevel::Managed, false).as_deref(),
        Some("You must either be an Admin or have a role specified in `?roles` to do this command")
    );
    assert_eq!(
        permission_denied_reply(PermissionLevel::Restricted, false).as_deref(),
        Some("You must be an Admin to do this command")
    );
    assert_eq!(permission_denied_reply(PermissionLevel::Unrestricted, true), None);
}

fn framework() -> RegexFramework {
    RegexFramework::new(123)
        .add_command(command(&["play", "p"], CommandKind::Both, PermissionLevel::Unrestricted,
            vec![arg("query", ArgKind::String)]))
        .add_command(command(&["stop"], CommandKind::Slash, PermissionLevel::Unrestricted, vec![]))
        .add_command(command(&["volume"], CommandKind::Text, PermissionLevel::Managed,
            vec![arg("volume", ArgKind::Integer)]))
        .build()
        .expect("the command pattern compiles")
}

#[test]
fn registry_lookup_and_set() {
    let f = RegexFramework::new(1)
        .add_command(command(&["play", "p"], CommandKind::Both, PermissionLevel::Unrestricted, vec![]))
        .add_command(command(&["play", "pl"], CommandKind::Text, PermissionLevel::Managed, vec![]));
    let first = f.command_index("p").unwrap();
    let second = f.command_index("play").unwrap();
    assert_eq!(first, 0);
    assert_eq!(second, 1);
    assert_eq!(f.command_index("pl"), Some(1));
    assert_eq!(f.command_index("x"), None);
    let set = f.application_commands();
    assert_eq!(set.len(), 1);
    assert_eq!(set[0].kind, CommandKind::Both);
    assert_eq!(f.command_at(1).required_permissions, PermissionLevel::Managed);
}

#[test]
fn names_ordered_longest_first() {
    let f = RegexFramework::new(1)
        .add_command(command(&["a", "ccc"], CommandKind::Both, PermissionLevel::Unrestricted, vec![]))
        .add_command(command(&["bb", "dd", "eee"], CommandKind::Both, PermissionLevel::Unrestricted, vec![]));
    assert_eq!(f.names_longest_first(), vec!["ccc", "eee", "bb", "dd", "a"]);
}

#[test]
fn matching_message_text() {
    let f = framework();
    let m = f.match_command("?play my sound").expect("matches");
    assert_eq!(m.prefix.as_deref(), Some("?"));
    assert_eq!(m.cmd.as_deref(), Some("play"));
    assert_eq!(m.args.as_deref(), Some("my sound"));
    let m = f.match_command("<@123> volume").expect("matches");
    assert_eq!(m.prefix, None);
    assert_eq!(m.cmd.as_deref(), Some("volume"));
    assert_eq!(m.args, None);
    assert!(f.match_command("hello there").is_none());
    assert!(RegexFramework::new(1).match_command("?play").is_none());
}

fn run_to_member_check(f: &RegexFramework, matched: CommandMatch, guild_prefix: Option<&str>) -> (DispatchStep, DispatchAction) {
    let (s, a) = f.dispatch_step(DispatchStep::Start, DispatchEvent::Message { from_bot: false, content_empty: false });
    assert!(matches!(a, DispatchAction::ResolveChannel));
    let (s, a) = f.dispatch_step(s, DispatchEvent::Channel { in_guild_channel: true });
    assert!(matches!(a, DispatchAction::MatchCommand));
    let had_prefix = matched.prefix.is_some();
    let (s, a) = f.dispatch_step(s, DispatchEvent::Matched(Some(matched)));
    let s = if had_prefix {
        assert!(matches!(a, DispatchAction::FetchGuildPrefix));
        let (s, a) = f.dispatch_step(s, DispatchEvent::GuildPrefix(guild_prefix.map(|p| p.to_string())));
        if !matches!(a, DispatchAction::CheckSelfPermissions) {
            return (s, a);
        }
        s
    } else {
        assert!(matches!(a, DispatchAction::CheckSelfPermissions));
        s
    };
    f.dispatch_step(s, DispatchEvent::SelfPermissions(Some((true, true))))
}

#[test]
fn dispatch_runs_a_text_command() {
    let f = framework();
    let m = f.match_command("!PLAY beep").expect("matches in any case");
    let (s, a) = run_to_member_check(&f, m, Some("!"));
    let command = match a {
        DispatchAction::CheckMemberPermission { command } => command,
        _ => panic!("expected a permission check"),
    };
    assert_eq!(Some(command), f.command_index("play"));
    let (s, a) = f.dispatch_step(s, DispatchEvent::MemberPermission(true));
    assert!(matches!(s, DispatchStep::Finished));
    match a {
        DispatchAction::Run { command: c, args } => {
            assert_eq!(c, command);
            assert_eq!(args.named("query").map(|s| s.as_str()), Some("beep"));
        },
        _ => panic!("expected the command to run"),
    }
}

#[test]
fn dispatch_ignores_and_refuses() {
    let f = framework();
    let (s, a) = f.dispatch_step(DispatchStep::Start, DispatchEvent::Message { from_bot: true, content_empty: false });
    assert!(matches!(s, DispatchStep::Finished) && matches!(a, DispatchAction::Nothing));
    let (s, a) = f.dispatch_step(DispatchStep::Start, DispatchEvent::Message { from_bot: false, content_empty: true });
    assert!(matches!(s, DispatchStep::Finished) && matches!(a, DispatchAction::Nothing));

    // a wrong prefix
    let m = f.match_command("!play beep").unwrap();
    let (s, a) = run_to_member_check(&f, m, Some("?"));
    assert!(matches!(s, DispatchStep::Finished) && matches!(a, DispatchAction::Nothing));

    // settings unreadable: only `?` is accepted
    let m = f.match_command("?play beep").unwrap();
    let (_, a) = run_to_member_check(&f, m, None);
    assert!(matches!(a, DispatchAction::CheckMemberPermission { .. }));

    // a slash-only command is not run from text
    let m = f.match_command("?stop").unwrap();
    let (s, a) = run_to_member_check(&f, m, Some("?"));
    assert!(matches!(s, DispatchStep::Finished) && matches!(a, DispatchAction::Nothing));

    // a member without permission is told why
    let m = f.match_command("?volume 5").unwrap();
    let (s, _) = run_to_member_check(&f, m, Some("?"));
    let (_, a) = f.dispatch_step(s, DispatchEvent::MemberPermission(false));
    match a {
        DispatchAction::Say(t) => assert_eq!(t, "You must either be an Admin or have a role specified in `?roles` to do this command"),
        _ => panic!("expected a reply"),
    }

    // the bot lacks permissions
    let m = f.match_command("?play x").unwrap();
    let (s, _) = f.dispatch_step(DispatchStep::AwaitPrefix { matched: m }, DispatchEvent::GuildPrefix(Some("?".to_string())));
    let (_, a) = f.dispatch_step(s, DispatchEvent::SelfPermissions(Some((true, false))));
    assert!(matches!(a, DispatchAction::ReportMissingPermissions));
    let (_, a) = f.dispatch_step(DispatchStep::AwaitSelfPermissions { matched: CommandMatch { prefix: None, cmd: Some("play".to_string()), args: None } },
        DispatchEvent::SelfPermissions(None));
    assert!(matches!(a, DispatchAction::ReportPermissionError));

    // a report that does not fit the step changes nothing
    let (s, a) = f.dispatch_step(DispatchStep::AwaitChannel, DispatchEvent::MemberPermission(true));
    assert!(matches!(s, DispatchStep::AwaitChannel) && matches!(a, DispatchAction::Nothing));

    // outside a server's channel
    let (s, a) = f.dispatch_step(DispatchStep::AwaitChannel, DispatchEvent::Channel { in_guild_channel: false });
    assert!(matches!(s, DispatchStep::Finished) && matches!(a, DispatchAction::Nothing));

    // an unknown command name
    let (_, a) = f.dispatch_step(DispatchStep::AwaitSelfPermissions { matched: CommandMatch { prefix: None, cmd: Some("nope".to_string()), args: None } },
        DispatchEvent::SelfPermissions(Some((true, true))));
    assert!(matches!(a, DispatchAction::Fail(_)));
}

#[test]
fn execute_plans() {
    let f = framework();
    let volume = f.command_index("volume").unwrap();
    let options = vec![("volume".to_string(), Some(OptionValue::Number("30".to_string())))];
    match f.execute_plan(volume, &options, true) {
        ExecutePlan::Run { command, args } => {
            assert_eq!(command, volume);
            assert_eq!(args.named("volume").map(|s| s.as_str()), Some("30"));
        },
        _ => panic!("expected the command to run"),
    }
    match f.execute_plan(volume, &options, false) {
        ExecutePlan::Reply(t) => assert_eq!(t, "You must either be an Admin or have a role specified by `/roles` to do this command"),
        _ => panic!("expected a reply"),
    }
    let play = f.command_index("p").unwrap();
    assert!(matches!(f.execute_plan(play, &options, false), ExecutePlan::Nothing));
}

#[test]
fn builder_settings_keep_the_registry() {
    let f = RegexFramework::new(9)
        .add_command(command(&["x"], CommandKind::Both, PermissionLevel::Unrestricted, vec![]))
        .case_insensitive(false)
        .default_prefix("!")
        .ignore_bots(false)
        .build()
        .unwrap();
    assert_eq!(f.command_index("x"), Some(0));
    assert!(f.match_command("!x").is_some());
    assert!(f.match_command("!X").is_none());
}
