use shakey::arguments::ExampleArgs;
use shakey::bind::{dispatch, parse_command, Bind, Dispatch};
use shakey::commands::{Command, Commands};
use shakey::conn::format_response_lines;
use shakey::message::{Message, SenderPriv};
use shakey::reply::{Reply, ReplyKind};
use shakey::response::Response;
use shakey::templates::engine::Templates;
use shakey::templates::parsed::{BorrowedEnv, Parsed};
use shakey::templates::variant::Variant;
use shakey::templates::verify::ResponseRegistry;

fn b(s: &str) -> Vec<u8> {
    s.as_bytes().to_vec()
}

fn ping_registry() -> Commands {
    let mut commands = Commands::new_empty();
    let cmd = Command {
        command: b("!ping"),
        description: b("replies with the round trip time"),
        aliases: vec![],
        args: ExampleArgs::parse(b"").expect("empty pattern should parse"),
    };
    assert!(commands.add(b("builtin"), b("ping"), cmd));
    commands
}

#[test]
fn ping_end_to_end_yields_one_say_line() {
    // load the registry and bind the zero-argument command
    let commands = ping_registry();
    let mut binding = Bind::create(b("builtin"));
    assert!(binding.bind(&commands, b("ping")));

    // register and verify the response type against the templates
    let mut templates = Templates::new_empty();
    let parsed = Parsed::parse(b"pong: ${time}").expect("template should parse");
    assert!(templates.add(b("builtin"), b("ping"), Variant::Default, parsed));
    let mut registry = ResponseRegistry::new_empty();
    let fields = vec![b("time")];
    assert!(registry.add_to_registry(&templates, b("builtin"), b("ping"), &fields).is_ok());

    // one inbound message with the bound command as its text
    let msg = Message::twitch(7, 0, None, b("u"), b("#c"), b("!ping"));
    let replies: Vec<Reply<Response>> = match dispatch(&commands, b"builtin", b"ping", &msg.data) {
        Dispatch::Invoke(args) => {
            assert!(args.get(b"anything").is_none());
            let resp = Response {
                module: b("builtin"),
                key: b("ping"),
                env: BorrowedEnv::new_empty().insert(b("time"), b("1ms")),
            };
            vec![msg.say(resp)]
        }
        _ => panic!("the message should invoke the handler"),
    };

    // exactly one reply, rendered from the ping template, formatted as Say
    assert_eq!(replies.len(), 1);
    let mut lines: Vec<Vec<u8>> = vec![];
    for reply in &replies {
        let resp = reply.inner();
        let rendered = templates
            .render(&resp.module, &resp.key, Variant::Default, &resp.env)
            .expect("template should exist");
        assert_eq!(rendered, b("pong: 1ms"));
        let kind = match reply {
            Reply::Say(_) => ReplyKind::Say,
            Reply::Reply(_) => ReplyKind::Reply,
            Reply::Problem(_) => ReplyKind::Problem,
        };
        assert!(matches!(kind, ReplyKind::Say));
        for line in format_response_lines(kind, &msg.target, &msg.sender, &rendered) {
            lines.push(line);
        }
    }
    assert_eq!(lines, vec![b("PRIVMSG #c :pong: 1ms\r\n")]);
}

#[test]
fn missing_required_argument_sends_usage() {
    let mut commands = Commands::new_empty();
    let cmd = Command {
        command: b("!give"),
        description: b("gives a thing"),
        aliases: vec![b("!g")],
        args: ExampleArgs::parse(b"<what>").expect("pattern should parse"),
    };
    assert!(commands.add(b("stuff"), b("give"), cmd));
    match dispatch(&commands, b"stuff", b"give", b"!give") {
        Dispatch::UsageProblem(u) => assert_eq!(u, b("!give <what>")),
        _ => panic!("expected a usage problem"),
    }
    match dispatch(&commands, b"stuff", b"give", b"!g thing") {
        Dispatch::Invoke(args) => assert_eq!(args.get(b"what"), Some(&b("thing"))),
        _ => panic!("expected an invocation through the alias"),
    }
    assert!(matches!(
        dispatch(&commands, b"stuff", b"give", b"!other"),
        Dispatch::Skip
    ));
    assert!(matches!(
        dispatch(&commands, b"stuff", b"nope", b"!give x"),
        Dispatch::Skip
    ));
}

#[test]
fn binding_an_unknown_command_fails_fast() {
    let commands = ping_registry();
    let mut binding = Bind::create(b("builtin"));
    assert!(!binding.bind(&commands, b("nope")));
    binding.listen(b("watcher"));
    assert_eq!(binding.listens.len(), 1);
}

#[test]
fn parse_command_skips_unrelated_text() {
    let commands = ping_registry();
    let cmd = commands.find(b"builtin", b"ping").expect("command should exist");
    assert!(matches!(parse_command(cmd, b"hello there"), Dispatch::Skip));
    assert!(matches!(parse_command(cmd, b"!ping"), Dispatch::Invoke(_)));
    // extra text after a zero-argument command is not an invocation
    assert!(matches!(parse_command(cmd, b"!ping now"), Dispatch::Skip));
}

#[test]
fn registry_refuses_name_collisions() {
    let mut commands = ping_registry();
    let dup = Command {
        command: b("!ping"),
        description: b("other"),
        aliases: vec![],
        args: ExampleArgs::parse(b"").unwrap(),
    };
    assert!(!commands.add(b("other"), b("ping2"), dup));
    let alias_clash = Command {
        command: b("!pong"),
        description: b("other"),
        aliases: vec![b("!ping")],
        args: ExampleArgs::parse(b"").unwrap(),
    };
    assert!(!commands.add(b("other"), b("pong"), alias_clash));
}

#[test]
fn privilege_is_derived_from_badges() {
    let m = Message::twitch(1, 0, Some(b("badges=broadcaster/1")), b("u"), b("#c"), b("x"));
    assert!(matches!(m.privilege, SenderPriv::Broadcaster));
    assert!(m.is_from_broadcaster());
    assert!(m.require_broadcaster().is_none());

    let m = Message::twitch(2, 0, Some(b("badges=moderator/1,subscriber/0")), b("u"), b("#c"), b("x"));
    assert!(matches!(m.privilege, SenderPriv::Moderator));
    assert!(m.require_broadcaster().is_some());

    let m = Message::twitch(3, 0, Some(b("color=red;badges=subscriber/0")), b("u"), b("#c"), b("x"));
    assert!(matches!(m.privilege, SenderPriv::Viewer));
    assert!(m.is_from_elevated());

    let m = Message::twitch(4, 0, None, b("u"), b("#c"), b("x"));
    assert!(matches!(m.privilege, SenderPriv::Viewer));
}
