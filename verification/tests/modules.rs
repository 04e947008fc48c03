use shakey::arguments::ExampleArgs;
use shakey::commands::{Command, Commands};
use shakey::conn::{join_line, map_io_err, pong_line, run_step, ErrKind, IoClass, Step};
use shakey::conn::{format_response_lines, is_recoverable};
use shakey::env::Secret;
use shakey::helix::EmoteMap;
use shakey::modules::another_viewer::try_kappa;
use shakey::modules::builtin::Greetings;
use shakey::modules::crates::{crate_reply, CrateInfo, CrateReply};
use shakey::modules::help::{help, HelpReply};
use shakey::modules::shakespeare::{should_respond, try_mention};
use shakey::modules::twitch::{channel_of, uptime_reply, viewers_reply, Stream, TwitchReply};
use shakey::modules::user_defined::{add_command, remove_command, update_command, Commands as UdStore, UdReply};
use shakey::reply::{Outcome, Reply, ReplyKind};
use shakey::spotify::{note_song, Queue, Song};

fn b(s: &str) -> Vec<u8> {
    s.as_bytes().to_vec()
}

#[test]
fn outbound_lines_are_formatted() {
    assert_eq!(pong_line(b"tok"), b("PONG tok\r\n"));
    assert_eq!(join_line(b"#c"), b("JOIN #c\r\n"));
    let lines = format_response_lines(ReplyKind::Say, b"#c", b"u", b"one\ntwo");
    assert_eq!(lines, vec![b("PRIVMSG #c :one\r\n"), b("PRIVMSG #c :two\r\n")]);
    let lines = format_response_lines(ReplyKind::Reply, b"#c", b"u", b"hi");
    assert_eq!(lines, vec![b("PRIVMSG #c :u: hi\r\n")]);
    let lines = format_response_lines(ReplyKind::Problem, b"#c", b"u", b"");
    assert!(lines.is_empty());
}

#[test]
fn io_failures_classify() {
    assert_eq!(map_io_err(ErrKind::UnexpectedEof), IoClass::Eof);
    assert_eq!(map_io_err(ErrKind::ConnectionReset), IoClass::Connection);
    assert_eq!(map_io_err(ErrKind::TimedOut), IoClass::Timeout);
    assert_eq!(map_io_err(ErrKind::Other), IoClass::Other);
    assert!(is_recoverable(IoClass::Eof));
    assert!(!is_recoverable(IoClass::Other));
}

#[test]
fn run_step_decides_each_event() {
    match run_step(b"PING :tok\r\n", 1, 0).unwrap() {
        Step::Pong(out) => assert_eq!(out, b("PONG tok\r\n")),
        _ => panic!("expected a pong"),
    }
    match run_step(b"ERROR :bye\r\n", 1, 0).unwrap() {
        Step::Fatal(t) => assert_eq!(t, b("bye")),
        _ => panic!("expected a fatal step"),
    }
    match run_step(b"@display-name=B;user-id=9 GLOBALUSERSTATE\r\n", 1, 0).unwrap() {
        Step::Ready(id) => {
            assert_eq!(id.display_name, b("B"));
            assert_eq!(id.user_id, 9);
        }
        _ => panic!("expected the ready step"),
    }
    match run_step(b":u!u@h PRIVMSG #c :hi\r\n", 42, 7).unwrap() {
        Step::Deliver(m) => {
            assert_eq!(m.id, 42);
            assert_eq!(m.timestamp, 7);
            assert_eq!(m.sender, b("u"));
            assert_eq!(m.target, b("#c"));
            assert_eq!(m.data, b("hi"));
        }
        _ => panic!("expected a delivery"),
    }
    assert!(matches!(run_step(b":s 001 n :w\r\n", 1, 0).unwrap(), Step::Quiet));
    assert!(run_step(b"PING\r\n", 1, 0).is_err());
}

#[test]
fn help_lists_and_describes() {
    let mut commands = Commands::new_empty();
    let cmd = Command {
        command: b("!give"),
        description: b("gives a thing"),
        aliases: vec![b("!g")],
        args: ExampleArgs::parse(b"<what>").unwrap(),
    };
    assert!(commands.add(b("stuff"), b("give"), cmd));
    match help(&commands, None) {
        HelpReply::ListCommands { commands: cs } => assert_eq!(cs, b("!give !g")),
        _ => panic!("expected the listing"),
    }
    match help(&commands, Some(&b("!g"))) {
        HelpReply::SpecificCommand { command, usage, description, aliases } => {
            assert_eq!(command, b("!give"));
            assert_eq!(usage, b("<what> "));
            assert_eq!(description, b("gives a thing"));
            assert_eq!(aliases, b("!g"));
        }
        _ => panic!("expected the description"),
    }
    match help(&commands, Some(&b("!nope"))) {
        HelpReply::UnknownCommand { command } => assert_eq!(command, b("!nope")),
        _ => panic!("expected the unknown reply"),
    }
}

#[test]
fn user_defined_store_follows_the_rules() {
    let mut store = UdStore::new_empty();
    assert!(matches!(
        add_command(&mut store, false, b"!hi", b"hello"),
        UdReply::NeedsPermission
    ));
    assert!(matches!(
        add_command(&mut store, true, b"!hi", b"   "),
        UdReply::BodyEmpty
    ));
    assert!(matches!(
        add_command(&mut store, true, b"hi", b"hello"),
        UdReply::MustStartWithBang
    ));
    assert!(matches!(
        add_command(&mut store, true, b"!hi", b"hello"),
        UdReply::Added { .. }
    ));
    assert!(matches!(
        add_command(&mut store, true, b"!hi", b"again"),
        UdReply::Exists { .. }
    ));
    match update_command(&mut store, true, b"!hi", b"hey") {
        UdReply::Updated { command, body } => {
            assert_eq!(command, b("!hi"));
            assert_eq!(body, b("hey"));
        }
        _ => panic!("expected an update"),
    }
    assert!(matches!(
        update_command(&mut store, true, b"!absent", b"x"),
        UdReply::NotFound { .. }
    ));
    assert_eq!(store.find_use(b"!hi"), Some(b("hey")));
    assert_eq!(store.map[0].uses, 1);
    assert_eq!(store.find_use(b"!absent"), None);
    let names = store.get_all_names();
    assert_eq!(names, vec![b("!hi")]);
    match remove_command(&mut store, true, b"!hi") {
        UdReply::Removed { command, body } => {
            assert_eq!(command, b("!hi"));
            assert_eq!(body, b("hey"));
        }
        _ => panic!("expected a removal"),
    }
    assert!(matches!(
        remove_command(&mut store, true, b"!hi"),
        UdReply::NotFound { .. }
    ));
}

#[test]
fn greetings_ignore_case_and_punctuation() {
    let g = Greetings { list: vec![b("Hello"), b("hey")] };
    assert!(g.contains(b"HELLO"));
    assert!(!g.contains(b"yo"));
    let got = g.say_hello(b"hello!").expect("should greet back");
    assert!(got == b("Hello") || got == b("hey"));
    assert!(g.say_hello(b"goodbye").is_none());
    let empty = Greetings { list: vec![] };
    assert_eq!(empty.choose_greeting(), b("hello"));
}

#[test]
fn mentions_are_spotted_per_token() {
    assert!(try_mention(b"@shakey how are you"));
    assert!(try_mention(b"well shaken_bot knows"));
    assert!(!try_mention(b"hello world"));
}

#[test]
fn chatter_gate_needs_enable_and_cooldown() {
    assert!(should_respond(true, false, None, 60));
    assert!(should_respond(true, false, Some(61), 60));
    assert!(!should_respond(true, false, Some(59), 60));
    assert!(!should_respond(false, false, None, 60));
    assert!(!should_respond(true, true, None, 60));
}

#[test]
fn kappa_picks_a_known_emote() {
    let emotes = EmoteMap::new_empty().with_emote(b("Kappa"), b("25"));
    let got = try_kappa(&emotes, b"hello Kappa world").expect("should find the emote");
    assert_eq!(got, b("Kappa"));
    assert!(try_kappa(&emotes, b"hello world").is_none());
}

#[test]
fn emote_map_looks_up_both_ways() {
    let emotes = EmoteMap::new_empty()
        .with_emote(b("Kappa"), b("25"))
        .with_emote(b("PogChamp"), b("88"));
    assert_eq!(emotes.get_id(b"Kappa"), Some(&b("25")));
    assert_eq!(emotes.get_name(b"88"), Some(&b("PogChamp")));
    assert!(emotes.has(b"Kappa"));
    assert!(!emotes.has(b"Nope"));
    let names = emotes.names();
    assert_eq!(names, vec![b("Kappa"), b("PogChamp")]);
}

#[test]
fn crate_reply_fills_fallbacks() {
    match crate_reply(b"serde", None) {
        CrateReply::NotFound { query } => assert_eq!(query, b("serde")),
        _ => panic!("expected not-found"),
    }
    let info = CrateInfo {
        name: b("serde"),
        max_version: b("1.0.0"),
        description: Some(b(" a\nframework ")),
        documentation: None,
        repository: None,
        exact_match: true,
        updated_secs_ago: 3600,
    };
    match crate_reply(b"serde", Some(info)) {
        CrateReply::Found { name, version, description, docs, repo, updated, best_match } => {
            assert_eq!(name, b("serde"));
            assert_eq!(version, b("1.0.0"));
            assert_eq!(description, b("a framework"));
            assert_eq!(docs, b("https://docs.rs/serde"));
            assert_eq!(repo, b("no repository"));
            assert_eq!(updated, b("1 hour"));
            assert!(!best_match);
        }
        _ => panic!("expected a found reply"),
    }
}

#[test]
fn stream_replies_show_uptime_and_viewers() {
    assert_eq!(channel_of(None, b"#chan"), b("chan"));
    assert_eq!(channel_of(Some(&b("other")), b"#chan"), b("other"));
    let s = Stream {
        id: 1,
        user_id: 2,
        user_name: b("museun"),
        game_id: 3,
        title: b("coding"),
        viewer_count: 7,
        started_at: 100,
    };
    match uptime_reply(b"chan", Some(&s), 3700) {
        TwitchReply::Uptime { name, uptime } => {
            assert_eq!(name, b("museun"));
            assert_eq!(uptime, b("1 hour"));
        }
        _ => panic!("expected an uptime reply"),
    }
    match viewers_reply(b"chan", Some(&s)) {
        TwitchReply::Viewers { name, viewers } => {
            assert_eq!(name, b("museun"));
            assert_eq!(viewers, 7);
        }
        _ => panic!("expected a viewers reply"),
    }
    assert!(matches!(
        uptime_reply(b"chan", None, 0),
        TwitchReply::NotStreaming { .. }
    ));
}

#[test]
fn queue_keeps_its_bound() {
    let mut q: Queue<u32> = Queue::with_size(3);
    assert!(q.last().is_none());
    assert!(q.previous().is_none());
    q.push(1);
    assert_eq!(q.previous(), Some(&1));
    q.push(2);
    q.push(3);
    q.push(4);
    assert_eq!(q.queue, vec![2, 3, 4]);
    assert_eq!(q.last(), Some(&4));
    assert_eq!(q.previous(), Some(&3));
}

fn song(id: &str, title: &str) -> Song {
    Song { id: b(id), artist: b("artist"), title: b(title), link: b("link") }
}

#[test]
fn repeated_songs_are_noted_once() {
    let mut seen: Queue<Song> = Queue::with_size(10);
    note_song(&mut seen, song("1", "first"));
    note_song(&mut seen, song("1", "first again"));
    note_song(&mut seen, song("2", "second"));
    assert_eq!(seen.queue.len(), 2);
    assert_eq!(seen.queue[0].title, b("first"));
    assert_eq!(seen.last().unwrap().id, b("2"));
    assert_eq!(seen.previous().unwrap().id, b("1"));
}

#[test]
fn secrets_show_only_their_key() {
    let s = Secret::new_key_value(b("API_KEY"), b("SECRET-REDACTED"));
    assert_eq!(s.show_key(), b("API_KEY"));
    assert_eq!(s.into_value(), b("SECRET-REDACTED"));
    let s = Secret::new_key(b("OTHER"));
    assert_eq!(s.into_value(), b(""));
}

#[test]
fn replies_keep_their_mode() {
    let r: Reply<u32> = Reply::Reply(5);
    assert_eq!(*r.inner(), 5);
    let mapped = r.map(|v| v + 1);
    match mapped {
        Reply::Reply(v) => assert_eq!(v, 6),
        _ => panic!("the mode should be kept"),
    }
    let t: Reply<Option<u32>> = Reply::Problem(Some(9));
    match t.transpose() {
        Some(Reply::Problem(v)) => assert_eq!(v, 9),
        _ => panic!("the mode should be kept"),
    }
    let n: Reply<Option<u32>> = Reply::Say(None);
    assert!(n.transpose().is_none());
    let o = Outcome::Failure(b("boom"));
    assert!(o.is_error());
    assert_eq!(o.into_error(), Some(b("boom")));
    assert!(Outcome::Task.is_task());
}
