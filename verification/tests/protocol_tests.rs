use wallpaperd::protocol::{
    parse_command, parse_duration, handle_message, Command, GetArgs, ModeArgs,
};
use wallpaperd::state::{NextImage, State, WallpaperMethod};

fn s(x: &str) -> String {
    x.to_string()
}

fn listing(names: &[&str]) -> Vec<String> {
    names.iter().map(|n| n.to_string()).collect()
}

fn fresh_state() -> State {
    State::new(60, s("/pics"), s("a"), NextImage::Linear, WallpaperMethod::Feh, 25)
}

#[test]
fn parses_bare_commands() {
    assert!(matches!(parse_command("next"), Some(Command::Next)));
    assert!(matches!(parse_command("prev"), Some(Command::Previous)));
    assert!(matches!(parse_command("stop"), Some(Command::Stop)));
    assert!(matches!(parse_command("fallback"), Some(Command::Fallback)));
}

#[test]
fn keywords_ignore_case_and_whitespace() {
    assert!(matches!(parse_command("  NEXT  "), Some(Command::Next)));
    assert!(matches!(parse_command("\tStop\n"), Some(Command::Stop)));
    assert!(matches!(
        parse_command("MODE  Random"),
        Some(Command::Mode(ModeArgs::Random))
    ));
}

#[test]
fn parses_mode_commands() {
    assert!(matches!(
        parse_command("mode linear"),
        Some(Command::Mode(ModeArgs::Linear))
    ));
    assert!(matches!(
        parse_command("mode random"),
        Some(Command::Mode(ModeArgs::Random))
    ));
    match parse_command("mode static") {
        Some(Command::Mode(ModeArgs::Static(img))) => assert_eq!(img.path, None),
        other => panic!("unexpected parse: {:?}", other),
    }
}

#[test]
fn static_mode_path_keeps_its_case() {
    match parse_command("MODE STATIC /Pics/Sunset.PNG") {
        Some(Command::Mode(ModeArgs::Static(img))) => {
            assert_eq!(img.path, Some(s("/Pics/Sunset.PNG")))
        }
        other => panic!("unexpected parse: {:?}", other),
    }
}

#[test]
fn parses_interval_seconds() {
    match parse_command("interval 90") {
        Some(Command::Interval(d)) => assert_eq!(d.duration, 90),
        other => panic!("unexpected parse: {:?}", other),
    }
    match parse_command("interval 18446744073709551615") {
        Some(Command::Interval(d)) => assert_eq!(d.duration, u64::MAX),
        other => panic!("unexpected parse: {:?}", other),
    }
    // A leading plus sign is accepted, as a plain u64 read would.
    match parse_command("interval +5") {
        Some(Command::Interval(d)) => assert_eq!(d.duration, 5),
        other => panic!("unexpected parse: {:?}", other),
    }
}

#[test]
fn rejects_bad_interval_arguments() {
    assert!(parse_command("interval").is_none());
    assert!(parse_command("interval abc").is_none());
    assert!(parse_command("interval 12x").is_none());
    assert!(parse_command("interval -5").is_none());
    assert!(parse_command("interval +").is_none());
    assert!(parse_command("interval ++5").is_none());
    // One past u64::MAX.
    assert!(parse_command("interval 18446744073709551616").is_none());
    assert!(parse_command("interval 1 2").is_none());
}

#[test]
fn parses_get_commands() {
    assert!(matches!(
        parse_command("get wallpaper"),
        Some(Command::Get(GetArgs::Wallpaper))
    ));
    assert!(matches!(
        parse_command("get duration"),
        Some(Command::Get(GetArgs::Duration))
    ));
    assert!(matches!(parse_command("get mode"), Some(Command::Get(GetArgs::Mode))));
    assert!(matches!(
        parse_command("GET Fallback"),
        Some(Command::Get(GetArgs::Fallback))
    ));
}

#[test]
fn rejects_unknown_or_malformed_text() {
    assert!(parse_command("").is_none());
    assert!(parse_command("   ").is_none());
    assert!(parse_command("frobnicate").is_none());
    assert!(parse_command("next please").is_none());
    assert!(parse_command("mode").is_none());
    assert!(parse_command("mode sideways").is_none());
    assert!(parse_command("mode static a b").is_none());
    assert!(parse_command("get").is_none());
    assert!(parse_command("get color").is_none());
    assert!(parse_command("get mode now").is_none());
}

#[test]
fn rendering_and_parsing_agree() {
    let cmds = vec![
        Command::Next,
        Command::Stop,
        Command::Previous,
        Command::Mode(ModeArgs::Linear),
        Command::Mode(ModeArgs::Random),
        Command::Get(GetArgs::Wallpaper),
        Command::Get(GetArgs::Duration),
        Command::Get(GetArgs::Mode),
        Command::Get(GetArgs::Fallback),
        Command::Fallback,
    ];
    for c in cmds {
        let text = c.to_text();
        let back = parse_command(&text);
        assert_eq!(format!("{:?}", back), format!("{:?}", Some(c)));
    }
    assert_eq!(Command::Mode(ModeArgs::Linear).to_text(), s("mode linear"));
    let pinned = Command::Mode(ModeArgs::Static(wallpaperd::protocol::Image {
        path: Some(s("/Pics/One.png")),
    }));
    assert_eq!(pinned.to_text(), s("mode static /Pics/One.png"));
    match parse_command(&pinned.to_text()) {
        Some(Command::Mode(ModeArgs::Static(img))) => {
            assert_eq!(img.path, Some(s("/Pics/One.png")))
        }
        other => panic!("unexpected parse: {:?}", other),
    }
    match parse_command(&Command::Interval(
        wallpaperd::protocol::IntervalDuration { duration: 90 },
    ).to_text()) {
        Some(Command::Interval(d)) => assert_eq!(d.duration, 90),
        other => panic!("unexpected parse: {:?}", other),
    }
}

#[test]
fn parse_duration_reads_plain_seconds() {
    assert_eq!(parse_duration("0").map(|d| d.duration), Some(0));
    assert_eq!(parse_duration("3600").map(|d| d.duration), Some(3600));
    assert_eq!(parse_duration("+3").map(|d| d.duration), Some(3));
    assert!(parse_duration("+").is_none());
    assert!(parse_duration("").is_none());
    assert!(parse_duration("12s").is_none());
    assert!(parse_duration("18446744073709551616").is_none());
}

#[test]
fn unknown_command_text_draws_the_stock_response() {
    let mut st = fresh_state();
    let dir = listing(&["a", "b"]);
    let reply = handle_message(&mut st, "frobnicate", &dir);
    assert_eq!(reply.response, s("I do not understand"));
    assert!(!reply.stop);
    assert!(reply.plan.is_none());
    assert_eq!(st.get_current_image(), &s("a"));
    assert_eq!(st.get_action(), NextImage::Linear);
    assert_eq!(st.get_change_interval(), 60);
}

#[test]
fn handled_commands_mutate_state_and_answer() {
    let mut st = fresh_state();
    let dir = listing(&["a", "b", "c"]);

    let reply = handle_message(&mut st, "next", &dir);
    assert_eq!(reply.response, s(""));
    assert!(!reply.stop);
    assert!(reply.plan.is_some());
    assert_eq!(st.get_current_image(), &s("b"));

    let reply = handle_message(&mut st, "prev", &dir);
    assert!(reply.plan.is_some());
    assert_eq!(st.get_current_image(), &s("a"));

    let reply = handle_message(&mut st, "interval 30", &dir);
    assert!(reply.plan.is_none());
    assert_eq!(st.get_change_interval(), 30);

    let reply = handle_message(&mut st, "get duration", &dir);
    assert_eq!(reply.response, s("30"));

    let reply = handle_message(&mut st, "get wallpaper", &dir);
    assert_eq!(reply.response, s("a"));

    let reply = handle_message(&mut st, "get mode", &dir);
    assert_eq!(reply.response, s("Linear"));

    let reply = handle_message(&mut st, "get fallback", &dir);
    assert_eq!(reply.response, s("false"));

    let reply = handle_message(&mut st, "mode static /pinned.png", &dir);
    assert!(reply.plan.is_some());
    assert_eq!(st.get_action(), NextImage::Static);
    assert_eq!(st.get_current_image(), &s("/pinned.png"));

    let reply = handle_message(&mut st, "fallback", &dir);
    assert!(reply.plan.is_some());
    assert!(st.get_fallback());
    assert_eq!(st.get_current_image(), &s("a"));
    let reply2 = handle_message(&mut st, "get fallback", &dir);
    assert_eq!(reply2.response, s("true"));

    let reply = handle_message(&mut st, "stop", &dir);
    assert!(reply.stop);
    assert_eq!(reply.response, s(""));
}

#[test]
fn get_duration_renders_large_values_exactly() {
    let mut st = State::new(
        18446744073709551615,
        s("/pics"),
        s("a"),
        NextImage::Linear,
        WallpaperMethod::Feh,
        25,
    );
    let reply = handle_message(&mut st, "get duration", &Vec::new());
    assert_eq!(reply.response, s("18446744073709551615"));
}
