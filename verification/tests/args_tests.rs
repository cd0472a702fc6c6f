use wallpaperd::args::{Args, MessageArgs};

fn s(x: &str) -> String {
    x.to_string()
}

#[test]
fn message_args_accept_long_and_short_forms() {
    assert!(matches!(MessageArgs::try_from("wallpaper"), Ok(MessageArgs::Wallpaper)));
    assert!(matches!(MessageArgs::try_from("wp"), Ok(MessageArgs::Wallpaper)));
    assert!(matches!(MessageArgs::try_from("action"), Ok(MessageArgs::Action)));
    assert!(matches!(MessageArgs::try_from("AC"), Ok(MessageArgs::Action)));
    assert!(matches!(MessageArgs::try_from("Duration"), Ok(MessageArgs::Duration)));
    assert!(matches!(MessageArgs::try_from("dur"), Ok(MessageArgs::Duration)));
}

#[test]
fn message_args_reject_anything_else() {
    match MessageArgs::try_from("nope") {
        Err(e) => assert_eq!(e, "Not recognized"),
        Ok(_) => panic!("accepted an unknown argument"),
    }
    assert!(MessageArgs::try_from("").is_err());
    assert!(MessageArgs::try_from("wallpapers").is_err());
}

#[test]
fn args_accept_plain_words() {
    assert!(matches!(Args::try_from("stop"), Ok(Args::Stop)));
    assert!(matches!(Args::try_from("next"), Ok(Args::Next)));
    assert!(matches!(Args::try_from("prev"), Ok(Args::Prev)));
    assert!(matches!(Args::try_from("rng"), Ok(Args::RNG)));
    assert!(matches!(Args::try_from("linear"), Ok(Args::Linear)));
    assert!(matches!(Args::try_from("lin"), Ok(Args::Linear)));
    assert!(matches!(Args::try_from("update"), Ok(Args::Update)));
    assert!(matches!(Args::try_from("save"), Ok(Args::Save)));
    assert!(matches!(Args::try_from("shuffle"), Ok(Args::Shuffle)));
    assert!(matches!(Args::try_from("SHL"), Ok(Args::Shuffle)));
    assert!(matches!(Args::try_from("Help"), Ok(Args::Help)));
}

#[test]
fn args_hold_carries_an_optional_lowercased_path() {
    match Args::try_from("hold /Pics/One.png") {
        Ok(Args::Hold(p)) => assert_eq!(p, Some(s("/pics/one.png"))),
        other => panic!("unexpected parse: {:?}", other),
    }
    assert!(matches!(Args::try_from("hold"), Ok(Args::Hold(None))));
}

#[test]
fn args_interval_defaults_to_sixty() {
    assert!(matches!(Args::try_from("interval 5"), Ok(Args::Interval(5))));
    assert!(matches!(Args::try_from("INT 120"), Ok(Args::Interval(120))));
    assert!(matches!(Args::try_from("interval +7"), Ok(Args::Interval(7))));
    assert!(matches!(Args::try_from("interval"), Ok(Args::Interval(60))));
    assert!(matches!(Args::try_from("interval soon"), Ok(Args::Interval(60))));
    assert!(matches!(Args::try_from("interval "), Ok(Args::Interval(60))));
}

#[test]
fn args_get_requires_a_known_subject() {
    assert!(matches!(Args::try_from("get ac"), Ok(Args::Get(MessageArgs::Action))));
    assert!(matches!(Args::try_from("get action"), Ok(Args::Get(MessageArgs::Action))));
    assert!(matches!(Args::try_from("get dur"), Ok(Args::Get(MessageArgs::Duration))));
    assert!(matches!(Args::try_from("get duration"), Ok(Args::Get(MessageArgs::Duration))));
    assert!(matches!(Args::try_from("get wp"), Ok(Args::Get(MessageArgs::Wallpaper))));
    assert!(matches!(Args::try_from("GET Wallpaper"), Ok(Args::Get(MessageArgs::Wallpaper))));
    assert!(Args::try_from("get").is_err());
    assert!(Args::try_from("get everything").is_err());
}

#[test]
fn args_reject_unknown_words() {
    match Args::try_from("bogus") {
        Err(e) => assert_eq!(e, "Not recognized"),
        Ok(_) => panic!("accepted an unknown command"),
    }
    assert!(Args::try_from("").is_err());
}
