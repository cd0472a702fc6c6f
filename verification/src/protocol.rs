//! The command protocol: the command surface offered over the daemon's
//! socket, its textual grammar, and the handler that applies one decoded
//! command line to the daemon state.
//!
//! Grammar (keywords matched without regard to ASCII case, tokens separated
//! by whitespace):
//! `next | prev | stop | mode linear | mode random | mode static [PATH] |
//! fallback | interval SECONDS | get wallpaper | get duration | get mode |
//! get fallback`.
//! Anything else draws the response "I do not understand" and changes
//! nothing.

use vstd::prelude::*;
use crate::state::{
    BackendMsg, ChangeImageDirection, NextImage, State, StateView, spec_change_image_rel,
    spec_save, spec_update,
};
use crate::history::spec_push;
use crate::text::{
    eq_ignore_case, lemma_dec_value_of_u64_string, lemma_digits_are_not_spaces,
    lemma_tokens_single_word, lemma_tokens_word_then, lemma_u64_string_all_digits, parse_u64,
    spec_dec_value, spec_digits_of, spec_is_dec, spec_is_space, spec_lower, spec_tokens,
    spec_u64_string, tokenize, u64_to_string,
};

verus! {

/// What a `get` command asks for.
#[derive(Debug, Clone, Copy, PartialEq, Eq, Structural)]
pub enum GetArgs {
    Wallpaper,
    Duration,
    Mode,
    Fallback,
}

/// The optional explicit image of `mode static`.
#[derive(Debug, Clone)]
pub struct Image {
    pub path: Option<String>,
}

/// The argument of a `mode` command.
#[derive(Debug, Clone)]
pub enum ModeArgs {
    Linear,
    Random,
    Static(Image),
}

/// The argument of an `interval` command, in whole seconds.
#[derive(Debug, Clone, Copy, PartialEq, Eq, Structural)]
pub struct IntervalDuration {
    pub duration: u64,
}

/// One decoded command.
#[derive(Debug, Clone)]
pub enum Command {
    /// Show the next image.
    Next,
    /// Exit the daemon.
    Stop,
    /// Show the previous image.
    Previous,
    /// Set the mode.
    Mode(ModeArgs),
    /// Show the fallback wallpaper; called again, return to the previous
    /// image.
    Fallback,
    /// Set the interval between automatic image changes, in seconds.
    Interval(IntervalDuration),
    /// Query the current state.
    Get(GetArgs),
}

/// Model of a [`Command`], with every path a plain character sequence.
pub enum CommandView {
    Next,
    Stop,
    Previous,
    ModeLinear,
    ModeRandom,
    ModeStatic(Option<Seq<char>>),
    Fallback,
    Interval(u64),
    Get(GetArgs),
}

impl View for Command {
    type V = CommandView;

    open spec fn view(&self) -> CommandView {
        match self {
            Command::Next => CommandView::Next,
            Command::Stop => CommandView::Stop,
            Command::Previous => CommandView::Previous,
            Command::Mode(m) => match m {
                ModeArgs::Linear => CommandView::ModeLinear,
                ModeArgs::Random => CommandView::ModeRandom,
                ModeArgs::Static(img) => CommandView::ModeStatic(img.path.deep_view()),
            },
            Command::Fallback => CommandView::Fallback,
            Command::Interval(d) => CommandView::Interval(d.duration),
            Command::Get(g) => CommandView::Get(*g),
        }
    }
}

impl DeepView for Command {
    type V = CommandView;

    open spec fn deep_view(&self) -> CommandView {
        self@
    }
}

/// The `mode ...` productions.
pub open spec fn spec_parse_mode(toks: Seq<Seq<char>>) -> Option<CommandView> {
    if toks.len() < 2 {
        None
    } else {
        let t1 = spec_lower(toks[1]);
        if t1 == "linear"@ && toks.len() == 2 {
            Some(CommandView::ModeLinear)
        } else if t1 == "random"@ && toks.len() == 2 {
            Some(CommandView::ModeRandom)
        } else if t1 == "static"@ {
            if toks.len() == 2 {
                Some(CommandView::ModeStatic(None))
            } else if toks.len() == 3 {
                Some(CommandView::ModeStatic(Some(toks[2])))
            } else {
                None
            }
        } else {
            None
        }
    }
}

/// The `interval SECONDS` production: seconds as a plain decimal that fits a
/// `u64`, with an optional leading plus sign.
pub open spec fn spec_parse_interval(toks: Seq<Seq<char>>) -> Option<CommandView> {
    if toks.len() == 2 && spec_is_dec(spec_digits_of(toks[1])) && spec_dec_value(
        spec_digits_of(toks[1]),
    ) <= u64::MAX as int {
        Some(CommandView::Interval(spec_dec_value(spec_digits_of(toks[1])) as u64))
    } else {
        None
    }
}

/// The `get ...` productions.
pub open spec fn spec_parse_get(toks: Seq<Seq<char>>) -> Option<CommandView> {
    if toks.len() != 2 {
        None
    } else {
        let t1 = spec_lower(toks[1]);
        if t1 == "wallpaper"@ {
            Some(CommandView::Get(GetArgs::Wallpaper))
        } else if t1 == "duration"@ {
            Some(CommandView::Get(GetArgs::Duration))
        } else if t1 == "mode"@ {
            Some(CommandView::Get(GetArgs::Mode))
        } else if t1 == "fallback"@ {
            Some(CommandView::Get(GetArgs::Fallback))
        } else {
            None
        }
    }
}

/// The whole command grammar, over the line's tokens.
pub open spec fn spec_parse(s: Seq<char>) -> Option<CommandView> {
    let toks = spec_tokens(s);
    if toks.len() == 0 {
        None
    } else {
        let t0 = spec_lower(toks[0]);
        if t0 == "next"@ {
            if toks.len() == 1 {
                Some(CommandView::Next)
            } else {
                None
            }
        } else if t0 == "prev"@ {
            if toks.len() == 1 {
                Some(CommandView::Previous)
            } else {
                None
            }
        } else if t0 == "stop"@ {
            if toks.len() == 1 {
                Some(CommandView::Stop)
            } else {
                None
            }
        } else if t0 == "fallback"@ {
            if toks.len() == 1 {
                Some(CommandView::Fallback)
            } else {
                None
            }
        } else if t0 == "mode"@ {
            spec_parse_mode(toks)
        } else if t0 == "interval"@ {
            spec_parse_interval(toks)
        } else if t0 == "get"@ {
            spec_parse_get(toks)
        } else {
            None
        }
    }
}

/// Decode one command line; `None` is anything outside the grammar.
#[verifier::rlimit(50)]
pub fn parse_command(line: &str) -> (r: Option<Command>)
    ensures
        r.deep_view() == spec_parse(line@),
{
    proof {
        reveal_strlit("next");
        reveal_strlit("prev");
        reveal_strlit("stop");
        reveal_strlit("fallback");
        reveal_strlit("mode");
        reveal_strlit("interval");
        reveal_strlit("get");
        reveal_strlit("linear");
        reveal_strlit("random");
        reveal_strlit("static");
        reveal_strlit("wallpaper");
        reveal_strlit("duration");
        assert(spec_lower("next"@) =~= "next"@);
        assert(spec_lower("prev"@) =~= "prev"@);
        assert(spec_lower("stop"@) =~= "stop"@);
        assert(spec_lower("fallback"@) =~= "fallback"@);
        assert(spec_lower("mode"@) =~= "mode"@);
        assert(spec_lower("interval"@) =~= "interval"@);
        assert(spec_lower("get"@) =~= "get"@);
        assert(spec_lower("linear"@) =~= "linear"@);
        assert(spec_lower("random"@) =~= "random"@);
        assert(spec_lower("static"@) =~= "static"@);
        assert(spec_lower("wallpaper"@) =~= "wallpaper"@);
        assert(spec_lower("duration"@) =~= "duration"@);
    }
    let toks = tokenize(line);
    if toks.len() == 0 {
        return None;
    }
    proof {
        assert(toks.deep_view()[0] == toks@[0]@);
    }
    let t0 = &toks[0];
    if eq_ignore_case(t0.as_str(), "next") {
        if toks.len() == 1 {
            Some(Command::Next)
        } else {
            None
        }
    } else if eq_ignore_case(t0.as_str(), "prev") {
        if toks.len() == 1 {
            Some(Command::Previous)
        } else {
            None
        }
    } else if eq_ignore_case(t0.as_str(), "stop") {
        if toks.len() == 1 {
            Some(Command::Stop)
        } else {
            None
        }
    } else if eq_ignore_case(t0.as_str(), "fallback") {
        if toks.len() == 1 {
            Some(Command::Fallback)
        } else {
            None
        }
    } else if eq_ignore_case(t0.as_str(), "mode") {
        if toks.len() < 2 {
            return None;
        }
        proof {
            assert(toks.deep_view()[1] == toks@[1]@);
        }
        let t1 = &toks[1];
        if eq_ignore_case(t1.as_str(), "linear") && toks.len() == 2 {
            Some(Command::Mode(ModeArgs::Linear))
        } else if eq_ignore_case(t1.as_str(), "random") && toks.len() == 2 {
            Some(Command::Mode(ModeArgs::Random))
        } else if eq_ignore_case(t1.as_str(), "static") {
            if toks.len() == 2 {
                Some(Command::Mode(ModeArgs::Static(Image { path: None })))
            } else if toks.len() == 3 {
                proof {
                    assert(toks.deep_view()[2] == toks@[2]@);
                }
                let path = toks[2].clone();
                Some(Command::Mode(ModeArgs::Static(Image { path: Some(path) })))
            } else {
                None
            }
        } else {
            None
        }
    } else if eq_ignore_case(t0.as_str(), "interval") {
        if toks.len() != 2 {
            return None;
        }
        proof {
            assert(toks.deep_view()[1] == toks@[1]@);
        }
        match parse_u64(toks[1].as_str()) {
            Some(v) => Some(Command::Interval(IntervalDuration { duration: v })),
            None => None,
        }
    } else if eq_ignore_case(t0.as_str(), "get") {
        if toks.len() != 2 {
            return None;
        }
        proof {
            assert(toks.deep_view()[1] == toks@[1]@);
        }
        let t1 = &toks[1];
        if eq_ignore_case(t1.as_str(), "wallpaper") {
            Some(Command::Get(GetArgs::Wallpaper))
        } else if eq_ignore_case(t1.as_str(), "duration") {
            Some(Command::Get(GetArgs::Duration))
        } else if eq_ignore_case(t1.as_str(), "mode") {
            Some(Command::Get(GetArgs::Mode))
        } else if eq_ignore_case(t1.as_str(), "fallback") {
            Some(Command::Get(GetArgs::Fallback))
        } else {
            None
        }
    } else {
        None
    }
}

/// The command line a [`Command`] is sent as.
pub open spec fn spec_render(c: CommandView) -> Seq<char> {
    match c {
        CommandView::Next => "next"@,
        CommandView::Stop => "stop"@,
        CommandView::Previous => "prev"@,
        CommandView::ModeLinear => "mode linear"@,
        CommandView::ModeRandom => "mode random"@,
        CommandView::ModeStatic(None) => "mode static"@,
        CommandView::ModeStatic(Some(p)) => "mode static "@ + p,
        CommandView::Fallback => "fallback"@,
        CommandView::Interval(secs) => "interval "@ + spec_u64_string(secs as int),
        CommandView::Get(GetArgs::Wallpaper) => "get wallpaper"@,
        CommandView::Get(GetArgs::Duration) => "get duration"@,
        CommandView::Get(GetArgs::Mode) => "get mode"@,
        CommandView::Get(GetArgs::Fallback) => "get fallback"@,
    }
}

impl Command {
    /// Write this command as the line the daemon parses.
    pub fn to_text(&self) -> (r: String)
        ensures
            r@ == spec_render(self@),
    {
        match self {
            Command::Next => "next".to_owned(),
            Command::Stop => "stop".to_owned(),
            Command::Previous => "prev".to_owned(),
            Command::Mode(m) => match m {
                ModeArgs::Linear => "mode linear".to_owned(),
                ModeArgs::Random => "mode random".to_owned(),
                ModeArgs::Static(img) => match &img.path {
                    None => "mode static".to_owned(),
                    Some(p) => "mode static ".to_owned().concat(p.as_str()),
                },
            },
            Command::Fallback => "fallback".to_owned(),
            Command::Interval(d) => "interval ".to_owned().concat(
                u64_to_string(d.duration).as_str(),
            ),
            Command::Get(GetArgs::Wallpaper) => "get wallpaper".to_owned(),
            Command::Get(GetArgs::Duration) => "get duration".to_owned(),
            Command::Get(GetArgs::Mode) => "get mode".to_owned(),
            Command::Get(GetArgs::Fallback) => "get fallback".to_owned(),
        }
    }
}

/// Read a whole number of seconds, as the interval flag and command do.
pub fn parse_duration(arg: &str) -> (r: Option<IntervalDuration>)
    ensures
        match r {
            Some(d) => spec_is_dec(spec_digits_of(arg@)) && d.duration as int == spec_dec_value(
                spec_digits_of(arg@),
            ),
            None => !(spec_is_dec(spec_digits_of(arg@)) && spec_dec_value(spec_digits_of(arg@))
                <= u64::MAX as int),
        },
{
    match parse_u64(arg) {
        Some(v) => Some(IntervalDuration { duration: v }),
        None => None,
    }
}

/// A path fit to travel as one token of the wire grammar: non-empty, with
/// no separator characters in it.
pub open spec fn spec_path_token(p: Seq<char>) -> bool {
    p.len() > 0 && forall|i: int| 0 <= i < p.len() ==> !spec_is_space(p[i])
}

/// The command keywords are pairwise distinct where the grammar tells them
/// apart by their first word.
proof fn lemma_keywords_distinct()
    ensures
        "prev"@ != "next"@,
        "stop"@ != "next"@,
        "stop"@ != "prev"@,
        "fallback"@ != "next"@,
        "fallback"@ != "prev"@,
        "fallback"@ != "stop"@,
        "mode"@ != "next"@,
        "mode"@ != "prev"@,
        "mode"@ != "stop"@,
        "mode"@ != "fallback"@,
        "interval"@ != "next"@,
        "interval"@ != "prev"@,
        "interval"@ != "stop"@,
        "interval"@ != "fallback"@,
        "interval"@ != "mode"@,
        "get"@ != "next"@,
        "get"@ != "prev"@,
        "get"@ != "stop"@,
        "get"@ != "fallback"@,
        "get"@ != "mode"@,
        "get"@ != "interval"@,
        "random"@ != "linear"@,
        "static"@ != "linear"@,
        "static"@ != "random"@,
        "duration"@ != "wallpaper"@,
        "mode"@ != "wallpaper"@,
        "mode"@ != "duration"@,
        "fallback"@ != "wallpaper"@,
        "fallback"@ != "duration"@,
        "fallback"@ != "mode"@,
{
    reveal_strlit("next");
    reveal_strlit("prev");
    reveal_strlit("stop");
    reveal_strlit("fallback");
    reveal_strlit("mode");
    reveal_strlit("interval");
    reveal_strlit("get");
    reveal_strlit("linear");
    reveal_strlit("random");
    reveal_strlit("static");
    reveal_strlit("wallpaper");
    reveal_strlit("duration");
    assert("next"@[0] == 'n' && "prev"@[0] == 'p' && "stop"@[0] == 's' && "fallback"@[0] == 'f'
        && "mode"@[0] == 'm' && "interval"@[0] == 'i' && "get"@[0] == 'g' && "linear"@[0] == 'l'
        && "random"@[0] == 'r' && "static"@[0] == 's' && "wallpaper"@[0] == 'w'
        && "duration"@[0] == 'd');
}

/// The keywords of the grammar are already lower case, and none holds a
/// separator.
proof fn lemma_keywords_plain()
    ensures
        spec_lower("next"@) == "next"@,
        spec_lower("prev"@) == "prev"@,
        spec_lower("stop"@) == "stop"@,
        spec_lower("fallback"@) == "fallback"@,
        spec_lower("mode"@) == "mode"@,
        spec_lower("interval"@) == "interval"@,
        spec_lower("get"@) == "get"@,
        spec_lower("linear"@) == "linear"@,
        spec_lower("random"@) == "random"@,
        spec_lower("static"@) == "static"@,
        spec_lower("wallpaper"@) == "wallpaper"@,
        spec_lower("duration"@) == "duration"@,
        spec_path_token("next"@),
        spec_path_token("prev"@),
        spec_path_token("stop"@),
        spec_path_token("fallback"@),
        spec_path_token("mode"@),
        spec_path_token("interval"@),
        spec_path_token("get"@),
        spec_path_token("linear"@),
        spec_path_token("random"@),
        spec_path_token("static"@),
        spec_path_token("wallpaper"@),
        spec_path_token("duration"@),
{
    reveal_strlit("next");
    reveal_strlit("prev");
    reveal_strlit("stop");
    reveal_strlit("fallback");
    reveal_strlit("mode");
    reveal_strlit("interval");
    reveal_strlit("get");
    reveal_strlit("linear");
    reveal_strlit("random");
    reveal_strlit("static");
    reveal_strlit("wallpaper");
    reveal_strlit("duration");
    assert(spec_lower("next"@) =~= "next"@);
    assert(spec_lower("prev"@) =~= "prev"@);
    assert(spec_lower("stop"@) =~= "stop"@);
    assert(spec_lower("fallback"@) =~= "fallback"@);
    assert(spec_lower("mode"@) =~= "mode"@);
    assert(spec_lower("interval"@) =~= "interval"@);
    assert(spec_lower("get"@) =~= "get"@);
    assert(spec_lower("linear"@) =~= "linear"@);
    assert(spec_lower("random"@) =~= "random"@);
    assert(spec_lower("static"@) =~= "static"@);
    assert(spec_lower("wallpaper"@) =~= "wallpaper"@);
    assert(spec_lower("duration"@) =~= "duration"@);
}

/// Law: a command written by [`Command::to_text`] parses back to the very
/// same command, provided a static image path travels as one token.  This
/// ties the control client's writer to the daemon's reader.
#[verifier::rlimit(100)]
pub proof fn lemma_render_then_parse_round_trip(c: CommandView)
    requires
        c matches CommandView::ModeStatic(Some(p)) ==> spec_path_token(p),
    ensures
        spec_parse(spec_render(c)) == Some(c),
{
    lemma_keywords_distinct();
    lemma_keywords_plain();
    match c {
        CommandView::Next => {
            lemma_tokens_single_word("next"@);
        }
        CommandView::Stop => {
            lemma_tokens_single_word("stop"@);
        }
        CommandView::Previous => {
            lemma_tokens_single_word("prev"@);
        }
        CommandView::Fallback => {
            lemma_tokens_single_word("fallback"@);
        }
        CommandView::ModeLinear => {
            reveal_strlit("mode linear");
            reveal_strlit("mode");
            reveal_strlit("linear");
            assert("mode linear"@ =~= "mode"@ + seq![' '] + "linear"@);
            lemma_tokens_word_then("mode"@, "linear"@);
            lemma_tokens_single_word("linear"@);
            assert(spec_tokens("mode linear"@) =~= seq!["mode"@, "linear"@]);
        }
        CommandView::ModeRandom => {
            reveal_strlit("mode random");
            reveal_strlit("mode");
            reveal_strlit("random");
            assert("mode random"@ =~= "mode"@ + seq![' '] + "random"@);
            lemma_tokens_word_then("mode"@, "random"@);
            lemma_tokens_single_word("random"@);
            assert(spec_tokens("mode random"@) =~= seq!["mode"@, "random"@]);
        }
        CommandView::ModeStatic(None) => {
            reveal_strlit("mode static");
            reveal_strlit("mode");
            reveal_strlit("static");
            assert("mode static"@ =~= "mode"@ + seq![' '] + "static"@);
            lemma_tokens_word_then("mode"@, "static"@);
            lemma_tokens_single_word("static"@);
            assert(spec_tokens("mode static"@) =~= seq!["mode"@, "static"@]);
        }
        CommandView::ModeStatic(Some(p)) => {
            reveal_strlit("mode static ");
            reveal_strlit("mode");
            reveal_strlit("static");
            assert("mode static "@ + p =~= "mode"@ + seq![' '] + ("static"@ + seq![' '] + p));
            lemma_tokens_word_then("mode"@, "static"@ + seq![' '] + p);
            lemma_tokens_word_then("static"@, p);
            lemma_tokens_single_word(p);
            assert(spec_tokens("mode static "@ + p) =~= seq!["mode"@, "static"@, p]);
        }
        CommandView::Interval(secs) => {
            reveal_strlit("interval ");
            reveal_strlit("interval");
            let ds = spec_u64_string(secs as int);
            lemma_u64_string_all_digits(secs as int);
            lemma_digits_are_not_spaces(ds);
            lemma_dec_value_of_u64_string(secs as int);
            assert("interval "@ + ds =~= "interval"@ + seq![' '] + ds);
            lemma_tokens_word_then("interval"@, ds);
            lemma_tokens_single_word(ds);
            assert(spec_tokens("interval "@ + ds) =~= seq!["interval"@, ds]);
            assert(ds[0] != '+');
            assert(spec_digits_of(ds) == ds);
            assert(spec_is_dec(ds));
        }
        CommandView::Get(g) => {
            reveal_strlit("get");
            match g {
                GetArgs::Wallpaper => {
                    reveal_strlit("get wallpaper");
                    reveal_strlit("wallpaper");
                    assert("get wallpaper"@ =~= "get"@ + seq![' '] + "wallpaper"@);
                    lemma_tokens_word_then("get"@, "wallpaper"@);
                    lemma_tokens_single_word("wallpaper"@);
                    assert(spec_tokens("get wallpaper"@) =~= seq!["get"@, "wallpaper"@]);
                }
                GetArgs::Duration => {
                    reveal_strlit("get duration");
                    reveal_strlit("duration");
                    assert("get duration"@ =~= "get"@ + seq![' '] + "duration"@);
                    lemma_tokens_word_then("get"@, "duration"@);
                    lemma_tokens_single_word("duration"@);
                    assert(spec_tokens("get duration"@) =~= seq!["get"@, "duration"@]);
                }
                GetArgs::Mode => {
                    reveal_strlit("get mode");
                    reveal_strlit("mode");
                    assert("get mode"@ =~= "get"@ + seq![' '] + "mode"@);
                    lemma_tokens_word_then("get"@, "mode"@);
                    lemma_tokens_single_word("mode"@);
                    assert(spec_tokens("get mode"@) =~= seq!["get"@, "mode"@]);
                }
                GetArgs::Fallback => {
                    reveal_strlit("get fallback");
                    reveal_strlit("fallback");
                    assert("get fallback"@ =~= "get"@ + seq![' '] + "fallback"@);
                    lemma_tokens_word_then("get"@, "fallback"@);
                    lemma_tokens_single_word("fallback"@);
                    assert(spec_tokens("get fallback"@) =~= seq!["get"@, "fallback"@]);
                }
            }
        }
    }
}

/// The answer a `get` command draws from state `s`.
pub open spec fn spec_get_response(s: StateView, g: GetArgs) -> Seq<char> {
    match g {
        GetArgs::Wallpaper => s.history.current(),
        GetArgs::Duration => spec_u64_string(s.change_interval as int),
        GetArgs::Mode => match s.action {
            NextImage::Linear => "Linear"@,
            NextImage::Static => "Static"@,
            NextImage::Random => "Random"@,
        },
        GetArgs::Fallback => if s.use_fallback {
            "true"@
        } else {
            "false"@
        },
    }
}

/// What one handled command leaves behind: the response to write back,
/// whether the daemon must stop accepting connections, and the backend
/// messages to deliver, if the command changed the displayed image.
pub struct Reply {
    pub response: String,
    pub stop: bool,
    pub plan: Option<Vec<BackendMsg>>,
}

/// Apply one command line to the daemon state and produce the reply.
///
/// The caller reads the framed line and the image-directory listing, holds
/// the one state lock across this call, then writes `response`, delivers
/// `plan` to the backend, and stops accepting connections when `stop` is set.
pub fn handle_message(state: &mut State, line: &str, listing: &Vec<String>) -> (r: Reply)
    requires
        old(state).wf(),
    ensures
        final(state).wf(),
        match spec_parse(line@) {
            None => final(state)@ == old(state)@ && !r.stop && r.response@
                == "I do not understand"@ && r.plan is None,
            Some(c) => {
                &&& r.stop == (c == CommandView::Stop)
                &&& match c {
                    CommandView::Next => spec_change_image_rel(
                        old(state)@,
                        final(state)@,
                        ChangeImageDirection::Next,
                        listing.deep_view(),
                        r.plan is Some,
                    ) && r.response@ == Seq::<char>::empty(),
                    CommandView::Previous => spec_change_image_rel(
                        old(state)@,
                        final(state)@,
                        ChangeImageDirection::Previous,
                        listing.deep_view(),
                        r.plan is Some,
                    ) && r.response@ == Seq::<char>::empty(),
                    CommandView::Stop => final(state)@ == old(state)@ && r.plan is None
                        && r.response@ == Seq::<char>::empty(),
                    CommandView::ModeLinear => final(state)@ == (StateView {
                        action: NextImage::Linear,
                        ..old(state)@
                    }) && r.plan is None && r.response@ == Seq::<char>::empty(),
                    CommandView::ModeRandom => final(state)@ == (StateView {
                        action: NextImage::Random,
                        ..old(state)@
                    }) && r.plan is None && r.response@ == Seq::<char>::empty(),
                    CommandView::ModeStatic(None) => final(state)@ == (StateView {
                        action: NextImage::Static,
                        ..old(state)@
                    }) && r.plan is None && r.response@ == Seq::<char>::empty(),
                    CommandView::ModeStatic(Some(p)) => final(state)@ == (StateView {
                        action: NextImage::Static,
                        history: spec_push(old(state)@.history, p),
                        ..old(state)@
                    }) && (r.plan matches Some(pl) && pl.deep_view() == spec_update(
                        final(state)@,
                    )) && r.response@ == Seq::<char>::empty(),
                    CommandView::Fallback => final(state)@ == spec_save(old(state)@) && (
                    r.plan matches Some(pl) && pl.deep_view() == spec_update(final(state)@))
                        && r.response@ == Seq::<char>::empty(),
                    CommandView::Interval(secs) => final(state)@ == (StateView {
                        change_interval: secs,
                        ..old(state)@
                    }) && r.plan is None && r.response@ == Seq::<char>::empty(),
                    CommandView::Get(g) => final(state)@ == old(state)@ && r.plan is None
                        && r.response@ == spec_get_response(old(state)@, g),
                }
            }
        },
{
    let cmd = parse_command(line);
    match cmd {
        None => Reply {
            response: "I do not understand".to_owned(),
            stop: false,
            plan: None,
        },
        Some(c) => match c {
            Command::Next => {
                let plan = state.change_image(ChangeImageDirection::Next, listing);
                Reply { response: String::new(), stop: false, plan }
            }
            Command::Previous => {
                let plan = state.change_image(ChangeImageDirection::Previous, listing);
                Reply { response: String::new(), stop: false, plan }
            }
            Command::Stop => Reply { response: String::new(), stop: true, plan: None },
            Command::Mode(m) => match m {
                ModeArgs::Linear => {
                    let plan = state.update_action(NextImage::Linear, None);
                    Reply { response: String::new(), stop: false, plan }
                }
                ModeArgs::Random => {
                    let plan = state.update_action(NextImage::Random, None);
                    Reply { response: String::new(), stop: false, plan }
                }
                ModeArgs::Static(img) => {
                    let plan = state.update_action(NextImage::Static, img.path);
                    Reply { response: String::new(), stop: false, plan }
                }
            },
            Command::Fallback => {
                let plan = state.save();
                Reply { response: String::new(), stop: false, plan: Some(plan) }
            }
            Command::Interval(d) => {
                state.change_interval(d.duration);
                Reply { response: String::new(), stop: false, plan: None }
            }
            Command::Get(g) => {
                let response = match g {
                    GetArgs::Wallpaper => state.get_current_image().clone(),
                    GetArgs::Duration => u64_to_string(state.get_change_interval()),
                    GetArgs::Mode => match state.get_action() {
                        NextImage::Linear => "Linear".to_owned(),
                        NextImage::Static => "Static".to_owned(),
                        NextImage::Random => "Random".to_owned(),
                    },
                    GetArgs::Fallback => if state.get_fallback() {
                        "true".to_owned()
                    } else {
                        "false".to_owned()
                    },
                };
                Reply { response, stop: false, plan: None }
            }
        },
    }
}

} // verus!
