//! An older, terser textual command surface kept for clients that still
//! speak it.  A message is lowercased whole, split at single spaces, and only
//! its first two fields are read.

use vstd::prelude::*;
use crate::text::{
    char_pos, parse_u64, spec_char_pos, spec_dec_value, spec_digits_of, spec_is_dec, spec_lower,
    str_eq, to_lower,
};

verus! {

/// What the terse `get` form asks for.
#[derive(Debug, Clone, Copy, PartialEq, Eq, Structural)]
pub enum MessageArgs {
    Wallpaper,
    Action,
    Duration,
}

/// The terse grammar for a `get` argument.
pub open spec fn spec_parse_message_args(s: Seq<char>) -> Option<MessageArgs> {
    let low = spec_lower(s);
    if low == "wallpaper"@ || low == "wp"@ {
        Some(MessageArgs::Wallpaper)
    } else if low == "action"@ || low == "ac"@ {
        Some(MessageArgs::Action)
    } else if low == "duration"@ || low == "dur"@ {
        Some(MessageArgs::Duration)
    } else {
        None
    }
}

impl MessageArgs {
    /// Read one terse `get` argument, without regard to ASCII case.
    pub fn try_from(value: &str) -> (r: Result<MessageArgs, &'static str>)
        ensures
            match r {
                Ok(m) => spec_parse_message_args(value@) == Some(m),
                Err(e) => spec_parse_message_args(value@) is None && e@ == "Not recognized"@,
            },
    {
        proof {
            reveal_strlit("wallpaper");
            reveal_strlit("wp");
            reveal_strlit("action");
            reveal_strlit("ac");
            reveal_strlit("duration");
            reveal_strlit("dur");
        }
        let low = to_lower(value);
        if str_eq(low.as_str(), "wallpaper") || str_eq(low.as_str(), "wp") {
            Ok(MessageArgs::Wallpaper)
        } else if str_eq(low.as_str(), "action") || str_eq(low.as_str(), "ac") {
            Ok(MessageArgs::Action)
        } else if str_eq(low.as_str(), "duration") || str_eq(low.as_str(), "dur") {
            Ok(MessageArgs::Duration)
        } else {
            Err("Not recognized")
        }
    }
}

/// One terse command.
#[derive(Debug, Clone)]
pub enum Args {
    Help,
    Stop,
    Next,
    Prev,
    RNG,
    Linear,
    Hold(Option<String>),
    Update,
    Save,
    Shuffle,
    Interval(u64),
    Get(MessageArgs),
}

/// Model of an [`Args`]: the held path as a plain character sequence.
pub enum ArgsView {
    Help,
    Stop,
    Next,
    Prev,
    RNG,
    Linear,
    Hold(Option<Seq<char>>),
    Update,
    Save,
    Shuffle,
    Interval(u64),
    Get(MessageArgs),
}

impl View for Args {
    type V = ArgsView;

    open spec fn view(&self) -> ArgsView {
        match self {
            Args::Help => ArgsView::Help,
            Args::Stop => ArgsView::Stop,
            Args::Next => ArgsView::Next,
            Args::Prev => ArgsView::Prev,
            Args::RNG => ArgsView::RNG,
            Args::Linear => ArgsView::Linear,
            Args::Hold(p) => ArgsView::Hold(p.deep_view()),
            Args::Update => ArgsView::Update,
            Args::Save => ArgsView::Save,
            Args::Shuffle => ArgsView::Shuffle,
            Args::Interval(d) => ArgsView::Interval(*d),
            Args::Get(m) => ArgsView::Get(*m),
        }
    }
}

/// The first field of `s` split at single spaces, and the second if a space
/// occurs at all (the second field may be empty).
pub open spec fn spec_first_two(s: Seq<char>) -> (Seq<char>, Option<Seq<char>>) {
    match spec_char_pos(s, ' ') {
        None => (s, None),
        Some(i) => {
            let rest = s.skip(i + 1);
            let second = match spec_char_pos(rest, ' ') {
                None => rest,
                Some(j) => rest.take(j),
            };
            (s.take(i), Some(second))
        }
    }
}

/// Split off the first two space-separated fields of `s`.
fn split_first_two(s: &str) -> (r: (String, Option<String>))
    ensures
        r.0@ == spec_first_two(s@).0,
        r.1.deep_view() == spec_first_two(s@).1,
{
    match char_pos(s, ' ') {
        None => (s.to_owned(), None),
        Some(i) => {
            let n = s.unicode_len();
            let first = s.substring_char(0, i).to_owned();
            let rest = s.substring_char(i + 1, n);
            proof {
                assert(first@ =~= s@.take(i as int));
                assert(rest@ =~= s@.skip(i as int + 1));
            }
            let second = match char_pos(rest, ' ') {
                None => rest.to_owned(),
                Some(j) => {
                    let sec = rest.substring_char(0, j);
                    proof {
                        assert(sec@ =~= rest@.take(j as int));
                    }
                    sec.to_owned()
                }
            };
            (first, Some(second))
        }
    }
}

/// The seconds a terse `interval` message sets: its second field read as a
/// decimal with an optional leading plus sign, or sixty when that field is
/// missing or unreadable.
pub open spec fn spec_interval_seconds(second: Option<Seq<char>>) -> u64 {
    match second {
        Some(t) => if spec_is_dec(spec_digits_of(t)) && spec_dec_value(spec_digits_of(t))
            <= u64::MAX as int {
            spec_dec_value(spec_digits_of(t)) as u64
        } else {
            60
        },
        None => 60,
    }
}

/// The whole terse grammar, over the lowercased message.
pub open spec fn spec_parse_args(s: Seq<char>) -> Option<ArgsView> {
    let low = spec_lower(s);
    let first = spec_first_two(low).0;
    let second = spec_first_two(low).1;
    if first == "stop"@ {
        Some(ArgsView::Stop)
    } else if first == "next"@ {
        Some(ArgsView::Next)
    } else if first == "prev"@ {
        Some(ArgsView::Prev)
    } else if first == "rng"@ {
        Some(ArgsView::RNG)
    } else if first == "linear"@ || first == "lin"@ {
        Some(ArgsView::Linear)
    } else if first == "hold"@ {
        Some(ArgsView::Hold(second))
    } else if first == "update"@ {
        Some(ArgsView::Update)
    } else if first == "save"@ {
        Some(ArgsView::Save)
    } else if first == "shuffle"@ || first == "shl"@ {
        Some(ArgsView::Shuffle)
    } else if first == "interval"@ || first == "int"@ {
        Some(ArgsView::Interval(spec_interval_seconds(second)))
    } else if first == "get"@ {
        match second {
            Some(t) => {
                if t == "ac"@ || t == "action"@ {
                    Some(ArgsView::Get(MessageArgs::Action))
                } else if t == "dur"@ || t == "duration"@ {
                    Some(ArgsView::Get(MessageArgs::Duration))
                } else if t == "wp"@ || t == "wallpaper"@ {
                    Some(ArgsView::Get(MessageArgs::Wallpaper))
                } else {
                    None
                }
            }
            None => None,
        }
    } else if first == "help"@ {
        Some(ArgsView::Help)
    } else {
        None
    }
}

impl Args {
    /// Read one terse command, without regard to ASCII case.
    #[verifier::rlimit(50)]
    pub fn try_from(value: &str) -> (r: Result<Args, &'static str>)
        ensures
            match r {
                Ok(a) => spec_parse_args(value@) == Some(a@),
                Err(e) => spec_parse_args(value@) is None && e@ == "Not recognized"@,
            },
    {
        proof {
            reveal_strlit("stop");
            reveal_strlit("next");
            reveal_strlit("prev");
            reveal_strlit("rng");
            reveal_strlit("linear");
            reveal_strlit("lin");
            reveal_strlit("hold");
            reveal_strlit("update");
            reveal_strlit("save");
            reveal_strlit("shuffle");
            reveal_strlit("shl");
            reveal_strlit("interval");
            reveal_strlit("int");
            reveal_strlit("get");
            reveal_strlit("help");
            reveal_strlit("ac");
            reveal_strlit("action");
            reveal_strlit("dur");
            reveal_strlit("duration");
            reveal_strlit("wp");
            reveal_strlit("wallpaper");
        }
        let low = to_lower(value);
        let (first, second) = split_first_two(low.as_str());
        if str_eq(first.as_str(), "stop") {
            Ok(Args::Stop)
        } else if str_eq(first.as_str(), "next") {
            Ok(Args::Next)
        } else if str_eq(first.as_str(), "prev") {
            Ok(Args::Prev)
        } else if str_eq(first.as_str(), "rng") {
            Ok(Args::RNG)
        } else if str_eq(first.as_str(), "linear") || str_eq(first.as_str(), "lin") {
            Ok(Args::Linear)
        } else if str_eq(first.as_str(), "hold") {
            Ok(Args::Hold(second))
        } else if str_eq(first.as_str(), "update") {
            Ok(Args::Update)
        } else if str_eq(first.as_str(), "save") {
            Ok(Args::Save)
        } else if str_eq(first.as_str(), "shuffle") || str_eq(first.as_str(), "shl") {
            Ok(Args::Shuffle)
        } else if str_eq(first.as_str(), "interval") || str_eq(first.as_str(), "int") {
            let seconds = match &second {
                Some(t) => match parse_u64(t.as_str()) {
                    Some(v) => v,
                    None => 60,
                },
                None => 60,
            };
            Ok(Args::Interval(seconds))
        } else if str_eq(first.as_str(), "get") {
            match &second {
                Some(t) => {
                    if str_eq(t.as_str(), "ac") || str_eq(t.as_str(), "action") {
                        Ok(Args::Get(MessageArgs::Action))
                    } else if str_eq(t.as_str(), "dur") || str_eq(t.as_str(), "duration") {
                        Ok(Args::Get(MessageArgs::Duration))
                    } else if str_eq(t.as_str(), "wp") || str_eq(t.as_str(), "wallpaper") {
                        Ok(Args::Get(MessageArgs::Wallpaper))
                    } else {
                        Err("Not recognized")
                    }
                }
                None => Err("Not recognized"),
            }
        } else if str_eq(first.as_str(), "help") {
            Ok(Args::Help)
        } else {
            Err("Not recognized")
        }
    }
}

} // verus!
