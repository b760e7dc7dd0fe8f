//! The audio input, driven through `amixer`.

use crate::components::components::{pair, percent_argument, spec_level_body, spec_percent, with,
    Invocation, InvocationView, Notice, NoticeView, Request, RequestView, SETTLE_DELAY};
use crate::text::{parse_u32, same_text, spec_parse_u32, spec_trim, strings_view, trim};
use regex::Regex;
use vstd::prelude::*;
use vstd::string::StringExecFns;

verus! {

/// The error type of `regex`.
#[verifier::external_type_specification]
#[verifier::external_body]
pub struct ExRegexError(regex::Error);

/// The audio input.
pub struct Microphone;

/// A request to the audio input.
#[derive(Clone, Copy, Debug, PartialEq, Eq, Structural)]
pub enum MicrophoneOp {
    /// Increase by a percentage.
    Up { percent: u32 },
    /// Decrease by a percentage.
    Down { percent: u32 },
    /// Set to a percentage.
    SetTo { percent: u32 },
    /// Toggle mute.
    Mute,
    /// Show and announce the state as it is.
    Update,
}

/// The state of the audio input, as it is shown.
#[derive(Debug)]
pub struct MicrophoneState {
    pub value: u32,
    pub working: bool,
    pub muted: bool,
    pub icon: String,
}

/// Why the state of the input could not be read.
#[derive(Clone, Copy, Debug, PartialEq, Eq, Structural)]
pub enum MicrophoneError {
    /// The pattern that reads the report is not accepted.
    Pattern,
    /// The report of `amixer` holds no line with a level and a switch.
    InvalidOutput,
    /// The level in the report is no number.
    InvalidLevel,
}

/// The pattern of the line of the report that holds the level, in percent,
/// and the switch, each in square brackets.
pub open spec fn spec_pattern() -> Seq<char> {
    "(?m)^.* \\[(?<percent>\\d+)%\\] \\[(?<mute>.*)\\]$"@
}

/// What the groups named `first` and `second` hold in the first match of
/// the regular expression `pattern` in `text`, as `regex` finds it: the
/// outer value is missing where `regex` does not accept the pattern, the
/// inner one where there is no match or one of the groups took no part in it.
pub uninterp spec fn regex_groups(
    pattern: Seq<char>,
    first: Seq<char>,
    second: Seq<char>,
    text: Seq<char>,
) -> Option<Option<(Seq<char>, Seq<char>)>>;

/// Compiles `pattern` with `Regex::new`, looks for its first match in `text`
/// with `Regex::captures`, and hands out the texts of the groups named
/// `first` and `second` (`Captures::name`).
#[verifier::external_body]
fn captures(pattern: &str, first: &str, second: &str, text: &str) -> (res: Result<
    Option<(String, String)>,
    regex::Error,
>)
    ensures
        match res {
            Ok(Some(pair)) => regex_groups(pattern@, first@, second@, text@) == Some(
                Some((pair.0@, pair.1@)),
            ),
            Ok(None) => regex_groups(pattern@, first@, second@, text@) == Some(
                None::<(Seq<char>, Seq<char>)>,
            ),
            Err(_) => regex_groups(pattern@, first@, second@, text@) is None,
        },
{
    let re = Regex::new(pattern)?;
    Ok(
        re.captures(text).and_then(
            |c| Some((c.name(first)?.as_str().to_owned(), c.name(second)?.as_str().to_owned())),
        ),
    )
}

/// The icon of an audio input: crossed out where it does not work or is muted.
pub open spec fn spec_microphone_icon(working: bool, muted: bool) -> Seq<char> {
    if !working || muted {
        "\u{f036d} "@
    } else {
        "\u{f036e} "@
    }
}

/// The arguments of `amixer` for `operation`.
pub open spec fn spec_microphone_arguments(operation: MicrophoneOp) -> Option<Seq<Seq<char>>> {
    match operation {
        MicrophoneOp::Up { percent } => Some(
            seq!["sset"@, "Capture"@, spec_percent(""@, percent, "%+"@)],
        ),
        MicrophoneOp::Down { percent } => Some(
            seq!["sset"@, "Capture"@, spec_percent(""@, percent, "%-"@)],
        ),
        MicrophoneOp::SetTo { percent } => Some(
            seq!["sset"@, "Capture"@, spec_percent(""@, percent, "%"@)],
        ),
        MicrophoneOp::Mute => Some(seq!["-D"@, "pulse"@, "set"@, "Capture"@, "1+"@, "toggle"@]),
        MicrophoneOp::Update => None,
    }
}

/// What `operation` comes to on an input that is muted or not. A muted
/// input does not change its level; muting is always carried out; after
/// either the state is read at once. An update runs nothing and reads the
/// state after the settle delay.
pub open spec fn spec_microphone_request(operation: MicrophoneOp, muted: bool) -> RequestView {
    match operation {
        MicrophoneOp::Update => RequestView { command: None, delay: SETTLE_DELAY },
        MicrophoneOp::Mute => RequestView {
            command: Some(
                InvocationView {
                    program: "amixer"@,
                    args: spec_microphone_arguments(operation)->Some_0,
                },
            ),
            delay: 0,
        },
        _ => if muted {
            RequestView { command: None, delay: 0 }
        } else {
            RequestView {
                command: Some(
                    InvocationView {
                        program: "amixer"@,
                        args: spec_microphone_arguments(operation)->Some_0,
                    },
                ),
                delay: 0,
            }
        },
    }
}

/// The state that the level and the switch of a report stand for. The
/// input is muted unless the switch, without the white space around it, is
/// `on`; the level must be a number.
pub open spec fn spec_state_from(levels: Option<(Seq<char>, Seq<char>)>) -> Result<
    (bool, u32),
    MicrophoneError,
> {
    match levels {
        None => Err(MicrophoneError::InvalidOutput),
        Some((percent, switch)) => match spec_parse_u32(spec_trim(percent)) {
            None => Err(MicrophoneError::InvalidLevel),
            Some(value) => Ok((spec_trim(switch) != "on"@, value)),
        },
    }
}

/// The state of an input, as whether it works, whether it is muted, and
/// its level. `found` is what the pattern found in the report of an input
/// that works.
pub open spec fn spec_get_state(
    working: bool,
    found: Option<Option<(Seq<char>, Seq<char>)>>,
) -> Result<(bool, bool, u32), MicrophoneError> {
    if !working {
        Ok((false, false, 0))
    } else {
        match found {
            None => Err(MicrophoneError::Pattern),
            Some(levels) => match spec_state_from(levels) {
                Ok((muted, value)) => Ok((true, muted, value)),
                Err(e) => Err(e),
            },
        }
    }
}

/// The notification that announces the state of an input.
pub open spec fn spec_microphone_notice(value: u32, muted: bool, working: bool) -> NoticeView {
    if !working {
        NoticeView { summary: "Microphone"@, body: "No output"@, value: None }
    } else if muted {
        NoticeView { summary: "Microhone"@, body: "Muted"@, value: None }
    } else {
        NoticeView { summary: "Microphone"@, body: spec_level_body(value), value: Some(value) }
    }
}

impl Microphone {
    /// Whether the input works: `amixer get Capture` reports no error.
    pub fn working(errors: &[u8]) -> (res: bool)
        ensures
            res == (errors@.len() == 0),
    {
        errors.len() == 0
    }

    /// The request that toggles mute.
    pub fn mute() -> (res: Request)
        ensures
            res@ == spec_microphone_request(MicrophoneOp::Mute, false),
    {
        let args = with(with(with(with(pair("-D", "pulse"), "set"), "Capture"), "1+"), "toggle");
        proof {
            assert(strings_view(args@) =~= seq![
                "-D"@,
                "pulse"@,
                "set"@,
                "Capture"@,
                "1+"@,
                "toggle"@,
            ]);
        }
        Request { command: Some(Invocation::new("amixer", args)), delay: 0 }
    }

    /// What `operation` comes to; `muted` says whether the input is muted now.
    pub fn handle(operation: MicrophoneOp, muted: bool) -> (res: Request)
        ensures
            res@ == spec_microphone_request(operation, muted),
    {
        let change = match operation {
            MicrophoneOp::Up { percent } => percent_argument("", percent, "%+"),
            MicrophoneOp::Down { percent } => percent_argument("", percent, "%-"),
            MicrophoneOp::SetTo { percent } => percent_argument("", percent, "%"),
            MicrophoneOp::Mute => {
                return Self::mute();
            },
            MicrophoneOp::Update => {
                return Request { command: None, delay: SETTLE_DELAY };
            },
        };
        if muted {
            return Request { command: None, delay: 0 };
        }
        let args = with(pair("sset", "Capture"), change.as_str());
        proof {
            assert(strings_view(args@) =~= spec_microphone_arguments(operation)->Some_0);
        }
        Request { command: Some(Invocation::new("amixer", args)), delay: 0 }
    }

    /// The state that the level and the switch found in a report stand for.
    pub fn state_from(levels: Option<(String, String)>) -> (res: Result<
        MicrophoneState,
        MicrophoneError,
    >)
        ensures
            match res {
                Ok(state) => spec_state_from(levels_view(levels)) == Ok::<
                    (bool, u32),
                    MicrophoneError,
                >((state.muted, state.value)) && state.working && state.icon@
                    == spec_microphone_icon(true, state.muted),
                Err(e) => spec_state_from(levels_view(levels)) == Err::<
                    (bool, u32),
                    MicrophoneError,
                >(e),
            },
    {
        match levels {
            None => Err(MicrophoneError::InvalidOutput),
            Some((percent, switch)) => {
                match parse_u32(trim(percent.as_str()).as_str()) {
                    None => Err(MicrophoneError::InvalidLevel),
                    Some(value) => {
                        let on = same_text(trim(switch.as_str()).as_str(), "on");
                        Ok(MicrophoneState::new(true, !on, value))
                    },
                }
            },
        }
    }

    /// The state of the input. `working` says whether `amixer get Capture`
    /// reported no error, and `output` is what it printed. An input that
    /// does not work is at level 0 and not muted; for one that works the
    /// line with the level and the switch is looked for in `output`.
    pub fn get_state(working: bool, output: &str) -> (res: Result<MicrophoneState, MicrophoneError>)
        ensures
            match res {
                Ok(state) => spec_get_state(
                    working,
                    regex_groups(spec_pattern(), "percent"@, "mute"@, output@),
                ) == Ok::<(bool, bool, u32), MicrophoneError>(
                    (state.working, state.muted, state.value),
                ) && state.icon@ == spec_microphone_icon(state.working, state.muted),
                Err(e) => spec_get_state(
                    working,
                    regex_groups(spec_pattern(), "percent"@, "mute"@, output@),
                ) == Err::<(bool, bool, u32), MicrophoneError>(e),
            },
    {
        if !working {
            return Ok(MicrophoneState::new(false, false, 0));
        }
        match captures(
            "(?m)^.* \\[(?<percent>\\d+)%\\] \\[(?<mute>.*)\\]$",
            "percent",
            "mute",
            output,
        ) {
            Err(_) => Err(MicrophoneError::Pattern),
            Ok(levels) => Self::state_from(levels),
        }
    }
}

/// The view of the level and the switch of a report.
pub open spec fn levels_view(levels: Option<(String, String)>) -> Option<(Seq<char>, Seq<char>)> {
    match levels {
        Some(pair) => Some((pair.0@, pair.1@)),
        None => None,
    }
}

impl MicrophoneState {
    /// The state of an input at `value` percent.
    pub fn new(working: bool, muted: bool, value: u32) -> (res: Self)
        ensures
            res.value == value,
            res.muted == muted,
            res.working == working,
            res.icon@ == spec_microphone_icon(working, muted),
    {
        let icon = if !working || muted {
            "\u{f036d} "
        } else {
            "\u{f036e} "
        };
        MicrophoneState { value, working, muted, icon: String::from_str(icon) }
    }

    /// The name of the status view's variable that holds this state.
    pub fn json_name(&self) -> (res: &'static str)
        ensures
            res@ == "microphone-json"@,
    {
        "microphone-json"
    }

    /// The notification that announces this state.
    pub fn notify(&self) -> (res: Notice)
        ensures
            res@ == spec_microphone_notice(self.value, self.muted, self.working),
    {
        if !self.working {
            Notice::plain("Microphone", "No output")
        } else if self.muted {
            Notice::plain("Microhone", "Muted")
        } else {
            Notice::level("Microphone", self.value)
        }
    }
}

} // verus!
