//! The audio output, driven through `wpctl`.

use crate::components::components::{pair, percent_argument, spec_level_body, spec_percent, with,
    Invocation, InvocationView, Notice, NoticeView, Request, RequestView, SETTLE_DELAY};
use crate::text::{contains, spec_contains, strings_view};
use vstd::prelude::*;
use vstd::string::StringExecFns;

verus! {

/// The audio output.
pub struct Volume;

/// A request to the audio output.
#[derive(Clone, Copy, Debug, PartialEq, Eq, Structural)]
pub enum VolumeOp {
    /// Increase by a percentage.
    Up { percent: u32 },
    /// Decrease by a percentage.
    Down { percent: u32 },
    /// Set to a percentage.
    SetTo { percent: u32 },
    /// Toggle mute.
    Mute,
    /// Show and announce the state as it is.
    Update,
}

/// The state of the audio output, as it is shown.
#[derive(Debug)]
pub struct VolumeState {
    pub value: u32,
    pub muted: bool,
    pub working: bool,
    pub icon: String,
}

/// The name by which `wpctl` knows the default output.
pub open spec fn spec_sink() -> Seq<char> {
    "@DEFAULT_AUDIO_SINK@"@
}

/// The icon of an audio output: crossed out where it does not work or is
/// muted; else one of three, for a level of 40 and more, of 20 and more,
/// and below.
pub open spec fn spec_volume_icon(value: u32, muted: bool, working: bool) -> Seq<char> {
    if !working || muted {
        "\u{f075f} "@
    } else if value >= 40 {
        "\u{f057e} "@
    } else if value >= 20 {
        "\u{f0580} "@
    } else {
        "\u{f057f} "@
    }
}

/// The arguments of `wpctl` for `operation`. A change of the level names
/// the output and the change, `N%+` to go up, `N%-` to go down, `N%` to
/// set; going up and setting are limited to the full level.
pub open spec fn spec_volume_arguments(operation: VolumeOp) -> Option<Seq<Seq<char>>> {
    match operation {
        VolumeOp::Up { percent } => Some(
            seq!["set-volume"@, spec_sink(), spec_percent(""@, percent, "%+"@), "-l"@, "1"@],
        ),
        VolumeOp::Down { percent } => Some(
            seq!["set-volume"@, spec_sink(), spec_percent(""@, percent, "%-"@)],
        ),
        VolumeOp::SetTo { percent } => Some(
            seq!["set-volume"@, spec_sink(), spec_percent(""@, percent, "%"@), "-l"@, "1"@],
        ),
        VolumeOp::Mute => Some(seq!["set-mute"@, spec_sink(), "toggle"@]),
        VolumeOp::Update => None,
    }
}

/// What `operation` comes to on an output that is muted or not. A muted
/// output does not change its level; muting is always carried out; after
/// either the state is read at once. An update runs nothing and reads the
/// state after the settle delay.
pub open spec fn spec_volume_request(operation: VolumeOp, muted: bool) -> RequestView {
    match operation {
        VolumeOp::Update => RequestView { command: None, delay: SETTLE_DELAY },
        VolumeOp::Mute => RequestView {
            command: Some(
                InvocationView {
                    program: "wpctl"@,
                    args: spec_volume_arguments(operation)->Some_0,
                },
            ),
            delay: 0,
        },
        _ => if muted {
            RequestView { command: None, delay: 0 }
        } else {
            RequestView {
                command: Some(
                    InvocationView {
                        program: "wpctl"@,
                        args: spec_volume_arguments(operation)->Some_0,
                    },
                ),
                delay: 0,
            }
        },
    }
}

/// The notification that announces the state of an output.
pub open spec fn spec_volume_notice(value: u32, muted: bool, working: bool) -> NoticeView {
    if !working {
        NoticeView { summary: "Volume"@, body: "No output"@, value: None }
    } else if muted {
        NoticeView { summary: "Volume"@, body: "Muted"@, value: None }
    } else {
        NoticeView { summary: "Volume"@, body: spec_level_body(value), value: Some(value) }
    }
}

impl Volume {
    /// Whether the output works: `wpctl get-volume` reports no error.
    pub fn working(errors: &[u8]) -> (res: bool)
        ensures
            res == (errors@.len() == 0),
    {
        errors.len() == 0
    }

    /// Whether the output is muted: `wpctl get-volume` prints `MUTED`.
    pub fn muted(output: &str) -> (res: bool)
        ensures
            res == spec_contains(output@, "MUTED"@),
    {
        contains(output, "MUTED")
    }

    /// The request that toggles mute.
    pub fn mute() -> (res: Request)
        ensures
            res@ == spec_volume_request(VolumeOp::Mute, false),
    {
        let args = with(pair("set-mute", "@DEFAULT_AUDIO_SINK@"), "toggle");
        proof {
            assert(strings_view(args@) =~= seq!["set-mute"@, spec_sink(), "toggle"@]);
        }
        Request { command: Some(Invocation::new("wpctl", args)), delay: 0 }
    }

    /// What `operation` comes to; `muted` says whether the output is muted now.
    pub fn handle(operation: VolumeOp, muted: bool) -> (res: Request)
        ensures
            res@ == spec_volume_request(operation, muted),
    {
        let (change, limited) = match operation {
            VolumeOp::Up { percent } => (percent_argument("", percent, "%+"), true),
            VolumeOp::Down { percent } => (percent_argument("", percent, "%-"), false),
            VolumeOp::SetTo { percent } => (percent_argument("", percent, "%"), true),
            VolumeOp::Mute => {
                return Self::mute();
            },
            VolumeOp::Update => {
                return Request { command: None, delay: SETTLE_DELAY };
            },
        };
        if muted {
            return Request { command: None, delay: 0 };
        }
        let mut args = with(pair("set-volume", "@DEFAULT_AUDIO_SINK@"), change.as_str());
        if limited {
            args = with(with(args, "-l"), "1");
        }
        proof {
            assert(strings_view(args@) =~= spec_volume_arguments(operation)->Some_0);
        }
        Request { command: Some(Invocation::new("wpctl", args)), delay: 0 }
    }
}

impl VolumeState {
    /// The state of an output at `value` percent.
    pub fn new(value: u32, muted: bool, working: bool) -> (res: Self)
        ensures
            res.value == value,
            res.muted == muted,
            res.working == working,
            res.icon@ == spec_volume_icon(value, muted, working),
    {
        let icon = if !working || muted {
            "\u{f075f} "
        } else if value >= 40 {
            "\u{f057e} "
        } else if value >= 20 {
            "\u{f0580} "
        } else {
            "\u{f057f} "
        };
        VolumeState { value, muted, working, icon: String::from_str(icon) }
    }

    /// The name of the status view's variable that holds this state.
    pub fn json_name(&self) -> (res: &'static str)
        ensures
            res@ == "volume-json"@,
    {
        "volume-json"
    }

    /// The notification that announces this state.
    pub fn notify(&self) -> (res: Notice)
        ensures
            res@ == spec_volume_notice(self.value, self.muted, self.working),
    {
        if !self.working {
            Notice::plain("Volume", "No output")
        } else if self.muted {
            Notice::plain("Volume", "Muted")
        } else {
            Notice::level("Volume", self.value)
        }
    }
}

} // verus!
