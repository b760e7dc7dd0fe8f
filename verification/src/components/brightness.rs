//! The backlight, driven through `brightnessctl`.

use crate::components::components::{pair, percent_argument, spec_percent, Invocation, InvocationView,
    Notice, NoticeView, Request, RequestView, spec_level_body, SETTLE_DELAY};
use crate::text::{parse_u32, spec_parse_u32, spec_trim, trim};
use vstd::prelude::*;
use vstd::string::StringExecFns;

verus! {

/// The backlight.
pub struct Brightness;

/// A request to the backlight.
#[derive(Clone, Copy, Debug, PartialEq, Eq, Structural)]
pub enum BrightnessOp {
    /// Increase by a percentage.
    Up { percent: u32 },
    /// Decrease by a percentage.
    Down { percent: u32 },
    /// Set to a percentage.
    SetTo { percent: u32 },
    /// Show and announce the state as it is.
    Update,
}

/// The state of the backlight, as it is shown.
#[derive(Debug)]
pub struct BrightnessState {
    pub value: u32,
    pub icon: String,
}

/// The icon that stands for a brightness of `value` percent: one of nine,
/// from the dimmest for less than 12 to the brightest for 89 and more.
pub open spec fn spec_brightness_icon(value: u32) -> Seq<char> {
    if value >= 89 {
        "\u{e39b} "@
    } else if value >= 78 {
        "\u{e3c8} "@
    } else if value >= 67 {
        "\u{e3ca} "@
    } else if value >= 56 {
        "\u{e3cd} "@
    } else if value >= 45 {
        "\u{e3ce} "@
    } else if value >= 34 {
        "\u{e3cf} "@
    } else if value >= 23 {
        "\u{e3d1} "@
    } else if value >= 12 {
        "\u{e3d3} "@
    } else {
        "\u{e38d} "@
    }
}

/// The argument that tells `brightnessctl` the change that `operation` asks
/// for: `+N%` to go up, `N%-` to go down, `N%` to set.
pub open spec fn spec_brightness_argument(operation: BrightnessOp) -> Option<Seq<char>> {
    match operation {
        BrightnessOp::Up { percent } => Some(spec_percent("+"@, percent, "%"@)),
        BrightnessOp::Down { percent } => Some(spec_percent(""@, percent, "%-"@)),
        BrightnessOp::SetTo { percent } => Some(spec_percent(""@, percent, "%"@)),
        BrightnessOp::Update => None,
    }
}

/// What `operation` comes to: a change is a call of `brightnessctl set`,
/// after which the state is read at once; an update runs nothing and reads
/// the state after the settle delay.
pub open spec fn spec_brightness_request(operation: BrightnessOp) -> RequestView {
    match spec_brightness_argument(operation) {
        Some(argument) => RequestView {
            command: Some(
                InvocationView { program: "brightnessctl"@, args: seq!["set"@, argument] },
            ),
            delay: 0,
        },
        None => RequestView { command: None, delay: SETTLE_DELAY },
    }
}

impl Brightness {
    /// What `operation` comes to.
    pub fn handle(operation: BrightnessOp) -> (res: Request)
        ensures
            res@ == spec_brightness_request(operation),
    {
        let argument = match operation {
            BrightnessOp::Up { percent } => percent_argument("+", percent, "%"),
            BrightnessOp::Down { percent } => percent_argument("", percent, "%-"),
            BrightnessOp::SetTo { percent } => percent_argument("", percent, "%"),
            BrightnessOp::Update => {
                return Request { command: None, delay: SETTLE_DELAY };
            },
        };
        let command = Invocation::new("brightnessctl", pair("set", argument.as_str()));
        Request { command: Some(command), delay: 0 }
    }

    /// The highest raw value of the backlight, read from what
    /// `brightnessctl max` prints: a number with white space around it.
    pub fn max(output: &str) -> (res: Option<u32>)
        ensures
            res == spec_parse_u32(spec_trim(output@)),
    {
        parse_u32(trim(output).as_str())
    }
}

impl BrightnessState {
    /// The state of a backlight at `value` percent.
    pub fn new(value: u32) -> (res: Self)
        ensures
            res.value == value,
            res.icon@ == spec_brightness_icon(value),
    {
        let icon = if value >= 89 {
            "\u{e39b} "
        } else if value >= 78 {
            "\u{e3c8} "
        } else if value >= 67 {
            "\u{e3ca} "
        } else if value >= 56 {
            "\u{e3cd} "
        } else if value >= 45 {
            "\u{e3ce} "
        } else if value >= 34 {
            "\u{e3cf} "
        } else if value >= 23 {
            "\u{e3d1} "
        } else if value >= 12 {
            "\u{e3d3} "
        } else {
            "\u{e38d} "
        };
        BrightnessState { value, icon: String::from_str(icon) }
    }

    /// The name of the status view's variable that holds this state.
    pub fn json_name(&self) -> (res: &'static str)
        ensures
            res@ == "brightness-json"@,
    {
        "brightness-json"
    }

    /// The notification that announces this state.
    pub fn notify(&self) -> (res: Notice)
        ensures
            res@ == (NoticeView {
                summary: "Brightness"@,
                body: spec_level_body(self.value),
                value: Some(self.value),
            }),
    {
        Notice::level("Brightness", self.value)
    }
}

} // verus!
