//! The wireless network, driven through `nmcli`.

use crate::components::components::{pair, with, Invocation, InvocationView, Notice, NoticeView};
use crate::search::{first_match, lemma_first_match_unique};
use crate::text::{lemma_join_split, lines, parse_u32, same_text, spec_lines, spec_parse_u32,
    spec_split, split, strings_view};
use vstd::prelude::*;
use vstd::string::StringExecFns;

verus! {

/// The wireless network.
pub struct Wifi;

/// The two ways to turn the radio.
#[derive(Clone, Copy, Debug, PartialEq, Eq, Structural)]
pub enum WifiTurnType {
    On,
    Off,
}

/// The state of the wireless network, as it is shown.
#[derive(Debug, Eq)]
pub struct WifiState {
    pub enable: bool,
    pub active: bool,
    pub ssid: String,
    pub icon: String,
}

/// The mathematical value of a [`WifiState`].
pub struct WifiStateView {
    pub enable: bool,
    pub active: bool,
    pub ssid: Seq<char>,
    pub icon: Seq<char>,
}

impl View for WifiState {
    type V = WifiStateView;

    open spec fn view(&self) -> WifiStateView {
        WifiStateView {
            enable: self.enable,
            active: self.active,
            ssid: self.ssid@,
            icon: self.icon@,
        }
    }
}

impl PartialEq for WifiState {
    fn eq(&self, other: &Self) -> (res: bool) {
        self.enable == other.enable && self.active == other.active && self.ssid == other.ssid
            && self.icon == other.icon
    }
}

impl vstd::std_specs::cmp::PartialEqSpecImpl for WifiState {
    open spec fn obeys_eq_spec() -> bool {
        true
    }

    open spec fn eq_spec(&self, other: &Self) -> bool {
        self@ == other@
    }
}

/// The icon of a network: crossed out where there is no connection; else
/// one of four by the strength of the signal, for 75 and more, 50 and more,
/// 25 and more, and below.
pub open spec fn spec_wifi_icon(active: bool, signal: u32) -> Seq<char> {
    if !active {
        "\u{f092d} "@
    } else if signal >= 75 {
        "\u{f0928} "@
    } else if signal >= 50 {
        "\u{f0925} "@
    } else if signal >= 25 {
        "\u{f0922} "@
    } else {
        "\u{f091f} "@
    }
}

/// The state of a network with the given readings.
pub open spec fn spec_wifi_new(enable: bool, active: bool, ssid: Seq<char>, signal: u32) -> WifiStateView {
    WifiStateView { enable, active, ssid, icon: spec_wifi_icon(active, signal) }
}

/// The word that `nmcli` takes for `signal`.
pub open spec fn spec_turn_word(signal: WifiTurnType) -> Seq<char> {
    match signal {
        WifiTurnType::On => "on"@,
        WifiTurnType::Off => "off"@,
    }
}

/// The call of `nmcli` that turns the radio.
pub open spec fn spec_turn(signal: WifiTurnType) -> InvocationView {
    InvocationView { program: "nmcli"@, args: seq!["radio"@, "wifi"@, spec_turn_word(signal)] }
}

/// Whether the line `line` of the list of networks is that of the network
/// in use: its first field, up to the first colon, is `yes`.
pub open spec fn spec_line_active(line: Seq<char>) -> bool {
    spec_split(line, ':')[0] == "yes"@
}

/// The condition [`spec_line_active`].
pub open spec fn is_active_line() -> spec_fn(Seq<char>) -> bool {
    |line: Seq<char>| spec_line_active(line)
}

/// The name of the network on `line`: its second field, empty where there
/// is none.
pub open spec fn spec_line_ssid(line: Seq<char>) -> Seq<char> {
    let fields = spec_split(line, ':');
    if fields.len() > 1 {
        fields[1]
    } else {
        Seq::empty()
    }
}

/// The strength of the signal on `line`: its third field, 0 where there is
/// none or it is no number.
pub open spec fn spec_line_signal(line: Seq<char>) -> u32 {
    let fields = spec_split(line, ':');
    if fields.len() > 2 {
        match spec_parse_u32(fields[2]) {
            Some(signal) => signal,
            None => 0,
        }
    } else {
        0
    }
}

/// The state that the list of networks `output` stands for: that of the
/// first network in use, or one without a connection where none is in use.
/// With the radio off there is nothing to read.
pub open spec fn spec_wifi_state(enabled: bool, output: Seq<char>) -> WifiStateView {
    let all = spec_lines(output);
    let i = first_match(all, is_active_line());
    if !enabled {
        spec_wifi_new(false, false, Seq::empty(), 0)
    } else if 0 <= i < all.len() {
        spec_wifi_new(true, true, spec_line_ssid(all[i]), spec_line_signal(all[i]))
    } else {
        spec_wifi_new(true, false, Seq::empty(), 0)
    }
}

/// The notification about a change of the connection from `prev` to `now`:
/// one where a connection came up, one where it went down, none otherwise.
pub open spec fn spec_connection_notice(now: WifiStateView, prev: Option<WifiStateView>) -> Option<
    NoticeView,
> {
    let was_active = prev matches Some(p) && p.active;
    if now.active && !was_active {
        Some(
            NoticeView {
                summary: "Wi-Fi"@,
                body: "Connected to '"@ + now.ssid + "'"@,
                value: None,
            },
        )
    } else if !now.active && was_active {
        Some(
            NoticeView {
                summary: "Wi-Fi"@,
                body: "Disconnected from '"@ + prev->Some_0.ssid + "'"@,
                value: None,
            },
        )
    } else {
        None
    }
}

/// The notification about an attempt to turn the radio.
pub open spec fn spec_switch_notice(operation: WifiTurnType, error: bool) -> NoticeView {
    if error {
        NoticeView {
            summary: "Wi-Fi"@,
            body: "Unable to turn "@ + spec_turn_word(operation) + " wifi"@,
            value: None,
        }
    } else {
        NoticeView {
            summary: "Wi-Fi"@,
            body: "Turned "@ + spec_turn_word(operation) + " the wifi"@,
            value: None,
        }
    }
}

impl WifiTurnType {
    /// Whether the radio is to be on.
    pub fn to_bool(&self) -> (res: bool)
        ensures
            res == (*self == WifiTurnType::On),
    {
        match self {
            WifiTurnType::On => true,
            WifiTurnType::Off => false,
        }
    }

    /// The word that `nmcli` takes for this turn.
    pub fn as_ref(&self) -> (res: &'static str)
        ensures
            res@ == spec_turn_word(*self),
    {
        match self {
            WifiTurnType::On => "on",
            WifiTurnType::Off => "off",
        }
    }
}

impl Wifi {
    /// Whether the radio is on: `nmcli radio wifi` prints anything but
    /// `disabled` and a line feed.
    pub fn is_enabled(output: &str) -> (res: bool)
        ensures
            res == (output@ != "disabled\n"@),
    {
        !same_text(output, "disabled\n")
    }

    /// The state that the list of networks `output` stands for; `enabled`
    /// says whether the radio is on.
    pub fn get_state(enabled: bool, output: &str) -> (res: WifiState)
        ensures
            res@ == spec_wifi_state(enabled, output@),
    {
        proof {
            reveal_strlit("");
            assert(""@ =~= Seq::<char>::empty());
        }
        if !enabled {
            return WifiState::new(false, false, "", 0);
        }
        let all = lines(output);
        let ghost views = strings_view(all@);
        let mut i: usize = 0;
        while i < all.len()
            invariant
                enabled,
                i <= all@.len(),
                views == strings_view(all@),
                views == spec_lines(output@),
                forall|j: int| 0 <= j < i ==> !is_active_line()(#[trigger] views[j]),
            decreases all@.len() - i,
        {
            let fields = split(all[i].as_str(), ':');
            proof {
                lemma_join_split(all@[i as int]@, ':');
            }
            if same_text(fields[0].as_str(), "yes") {
                let signal = if fields.len() > 2 {
                    match parse_u32(fields[2].as_str()) {
                        Some(signal) => signal,
                        None => 0,
                    }
                } else {
                    0
                };
                let ssid = if fields.len() > 1 {
                    fields[1].as_str()
                } else {
                    ""
                };
                proof {
                    reveal_strlit("");
            assert(""@ =~= Seq::<char>::empty());
                    assert(is_active_line()(views[i as int]));
                    lemma_first_match_unique(views, is_active_line(), i as int);
                }
                return WifiState::new(true, true, ssid, signal);
            }
            i += 1;
        }
        proof {
            lemma_first_match_unique(views, is_active_line(), views.len() as int);
        }
        WifiState::new(true, false, "", 0)
    }

    /// The call that turns the radio on.
    pub fn turn_on() -> (res: Invocation)
        ensures
            res@ == spec_turn(WifiTurnType::On),
    {
        Self::turn(WifiTurnType::On)
    }

    /// The call that turns the radio off.
    pub fn turn_off() -> (res: Invocation)
        ensures
            res@ == spec_turn(WifiTurnType::Off),
    {
        Self::turn(WifiTurnType::Off)
    }

    /// The call that turns the radio as `signal` says.
    pub fn turn(signal: WifiTurnType) -> (res: Invocation)
        ensures
            res@ == spec_turn(signal),
    {
        let args = with(pair("radio", "wifi"), signal.as_ref());
        proof {
            assert(strings_view(args@) =~= seq!["radio"@, "wifi"@, spec_turn_word(signal)]);
        }
        Invocation::new("nmcli", args)
    }

    /// The call that `operation` comes to.
    pub fn handle(operation: WifiTurnType) -> (res: Invocation)
        ensures
            res@ == spec_turn(operation),
    {
        match operation {
            WifiTurnType::On => Self::turn_on(),
            WifiTurnType::Off => Self::turn_off(),
        }
    }

    /// The state to show after an attempt to turn the radio as `signal`
    /// says. `state` is the state read after a turn that went well; where
    /// the turn failed there is none, and the radio is taken to be as it
    /// was before.
    pub fn turned(signal: WifiTurnType, state: Option<WifiState>) -> (res: WifiState)
        ensures
            res@ == (match state {
                Some(s) => s@,
                None => spec_wifi_new(signal != WifiTurnType::On, false, Seq::empty(), 0),
            }),
    {
        proof {
            reveal_strlit("");
            assert(""@ =~= Seq::<char>::empty());
        }
        match state {
            Some(state) => state,
            None => WifiState::new(!signal.to_bool(), false, "", 0),
        }
    }

    /// One round of watching the network: whether `state` differs from the
    /// state `current` that was last shown, and is to be shown in its place.
    pub fn changed(state: &WifiState, current: Option<&WifiState>) -> (res: bool)
        ensures
            res == !(current matches Some(c) && c@ == state@),
    {
        match current {
            Some(current) => *current != *state,
            None => true,
        }
    }
}

impl WifiState {
    /// The state of a network with the given readings.
    pub fn new(enable: bool, active: bool, ssid: &str, signal: u32) -> (res: Self)
        ensures
            res@ == spec_wifi_new(enable, active, ssid@, signal),
    {
        let icon = if !active {
            "\u{f092d} "
        } else if signal >= 75 {
            "\u{f0928} "
        } else if signal >= 50 {
            "\u{f0925} "
        } else if signal >= 25 {
            "\u{f0922} "
        } else {
            "\u{f091f} "
        };
        WifiState { enable, active, ssid: ssid.to_owned(), icon: String::from_str(icon) }
    }

    /// The notification about the change of the connection from `prev` to
    /// this state, where there is one to give.
    pub fn notify_connection_update(&self, prev: Option<&WifiState>) -> (res: Option<Notice>)
        ensures
            option_notice_view(res) == spec_connection_notice(
                self@,
                match prev {
                    Some(p) => Some(p@),
                    None => None,
                },
            ),
    {
        let was_active = match prev {
            Some(p) => p.active,
            None => false,
        };
        if self.active && !was_active {
            let mut body = String::from_str("Connected to '");
            body.append(self.ssid.as_str());
            body.append("'");
            Some(Notice { summary: String::from_str("Wi-Fi"), body, value: None })
        } else if !self.active && was_active {
            let mut body = String::from_str("Disconnected from '");
            body.append(prev.unwrap().ssid.as_str());
            body.append("'");
            Some(Notice { summary: String::from_str("Wi-Fi"), body, value: None })
        } else {
            None
        }
    }

    /// The notification about an attempt to turn the radio: `operation` is
    /// what was asked, and `error` whether it failed.
    pub fn notify_switch_update(&self, operation: WifiTurnType, error: bool) -> (res: Notice)
        ensures
            res@ == spec_switch_notice(operation, error),
    {
        let mut body = if error {
            String::from_str("Unable to turn ")
        } else {
            String::from_str("Turned ")
        };
        body.append(operation.as_ref());
        if error {
            body.append(" wifi");
        } else {
            body.append(" the wifi");
        }
        Notice { summary: String::from_str("Wi-Fi"), body, value: None }
    }

    /// The name of the status view's variable that holds this state.
    pub fn json_name(&self) -> (res: &'static str)
        ensures
            res@ == "wifi-json"@,
    {
        "wifi-json"
    }
}

/// The view of a notification that may be missing.
pub open spec fn option_notice_view(notice: Option<Notice>) -> Option<NoticeView> {
    match notice {
        Some(n) => Some(n@),
        None => None,
    }
}

} // verus!
