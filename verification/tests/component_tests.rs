use emanager::acpi::Acpi;
use emanager::args::{Args, Command};
use emanager::components::brightness::{Brightness, BrightnessOp, BrightnessState};
use emanager::components::components::{pair, percent_argument, with, Invocation, Notice};
use emanager::components::microphone::{Microphone, MicrophoneError, MicrophoneOp, MicrophoneState};
use emanager::components::system::{System, SystemOp, SystemStep};
use emanager::components::volume::{Volume, VolumeOp, VolumeState};
use emanager::components::wifi::{Wifi, WifiState, WifiTurnType};
use emanager::config::CurrentState;
use emanager::notifier::{Notifier, Urgency};

fn strings(items: &[&str]) -> Vec<String> {
    items.iter().map(|s| s.to_string()).collect()
}

fn call(invocation: &Option<Invocation>) -> (String, Vec<String>) {
    let invocation = invocation.as_ref().unwrap();
    (invocation.program.clone(), invocation.args.clone())
}

#[test]
fn arguments_are_built_from_their_parts() {
    assert_eq!(pair("a", "b"), strings(&["a", "b"]));
    assert_eq!(with(pair("a", "b"), "c"), strings(&["a", "b", "c"]));
    assert_eq!(percent_argument("+", 5, "%"), "+5%");
    assert_eq!(percent_argument("", 100, "%-"), "100%-");
    let invocation = Invocation::new("prog", strings(&["x"]));
    assert_eq!(invocation.program, "prog");
    assert_eq!(invocation.args, strings(&["x"]));
}

#[test]
fn notices_announce_a_level_or_a_text() {
    let notice = Notice::level("Volume", 35);
    assert_eq!(notice.summary, "Volume");
    assert_eq!(notice.body, "Set to 35%");
    assert_eq!(notice.value, Some(35));
    let notice = Notice::plain("Volume", "Muted");
    assert_eq!(notice.body, "Muted");
    assert_eq!(notice.value, None);
}

#[test]
fn brightness_requests_call_the_tool() {
    let up = Brightness::handle(BrightnessOp::Up { percent: 5 });
    assert_eq!(call(&up.command), ("brightnessctl".to_string(), strings(&["set", "+5%"])));
    assert_eq!(up.delay, 0);
    let down = Brightness::handle(BrightnessOp::Down { percent: 10 });
    assert_eq!(call(&down.command).1, strings(&["set", "10%-"]));
    let set = Brightness::handle(BrightnessOp::SetTo { percent: 42 });
    assert_eq!(call(&set.command).1, strings(&["set", "42%"]));
    let update = Brightness::handle(BrightnessOp::Update);
    assert!(update.command.is_none());
    assert_eq!(update.delay, 500);
}

#[test]
fn brightness_icons_follow_the_level() {
    let icon = |value: u32| BrightnessState::new(value).icon;
    assert_eq!(icon(100), "\u{e39b} ");
    assert_eq!(icon(89), "\u{e39b} ");
    assert_eq!(icon(88), "\u{e3c8} ");
    assert_eq!(icon(78), "\u{e3c8} ");
    assert_eq!(icon(77), "\u{e3ca} ");
    assert_eq!(icon(67), "\u{e3ca} ");
    assert_eq!(icon(66), "\u{e3cd} ");
    assert_eq!(icon(56), "\u{e3cd} ");
    assert_eq!(icon(55), "\u{e3ce} ");
    assert_eq!(icon(45), "\u{e3ce} ");
    assert_eq!(icon(44), "\u{e3cf} ");
    assert_eq!(icon(34), "\u{e3cf} ");
    assert_eq!(icon(33), "\u{e3d1} ");
    assert_eq!(icon(23), "\u{e3d1} ");
    assert_eq!(icon(22), "\u{e3d3} ");
    assert_eq!(icon(12), "\u{e3d3} ");
    assert_eq!(icon(11), "\u{e38d} ");
    assert_eq!(icon(0), "\u{e38d} ");
}

#[test]
fn brightness_is_announced_with_its_level() {
    let state = BrightnessState::new(60);
    assert_eq!(state.value, 60);
    assert_eq!(state.json_name(), "brightness-json");
    let notice = state.notify();
    assert_eq!(notice.summary, "Brightness");
    assert_eq!(notice.body, "Set to 60%");
    assert_eq!(notice.value, Some(60));
    assert_eq!(Brightness::max("96000\n"), Some(96000));
    assert_eq!(Brightness::max("none\n"), None);
}

#[test]
fn volume_requests_call_the_tool_unless_muted() {
    let sink = "@DEFAULT_AUDIO_SINK@";
    let up = Volume::handle(VolumeOp::Up { percent: 5 }, false);
    assert_eq!(call(&up.command), ("wpctl".to_string(), strings(&["set-volume", sink, "5%+", "-l", "1"])));
    let down = Volume::handle(VolumeOp::Down { percent: 5 }, false);
    assert_eq!(call(&down.command).1, strings(&["set-volume", sink, "5%-"]));
    let set = Volume::handle(VolumeOp::SetTo { percent: 70 }, false);
    assert_eq!(call(&set.command).1, strings(&["set-volume", sink, "70%", "-l", "1"]));
    for op in [VolumeOp::Up { percent: 5 }, VolumeOp::Down { percent: 5 }, VolumeOp::SetTo { percent: 5 }] {
        let request = Volume::handle(op, true);
        assert!(request.command.is_none());
        assert_eq!(request.delay, 0);
    }
    for muted in [false, true] {
        let mute = Volume::handle(VolumeOp::Mute, muted);
        assert_eq!(call(&mute.command).1, strings(&["set-mute", sink, "toggle"]));
        let update = Volume::handle(VolumeOp::Update, muted);
        assert!(update.command.is_none());
        assert_eq!(update.delay, 500);
    }
    assert_eq!(call(&Volume::mute().command).1, strings(&["set-mute", sink, "toggle"]));
}

#[test]
fn volume_readings_are_taken_from_the_report() {
    assert!(Volume::working(b""));
    assert!(!Volume::working(b"error"));
    assert!(Volume::muted("Volume: 0.40 [MUTED]\n"));
    assert!(!Volume::muted("Volume: 0.40\n"));
}

#[test]
fn volume_states_have_an_icon_and_a_notice() {
    assert_eq!(VolumeState::new(50, false, false).icon, "\u{f075f} ");
    assert_eq!(VolumeState::new(50, true, true).icon, "\u{f075f} ");
    assert_eq!(VolumeState::new(40, false, true).icon, "\u{f057e} ");
    assert_eq!(VolumeState::new(39, false, true).icon, "\u{f0580} ");
    assert_eq!(VolumeState::new(20, false, true).icon, "\u{f0580} ");
    assert_eq!(VolumeState::new(19, false, true).icon, "\u{f057f} ");
    assert_eq!(VolumeState::new(19, false, true).json_name(), "volume-json");
    let notice = VolumeState::new(30, true, false).notify();
    assert_eq!((notice.summary.as_str(), notice.body.as_str(), notice.value), ("Volume", "No output", None));
    let notice = VolumeState::new(30, true, true).notify();
    assert_eq!((notice.summary.as_str(), notice.body.as_str(), notice.value), ("Volume", "Muted", None));
    let notice = VolumeState::new(30, false, true).notify();
    assert_eq!((notice.summary.as_str(), notice.body.as_str(), notice.value), ("Volume", "Set to 30%", Some(30)));
}

#[test]
fn microphone_requests_call_the_tool_unless_muted() {
    let up = Microphone::handle(MicrophoneOp::Up { percent: 5 }, false);
    assert_eq!(call(&up.command), ("amixer".to_string(), strings(&["sset", "Capture", "5%+"])));
    let down = Microphone::handle(MicrophoneOp::Down { percent: 5 }, false);
    assert_eq!(call(&down.command).1, strings(&["sset", "Capture", "5%-"]));
    let set = Microphone::handle(MicrophoneOp::SetTo { percent: 80 }, false);
    assert_eq!(call(&set.command).1, strings(&["sset", "Capture", "80%"]));
    assert!(Microphone::handle(MicrophoneOp::SetTo { percent: 80 }, true).command.is_none());
    let mute = Microphone::handle(MicrophoneOp::Mute, true);
    assert_eq!(call(&mute.command).1, strings(&["-D", "pulse", "set", "Capture", "1+", "toggle"]));
    assert_eq!(call(&Microphone::mute().command).0, "amixer");
    let update = Microphone::handle(MicrophoneOp::Update, false);
    assert!(update.command.is_none());
    assert_eq!(update.delay, 500);
    assert!(Microphone::working(b""));
    assert!(!Microphone::working(b"x"));
}

#[test]
fn microphone_state_is_read_from_the_report() {
    let report = "Simple mixer control 'Capture',0\n  Capabilities: cvolume cswitch\n  Front Left: Capture 45875 [70%] [on]\n  Front Right: Capture 45875 [71%] [off]\n";
    let state = Microphone::get_state(true, report).unwrap();
    assert!(state.working);
    assert!(!state.muted);
    assert_eq!(state.value, 70);
    assert_eq!(state.icon, "\u{f036e} ");
    let state = Microphone::get_state(true, "  Mono: Capture 0 [0%] [off]").unwrap();
    assert!(state.muted);
    assert_eq!(state.value, 0);
    assert_eq!(state.icon, "\u{f036d} ");
    let state = Microphone::get_state(true, "  Mono: Capture 0 [12%] [ on ]").unwrap();
    assert!(!state.muted);
}

#[test]
fn microphone_state_fails_on_a_report_without_levels() {
    assert_eq!(Microphone::get_state(true, "nothing here").unwrap_err(), MicrophoneError::InvalidOutput);
    assert_eq!(Microphone::get_state(true, "").unwrap_err(), MicrophoneError::InvalidOutput);
    let huge = "  Mono: Capture 0 [99999999999%] [on]";
    assert_eq!(Microphone::get_state(true, huge).unwrap_err(), MicrophoneError::InvalidLevel);
}

#[test]
fn a_microphone_that_does_not_work_is_at_zero() {
    let state = Microphone::get_state(false, "  Mono: Capture 0 [55%] [on]").unwrap();
    assert!(!state.working);
    assert!(!state.muted);
    assert_eq!(state.value, 0);
    assert_eq!(state.icon, "\u{f036d} ");
}

#[test]
fn microphone_state_from_found_levels() {
    let state = Microphone::state_from(Some((" 42 ".to_string(), "on ".to_string()))).unwrap();
    assert_eq!((state.working, state.muted, state.value), (true, false, 42));
    let state = Microphone::state_from(Some(("42".to_string(), "off".to_string()))).unwrap();
    assert!(state.muted);
    assert_eq!(Microphone::state_from(None).unwrap_err(), MicrophoneError::InvalidOutput);
    assert_eq!(Microphone::state_from(Some(("x".to_string(), "on".to_string()))).unwrap_err(), MicrophoneError::InvalidLevel);
}

#[test]
fn microphone_states_have_an_icon_and_a_notice() {
    assert_eq!(MicrophoneState::new(true, false, 10).icon, "\u{f036e} ");
    assert_eq!(MicrophoneState::new(false, false, 10).icon, "\u{f036d} ");
    assert_eq!(MicrophoneState::new(true, false, 10).json_name(), "microphone-json");
    let notice = MicrophoneState::new(false, false, 10).notify();
    assert_eq!((notice.summary.as_str(), notice.body.as_str(), notice.value), ("Microphone", "No output", None));
    let notice = MicrophoneState::new(true, true, 10).notify();
    assert_eq!((notice.summary.as_str(), notice.body.as_str(), notice.value), ("Microhone", "Muted", None));
    let notice = MicrophoneState::new(true, false, 10).notify();
    assert_eq!((notice.summary.as_str(), notice.body.as_str(), notice.value), ("Microphone", "Set to 10%", Some(10)));
}

#[test]
fn wifi_requests_turn_the_radio() {
    let on = Wifi::handle(WifiTurnType::On);
    assert_eq!((on.program.as_str(), on.args), ("nmcli", strings(&["radio", "wifi", "on"])));
    assert_eq!(Wifi::handle(WifiTurnType::Off).args, strings(&["radio", "wifi", "off"]));
    assert_eq!(Wifi::turn_on().args, Wifi::turn(WifiTurnType::On).args);
    assert_eq!(Wifi::turn_off().args, strings(&["radio", "wifi", "off"]));
    assert!(WifiTurnType::On.to_bool());
    assert!(!WifiTurnType::Off.to_bool());
    assert_eq!(WifiTurnType::On.as_ref(), "on");
    assert_eq!(WifiTurnType::Off.as_ref(), "off");
}

#[test]
fn wifi_state_is_that_of_the_network_in_use() {
    let list = "no:neighbour:80\nyes:home:62\nyes:other:90\n";
    let state = Wifi::get_state(true, list);
    assert_eq!(state, WifiState::new(true, true, "home", 62));
    assert_eq!(state.ssid, "home");
    assert_eq!(state.icon, "\u{f0925} ");
    assert_eq!(Wifi::get_state(true, "no:neighbour:80\n"), WifiState::new(true, false, "", 0));
    assert_eq!(Wifi::get_state(true, ""), WifiState::new(true, false, "", 0));
    assert_eq!(Wifi::get_state(false, list), WifiState::new(false, false, "", 0));
    assert_eq!(Wifi::get_state(true, "yes\n"), WifiState::new(true, true, "", 0));
    assert_eq!(Wifi::get_state(true, "yes:cafe:strong\n"), WifiState::new(true, true, "cafe", 0));
    assert!(Wifi::is_enabled("enabled\n"));
    assert!(!Wifi::is_enabled("disabled\n"));
    assert!(Wifi::is_enabled("disabled"));
}

#[test]
fn wifi_icons_follow_the_signal() {
    let icon = |active: bool, signal: u32| WifiState::new(true, active, "x", signal).icon;
    assert_eq!(icon(false, 100), "\u{f092d} ");
    assert_eq!(icon(true, 75), "\u{f0928} ");
    assert_eq!(icon(true, 74), "\u{f0925} ");
    assert_eq!(icon(true, 50), "\u{f0925} ");
    assert_eq!(icon(true, 49), "\u{f0922} ");
    assert_eq!(icon(true, 25), "\u{f0922} ");
    assert_eq!(icon(true, 24), "\u{f091f} ");
    assert_eq!(WifiState::new(true, true, "x", 1).json_name(), "wifi-json");
}

#[test]
fn wifi_changes_of_the_connection_are_announced() {
    let up = WifiState::new(true, true, "home", 60);
    let down = WifiState::new(true, false, "", 0);
    let notice = up.notify_connection_update(None).unwrap();
    assert_eq!((notice.summary.as_str(), notice.body.as_str()), ("Wi-Fi", "Connected to 'home'"));
    assert_eq!(up.notify_connection_update(Some(&down)).unwrap().body, "Connected to 'home'");
    assert_eq!(down.notify_connection_update(Some(&up)).unwrap().body, "Disconnected from 'home'");
    assert!(up.notify_connection_update(Some(&up)).is_none());
    assert!(down.notify_connection_update(Some(&down)).is_none());
    assert!(down.notify_connection_update(None).is_none());
}

#[test]
fn wifi_turns_are_announced() {
    let state = WifiState::new(true, false, "", 0);
    assert_eq!(state.notify_switch_update(WifiTurnType::On, false).body, "Turned on the wifi");
    assert_eq!(state.notify_switch_update(WifiTurnType::Off, false).body, "Turned off the wifi");
    assert_eq!(state.notify_switch_update(WifiTurnType::On, true).body, "Unable to turn on wifi");
    assert_eq!(state.notify_switch_update(WifiTurnType::Off, true).summary, "Wi-Fi");
}

#[test]
fn wifi_state_after_a_turn() {
    let read = WifiState::new(true, true, "home", 60);
    assert_eq!(Wifi::turned(WifiTurnType::On, Some(WifiState::new(true, true, "home", 60))), read);
    assert_eq!(Wifi::turned(WifiTurnType::On, None), WifiState::new(false, false, "", 0));
    assert_eq!(Wifi::turned(WifiTurnType::Off, None), WifiState::new(true, false, "", 0));
}

#[test]
fn wifi_is_shown_anew_when_it_changed() {
    let a = WifiState::new(true, true, "home", 60);
    let b = WifiState::new(true, true, "home", 80);
    assert!(Wifi::changed(&a, None));
    assert!(!Wifi::changed(&a, Some(&a)));
    assert!(Wifi::changed(&a, Some(&b)));
    assert!(!Wifi::changed(&a, Some(&WifiState::new(true, true, "home", 55))));
}

fn step_names(steps: &[SystemStep]) -> Vec<String> {
    steps
        .iter()
        .map(|s| match s {
            SystemStep::Call { method } => format!("call {}", method),
            SystemStep::Inhibit => "inhibit".to_string(),
            SystemStep::Run(i) => format!("run {} {}", i.program, i.args.join(" ")),
            SystemStep::Hold => "hold".to_string(),
        })
        .collect()
}

#[test]
fn system_requests_come_to_steps() {
    assert_eq!(step_names(&System::handle(SystemOp::Poweroff)), strings(&["call poweroff"]));
    assert_eq!(step_names(&System::handle(SystemOp::Reboot)), strings(&["call Reboot"]));
    assert_eq!(
        step_names(&System::handle(SystemOp::Suspend)),
        strings(&["call Suspend", "run pkill swaylock", "run swaylock -f"])
    );
    assert_eq!(step_names(&System::handle(SystemOp::Lock)), strings(&["run pkill swaylock", "run swaylock -f"]));
    assert_eq!(step_names(&System::handle(SystemOp::Inhibit)), strings(&["inhibit", "hold"]));
    assert_eq!(step_names(&System::poweroff()), strings(&["call poweroff"]));
    assert_eq!(step_names(&System::reboot()), strings(&["call Reboot"]));
    assert_eq!(step_names(&System::suspend()).len(), 3);
    assert_eq!(step_names(&System::lock()).len(), 2);
    assert_eq!(step_names(&System::inhibit()).len(), 2);
}

#[test]
fn power_events_stand_for_commands() {
    let command = |line: &str| Acpi::handle(&Acpi::event(line));
    assert!(matches!(command("button/lid LID close"), Some(Command::System { operation: SystemOp::Suspend })));
    assert!(command("button/lid LID open").is_none());
    assert!(command("button/lid LID").is_none());
    assert!(matches!(command("button/sleep SBTN 00000080 00000000"), Some(Command::System { operation: SystemOp::Suspend })));
    assert!(matches!(
        command("video/brightnessup BRTUP 00000086 00000000"),
        Some(Command::Brightness { operation: BrightnessOp::Up { percent: 5 } })
    ));
    assert!(matches!(
        command("video/brightnessdown BRTDN 00000087 00000000"),
        Some(Command::Brightness { operation: BrightnessOp::Down { percent: 5 } })
    ));
    assert!(matches!(command("button/volumeup VOLUP"), Some(Command::Volume { operation: VolumeOp::Up { percent: 5 } })));
    assert!(matches!(command("button/volumedown VOLDN"), Some(Command::Volume { operation: VolumeOp::Down { percent: 5 } })));
    assert!(matches!(command("button/mute MUTE"), Some(Command::Volume { operation: VolumeOp::Mute })));
    assert!(matches!(command("jack/headphone HEADPHONE plug"), Some(Command::Volume { operation: VolumeOp::Update })));
    assert!(matches!(command("button/f20 F20"), Some(Command::Microphone { operation: MicrophoneOp::Mute })));
    assert!(command("ac_adapter ACPI0003:00").is_none());
    assert!(command("").is_none());
    assert!(Acpi::handle(&[]).is_none());
    assert_eq!(Acpi::event("a b  c"), strings(&["a", "b", "", "c"]));
    assert!(matches!(Args::new(Command::Daemon).command, Command::Daemon));
}

#[test]
fn notifications_take_the_colour_of_the_border() {
    let notifier = Notifier::new("volume");
    assert_eq!(notifier.logger, "volume.id");
    let state = CurrentState::new("7aa2f7".to_string());
    let sent = notifier.send(Notice::level("Volume", 30), None, Some(&state), Some(12)).unwrap();
    assert_eq!(sent.summary, "Volume");
    assert_eq!(sent.body, "Set to 30%");
    assert_eq!(sent.urgency, Urgency::Normal);
    assert_eq!(sent.frame_color, "#7aa2f7ee");
    assert_eq!(sent.value, Some(30));
    assert_eq!(sent.replaces, Some(12));
    let sent = notifier.send(Notice::plain("Wi-Fi", "x"), Some(Urgency::Critical), Some(&state), None).unwrap();
    assert_eq!(sent.urgency, Urgency::Critical);
    assert_eq!(sent.value, None);
    assert_eq!(sent.replaces, None);
    assert!(notifier.send(Notice::plain("Wi-Fi", "x"), None, None, Some(3)).is_none());
}
