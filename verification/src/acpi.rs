//! The events of the power management daemon, and the commands they stand for.

use crate::args::{Command, CommandView};
use crate::components::brightness::BrightnessOp;
use crate::components::microphone::MicrophoneOp;
use crate::components::system::SystemOp;
use crate::components::volume::VolumeOp;
use crate::text::{same_text, spec_split, split, strings_view};
use vstd::prelude::*;

verus! {

/// The listener to power management events.
#[derive(Clone, Copy, Debug)]
pub struct Acpi;

/// The change, in percent, that one press of a key makes.
pub const KEY_STEP: u32 = 5;

/// The command that the event with the words `event` stands for.
///
/// The first word names the event. Closing the lid (the third word is
/// `close`) and the sleep button suspend; the brightness and volume keys
/// change the level by one step; the mute key and the microphone key toggle
/// mute; plugging headphones in or out shows the volume anew. Any other
/// event stands for nothing.
pub open spec fn spec_acpi_command(event: Seq<Seq<char>>) -> Option<CommandView> {
    if event.len() == 0 {
        None
    } else if event[0] == "button/lid"@ {
        if event.len() > 2 && event[2] == "close"@ {
            Some(CommandView::System { operation: SystemOp::Suspend })
        } else {
            None
        }
    } else if event[0] == "button/sleep"@ {
        Some(CommandView::System { operation: SystemOp::Suspend })
    } else if event[0] == "video/brightnessup"@ {
        Some(CommandView::Brightness { operation: BrightnessOp::Up { percent: KEY_STEP } })
    } else if event[0] == "video/brightnessdown"@ {
        Some(CommandView::Brightness { operation: BrightnessOp::Down { percent: KEY_STEP } })
    } else if event[0] == "button/volumeup"@ {
        Some(CommandView::Volume { operation: VolumeOp::Up { percent: KEY_STEP } })
    } else if event[0] == "button/volumedown"@ {
        Some(CommandView::Volume { operation: VolumeOp::Down { percent: KEY_STEP } })
    } else if event[0] == "button/mute"@ {
        Some(CommandView::Volume { operation: VolumeOp::Mute })
    } else if event[0] == "jack/headphone"@ {
        Some(CommandView::Volume { operation: VolumeOp::Update })
    } else if event[0] == "button/f20"@ {
        Some(CommandView::Microphone { operation: MicrophoneOp::Mute })
    } else {
        None
    }
}

/// The view of a command that may be missing.
pub open spec fn option_command_view(command: Option<Command>) -> Option<CommandView> {
    match command {
        Some(c) => Some(c@),
        None => None,
    }
}

impl Acpi {
    /// The words of an event line: its pieces between single spaces.
    pub fn event(line: &str) -> (res: Vec<String>)
        ensures
            strings_view(res@) == spec_split(line@, ' '),
    {
        split(line, ' ')
    }

    /// The command that the event with the words `event` stands for.
    pub fn handle(event: &[String]) -> (res: Option<Command>)
        ensures
            option_command_view(res) == spec_acpi_command(strings_view(event@)),
    {
        if event.len() == 0 {
            return None;
        }
        let name = event[0].as_str();
        if same_text(name, "button/lid") {
            if event.len() > 2 && same_text(event[2].as_str(), "close") {
                Some(Command::System { operation: SystemOp::Suspend })
            } else {
                None
            }
        } else if same_text(name, "button/sleep") {
            Some(Command::System { operation: SystemOp::Suspend })
        } else if same_text(name, "video/brightnessup") {
            Some(Command::Brightness { operation: BrightnessOp::Up { percent: KEY_STEP } })
        } else if same_text(name, "video/brightnessdown") {
            Some(Command::Brightness { operation: BrightnessOp::Down { percent: KEY_STEP } })
        } else if same_text(name, "button/volumeup") {
            Some(Command::Volume { operation: VolumeOp::Up { percent: KEY_STEP } })
        } else if same_text(name, "button/volumedown") {
            Some(Command::Volume { operation: VolumeOp::Down { percent: KEY_STEP } })
        } else if same_text(name, "button/mute") {
            Some(Command::Volume { operation: VolumeOp::Mute })
        } else if same_text(name, "jack/headphone") {
            Some(Command::Volume { operation: VolumeOp::Update })
        } else if same_text(name, "button/f20") {
            Some(Command::Microphone { operation: MicrophoneOp::Mute })
        } else {
            None
        }
    }
}

} // verus!
