//! The commands that the program takes.

use crate::components::brightness::BrightnessOp;
use crate::components::microphone::MicrophoneOp;
use crate::components::system::SystemOp;
use crate::components::volume::VolumeOp;
use crate::components::wifi::WifiTurnType;
use crate::config::LayoutOpView;
use crate::layout::LayoutOp;
use vstd::prelude::*;

verus! {

/// What the program is started with.
#[derive(Debug)]
pub struct Args {
    pub command: Command,
}

/// A command.
#[derive(Debug)]
#[allow(inconsistent_fields)]
pub enum Command {
    /// Run as the session's daemon.
    Daemon,
    /// Power and session.
    System { operation: SystemOp },
    /// The backlight.
    Brightness { operation: BrightnessOp },
    /// The audio output.
    Volume { operation: VolumeOp },
    /// The keyboard layout.
    Layout { operation: LayoutOp },
    /// The wireless network.
    Wifi { operation: WifiTurnType },
    /// The audio input.
    Microphone { operation: MicrophoneOp },
}

/// The mathematical value of a [`Command`].
#[allow(inconsistent_fields)]
pub enum CommandView {
    Daemon,
    System { operation: SystemOp },
    Brightness { operation: BrightnessOp },
    Volume { operation: VolumeOp },
    Layout { operation: LayoutOpView },
    Wifi { operation: WifiTurnType },
    Microphone { operation: MicrophoneOp },
}

impl View for Command {
    type V = CommandView;

    open spec fn view(&self) -> CommandView {
        match self {
            Command::Daemon => CommandView::Daemon,
            Command::System { operation } => CommandView::System { operation: *operation },
            Command::Brightness { operation } => CommandView::Brightness { operation: *operation },
            Command::Volume { operation } => CommandView::Volume { operation: *operation },
            Command::Layout { operation } => CommandView::Layout { operation: operation@ },
            Command::Wifi { operation } => CommandView::Wifi { operation: *operation },
            Command::Microphone { operation } => CommandView::Microphone { operation: *operation },
        }
    }
}

impl Args {
    /// The arguments that ask for `command`.
    pub fn new(command: Command) -> (res: Self)
        ensures
            res.command@ == command@,
    {
        Args { command }
    }
}

} // verus!
