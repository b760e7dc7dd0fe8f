//! The session's daemon: what it does when it starts.

use crate::compositors::niri::niri_editor::{NiriEditor, NodeView};
use crate::config::{actions_view, spec_synchronize, Action, ActionView, Config, ConfigView,
    LayoutError};
use crate::layout::{spec_view_update, Layout, LayoutView};
use crate::text::{lines, option_view, spec_lines};
use vstd::prelude::*;

verus! {

/// The session's daemon.
pub struct Manager;

/// Why the daemon does not start.
#[derive(Clone, Copy, Debug, PartialEq, Eq, Structural)]
pub enum DaemonError {
    /// Another daemon runs already.
    AlreadyRunning,
    /// No layout is configured.
    NoLayout,
    /// The compositor could not be brought in line with the stored layout.
    Layout(LayoutError),
}

/// What the daemon does for the keyboard layout when it starts: it brings
/// the compositor in line with the stored sequence of recently used
/// layouts, and then shows the first configured layout as the selected one.
/// It does not start beside another daemon, nor without a configured layout.
pub open spec fn spec_daemon(
    running: bool,
    config: ConfigView,
    stored: Option<Seq<char>>,
    current: LayoutView,
    document: Seq<NodeView>,
) -> Result<Seq<ActionView>, DaemonError> {
    if running {
        Err(DaemonError::AlreadyRunning)
    } else {
        match spec_synchronize(config, stored, current, document) {
            Err(e) => Err(DaemonError::Layout(e)),
            Ok(plan) => if config.layouts.len() == 0 {
                Err(DaemonError::NoLayout)
            } else {
                Ok(
                    plan.push(
                        ActionView::SendToView(spec_view_update(config.layouts, config.layouts[0])),
                    ),
                )
            },
        }
    }
}

impl Manager {
    /// Whether a daemon runs already, read from the list of processes whose
    /// command line is that of the daemon: this process is one of them, so
    /// a second line means another daemon.
    pub fn running(output: &str) -> (res: bool)
        ensures
            res == (spec_lines(output@).len() > 1),
    {
        lines(output).len() > 1
    }

    /// Whether the daemon may start: not beside another daemon. This is
    /// settled before anything is read of the session.
    pub fn check(running: bool) -> (res: Result<(), DaemonError>)
        ensures
            res == (if running {
                Err::<(), DaemonError>(DaemonError::AlreadyRunning)
            } else {
                Ok::<(), DaemonError>(())
            }),
    {
        if running {
            Err(DaemonError::AlreadyRunning)
        } else {
            Ok(())
        }
    }

    /// What the daemon does for the keyboard layout when it starts.
    /// `running` says whether another daemon runs; `stored` is the content
    /// of the state file of the sequence of recently used layouts, where
    /// the file is there; `current` is the compositor's active layout.
    pub fn daemon(
        running: bool,
        config: &Config,
        stored: Option<&str>,
        current: &Layout,
        document: &NiriEditor,
    ) -> (res: Result<Vec<Action>, DaemonError>)
        ensures
            match res {
                Ok(plan) => spec_daemon(running, config@, option_view(stored), current@, document@)
                    == Ok::<Seq<ActionView>, DaemonError>(actions_view(plan@)),
                Err(e) => spec_daemon(running, config@, option_view(stored), current@, document@)
                    == Err::<Seq<ActionView>, DaemonError>(e),
            },
    {
        Self::check(running)?;
        let mut plan = match config.synchronize(stored, current, document) {
            Ok(plan) => plan,
            Err(e) => {
                return Err(DaemonError::Layout(e));
            },
        };
        let update = match config.init_view() {
            Some(update) => update,
            None => {
                return Err(DaemonError::NoLayout);
            },
        };
        let ghost before = actions_view(plan@);
        plan.push(Action::SendToView(update));
        proof {
            assert(actions_view(plan@) =~= before.push(ActionView::SendToView(update@)));
        }
        Ok(plan)
    }
}

} // verus!
