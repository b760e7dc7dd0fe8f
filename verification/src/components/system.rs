//! Power and session: requests to the login manager, and the screen locker.

use crate::components::components::{Invocation, InvocationView};
use crate::text::strings_view;
use vstd::prelude::*;

verus! {

/// The power and session controls.
#[derive(Clone, Copy, Debug)]
pub struct System;

/// A request to the power and session controls.
#[derive(Clone, Copy, Debug, PartialEq, Eq, Structural)]
pub enum SystemOp {
    /// Turn the system off.
    Poweroff,
    /// Start the system anew.
    Reboot,
    /// Put the system to sleep.
    Suspend,
    /// Lock the session.
    Lock,
    /// Keep the system from going idle.
    Inhibit,
}

/// One thing to do for a request.
#[derive(Debug)]
pub enum SystemStep {
    /// Call the method `method` of the login manager, allowing it to ask
    /// the user.
    Call { method: String },
    /// Take the login manager's lock against going idle.
    Inhibit,
    /// Run a program.
    Run(Invocation),
    /// Keep what was taken until the process ends.
    Hold,
}

/// The mathematical value of a [`SystemStep`].
pub enum SystemStepView {
    Call { method: Seq<char> },
    Inhibit,
    Run(InvocationView),
    Hold,
}

impl View for SystemStep {
    type V = SystemStepView;

    open spec fn view(&self) -> SystemStepView {
        match self {
            SystemStep::Call { method } => SystemStepView::Call { method: method@ },
            SystemStep::Inhibit => SystemStepView::Inhibit,
            SystemStep::Run(invocation) => SystemStepView::Run(invocation@),
            SystemStep::Hold => SystemStepView::Hold,
        }
    }
}

/// The views of a list of steps.
pub open spec fn steps_view(steps: Seq<SystemStep>) -> Seq<SystemStepView> {
    Seq::new(steps.len(), |i: int| steps[i]@)
}

/// The steps that lock the session: a locker that runs is ended, and a new
/// one is started in the background.
pub open spec fn spec_lock() -> Seq<SystemStepView> {
    seq![
        SystemStepView::Run(InvocationView { program: "pkill"@, args: seq!["swaylock"@] }),
        SystemStepView::Run(InvocationView { program: "swaylock"@, args: seq!["-f"@] }),
    ]
}

/// The steps that `operation` comes to, to be taken in order as long as
/// each goes well.
pub open spec fn spec_system_steps(operation: SystemOp) -> Seq<SystemStepView> {
    match operation {
        SystemOp::Poweroff => seq![SystemStepView::Call { method: "poweroff"@ }],
        SystemOp::Reboot => seq![SystemStepView::Call { method: "Reboot"@ }],
        SystemOp::Suspend => seq![SystemStepView::Call { method: "Suspend"@ }] + spec_lock(),
        SystemOp::Lock => spec_lock(),
        SystemOp::Inhibit => seq![SystemStepView::Inhibit, SystemStepView::Hold],
    }
}

/// The list with the one string `only`.
fn single(only: &str) -> (res: Vec<String>)
    ensures
        strings_view(res@) == seq![only@],
{
    let mut res: Vec<String> = Vec::new();
    res.push(only.to_owned());
    proof {
        assert(strings_view(res@) =~= seq![only@]);
    }
    res
}

/// The list with the one call of `method`.
fn call(method: &str) -> (res: Vec<SystemStep>)
    ensures
        steps_view(res@) == seq![SystemStepView::Call { method: method@ }],
{
    let mut res: Vec<SystemStep> = Vec::new();
    res.push(SystemStep::Call { method: method.to_owned() });
    proof {
        assert(steps_view(res@) =~= seq![SystemStepView::Call { method: method@ }]);
    }
    res
}

impl System {
    /// The steps that turn the system off.
    pub fn poweroff() -> (res: Vec<SystemStep>)
        ensures
            steps_view(res@) == spec_system_steps(SystemOp::Poweroff),
    {
        call("poweroff")
    }

    /// The steps that start the system anew.
    pub fn reboot() -> (res: Vec<SystemStep>)
        ensures
            steps_view(res@) == spec_system_steps(SystemOp::Reboot),
    {
        call("Reboot")
    }

    /// The steps that put the system to sleep, with the session locked.
    pub fn suspend() -> (res: Vec<SystemStep>)
        ensures
            steps_view(res@) == spec_system_steps(SystemOp::Suspend),
    {
        let mut res = call("Suspend");
        let mut lock = Self::lock();
        let ghost first = steps_view(res@);
        let ghost rest = steps_view(lock@);
        res.append(&mut lock);
        proof {
            assert(steps_view(res@) =~= first + rest);
        }
        res
    }

    /// The steps that lock the session.
    pub fn lock() -> (res: Vec<SystemStep>)
        ensures
            steps_view(res@) == spec_lock(),
    {
        let mut res: Vec<SystemStep> = Vec::new();
        res.push(SystemStep::Run(Invocation::new("pkill", single("swaylock"))));
        res.push(SystemStep::Run(Invocation::new("swaylock", single("-f"))));
        proof {
            assert(steps_view(res@) =~= spec_lock());
        }
        res
    }

    /// The steps that keep the system from going idle.
    pub fn inhibit() -> (res: Vec<SystemStep>)
        ensures
            steps_view(res@) == spec_system_steps(SystemOp::Inhibit),
    {
        let mut res: Vec<SystemStep> = Vec::new();
        res.push(SystemStep::Inhibit);
        res.push(SystemStep::Hold);
        proof {
            assert(steps_view(res@) =~= seq![SystemStepView::Inhibit, SystemStepView::Hold]);
        }
        res
    }

    /// The steps that `operation` comes to.
    pub fn handle(operation: SystemOp) -> (res: Vec<SystemStep>)
        ensures
            steps_view(res@) == spec_system_steps(operation),
    {
        match operation {
            SystemOp::Poweroff => Self::poweroff(),
            SystemOp::Reboot => Self::reboot(),
            SystemOp::Suspend => Self::suspend(),
            SystemOp::Lock => Self::lock(),
            SystemOp::Inhibit => Self::inhibit(),
        }
    }
}

} // verus!
