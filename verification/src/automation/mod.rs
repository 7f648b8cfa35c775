//! What the automation commands do.
pub mod target;

use crate::text::{both, decimal, number_text, trim, trimmed};
use vstd::prelude::*;

verus! {

/// The state of the automation daemon.
#[derive(Debug)]
pub struct DaemonStatus {
    pub running: bool,
    pub pid: Option<u32>,
    pub target_count: u32,
    pub last_activity: Option<String>,
}

/// An automation command.
#[derive(Debug)]
pub enum AutomationAction {
    SyncTarget,
    ExportTarget,
    ProfileReady,
    Profiles,
    SelectProfile { name: String },
    Status,
    Check,
    Cleanup,
}

/// The work that an automation command asks for.
#[derive(Debug)]
pub enum AutomationStep {
    /// Take the targets of the TrickyStore file.
    ImportTargets,
    /// Write the TrickyStore file.
    ExportTargets,
    /// Check that a profile is selected.
    CheckSelection,
    /// Print the profiles.
    PrintProfiles,
    /// Check that the profile `choice` may be chosen, and store `setting`; where
    /// `export` is true, write the TrickyStore files for the chosen profile.
    Select { choice: String, setting: String, export: bool },
    /// Say that automation is disabled.
    SayDisabled,
    /// Print the state of the daemon.
    PrintStatus,
    /// Add the newly installed packages to the targets.
    AddPackages,
    /// Remove the packages that are gone from the targets.
    RemovePackages,
}

/// What an automation step is, with its texts.
pub ghost enum StepView {
    ImportTargets,
    ExportTargets,
    CheckSelection,
    PrintProfiles,
    Select { choice: Seq<char>, setting: Seq<char>, export: bool },
    SayDisabled,
    PrintStatus,
    AddPackages,
    RemovePackages,
}

impl View for AutomationStep {
    type V = StepView;

    open spec fn view(&self) -> StepView {
        match *self {
            AutomationStep::ImportTargets => StepView::ImportTargets,
            AutomationStep::ExportTargets => StepView::ExportTargets,
            AutomationStep::CheckSelection => StepView::CheckSelection,
            AutomationStep::PrintProfiles => StepView::PrintProfiles,
            AutomationStep::Select { choice, setting, export } => StepView::Select {
                choice: choice@,
                setting: setting@,
                export,
            },
            AutomationStep::SayDisabled => StepView::SayDisabled,
            AutomationStep::PrintStatus => StepView::PrintStatus,
            AutomationStep::AddPackages => StepView::AddPackages,
            AutomationStep::RemovePackages => StepView::RemovePackages,
        }
    }
}

/// The work that a command asks for. Only the commands of the daemon ask whether
/// automation is enabled.
pub open spec fn step_of(action: AutomationAction, enabled: bool) -> StepView {
    match action {
        AutomationAction::SyncTarget => StepView::ImportTargets,
        AutomationAction::ExportTarget => StepView::ExportTargets,
        AutomationAction::ProfileReady => StepView::CheckSelection,
        AutomationAction::Profiles => StepView::PrintProfiles,
        AutomationAction::SelectProfile { name } => StepView::Select {
            choice: trimmed(name@),
            setting: name@,
            export: trimmed(name@).len() > 0,
        },
        _ => if !enabled {
            StepView::SayDisabled
        } else {
            match action {
                AutomationAction::Status => StepView::PrintStatus,
                AutomationAction::Check => StepView::AddPackages,
                _ => StepView::RemovePackages,
            }
        },
    }
}

/// The work that a command asks for.
pub fn handle_automation(action: &AutomationAction, enabled: bool) -> (r: AutomationStep)
    ensures
        r@ == step_of(*action, enabled),
{
    match action {
        AutomationAction::SyncTarget => AutomationStep::ImportTargets,
        AutomationAction::ExportTarget => AutomationStep::ExportTargets,
        AutomationAction::ProfileReady => AutomationStep::CheckSelection,
        AutomationAction::Profiles => AutomationStep::PrintProfiles,
        AutomationAction::SelectProfile { name } => {
            let choice: &str = trim(name.as_str());
            AutomationStep::Select {
                choice: choice.to_owned(),
                setting: name.clone(),
                export: !choice.is_empty(),
            }
        },
        AutomationAction::Status => if enabled {
            AutomationStep::PrintStatus
        } else {
            AutomationStep::SayDisabled
        },
        AutomationAction::Check => if enabled {
            AutomationStep::AddPackages
        } else {
            AutomationStep::SayDisabled
        },
        AutomationAction::Cleanup => if enabled {
            AutomationStep::RemovePackages
        } else {
            AutomationStep::SayDisabled
        },
    }
}

/// The line that reports a step which is done; `count` packages were added or removed.
/// The steps that print a document report nothing else.
pub open spec fn report_of(step: StepView, count: u64) -> Option<Seq<char>> {
    match step {
        StepView::ImportTargets => Some("target synchronized"@),
        StepView::ExportTargets => Some("target synchronized"@),
        StepView::CheckSelection => Some("profile ready"@),
        StepView::PrintProfiles => None,
        StepView::Select { .. } => Some("TEESimulator profile selection updated"@),
        StepView::SayDisabled => Some("automation disabled"@),
        StepView::PrintStatus => None,
        StepView::AddPackages => Some(
            "added "@ + decimal(count as nat) + " new packages to target"@,
        ),
        StepView::RemovePackages => Some(
            "removed "@ + decimal(count as nat) + " stale entries from target"@,
        ),
    }
}

impl AutomationStep {
    /// The line that reports this step when it is done.
    pub fn report(&self, count: u64) -> (r: Option<String>)
        ensures
            match r {
                Some(line) => report_of(self@, count) == Some(line@),
                None => report_of(self@, count) is None,
            },
    {
        match self {
            AutomationStep::ImportTargets => Some("target synchronized".to_owned()),
            AutomationStep::ExportTargets => Some("target synchronized".to_owned()),
            AutomationStep::CheckSelection => Some("profile ready".to_owned()),
            AutomationStep::PrintProfiles => None,
            AutomationStep::Select { .. } => Some(
                "TEESimulator profile selection updated".to_owned(),
            ),
            AutomationStep::SayDisabled => Some("automation disabled".to_owned()),
            AutomationStep::PrintStatus => None,
            AutomationStep::AddPackages => Some(
                both(
                    both("added ", number_text(count).as_str()).as_str(),
                    " new packages to target",
                ),
            ),
            AutomationStep::RemovePackages => Some(
                both(
                    both("removed ", number_text(count).as_str()).as_str(),
                    " stale entries from target",
                ),
            ),
        }
    }
}

/// Switching automation off stops the commands of the daemon, each with the same
/// words, and no other command.
pub proof fn law_disabling_stops_the_daemon_only(action: AutomationAction)
    ensures
        (action is Status || action is Check || action is Cleanup) ==> step_of(action, false)
            == StepView::SayDisabled,
        !(action is Status || action is Check || action is Cleanup) ==> step_of(action, false)
            == step_of(action, true),
        step_of(action, true) != StepView::SayDisabled,
{
}

} // verus!
