//! The commands of the command line, decided without printing or touching
//! the driver: what to print and which driver calls to make.

use vstd::prelude::*;
use vstd::string::StringExecFns;

use crate::apply::{DriverCall, Setting};
use crate::config::{has_profile, is_first_profile, AppConfig, Profile};
use crate::display::Resolution;
use crate::text::texts;

verus! {

/// A command given on the command line.
#[derive(Debug)]
pub enum Commands {
    /// Switch to the profile of this name.
    Switch { profile_name: String },
    /// List the profiles.
    List,
}

/// What was given on the command line.
#[derive(Debug)]
pub struct Cli {
    /// No command asks for the graphical interface.
    pub command: Option<Commands>,
}

/// One step of a switch: what to announce, and the call to make after it.
#[derive(Debug)]
pub struct SwitchStep {
    pub announcement: String,
    pub call: DriverCall,
}

/// What a command comes to.
#[derive(Debug)]
pub enum CliPlan {
    /// No command was given: the graphical interface is to start.
    Gui,
    /// Print these lines.
    List { lines: Vec<String> },
    /// Print the heading, then carry out the steps in order. A step that
    /// fails is reported and the switch goes on.
    Switch { heading: String, steps: Vec<SwitchStep> },
}

/// Why a command could not be carried out.
#[derive(Debug)]
pub enum CliError {
    /// No profile has the name that was given.
    ProfileNotFound(String),
}

impl CliError {
    pub open spec fn text(&self) -> Seq<char> {
        match self {
            CliError::ProfileNotFound(name) => "Profile '"@ + name@ + "' not found"@,
        }
    }

    pub fn message(&self) -> (text: String)
        ensures
            text@ == self.text(),
    {
        match self {
            CliError::ProfileNotFound(name) => {
                let mut text = String::from_str("Profile '");
                text.append(name.as_str());
                text.append("' not found");
                text
            },
        }
    }
}

/// The line for one profile in a listing.
pub open spec fn listing_line(profile: Profile) -> Seq<char> {
    "- "@ + profile.name@
}

/// The lines of a listing: a heading and one line for each profile.
pub open spec fn listing(profiles: Seq<Profile>) -> Seq<Seq<char>> {
    seq!["Available profiles:"@] + profiles.map_values(|p: Profile| listing_line(p))
}

/// The line that announces one step of a switch.
pub open spec fn announcement(monitor_id: Seq<char>, resolution: Resolution) -> Seq<char> {
    "Setting monitor "@ + monitor_id + " to "@ + resolution.label_text()
}

/// The line that reports a step of a switch that the driver refused.
pub open spec fn refusal(monitor_id: Seq<char>, detail: Seq<char>) -> Seq<char> {
    "Failed to set resolution for "@ + monitor_id + ": "@ + detail
}

/// `step` is the step for the setting of a profile: the monitor is addressed
/// by its id, which is also its name in reports.
pub open spec fn is_step_for(
    step: SwitchStep,
    monitor_id: Seq<char>,
    resolution: Resolution,
) -> bool {
    &&& step.announcement@ == announcement(monitor_id, resolution)
    &&& step.call.monitor_name@ == monitor_id
    &&& step.call.device_name@ == monitor_id
    &&& step.call.setting == Setting::Resolution(resolution)
}

/// `plan` switches to `profile`.
pub open spec fn is_switch_to(plan: CliPlan, profile: Profile) -> bool {
    &&& plan matches CliPlan::Switch { heading, steps }
    &&& heading@ == "Switching to profile: "@ + profile.name@
    &&& steps@.len() == profile.settings@.len()
    &&& forall|i: int|
        0 <= i < steps@.len() ==> is_step_for(
            #[trigger] steps@[i],
            profile.settings@[i].monitor_id@,
            profile.settings@[i].resolution,
        )
}

/// `plan` lists `profiles`.
pub open spec fn is_listing_of(plan: CliPlan, profiles: Seq<Profile>) -> bool {
    &&& plan matches CliPlan::List { lines }
    &&& texts(lines@) == listing(profiles)
}

fn switch_to(profile: &Profile) -> (plan: CliPlan)
    ensures
        is_switch_to(plan, *profile),
{
    let mut heading = String::from_str("Switching to profile: ");
    heading.append(profile.name.as_str());
    let mut steps: Vec<SwitchStep> = Vec::new();
    let mut i: usize = 0;
    while i < profile.settings.len()
        invariant
            i <= profile.settings.len(),
            steps@.len() == i,
            forall|k: int|
                0 <= k < i ==> is_step_for(
                    #[trigger] steps@[k],
                    profile.settings@[k].monitor_id@,
                    profile.settings@[k].resolution,
                ),
        decreases profile.settings.len() - i,
    {
        let setting = &profile.settings[i];
        let mut text = String::from_str("Setting monitor ");
        text.append(setting.monitor_id.as_str());
        text.append(" to ");
        text.append(setting.resolution.label().as_str());
        steps.push(
            SwitchStep {
                announcement: text,
                call: DriverCall {
                    monitor_name: setting.monitor_id.clone(),
                    device_name: setting.monitor_id.clone(),
                    setting: Setting::Resolution(setting.resolution),
                },
            },
        );
        i += 1;
    }
    CliPlan::Switch { heading, steps }
}

fn list(profiles: &Vec<Profile>) -> (plan: CliPlan)
    ensures
        is_listing_of(plan, profiles@),
{
    let mut lines: Vec<String> = Vec::new();
    lines.push(String::from_str("Available profiles:"));
    let mut i: usize = 0;
    proof {
        assert(texts(lines@) =~= listing(profiles@.take(0)));
    }
    while i < profiles.len()
        invariant
            i <= profiles.len(),
            texts(lines@) == listing(profiles@.take(i as int)),
        decreases profiles.len() - i,
    {
        let mut line = String::from_str("- ");
        line.append(profiles[i].name.as_str());
        let ghost before = texts(lines@);
        lines.push(line);
        proof {
            assert(profiles@.take(i + 1) =~= profiles@.take(i as int).push(profiles@[i as int]));
            assert(texts(lines@) =~= before.push(listing_line(profiles@[i as int])));
            assert(listing(profiles@.take(i + 1)) =~= listing(profiles@.take(i as int)).push(
                listing_line(profiles@[i as int]),
            ));
        }
        i += 1;
    }
    proof {
        assert(profiles@.take(i as int) =~= profiles@);
    }
    CliPlan::List { lines }
}

/// Decides what a command line comes to, given the stored configuration.
///
/// A switch goes to the first profile of the given name and fails, before
/// anything is printed or set, when there is none.
pub fn handle_cli(cli: &Cli, config: &AppConfig) -> (outcome: Result<CliPlan, CliError>)
    ensures
        match cli.command {
            None => outcome matches Ok(plan) && plan is Gui,
            Some(Commands::List) => outcome matches Ok(plan) && is_listing_of(
                plan,
                config.profiles@,
            ),
            Some(Commands::Switch { profile_name }) => if has_profile(
                config.profiles@,
                profile_name@,
            ) {
                outcome matches Ok(plan) && exists|at: int|
                    is_first_profile(config.profiles@, profile_name@, at) && is_switch_to(
                        plan,
                        #[trigger] config.profiles@[at],
                    )
            } else {
                outcome matches Err(CliError::ProfileNotFound(name)) && name@ == profile_name@
            },
        },
{
    match &cli.command {
        None => Ok(CliPlan::Gui),
        Some(Commands::List) => Ok(list(&config.profiles)),
        Some(Commands::Switch { profile_name }) => {
            match config.find_profile(profile_name) {
                Some(at) => {
                    let plan = switch_to(&config.profiles[at]);
                    proof {
                        assert(is_first_profile(config.profiles@, profile_name@, at as int)
                            && is_switch_to(plan, config.profiles@[at as int]));
                    }
                    Ok(plan)
                },
                None => Err(CliError::ProfileNotFound(profile_name.clone())),
            }
        },
    }
}

/// The line that reports a step of a switch that the driver refused.
pub fn switch_failure(step: &SwitchStep, detail: &String) -> (line: String)
    ensures
        line@ == refusal(step.call.monitor_name@, detail@),
{
    let mut line = String::from_str("Failed to set resolution for ");
    line.append(step.call.monitor_name.as_str());
    line.append(": ");
    line.append(detail.as_str());
    line
}

} // verus!
