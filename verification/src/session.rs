//! One session: the catalog, the staged settings, the stored configuration
//! and the safety net, moved forward one message at a time.
//!
//! The session owns all state and performs no input or output. `update`
//! takes a message, changes the state, and answers with the effect that the
//! caller is to carry out; the caller reports the outcome of an effect as a
//! further message. Every session is independent of every other.

use vstd::prelude::*;
use vstd::string::StringExecFns;

use crate::apply::{orientation_calls, resolution_calls, ApplyEngine, FailureView};
use crate::config::{
    has_profile, is_first_profile, replaced, setting_entries, without_name, AppConfig, Profile,
};
use crate::display::monitor::{current_orientations, current_resolutions, Monitor};
use crate::display::{Orientation, Resolution};
use crate::error::{report_lines, ApplyError, EnumerationError, PersistError};
use crate::id_map::{put, put_all, seed_all, Id, IdMap};
use crate::safety::SafetyNetController;
use crate::staging::{attached_only, StagingStore};
use crate::text::{blank, is_blank, join, joined, texts};

verus! {

/// What can happen to a session: a command of the user, a tick of the
/// clock, or the outcome of an effect.
#[derive(Debug)]
pub enum Message {
    /// The catalog and the configuration were read, or could not be.
    Loaded(Result<(Vec<Monitor>, AppConfig), String>),
    /// The displays were enumerated again, or could not be.
    Enumerated(Result<Vec<Monitor>, EnumerationError>),
    ResolutionChanged(String, Resolution),
    OrientationChanged(String, Orientation),
    /// Apply what is staged.
    ApplyToSystem,
    /// The run started by `Effect::Apply` is over, with these failures.
    Applied(Vec<ApplyError>),
    OpenSaveDialog,
    CloseSaveDialog,
    /// Save what is staged as a profile under the name typed in.
    ConfirmSaveProfile,
    /// The configuration was written, or could not be.
    Saved(Result<(), PersistError>),
    LoadProfile(String),
    NewProfileNameChanged(String),
    /// Enumerate the displays again.
    Refresh,
    /// One second has passed while a confirmation is awaited.
    Tick,
    /// Keep the applied settings.
    ConfirmResolution,
    /// Go back to the settings from before the apply, now.
    RevertResolution,
    /// The run started by `Effect::Revert` is over, with these failures.
    Reverted(Vec<ApplyError>),
    RequestDeleteProfile(String),
    ConfirmDeleteProfile,
    CancelDeleteProfile,
}

/// What the caller is to do after a message was handled.
#[derive(Debug)]
pub enum Effect {
    /// Nothing is to be done.
    Nothing,
    /// Enumerate the displays, read the configuration, and report with
    /// `Message::Loaded`.
    LoadData,
    /// Enumerate the displays and report with `Message::Enumerated`.
    Enumerate,
    /// Have the driver carry out the engine's calls and report with
    /// `Message::Applied`.
    Apply(ApplyEngine),
    /// Have the driver carry out the engine's calls and report with
    /// `Message::Reverted`.
    Revert(ApplyEngine),
    /// Write the session's configuration and report with `Message::Saved`.
    SaveConfig,
}

/// The state of one session.
#[derive(Debug)]
pub struct YarmApp {
    /// The catalog of the last successful enumeration.
    pub monitors: Vec<Monitor>,
    /// The configuration. It is read once in a session; from then on the
    /// session's own copy counts, and every change of it is written.
    pub config: AppConfig,
    /// Whether the configuration was read.
    pub config_loaded: bool,
    pub staging: StagingStore,
    pub new_profile_name: String,
    pub status_message: String,
    pub show_save_dialog: bool,
    pub debug: bool,
    pub safety_net: SafetyNetController,
    pub profile_to_delete: Option<String>,
}

/// The status line after a run of driver calls: `done` where nothing
/// failed, else `heading` and the reports separated by "; ".
pub open spec fn run_status(done: Seq<char>, heading: Seq<char>, failures: Seq<ApplyError>) -> Seq<
    char,
> {
    if failures.len() == 0 {
        done
    } else {
        heading + joined(report_lines(failures), "; "@)
    }
}

fn status_of_run(done: &str, heading: &str, failures: &Vec<ApplyError>) -> (status: String)
    ensures
        status@ == run_status(done@, heading@, failures@),
{
    if failures.len() == 0 {
        String::from_str(done)
    } else {
        let mut lines: Vec<String> = Vec::new();
        let mut i: usize = 0;
        while i < failures.len()
            invariant
                i <= failures.len(),
                texts(lines@) == report_lines(failures@).take(i as int),
            decreases failures.len() - i,
        {
            let ghost before = texts(lines@);
            lines.push(failures[i].message());
            proof {
                assert(texts(lines@) =~= before.push(failures@[i as int].text()));
                assert(report_lines(failures@).take(i + 1) =~= report_lines(failures@).take(
                    i as int,
                ).push(failures@[i as int].text()));
            }
            i += 1;
        }
        proof {
            assert(report_lines(failures@).take(i as int) =~= report_lines(failures@));
        }
        let mut status = String::from_str(heading);
        status.append(join(&lines, "; ").as_str());
        status
    }
}

/// Puts the two halves of a load together. The enumeration is looked at
/// first: where it failed its failure is the outcome, else where the
/// configuration failed that failure is, else both results are handed on.
pub fn load_data(
    monitors: Result<Vec<Monitor>, EnumerationError>,
    config: Result<AppConfig, PersistError>,
) -> (loaded: Result<(Vec<Monitor>, AppConfig), String>)
    ensures
        match (monitors, config) {
            (Err(error), _) => loaded matches Err(detail) && detail@ == error.detail@,
            (Ok(_), Err(error)) => loaded matches Err(detail) && detail@ == error.detail@,
            (Ok(found), Ok(read)) => loaded == Ok::<(Vec<Monitor>, AppConfig), String>(
                (found, read),
            ),
        },
{
    match monitors {
        Err(error) => Err(error.message()),
        Ok(found) => match config {
            Err(error) => Err(error.message()),
            Ok(read) => Ok((found, read)),
        },
    }
}

fn prefixed(before: &str, text: &String) -> (joined: String)
    ensures
        joined@ == before@ + text@,
{
    let mut joined = String::from_str(before);
    joined.append(text.as_str());
    joined
}

fn quoted(before: &str, name: &String, after: &str) -> (text: String)
    ensures
        text@ == before@ + name@ + after@,
{
    let mut text = String::from_str(before);
    text.append(name.as_str());
    text.append(after);
    text
}

impl YarmApp {
    /// Catalog, configuration and staged settings are the same.
    pub open spec fn same_data(pre: YarmApp, post: YarmApp) -> bool {
        &&& post.monitors == pre.monitors
        &&& post.config == pre.config
        &&& post.config_loaded == pre.config_loaded
        &&& post.staging == pre.staging
    }

    /// The dialogs and the debug switch are the same.
    pub open spec fn same_dialogs(pre: YarmApp, post: YarmApp) -> bool {
        &&& post.new_profile_name == pre.new_profile_name
        &&& post.show_save_dialog == pre.show_save_dialog
        &&& post.profile_to_delete == pre.profile_to_delete
        &&& post.debug == pre.debug
    }

    /// Nothing but the status line differs.
    pub open spec fn same_but_status(pre: YarmApp, post: YarmApp) -> bool {
        &&& Self::same_data(pre, post)
        &&& Self::same_dialogs(pre, post)
        &&& post.safety_net == pre.safety_net
    }

    /// The request that brings a fresh catalog: with the configuration
    /// until that was read once, the enumeration alone from then on.
    pub open spec fn is_reload(app: YarmApp, effect: Effect) -> bool {
        if app.config_loaded {
            effect is Enumerate
        } else {
            effect is LoadData
        }
    }

    /// A fresh catalog arrived: it replaces the old one and staging is
    /// reconciled against it.
    pub open spec fn enumerated(pre: YarmApp, post: YarmApp, monitors: Vec<Monitor>) -> bool {
        &&& post.monitors == monitors
        &&& post.staging.resolutions.entries() == seed_all(
            pre.staging.resolutions.entries(),
            current_resolutions(monitors@),
        )
        &&& post.staging.orientations.entries() == seed_all(
            pre.staging.orientations.entries(),
            current_orientations(monitors@),
        )
        &&& post.status_message@ == "Ready"@
        &&& post.safety_net == pre.safety_net
        &&& Self::same_dialogs(pre, post)
    }

    /// A load arrived: the catalog is taken as on any enumeration, and the
    /// configuration is taken if none was read before. A configuration that
    /// the session holds already is never replaced by what is stored.
    pub open spec fn loaded(
        pre: YarmApp,
        post: YarmApp,
        monitors: Vec<Monitor>,
        config: AppConfig,
    ) -> bool {
        &&& Self::enumerated(pre, post, monitors)
        &&& post.config_loaded
        &&& post.config == if pre.config_loaded {
            pre.config
        } else {
            config
        }
    }

    /// Loading failed: the failure is shown and the state of the last good
    /// load stays, stale, until a later load succeeds.
    pub open spec fn load_failed(pre: YarmApp, post: YarmApp, detail: String) -> bool {
        &&& post.status_message@ == "Error loading: "@ + detail@
        &&& Self::same_but_status(pre, post)
    }

    /// An apply was requested: the safety net is armed with what the
    /// monitors show now and the timeout of the configuration, and the
    /// engine holds the calls for everything that is staged.
    pub open spec fn apply_requested(pre: YarmApp, post: YarmApp, engine: ApplyEngine) -> bool {
        &&& post.safety_net matches SafetyNetController::AwaitingConfirmation {
            remaining_ticks,
            last_good,
        }
        &&& remaining_ticks == pre.config.general.reset_timeout
        &&& last_good.entries() == put_all(
            Seq::<(Id, Resolution)>::empty(),
            current_resolutions(pre.monitors@),
        )
        &&& engine.plan() == resolution_calls(pre.staging.resolutions.entries(), pre.monitors@)
            + orientation_calls(pre.staging.orientations.entries(), pre.monitors@)
        &&& engine.made() == 0
        &&& !engine.reverting()
        &&& engine.failures() == Seq::<FailureView>::empty()
        &&& Self::same_data(pre, post)
        &&& Self::same_dialogs(pre, post)
        &&& post.status_message == pre.status_message
    }

    /// A snapshot is put back: its resolutions are staged for the attached
    /// monitors, the engine holds the calls that set them, and the safety
    /// net has gone idle.
    pub open spec fn reverting(
        pre: YarmApp,
        post: YarmApp,
        last_good: IdMap<Resolution>,
        engine: ApplyEngine,
    ) -> bool {
        &&& post.safety_net == SafetyNetController::Idle
        &&& post.staging.resolutions.entries() == put_all(
            pre.staging.resolutions.entries(),
            attached_only(last_good.entries(), pre.monitors@),
        )
        &&& post.staging.orientations == pre.staging.orientations
        &&& engine.plan() == resolution_calls(last_good.entries(), pre.monitors@)
        &&& engine.made() == 0
        &&& engine.reverting()
        &&& engine.failures() == Seq::<FailureView>::empty()
        &&& post.monitors == pre.monitors
        &&& post.config == pre.config
        &&& post.config_loaded == pre.config_loaded
        &&& Self::same_dialogs(pre, post)
        &&& post.status_message == pre.status_message
    }

    /// Only the safety net differs, and it is in the given state.
    pub open spec fn net_moved(pre: YarmApp, post: YarmApp, net: SafetyNetController) -> bool {
        &&& post.safety_net == net
        &&& Self::same_data(pre, post)
        &&& Self::same_dialogs(pre, post)
        &&& post.status_message == pre.status_message
    }

    /// What is staged was saved as a profile under the name typed in: the
    /// new profile stands at the end of the list, in place of any profile
    /// that had its name, and the dialog is closed.
    pub open spec fn profile_saved(pre: YarmApp, post: YarmApp) -> bool {
        &&& post.config.profiles@.len() > 0
        &&& post.config.profiles@ == replaced(pre.config.profiles@, post.config.profiles@.last())
        &&& post.config.profiles@.last().name@ == pre.new_profile_name@
        &&& setting_entries(post.config.profiles@.last().settings@)
            == pre.staging.resolutions.entries()
        &&& post.config.general == pre.config.general
        &&& post.config_loaded == pre.config_loaded
        &&& post.status_message@ == "Profile '"@ + pre.new_profile_name@ + "' saved"@
        &&& post.show_save_dialog == false
        &&& post.monitors == pre.monitors
        &&& post.staging == pre.staging
        &&& post.safety_net == pre.safety_net
        &&& post.new_profile_name == pre.new_profile_name
        &&& post.profile_to_delete == pre.profile_to_delete
        &&& post.debug == pre.debug
    }

    /// The first profile of the given name was staged, as far as its
    /// monitors are attached.
    pub open spec fn profile_loaded(pre: YarmApp, post: YarmApp, name: String, at: int) -> bool {
        &&& is_first_profile(pre.config.profiles@, name@, at)
        &&& post.staging.resolutions.entries() == put_all(
            pre.staging.resolutions.entries(),
            attached_only(setting_entries(pre.config.profiles@[at].settings@), pre.monitors@),
        )
        &&& post.staging.orientations == pre.staging.orientations
        &&& post.status_message@ == "Loaded profile '"@ + name@ + "' (click Apply to set)"@
        &&& post.monitors == pre.monitors
        &&& post.config == pre.config
        &&& post.config_loaded == pre.config_loaded
        &&& post.safety_net == pre.safety_net
        &&& Self::same_dialogs(pre, post)
    }

    /// The profiles of the given name are gone and nothing is marked for
    /// deletion any more.
    pub open spec fn profile_deleted(pre: YarmApp, post: YarmApp, name: String) -> bool {
        &&& post.config.profiles@ == without_name(pre.config.profiles@, name@)
        &&& post.config.general == pre.config.general
        &&& post.config_loaded == pre.config_loaded
        &&& post.profile_to_delete == None::<String>
        &&& post.status_message@ == "Profile '"@ + name@ + "' deleted"@
        &&& post.monitors == pre.monitors
        &&& post.staging == pre.staging
        &&& post.safety_net == pre.safety_net
        &&& post.new_profile_name == pre.new_profile_name
        &&& post.show_save_dialog == pre.show_save_dialog
        &&& post.debug == pre.debug
    }

    /// A session before anything was loaded, and the request to load.
    pub fn new(debug: bool) -> (start: (Self, Effect))
        ensures
            start.1 is LoadData,
            start.0.debug == debug,
            !start.0.config_loaded,
            start.0.monitors@ == Seq::<Monitor>::empty(),
            start.0.config.profiles@ == Seq::<Profile>::empty(),
            start.0.config.general.reset_timeout == 15,
            start.0.staging.resolutions.entries() == Seq::<(Id, Resolution)>::empty(),
            start.0.staging.orientations.entries() == Seq::<(Id, Orientation)>::empty(),
            start.0.new_profile_name@ == Seq::<char>::empty(),
            start.0.status_message@ == "Loading..."@,
            !start.0.show_save_dialog,
            start.0.safety_net == SafetyNetController::Idle,
            start.0.profile_to_delete == None::<String>,
    {
        let mut app = YarmApp::default();
        app.debug = debug;
        (app, Effect::LoadData)
    }

    /// Whether ticks are to be delivered: exactly while a confirmation is
    /// awaited.
    pub fn wants_ticks(&self) -> (wanted: bool)
        ensures
            wanted == (self.safety_net is AwaitingConfirmation),
    {
        self.safety_net.is_awaiting()
    }

    fn take_catalog(&mut self, monitors: Vec<Monitor>)
        ensures
            Self::enumerated(*old(self), *final(self), monitors),
            final(self).config == old(self).config,
            final(self).config_loaded == old(self).config_loaded,
    {
        self.staging.reconcile(&monitors);
        self.monitors = monitors;
        self.status_message = String::from_str("Ready");
    }

    fn take_config(&mut self, config: AppConfig)
        ensures
            final(self).config_loaded,
            final(self).config == if old(self).config_loaded {
                old(self).config
            } else {
                config
            },
            final(self).monitors == old(self).monitors,
            final(self).staging == old(self).staging,
            final(self).status_message == old(self).status_message,
            final(self).safety_net == old(self).safety_net,
            Self::same_dialogs(*old(self), *final(self)),
    {
        if !self.config_loaded {
            self.config = config;
            self.config_loaded = true;
        }
    }

    fn reload(&self) -> (effect: Effect)
        ensures
            Self::is_reload(*self, effect),
    {
        if self.config_loaded {
            Effect::Enumerate
        } else {
            Effect::LoadData
        }
    }

    fn start_revert(&mut self, last_good: IdMap<Resolution>) -> (effect: Effect)
        requires
            old(self).safety_net == SafetyNetController::Idle,
        ensures
            effect matches Effect::Revert(engine) && Self::reverting(
                *old(self),
                *final(self),
                last_good,
                engine,
            ),
    {
        self.staging.restore(&last_good, &self.monitors);
        Effect::Revert(ApplyEngine::revert(&last_good, &self.monitors))
    }

    /// Handles one message and says what is to be done next.
    pub fn update(&mut self, message: Message) -> (effect: Effect)
        ensures
            match message {
                Message::Loaded(Ok((monitors, config))) => effect is Nothing && Self::loaded(
                    *old(self),
                    *final(self),
                    monitors,
                    config,
                ),
                Message::Loaded(Err(detail)) => effect is Nothing && Self::load_failed(
                    *old(self),
                    *final(self),
                    detail,
                ),
                Message::Enumerated(Ok(monitors)) => {
                    &&& effect is Nothing
                    &&& Self::enumerated(*old(self), *final(self), monitors)
                    &&& final(self).config == old(self).config
                    &&& final(self).config_loaded == old(self).config_loaded
                },
                Message::Enumerated(Err(error)) => effect is Nothing && Self::load_failed(
                    *old(self),
                    *final(self),
                    error.detail,
                ),
                Message::ResolutionChanged(id, resolution) => {
                    &&& effect is Nothing
                    &&& final(self).staging.resolutions.entries() == put(
                        old(self).staging.resolutions.entries(),
                        id@,
                        resolution,
                    )
                    &&& final(self).staging.orientations == old(self).staging.orientations
                    &&& final(self).monitors == old(self).monitors
                    &&& final(self).config == old(self).config
                    &&& final(self).config_loaded == old(self).config_loaded
                    &&& final(self).safety_net == old(self).safety_net
                    &&& final(self).status_message == old(self).status_message
                    &&& Self::same_dialogs(*old(self), *final(self))
                },
                Message::OrientationChanged(id, orientation) => {
                    &&& effect is Nothing
                    &&& final(self).staging.orientations.entries() == put(
                        old(self).staging.orientations.entries(),
                        id@,
                        orientation,
                    )
                    &&& final(self).staging.resolutions == old(self).staging.resolutions
                    &&& final(self).monitors == old(self).monitors
                    &&& final(self).config == old(self).config
                    &&& final(self).config_loaded == old(self).config_loaded
                    &&& final(self).safety_net == old(self).safety_net
                    &&& final(self).status_message == old(self).status_message
                    &&& Self::same_dialogs(*old(self), *final(self))
                },
                Message::ApplyToSystem => effect matches Effect::Apply(engine)
                    && Self::apply_requested(*old(self), *final(self), engine),
                Message::Applied(failures) => {
                    &&& Self::is_reload(*old(self), effect)
                    &&& final(self).status_message@ == run_status(
                        "Applied successfully"@,
                        "Errors: "@,
                        failures@,
                    )
                    &&& Self::same_but_status(*old(self), *final(self))
                },
                Message::Tick => match old(self).safety_net.due() {
                    Some(last_good) => effect matches Effect::Revert(engine) && Self::reverting(
                        *old(self),
                        *final(self),
                        last_good,
                        engine,
                    ),
                    None => effect is Nothing && Self::net_moved(
                        *old(self),
                        *final(self),
                        old(self).safety_net.ticked(),
                    ),
                },
                Message::ConfirmResolution => {
                    &&& effect is Nothing
                    &&& final(self).safety_net == SafetyNetController::Idle
                    &&& final(self).status_message@ == "Resolution confirmed"@
                    &&& Self::same_data(*old(self), *final(self))
                    &&& Self::same_dialogs(*old(self), *final(self))
                },
                Message::RevertResolution => match old(self).safety_net.held() {
                    Some(last_good) => effect matches Effect::Revert(engine) && Self::reverting(
                        *old(self),
                        *final(self),
                        last_good,
                        engine,
                    ),
                    None => effect is Nothing && *final(self) == *old(self),
                },
                Message::Reverted(failures) => {
                    &&& Self::is_reload(*old(self), effect)
                    &&& final(self).status_message@ == run_status(
                        "Reverted changes"@,
                        "Revert Errors: "@,
                        failures@,
                    )
                    &&& Self::same_but_status(*old(self), *final(self))
                },
                Message::OpenSaveDialog => {
                    &&& effect is Nothing
                    &&& final(self).show_save_dialog
                    &&& final(self).new_profile_name@ == Seq::<char>::empty()
                    &&& final(self).profile_to_delete == old(self).profile_to_delete
                    &&& final(self).debug == old(self).debug
                    &&& final(self).status_message == old(self).status_message
                    &&& final(self).safety_net == old(self).safety_net
                    &&& Self::same_data(*old(self), *final(self))
                },
                Message::CloseSaveDialog => {
                    &&& effect is Nothing
                    &&& !final(self).show_save_dialog
                    &&& final(self).new_profile_name == old(self).new_profile_name
                    &&& final(self).profile_to_delete == old(self).profile_to_delete
                    &&& final(self).debug == old(self).debug
                    &&& final(self).status_message == old(self).status_message
                    &&& final(self).safety_net == old(self).safety_net
                    &&& Self::same_data(*old(self), *final(self))
                },
                Message::ConfirmSaveProfile => if is_blank(old(self).new_profile_name@) {
                    effect is Nothing && *final(self) == *old(self)
                } else {
                    effect is SaveConfig && Self::profile_saved(*old(self), *final(self))
                },
                Message::Saved(Ok(_)) => effect is Nothing && *final(self) == *old(self),
                Message::Saved(Err(error)) => {
                    &&& effect is Nothing
                    &&& final(self).status_message@ == "Failed to save config: "@ + error.detail@
                    &&& Self::same_but_status(*old(self), *final(self))
                },
                Message::LoadProfile(name) => {
                    &&& effect is Nothing
                    &&& if has_profile(old(self).config.profiles@, name@) {
                        exists|at: int| Self::profile_loaded(*old(self), *final(self), name, at)
                    } else {
                        *final(self) == *old(self)
                    }
                },
                Message::NewProfileNameChanged(name) => {
                    &&& effect is Nothing
                    &&& final(self).new_profile_name == name
                    &&& final(self).show_save_dialog == old(self).show_save_dialog
                    &&& final(self).profile_to_delete == old(self).profile_to_delete
                    &&& final(self).debug == old(self).debug
                    &&& final(self).status_message == old(self).status_message
                    &&& final(self).safety_net == old(self).safety_net
                    &&& Self::same_data(*old(self), *final(self))
                },
                Message::Refresh => Self::is_reload(*old(self), effect) && *final(self) == *old(
                    self,
                ),
                Message::RequestDeleteProfile(name) => {
                    &&& effect is Nothing
                    &&& final(self).profile_to_delete == Some(name)
                    &&& final(self).new_profile_name == old(self).new_profile_name
                    &&& final(self).show_save_dialog == old(self).show_save_dialog
                    &&& final(self).debug == old(self).debug
                    &&& final(self).status_message == old(self).status_message
                    &&& final(self).safety_net == old(self).safety_net
                    &&& Self::same_data(*old(self), *final(self))
                },
                Message::ConfirmDeleteProfile => match old(self).profile_to_delete {
                    Some(name) => effect is SaveConfig && Self::profile_deleted(
                        *old(self),
                        *final(self),
                        name,
                    ),
                    None => effect is Nothing && *final(self) == *old(self),
                },
                Message::CancelDeleteProfile => {
                    &&& effect is Nothing
                    &&& final(self).profile_to_delete == None::<String>
                    &&& final(self).new_profile_name == old(self).new_profile_name
                    &&& final(self).show_save_dialog == old(self).show_save_dialog
                    &&& final(self).debug == old(self).debug
                    &&& final(self).status_message == old(self).status_message
                    &&& final(self).safety_net == old(self).safety_net
                    &&& Self::same_data(*old(self), *final(self))
                },
            },
    {
        match message {
            Message::Loaded(Ok((monitors, config))) => {
                self.take_catalog(monitors);
                self.take_config(config);
                Effect::Nothing
            },
            Message::Loaded(Err(detail)) => {
                self.status_message = prefixed("Error loading: ", &detail);
                Effect::Nothing
            },
            Message::Enumerated(Ok(monitors)) => {
                self.take_catalog(monitors);
                Effect::Nothing
            },
            Message::Enumerated(Err(error)) => {
                self.status_message = prefixed("Error loading: ", &error.detail);
                Effect::Nothing
            },
            Message::ResolutionChanged(id, resolution) => {
                self.staging.set_resolution(id, resolution);
                Effect::Nothing
            },
            Message::OrientationChanged(id, orientation) => {
                self.staging.set_orientation(id, orientation);
                Effect::Nothing
            },
            Message::ApplyToSystem => {
                self.safety_net.arm(&self.monitors, self.config.general.reset_timeout);
                Effect::Apply(
                    ApplyEngine::apply(
                        &self.staging.resolutions,
                        &self.staging.orientations,
                        &self.monitors,
                    ),
                )
            },
            Message::Applied(failures) => {
                self.status_message = status_of_run("Applied successfully", "Errors: ", &failures);
                self.reload()
            },
            Message::Tick => {
                match self.safety_net.tick() {
                    Some(last_good) => self.start_revert(last_good),
                    None => Effect::Nothing,
                }
            },
            Message::ConfirmResolution => {
                self.safety_net.confirm();
                self.status_message = String::from_str("Resolution confirmed");
                Effect::Nothing
            },
            Message::RevertResolution => {
                match self.safety_net.request_revert() {
                    Some(last_good) => self.start_revert(last_good),
                    None => Effect::Nothing,
                }
            },
            Message::Reverted(failures) => {
                self.status_message = status_of_run(
                    "Reverted changes",
                    "Revert Errors: ",
                    &failures,
                );
                self.reload()
            },
            Message::OpenSaveDialog => {
                self.show_save_dialog = true;
                self.new_profile_name = String::new();
                Effect::Nothing
            },
            Message::CloseSaveDialog => {
                self.show_save_dialog = false;
                Effect::Nothing
            },
            Message::ConfirmSaveProfile => {
                if blank(self.new_profile_name.as_str()) {
                    Effect::Nothing
                } else {
                    let profile = Profile::from_staged(
                        self.new_profile_name.clone(),
                        &self.staging.resolutions,
                    );
                    self.config.add_or_replace(profile);
                    self.status_message = quoted("Profile '", &self.new_profile_name, "' saved");
                    self.show_save_dialog = false;
                    Effect::SaveConfig
                }
            },
            Message::Saved(Ok(_)) => Effect::Nothing,
            Message::Saved(Err(error)) => {
                self.status_message = prefixed("Failed to save config: ", &error.detail);
                Effect::Nothing
            },
            Message::LoadProfile(name) => {
                match self.config.find_profile(&name) {
                    Some(at) => {
                        self.staging.apply_profile(&self.config.profiles[at], &self.monitors);
                        self.status_message = quoted(
                            "Loaded profile '",
                            &name,
                            "' (click Apply to set)",
                        );
                        proof {
                            assert(Self::profile_loaded(*old(self), *self, name, at as int));
                        }
                    },
                    None => {},
                }
                Effect::Nothing
            },
            Message::NewProfileNameChanged(name) => {
                self.new_profile_name = name;
                Effect::Nothing
            },
            Message::Refresh => self.reload(),
            Message::RequestDeleteProfile(name) => {
                self.profile_to_delete = Some(name);
                Effect::Nothing
            },
            Message::ConfirmDeleteProfile => {
                let mut marked: Option<String> = None;
                std::mem::swap(&mut marked, &mut self.profile_to_delete);
                match marked {
                    Some(name) => {
                        self.config.remove_profile(&name);
                        self.status_message = quoted("Profile '", &name, "' deleted");
                        Effect::SaveConfig
                    },
                    None => Effect::Nothing,
                }
            },
            Message::CancelDeleteProfile => {
                self.profile_to_delete = None;
                Effect::Nothing
            },
        }
    }
}

impl Default for YarmApp {
    fn default() -> (app: Self)
        ensures
            !app.debug,
            !app.config_loaded,
            app.monitors@ == Seq::<Monitor>::empty(),
            app.config.profiles@ == Seq::<Profile>::empty(),
            app.config.general.reset_timeout == 15,
            app.staging.resolutions.entries() == Seq::<(Id, Resolution)>::empty(),
            app.staging.orientations.entries() == Seq::<(Id, Orientation)>::empty(),
            app.new_profile_name@ == Seq::<char>::empty(),
            app.status_message@ == "Loading..."@,
            !app.show_save_dialog,
            app.safety_net == SafetyNetController::Idle,
            app.profile_to_delete == None::<String>,
    {
        YarmApp {
            monitors: Vec::new(),
            config: AppConfig::default(),
            config_loaded: false,
            staging: StagingStore::new(),
            new_profile_name: String::new(),
            status_message: String::from_str("Loading..."),
            show_save_dialog: false,
            debug: false,
            safety_net: SafetyNetController::new(),
            profile_to_delete: None,
        }
    }
}

} // verus!
