//! Turning wanted settings into driver calls, one monitor at a time.
//!
//! The engine decides which calls are to be made and keeps the failures. It
//! does not make the calls: the caller asks for the pending call, has the
//! display driver carry it out, and records how it went. A failure never
//! stops or undoes the calls for other monitors, and nothing is retried.

use vstd::prelude::*;

use crate::display::manager::{
    orientation_request, resolution_request, DeviceMode, DisplayManager, ModeRequest,
};
use crate::display::monitor::{attached, find_monitor, first_monitor, Monitor};
use crate::display::{Orientation, Resolution};
use crate::error::{ApplyError, ApplyKind};
use crate::id_map::{Id, IdMap};

verus! {

/// What a driver call changes.
#[derive(Debug, Clone, Copy, PartialEq, Eq, Structural)]
pub enum Setting {
    Resolution(Resolution),
    Orientation(Orientation),
}

/// One call to the display driver.
#[derive(Debug, Clone)]
pub struct DriverCall {
    /// The user-facing name of the monitor, for reports.
    pub monitor_name: String,
    /// The name under which the driver knows the monitor.
    pub device_name: String,
    pub setting: Setting,
}

/// A driver call with its strings as sequences of characters.
pub struct CallView {
    pub monitor_name: Seq<char>,
    pub device_name: Seq<char>,
    pub setting: Setting,
}

impl View for DriverCall {
    type V = CallView;

    open spec fn view(&self) -> CallView {
        CallView {
            monitor_name: self.monitor_name@,
            device_name: self.device_name@,
            setting: self.setting,
        }
    }
}

/// The mode to request so that a device in mode `current` gets `setting`.
/// A resolution is requested as it is. An orientation that exchanges the
/// axes is requested with the current width and height exchanged, because
/// the driver takes dimensions in the frame of the orientation the device is
/// in; callers never correct for that themselves.
pub open spec fn request_of(setting: Setting, current: DeviceMode) -> ModeRequest {
    match setting {
        Setting::Resolution(resolution) => resolution_request(current, resolution),
        Setting::Orientation(orientation) => orientation_request(current, orientation),
    }
}

impl DriverCall {
    /// The mode to request from the driver for this call, given the mode the
    /// device is in right before the call.
    pub fn request(&self, current: &DeviceMode) -> (wanted: ModeRequest)
        ensures
            wanted == request_of(self.setting, *current),
    {
        match self.setting {
            Setting::Resolution(resolution) => DisplayManager::set_resolution(
                current,
                &resolution,
            ),
            Setting::Orientation(orientation) => DisplayManager::set_orientation(
                current,
                orientation,
            ),
        }
    }
}

/// A failure report with its strings as sequences of characters.
pub struct FailureView {
    pub kind: ApplyKind,
    pub monitor_name: Seq<char>,
    pub detail: Seq<char>,
}

impl View for ApplyError {
    type V = FailureView;

    open spec fn view(&self) -> FailureView {
        FailureView { kind: self.kind, monitor_name: self.monitor_name@, detail: self.detail@ }
    }
}

/// The views of a list of driver calls.
pub open spec fn call_views(calls: Seq<DriverCall>) -> Seq<CallView> {
    calls.map_values(|c: DriverCall| c@)
}

/// The views of a list of failure reports.
pub open spec fn failure_views(errors: Seq<ApplyError>) -> Seq<FailureView> {
    errors.map_values(|e: ApplyError| e@)
}

/// The call that sets `setting` on the monitor with this id: addressed to the
/// first monitor of the list that has the id, and none where no monitor has
/// it.
pub open spec fn call_if_attached(monitors: Seq<Monitor>, id: Id, setting: Setting) -> Option<
    CallView,
> {
    if attached(monitors, id) {
        let monitor = monitors[first_monitor(monitors, id)];
        Some(
            CallView { monitor_name: monitor.name@, device_name: monitor.device_name@, setting },
        )
    } else {
        None
    }
}

/// From a staged resolution to its call, for a given list of monitors.
pub open spec fn resolution_call(monitors: Seq<Monitor>) -> spec_fn((Id, Resolution)) -> Option<
    CallView,
> {
    |e: (Id, Resolution)| call_if_attached(monitors, e.0, Setting::Resolution(e.1))
}

/// From a staged orientation to its call, for a given list of monitors.
pub open spec fn orientation_call(monitors: Seq<Monitor>) -> spec_fn((Id, Orientation)) -> Option<
    CallView,
> {
    |e: (Id, Orientation)| call_if_attached(monitors, e.0, Setting::Orientation(e.1))
}

/// The calls that set the given resolutions: one for each entry whose
/// monitor is attached, in the order of the entries. Entries for unknown ids
/// give no call.
pub open spec fn resolution_calls(settings: Seq<(Id, Resolution)>, monitors: Seq<Monitor>) -> Seq<
    CallView,
> {
    settings.filter_map(resolution_call(monitors))
}

/// The calls that set the given orientations, as `resolution_calls`.
pub open spec fn orientation_calls(
    orientations: Seq<(Id, Orientation)>,
    monitors: Seq<Monitor>,
) -> Seq<CallView> {
    orientations.filter_map(orientation_call(monitors))
}

/// How a failed call is reported: a failure while reverting is a revert
/// failure, any other is named after what the call sets.
pub open spec fn failure_kind(reverting: bool, setting: Setting) -> ApplyKind {
    if reverting {
        ApplyKind::Revert
    } else {
        match setting {
            Setting::Resolution(_) => ApplyKind::Resolution,
            Setting::Orientation(_) => ApplyKind::Orientation,
        }
    }
}

/// The failures after the driver answered one call: a success adds nothing,
/// a refusal adds one report with the monitor's name and the driver's words.
pub open spec fn recorded(
    failures: Seq<FailureView>,
    reverting: bool,
    call: CallView,
    outcome: Result<(), String>,
) -> Seq<FailureView> {
    match outcome {
        Ok(_) => failures,
        Err(detail) => failures.push(
            FailureView {
                kind: failure_kind(reverting, call.setting),
                monitor_name: call.monitor_name,
                detail: detail@,
            },
        ),
    }
}

/// The failures after the driver answered the first calls of a plan, one
/// outcome for each call, in order.
pub open spec fn failures_after(
    plan: Seq<CallView>,
    reverting: bool,
    outcomes: Seq<Result<(), String>>,
) -> Seq<FailureView>
    decreases outcomes.len(),
{
    if outcomes.len() == 0 {
        Seq::empty()
    } else {
        recorded(
            failures_after(plan, reverting, outcomes.drop_last()),
            reverting,
            plan[outcomes.len() - 1],
            outcomes.last(),
        )
    }
}

/// How many of the outcomes are refusals.
pub open spec fn refusals(outcomes: Seq<Result<(), String>>) -> nat
    decreases outcomes.len(),
{
    if outcomes.len() == 0 {
        0
    } else if outcomes.last() is Err {
        refusals(outcomes.drop_last()) + 1
    } else {
        refusals(outcomes.drop_last())
    }
}

/// `failure` is the report of the refusal of call `i`.
pub open spec fn reports_call(
    failure: FailureView,
    plan: Seq<CallView>,
    reverting: bool,
    outcomes: Seq<Result<(), String>>,
    i: int,
) -> bool {
    &&& 0 <= i < outcomes.len()
    &&& outcomes[i] matches Err(detail)
    &&& failure.detail == detail@
    &&& failure.monitor_name == plan[i].monitor_name
    &&& failure.kind == failure_kind(reverting, plan[i].setting)
}

/// The `k`-th failure is the report of a refused call, and of the one before
/// which exactly `k` calls were refused.
pub open spec fn is_kth_refusal(
    failures: Seq<FailureView>,
    plan: Seq<CallView>,
    reverting: bool,
    outcomes: Seq<Result<(), String>>,
    k: int,
) -> bool {
    exists|i: int|
        reports_call(failures[k], plan, reverting, outcomes, i) && refusals(outcomes.take(i))
            == k
}

/// Failures stay with the monitor they happened on: there is one report for
/// each refused call and none for any other, each report carries the name of
/// the monitor of its call and the driver's words, and the reports stand in
/// the order of the calls.
pub proof fn lemma_failures_are_the_refusals(
    plan: Seq<CallView>,
    reverting: bool,
    outcomes: Seq<Result<(), String>>,
)
    requires
        outcomes.len() <= plan.len(),
    ensures
        failures_after(plan, reverting, outcomes).len() == refusals(outcomes),
        forall|k: int|
            0 <= k < failures_after(plan, reverting, outcomes).len() ==> #[trigger] is_kth_refusal(
                failures_after(plan, reverting, outcomes),
                plan,
                reverting,
                outcomes,
                k,
            ),
    decreases outcomes.len(),
{
    if outcomes.len() > 0 {
        let earlier = outcomes.drop_last();
        let n = earlier.len() as int;
        let before = failures_after(plan, reverting, earlier);
        let after = failures_after(plan, reverting, outcomes);
        lemma_failures_are_the_refusals(plan, reverting, earlier);
        assert forall|k: int| 0 <= k < after.len() implies #[trigger] is_kth_refusal(
            after,
            plan,
            reverting,
            outcomes,
            k,
        ) by {
            if k < before.len() {
                assert(after[k] == before[k]);
                assert(is_kth_refusal(before, plan, reverting, earlier, k));
                let i = choose|i: int|
                    reports_call(before[k], plan, reverting, earlier, i) && refusals(
                        earlier.take(i),
                    ) == k;
                assert(outcomes[i] == earlier[i]);
                assert(outcomes.take(i) =~= earlier.take(i));
                assert(reports_call(after[k], plan, reverting, outcomes, i));
            } else {
                assert(outcomes.take(n) =~= earlier);
                assert(reports_call(after[k], plan, reverting, outcomes, n));
            }
        }
    }
}

/// Recording one more outcome, as `ApplyEngine::record` does, is what takes
/// `failures_after` from one call to the next.
pub proof fn lemma_one_more_outcome(
    plan: Seq<CallView>,
    reverting: bool,
    outcomes: Seq<Result<(), String>>,
    outcome: Result<(), String>,
)
    ensures
        failures_after(plan, reverting, outcomes.push(outcome)) == recorded(
            failures_after(plan, reverting, outcomes),
            reverting,
            plan[outcomes.len() as int],
            outcome,
        ),
{
    assert(outcomes.push(outcome).drop_last() =~= outcomes);
}

/// One run over a set of wanted settings.
#[derive(Debug)]
pub struct ApplyEngine {
    calls: Vec<DriverCall>,
    made: usize,
    reverting: bool,
    errors: Vec<ApplyError>,
}

fn call_for(monitor: &Monitor, setting: Setting) -> (call: DriverCall)
    ensures
        call@ == (CallView {
            monitor_name: monitor.name@,
            device_name: monitor.device_name@,
            setting,
        }),
{
    DriverCall {
        monitor_name: monitor.name.clone(),
        device_name: monitor.device_name.clone(),
        setting,
    }
}

fn plan_resolutions(
    calls: &mut Vec<DriverCall>,
    settings: &IdMap<Resolution>,
    monitors: &Vec<Monitor>,
)
    ensures
        call_views(final(calls)@) == call_views(old(calls)@) + resolution_calls(
            settings.entries(),
            monitors@,
        ),
{
    let ghost start = call_views(calls@);
    let ghost map = resolution_call(monitors@);
    let mut i: usize = 0;
    proof {
        assert(settings.entries().take(0) =~= Seq::<(Id, Resolution)>::empty());
        assert(start + settings.entries().take(0).filter_map(map) =~= start);
    }
    while i < settings.len()
        invariant
            i <= settings.entries().len(),
            map == resolution_call(monitors@),
            call_views(calls@) == start + settings.entries().take(i as int).filter_map(map),
        decreases settings.entries().len() - i,
    {
        let id = settings.id_at(i);
        let resolution = *settings.value_at(i);
        proof {
            settings.entries().lemma_filter_map_take_succ(map, i as int);
        }
        match find_monitor(monitors, id) {
            Some(at) => {
                let ghost before = call_views(calls@);
                calls.push(call_for(&monitors[at], Setting::Resolution(resolution)));
                proof {
                    assert(call_views(calls@) =~= before.push(calls@.last()@));
                    assert(call_views(calls@) =~= start + settings.entries().take(
                        i + 1,
                    ).filter_map(map));
                }
            },
            None => {
                proof {
                    assert(call_views(calls@) =~= start + settings.entries().take(
                        i + 1,
                    ).filter_map(map));
                }
            },
        }
        i += 1;
    }
    proof {
        assert(settings.entries().take(i as int) =~= settings.entries());
    }
}

fn plan_orientations(
    calls: &mut Vec<DriverCall>,
    orientations: &IdMap<Orientation>,
    monitors: &Vec<Monitor>,
)
    ensures
        call_views(final(calls)@) == call_views(old(calls)@) + orientation_calls(
            orientations.entries(),
            monitors@,
        ),
{
    let ghost start = call_views(calls@);
    let ghost map = orientation_call(monitors@);
    let mut i: usize = 0;
    proof {
        assert(orientations.entries().take(0) =~= Seq::<(Id, Orientation)>::empty());
        assert(start + orientations.entries().take(0).filter_map(map) =~= start);
    }
    while i < orientations.len()
        invariant
            i <= orientations.entries().len(),
            map == orientation_call(monitors@),
            call_views(calls@) == start + orientations.entries().take(i as int).filter_map(map),
        decreases orientations.entries().len() - i,
    {
        let id = orientations.id_at(i);
        let orientation = *orientations.value_at(i);
        proof {
            orientations.entries().lemma_filter_map_take_succ(map, i as int);
        }
        match find_monitor(monitors, id) {
            Some(at) => {
                let ghost before = call_views(calls@);
                calls.push(call_for(&monitors[at], Setting::Orientation(orientation)));
                proof {
                    assert(call_views(calls@) =~= before.push(calls@.last()@));
                    assert(call_views(calls@) =~= start + orientations.entries().take(
                        i + 1,
                    ).filter_map(map));
                }
            },
            None => {
                proof {
                    assert(call_views(calls@) =~= start + orientations.entries().take(
                        i + 1,
                    ).filter_map(map));
                }
            },
        }
        i += 1;
    }
    proof {
        assert(orientations.entries().take(i as int) =~= orientations.entries());
    }
}

impl ApplyEngine {
    /// Every call of this run, in the order in which they are made.
    pub closed spec fn plan(&self) -> Seq<CallView> {
        call_views(self.calls@)
    }

    /// How many calls of the plan have been answered.
    pub closed spec fn made(&self) -> nat {
        self.made as nat
    }

    /// Whether this run puts back a last-good snapshot.
    pub closed spec fn reverting(&self) -> bool {
        self.reverting
    }

    /// The failures recorded so far, in the order of the calls.
    pub closed spec fn failures(&self) -> Seq<FailureView> {
        failure_views(self.errors@)
    }

    #[verifier::type_invariant]
    pub closed spec fn well_formed(&self) -> bool {
        self.made <= self.calls@.len()
    }

    /// Starts a run that pushes the wanted settings to the driver: first the
    /// resolutions, then the orientations, each in the order in which it is
    /// staged. Ids that no attached monitor has are passed over in silence.
    pub fn apply(
        settings: &IdMap<Resolution>,
        orientations: &IdMap<Orientation>,
        monitors: &Vec<Monitor>,
    ) -> (engine: ApplyEngine)
        ensures
            engine.plan() == resolution_calls(settings.entries(), monitors@) + orientation_calls(
                orientations.entries(),
                monitors@,
            ),
            engine.made() == 0,
            !engine.reverting(),
            engine.failures() == Seq::<FailureView>::empty(),
    {
        let mut calls: Vec<DriverCall> = Vec::new();
        assert(call_views(calls@) =~= Seq::<CallView>::empty());
        plan_resolutions(&mut calls, settings, monitors);
        plan_orientations(&mut calls, orientations, monitors);
        let engine = ApplyEngine { calls, made: 0, reverting: false, errors: Vec::new() };
        assert(engine.failures() =~= Seq::<FailureView>::empty());
        assert(engine.plan() =~= resolution_calls(settings.entries(), monitors@)
            + orientation_calls(orientations.entries(), monitors@));
        engine
    }

    /// Starts a run that puts the resolutions of a last-good snapshot back.
    pub fn revert(last_good: &IdMap<Resolution>, monitors: &Vec<Monitor>) -> (engine: ApplyEngine)
        ensures
            engine.plan() == resolution_calls(last_good.entries(), monitors@),
            engine.made() == 0,
            engine.reverting(),
            engine.failures() == Seq::<FailureView>::empty(),
    {
        let mut calls: Vec<DriverCall> = Vec::new();
        assert(call_views(calls@) =~= Seq::<CallView>::empty());
        plan_resolutions(&mut calls, last_good, monitors);
        let engine = ApplyEngine { calls, made: 0, reverting: true, errors: Vec::new() };
        assert(engine.failures() =~= Seq::<FailureView>::empty());
        assert(engine.plan() =~= resolution_calls(last_good.entries(), monitors@));
        engine
    }

    /// The call that the driver is to carry out next, or `None` when every
    /// call of the plan has been answered.
    pub fn pending(&self) -> (call: Option<&DriverCall>)
        ensures
            call is Some <==> self.made() < self.plan().len(),
            call matches Some(c) ==> c@ == self.plan()[self.made() as int],
    {
        proof {
            use_type_invariant(self);
        }
        if self.made < self.calls.len() {
            Some(&self.calls[self.made])
        } else {
            None
        }
    }

    /// Whether every call of the plan has been answered.
    pub fn is_done(&self) -> (done: bool)
        ensures
            done == (self.made() == self.plan().len()),
    {
        proof {
            use_type_invariant(self);
        }
        self.made >= self.calls.len()
    }

    /// Records the driver's answer to the pending call and moves on to the
    /// next one, whatever the answer was. With no call pending nothing
    /// changes.
    pub fn record(&mut self, outcome: Result<(), String>)
        ensures
            final(self).plan() == old(self).plan(),
            final(self).reverting() == old(self).reverting(),
            old(self).made() < old(self).plan().len() ==> final(self).made() == old(self).made()
                + 1 && final(self).failures() == recorded(
                old(self).failures(),
                old(self).reverting(),
                old(self).plan()[old(self).made() as int],
                outcome,
            ),
            old(self).made() >= old(self).plan().len() ==> final(self).made() == old(self).made()
                && final(self).failures() == old(self).failures(),
    {
        proof {
            use_type_invariant(&*self);
        }
        if self.made < self.calls.len() {
            match outcome {
                Ok(_) => {},
                Err(detail) => {
                    let call = &self.calls[self.made];
                    let kind = if self.reverting {
                        ApplyKind::Revert
                    } else {
                        match call.setting {
                            Setting::Resolution(_) => ApplyKind::Resolution,
                            Setting::Orientation(_) => ApplyKind::Orientation,
                        }
                    };
                    let error = ApplyError {
                        kind,
                        monitor_name: call.monitor_name.clone(),
                        detail,
                    };
                    let ghost before = self.failures();
                    let mut errors: Vec<ApplyError> = Vec::new();
                    std::mem::swap(&mut errors, &mut self.errors);
                    errors.push(error);
                    assert(failure_views(errors@) =~= before.push(error@));
                    self.errors = errors;
                },
            }
            self.made = self.made + 1;
        }
    }

    /// Ends the run and hands out the failures, in the order of the calls.
    /// An empty list means that every call that was answered succeeded.
    pub fn finish(self) -> (errors: Vec<ApplyError>)
        ensures
            failure_views(errors@) == self.failures(),
    {
        self.errors
    }
}

} // verus!
