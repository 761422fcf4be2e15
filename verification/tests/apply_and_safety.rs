use yarm::apply::{ApplyEngine, DriverCall, Setting};
use yarm::display::{Monitor, Orientation, Resolution};
use yarm::error::ApplyKind;
use yarm::id_map::IdMap;
use yarm::safety::SafetyNetController;

fn res(width: u32, height: u32, frequency: u32) -> Resolution {
    Resolution { width, height, frequency, bits_per_pixel: 32 }
}

fn monitor(id: &str, current: Resolution) -> Monitor {
    Monitor {
        id: id.to_string(),
        name: format!("Monitor {}", id),
        device_name: format!("\\\\.\\{}", id),
        current_resolution: current,
        current_orientation: Orientation::Landscape,
        position: (0, 0),
        is_primary: false,
        available_resolutions: vec![current],
    }
}

fn key(id: &str) -> String {
    id.to_string()
}

fn entries(map: &IdMap<Resolution>) -> Vec<(String, Resolution)> {
    let mut out = Vec::new();
    for i in 0..map.len() {
        out.push((map.id_at(i).clone(), *map.value_at(i)));
    }
    out
}

fn seen(call: &DriverCall) -> (String, String, Setting) {
    (call.monitor_name.clone(), call.device_name.clone(), call.setting)
}

/// Runs an engine against a driver that refuses every call to one of the
/// named devices, and returns the calls it was asked to make.
fn run(engine: &mut ApplyEngine, refusing: &[&str]) -> Vec<(String, String, Setting)> {
    let mut calls = Vec::new();
    loop {
        let call = match engine.pending() {
            Some(call) => seen(call),
            None => break,
        };
        let outcome = if refusing.contains(&call.1.as_str()) {
            Err(format!("refused by {}", call.1))
        } else {
            Ok(())
        };
        calls.push(call);
        engine.record(outcome);
    }
    calls
}

#[test]
fn apply_makes_resolution_calls_then_orientation_calls() {
    let monitors = vec![monitor("A", res(1920, 1080, 60)), monitor("B", res(1280, 720, 60))];
    let mut settings: IdMap<Resolution> = IdMap::new();
    settings.insert(key("B"), res(800, 600, 60));
    settings.insert(key("A"), res(1600, 900, 60));
    let mut orientations: IdMap<Orientation> = IdMap::new();
    orientations.insert(key("A"), Orientation::Portrait);
    let mut engine = ApplyEngine::apply(&settings, &orientations, &monitors);
    assert!(!engine.is_done());
    let calls = run(&mut engine, &[]);
    assert_eq!(
        calls,
        vec![
            (key("Monitor B"), key("\\\\.\\B"), Setting::Resolution(res(800, 600, 60))),
            (key("Monitor A"), key("\\\\.\\A"), Setting::Resolution(res(1600, 900, 60))),
            (key("Monitor A"), key("\\\\.\\A"), Setting::Orientation(Orientation::Portrait)),
        ]
    );
    assert!(engine.is_done());
    assert!(engine.pending().is_none());
    assert!(engine.finish().is_empty());
}

#[test]
fn apply_ignores_ids_of_unknown_monitors() {
    let monitors = vec![monitor("A", res(1920, 1080, 60))];
    let mut settings: IdMap<Resolution> = IdMap::new();
    settings.insert(key("GONE"), res(800, 600, 60));
    settings.insert(key("A"), res(1600, 900, 60));
    let mut orientations: IdMap<Orientation> = IdMap::new();
    orientations.insert(key("GONE"), Orientation::Portrait);
    let mut engine = ApplyEngine::apply(&settings, &orientations, &monitors);
    let calls = run(&mut engine, &[]);
    assert_eq!(
        calls,
        vec![(key("Monitor A"), key("\\\\.\\A"), Setting::Resolution(res(1600, 900, 60)))]
    );
    assert!(engine.finish().is_empty());
}

#[test]
fn apply_of_nothing_is_done_at_once() {
    let engine = ApplyEngine::apply(&IdMap::new(), &IdMap::new(), &Vec::new());
    assert!(engine.is_done());
    assert!(engine.pending().is_none());
    assert!(engine.finish().is_empty());
}

#[test]
fn a_failure_on_one_monitor_does_not_stop_the_other() {
    let monitors = vec![monitor("A", res(1920, 1080, 60)), monitor("B", res(1280, 720, 60))];
    let mut settings: IdMap<Resolution> = IdMap::new();
    settings.insert(key("A"), res(1600, 900, 60));
    settings.insert(key("B"), res(800, 600, 60));
    let mut engine = ApplyEngine::apply(&settings, &IdMap::new(), &monitors);
    let calls = run(&mut engine, &["\\\\.\\A"]);
    assert_eq!(calls.len(), 2);
    assert_eq!(calls[1].1, "\\\\.\\B");
    let errors = engine.finish();
    assert_eq!(errors.len(), 1);
    assert_eq!(errors[0].kind, ApplyKind::Resolution);
    assert_eq!(errors[0].monitor_name, "Monitor A");
    assert_eq!(errors[0].detail, "refused by \\\\.\\A");
    assert_eq!(errors[0].message(), "Res Monitor A: refused by \\\\.\\A");
}

#[test]
fn failures_are_named_after_what_was_set() {
    let monitors = vec![monitor("A", res(1920, 1080, 60))];
    let mut settings: IdMap<Resolution> = IdMap::new();
    settings.insert(key("A"), res(1600, 900, 60));
    let mut orientations: IdMap<Orientation> = IdMap::new();
    orientations.insert(key("A"), Orientation::Portrait);
    let mut engine = ApplyEngine::apply(&settings, &orientations, &monitors);
    run(&mut engine, &["\\\\.\\A"]);
    let errors = engine.finish();
    let kinds: Vec<ApplyKind> = errors.iter().map(|e| e.kind).collect();
    assert_eq!(kinds, vec![ApplyKind::Resolution, ApplyKind::Orientation]);

    let mut engine = ApplyEngine::revert(&settings, &monitors);
    run(&mut engine, &["\\\\.\\A"]);
    let errors = engine.finish();
    assert_eq!(errors.len(), 1);
    assert_eq!(errors[0].kind, ApplyKind::Revert);
    assert_eq!(errors[0].message(), "Revert Monitor A: refused by \\\\.\\A");
}

#[test]
fn recording_with_nothing_pending_changes_nothing() {
    let monitors = vec![monitor("A", res(1920, 1080, 60))];
    let mut settings: IdMap<Resolution> = IdMap::new();
    settings.insert(key("A"), res(1600, 900, 60));
    let mut engine = ApplyEngine::apply(&settings, &IdMap::new(), &monitors);
    engine.record(Ok(()));
    assert!(engine.is_done());
    engine.record(Err("late".to_string()));
    assert!(engine.is_done());
    assert!(engine.finish().is_empty());
}

#[test]
fn apply_addresses_the_first_monitor_with_the_id() {
    let mut second = monitor("A", res(800, 600, 60));
    second.name = "Second".to_string();
    second.device_name = "second".to_string();
    let monitors = vec![monitor("A", res(1920, 1080, 60)), second];
    let mut settings: IdMap<Resolution> = IdMap::new();
    settings.insert(key("A"), res(1600, 900, 60));
    let mut engine = ApplyEngine::apply(&settings, &IdMap::new(), &monitors);
    let calls = run(&mut engine, &[]);
    assert_eq!(
        calls,
        vec![(key("Monitor A"), key("\\\\.\\A"), Setting::Resolution(res(1600, 900, 60)))]
    );
}

#[test]
fn snapshot_holds_what_each_monitor_shows() {
    let monitors = vec![
        monitor("A", res(1920, 1080, 60)),
        monitor("B", res(1280, 720, 60)),
        monitor("A", res(800, 600, 60)),
    ];
    let taken = SafetyNetController::snapshot(&monitors);
    assert_eq!(
        entries(&taken),
        vec![(key("A"), res(800, 600, 60)), (key("B"), res(1280, 720, 60))]
    );
    assert!(SafetyNetController::snapshot(&Vec::new()).is_empty());
}

#[test]
fn an_unconfirmed_apply_is_reverted_when_the_countdown_is_over() {
    let monitors = vec![monitor("M1", res(1920, 1080, 60))];
    let mut net = SafetyNetController::new();
    assert!(!net.is_awaiting());
    net.arm(&monitors, 3);
    assert!(net.is_awaiting());
    assert_eq!(net.remaining(), Some(3));
    for left in [2, 1, 0] {
        assert!(net.tick().is_none());
        assert_eq!(net.remaining(), Some(left));
        assert!(net.is_awaiting());
    }
    let last_good = net.tick().unwrap();
    assert_eq!(entries(&last_good), vec![(key("M1"), res(1920, 1080, 60))]);
    assert!(!net.is_awaiting());
    assert_eq!(net.remaining(), None);

    let mut engine = ApplyEngine::revert(&last_good, &monitors);
    let calls = run(&mut engine, &[]);
    assert_eq!(
        calls,
        vec![(key("Monitor M1"), key("\\\\.\\M1"), Setting::Resolution(res(1920, 1080, 60)))]
    );
    assert!(net.tick().is_none());
}

#[test]
fn a_countdown_of_zero_reverts_on_the_first_tick() {
    let mut net = SafetyNetController::new();
    net.arm(&vec![monitor("M1", res(1920, 1080, 60))], 0);
    assert_eq!(net.remaining(), Some(0));
    assert!(net.tick().is_some());
    assert!(!net.is_awaiting());
}

#[test]
fn the_default_countdown_lasts_fifteen_ticks() {
    let mut net = SafetyNetController::new();
    net.arm(&vec![monitor("M1", res(1920, 1080, 60))], 15);
    for _ in 0..15 {
        assert!(net.tick().is_none());
    }
    assert!(net.tick().is_some());
}

#[test]
fn the_longest_countdown_lasts_255_ticks() {
    let mut net = SafetyNetController::new();
    net.arm(&vec![monitor("M1", res(1920, 1080, 60))], 255);
    for _ in 0..255 {
        assert!(net.tick().is_none());
    }
    assert!(net.tick().is_some());
}

#[test]
fn a_confirmation_ends_the_countdown_for_good() {
    let mut net = SafetyNetController::new();
    net.arm(&vec![monitor("M1", res(1920, 1080, 60))], 2);
    assert!(net.tick().is_none());
    net.confirm();
    assert!(!net.is_awaiting());
    for _ in 0..10 {
        assert!(net.tick().is_none());
        assert!(!net.is_awaiting());
    }
    assert!(net.request_revert().is_none());
}

#[test]
fn a_requested_revert_hands_back_the_snapshot_at_once() {
    let mut net = SafetyNetController::new();
    net.arm(&vec![monitor("M1", res(1920, 1080, 60)), monitor("M2", res(800, 600, 60))], 15);
    let last_good = net.request_revert().unwrap();
    assert_eq!(
        entries(&last_good),
        vec![(key("M1"), res(1920, 1080, 60)), (key("M2"), res(800, 600, 60))]
    );
    assert!(!net.is_awaiting());
    assert!(net.request_revert().is_none());
    assert!(net.tick().is_none());
}

#[test]
fn an_idle_controller_ignores_ticks_and_confirmations() {
    let mut net = SafetyNetController::new();
    assert!(net.tick().is_none());
    net.confirm();
    assert!(net.request_revert().is_none());
    assert!(!net.is_awaiting());
    assert_eq!(net.remaining(), None);
}

#[test]
fn arming_again_replaces_the_running_countdown() {
    let mut net = SafetyNetController::new();
    net.arm(&vec![monitor("M1", res(1920, 1080, 60))], 5);
    assert!(net.tick().is_none());
    net.arm(&vec![monitor("M1", res(1280, 720, 60))], 9);
    assert_eq!(net.remaining(), Some(9));
    let last_good = net.request_revert().unwrap();
    assert_eq!(entries(&last_good), vec![(key("M1"), res(1280, 720, 60))]);
}

#[test]
fn a_state_can_be_written_down_and_run() {
    let mut last_good: IdMap<Resolution> = IdMap::new();
    last_good.insert(key("M1"), res(1920, 1080, 60));
    let mut net = SafetyNetController::AwaitingConfirmation { remaining_ticks: 1, last_good };
    assert!(net.tick().is_none());
    let handed = net.tick().unwrap();
    assert_eq!(entries(&handed), vec![(key("M1"), res(1920, 1080, 60))]);
    assert!(matches!(net, SafetyNetController::Idle));
}

#[test]
fn a_call_comes_to_the_request_for_its_setting() {
    let current = yarm::display::manager::DeviceMode {
        width: 1920,
        height: 1080,
        frequency: 60,
        bits_per_pixel: 32,
        orientation: 0,
        position_x: 0,
        position_y: 0,
    };
    let mut call = DriverCall {
        monitor_name: key("Monitor A"),
        device_name: key("A"),
        setting: Setting::Orientation(Orientation::Portrait),
    };
    let wanted = call.request(&current);
    assert_eq!((wanted.mode.width, wanted.mode.height), (1080, 1920));
    assert_eq!(wanted.mode.orientation, 1);
    assert!(wanted.fields.width && wanted.fields.height && wanted.fields.orientation);
    assert!(!wanted.fields.frequency && !wanted.fields.bits_per_pixel);

    call.setting = Setting::Orientation(Orientation::LandscapeFlipped);
    let wanted = call.request(&current);
    assert_eq!((wanted.mode.width, wanted.mode.height), (1920, 1080));
    assert!(!wanted.fields.width && !wanted.fields.height);

    call.setting = Setting::Resolution(res(1280, 720, 75));
    let wanted = call.request(&current);
    assert_eq!((wanted.mode.width, wanted.mode.height), (1280, 720));
    assert_eq!(wanted.mode.frequency, 75);
    assert_eq!(wanted.mode.orientation, 0);
    assert!(wanted.fields.width && wanted.fields.frequency && !wanted.fields.orientation);
}
