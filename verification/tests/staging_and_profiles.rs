use yarm::config::{
    default_reset_timeout, AppConfig, ConfigManager, GeneralConfig, MonitorSetting, Profile,
};
use yarm::display::{Monitor, Orientation, Resolution};
use yarm::id_map::IdMap;
use yarm::staging::StagingStore;

fn res(width: u32, height: u32, frequency: u32) -> Resolution {
    Resolution { width, height, frequency, bits_per_pixel: 32 }
}

fn monitor(id: &str, current: Resolution, orientation: Orientation) -> Monitor {
    Monitor {
        id: id.to_string(),
        name: format!("Monitor {}", id),
        device_name: format!("\\\\.\\{}", id),
        current_resolution: current,
        current_orientation: orientation,
        position: (0, 0),
        is_primary: false,
        available_resolutions: vec![current],
    }
}

fn entries<T: Copy>(map: &IdMap<T>) -> Vec<(String, T)> {
    let mut out = Vec::new();
    for i in 0..map.len() {
        out.push((map.id_at(i).clone(), *map.value_at(i)));
    }
    out
}

fn key(id: &str) -> String {
    id.to_string()
}

fn setting(id: &str, resolution: Resolution) -> MonitorSetting {
    MonitorSetting { monitor_id: id.to_string(), resolution }
}

#[test]
fn id_map_keeps_first_arrival_order_and_last_value() {
    let mut map: IdMap<u32> = IdMap::new();
    assert!(map.is_empty());
    map.insert(key("b"), 1);
    map.insert(key("a"), 2);
    map.insert(key("b"), 3);
    map.insert(key("c"), 4);
    assert_eq!(map.len(), 3);
    assert_eq!(entries(&map), vec![(key("b"), 3), (key("a"), 2), (key("c"), 4)]);
    assert_eq!(map.get(&key("a")), Some(&2));
    assert_eq!(map.get(&key("b")), Some(&3));
    assert_eq!(map.get(&key("d")), None);
    assert!(map.contains_key(&key("c")));
    assert!(!map.contains_key(&key("")));
    assert_eq!(map.position_of(&key("a")), Some(1));
    assert_eq!(map.position_of(&key("z")), None);
}

#[test]
fn id_map_insert_if_absent_never_overwrites() {
    let mut map: IdMap<u32> = IdMap::new();
    map.insert_if_absent(key("a"), 1);
    map.insert_if_absent(key("a"), 2);
    map.insert_if_absent(key("b"), 3);
    assert_eq!(entries(&map), vec![(key("a"), 1), (key("b"), 3)]);
}

#[test]
fn id_map_duplicate_and_clear() {
    let mut map: IdMap<u32> = IdMap::new();
    map.insert(key("a"), 1);
    map.insert(key("b"), 2);
    let copy = map.duplicate();
    map.clear();
    assert!(map.is_empty());
    assert_eq!(map.get(&key("a")), None);
    assert_eq!(entries(&copy), vec![(key("a"), 1), (key("b"), 2)]);
}

#[test]
fn reconcile_seeds_a_monitor_seen_for_the_first_time_with_its_current_values() {
    let mut store = StagingStore::new();
    let catalog = vec![
        monitor("M1", res(1920, 1080, 60), Orientation::Landscape),
        monitor("M2", res(1080, 1920, 75), Orientation::Portrait),
    ];
    store.reconcile(&catalog);
    assert_eq!(
        entries(&store.resolutions),
        vec![(key("M1"), res(1920, 1080, 60)), (key("M2"), res(1080, 1920, 75))]
    );
    assert_eq!(
        entries(&store.orientations),
        vec![(key("M1"), Orientation::Landscape), (key("M2"), Orientation::Portrait)]
    );
}

#[test]
fn reconcile_twice_against_the_same_catalog_changes_nothing() {
    let mut store = StagingStore::new();
    store.set_resolution(key("M2"), res(800, 600, 60));
    store.set_orientation(key("M9"), Orientation::PortraitFlipped);
    let catalog = vec![
        monitor("M1", res(1920, 1080, 60), Orientation::Landscape),
        monitor("M2", res(1080, 1920, 75), Orientation::Portrait),
    ];
    store.reconcile(&catalog);
    let resolutions = entries(&store.resolutions);
    let orientations = entries(&store.orientations);
    store.reconcile(&catalog);
    assert_eq!(entries(&store.resolutions), resolutions);
    assert_eq!(entries(&store.orientations), orientations);
}

#[test]
fn reconcile_never_overwrites_staged_intent() {
    let mut store = StagingStore::new();
    store.set_resolution(key("M1"), res(1280, 720, 60));
    store.set_orientation(key("M1"), Orientation::LandscapeFlipped);
    let catalog = vec![monitor("M1", res(1920, 1080, 60), Orientation::Landscape)];
    store.reconcile(&catalog);
    assert_eq!(store.resolutions.get(&key("M1")), Some(&res(1280, 720, 60)));
    assert_eq!(store.orientations.get(&key("M1")), Some(&Orientation::LandscapeFlipped));
}

#[test]
fn reconcile_keeps_ids_that_left_the_catalog() {
    let mut store = StagingStore::new();
    store.reconcile(&vec![
        monitor("M1", res(1920, 1080, 60), Orientation::Landscape),
        monitor("M2", res(1280, 720, 60), Orientation::Landscape),
    ]);
    store.reconcile(&vec![monitor("M2", res(800, 600, 60), Orientation::Portrait)]);
    assert_eq!(store.resolutions.get(&key("M1")), Some(&res(1920, 1080, 60)));
    assert_eq!(store.resolutions.get(&key("M2")), Some(&res(1280, 720, 60)));
    assert_eq!(store.orientations.get(&key("M2")), Some(&Orientation::Landscape));
    assert_eq!(store.resolutions.len(), 2);
}

#[test]
fn reconcile_seeds_one_map_where_only_the_other_is_staged() {
    let mut store = StagingStore::new();
    store.set_resolution(key("M1"), res(1280, 720, 60));
    store.reconcile(&vec![monitor("M1", res(1920, 1080, 60), Orientation::Portrait)]);
    assert_eq!(store.resolutions.get(&key("M1")), Some(&res(1280, 720, 60)));
    assert_eq!(store.orientations.get(&key("M1")), Some(&Orientation::Portrait));
}

#[test]
fn reconcile_takes_the_first_of_two_monitors_with_one_id() {
    let mut store = StagingStore::new();
    store.reconcile(&vec![
        monitor("M1", res(1920, 1080, 60), Orientation::Landscape),
        monitor("M1", res(800, 600, 60), Orientation::Portrait),
    ]);
    assert_eq!(entries(&store.resolutions), vec![(key("M1"), res(1920, 1080, 60))]);
    assert_eq!(entries(&store.orientations), vec![(key("M1"), Orientation::Landscape)]);
}

#[test]
fn set_resolution_accepts_any_value_for_any_id() {
    let mut store = StagingStore::new();
    store.set_resolution(key("nobody"), res(1, 2, 3));
    store.set_resolution(key("nobody"), res(0, 0, 0));
    store.set_orientation(key("nobody"), Orientation::Portrait);
    assert_eq!(entries(&store.resolutions), vec![(key("nobody"), res(0, 0, 0))]);
    assert_eq!(entries(&store.orientations), vec![(key("nobody"), Orientation::Portrait)]);
}

#[test]
fn best_match_takes_the_highest_refresh_rate() {
    let mut m = monitor("M1", res(1920, 1080, 60), Orientation::Landscape);
    m.available_resolutions = vec![res(1920, 1080, 60), res(1920, 1080, 144), res(1920, 1080, 75)];
    assert_eq!(StagingStore::best_match(&m, 1920, 1080), Some(res(1920, 1080, 144)));
}

#[test]
fn best_match_breaks_a_tie_in_rate_by_colour_depth() {
    let mut m = monitor("M1", res(1920, 1080, 60), Orientation::Landscape);
    let deep = Resolution { width: 1920, height: 1080, frequency: 144, bits_per_pixel: 32 };
    let shallow = Resolution { width: 1920, height: 1080, frequency: 144, bits_per_pixel: 16 };
    let slow = Resolution { width: 1920, height: 1080, frequency: 60, bits_per_pixel: 64 };
    m.available_resolutions = vec![shallow, slow, deep, res(2560, 1440, 240)];
    assert_eq!(StagingStore::best_match(&m, 1920, 1080), Some(deep));
    m.available_resolutions = vec![deep, slow, shallow];
    assert_eq!(StagingStore::best_match(&m, 1920, 1080), Some(deep));
}

#[test]
fn best_match_wants_both_dimensions_equal() {
    let mut m = monitor("M1", res(1920, 1080, 60), Orientation::Landscape);
    m.available_resolutions = vec![res(1920, 1200, 60), res(1600, 1080, 60)];
    assert_eq!(StagingStore::best_match(&m, 1920, 1080), None);
    m.available_resolutions = Vec::new();
    assert_eq!(StagingStore::best_match(&m, 1920, 1080), None);
}

#[test]
fn apply_profile_skips_settings_for_unattached_monitors() {
    let mut store = StagingStore::new();
    let monitors = vec![
        monitor("M1", res(1920, 1080, 60), Orientation::Landscape),
        monitor("M2", res(1920, 1080, 60), Orientation::Landscape),
    ];
    store.reconcile(&monitors);
    let profile = Profile {
        name: "Work".to_string(),
        settings: vec![
            setting("M1", res(1280, 720, 60)),
            setting("GONE", res(640, 480, 60)),
            setting("M2", res(800, 600, 75)),
        ],
    };
    store.apply_profile(&profile, &monitors);
    assert_eq!(
        entries(&store.resolutions),
        vec![(key("M1"), res(1280, 720, 60)), (key("M2"), res(800, 600, 75))]
    );
    assert_eq!(store.resolutions.get(&key("GONE")), None);
    assert_eq!(
        entries(&store.orientations),
        vec![(key("M1"), Orientation::Landscape), (key("M2"), Orientation::Landscape)]
    );
}

#[test]
fn apply_profile_stages_the_last_setting_for_a_monitor_named_twice() {
    let mut store = StagingStore::new();
    let monitors = vec![monitor("M1", res(1920, 1080, 60), Orientation::Landscape)];
    let profile = Profile {
        name: "Twice".to_string(),
        settings: vec![setting("M1", res(1280, 720, 60)), setting("M1", res(800, 600, 60))],
    };
    store.apply_profile(&profile, &monitors);
    assert_eq!(entries(&store.resolutions), vec![(key("M1"), res(800, 600, 60))]);
}

#[test]
fn restore_stages_the_snapshot_for_attached_monitors() {
    let mut store = StagingStore::new();
    store.set_resolution(key("M1"), res(1280, 720, 60));
    store.set_resolution(key("M3"), res(1280, 720, 60));
    let mut last_good: IdMap<Resolution> = IdMap::new();
    last_good.insert(key("M1"), res(1920, 1080, 60));
    last_good.insert(key("M2"), res(1920, 1080, 60));
    last_good.insert(key("M3"), res(1600, 900, 60));
    let monitors = vec![
        monitor("M1", res(1280, 720, 60), Orientation::Landscape),
        monitor("M2", res(1280, 720, 60), Orientation::Landscape),
    ];
    store.restore(&last_good, &monitors);
    assert_eq!(
        entries(&store.resolutions),
        vec![
            (key("M1"), res(1920, 1080, 60)),
            (key("M3"), res(1280, 720, 60)),
            (key("M2"), res(1920, 1080, 60)),
        ]
    );
}

#[test]
fn default_configuration() {
    assert_eq!(default_reset_timeout(), 15);
    assert_eq!(GeneralConfig::default().reset_timeout, 15);
    let config = AppConfig::default();
    assert_eq!(config.general.reset_timeout, 15);
    assert!(config.profiles.is_empty());
}

#[test]
fn saving_under_one_name_twice_leaves_the_second_profile_only() {
    let mut config = AppConfig::default();
    config.add_or_replace(Profile {
        name: "Home".to_string(),
        settings: vec![setting("M1", res(1280, 720, 60))],
    });
    config.add_or_replace(Profile {
        name: "Work".to_string(),
        settings: vec![setting("M1", res(1920, 1080, 60))],
    });
    config.add_or_replace(Profile {
        name: "Work".to_string(),
        settings: vec![setting("M1", res(2560, 1440, 144)), setting("M2", res(800, 600, 60))],
    });
    let named: Vec<&Profile> = config.profiles.iter().filter(|p| p.name == "Work").collect();
    assert_eq!(named.len(), 1);
    assert_eq!(
        named[0].settings,
        vec![setting("M1", res(2560, 1440, 144)), setting("M2", res(800, 600, 60))]
    );
    assert_eq!(config.profiles.len(), 2);
    assert_eq!(config.profiles[0].name, "Home");
    assert_eq!(config.profiles[1].name, "Work");
    assert_eq!(config.general.reset_timeout, 15);
}

#[test]
fn a_replaced_profile_moves_to_the_end() {
    let mut config = AppConfig::default();
    for name in ["A", "B", "C"] {
        config.add_or_replace(Profile { name: name.to_string(), settings: Vec::new() });
    }
    config.add_or_replace(Profile {
        name: "A".to_string(),
        settings: vec![setting("M1", res(1, 1, 1))],
    });
    let names: Vec<&str> = config.profiles.iter().map(|p| p.name.as_str()).collect();
    assert_eq!(names, vec!["B", "C", "A"]);
}

#[test]
fn add_or_replace_clears_every_profile_of_the_name() {
    let mut config = AppConfig::default();
    for name in ["X", "A", "X", "X", "B"] {
        config.profiles.push(Profile { name: name.to_string(), settings: Vec::new() });
    }
    config.add_or_replace(Profile {
        name: "X".to_string(),
        settings: vec![setting("M", res(1, 2, 3))],
    });
    let names: Vec<&str> = config.profiles.iter().map(|p| p.name.as_str()).collect();
    assert_eq!(names, vec!["A", "B", "X"]);
    assert_eq!(config.profiles[2].settings.len(), 1);
}

#[test]
fn remove_profile_says_whether_there_was_one() {
    let mut config = AppConfig::default();
    for name in ["A", "B", "A"] {
        config.profiles.push(Profile { name: name.to_string(), settings: Vec::new() });
    }
    assert!(!config.remove_profile(&key("C")));
    assert_eq!(config.profiles.len(), 3);
    assert!(config.remove_profile(&key("A")));
    let names: Vec<&str> = config.profiles.iter().map(|p| p.name.as_str()).collect();
    assert_eq!(names, vec!["B"]);
    assert!(config.remove_profile(&key("B")));
    assert!(config.profiles.is_empty());
    assert!(!config.remove_profile(&key("B")));
}

#[test]
fn find_profile_gives_the_first_of_the_name() {
    let mut config = AppConfig::default();
    for name in ["A", "B", "B"] {
        config.profiles.push(Profile { name: name.to_string(), settings: Vec::new() });
    }
    assert_eq!(config.find_profile(&key("A")), Some(0));
    assert_eq!(config.find_profile(&key("B")), Some(1));
    assert_eq!(config.find_profile(&key("b")), None);
}

#[test]
fn profile_from_staged_keeps_the_staging_order() {
    let mut staged: IdMap<Resolution> = IdMap::new();
    staged.insert(key("M2"), res(1280, 720, 60));
    staged.insert(key("M1"), res(1920, 1080, 60));
    let profile = Profile::from_staged(key("Work"), &staged);
    assert_eq!(profile.name, "Work");
    assert_eq!(
        profile.settings,
        vec![setting("M2", res(1280, 720, 60)), setting("M1", res(1920, 1080, 60))]
    );
    assert!(Profile::from_staged(key("Empty"), &IdMap::new()).settings.is_empty());
}

#[test]
fn load_gives_the_default_where_nothing_is_stored() {
    let config = ConfigManager::load(None).unwrap();
    assert_eq!(config.general.reset_timeout, 15);
    assert!(config.profiles.is_empty());
}

#[test]
fn load_hands_on_what_is_stored() {
    let stored = AppConfig {
        general: GeneralConfig { reset_timeout: 30 },
        profiles: vec![Profile { name: "Work".to_string(), settings: Vec::new() }],
    };
    let config = ConfigManager::load(Some(Ok(stored))).unwrap();
    assert_eq!(config.general.reset_timeout, 30);
    assert_eq!(config.profiles.len(), 1);
    assert_eq!(config.profiles[0].name, "Work");
}

#[test]
fn load_reports_what_could_not_be_read() {
    let error = ConfigManager::load(Some(Err("bad toml".to_string()))).unwrap_err();
    assert_eq!(error.detail, "bad toml");
}
