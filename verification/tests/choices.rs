use yarm::choices::{best_match_at, dimension_choices, frequency_choices, Dimension};
use yarm::display::modes::{catalog_form, ranked_form};
use yarm::display::{Monitor, Orientation, Resolution};

fn res(width: u32, height: u32, frequency: u32, bits_per_pixel: u32) -> Resolution {
    Resolution { width, height, frequency, bits_per_pixel }
}

fn dim(width: u32, height: u32) -> Dimension {
    Dimension { width, height }
}

fn monitor(modes: Vec<Resolution>) -> Monitor {
    Monitor {
        id: "M1".to_string(),
        name: "Monitor".to_string(),
        device_name: "\\\\.\\DISPLAY1".to_string(),
        current_resolution: res(1920, 1080, 60, 32),
        current_orientation: Orientation::Landscape,
        position: (0, 0),
        is_primary: true,
        available_resolutions: modes,
    }
}

fn sample() -> Monitor {
    monitor(catalog_form(&vec![
        res(1280, 720, 60, 32),
        res(1920, 1080, 60, 32),
        res(1920, 1080, 144, 32),
        res(1920, 1080, 144, 16),
        res(1080, 1920, 60, 32),
        res(2560, 1440, 75, 32),
        res(1920, 1080, 75, 32),
        res(1920, 1200, 60, 32),
        res(1280, 720, 50, 32),
    ]))
}

#[test]
fn dimension_choices_go_by_area_and_hold_each_size_once() {
    assert_eq!(
        dimension_choices(&sample()),
        vec![dim(2560, 1440), dim(1920, 1200), dim(1920, 1080), dim(1080, 1920), dim(1280, 720)]
    );
    assert!(dimension_choices(&monitor(Vec::new())).is_empty());
}

#[test]
fn dimension_choices_agree_with_a_stable_sort_by_area() {
    let m = sample();
    let mut expected: Vec<Dimension> =
        m.available_resolutions.iter().map(|r| dim(r.width, r.height)).collect();
    expected.sort_by(|a, b| {
        (b.width as u64 * b.height as u64).cmp(&(a.width as u64 * a.height as u64))
    });
    expected.dedup();
    assert_eq!(dimension_choices(&m), expected);
}

#[test]
fn dimension_area_does_not_overflow() {
    assert_eq!(dim(u32::MAX, u32::MAX).pixels(), 18446744065119617025);
    assert_eq!(dim(1920, 1080).pixels(), 2073600);
    assert_eq!(dim(0, 77).pixels(), 0);
    let m = monitor(vec![res(65536, 65536, 60, 32), res(1, 1, 60, 32), res(70000, 70000, 60, 32)]);
    assert_eq!(dimension_choices(&m), vec![dim(70000, 70000), dim(65536, 65536), dim(1, 1)]);
}

#[test]
fn dimension_label() {
    assert_eq!(dim(1920, 1080).label(), "1920x1080");
    assert_eq!(dim(0, 0).label(), "0x0");
}

#[test]
fn frequency_choices_are_the_rates_of_one_size_highest_first() {
    let m = sample();
    assert_eq!(frequency_choices(&m, 1920, 1080), vec![144, 75, 60]);
    assert_eq!(frequency_choices(&m, 1280, 720), vec![60, 50]);
    assert_eq!(frequency_choices(&m, 1080, 1920), vec![60]);
    assert_eq!(frequency_choices(&m, 640, 480), Vec::<u32>::new());
    assert_eq!(frequency_choices(&m, 1920, 720), Vec::<u32>::new());
}

#[test]
fn frequency_choices_of_an_unordered_list() {
    let m = monitor(vec![
        res(800, 600, 60, 32),
        res(800, 600, 85, 16),
        res(800, 600, 60, 16),
        res(1024, 768, 120, 32),
        res(800, 600, 72, 32),
        res(800, 600, 85, 32),
    ]);
    assert_eq!(frequency_choices(&m, 800, 600), vec![85, 72, 60]);
}

#[test]
fn best_match_at_takes_the_highest_colour_depth() {
    let m = sample();
    assert_eq!(best_match_at(&m, 1920, 1080, 144), Some(res(1920, 1080, 144, 32)));
    assert_eq!(best_match_at(&m, 1920, 1080, 60), Some(res(1920, 1080, 60, 32)));
    assert_eq!(best_match_at(&m, 1920, 1080, 50), None);
    assert_eq!(best_match_at(&m, 1280, 1080, 60), None);
    let shallow_last = monitor(vec![res(800, 600, 60, 32), res(800, 600, 60, 8)]);
    assert_eq!(best_match_at(&shallow_last, 800, 600, 60), Some(res(800, 600, 60, 32)));
    let deep_last = monitor(vec![res(800, 600, 60, 8), res(800, 600, 60, 32)]);
    assert_eq!(best_match_at(&deep_last, 800, 600, 60), Some(res(800, 600, 60, 32)));
}

#[test]
fn ranked_form_of_numbers_is_strictly_descending() {
    assert_eq!(ranked_form(&vec![60u32, 144, 60, 75, 144, 30]), vec![144, 75, 60, 30]);
    assert_eq!(ranked_form(&Vec::<u32>::new()), Vec::<u32>::new());
}
