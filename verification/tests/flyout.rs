use barometer::flyout::appicon::{text_precedes, Cache, PidMemory, PID_MEMORY_SECONDS};
use barometer::flyout::cpu::{
    core_label, core_summary, count, end_task_id, end_task_pid, end_task_row, processes_text,
    remember, switched_range, timeline_points, timeline_span, uptime, CoreKind, HistoryRange,
    cpu_cards, CpuCard, Sample, DASH, GRAPH_POINTS, RANGE_ID,
};
use barometer::flyout::disks::{disk_cards, DiskCard};
use barometer::flyout::gpu::{engines_by_load, gpu_memory, EngineLoad, GpuMemory};
use barometer::flyout::memory::{memory_cards, MemoryCard};
use barometer::flyout::network::{activity_chips, network_cards, ChipTone, NetworkCard, ProcessRows};
use barometer::flyout::{gpu, network};
use barometer::flyout::disks::Volume;
use barometer::flyout::dismiss::Monitor;
use barometer::flyout::gpu::engine_title;
use barometer::flyout::memory::{Breakdown, CommitLevel, MemoryLists, MemorySnapshot, Segment};
use barometer::flyout::network::{signal_color, Connection, COPY_BASE};
use barometer::flyout::placement::{contained, height, inset, opening, place, width, Opening};
use barometer::flyout::sensors::{
    cards, count_words, display_name, eq_ignore_ascii_case, ordered, short_words, subtitle, ReadingKind,
    SensorProblem, SensorReading,
};
use barometer::flyout::stack::{switch_id, switch_index, title};
use barometer::flyout::ui::Id;
use barometer::geometry::PxRect;
use barometer::taskbar::Edge;
use barometer::theme::Color;
use barometer::weather::models::TemperatureUnit;
use std::collections::VecDeque;

fn encloses(outer: PxRect, inner: PxRect) -> bool {
    inner.left >= outer.left && inner.top >= outer.top && inner.right <= outer.right && inner.bottom <= outer.bottom
}

#[test]
fn oversized_and_off_screen_frames_fit_displays_with_positive_and_negative_origins() {
    for visible in [
        PxRect { left: 0, top: 30, right: 1280, bottom: 720 },
        PxRect { left: -1920, top: -1080, right: 0, bottom: -30 },
    ] {
        for (left, top) in [(visible.left - 500, visible.top - 500), (visible.right + 500, visible.bottom + 500)] {
            let frame = PxRect { left, top, right: left + 380, bottom: top + 1500 };
            let fitted = contained(frame, visible);
            assert!(encloses(visible, fitted), "{fitted:?} outside {visible:?}");
            assert_eq!(width(fitted), 380);
            assert_eq!(height(fitted), height(visible));
        }
    }
}

#[test]
fn a_frame_already_inside_is_left_exactly_where_it_was() {
    let visible = PxRect { left: 0, top: 0, right: 1920, bottom: 1032 };
    let frame = PxRect { left: 700, top: 200, right: 1080, bottom: 900 };
    assert_eq!(contained(frame, visible), frame);
}

#[test]
fn a_panel_anchored_at_every_corner_stays_on_the_display() {
    let work = PxRect { left: 0, top: 0, right: 1920, bottom: 1032 };
    let bar = PxRect { left: 0, top: 1032, right: 1920, bottom: 1080 };
    for x in [0, 1920 - 24] {
        for y in [0, 1032 - 24] {
            let anchor = PxRect { left: x, top: y, right: x + 24, bottom: y + 24 };
            for h in [300, 720, 1500] {
                let frame = place(anchor, Some((bar, Edge::Bottom)), (380, h), work, 8);
                assert!(encloses(inset(work, 8), frame), "{frame:?} for anchor {anchor:?}");
                assert!(height(frame) <= h);
                assert!(frame.bottom <= bar.top - 8, "the panel never covers the taskbar");
            }
        }
    }
}

#[test]
fn the_panel_is_centered_on_its_column_and_a_gap_off_the_taskbar() {
    let work = PxRect { left: 0, top: 0, right: 1920, bottom: 1032 };
    let anchor = PxRect { left: 1500, top: 1040, right: 1560, bottom: 1072 };
    let bottom = PxRect { left: 0, top: 1032, right: 1920, bottom: 1080 };
    let frame = place(anchor, Some((bottom, Edge::Bottom)), (380, 600), work, 8);
    assert_eq!((frame.left + frame.right) / 2, 1530);
    assert_eq!(frame.bottom, 1032 - 8);
    let top = PxRect { left: 0, top: 0, right: 1920, bottom: 48 };
    let work_below = PxRect { left: 0, top: 48, right: 1920, bottom: 1080 };
    let anchor = PxRect { left: 1500, top: 8, right: 1560, bottom: 40 };
    let frame = place(anchor, Some((top, Edge::Top)), (380, 600), work_below, 8);
    assert_eq!(frame.top, 48 + 8);
    assert_eq!((frame.left + frame.right) / 2, 1530);
}

#[test]
fn a_column_near_the_edge_slides_the_panel_along_the_taskbar() {
    let work = PxRect { left: 0, top: 0, right: 1920, bottom: 1032 };
    let bar = PxRect { left: 0, top: 1032, right: 1920, bottom: 1080 };
    let anchor = PxRect { left: 1880, top: 1040, right: 1910, bottom: 1072 };
    let frame = place(anchor, Some((bar, Edge::Bottom)), (380, 600), work, 8);
    assert_eq!(frame.right, 1920 - 8);
    assert_eq!(frame.bottom, 1032 - 8);
}

#[test]
fn a_side_taskbar_puts_the_panel_beside_it() {
    let work = PxRect { left: 62, top: 0, right: 1920, bottom: 1080 };
    let bar = PxRect { left: 0, top: 0, right: 62, bottom: 1080 };
    let anchor = PxRect { left: 10, top: 500, right: 52, bottom: 540 };
    let frame = place(anchor, Some((bar, Edge::Left)), (380, 600), work, 8);
    assert_eq!(frame.left, 62 + 8);
    assert_eq!((frame.top + frame.bottom) / 2, 520);
}

#[test]
fn a_right_taskbar_puts_the_panel_to_its_left() {
    let work = PxRect { left: 0, top: 0, right: 1858, bottom: 1080 };
    let bar = PxRect { left: 1858, top: 0, right: 1920, bottom: 1080 };
    let anchor = PxRect { left: 1868, top: 500, right: 1910, bottom: 540 };
    let frame = place(anchor, Some((bar, Edge::Right)), (380, 600), work, 8);
    assert_eq!(frame.right, 1858 - 8);
    assert_eq!((frame.top + frame.bottom) / 2, 520);
}

#[test]
fn without_a_taskbar_to_ask_the_panel_opens_above_the_column() {
    let work = PxRect { left: 0, top: 0, right: 1920, bottom: 1032 };
    let anchor = PxRect { left: 1500, top: 1040, right: 1560, bottom: 1072 };
    let frame = place(anchor, None, (380, 600), work, 8);
    assert!(frame.bottom <= 1032 - 8);
    assert_eq!((frame.left + frame.right) / 2, 1530);
}

#[test]
fn a_frame_with_negative_coordinates_centers_as_integer_division_does() {
    let work = PxRect { left: -1920, top: -1080, right: 0, bottom: 0 };
    let anchor = PxRect { left: -101, top: -40, right: -50, bottom: -10 };
    let frame = place(anchor, None, (31, 21), work, 8);
    // (-101 + -50) / 2 rounds toward zero, to -75; half of 31 is 15.
    assert_eq!(frame.left, -75 - 15);
    assert_eq!(frame.top, -40 - 8 - 21);
}

const PANEL: PxRect = PxRect { left: 100, top: 100, right: 480, bottom: 700 };
const WIDGET: PxRect = PxRect { left: 260, top: 1040, right: 320, bottom: 1072 };

#[test]
fn an_outside_press_dismisses_and_an_inside_press_keeps_the_panel() {
    let monitor = Monitor::start(vec![PANEL]);
    assert!(!monitor.press(200, 200));
    assert!(monitor.press(0, 0));
    assert!(monitor.press(480, 200), "the right edge is outside");
    assert!(!monitor.press(479, 699), "the last pixel inside is inside");
}

#[test]
fn a_press_on_the_column_that_opened_the_panel_does_not_dismiss_it() {
    let monitor = Monitor::start(vec![PANEL, WIDGET]);
    assert!(!monitor.press(290, 1050));
    assert!(monitor.press(290, 1000), "the taskbar beside the column is outside");
}

#[test]
fn a_stopped_monitor_never_dismisses_anything() {
    let mut monitor = Monitor::start(vec![PANEL]);
    monitor.stop();
    assert!(!monitor.press(0, 0));
    assert!(!monitor.deactivated());
    assert!(!monitor.is_active());
}

#[test]
fn losing_activation_dismisses_while_the_panel_is_open() {
    let monitor = Monitor::start(vec![PANEL]);
    assert!(monitor.deactivated());
    assert!(!Monitor::default().deactivated());
}

fn fake(entries: &[(&str, u64, Option<isize>)]) -> Cache {
    let mut cache = Cache::new();
    for (path, pass, icon) in entries {
        cache.remember((*path).to_string(), *pass, *icon);
    }
    cache
}

#[test]
fn the_coldest_icons_are_the_ones_given_back_and_a_handle_comes_back_with_each() {
    let mut cache = fake(&[
        ("chrome.exe", 9, Some(0x11)),
        ("explorer.exe", 7, Some(0x22)),
        ("some-installer.exe", 2, Some(0x33)),
        ("an-updater.exe", 1, Some(0x44)),
    ]);
    assert!(cache.evict_beyond(4).is_empty());
    assert_eq!(cache.len(), 4);
    assert_eq!(cache.evict_beyond(2), vec![0x44, 0x33]);
    assert_eq!(cache.len(), 2);
    assert!(cache.contains("chrome.exe"));
    assert!(cache.contains("explorer.exe"));
    let mut nothing = fake(&[("a.exe", 1, None), ("b.exe", 2, Some(0x55))]);
    assert!(nothing.evict_beyond(1).is_empty(), "a missing icon leaves nothing to destroy");
    assert_eq!(nothing.len(), 1);
    assert!(nothing.contains("b.exe"));
}

#[test]
fn asking_for_an_icon_makes_it_the_newest_so_a_row_on_screen_is_never_the_one_evicted() {
    let mut cache = fake(&[("old.exe", 1, Some(0x11)), ("new.exe", 5, Some(0x22))]);
    for _ in 0..9 {
        assert!(cache.begin_pass().is_empty());
    }
    assert_eq!(cache.pass(), 9);
    assert_eq!(cache.touch("old.exe").expect("present"), Some(0x11));
    assert_eq!(cache.evict_beyond(1), vec![0x22], "the one nobody asked for goes");
    assert!(cache.contains("old.exe"));
}

#[test]
fn entries_asked_for_on_the_same_pass_go_in_path_order() {
    let mut cache = fake(&[("b.exe", 3, Some(2)), ("a.exe", 3, Some(1)), ("c.exe", 3, Some(3))]);
    assert_eq!(cache.evict_beyond(0), vec![1, 2, 3]);
    assert!(text_precedes("a.exe", "b.exe"));
    assert!(text_precedes("ab", "abc"));
    assert!(!text_precedes("abc", "abc"));
}

#[test]
fn a_path_is_asked_about_once_until_the_shell_answers() {
    let mut cache = Cache::new();
    assert!(cache.start_asking("x.exe"));
    assert!(!cache.start_asking("x.exe"));
    cache.insert("x.exe".to_string(), None);
    assert!(cache.start_asking("x.exe"));
    assert_eq!(cache.touch("x.exe"), Some(None));
    assert_eq!(cache.touch("y.exe"), None);
}

#[test]
fn uptime_reads_like_the_mac() {
    assert_eq!(uptime(Some(3 * 86_400 + 4 * 3_600 + 12 * 60)), "3d 4h 12m");
    assert_eq!(uptime(Some(4 * 3_600 + 12 * 60 + 59)), "4h 12m");
    assert_eq!(uptime(Some(0)), "0h 0m");
    assert_eq!(uptime(None), "Unavailable");
}

#[test]
fn the_system_card_says_what_is_known_and_no_more() {
    assert_eq!(processes_text(Some(234), Some(3456)), "234  \u{00B7}  3456 threads");
    assert_eq!(processes_text(None, None), DASH);
    assert_eq!(processes_text(None, Some(9)), "9 threads");
    assert_eq!(processes_text(Some(12), None), "12");
    assert_eq!(count(Some(7)), "7");
    assert_eq!(count(None), DASH);
}

#[test]
fn cores_are_labeled_by_kind_and_counted_from_one() {
    assert_eq!(core_label(0, CoreKind::Performance), "P1");
    assert_eq!(core_label(3, CoreKind::Efficiency), "E4");
    assert_eq!(core_label(11, CoreKind::Unknown), "C12");
    let mixed = [CoreKind::Performance, CoreKind::Performance, CoreKind::Efficiency];
    assert_eq!(core_summary(&mixed, Some(3)), "2 performance \u{00B7} 1 efficiency");
    assert_eq!(core_summary(&[CoreKind::Unknown; 8], None), "8 cores");
    assert_eq!(core_summary(&[], Some(16)), "16 logical processors");
    assert_eq!(core_summary(&[], None), "");
}

#[test]
fn a_range_chip_answers_to_its_own_range() {
    for range in HistoryRange::all() {
        assert_eq!(HistoryRange::from_id(range.id()), Some(range));
    }
    assert_eq!(HistoryRange::from_id(Id::Custom(0)), None);
    assert_eq!(HistoryRange::from_id(Id::Custom(6)), None);
    assert_eq!(HistoryRange::from_id(Id::Settings), None);
    assert_eq!(HistoryRange::default(), HistoryRange::FiveMinutes);
    assert_eq!(HistoryRange::ThreeHours.label(), "3h");
    assert_eq!(HistoryRange::TwentyFourHours.seconds(), 86_400);
}

#[test]
fn the_end_task_glyph_names_the_process_on_its_row() {
    let id = end_task_id(1001);
    assert_eq!(id, Id::Custom(0x8000_0000 | 1001));
    assert_eq!(end_task_pid(id), Some(1001));
    assert_eq!(end_task_pid(Id::Custom(100)), None);
    assert_eq!(end_task_pid(Id::Nothing), None);
}

#[test]
fn a_remembered_timeline_keeps_a_day_and_forgets_the_rest() {
    let mut history = VecDeque::new();
    for n in 0..5 {
        remember(&mut history, Sample { at_unix: n * 3_600, value: 0.5f32 });
    }
    assert_eq!(history.len(), 5);
    remember(&mut history, Sample { at_unix: 86_401, value: 0.5f32 });
    assert_eq!(history.len(), 5);
    assert_eq!(history[0].at_unix, 3_600);
    assert_eq!(history.back().unwrap().at_unix, 86_401);
}

#[test]
fn a_timeline_spans_its_oldest_to_its_newest_and_never_nothing() {
    let samples: Vec<Sample<f32>> = (0..30).map(|n| Sample { at_unix: 1_000_000 - 58 + 2 * n, value: 0.5 }).collect();
    assert_eq!(timeline_span(&samples), 58);
    assert_eq!(timeline_span::<f32>(&[]), 1);
    assert_eq!(timeline_span(&[Sample { at_unix: 5, value: 1.0f32 }]), 1);
}

#[test]
fn engine_types_are_spaced_into_words_and_short_ones_left_alone() {
    assert_eq!(engine_title("VideoDecode"), "Video Decode");
    assert_eq!(engine_title("VideoProcessing"), "Video Processing");
    assert_eq!(engine_title("3D"), "3D");
    assert_eq!(engine_title("Copy"), "Copy");
}

#[test]
fn signal_color_steps_at_the_macs_thresholds() {
    assert_eq!(signal_color(-81), Color(0xFF3B30));
    assert_eq!(signal_color(-80), Color(0xFF3B30));
    assert_eq!(signal_color(-79), Color(0xFF9500));
    assert_eq!(signal_color(-67), Color(0xFF9500));
    assert_eq!(signal_color(-66), Color(0x34C759));
}

#[test]
fn a_press_on_an_address_row_copies_that_address() {
    let connection = Connection {
        ipv4: vec!["192.168.1.20".into(), "10.0.0.5".into()],
        router: Some("192.168.1.1".into()),
        public_ipv4: Some("203.0.113.9".into()),
        ..Default::default()
    };
    assert_eq!(connection.copy_text(Id::Custom(COPY_BASE)).as_deref(), Some("192.168.1.20"));
    assert_eq!(connection.copy_text(Id::Custom(COPY_BASE + 1)).as_deref(), Some("10.0.0.5"));
    assert_eq!(connection.copy_text(Id::Custom(COPY_BASE + 2)).as_deref(), Some("192.168.1.1"));
    // The public address is only a row when it is shown.
    assert_eq!(connection.copy_text(Id::Custom(COPY_BASE + 3)), None);
    let shown = Connection { shows_public: true, ..connection };
    assert_eq!(shown.copy_text(Id::Custom(COPY_BASE + 3)).as_deref(), Some("203.0.113.9"));
    assert_eq!(shown.copy_text(Id::Custom(3)), None);
    assert_eq!(shown.copyable()[0].label, "IPv4");
}

#[test]
fn the_breakdown_splits_used_memory_by_the_page_lists() {
    let mut snapshot = MemorySnapshot { total: Some(100), in_use: Some(60), available: Some(40), ..Default::default() };
    let before = Breakdown::new(&snapshot).unwrap();
    assert_eq!(before.used, vec![(Segment::InUse, 60)]);
    assert_eq!(before.free, (Segment::Available, 40));
    assert_eq!(before.scale, 100);
    snapshot.with_lists(MemoryLists { modified: 5, standby: 25, free: 10 });
    assert_eq!(snapshot.in_use, Some(55));
    let after = Breakdown::new(&snapshot).unwrap();
    assert_eq!(after.used, vec![(Segment::InUse, 55), (Segment::Modified, 5), (Segment::Standby, 25)]);
    assert_eq!(after.free, (Segment::Free, 10));
    assert_eq!(after.scale, 100);
    assert_eq!(Segment::Standby.label(), "Standby");
    assert_eq!(CommitLevel::Critical.name(), "Critical");
}

#[test]
fn a_reading_past_the_installed_memory_scales_the_bar_down() {
    let snapshot = MemorySnapshot { total: Some(100), in_use: Some(90), available: Some(30), ..Default::default() };
    assert_eq!(Breakdown::new(&snapshot).unwrap().scale, 120);
    let unknown = MemorySnapshot { total: Some(100), in_use: Some(130), ..Default::default() };
    assert_eq!(Breakdown::new(&unknown).unwrap().free, (Segment::Available, 0));
    assert!(Breakdown::new(&MemorySnapshot::default()).is_none());
}

#[test]
fn an_unlabeled_volume_reads_as_explorer_names_it() {
    let mut volume = Volume { name: String::new(), mount: "C:".into(), total: 100, available: 10, removable: false };
    assert_eq!(volume.display_name(), "Local Disk");
    volume.removable = true;
    assert_eq!(volume.display_name(), "Removable Disk");
    volume.name = "Data".into();
    assert_eq!(volume.display_name(), "Data");
    assert_eq!(volume.used(), 90);
    volume.available = 200;
    assert_eq!(volume.used(), 0);
}

#[test]
fn a_switch_chip_is_read_back_as_its_reading() {
    assert_eq!(switch_index(switch_id(3)), Some(3));
    assert_eq!(switch_index(Id::Custom(5)), None);
    assert_eq!(switch_index(Id::Nothing), None);
}

/// A sample every two seconds for `count` samples, ending at `end`.
fn samples(count: usize, end: i64) -> Vec<Sample<f32>> {
    (0..count)
        .map(|n| Sample { at_unix: end - 2 * (count as i64 - 1 - n as i64), value: (n % 10) as f32 / 10.0 })
        .collect()
}

#[test]
fn the_timeline_keeps_the_range_ending_at_the_newest_sample() {
    let history = samples(30, 1_000_000);
    let points = timeline_points(&history, HistoryRange::OneMinute.seconds());
    assert_eq!(points, (0..30).collect::<Vec<usize>>());
    let mut gapped = samples(10, 1_000_000);
    gapped.extend(samples(10, 1_000_100));
    // Two hundred seconds back from the newest reaches the first run too.
    assert_eq!(timeline_points(&gapped, 200).len(), 20);
    // Thirty seconds back reaches only the second run.
    assert_eq!(timeline_points(&gapped, 30), (10..20).collect::<Vec<usize>>());
    assert!(timeline_points::<f32>(&[], 60).is_empty());
}

#[test]
fn the_timeline_is_thinned_to_three_hundred_points_with_the_newest_kept() {
    let history = samples(1_000, 1_000_000);
    let points = timeline_points(&history, HistoryRange::ThreeHours.seconds());
    assert!(points.len() <= GRAPH_POINTS, "{}", points.len());
    assert!(points.len() > GRAPH_POINTS / 2);
    assert_eq!(*points.last().unwrap(), 999);
    assert!(points.windows(2).all(|p| p[1] > p[0]));
    assert_eq!(timeline_span(&history[..30]), 58);
}

#[test]
fn a_press_on_the_picker_switches_to_a_new_range_only() {
    assert_eq!(switched_range(HistoryRange::FiveMinutes, HistoryRange::FiveMinutes.id()), None);
    assert_eq!(
        switched_range(HistoryRange::FiveMinutes, HistoryRange::OneMinute.id()),
        Some(HistoryRange::OneMinute)
    );
    assert_eq!(switched_range(HistoryRange::FiveMinutes, Id::Nothing), None);
}

#[test]
fn an_end_task_press_names_the_process_it_was_drawn_for_and_not_a_position() {
    let shown = [1000, 1001, 1002, 1003, 1004];
    assert_eq!(end_task_row(end_task_id(1001), &shown), Some(1));
    let shuffled = [1003, 1001, 1002, 1000, 1004];
    assert_eq!(end_task_row(end_task_id(1000), &shuffled), Some(3));
    assert_eq!(end_task_row(end_task_id(9999), &shown), None);
    assert_eq!(end_task_row(Id::Custom(100), &shown), None);
    assert_eq!(end_task_row(Id::Nothing, &shown), None);
}

/// A reading as the panel sees it; the value is in tenths of its unit.
fn sensor(id: &str, hardware: &str, name: &str, kind: ReadingKind, value: Option<i64>) -> SensorReading {
    SensorReading { id: id.into(), hardware: hardware.into(), name: name.into(), kind, value }
}

fn machine() -> Vec<SensorReading> {
    vec![
        sensor("/amdcpu/0/temperature/0", "AMD Ryzen 9", "CPU Package", ReadingKind::Temperature, Some(610)),
        sensor("/gpu-nvidia/0/temperature/0", "NVIDIA RTX", "GPU Core", ReadingKind::Temperature, Some(725)),
        sensor("/gpu-nvidia/0/fan/0", "NVIDIA RTX", "GPU Fan", ReadingKind::Fan, Some(12346)),
        sensor("/amdcpu/0/power/0", "AMD Ryzen 9", "Package", ReadingKind::Power, Some(453)),
        sensor("/amdcpu/0/load/0", "AMD Ryzen 9", "CPU Total", ReadingKind::Other, Some(120)),
    ]
}

fn group_of(sensors: &[SensorReading], kind: ReadingKind) -> Vec<SensorReading> {
    ordered(sensors, kind).into_iter().map(|i| sensors[i].clone()).collect()
}

#[test]
fn a_name_that_repeats_across_hardware_is_qualified_with_the_hardware() {
    let sensors = vec![
        sensor("/nvme/0/temperature/0", "Samsung SSD 990 PRO", "Temperature", ReadingKind::Temperature, Some(410)),
        sensor("/nvme/1/temperature/0", "WD Black SN850", "temperature", ReadingKind::Temperature, Some(380)),
        sensor("/amdcpu/0/temperature/0", "AMD Ryzen 9", "CPU Package", ReadingKind::Temperature, Some(610)),
    ];
    let group = group_of(&sensors, ReadingKind::Temperature);
    let names: Vec<String> = group.iter().map(|s| display_name(s, &group)).collect();
    assert_eq!(names[0], "CPU Package");
    assert_eq!(names[1], "Samsung SSD 990 PRO  \u{00B7}  Temperature");
    assert_eq!(names[2], "WD Black SN850  \u{00B7}  temperature");
    // The same name on the same hardware is one probe, not a repeat.
    let twin = vec![
        sensor("/a/0", "Board", "System", ReadingKind::Temperature, Some(400)),
        sensor("/a/1", "Board", "System", ReadingKind::Temperature, Some(410)),
    ];
    let group = group_of(&twin, ReadingKind::Temperature);
    assert_eq!(display_name(&group[0], &group), "System");
}

#[test]
fn temperatures_run_hottest_first_with_unreadable_ones_last() {
    let sensors = vec![
        sensor("/a/0", "h", "warm", ReadingKind::Temperature, Some(450)),
        sensor("/a/1", "h", "blank", ReadingKind::Temperature, None),
        sensor("/a/2", "h", "hot", ReadingKind::Temperature, Some(800)),
        sensor("/a/3", "h", "mild", ReadingKind::Temperature, Some(600)),
        sensor("/b/0", "h", "second fan", ReadingKind::Fan, Some(5000)),
        sensor("/b/1", "h", "first fan", ReadingKind::Fan, Some(9000)),
    ];
    let names = |kind: ReadingKind| -> Vec<String> {
        group_of(&sensors, kind).iter().map(|s| s.name.clone()).collect()
    };
    assert_eq!(names(ReadingKind::Temperature), vec!["hot", "mild", "warm", "blank"]);
    // Fans keep the source's order, not the numeric one.
    assert_eq!(names(ReadingKind::Fan), vec!["second fan", "first fan"]);
    assert!(ordered(&sensors, ReadingKind::Voltage).is_empty());
}

#[test]
fn equal_temperatures_keep_the_order_the_source_gave_them() {
    let sensors = vec![
        sensor("/a/0", "h", "first", ReadingKind::Temperature, Some(500)),
        sensor("/a/1", "h", "unread", ReadingKind::Temperature, None),
        sensor("/a/2", "h", "second", ReadingKind::Temperature, Some(500)),
        sensor("/a/3", "h", "unread too", ReadingKind::Temperature, None),
    ];
    assert_eq!(ordered(&sensors, ReadingKind::Temperature), vec![0, 2, 1, 3]);
}

#[test]
fn readings_group_into_the_macs_five_kinds_in_its_order() {
    let sensors = vec![
        sensor("/a/current/0", "PSU", "12V Rail", ReadingKind::Current, Some(25)),
        sensor("/a/fan/0", "Board", "Chassis", ReadingKind::Fan, Some(8000)),
        sensor("/a/temperature/0", "Board", "System", ReadingKind::Temperature, Some(400)),
        sensor("/a/load/0", "Board", "Load", ReadingKind::Other, Some(10)),
    ];
    // The cards that have readings, in the cards' order, each with its count.
    let counts: Vec<(ReadingKind, usize)> = cards()
        .iter()
        .map(|kind| (*kind, ordered(&sensors, *kind).len()))
        .filter(|(_, n)| *n > 0)
        .collect();
    assert_eq!(
        counts,
        vec![(ReadingKind::Temperature, 1), (ReadingKind::Fan, 1), (ReadingKind::Current, 1)]
    );
    // A load has no card of its own.
    assert!(cards().iter().all(|kind| !ordered(&sensors, *kind).contains(&3)));
}

#[test]
fn the_hero_shows_the_hottest_reading_anywhere_and_counts_each_kind() {
    let sensors = machine();
    assert_eq!(subtitle(None, true, &sensors), "2 temperatures  \u{00B7}  1 fan  \u{00B7}  1 power reading");
    // The GPU is hotter than the processor, and the panel says so.
    let hottest = ordered(&sensors, ReadingKind::Temperature)[0];
    assert_eq!(sensors[hottest].name, "GPU Core");
    assert_eq!(TemperatureUnit::Celsius.describe(725), "73\u{00B0}C");
}

#[test]
fn before_the_first_snapshot_the_header_says_it_is_discovering() {
    assert_eq!(subtitle(None, false, &[]), "Discovering sensors");
    assert_eq!(subtitle(None, true, &[]), "No readings yet");
}

#[test]
fn without_a_source_the_panel_says_so_calmly() {
    assert_eq!(subtitle(Some(SensorProblem::NotConfigured), true, &[]), "No sensor source");
    assert_eq!(short_words(SensorProblem::Unavailable), "Sensor source unavailable");
}

#[test]
fn counts_agree_with_their_nouns() {
    assert_eq!(count_words(1, ReadingKind::Fan), "1 fan");
    assert_eq!(count_words(0, ReadingKind::Voltage), "0 voltage readings");
    assert_eq!(count_words(3, ReadingKind::Current), "3 current readings");
    assert_eq!(count_words(1, ReadingKind::Other), "1 reading");
    assert_eq!(short_words(SensorProblem::NotRunning), "Sensor source not running");
    let only_other = vec![sensor("/x", "h", "Load", ReadingKind::Other, Some(1))];
    assert_eq!(subtitle(None, true, &only_other), "No readings yet");
    let volts = vec![
        sensor("/v/0", "h", "Vcore", ReadingKind::Voltage, Some(12)),
        sensor("/v/1", "h", "3.3V", ReadingKind::Voltage, None),
    ];
    assert_eq!(subtitle(None, true, &volts), "2 voltage readings");
}

#[test]
fn ascii_case_is_ignored_and_nothing_else() {
    assert!(eq_ignore_ascii_case("GPU Core", "gpu core"));
    assert!(!eq_ignore_ascii_case("GPU Core", "GPU Cores"));
    assert!(!eq_ignore_ascii_case("\u{00C9}", "\u{00E9}"));
}

#[test]
fn hybrid_cores_are_labeled_p_and_e_and_plain_ones_c() {
    assert_eq!(core_label(0, CoreKind::Performance), "P1");
    assert_eq!(core_label(7, CoreKind::Efficiency), "E8");
    assert_eq!(core_label(3, CoreKind::Unknown), "C4");
    let mut hybrid = vec![CoreKind::Performance; 4];
    hybrid.extend(vec![CoreKind::Efficiency; 4]);
    assert_eq!(core_summary(&hybrid, None), "4 performance \u{00B7} 4 efficiency");
    assert_eq!(core_summary(&[CoreKind::Unknown; 8], None), "8 cores");
    assert_eq!(core_summary(&[], Some(12)), "12 logical processors");
    assert_eq!(core_summary(&[], None), "");
}

#[test]
fn the_range_picker_answers_to_its_ids_and_a_new_range_asks_for_a_rebuild() {
    for range in HistoryRange::all() {
        assert_eq!(HistoryRange::from_id(range.id()), Some(range));
    }
    assert_eq!(HistoryRange::from_id(Id::Custom(RANGE_ID + 5)), None);
    assert_eq!(HistoryRange::from_id(Id::Settings), None);
    let shown = HistoryRange::default();
    assert_eq!(switched_range(shown, HistoryRange::FiveMinutes.id()), None);
    assert_eq!(switched_range(shown, HistoryRange::OneMinute.id()), Some(HistoryRange::OneMinute));
}

#[test]
fn the_subtitle_says_what_is_known_and_no_more() {
    assert_eq!(processes_text(Some(234), Some(3456)), "234  \u{00B7}  3456 threads");
    assert_eq!(processes_text(None, None), DASH);
    assert_eq!(processes_text(None, Some(9)), "9 threads");
}

#[test]
fn the_timeline_keeps_the_range_ending_at_the_newest_sample_and_places_each_by_its_time() {
    // Thirty samples two seconds apart: a minute's range takes all of them.
    let history = samples(30, 1_000_000);
    let points = timeline_points(&history, HistoryRange::OneMinute.seconds());
    assert_eq!(points.len(), 30);
    assert_eq!(*points.last().unwrap(), 29);
    assert!(points.windows(2).all(|p| p[1] > p[0]));
    // Five minutes covers the same thirty samples.
    assert_eq!(timeline_points(&history, HistoryRange::FiveMinutes.seconds()).len(), 30);
    // A gap in the samples keeps both runs inside a range that spans it.
    let mut gapped = samples(10, 1_000_000);
    gapped.extend(samples(10, 1_000_100));
    let points = timeline_points(&gapped, 200);
    assert_eq!(points.len(), 20);
    assert!(gapped[points[10]].at_unix - gapped[points[9]].at_unix > 80);
    assert!(timeline_points::<f32>(&[], 60).is_empty());
}

#[test]
fn a_new_range_asks_for_a_rebuild_and_the_same_one_does_not() {
    let shown = HistoryRange::FiveMinutes;
    assert_eq!(switched_range(shown, HistoryRange::FiveMinutes.id()), None);
    assert_eq!(
        switched_range(shown, HistoryRange::TwentyFourHours.id()),
        Some(HistoryRange::TwentyFourHours)
    );
    assert_eq!(switched_range(HistoryRange::TwentyFourHours, Id::Settings), None);
}

#[test]
fn the_header_says_why_when_there_are_no_counters_and_waits_when_there_are() {
    assert_eq!(gpu::subtitle(false, None), "No GPU counters on this machine");
    assert_eq!(gpu::subtitle(true, None), "Waiting for the first sample");
    assert_eq!(gpu::subtitle(true, Some("NVIDIA GeForce RTX 4080")), "NVIDIA GeForce RTX 4080");
    assert_eq!(gpu::subtitle(false, Some("NVIDIA GeForce RTX 4080")), "No GPU counters on this machine");
}

#[test]
fn the_subtitle_names_the_interface_and_the_network_it_is_on() {
    let mut connection = Connection::default();
    assert_eq!(network::subtitle(true, &connection, None), "All interfaces");
    connection = Connection { interface: Some("Wi-Fi".into()), is_primary: true, ..Default::default() };
    assert_eq!(network::subtitle(true, &connection, Some("Home")), "Wi-Fi  \u{00B7}  Home");
    // A radio that is not the default route does not name the network.
    connection = Connection { interface: Some("Ethernet".into()), ..Default::default() };
    assert_eq!(network::subtitle(true, &connection, Some("Home")), "Ethernet");
    assert_eq!(network::subtitle(false, &connection, Some("Home")), "Waiting for the first sample");
}

#[test]
fn connection_rows_answer_to_copy_ids_in_the_order_they_are_laid_out() {
    let connection = Connection {
        ipv4: vec!["192.168.1.20".into(), "10.0.0.5".into()],
        router: Some("192.168.1.1".into()),
        dns: vec!["1.1.1.1".into()],
        public_ipv4: Some("203.0.113.9".into()),
        shows_public: false,
        ..Default::default()
    };
    assert_eq!(connection.copy_text(Id::Custom(COPY_BASE)).as_deref(), Some("192.168.1.20"));
    assert_eq!(connection.copy_text(Id::Custom(COPY_BASE + 1)).as_deref(), Some("10.0.0.5"));
    assert_eq!(connection.copy_text(Id::Custom(COPY_BASE + 2)).as_deref(), Some("192.168.1.1"));
    assert_eq!(connection.copy_text(Id::Custom(COPY_BASE + 3)).as_deref(), Some("1.1.1.1"));
    // The public address is not offered while the user has not asked.
    assert_eq!(connection.copy_text(Id::Custom(COPY_BASE + 4)), None);
    assert_eq!(connection.copy_text(Id::Settings), None);
    assert_eq!(connection.copy_text(Id::Custom(3)), None);
    // Four rows, one per address, in that order.
    let rows: Vec<String> = connection.copyable().into_iter().map(|row| row.value).collect();
    assert_eq!(rows, vec!["192.168.1.20", "10.0.0.5", "192.168.1.1", "1.1.1.1"]);
}

const GB: u64 = 1024 * 1024 * 1024;

fn full_memory() -> MemorySnapshot {
    MemorySnapshot {
        total: Some(16 * GB),
        in_use: Some(8 * GB),
        available: Some(8 * GB),
        modified: Some(GB),
        standby: Some(3 * GB),
        free: Some(4 * GB),
        committed: Some(12 * GB),
        commit_limit: Some(24 * GB),
        paged_pool: Some(GB / 2),
        nonpaged_pool: Some(GB / 4),
        page_file_used: Some(GB + GB / 5),
        page_file_total: Some(4 * GB),
        ..Default::default()
    }
}

/// The running totals of the bar's shares, as the bar lays them end to end.
fn cumulative(breakdown: &Breakdown) -> Vec<u64> {
    let mut sum = 0;
    breakdown.used.iter().map(|(_, bytes)| {
        sum += bytes;
        sum
    }).collect()
}

#[test]
fn the_breakdown_shares_and_the_track_come_to_exactly_the_bar() {
    let breakdown = Breakdown::new(&full_memory()).unwrap();
    assert_eq!(breakdown.scale, 16 * GB);
    let totals = cumulative(&breakdown);
    assert_eq!(totals.len(), 3);
    // In use is half the bar, plus modified 0.5625, plus standby 0.75.
    assert_eq!(totals[0] * 2, breakdown.scale);
    assert_eq!(totals[1] * 16, breakdown.scale * 9);
    assert_eq!(totals[2] * 4, breakdown.scale * 3);
    assert_eq!(breakdown.free, (Segment::Free, 4 * GB));
    // What the track shows past the last share is the free quarter.
    assert_eq!((breakdown.scale - totals[2]) * 4, breakdown.scale);
}

#[test]
fn a_reading_past_the_installed_memory_scales_down_rather_than_overflowing() {
    let mut s = full_memory();
    s.standby = Some(9 * GB);
    let breakdown = Breakdown::new(&s).unwrap();
    assert_eq!(breakdown.scale, 22 * GB);
    let last = *cumulative(&breakdown).last().unwrap();
    assert!(last <= breakdown.scale);
    assert_eq!(last, 18 * GB);
}

#[test]
fn without_the_split_the_bar_is_in_use_and_available() {
    let s = MemorySnapshot { total: Some(16 * GB), in_use: Some(6 * GB), available: Some(10 * GB), ..Default::default() };
    let breakdown = Breakdown::new(&s).unwrap();
    assert_eq!(breakdown.used, vec![(Segment::InUse, 6 * GB)]);
    assert_eq!(breakdown.free, (Segment::Available, 10 * GB));
    assert_eq!(Segment::InUse.label(), "In use");
    assert_eq!(Segment::Available.label(), "Available");
    // Available is worked out when the module did not say.
    let s = MemorySnapshot { total: Some(16 * GB), in_use: Some(6 * GB), ..Default::default() };
    assert_eq!(Breakdown::new(&s).unwrap().free.1, 10 * GB);
    assert_eq!(Breakdown::new(&MemorySnapshot::default()), None);
}

#[test]
fn the_page_lists_take_modified_pages_out_of_in_use() {
    let mut s = MemorySnapshot { total: Some(16 * GB), in_use: Some(9 * GB), available: Some(7 * GB), ..Default::default() };
    s.with_lists(MemoryLists { modified: GB, standby: 5 * GB, free: 2 * GB });
    assert_eq!(s.in_use, Some(8 * GB));
    let breakdown = Breakdown::new(&s).unwrap();
    assert_eq!(breakdown.used.len(), 3, "in use, modified, standby");
    assert_eq!(breakdown.free, (Segment::Free, 2 * GB));
    assert_eq!(breakdown.scale, 16 * GB);
}

#[test]
fn a_process_that_does_not_exist_has_no_icon_and_the_miss_is_remembered() {
    let absent = u32::MAX - 7;
    let mut memory = PidMemory::new();
    // Never looked up: look it up.
    assert_eq!(memory.recall(absent, 100), None);
    // Looked up and not found: the miss is remembered, not asked again.
    memory.note(absent, 100, None);
    assert_eq!(memory.recall(absent, 101), Some(None));
}

#[test]
fn a_process_id_is_looked_up_again_once_it_could_mean_another_process() {
    let pid = u32::MAX - 9;
    let mut memory = PidMemory::new();
    memory.note(pid, 1_000, Some("C:/nowhere/gone.exe".into()));
    assert_eq!(memory.recall(pid, 1_000 + PID_MEMORY_SECONDS - 1), Some(Some("C:/nowhere/gone.exe".into())));
    // Once the id could name another process, it is asked again rather
    // than trusted, and the stale answer is pruned as the memory goes.
    let later = 1_000 + PID_MEMORY_SECONDS;
    assert_eq!(memory.recall(pid, later), None);
    memory.forget_stale(later);
    memory.note(pid, later, None);
    assert_eq!(memory.recall(pid, later), Some(None));
    // A clock that reads earlier than the answer counts as no time passed.
    assert_eq!(memory.recall(pid, later - 5), Some(None));
}

#[test]
fn only_stale_answers_are_forgotten() {
    let mut memory = PidMemory::new();
    memory.note(1, 0, Some("a.exe".into()));
    memory.note(2, 8, Some("b.exe".into()));
    memory.forget_stale(12);
    assert_eq!(memory.recall(1, 12), None);
    assert_eq!(memory.recall(2, 12), Some(Some("b.exe".into())));
}

#[test]
fn a_stack_without_a_name_is_untitled() {
    assert_eq!(title(""), "Untitled");
    assert_eq!(title("Temps"), "Temps");
}

#[test]
fn without_a_sample_only_the_header_and_the_history_card_are_shown() {
    assert_eq!(cpu_cards(false, false, false, true, 5, 0, false), vec![CpuCard::History]);
}

#[test]
fn the_processes_card_is_left_out_when_there_are_none_or_they_are_switched_off() {
    let head = vec![
        CpuCard::History,
        CpuCard::Cores { measured: true },
        CpuCard::System { load_average: true },
    ];
    // No processes listed: three cards.
    assert_eq!(cpu_cards(true, true, true, true, 5, 0, false), head);
    // While the shares are being measured the card stays, with a sentence
    // where the rows will be.
    let mut measuring = head.clone();
    measuring.push(CpuCard::Processes { rows: 0 });
    assert_eq!(cpu_cards(true, true, true, true, 5, 0, true), measuring);
    // Switched off it stays off, measuring or not.
    assert_eq!(cpu_cards(true, true, true, false, 5, 0, true), head);
    assert_eq!(cpu_cards(true, true, true, false, 5, 7, false), head);
    // Five of the seven.
    let mut five = head.clone();
    five.push(CpuCard::Processes { rows: 5 });
    assert_eq!(cpu_cards(true, true, true, true, 5, 7, false), five);
}

#[test]
fn without_a_sample_only_the_header_is_shown() {
    assert!(memory_cards(&MemorySnapshot::default(), true, 5).is_empty());
    let only_total = MemorySnapshot { total: Some(16 * GB), ..Default::default() };
    assert!(memory_cards(&only_total, true, 5).is_empty());
    let sampled = full_memory();
    assert_eq!(
        memory_cards(&sampled, true, 5),
        vec![MemoryCard::Breakdown { available: true }, MemoryCard::Commit { page_file: true }]
    );
}

#[test]
fn without_a_sample_only_the_header_and_the_activity_card_stand() {
    assert_eq!(network_cards(false, true, None, false, 5, &Connection::default(), true), vec![NetworkCard::Activity]);
}

#[test]
fn per_process_activity_says_it_is_unavailable_until_it_exists() {
    let connection = Connection::default();
    let processes = |listed: Option<usize>, measuring: bool| network_cards(true, true, listed, measuring, 5, &connection, false)[1];
    assert_eq!(processes(None, false), NetworkCard::Processes(ProcessRows::Unavailable));
    assert_eq!(processes(Some(0), false), NetworkCard::Processes(ProcessRows::Quiet));
    assert_eq!(processes(Some(0), true), NetworkCard::Processes(ProcessRows::Measuring));
    // Only the configured number of rows.
    assert_eq!(processes(Some(7), false), NetworkCard::Processes(ProcessRows::Rows(5)));
    let off = network_cards(true, false, Some(7), false, 5, &connection, false);
    assert!(!off.iter().any(|card| matches!(card, NetworkCard::Processes(_))));
    assert_eq!(
        off,
        vec![
            NetworkCard::Activity,
            NetworkCard::Connection { errors: false, addresses: 0, public_unavailable: false },
        ]
    );
}

#[test]
fn an_empty_connection_says_what_is_missing_and_errors_get_a_chip() {
    let connection = Connection { errors_in: 3, errors_out: 1, ..Default::default() };
    let cards = network_cards(true, false, None, false, 5, &connection, true);
    assert_eq!(
        cards,
        vec![
            NetworkCard::Activity,
            NetworkCard::Connection { errors: true, addresses: 0, public_unavailable: false },
            NetworkCard::Wifi,
        ]
    );
    let asked = Connection { shows_public: true, ipv4: vec!["10.0.0.5".into()], ..Default::default() };
    assert_eq!(
        network_cards(true, false, None, false, 5, &asked, false)[1],
        NetworkCard::Connection { errors: false, addresses: 1, public_unavailable: true }
    );
}

#[test]
fn physical_disks_appear_only_when_there_are_any() {
    assert!(!disk_cards(true, 2, 0).iter().any(|card| matches!(card, DiskCard::Devices { .. })));
    assert_eq!(disk_cards(true, 2, 1)[2], DiskCard::Devices { count: 1 });
}

#[test]
fn without_a_sample_the_activity_card_still_stands_and_the_rest_says_so() {
    assert_eq!(disk_cards(false, 3, 1), vec![DiskCard::Activity, DiskCard::Unavailable]);
}

#[test]
fn with_rates_but_no_volumes_the_hero_carries_no_headline() {
    assert_eq!(disk_cards(true, 0, 0), vec![DiskCard::Activity, DiskCard::Volumes { count: 0 }]);
}

#[test]
fn memory_shows_a_bar_and_two_tiles_when_the_adapter_reports_it_and_says_so_when_not() {
    assert_eq!(gpu_memory(Some(6 * GB), Some(16 * GB)), GpuMemory::Bar);
    // An adapter with no memory of its own still says what it is using.
    assert_eq!(gpu_memory(Some(6 * GB), None), GpuMemory::InUse);
    // A zero total is not something to divide by.
    assert_eq!(gpu_memory(Some(6 * GB), Some(0)), GpuMemory::InUse);
    assert_eq!(gpu_memory(None, Some(16 * GB)), GpuMemory::Unavailable);
}

/// An engine's load in hundredths of a percent, which orders as the share does.
fn engine(name: &str, load: u64) -> EngineLoad {
    EngineLoad { name: name.to_string(), load }
}

fn engine_titles(engines: &[EngineLoad]) -> Vec<String> {
    engines_by_load(engines).into_iter().map(|i| engine_title(&engines[i].name)).collect()
}

#[test]
fn engines_are_listed_busiest_first_and_the_headline_is_the_busiest() {
    let engines = vec![engine("Copy", 500), engine("3D", 6300), engine("VideoDecode", 2000)];
    assert_eq!(engine_titles(&engines), vec!["3D", "Video Decode", "Copy"]);
}

#[test]
fn idle_engines_nobody_can_name_are_left_out_and_the_rows_stop_at_six() {
    let names = ["3D", "Copy", "VideoDecode", "VideoEncode", "Security", "GSC", "OFA_0", "LegacyOverlay", "Compute", "VR"];
    let mut engines: Vec<EngineLoad> = names.iter().map(|name| engine(name, 0)).collect();
    engines[8].load = 4000; // Compute is busy
    assert_eq!(engine_titles(&engines), vec!["Compute", "3D", "Copy", "Video Decode", "Video Encode"]);
    // Everything busy: the six busiest, by name where they tie.
    for engine in engines.iter_mut() {
        engine.load = 1000;
    }
    assert_eq!(engine_titles(&engines), vec!["3D", "Compute", "Copy", "GSC", "Legacy Overlay", "OFA_0"]);
}

#[test]
fn engine_names_are_matched_without_regard_to_ascii_case() {
    let engines = vec![engine("videodecode", 0), engine("3d", 0), engine("Other", 0)];
    assert_eq!(engines_by_load(&engines), vec![1, 0]);
    assert!(engines_by_load(&[]).is_empty());
}

#[test]
fn remembering_an_icon_stops_asking_about_that_path_only() {
    let mut cache = Cache::new();
    assert!(cache.start_asking("C:/a.exe"));
    assert!(cache.start_asking("C:/b.exe"));
    cache.insert("C:/a.exe".to_string(), None);
    // The other path is still being asked about; this one is not.
    assert!(!cache.start_asking("C:/b.exe"));
    assert!(cache.start_asking("C:/a.exe"));
}

#[test]
fn the_chips_under_the_rates_name_the_interface_a_tunnel_and_the_default_route() {
    let plain = Connection::default();
    assert_eq!(activity_chips(&plain), vec![("All interfaces".to_string(), ChipTone::Primary)]);
    let vpn = Connection { interface: Some("Work".into()), is_vpn: true, is_primary: true, ..Default::default() };
    assert_eq!(
        activity_chips(&vpn),
        vec![
            ("Work".to_string(), ChipTone::Primary),
            ("VPN".to_string(), ChipTone::Vpn),
            ("Primary".to_string(), ChipTone::Secondary),
        ]
    );
}

#[test]
fn a_panel_slides_in_from_the_taskbars_side_only_when_it_opens_fresh() {
    assert_eq!(opening(500, Some(Edge::Bottom), 8, false, false), Opening { top: 508, alpha: 0, animate: true });
    assert_eq!(opening(40, Some(Edge::Top), 8, false, false), Opening { top: 32, alpha: 0, animate: true });
    assert_eq!(opening(500, None, 8, false, false), Opening { top: 508, alpha: 0, animate: true });
    // Already open, or with motion reduced: in place, fully drawn.
    assert_eq!(opening(500, Some(Edge::Bottom), 8, true, false), Opening { top: 500, alpha: 255, animate: false });
    assert_eq!(opening(500, Some(Edge::Bottom), 8, false, true), Opening { top: 500, alpha: 255, animate: false });
}
