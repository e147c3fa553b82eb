use screen_dump::ax::{AxErrorDisplay, AxErrorKind};
use screen_dump::collector::{
    best_display_id, bundle_id_matches, finish_enrichment, finish_unmatched, is_system_window,
    kept_errors, matching_window, new_window_record, note_failure, owner_application,
    read_attribute, screen_window, select_windows, split_displays, window_records, SelectedWindow, trust_error, window_display_id,
    window_list_request, DisplayOverlap, Error, ParsedWindow, Screening, WindowEntry,
    WindowFilters,
};
use screen_dump::model::{ApplicationInfo, WindowRecord};
use screen_dump::output;
use screen_dump::screenshot;
use screen_dump::string_map::StringMap;

#[test]
fn system_shell_windows_are_filtered_by_default() {
    assert!(is_system_window(Some("Dock"), 0));
    assert!(!is_system_window(Some("Safari"), 0));
}

#[test]
fn system_windows_by_layer_and_case_insensitive_name() {
    assert!(is_system_window(None, -1));
    assert!(is_system_window(Some("Safari"), -20));
    assert!(!is_system_window(None, 0));
    assert!(is_system_window(Some("WINDOW SERVER"), 3));
    assert!(is_system_window(Some("ControlCenter"), 0));
    assert!(is_system_window(Some("Notification Center"), 0));
    assert!(is_system_window(Some("loginwindow"), 0));
    assert!(is_system_window(Some("SystemUIServer"), 0));
    assert!(is_system_window(Some("Control Center"), 0));
    assert!(!is_system_window(Some("Docker"), 0));
}

// Overlap area of two rectangles (x, y, width, height) as the snapshot
// computes it, and its key in the total order of `f64`.
fn overlap_key(a: (f64, f64, f64, f64), b: (f64, f64, f64, f64)) -> i64 {
    let x = (a.0 + a.2).min(b.0 + b.2) - a.0.max(b.0);
    let y = (a.1 + a.3).min(b.1 + b.3) - a.1.max(b.1);
    let area = x.max(0.0) * y.max(0.0);
    let bits = area.to_bits() as i64;
    bits ^ ((((bits >> 63) as u64) >> 1) as i64)
}

#[test]
fn display_association_uses_maximum_overlap() {
    let window = (90.0, 0.0, 30.0, 30.0);
    let displays = vec![
        DisplayOverlap { id: 1, main: true, overlap: overlap_key((0.0, 0.0, 100.0, 100.0), window) },
        DisplayOverlap {
            id: 2,
            main: false,
            overlap: overlap_key((100.0, 0.0, 100.0, 100.0), window),
        },
    ];
    assert_eq!(best_display_id(&displays), Some(2));
}

#[test]
fn display_ties_prefer_non_main_then_smaller_id() {
    let tie = vec![
        DisplayOverlap { id: 1, main: true, overlap: 0 },
        DisplayOverlap { id: 7, main: false, overlap: 0 },
        DisplayOverlap { id: 3, main: false, overlap: 0 },
    ];
    assert_eq!(best_display_id(&tie), Some(3));
    let same = vec![
        DisplayOverlap { id: 4, main: false, overlap: 9 },
        DisplayOverlap { id: 4, main: false, overlap: 9 },
    ];
    assert_eq!(best_display_id(&same), Some(4));
    assert_eq!(best_display_id(&vec![]), None);
}

#[test]
fn single_display_snapshots_name_no_display_per_window() {
    let one = vec![DisplayOverlap { id: 5, main: true, overlap: 0 }];
    assert_eq!(window_display_id(&one), None);
    let two = vec![
        DisplayOverlap { id: 5, main: true, overlap: 10 },
        DisplayOverlap { id: 6, main: false, overlap: 20 },
    ];
    assert_eq!(window_display_id(&two), Some(6));
    assert_eq!(window_display_id(&vec![]), None);
    assert_eq!(split_displays(vec![8u32]), (Some(8), None));
    assert_eq!(split_displays(vec![8u32, 9]), (None, Some(vec![8, 9])));
    assert_eq!(split_displays(Vec::<u32>::new()), (None, Some(vec![])));
}

fn filters() -> WindowFilters {
    WindowFilters {
        all: false,
        include_hidden: false,
        include_system: false,
        app: None,
        pid: None,
        window_id: None,
    }
}

fn entry() -> WindowEntry {
    WindowEntry {
        number: Some(42),
        has_bounds: true,
        empty_area: false,
        owner_pid: Some(300),
        owner_name: Some("Safari".to_string()),
        is_onscreen: Some(true),
        transparent: false,
        layer: Some(0),
    }
}

fn kept(s: Screening) -> Option<(u32, i32, i32, bool)> {
    match s {
        Screening::Keep(p) => Some((p.window_id, p.owner_pid, p.layer, p.is_onscreen)),
        _ => None,
    }
}

#[test]
fn window_list_requests() {
    let r = window_list_request(&filters());
    assert!(r.on_screen_only && r.exclude_desktop_elements);
    let r = window_list_request(&WindowFilters { include_hidden: true, ..filters() });
    assert!(!r.on_screen_only && r.exclude_desktop_elements);
    let r = window_list_request(&WindowFilters { include_system: true, ..filters() });
    assert!(r.on_screen_only && !r.exclude_desktop_elements);
    let r = window_list_request(&WindowFilters { all: true, ..filters() });
    assert!(!r.on_screen_only && !r.exclude_desktop_elements);
}

#[test]
fn user_facing_windows_are_kept() {
    assert_eq!(kept(screen_window(&entry(), &filters())), Some((42, 300, 0, true)));
}

#[test]
fn unparsable_entries_are_skipped() {
    let e = WindowEntry { number: None, ..entry() };
    assert!(matches!(screen_window(&e, &WindowFilters { all: true, ..filters() }), Screening::Skip));
    let e = WindowEntry { number: Some(-1), ..entry() };
    assert!(matches!(screen_window(&e, &filters()), Screening::Skip));
    let e = WindowEntry { number: Some(1 << 32), ..entry() };
    assert!(matches!(screen_window(&e, &filters()), Screening::Skip));
    let e = WindowEntry { has_bounds: false, ..entry() };
    assert!(matches!(screen_window(&e, &WindowFilters { all: true, ..filters() }), Screening::Skip));
}

#[test]
fn default_filters_hide_and_broadening_keeps() {
    let hidden = WindowEntry { is_onscreen: Some(false), ..entry() };
    assert!(matches!(screen_window(&hidden, &filters()), Screening::Skip));
    assert_eq!(
        kept(screen_window(&hidden, &WindowFilters { include_hidden: true, ..filters() })),
        Some((42, 300, 0, false))
    );
    let missing_flag = WindowEntry { is_onscreen: None, ..entry() };
    assert!(matches!(screen_window(&missing_flag, &filters()), Screening::Skip));
    let dock = WindowEntry { owner_name: Some("Dock".to_string()), ..entry() };
    assert!(matches!(screen_window(&dock, &filters()), Screening::Skip));
    assert!(kept(screen_window(&dock, &WindowFilters { include_system: true, ..filters() })).is_some());
    let below = WindowEntry { layer: Some(-5), ..entry() };
    assert!(matches!(screen_window(&below, &filters()), Screening::Skip));
    assert_eq!(
        kept(screen_window(&below, &WindowFilters { all: true, ..filters() })),
        Some((42, 300, -5, true))
    );
    let empty = WindowEntry { empty_area: true, ..entry() };
    assert!(matches!(screen_window(&empty, &filters()), Screening::Skip));
    assert!(kept(screen_window(&empty, &WindowFilters { all: true, ..filters() })).is_some());
    let clear = WindowEntry { transparent: true, ..entry() };
    assert!(matches!(screen_window(&clear, &filters()), Screening::Skip));
    let orphan = WindowEntry { owner_pid: None, ..entry() };
    assert!(matches!(screen_window(&orphan, &filters()), Screening::Skip));
    assert_eq!(
        kept(screen_window(&orphan, &WindowFilters { all: true, ..filters() })),
        Some((42, -1, 0, true))
    );
    let huge_pid = WindowEntry { owner_pid: Some(1 << 40), layer: Some(1 << 40), ..entry() };
    assert_eq!(
        kept(screen_window(&huge_pid, &WindowFilters { all: true, ..filters() })),
        Some((42, -1, 0, true))
    );
}

#[test]
fn explicit_filters_apply_even_with_all() {
    let all = WindowFilters { all: true, ..filters() };
    assert!(matches!(
        screen_window(&entry(), &WindowFilters { window_id: Some(41), ..all }),
        Screening::Skip
    ));
    assert!(kept(screen_window(&entry(), &WindowFilters { window_id: Some(42), ..filters() })).is_some());
    assert!(matches!(
        screen_window(&entry(), &WindowFilters { pid: Some(301), ..filters() }),
        Screening::Skip
    ));
    assert!(kept(screen_window(&entry(), &WindowFilters { pid: Some(300), ..filters() })).is_some());
}

#[test]
fn app_filter_matches_name_or_bundle_id() {
    let by_name = WindowFilters { app: Some("Safari".to_string()), ..filters() };
    assert!(kept(screen_window(&entry(), &by_name)).is_some());
    let by_bundle = WindowFilters { app: Some("com.apple.Safari".to_string()), ..filters() };
    match screen_window(&entry(), &by_bundle) {
        Screening::CheckBundleId(p) => assert_eq!(p.window_id, 42),
        _ => panic!("bundle id must decide"),
    }
    let app = "com.apple.Safari".to_string();
    assert!(bundle_id_matches(&app, &Some("com.apple.Safari".to_string())));
    assert!(!bundle_id_matches(&app, &Some("com.apple.Mail".to_string())));
    assert!(!bundle_id_matches(&app, &None));
}

#[test]
fn exit_codes() {
    assert_eq!(Error::AccessibilityPermission.exit_code(), 3);
    assert_eq!(Error::Screenshot(screenshot::Error::NoMainDisplay).exit_code(), 4);
    assert_eq!(Error::Output(output::Error::Io("broken pipe".to_string())).exit_code(), 5);
    assert_eq!(Error::Display(1001).exit_code(), 1);
    assert_eq!(Error::WindowListUnavailable.exit_code(), 1);
    assert_eq!(Error::Runtime("x".to_string()).exit_code(), 1);
}

#[test]
fn untrusted_process_needs_permission() {
    assert!(matches!(trust_error(AxErrorKind::NotTrusted), Error::AccessibilityPermission));
    match trust_error(AxErrorKind::UnexpectedNull) {
        Error::Runtime(m) => assert_eq!(m, "AX returned success but returned a null pointer"),
        _ => panic!("expected a runtime failure"),
    }
}

fn app(pid: i32, name: &str) -> ApplicationInfo {
    ApplicationInfo { pid, name: Some(name.to_string()), bundle_id: None }
}

fn record() -> WindowRecord {
    let parsed = ParsedWindow { window_id: 42, owner_pid: 300, layer: 0, is_onscreen: true };
    new_window_record(0, &parsed, app(300, "Safari"), Some("Start".to_string()), None, &Some(app(300, "Safari")), Some(42))
}

#[test]
fn records_mark_frontmost_and_focused_windows() {
    let parsed = ParsedWindow { window_id: 42, owner_pid: 300, layer: 3, is_onscreen: false };
    let r = new_window_record(5, &parsed, app(300, "Safari"), None, Some(2), &Some(app(300, "Safari")), Some(41));
    assert!(r.is_frontmost_app && !r.is_focused);
    assert_eq!((r.window_id, r.z_order, r.layer, r.is_onscreen, r.display_id), (42, 5, 3, false, Some(2)));
    let r = new_window_record(0, &parsed, app(300, "Safari"), None, None, &None, Some(42));
    assert!(!r.is_frontmost_app && r.is_focused);
    assert!(r.role.is_none() && r.ax_errors.is_none() && r.raw.is_none());
}

#[test]
fn owner_falls_back_to_window_server_name() {
    let a = owner_application(None, 12, &Some("Finder".to_string()));
    assert_eq!((a.pid, a.name, a.bundle_id), (12, Some("Finder".to_string()), None));
    let found = ApplicationInfo { pid: 12, name: Some("Finder".to_string()), bundle_id: Some("com.apple.finder".to_string()) };
    let a = owner_application(Some(found), 12, &None);
    assert_eq!(a.bundle_id, Some("com.apple.finder".to_string()));
}

#[test]
fn matching_window_finds_the_first_match() {
    assert_eq!(matching_window(&vec![None, Some(3), Some(9), Some(9)], 9), Some(2));
    assert_eq!(matching_window(&vec![None, Some(3)], 9), None);
}

#[test]
fn attribute_reads_replace_values_and_record_failures() {
    let mut errors = StringMap::new();
    let mut title = Some("old".to_string());
    read_attribute(&mut title, Ok(None), "AXTitle", &mut errors);
    assert_eq!(title, None);
    read_attribute(&mut title, Ok(Some("new".to_string())), "AXTitle", &mut errors);
    assert_eq!(title, Some("new".to_string()));
    read_attribute(&mut title, Err(AxErrorKind::Ax(AxErrorDisplay(-25205))), "AXTitle", &mut errors);
    assert_eq!(title, Some("new".to_string()));
    assert_eq!(
        errors.to_pairs(),
        vec![(
            "AXTitle".to_string(),
            "AX operation failed: kAXErrorAttributeUnsupported (-25205): the attribute is not supported by this element".to_string()
        )]
    );
    let got: Option<u8> = note_failure(&mut errors, "AXWindows", Err(AxErrorKind::UnexpectedNull));
    assert_eq!(got, None);
    assert_eq!(note_failure(&mut errors, "AXWindows", Ok(7u8)), Some(7));
    assert_eq!(errors.len(), 2);
    assert_eq!(errors.to_pairs()[0].0, "AXTitle");
    assert_eq!(errors.to_pairs()[1].0, "AXWindows");
}

#[test]
fn failures_are_kept_only_at_high_verbosity() {
    assert!(kept_errors(StringMap::new(), 2).is_none());
    let mut m = StringMap::new();
    m.insert("AXRole".to_string(), "x".to_string());
    assert!(kept_errors(m, 1).is_none());
    let mut m = StringMap::new();
    m.insert("AXRole".to_string(), "x".to_string());
    assert_eq!(kept_errors(m, 2).unwrap().len(), 1);
}

#[test]
fn unmatched_windows_are_reported_at_high_verbosity() {
    let mut r = record();
    finish_unmatched(&mut r, StringMap::new(), 2);
    assert_eq!(
        r.ax_errors.unwrap().to_pairs(),
        vec![("window_match".to_string(), "AX window could not be matched".to_string())]
    );
    let mut r = record();
    finish_unmatched(&mut r, StringMap::new(), 1);
    assert!(r.ax_errors.is_none());
    let mut r = record();
    let mut m = StringMap::new();
    m.insert("AXWindows".to_string(), "busy".to_string());
    finish_unmatched(&mut r, m, 2);
    assert_eq!(r.ax_errors.unwrap().to_pairs(), vec![("AXWindows".to_string(), "busy".to_string())]);
}

#[test]
fn raw_details_at_high_verbosity() {
    let mut r = record();
    r.layer = -3;
    finish_enrichment(&mut r, StringMap::new(), 2, "0.5".to_string());
    assert_eq!(
        r.raw.unwrap().to_pairs(),
        vec![
            ("alpha".to_string(), "0.5".to_string()),
            ("layer".to_string(), "-3".to_string()),
            ("owner_name".to_string(), "Safari".to_string()),
        ]
    );
    assert!(r.ax_errors.is_none());
    let mut r = record();
    finish_enrichment(&mut r, StringMap::new(), 1, "1".to_string());
    assert!(r.raw.is_none());
    let mut r = record();
    r.owner.name = None;
    finish_enrichment(&mut r, StringMap::new(), 3, "1".to_string());
    assert_eq!(r.raw.unwrap().to_pairs()[2], ("owner_name".to_string(), String::new()));
}

#[test]
fn selection_keeps_front_to_back_order() {
    let front = entry();
    let dock = WindowEntry { number: Some(7), owner_name: Some("Dock".to_string()), ..entry() };
    let back = WindowEntry { number: Some(3), owner_pid: Some(301), ..entry() };
    let list = vec![(front, None), (dock, None), (back, None)];
    let chosen: Vec<(usize, u32)> = select_windows(&list, &filters())
        .into_iter()
        .map(|(i, p)| (i, p.window_id))
        .collect();
    assert_eq!(chosen, vec![(0, 42), (2, 3)]);
    let all = WindowFilters { all: true, ..filters() };
    assert_eq!(select_windows(&list, &all).len(), 3);
}

#[test]
fn selection_by_bundle_id() {
    let mail = WindowEntry { number: Some(5), owner_name: Some("Mail".to_string()), ..entry() };
    let list = vec![
        (entry(), Some("com.apple.Safari".to_string())),
        (mail, Some("com.apple.mail".to_string())),
    ];
    let f = WindowFilters { app: Some("com.apple.mail".to_string()), ..filters() };
    let chosen: Vec<usize> = select_windows(&list, &f).into_iter().map(|(i, _)| i).collect();
    assert_eq!(chosen, vec![1]);
    let by_name = WindowFilters { app: Some("Safari".to_string()), ..filters() };
    let chosen: Vec<usize> = select_windows(&list, &by_name).into_iter().map(|(i, _)| i).collect();
    assert_eq!(chosen, vec![0]);
}

#[test]
fn records_are_numbered_front_to_back() {
    let selected: Vec<SelectedWindow> = [42u32, 7, 9]
        .iter()
        .map(|&id| SelectedWindow {
            window: ParsedWindow { window_id: id, owner_pid: 300, layer: 0, is_onscreen: true },
            owner: app(300, "Safari"),
            title: None,
            display_id: Some(1),
        })
        .collect();
    let records = window_records(selected, &None, Some(7));
    let seen: Vec<(u32, usize, bool)> =
        records.iter().map(|r| (r.window_id, r.z_order, r.is_focused)).collect();
    assert_eq!(seen, vec![(42, 0, false), (7, 1, true), (9, 2, false)]);
    assert!(records.iter().all(|r| r.display_id == Some(1) && !r.is_frontmost_app));
}

#[test]
fn best_display_does_not_depend_on_listing_order() {
    let a = DisplayOverlap { id: 1, main: true, overlap: 5 };
    let b = DisplayOverlap { id: 2, main: false, overlap: 5 };
    let c = DisplayOverlap { id: 3, main: false, overlap: 2 };
    let orders = vec![
        vec![a.clone(), b.clone(), c.clone()],
        vec![c.clone(), b.clone(), a.clone()],
        vec![b.clone(), a.clone(), c.clone()],
        vec![a.clone(), c.clone(), b.clone()],
    ];
    for order in orders {
        assert_eq!(best_display_id(&order), Some(2));
    }
}
