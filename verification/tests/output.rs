use screen_dump::model::{ApplicationInfo, WindowRecord};
use screen_dump::output::{marker, optional_bool, render_report, DisplayLine, Report, WindowLine};
use screen_dump::string_map::StringMap;

fn record(id: u32, z: usize) -> WindowRecord {
    WindowRecord {
        window_id: id,
        z_order: z,
        owner: ApplicationInfo { pid: 300, name: Some("Safari".to_string()), bundle_id: None },
        title: Some("Start \"page\"".to_string()),
        role: Some("AXWindow".to_string()),
        subrole: None,
        display_id: None,
        layer: 0,
        is_onscreen: true,
        is_minimized: Some(false),
        is_main: None,
        is_frontmost_app: true,
        is_focused: z == 0,
        ax_errors: None,
        raw: None,
    }
}

fn line(r: WindowRecord) -> WindowLine {
    WindowLine { record: r, bounds: "(0,25 800x600)".to_string(), alpha: "1.00".to_string() }
}

#[test]
fn markers() {
    assert_eq!(marker(true, true), "*");
    assert_eq!(marker(false, true), ">");
    assert_eq!(marker(false, false), " ");
    assert_eq!(optional_bool(Some(true)), "true");
    assert_eq!(optional_bool(Some(false)), "false");
    assert_eq!(optional_bool(None), "unknown");
}

#[test]
fn single_display_report() {
    let report = Report {
        frontmost_app: Some(ApplicationInfo {
            pid: 300,
            name: Some("Safari".to_string()),
            bundle_id: Some("com.apple.Safari".to_string()),
        }),
        focused_window_id: Some(42),
        display: Some(DisplayLine {
            id: 1,
            main: true,
            pixel_width: 2880,
            pixel_height: 1800,
            bounds: "(0,0 1440x900)".to_string(),
        }),
        displays: None,
        windows: vec![line(record(42, 0)), line(record(43, 1))],
        screenshot_path: Some("/tmp/screen.png".to_string()),
    };
    assert_eq!(
        render_report(&report, 0),
        "frontmost: Safari [com.apple.Safari] (pid 300)\n\
         focused window: 42\n\
         display: 1 (main) 2880x1800 px bounds=(0,0 1440x900)\n\
         windows: 2\n\
         \x20 * z=0 id=42 pid=300 app=Safari title=\"Start \\\"page\\\"\" bounds=(0,25 800x600)\n\
         \x20 > z=1 id=43 pid=300 app=Safari title=\"Start \\\"page\\\"\" bounds=(0,25 800x600)\n\
         screenshot: /tmp/screen.png\n"
    );
}

#[test]
fn multi_display_verbose_report() {
    let mut w = record(7, 0);
    w.is_frontmost_app = false;
    w.is_focused = false;
    w.title = None;
    w.owner.name = None;
    w.display_id = Some(2);
    let mut errors = StringMap::new();
    errors.insert("AXTitle".to_string(), "busy".to_string());
    w.ax_errors = Some(errors);
    let mut raw = StringMap::new();
    raw.insert("layer".to_string(), "0".to_string());
    w.raw = Some(raw);
    let report = Report {
        frontmost_app: None,
        focused_window_id: None,
        display: None,
        displays: Some(vec![
            DisplayLine { id: 1, main: true, pixel_width: 10, pixel_height: 20, bounds: "(0,0 5x10)".to_string() },
            DisplayLine { id: 2, main: false, pixel_width: 30, pixel_height: 40, bounds: "(5,0 15x20)".to_string() },
        ]),
        windows: vec![line(w)],
        screenshot_path: None,
    };
    let head = "frontmost: <unknown>\n\
                focused window: <none>\n\
                displays: 2\n\
                \x20 - 1 (main) 10x20 px bounds=(0,0 5x10)\n\
                \x20 - 2 30x40 px bounds=(5,0 15x20)\n\
                windows: 1\n\
                \x20   z=0 id=7 pid=300 app=<unknown> title=\"<untitled>\" bounds=(0,25 800x600) display=2\n";
    let detail = "    layer=0 alpha=1.00 onscreen=true minimized=false main=unknown role=AXWindow subrole=<none>\n";
    let extra = "    AX errors: {\"AXTitle\": \"busy\"}\n    raw: {\"layer\": \"0\"}\n";
    assert_eq!(render_report(&report, 0), head.to_string());
    assert_eq!(render_report(&report, 1), format!("{head}{detail}"));
    assert_eq!(render_report(&report, 2), format!("{head}{detail}{extra}"));
}

#[test]
fn empty_report() {
    let report = Report {
        frontmost_app: Some(ApplicationInfo { pid: -1, name: None, bundle_id: None }),
        focused_window_id: None,
        display: None,
        displays: Some(vec![]),
        windows: vec![],
        screenshot_path: None,
    };
    assert_eq!(
        render_report(&report, 2),
        "frontmost: <unknown> (pid -1)\nfocused window: <none>\ndisplays: 0\nwindows: 0\n"
    );
}
