//! The human-readable report of a snapshot.

use vstd::prelude::*;
use vstd::string::*;

use crate::model::{ApplicationInfo, WindowRecord};
use crate::string_map::debug_map;
use crate::text::{debug_quoted, decimal, i64_text, quote_debug, signed_decimal, u64_text};

verus! {

/// Why the report could not be written.
pub enum Error {
    /// JSON serialisation failed, with the serialiser's message.
    Json(String),
    /// Writing to standard output failed, with the I/O error's message.
    Io(String),
}

/// A display as the report shows it; `bounds` is the rectangle already
/// written as `(x,y wxh)`.
pub struct DisplayLine {
    pub id: u32,
    pub main: bool,
    pub pixel_width: usize,
    pub pixel_height: usize,
    pub bounds: String,
}

/// A window as the report shows it; `bounds` is its rectangle written as
/// `(x,y wxh)` and `alpha` its alpha with two decimals.
pub struct WindowLine {
    pub record: WindowRecord,
    pub bounds: String,
    pub alpha: String,
}

/// What the report shows of a snapshot.
pub struct Report {
    pub frontmost_app: Option<ApplicationInfo>,
    pub focused_window_id: Option<u32>,
    pub display: Option<DisplayLine>,
    pub displays: Option<Vec<DisplayLine>>,
    pub windows: Vec<WindowLine>,
    pub screenshot_path: Option<String>,
}

/// The text of an optional string, or a placeholder.
pub open spec fn or_text(o: Option<String>, placeholder: Seq<char>) -> Seq<char> {
    match o {
        Some(s) => s@,
        None => placeholder,
    }
}

/// `true` or `false`.
pub open spec fn bool_text(b: bool) -> Seq<char> {
    if b {
        "true"@
    } else {
        "false"@
    }
}

/// `true`, `false`, or `unknown` when the value is not known.
pub open spec fn optional_bool_text(v: Option<bool>) -> Seq<char> {
    match v {
        Some(true) => "true"@,
        Some(false) => "false"@,
        None => "unknown"@,
    }
}

/// The mark of a window: `*` for the focused window, else `>` for a window
/// of the frontmost application, else a space.
pub open spec fn marker_text(focused: bool, frontmost: bool) -> Seq<char> {
    if focused {
        "*"@
    } else if frontmost {
        ">"@
    } else {
        " "@
    }
}

/// `frontmost: name [bundle] (pid N)`, or `frontmost: <unknown>`.
pub open spec fn frontmost_line(app: Option<ApplicationInfo>) -> Seq<char> {
    match app {
        Some(a) => "frontmost: "@ + or_text(a.name, "<unknown>"@) + match a.bundle_id {
            Some(b) => " ["@ + b@ + "]"@,
            None => Seq::empty(),
        } + " (pid "@ + signed_decimal(a.pid as int) + ")\n"@,
        None => "frontmost: <unknown>\n"@,
    }
}

/// `focused window: N`, or `focused window: <none>`.
pub open spec fn focused_line(id: Option<u32>) -> Seq<char> {
    "focused window: "@ + match id {
        Some(i) => decimal(i as nat),
        None => "<none>"@,
    } + "\n"@
}

/// `N (main) WxH px bounds=(x,y wxh)`.
pub open spec fn display_text(d: DisplayLine) -> Seq<char> {
    decimal(d.id as nat) + (if d.main {
        " (main)"@
    } else {
        Seq::empty()
    }) + " "@ + decimal(d.pixel_width as nat) + "x"@ + decimal(d.pixel_height as nat)
        + " px bounds="@ + d.bounds@
}

/// The lines of a display list, each `  - ` and the display.
pub open spec fn display_list_text(ds: Seq<DisplayLine>) -> Seq<char>
    decreases ds.len(),
{
    if ds.len() == 0 {
        Seq::empty()
    } else {
        display_list_text(ds.drop_last()) + "  - "@ + display_text(ds.last()) + "\n"@
    }
}

/// Mark, position, id and owner pid of a window.
pub open spec fn window_identity(w: WindowLine) -> Seq<char> {
    "  "@ + marker_text(w.record.is_focused, w.record.is_frontmost_app) + " z="@ + decimal(
        w.record.z_order as nat,
    ) + " id="@ + decimal(w.record.window_id as nat) + " pid="@ + signed_decimal(
        w.record.owner.pid as int,
    )
}

/// Owner name and quoted title of a window.
pub open spec fn window_names(w: WindowLine) -> Seq<char> {
    " app="@ + or_text(w.record.owner.name, "<unknown>"@) + " title="@ + debug_quoted(
        or_text(w.record.title, "<untitled>"@),
    )
}

/// Bounds and display of a window, ending the line.
pub open spec fn window_place(w: WindowLine) -> Seq<char> {
    " bounds="@ + w.bounds@ + (match w.record.display_id {
        Some(d) => " display="@ + decimal(d as nat),
        None => Seq::empty(),
    }) + "\n"@
}

/// The main line of a window.
pub open spec fn window_main_line(w: WindowLine) -> Seq<char> {
    window_identity(w) + window_names(w) + window_place(w)
}

/// The diagnostics line of a window (`-v`).
pub open spec fn window_detail_line(w: WindowLine) -> Seq<char> {
    "    layer="@ + signed_decimal(w.record.layer as int) + " alpha="@ + w.alpha@ + " onscreen="@
        + bool_text(w.record.is_onscreen) + " minimized="@ + optional_bool_text(
        w.record.is_minimized,
    ) + " main="@ + optional_bool_text(w.record.is_main) + " role="@ + or_text(
        w.record.role,
        "<none>"@,
    ) + " subrole="@ + or_text(w.record.subrole, "<none>"@) + "\n"@
}

/// The lines of the recorded failures and raw details of a window (`-vv`).
pub open spec fn window_extra_lines(w: WindowLine) -> Seq<char> {
    (match w.record.ax_errors {
        Some(m) => "    AX errors: "@ + debug_map(m@) + "\n"@,
        None => Seq::empty(),
    }) + (match w.record.raw {
        Some(m) => "    raw: "@ + debug_map(m@) + "\n"@,
        None => Seq::empty(),
    })
}

/// All lines of a window: the main line, at verbosity 1 or more the
/// diagnostics line, at verbosity 2 or more the failures and raw details.
pub open spec fn window_text(w: WindowLine, verbosity: u8) -> Seq<char> {
    window_main_line(w) + (if verbosity >= 1 {
        window_detail_line(w)
    } else {
        Seq::empty()
    }) + (if verbosity >= 2 {
        window_extra_lines(w)
    } else {
        Seq::empty()
    })
}

/// At verbosity 2 or more, a window's raw details add the line
/// `    raw: {...}` at the end of its lines whenever they are recorded,
/// whether or not accessibility failures were recorded; recorded failures
/// add the line `    AX errors: {...}` before it. Below verbosity 2 neither
/// is shown.
pub proof fn lemma_diagnostic_lines(w: WindowLine, verbosity: u8)
    ensures
        verbosity >= 2 ==> (w.record.raw matches Some(m) ==> window_text(w, verbosity)
            == window_text(
            (WindowLine { record: WindowRecord { raw: None, ..w.record }, ..w }),
            verbosity,
        ) + "    raw: "@ + debug_map(m@) + "\n"@),
        verbosity >= 2 ==> (w.record.ax_errors matches Some(m) ==> window_text(
            (WindowLine { record: WindowRecord { raw: None, ..w.record }, ..w }),
            verbosity,
        ) == window_text(
            (WindowLine { record: WindowRecord { raw: None, ax_errors: None, ..w.record }, ..w }),
            verbosity,
        ) + "    AX errors: "@ + debug_map(m@) + "\n"@),
        verbosity >= 2 ==> window_text(
            (WindowLine { record: WindowRecord { raw: None, ax_errors: None, ..w.record }, ..w }),
            verbosity,
        ) == window_main_line(w) + window_detail_line(w),
        verbosity < 2 ==> window_text(w, verbosity) == window_text(
            (WindowLine { record: WindowRecord { raw: None, ax_errors: None, ..w.record }, ..w }),
            verbosity,
        ),
        verbosity == 1 ==> window_text(w, verbosity) == window_main_line(w) + window_detail_line(w),
        verbosity == 0 ==> window_text(w, verbosity) == window_main_line(w),
{
    let a = WindowLine { record: WindowRecord { raw: None, ..w.record }, ..w };
    let b = WindowLine { record: WindowRecord { raw: None, ax_errors: None, ..w.record }, ..w };
    assert(window_main_line(a) == window_main_line(w));
    assert(window_main_line(b) == window_main_line(w));
    assert(window_detail_line(a) == window_detail_line(w));
    assert(window_detail_line(b) == window_detail_line(w));
    if verbosity >= 2 {
        if let Some(m) = w.record.raw {
            assert(window_text(w, verbosity) =~= window_text(a, verbosity) + "    raw: "@
                + debug_map(m@) + "\n"@);
        }
        if let Some(m) = w.record.ax_errors {
            assert(window_text(a, verbosity) =~= window_text(b, verbosity) + "    AX errors: "@
                + debug_map(m@) + "\n"@);
        }
        assert(window_text(b, verbosity) =~= window_main_line(w) + window_detail_line(w));
    } else {
        assert(window_text(w, verbosity) =~= window_text(b, verbosity));
        if verbosity == 1 {
            assert(window_text(w, verbosity) =~= window_main_line(w) + window_detail_line(w));
        } else {
            assert(window_text(w, verbosity) =~= window_main_line(w));
        }
    }
}

/// A window's lines begin with two spaces and its mark: `*` when it is the
/// focused window, else `>` when it belongs to the frontmost application,
/// else a space.
pub proof fn lemma_window_mark(w: WindowLine, verbosity: u8)
    ensures
        window_text(w, verbosity).len() > 2,
        window_text(w, verbosity)[0] == ' ' && window_text(w, verbosity)[1] == ' ',
        w.record.is_focused ==> window_text(w, verbosity)[2] == '*',
        !w.record.is_focused && w.record.is_frontmost_app ==> window_text(w, verbosity)[2] == '>',
        !w.record.is_focused && !w.record.is_frontmost_app ==> window_text(w, verbosity)[2] == ' ',
{
    reveal_strlit("  ");
    reveal_strlit("*");
    reveal_strlit(">");
    reveal_strlit(" ");
    let head = "  "@ + marker_text(w.record.is_focused, w.record.is_frontmost_app);
    let t = window_text(w, verbosity);
    assert(head.len() == 3);
    assert(t =~= head + (t.subrange(3, t.len() as int)));
    assert(t[0] == head[0] && t[1] == head[1] && t[2] == head[2]);
}

/// The lines of all windows, front to back.
pub open spec fn windows_text(ws: Seq<WindowLine>, verbosity: u8) -> Seq<char>
    decreases ws.len(),
{
    if ws.len() == 0 {
        Seq::empty()
    } else {
        windows_text(ws.drop_last(), verbosity) + window_text(ws.last(), verbosity)
    }
}

/// The whole report.
pub open spec fn report_text(r: Report, verbosity: u8) -> Seq<char> {
    frontmost_line(r.frontmost_app) + focused_line(r.focused_window_id) + displays_part(r)
        + windows_part(r, verbosity) + (match r.screenshot_path {
        Some(p) => "screenshot: "@ + p@ + "\n"@,
        None => Seq::empty(),
    })
}

fn append_or(s: &mut String, o: &Option<String>, placeholder: &str)
    ensures
        final(s)@ == old(s)@ + or_text(*o, placeholder@),
{
    match o {
        Some(t) => s.append(t.as_str()),
        None => s.append(placeholder),
    }
}

fn append_u64(s: &mut String, n: u64)
    ensures
        final(s)@ == old(s)@ + decimal(n as nat),
{
    let t = u64_text(n);
    s.append(t.as_str());
}

fn append_i64(s: &mut String, n: i64)
    ensures
        final(s)@ == old(s)@ + signed_decimal(n as int),
{
    let t = i64_text(n);
    s.append(t.as_str());
}

/// `true`, `false` or `unknown`.
pub fn optional_bool(value: Option<bool>) -> (t: &'static str)
    ensures
        t@ == optional_bool_text(value),
{
    match value {
        Some(true) => "true",
        Some(false) => "false",
        None => "unknown",
    }
}

fn bool_str(b: bool) -> (t: &'static str)
    ensures
        t@ == bool_text(b),
{
    if b {
        "true"
    } else {
        "false"
    }
}

/// The mark of a window in the report.
pub fn marker(focused: bool, frontmost: bool) -> (t: &'static str)
    ensures
        t@ == marker_text(focused, frontmost),
{
    if focused {
        "*"
    } else if frontmost {
        ">"
    } else {
        " "
    }
}

fn write_window_main_line(out: &mut String, window: &WindowLine)
    ensures
        final(out)@ == old(out)@ + window_main_line(*window),
{
    let ghost start = out@;
    let r = &window.record;
    out.append("  ");
    out.append(marker(r.is_focused, r.is_frontmost_app));
    out.append(" z=");
    append_u64(out, r.z_order as u64);
    out.append(" id=");
    append_u64(out, r.window_id as u64);
    out.append(" pid=");
    append_i64(out, r.owner.pid as i64);
    assert(out@ =~= start + window_identity(*window));
    let ghost mid = out@;
    out.append(" app=");
    append_or(out, &r.owner.name, "<unknown>");
    out.append(" title=");
    let title: &str = match &r.title {
        Some(t) => t.as_str(),
        None => "<untitled>",
    };
    let quoted = quote_debug(title);
    out.append(quoted.as_str());
    assert(out@ =~= mid + window_names(*window));
    let ghost mid2 = out@;
    out.append(" bounds=");
    out.append(window.bounds.as_str());
    match r.display_id {
        Some(d) => {
            out.append(" display=");
            append_u64(out, d as u64);
        },
        None => {},
    }
    out.append("\n");
    assert(out@ =~= mid2 + window_place(*window));
    assert(out@ =~= start + window_main_line(*window));
}

fn write_window_detail_line(out: &mut String, window: &WindowLine)
    ensures
        final(out)@ == old(out)@ + window_detail_line(*window),
{
    let ghost start = out@;
    let r = &window.record;
    out.append("    layer=");
    append_i64(out, r.layer as i64);
    out.append(" alpha=");
    out.append(window.alpha.as_str());
    let ghost part1 = out@;
    assert(part1 =~= start + "    layer="@ + signed_decimal(r.layer as int) + " alpha="@
        + window.alpha@);
    out.append(" onscreen=");
    let b = bool_str(r.is_onscreen);
    out.append(b);
    let ghost part2 = out@;
    assert(part2 =~= part1 + " onscreen="@ + bool_text(r.is_onscreen));
    out.append(" minimized=");
    let m = optional_bool(r.is_minimized);
    out.append(m);
    let ghost part3 = out@;
    assert(part3 =~= part2 + " minimized="@ + optional_bool_text(r.is_minimized));
    out.append(" main=");
    let k = optional_bool(r.is_main);
    out.append(k);
    let ghost part4 = out@;
    assert(part4 =~= part3 + " main="@ + optional_bool_text(r.is_main));
    out.append(" role=");
    append_or(out, &r.role, "<none>");
    let ghost part5 = out@;
    assert(part5 =~= part4 + " role="@ + or_text(r.role, "<none>"@));
    out.append(" subrole=");
    append_or(out, &r.subrole, "<none>");
    out.append("\n");
    assert(out@ =~= part5 + " subrole="@ + or_text(r.subrole, "<none>"@) + "\n"@);
    assert(out@ =~= start + window_detail_line(*window));
}

fn write_window_extra_lines(out: &mut String, window: &WindowLine)
    ensures
        final(out)@ == old(out)@ + window_extra_lines(*window),
{
    let ghost start = out@;
    let r = &window.record;
    match &r.ax_errors {
        Some(m) => {
            out.append("    AX errors: ");
            let t = m.debug_text();
            out.append(t.as_str());
            out.append("\n");
        },
        None => {},
    }
    match &r.raw {
        Some(m) => {
            out.append("    raw: ");
            let t = m.debug_text();
            out.append(t.as_str());
            out.append("\n");
        },
        None => {},
    }
    assert(out@ =~= start + window_extra_lines(*window));
}

/// Appends the lines of one window at the given verbosity.
pub fn write_window(out: &mut String, window: &WindowLine, verbosity: u8)
    ensures
        final(out)@ == old(out)@ + window_text(*window, verbosity),
{
    let ghost start = out@;
    write_window_main_line(out, window);
    if verbosity >= 1 {
        write_window_detail_line(out, window);
    }
    if verbosity >= 2 {
        write_window_extra_lines(out, window);
    }
    assert(out@ =~= start + window_text(*window, verbosity));
}

fn write_display(out: &mut String, d: &DisplayLine)
    ensures
        final(out)@ == old(out)@ + display_text(*d),
{
    let ghost start = out@;
    append_u64(out, d.id as u64);
    if d.main {
        out.append(" (main)");
    }
    out.append(" ");
    append_u64(out, d.pixel_width as u64);
    out.append("x");
    append_u64(out, d.pixel_height as u64);
    out.append(" px bounds=");
    out.append(d.bounds.as_str());
    assert(out@ =~= start + display_text(*d));
}

fn write_header(out: &mut String, report: &Report)
    ensures
        final(out)@ == old(out)@ + frontmost_line(report.frontmost_app) + focused_line(
            report.focused_window_id,
        ),
{
    let ghost start = out@;
    match &report.frontmost_app {
        Some(app) => {
            out.append("frontmost: ");
            append_or(out, &app.name, "<unknown>");
            match &app.bundle_id {
                Some(b) => {
                    out.append(" [");
                    out.append(b.as_str());
                    out.append("]");
                },
                None => {},
            }
            out.append(" (pid ");
            append_i64(out, app.pid as i64);
            out.append(")\n");
        },
        None => {
            out.append("frontmost: <unknown>\n");
        },
    }
    assert(out@ =~= start + frontmost_line(report.frontmost_app));
    let ghost s1 = out@;
    out.append("focused window: ");
    match report.focused_window_id {
        Some(id) => append_u64(out, id as u64),
        None => out.append("<none>"),
    }
    out.append("\n");
    assert(out@ =~= s1 + focused_line(report.focused_window_id));
}

/// The display part of the report.
pub open spec fn displays_part(r: Report) -> Seq<char> {
    (match r.display {
        Some(d) => "display: "@ + display_text(d) + "\n"@,
        None => Seq::empty(),
    }) + (match r.displays {
        Some(ds) => "displays: "@ + decimal(ds@.len()) + "\n"@ + display_list_text(ds@),
        None => Seq::empty(),
    })
}

fn write_displays(out: &mut String, report: &Report)
    ensures
        final(out)@ == old(out)@ + displays_part(*report),
{
    let ghost start = out@;
    match &report.display {
        Some(d) => {
            out.append("display: ");
            write_display(out, d);
            out.append("\n");
        },
        None => {},
    }
    let ghost mid = out@;
    assert(mid =~= start + match report.display {
        Some(d) => "display: "@ + display_text(d) + "\n"@,
        None => Seq::<char>::empty(),
    });
    match &report.displays {
        Some(ds) => {
            out.append("displays: ");
            append_u64(out, ds.len() as u64);
            out.append("\n");
            let ghost base = out@;
            let n = ds.len();
            let mut i: usize = 0;
            while i < n
                invariant
                    n == ds@.len(),
                    i <= n,
                    out@ == base + display_list_text(ds@.subrange(0, i as int)),
                decreases n - i,
            {
                out.append("  - ");
                write_display(out, &ds[i]);
                out.append("\n");
                let ghost p = ds@.subrange(0, i + 1);
                assert(p.drop_last() =~= ds@.subrange(0, i as int));
                assert(out@ =~= base + display_list_text(p));
                i = i + 1;
            }
            assert(ds@.subrange(0, n as int) =~= ds@);
            assert(out@ =~= mid + "displays: "@ + decimal(ds@.len()) + "\n"@ + display_list_text(
                ds@,
            ));
        },
        None => {},
    }
    assert(out@ =~= start + displays_part(*report));
}

/// The windows are listed in the order given (front to back), each once:
/// the lines of two runs of windows are the lines of the first run
/// followed by those of the second, and a single window's lines are its
/// own.
pub proof fn lemma_windows_in_order(a: Seq<WindowLine>, b: Seq<WindowLine>, verbosity: u8)
    ensures
        windows_text(a + b, verbosity) == windows_text(a, verbosity) + windows_text(b, verbosity),
        b.len() == 1 ==> windows_text(b, verbosity) == window_text(b[0], verbosity),
    decreases b.len(),
{
    if b.len() == 0 {
        assert(a + b =~= a);
        assert(windows_text(a + b, verbosity) =~= windows_text(a, verbosity) + windows_text(
            b,
            verbosity,
        ));
    } else {
        lemma_windows_in_order(a, b.drop_last(), verbosity);
        assert((a + b).drop_last() =~= a + b.drop_last());
        assert((a + b).last() == b.last());
        assert(windows_text(a + b, verbosity) =~= windows_text(a, verbosity) + windows_text(
            b,
            verbosity,
        ));
        if b.len() == 1 {
            assert(b.drop_last() =~= Seq::<WindowLine>::empty());
            assert(windows_text(b, verbosity) =~= window_text(b[0], verbosity));
        }
    }
}

/// The displays are listed in the order given, each once, on a line of
/// its own starting with `  - `.
pub proof fn lemma_displays_in_order(a: Seq<DisplayLine>, b: Seq<DisplayLine>)
    ensures
        display_list_text(a + b) == display_list_text(a) + display_list_text(b),
        b.len() == 1 ==> display_list_text(b) == "  - "@ + display_text(b[0]) + "\n"@,
    decreases b.len(),
{
    if b.len() == 0 {
        assert(a + b =~= a);
        assert(display_list_text(a + b) =~= display_list_text(a) + display_list_text(b));
    } else {
        lemma_displays_in_order(a, b.drop_last());
        assert((a + b).drop_last() =~= a + b.drop_last());
        assert((a + b).last() == b.last());
        assert(display_list_text(a + b) =~= display_list_text(a) + display_list_text(b));
        if b.len() == 1 {
            assert(b.drop_last() =~= Seq::<DisplayLine>::empty());
            assert(display_list_text(b) =~= "  - "@ + display_text(b[0]) + "\n"@);
        }
    }
}

/// The window part of the report.
pub open spec fn windows_part(r: Report, verbosity: u8) -> Seq<char> {
    "windows: "@ + decimal(r.windows@.len()) + "\n"@ + windows_text(r.windows@, verbosity)
}

fn write_windows(out: &mut String, report: &Report, verbosity: u8)
    ensures
        final(out)@ == old(out)@ + windows_part(*report, verbosity),
{
    let ghost start = out@;
    out.append("windows: ");
    append_u64(out, report.windows.len() as u64);
    out.append("\n");
    let ghost base = out@;
    let n = report.windows.len();
    let mut i: usize = 0;
    while i < n
        invariant
            n == report.windows@.len(),
            i <= n,
            out@ == base + windows_text(report.windows@.subrange(0, i as int), verbosity),
        decreases n - i,
    {
        write_window(out, &report.windows[i], verbosity);
        let ghost p = report.windows@.subrange(0, i + 1);
        assert(p.drop_last() =~= report.windows@.subrange(0, i as int));
        assert(out@ =~= base + windows_text(p, verbosity));
        i = i + 1;
    }
    assert(report.windows@.subrange(0, n as int) =~= report.windows@);
    assert(out@ =~= start + windows_part(*report, verbosity));
}

/// The human-readable report of a snapshot: the frontmost application, the
/// focused window, the display or displays, then every window front to
/// back, and the screenshot path when one was written.
pub fn render_report(report: &Report, verbosity: u8) -> (text: String)
    ensures
        text@ == report_text(*report, verbosity),
{
    let mut out = String::new();
    write_header(&mut out, report);
    write_displays(&mut out, report);
    write_windows(&mut out, report, verbosity);
    match &report.screenshot_path {
        Some(p) => {
            out.append("screenshot: ");
            out.append(p.as_str());
            out.append("\n");
        },
        None => {},
    }
    assert(out@ =~= report_text(*report, verbosity));
    out
}

} // verus!
