//! Which windows a snapshot keeps and in what order, which display each
//! window belongs to, how a window's record and its accessibility
//! diagnostics are filled in, and the process exit code of each failure.

use vstd::prelude::*;

use crate::ax::{AxErrorKind, AxResult};
use crate::model::{ApplicationInfo, WindowRecord};
use crate::string_map::{has_key, inserted, lemma_inserted_in_order, StringMap};
use crate::text::{ascii_lower, i64_text, signed_decimal, str_eq, text_lt, to_ascii_lowercase};
use crate::{output, screenshot};

verus! {

/// Owner names (lower-cased) of the desktop shell and system utility
/// processes.
pub open spec fn system_owner_name(n: Seq<char>) -> bool {
    ||| n == "dock"@
    ||| n == "window server"@
    ||| n == "systemuiserver"@
    ||| n == "control center"@
    ||| n == "controlcenter"@
    ||| n == "notification center"@
    ||| n == "loginwindow"@
}

/// A window is a system window when it sits below the normal window layer,
/// or when its owner is a desktop shell or system utility process (names
/// compared without regard to ASCII case).
pub open spec fn system_window(owner_name: Option<Seq<char>>, layer: int) -> bool {
    layer < 0 || (owner_name matches Some(n) && system_owner_name(ascii_lower(n)))
}

/// Whether a window with this owner and layer belongs to the desktop shell
/// or a system utility.
pub fn is_system_window(owner_name: Option<&str>, layer: i32) -> (b: bool)
    ensures
        b == system_window(
            match owner_name {
                Some(n) => Some(n@),
                None => None,
            },
            layer as int,
        ),
{
    if layer < 0 {
        return true;
    }
    match owner_name {
        None => false,
        Some(name) => {
            let lower = to_ascii_lowercase(name);
            let l = lower.as_str();
            str_eq(l, "dock") || str_eq(l, "window server") || str_eq(l, "systemuiserver")
                || str_eq(l, "control center") || str_eq(l, "controlcenter") || str_eq(
                l,
                "notification center",
            ) || str_eq(l, "loginwindow")
        },
    }
}

/// The command-line choices that decide which windows a snapshot reports.
pub struct WindowFilters {
    /// Report every window that macOS returns.
    pub all: bool,
    /// Keep hidden and minimized windows.
    pub include_hidden: bool,
    /// Keep desktop shell and system utility windows.
    pub include_system: bool,
    /// Keep only windows of the application with this name or bundle id.
    pub app: Option<String>,
    /// Keep only windows of this process.
    pub pid: Option<i32>,
    /// Keep only the window with this id.
    pub window_id: Option<u32>,
}

/// What to ask the window server for.
pub struct WindowListRequest {
    /// List only the windows that are on screen.
    pub on_screen_only: bool,
    /// Leave out the desktop's own elements.
    pub exclude_desktop_elements: bool,
}

/// The window-list request for the given filters: off-screen windows are
/// listed with `--all` or `--include-hidden`, desktop elements only with
/// `--all` or `--include-system`.
pub fn window_list_request(filters: &WindowFilters) -> (r: WindowListRequest)
    ensures
        r.on_screen_only == !(filters.all || filters.include_hidden),
        r.exclude_desktop_elements == (!filters.all && !filters.include_system),
{
    WindowListRequest {
        on_screen_only: !(filters.all || filters.include_hidden),
        exclude_desktop_elements: !filters.all && !filters.include_system,
    }
}

/// What a window-list entry holds, as far as window selection reads it.
pub struct WindowEntry {
    /// The window number, if the entry has one.
    pub number: Option<i64>,
    /// Whether the entry has readable bounds.
    pub has_bounds: bool,
    /// Whether the bounds enclose no area (area at most zero).
    pub empty_area: bool,
    /// The owning process id, if present.
    pub owner_pid: Option<i64>,
    /// The owning application's name, if present.
    pub owner_name: Option<String>,
    /// The on-screen flag, if present.
    pub is_onscreen: Option<bool>,
    /// Whether the window is fully transparent (alpha, 1 when absent, at
    /// most zero).
    pub transparent: bool,
    /// The window layer, if present.
    pub layer: Option<i64>,
}

/// The values of a selected window that the snapshot keeps.
#[derive(Clone, Copy)]
pub struct ParsedWindow {
    pub window_id: u32,
    pub owner_pid: i32,
    pub layer: i32,
    pub is_onscreen: bool,
}

/// The window id of an entry: its number when that fits a `u32`.
pub open spec fn entry_window_id(e: WindowEntry) -> Option<u32> {
    match e.number {
        Some(v) => if 0 <= v && v <= u32::MAX {
            Some(v as u32)
        } else {
            None
        },
        None => None,
    }
}

/// The owner pid of an entry: its value when that fits an `i32`, else -1.
pub open spec fn entry_owner_pid(e: WindowEntry) -> i32 {
    match e.owner_pid {
        Some(v) => if i32::MIN <= v && v <= i32::MAX {
            v as i32
        } else {
            -1i32
        },
        None => -1i32,
    }
}

/// The layer of an entry: its value when that fits an `i32`, else 0.
pub open spec fn entry_layer(e: WindowEntry) -> i32 {
    match e.layer {
        Some(v) => if i32::MIN <= v && v <= i32::MAX {
            v as i32
        } else {
            0i32
        },
        None => 0i32,
    }
}

/// Whether an entry is on screen; absent means no.
pub open spec fn entry_onscreen(e: WindowEntry) -> bool {
    match e.is_onscreen {
        Some(b) => b,
        None => false,
    }
}

/// The owner name of an entry, as text.
pub open spec fn entry_owner_name(e: WindowEntry) -> Option<Seq<char>> {
    match e.owner_name {
        Some(n) => Some(n@),
        None => None,
    }
}

/// The filters that `--all` switches off: a window must have an area, be
/// visible, have an owner process, be on screen (unless hidden windows are
/// included) and not belong to the system (unless system windows are
/// included).
pub open spec fn passes_default_filters(e: WindowEntry, f: WindowFilters) -> bool {
    f.all || {
        &&& !e.empty_area
        &&& !e.transparent
        &&& entry_owner_pid(e) > 0
        &&& (f.include_hidden || entry_onscreen(e))
        &&& (f.include_system || !system_window(entry_owner_name(e), entry_layer(e) as int))
    }
}

/// The `--window-id` and `--pid` filters.
pub open spec fn passes_id_filters(e: WindowEntry, f: WindowFilters) -> bool {
    &&& (f.window_id matches Some(id) ==> entry_window_id(e) == Some(id))
    &&& (f.pid matches Some(pid) ==> entry_owner_pid(e) == pid)
}

/// The `--app` filter: the owner's name or bundle id is the given text.
pub open spec fn passes_app_filter(
    e: WindowEntry,
    f: WindowFilters,
    bundle_id: Option<Seq<char>>,
) -> bool {
    f.app matches Some(a) ==> (entry_owner_name(e) == Some(a@) || bundle_id == Some(a@))
}

/// Whether a snapshot reports the window of an entry, given the bundle id
/// of its owner.
pub open spec fn window_selected(
    e: WindowEntry,
    f: WindowFilters,
    bundle_id: Option<Seq<char>>,
) -> bool {
    &&& entry_window_id(e) is Some
    &&& e.has_bounds
    &&& passes_default_filters(e, f)
    &&& passes_id_filters(e, f)
    &&& passes_app_filter(e, f, bundle_id)
}

/// The kept values of an entry.
pub open spec fn parsed_entry(e: WindowEntry) -> ParsedWindow {
    ParsedWindow {
        window_id: entry_window_id(e)->0,
        owner_pid: entry_owner_pid(e),
        layer: entry_layer(e),
        is_onscreen: entry_onscreen(e),
    }
}

/// The verdict on one window-list entry.
pub enum Screening {
    /// The window is not reported.
    Skip,
    /// The window is reported.
    Keep(ParsedWindow),
    /// The window is reported exactly when its owner's bundle id is the
    /// `--app` text; the caller looks it up.
    CheckBundleId(ParsedWindow),
}

fn fit_u32(v: Option<i64>) -> (r: Option<u32>)
    ensures
        r == (match v {
            Some(x) => if 0 <= x && x <= u32::MAX {
                Some(x as u32)
            } else {
                None
            },
            None => None,
        }),
{
    match v {
        Some(x) => if 0 <= x && x <= 0xffff_ffff {
            Some(x as u32)
        } else {
            None
        },
        None => None,
    }
}

fn fit_i32_or(v: Option<i64>, default: i32) -> (r: i32)
    ensures
        r == (match v {
            Some(x) => if i32::MIN <= x && x <= i32::MAX {
                x as i32
            } else {
                default
            },
            None => default,
        }),
{
    match v {
        Some(x) => if -0x8000_0000 <= x && x <= 0x7fff_ffff {
            x as i32
        } else {
            default
        },
        None => default,
    }
}

fn owner_name_is(owner_name: &Option<String>, app: &String) -> (b: bool)
    ensures
        b == (match owner_name {
            Some(n) => Some(n@),
            None => None,
        } == Some(app@)),
{
    match owner_name {
        Some(n) => str_eq(n.as_str(), app.as_str()),
        None => false,
    }
}

/// Decides whether the window of an entry is reported. The owner's bundle
/// id is needed only for `--app` when the owner's name is not the given
/// text; the verdict then leaves the choice to that id.
pub fn screen_window(entry: &WindowEntry, filters: &WindowFilters) -> (s: Screening)
    ensures
        match s {
            Screening::Skip => forall|b: Option<Seq<char>>|
                !#[trigger] window_selected(*entry, *filters, b),
            Screening::Keep(p) => p == parsed_entry(*entry) && forall|b: Option<Seq<char>>|
                #[trigger] window_selected(*entry, *filters, b),
            Screening::CheckBundleId(p) => p == parsed_entry(*entry) && filters.app is Some
                && forall|b: Option<Seq<char>>|
                #[trigger] window_selected(*entry, *filters, b) == (b == Some(
                    filters.app->0@,
                )),
        },
{
    let window_id = match fit_u32(entry.number) {
        Some(id) => id,
        None => return Screening::Skip,
    };
    if !entry.has_bounds {
        return Screening::Skip;
    }
    let owner_pid = fit_i32_or(entry.owner_pid, -1);
    let is_onscreen = match entry.is_onscreen {
        Some(b) => b,
        None => false,
    };
    let layer = fit_i32_or(entry.layer, 0);
    let parsed = ParsedWindow { window_id, owner_pid, layer, is_onscreen };
    if !filters.all {
        if entry.empty_area || entry.transparent || owner_pid <= 0 {
            return Screening::Skip;
        }
        if !filters.include_hidden && !is_onscreen {
            return Screening::Skip;
        }
        if !filters.include_system {
            let name: Option<&str> = match &entry.owner_name {
                Some(n) => Some(n.as_str()),
                None => None,
            };
            if is_system_window(name, layer) {
                return Screening::Skip;
            }
        }
    }
    if let Some(id) = filters.window_id {
        if id != window_id {
            return Screening::Skip;
        }
    }
    if let Some(pid) = filters.pid {
        if pid != owner_pid {
            return Screening::Skip;
        }
    }
    match &filters.app {
        None => Screening::Keep(parsed),
        Some(app) => {
            if owner_name_is(&entry.owner_name, app) {
                Screening::Keep(parsed)
            } else {
                Screening::CheckBundleId(parsed)
            }
        },
    }
}

/// Whether the looked-up bundle id of a window's owner is the `--app` text.
pub fn bundle_id_matches(app: &String, bundle_id: &Option<String>) -> (b: bool)
    ensures
        b == (match bundle_id {
            Some(x) => Some(x@),
            None => None,
        } == Some(app@)),
{
    owner_name_is(bundle_id, app)
}

/// Broadening the selection never drops a window: a window reported under
/// some filters is still reported when `--all`, `--include-hidden` or
/// `--include-system` is added.
pub proof fn lemma_broadening_keeps_windows(
    e: WindowEntry,
    f: WindowFilters,
    g: WindowFilters,
    bundle_id: Option<Seq<char>>,
)
    requires
        window_selected(e, f, bundle_id),
        f.all ==> g.all,
        f.include_hidden ==> g.include_hidden,
        f.include_system ==> g.include_system,
        g.app == f.app,
        g.pid == f.pid,
        g.window_id == f.window_id,
    ensures
        window_selected(e, g, bundle_id),
{
}

/// Without `--all`, a snapshot hides system windows unless
/// `--include-system` is given, off-screen windows unless
/// `--include-hidden` is given, and always windows with no area, fully
/// transparent windows and windows with no owner process.
pub proof fn lemma_default_filters_hide(
    e: WindowEntry,
    f: WindowFilters,
    bundle_id: Option<Seq<char>>,
)
    requires
        !f.all,
    ensures
        !f.include_system && system_window(entry_owner_name(e), entry_layer(e) as int)
            ==> !window_selected(e, f, bundle_id),
        !f.include_hidden && !entry_onscreen(e) ==> !window_selected(e, f, bundle_id),
        e.empty_area || e.transparent || entry_owner_pid(e) <= 0 ==> !window_selected(
            e,
            f,
            bundle_id,
        ),
{
}

/// With `--all`, only the window-id, pid and application filters apply to
/// an entry that has a window number and bounds.
pub proof fn lemma_all_keeps_every_window(
    e: WindowEntry,
    f: WindowFilters,
    bundle_id: Option<Seq<char>>,
)
    requires
        f.all,
    ensures
        window_selected(e, f, bundle_id) == (entry_window_id(e) is Some && e.has_bounds
            && passes_id_filters(e, f) && passes_app_filter(e, f, bundle_id)),
{
}

/// `--window-id`, `--pid` and `--app` only narrow a selection: under them a
/// window is reported exactly when it is reported without them, has the
/// given id, is owned by the given process, and its owner's name or
/// bundle id is the given text.
pub proof fn lemma_narrowing_filters(e: WindowEntry, f: WindowFilters, bundle_id: Option<Seq<char>>)
    ensures
        window_selected(e, f, bundle_id) <==> {
            &&& window_selected(
                e,
                (WindowFilters { app: None, pid: None, window_id: None, ..f }),
                bundle_id,
            )
            &&& (f.window_id matches Some(id) ==> entry_window_id(e) == Some(id))
            &&& (f.pid matches Some(pid) ==> entry_owner_pid(e) == pid)
            &&& (f.app matches Some(a) ==> (entry_owner_name(e) == Some(a@) || bundle_id == Some(
                a@,
            )))
        },
{
}

/// A window below the normal window layer is always a system window. On
/// the normal layer or above, a window is a system window exactly when its
/// owner's name, ASCII-lower-cased, is one of `dock`, `window server`,
/// `systemuiserver`, `control center`, `controlcenter`,
/// `notification center` and `loginwindow`; the window of any other owner,
/// or of an owner with no name, is not.
pub proof fn lemma_system_owners_exactly(owner_name: Option<Seq<char>>, layer: int)
    ensures
        layer < 0 ==> system_window(owner_name, layer),
        layer >= 0 ==> (system_window(owner_name, layer) <==> (owner_name matches Some(n)
            && set![
            "dock"@,
            "window server"@,
            "systemuiserver"@,
            "control center"@,
            "controlcenter"@,
            "notification center"@,
            "loginwindow"@,
        ].contains(ascii_lower(n)))),
{
}

/// The owner's name is compared without regard to ASCII case: two names
/// that differ only in the case of ASCII letters make the same verdict,
/// and the listed lower-case names themselves are system owners.
pub proof fn lemma_system_owner_ignores_case(n: Seq<char>, m: Seq<char>, layer: int)
    requires
        n.len() == m.len(),
        forall|i: int|
            0 <= i < n.len() ==> {
                ||| #[trigger] n[i] == m[i]
                ||| 'A' <= n[i] <= 'Z' && m[i] as u32 == n[i] as u32 + 32
                ||| 'A' <= m[i] <= 'Z' && n[i] as u32 == m[i] as u32 + 32
            },
    ensures
        system_window(Some(n), layer) == system_window(Some(m), layer),
        set![
            "dock"@,
            "window server"@,
            "systemuiserver"@,
            "control center"@,
            "controlcenter"@,
            "notification center"@,
            "loginwindow"@,
        ].contains(n) ==> system_window(Some(n), layer),
{
    assert(ascii_lower(n) =~= ascii_lower(m)) by {
        assert forall|i: int| 0 <= i < n.len() implies #[trigger] ascii_lower(n)[i]
            == ascii_lower(m)[i] by {
            assert(n[i] == m[i] || ('A' <= n[i] <= 'Z' && m[i] as u32 == n[i] as u32 + 32) || (
            'A' <= m[i] <= 'Z' && n[i] as u32 == m[i] as u32 + 32));
        }
    }
    reveal_strlit("dock");
    reveal_strlit("window server");
    reveal_strlit("systemuiserver");
    reveal_strlit("control center");
    reveal_strlit("controlcenter");
    reveal_strlit("notification center");
    reveal_strlit("loginwindow");
    assert(ascii_lower("dock"@) =~= "dock"@);
    assert(ascii_lower("window server"@) =~= "window server"@);
    assert(ascii_lower("systemuiserver"@) =~= "systemuiserver"@);
    assert(ascii_lower("control center"@) =~= "control center"@);
    assert(ascii_lower("controlcenter"@) =~= "controlcenter"@);
    assert(ascii_lower("notification center"@) =~= "notification center"@);
    assert(ascii_lower("loginwindow"@) =~= "loginwindow"@);
}

/// Without `--all`, a window that has an area, is not fully transparent,
/// has an owner process, is on screen and sits on the normal layer or
/// above passes the default filters unless its owner is one of the shell
/// and system utility processes (`dock`, `window server`,
/// `systemuiserver`, `control center`, `controlcenter`,
/// `notification center`, `loginwindow`, in any ASCII case). With a window
/// number, bounds and no window-id, pid or application filter, such a
/// window is reported.
pub proof fn lemma_ordinary_window_kept(
    e: WindowEntry,
    f: WindowFilters,
    bundle_id: Option<Seq<char>>,
)
    requires
        !e.empty_area,
        !e.transparent,
        entry_owner_pid(e) > 0,
        entry_onscreen(e),
        entry_layer(e) >= 0,
        entry_owner_name(e) matches Some(n) ==> !set![
            "dock"@,
            "window server"@,
            "systemuiserver"@,
            "control center"@,
            "controlcenter"@,
            "notification center"@,
            "loginwindow"@,
        ].contains(ascii_lower(n)),
    ensures
        passes_default_filters(e, f),
        entry_window_id(e) is Some && e.has_bounds && f.window_id is None && f.pid is None
            && f.app is None ==> window_selected(e, f, bundle_id),
{
    lemma_system_owners_exactly(entry_owner_name(e), entry_layer(e) as int);
}

/// A display as a candidate for a window: its id, whether it is the main
/// display, and the area it shares with the window, given as a key whose
/// integer order is the total order of the floating-point area
/// (`f64::total_cmp`).
#[derive(Clone, Copy)]
pub struct DisplayOverlap {
    pub id: u32,
    pub main: bool,
    pub overlap: i64,
}

/// `a` ranks above `b`: it shares more area with the window; on equal
/// area, `a` is not the main display while `b` is; on equal area and
/// main flag, `a` has the smaller id.
pub open spec fn ranks_above(a: DisplayOverlap, b: DisplayOverlap) -> bool {
    ||| a.overlap > b.overlap
    ||| a.overlap == b.overlap && !a.main && b.main
    ||| a.overlap == b.overlap && a.main == b.main && a.id < b.id
}

/// Index of the best display: scanning in order, a display replaces the
/// best so far unless the best so far ranks above it (so among equals the
/// last one wins).
pub open spec fn best_index(s: Seq<DisplayOverlap>) -> int
    decreases s.len(),
{
    if s.len() <= 1 {
        0
    } else {
        let k = best_index(s.drop_last());
        if ranks_above(s[k], s.last()) {
            k
        } else {
            s.len() - 1
        }
    }
}

/// The display a window belongs to: the one sharing the most area with it
/// (see `ranks_above` and `best_index`); `None` when there is no display.
pub fn best_display_id(displays: &Vec<DisplayOverlap>) -> (r: Option<u32>)
    ensures
        displays@.len() == 0 ==> r is None,
        displays@.len() > 0 ==> 0 <= best_index(displays@) < displays@.len() && r == Some(
            displays@[best_index(displays@)].id,
        ),
        displays@.len() > 0 ==> forall|j: int|
            0 <= j < displays@.len() ==> #[trigger] displays@[j].overlap <= displays@[best_index(
                displays@,
            )].overlap,
        displays@.len() > 0 ==> forall|j: int|
            0 <= j < displays@.len() && #[trigger] displays@[j].overlap == displays@[best_index(
                displays@,
            )].overlap && displays@[best_index(displays@)].main ==> displays@[j].main,
        displays@.len() > 0 ==> forall|j: int|
            0 <= j < displays@.len() && #[trigger] displays@[j].overlap == displays@[best_index(
                displays@,
            )].overlap && displays@[j].main == displays@[best_index(displays@)].main
                ==> displays@[best_index(displays@)].id <= displays@[j].id,
{
    let n = displays.len();
    if n == 0 {
        return None;
    }
    let mut best: usize = 0;
    let mut i: usize = 1;
    while i < n
        invariant
            n == displays@.len(),
            1 <= i <= n,
            best < i,
            best as int == best_index(displays@.subrange(0, i as int)),
        decreases n - i,
    {
        let ghost prefix = displays@.subrange(0, i + 1);
        assert(prefix.drop_last() =~= displays@.subrange(0, i as int));
        let a = &displays[best];
        let b = &displays[i];
        let above = a.overlap > b.overlap || (a.overlap == b.overlap && !a.main && b.main) || (
        a.overlap == b.overlap && a.main == b.main && a.id < b.id);
        if !above {
            best = i;
        }
        i = i + 1;
    }
    assert(displays@.subrange(0, n as int) =~= displays@);
    proof {
        lemma_best_display_has_most_overlap(displays@);
    }
    Some(displays[best].id)
}

/// The best display is a maximum: no display ranks above it, and every
/// display after it ranks below it.
pub proof fn lemma_best_display_is_maximal(s: Seq<DisplayOverlap>)
    requires
        s.len() > 0,
    ensures
        0 <= best_index(s) < s.len(),
        forall|j: int| 0 <= j < s.len() ==> !ranks_above(#[trigger] s[j], s[best_index(s)]),
        forall|j: int| best_index(s) < j < s.len() ==> ranks_above(s[best_index(s)], #[trigger] s[j]),
    decreases s.len(),
{
    if s.len() > 1 {
        let p = s.drop_last();
        lemma_best_display_is_maximal(p);
        let k = best_index(p);
        assert forall|j: int| 0 <= j < s.len() implies !ranks_above(#[trigger] s[j], s[best_index(s)]) by {
            if j < s.len() - 1 {
                assert(s[j] == p[j]);
                assert(!ranks_above(p[j], p[k]));
            }
        }
        assert forall|j: int| best_index(s) < j < s.len() implies ranks_above(s[best_index(s)], #[trigger] s[j]) by {
            if j < s.len() - 1 {
                assert(s[j] == p[j]);
                assert(ranks_above(p[k], p[j]));
            }
        }
    }
}

/// The display chosen for a window shares the most area with it: no
/// display has a greater overlap key than the chosen one. Among displays
/// with the chosen one's key, the main display is chosen only when all of
/// them are main; among those that also agree on the main flag, the one
/// with the smallest id is chosen.
pub proof fn lemma_best_display_has_most_overlap(s: Seq<DisplayOverlap>)
    requires
        s.len() > 0,
    ensures
        0 <= best_index(s) < s.len(),
        forall|j: int| 0 <= j < s.len() ==> #[trigger] s[j].overlap <= s[best_index(s)].overlap,
        forall|j: int|
            0 <= j < s.len() && #[trigger] s[j].overlap == s[best_index(s)].overlap && s[best_index(
                s,
            )].main ==> s[j].main,
        forall|j: int|
            0 <= j < s.len() && #[trigger] s[j].overlap == s[best_index(s)].overlap && s[j].main
                == s[best_index(s)].main ==> s[best_index(s)].id <= s[j].id,
{
    lemma_best_display_is_maximal(s);
    let b = s[best_index(s)];
    assert forall|j: int| 0 <= j < s.len() implies #[trigger] s[j].overlap <= b.overlap by {
        assert(!ranks_above(s[j], b));
    }
    assert forall|j: int|
        0 <= j < s.len() && #[trigger] s[j].overlap == b.overlap && b.main implies s[j].main by {
        assert(!ranks_above(s[j], b));
    }
    assert forall|j: int|
        0 <= j < s.len() && #[trigger] s[j].overlap == b.overlap && s[j].main == b.main implies b.id
            <= s[j].id by {
        assert(!ranks_above(s[j], b));
    }
}

/// Of two displays with different ids, one ranks above the other.
pub proof fn lemma_ranks_above_total(a: DisplayOverlap, b: DisplayOverlap)
    requires
        a.id != b.id,
    ensures
        ranks_above(a, b) || ranks_above(b, a),
{
}

/// The best display does not depend on the order in which the displays are
/// listed: any reordering of the same displays picks a display with the
/// same id.
pub proof fn lemma_best_display_order_independent(s: Seq<DisplayOverlap>, t: Seq<DisplayOverlap>)
    requires
        s.len() > 0,
        s.to_multiset() == t.to_multiset(),
    ensures
        t.len() > 0,
        s[best_index(s)].id == t[best_index(t)].id,
{
    broadcast use vstd::seq_lib::group_to_multiset_ensures;

    assert(s.contains(s[0]));
    assert(t.to_multiset().count(s[0]) > 0);
    assert(t.contains(s[0]));
    lemma_best_display_is_maximal(s);
    lemma_best_display_is_maximal(t);
    let a = s[best_index(s)];
    let b = t[best_index(t)];
    assert(s.contains(a));
    assert(s.to_multiset().count(a) > 0);
    assert(t.contains(a));
    assert(t.contains(b));
    assert(t.to_multiset().count(b) > 0);
    assert(s.contains(b));
    let i = choose|i: int| 0 <= i < t.len() && t[i] == a;
    let j = choose|j: int| 0 <= j < s.len() && s[j] == b;
    assert(!ranks_above(t[i], b));
    assert(!ranks_above(s[j], a));
    if a.id != b.id {
        lemma_ranks_above_total(a, b);
    }
}

/// The display id of each window: none when there is exactly one display
/// (the snapshot then names that display once), else the best display.
pub fn window_display_id(displays: &Vec<DisplayOverlap>) -> (r: Option<u32>)
    ensures
        displays@.len() == 1 ==> r is None,
        displays@.len() == 0 ==> r is None,
        displays@.len() > 1 ==> r == Some(displays@[best_index(displays@)].id),
{
    if displays.len() == 1 {
        None
    } else {
        best_display_id(displays)
    }
}

/// Splits the displays into the compact single-display form and the
/// multi-display list: exactly one display gives `(Some(it), None)`, any
/// other number gives `(None, Some(all))`.
pub fn split_displays<D>(displays: Vec<D>) -> (r: (Option<D>, Option<Vec<D>>))
    ensures
        displays@.len() == 1 ==> r.0 == Some(displays@[0]) && r.1 is None,
        displays@.len() != 1 ==> r.0 is None && r.1 == Some(displays),
{
    if displays.len() == 1 {
        let mut displays = displays;
        let d = displays.pop().unwrap();
        (Some(d), None)
    } else {
        (None, Some(displays))
    }
}

/// Why a snapshot failed.
pub enum Error {
    /// The process lacks Accessibility permission.
    AccessibilityPermission,
    /// Core Graphics failed while enumerating displays, with its error code.
    Display(i32),
    /// Core Graphics returned no window list.
    WindowListUnavailable,
    /// The screenshot failed.
    Screenshot(screenshot::Error),
    /// The report could not be written.
    Output(output::Error),
    /// Any other failure, with its message.
    Runtime(String),
}

impl Error {
    /// The process exit status for this failure: 3 for missing
    /// Accessibility permission, 4 for a failed screenshot, 5 for a failed
    /// report, 1 for anything else.
    pub fn exit_code(&self) -> (code: i32)
        ensures
            code == (match self {
                Error::AccessibilityPermission => 3i32,
                Error::Screenshot(_) => 4i32,
                Error::Output(_) => 5i32,
                _ => 1i32,
            }),
    {
        match self {
            Error::AccessibilityPermission => 3,
            Error::Screenshot(_) => 4,
            Error::Output(_) => 5,
            Error::Display(_) | Error::WindowListUnavailable | Error::Runtime(_) => 1,
        }
    }
}

/// The snapshot failure for a failed trust check: missing permission when
/// the process is not trusted, else a runtime failure with the message of
/// the accessibility error.
pub fn trust_error(error: AxErrorKind) -> (e: Error)
    ensures
        error is NotTrusted ==> e is AccessibilityPermission,
        !(error is NotTrusted) ==> (e matches Error::Runtime(m) && m@ == error.message_text()),
{
    match error {
        AxErrorKind::NotTrusted => Error::AccessibilityPermission,
        other => Error::Runtime(other.message()),
    }
}

/// The owner of a window: the running application found for its pid, or,
/// when none is found, the pid with the window server's owner name and no
/// bundle id.
pub fn owner_application(
    found: Option<ApplicationInfo>,
    pid: i32,
    owner_name: &Option<String>,
) -> (a: ApplicationInfo)
    ensures
        found matches Some(f) ==> a == f,
        found is None ==> a == (ApplicationInfo { pid, name: *owner_name, bundle_id: None }),
{
    match found {
        Some(f) => f,
        None => ApplicationInfo { pid, name: owner_name.clone(), bundle_id: None },
    }
}

/// The record of a selected window before accessibility details are
/// added: it is marked as belonging to the frontmost application when its
/// owner pid is that application's, and as focused when its id is the
/// focused window's id.
pub fn new_window_record(
    z_order: usize,
    window: &ParsedWindow,
    owner: ApplicationInfo,
    title: Option<String>,
    display_id: Option<u32>,
    frontmost_app: &Option<ApplicationInfo>,
    focused_window_id: Option<u32>,
) -> (r: WindowRecord)
    ensures
        r.window_id == window.window_id,
        r.z_order == z_order,
        r.owner == owner,
        r.title == title,
        r.role is None,
        r.subrole is None,
        r.display_id == display_id,
        r.layer == window.layer,
        r.is_onscreen == window.is_onscreen,
        r.is_minimized is None,
        r.is_main is None,
        r.is_frontmost_app == (frontmost_app matches Some(f) && f.pid == window.owner_pid),
        r.is_focused == (focused_window_id == Some(window.window_id)),
        r.ax_errors is None,
        r.raw is None,
{
    let is_frontmost_app = match frontmost_app {
        Some(f) => f.pid == window.owner_pid,
        None => false,
    };
    let is_focused = match focused_window_id {
        Some(id) => id == window.window_id,
        None => false,
    };
    WindowRecord {
        window_id: window.window_id,
        z_order,
        owner,
        title,
        role: None,
        subrole: None,
        display_id,
        layer: window.layer,
        is_onscreen: window.is_onscreen,
        is_minimized: None,
        is_main: None,
        is_frontmost_app,
        is_focused,
        ax_errors: None,
        raw: None,
    }
}

/// What a snapshot knows of a selected window before its record is made.
pub struct SelectedWindow {
    pub window: ParsedWindow,
    pub owner: ApplicationInfo,
    pub title: Option<String>,
    pub display_id: Option<u32>,
}

/// The record of a selected window at a position of the front-to-back
/// order, before accessibility details are added.
pub open spec fn initial_record(
    z_order: usize,
    w: SelectedWindow,
    frontmost_app: Option<ApplicationInfo>,
    focused_window_id: Option<u32>,
) -> WindowRecord {
    WindowRecord {
        window_id: w.window.window_id,
        z_order,
        owner: w.owner,
        title: w.title,
        role: None,
        subrole: None,
        display_id: w.display_id,
        layer: w.window.layer,
        is_onscreen: w.window.is_onscreen,
        is_minimized: None,
        is_main: None,
        is_frontmost_app: frontmost_app matches Some(f) && f.pid == w.window.owner_pid,
        is_focused: focused_window_id == Some(w.window.window_id),
        ax_errors: None,
        raw: None,
    }
}

/// A record is marked as belonging to the frontmost application exactly
/// when there is a frontmost application and the window's owner pid is
/// that application's pid, and as focused exactly when the focused window
/// id is the window's id; it keeps the window's id, owner, title, display
/// and position.
pub proof fn lemma_record_marks(
    z_order: usize,
    w: SelectedWindow,
    frontmost_app: Option<ApplicationInfo>,
    focused_window_id: Option<u32>,
)
    ensures
        ({
            let r = initial_record(z_order, w, frontmost_app, focused_window_id);
            &&& r.is_frontmost_app <==> (frontmost_app is Some && frontmost_app->0.pid
                == w.window.owner_pid)
            &&& r.is_focused <==> (focused_window_id is Some && focused_window_id->0
                == w.window.window_id)
            &&& r.window_id == w.window.window_id
            &&& r.z_order == z_order
            &&& r.owner == w.owner
            &&& r.title == w.title
            &&& r.display_id == w.display_id
        }),
{
}

/// The records of the selected windows, listed front to back: each window's
/// `z_order` is its position in that list.
pub fn window_records(
    selected: Vec<SelectedWindow>,
    frontmost_app: &Option<ApplicationInfo>,
    focused_window_id: Option<u32>,
) -> (r: Vec<WindowRecord>)
    ensures
        r@.len() == selected@.len(),
        forall|i: int|
            0 <= i < r@.len() ==> #[trigger] r@[i] == initial_record(
                i as usize,
                selected@[i],
                *frontmost_app,
                focused_window_id,
            ),
        forall|i: int|
            #![trigger r@[i]]
            0 <= i < r@.len() ==> {
                &&& r@[i].z_order == i
                &&& r@[i].window_id == selected@[i].window.window_id
                &&& r@[i].owner == selected@[i].owner
                &&& r@[i].title == selected@[i].title
                &&& r@[i].display_id == selected@[i].display_id
                &&& r@[i].is_frontmost_app == (*frontmost_app matches Some(f) && f.pid
                    == selected@[i].window.owner_pid)
                &&& r@[i].is_focused == (focused_window_id == Some(selected@[i].window.window_id))
            },
{
    let ghost original = selected@;
    let mut rest = selected;
    let mut out: Vec<WindowRecord> = Vec::new();
    let n = rest.len();
    let mut i: usize = 0;
    while i < n
        invariant
            original == selected@,
            n == original.len(),
            i <= n,
            rest@ == original.subrange(i as int, n as int),
            out@.len() == i,
            forall|j: int|
                0 <= j < i ==> #[trigger] out@[j] == initial_record(
                    j as usize,
                    original[j],
                    *frontmost_app,
                    focused_window_id,
                ),
        decreases n - i,
    {
        let w = rest.remove(0);
        assert(w == original[i as int]);
        let record = new_window_record(
            i,
            &w.window,
            w.owner,
            w.title,
            w.display_id,
            frontmost_app,
            focused_window_id,
        );
        out.push(record);
        i = i + 1;
    }
    out
}

/// Index of the first accessibility window whose window number is the
/// target id.
pub fn matching_window(ids: &Vec<Option<u32>>, target: u32) -> (r: Option<usize>)
    ensures
        match r {
            Some(i) => i < ids@.len() && ids@[i as int] == Some(target) && forall|j: int|
                0 <= j < i ==> #[trigger] ids@[j] != Some(target),
            None => forall|j: int| 0 <= j < ids@.len() ==> #[trigger] ids@[j] != Some(target),
        },
{
    let n = ids.len();
    let mut i: usize = 0;
    while i < n
        invariant
            n == ids@.len(),
            i <= n,
            forall|j: int| 0 <= j < i ==> #[trigger] ids@[j] != Some(target),
        decreases n - i,
    {
        match ids[i] {
            Some(id) => if id == target {
                return Some(i);
            },
            None => {},
        }
        i = i + 1;
    }
    None
}

/// A reply whose failure is recorded under `name` (with the error's
/// message) and then counts as no reply.
pub fn note_failure<T>(errors: &mut StringMap, name: &str, reply: AxResult<T>) -> (r: Option<T>)
    ensures
        final(errors).well_formed(),
        match reply {
            Ok(v) => r == Some(v) && final(errors)@ == old(errors)@,
            Err(e) => r is None && inserted(old(errors)@, name@, e.message_text(), final(errors)@),
        },
{
    proof {
        use_type_invariant(&*errors);
    }
    match reply {
        Ok(v) => Some(v),
        Err(e) => {
            let m = e.message();
            errors.insert(String::from_str(name), m);
            None
        },
    }
}

/// Reads one attribute into a record field: a reply replaces the field's
/// value (also with no value); a failure leaves the field and is recorded
/// under `name`.
pub fn read_attribute<T>(
    destination: &mut Option<T>,
    reply: AxResult<Option<T>>,
    name: &str,
    errors: &mut StringMap,
)
    ensures
        final(errors).well_formed(),
        match reply {
            Ok(v) => *final(destination) == v && final(errors)@ == old(errors)@,
            Err(e) => *final(destination) == *old(destination) && inserted(
                old(errors)@,
                name@,
                e.message_text(),
                final(errors)@,
            ),
        },
{
    proof {
        use_type_invariant(&*errors);
    }
    match reply {
        Ok(v) => {
            *destination = v;
        },
        Err(e) => {
            let m = e.message();
            errors.insert(String::from_str(name), m);
        },
    }
}

/// The failures a record keeps: at `-vv` (verbosity 2 or more) the
/// recorded failures if there are any, else none.
pub fn kept_errors(errors: StringMap, verbosity: u8) -> (r: Option<StringMap>)
    ensures
        verbosity >= 2 && errors@.len() > 0 ==> r == Some(errors),
        !(verbosity >= 2 && errors@.len() > 0) ==> r is None,
{
    if verbosity >= 2 && !errors.is_empty() {
        Some(errors)
    } else {
        None
    }
}

/// Closes the accessibility details of a window that no accessibility
/// window matched: at `-vv`, when nothing else failed, that is recorded as
/// `window_match`.
pub fn finish_unmatched(record: &mut WindowRecord, errors: StringMap, verbosity: u8)
    ensures
        verbosity >= 2 && errors@.len() == 0 ==> (final(record).ax_errors matches Some(m)
            && m@ == seq![("window_match"@, "AX window could not be matched"@)]),
        !(verbosity >= 2 && errors@.len() == 0) ==> final(record).ax_errors == kept_errors_spec(
            errors,
            verbosity,
        ),
        *final(record) == (WindowRecord { ax_errors: final(record).ax_errors, ..*old(record) }),
{
    let mut errors = errors;
    if verbosity >= 2 && errors.is_empty() {
        let ghost before = errors@;
        errors.insert(
            String::from_str("window_match"),
            String::from_str("AX window could not be matched"),
        );
        assert(!has_key(before, "window_match"@));
        assert(errors@ =~= seq![("window_match"@, "AX window could not be matched"@)]);
    }
    record.ax_errors = kept_errors(errors, verbosity);
}

/// The failures kept at a verbosity (see `kept_errors`).
pub open spec fn kept_errors_spec(errors: StringMap, verbosity: u8) -> Option<StringMap> {
    if verbosity >= 2 && errors@.len() > 0 {
        Some(errors)
    } else {
        None
    }
}

/// The owner name as recorded in the raw details: empty when unknown.
pub open spec fn name_or_empty(name: Option<String>) -> Seq<char> {
    match name {
        Some(n) => n@,
        None => Seq::empty(),
    }
}

/// Closes the accessibility details of a matched window: at `-vv` the raw
/// details (`alpha`, `layer`, `owner_name`) are recorded; the failures are
/// kept as `kept_errors` says. `alpha_text` is the window's alpha as text.
pub fn finish_enrichment(
    record: &mut WindowRecord,
    errors: StringMap,
    verbosity: u8,
    alpha_text: String,
)
    ensures
        verbosity >= 2 ==> (final(record).raw matches Some(m) && m.well_formed() && m@ == seq![
            ("alpha"@, alpha_text@),
            ("layer"@, signed_decimal(old(record).layer as int)),
            ("owner_name"@, name_or_empty(old(record).owner.name)),
        ]),
        verbosity < 2 ==> final(record).raw == old(record).raw,
        final(record).ax_errors == kept_errors_spec(errors, verbosity),
        *final(record) == (WindowRecord {
            ax_errors: final(record).ax_errors,
            raw: final(record).raw,
            ..*old(record)
        }),
{
    if verbosity >= 2 {
        let mut raw = StringMap::new();
        let name = match &record.owner.name {
            Some(n) => n.clone(),
            None => String::new(),
        };
        let ghost a = alpha_text@;
        let ghost l = signed_decimal(record.layer as int);
        let ghost o = name@;
        proof {
            reveal_strlit("owner_name");
            reveal_strlit("layer");
            reveal_strlit("alpha");
        }
        raw.insert(String::from_str("owner_name"), name);
        assert(raw@ =~= seq![("owner_name"@, o)]);
        let ghost s1 = raw@;
        raw.insert(String::from_str("layer"), i64_text(record.layer as i64));
        proof {
            assert(!text_lt("owner_name"@, "layer"@));
            assert(s1[0].0 != "layer"@);
            assert(!has_key(s1, "layer"@));
            let p = lemma_inserted_in_order(s1, "layer"@, l, raw@);
            if p == 1 {
                assert(text_lt(s1[0].0, "layer"@));
            }
        }
        assert(raw@ =~= seq![("layer"@, l), ("owner_name"@, o)]);
        let ghost s2 = raw@;
        raw.insert(String::from_str("alpha"), alpha_text);
        proof {
            assert(!text_lt("layer"@, "alpha"@));
            assert(!text_lt("owner_name"@, "alpha"@));
            assert(s2[0].0 != "alpha"@);
            assert(s2[1].0 != "alpha"@);
            assert(!has_key(s2, "alpha"@));
            let p = lemma_inserted_in_order(s2, "alpha"@, a, raw@);
            if p > 0 {
                assert(text_lt(s2[0].0, "alpha"@));
            }
        }
        assert(raw@ =~= seq![("alpha"@, a), ("layer"@, l), ("owner_name"@, o)]);
        record.raw = Some(raw);
    }
    record.ax_errors = kept_errors(errors, verbosity);
}

/// A looked-up bundle id, as text.
pub open spec fn bundle_text(b: Option<String>) -> Option<Seq<char>> {
    match b {
        Some(x) => Some(x@),
        None => None,
    }
}

/// Indices of the reported entries, in list order (the window server lists
/// windows front to back). Each entry comes with its owner's bundle id
/// where that was looked up.
pub open spec fn selected_indices(es: Seq<(WindowEntry, Option<String>)>, f: WindowFilters) -> Seq<
    int,
>
    decreases es.len(),
{
    if es.len() == 0 {
        Seq::empty()
    } else {
        let prev = selected_indices(es.drop_last(), f);
        if window_selected(es.last().0, f, bundle_text(es.last().1)) {
            prev.push(es.len() - 1)
        } else {
            prev
        }
    }
}

/// The reported windows of a window list, front to back, each with its
/// index in the list.
pub fn select_windows(entries: &Vec<(WindowEntry, Option<String>)>, filters: &WindowFilters) -> (r:
    Vec<(usize, ParsedWindow)>)
    ensures
        r@.len() == selected_indices(entries@, *filters).len(),
        forall|k: int|
            0 <= k < r@.len() ==> (#[trigger] r@[k]).0 as int == selected_indices(
                entries@,
                *filters,
            )[k] && r@[k].1 == parsed_entry(entries@[r@[k].0 as int].0),
{
    let mut r: Vec<(usize, ParsedWindow)> = Vec::new();
    let n = entries.len();
    let mut i: usize = 0;
    while i < n
        invariant
            n == entries@.len(),
            i <= n,
            r@.len() == selected_indices(entries@.subrange(0, i as int), *filters).len(),
            forall|k: int|
                0 <= k < r@.len() ==> (#[trigger] r@[k]).0 as int == selected_indices(
                    entries@.subrange(0, i as int),
                    *filters,
                )[k] && r@[k].0 < i && r@[k].1 == parsed_entry(entries@[r@[k].0 as int].0),
        decreases n - i,
    {
        let ghost p = entries@.subrange(0, i + 1);
        assert(p.drop_last() =~= entries@.subrange(0, i as int));
        let ghost e = entries@[i as int];
        assert(p.last() == e);
        let keep = match screen_window(&entries[i].0, filters) {
            Screening::Skip => None,
            Screening::Keep(parsed) => Some(parsed),
            Screening::CheckBundleId(parsed) => {
                match &filters.app {
                    Some(app) => if bundle_id_matches(app, &entries[i].1) {
                        Some(parsed)
                    } else {
                        None
                    },
                    None => None,
                }
            },
        };
        assert(keep is Some == window_selected(e.0, *filters, bundle_text(e.1)));
        match keep {
            Some(parsed) => {
                r.push((i, parsed));
            },
            None => {},
        }
        i = i + 1;
    }
    assert(entries@.subrange(0, n as int) =~= entries@);
    r
}

/// Selection keeps the window server's front-to-back order: the reported
/// indices strictly increase, each is an entry of the list and each names
/// an entry that is selected; an unselected entry is never reported, and
/// every selected entry is.
pub proof fn lemma_selection_keeps_order(es: Seq<(WindowEntry, Option<String>)>, f: WindowFilters)
    ensures
        forall|a: int, b: int|
            0 <= a < b < selected_indices(es, f).len() ==> #[trigger] selected_indices(es, f)[a]
                < #[trigger] selected_indices(es, f)[b],
        forall|k: int|
            0 <= k < selected_indices(es, f).len() ==> 0 <= #[trigger] selected_indices(es, f)[k]
                < es.len() && window_selected(
                es[selected_indices(es, f)[k]].0,
                f,
                bundle_text(es[selected_indices(es, f)[k]].1),
            ),
        forall|i: int|
            0 <= i < es.len() && !window_selected(#[trigger] es[i].0, f, bundle_text(es[i].1))
                ==> !selected_indices(es, f).contains(i),
        forall|i: int|
            0 <= i < es.len() && window_selected(#[trigger] es[i].0, f, bundle_text(es[i].1))
                ==> selected_indices(es, f).contains(i),
    decreases es.len(),
{
    if es.len() > 0 {
        let p = es.drop_last();
        lemma_selection_keeps_order(p, f);
        let prev = selected_indices(p, f);
        assert forall|k: int| 0 <= k < prev.len() implies #[trigger] p[prev[k]] == es[prev[k]] by {}
        assert forall|i: int|
            0 <= i < es.len() && !window_selected(#[trigger] es[i].0, f, bundle_text(es[i].1))
                implies !selected_indices(es, f).contains(i) by {
            if i < es.len() - 1 {
                assert(p[i] == es[i]);
                if selected_indices(es, f).contains(i) {
                    let k = choose|k: int|
                        0 <= k < selected_indices(es, f).len() && selected_indices(es, f)[k] == i;
                    if k < prev.len() {
                        assert(prev.contains(i));
                    }
                }
            }
        }
        assert forall|i: int|
            0 <= i < es.len() && window_selected(#[trigger] es[i].0, f, bundle_text(es[i].1))
                implies selected_indices(es, f).contains(i) by {
            if i < es.len() - 1 {
                assert(p[i] == es[i]);
                assert(prev.contains(i));
                let k = choose|k: int| 0 <= k < prev.len() && prev[k] == i;
                assert(selected_indices(es, f)[k] == i);
            } else {
                assert(selected_indices(es, f) == prev.push(i));
                assert(selected_indices(es, f)[prev.len() as int] == i);
            }
        }
    }
}

} // verus!
