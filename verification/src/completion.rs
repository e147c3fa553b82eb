//! Shell-completion candidates for the `--app`, `--pid` and `--window-id`
//! options, and the `completion` sub-command's arguments.

use vstd::prelude::*;
use vstd::string::*;

use crate::model::ApplicationInfo;
use crate::output::or_text;
use crate::string_map::{has_key, lemma_has_key_is_map_key, lemma_insert_is_map_insert, to_map, StringMap};
use crate::text::{decimal, i64_text, signed_decimal, str_eq, u64_text};

verus! {

/// The pids strictly increase.
pub open spec fn pids_increase(s: Seq<ApplicationInfo>) -> bool {
    forall|i: int, j: int| 0 <= i < j < s.len() ==> (#[trigger] s[i]).pid < (#[trigger] s[j]).pid
}

/// `o` is the first owner with its pid among `windows`.
pub open spec fn first_with_pid(windows: Seq<ApplicationInfo>, o: ApplicationInfo) -> bool {
    exists|j: int|
        0 <= j < windows.len() && windows[j] == o && forall|k: int|
            0 <= k < j ==> (#[trigger] windows[k]).pid != o.pid
}

/// Some owner has the pid.
pub open spec fn has_pid(s: Seq<ApplicationInfo>, pid: i32) -> bool {
    exists|i: int| 0 <= i < s.len() && (#[trigger] s[i]).pid == pid
}

fn add_owner(r: &mut Vec<ApplicationInfo>, o: ApplicationInfo)
    requires
        pids_increase(old(r)@),
    ensures
        pids_increase(final(r)@),
        has_pid(final(r)@, o.pid),
        forall|x: ApplicationInfo| #[trigger]
            final(r)@.contains(x) <==> (old(r)@.contains(x) || (x == o && !has_pid(
                old(r)@,
                o.pid,
            ))),
{
    let ghost before = r@;
    let pid = o.pid;
    let m = r.len();
    let mut i: usize = 0;
    while i < m && r[i].pid < pid
        invariant
            m == r@.len(),
            i <= m,
            forall|k: int| 0 <= k < i ==> (#[trigger] r@[k]).pid < pid,
        decreases m - i,
    {
        i = i + 1;
    }
    if i < m && r[i].pid == pid {
        assert(r@[i as int].pid == pid);
        return;
    }
    assert(!has_pid(before, pid)) by {
        assert forall|y: int| 0 <= y < before.len() implies (#[trigger] before[y]).pid != pid by {
            if y > i {
                assert(before[i as int].pid < before[y].pid);
            }
        }
    }
    r.insert(i, o);
    assert(r@[i as int].pid == pid);
    assert forall|a: int, b: int| 0 <= a < b < r@.len() implies (#[trigger] r@[a]).pid < (
    #[trigger] r@[b]).pid by {
        if a < i && b > i {
            assert(r@[b] == before[b - 1]);
            if b - 1 > i {
                assert(before[i as int].pid < before[b - 1].pid);
            }
        } else if a > i {
            assert(r@[a] == before[a - 1]);
            assert(r@[b] == before[b - 1]);
        } else if a == i && b - 1 > i {
            assert(r@[b] == before[b - 1]);
            assert(before[i as int].pid < before[b - 1].pid);
        } else if a == i {
            assert(r@[b] == before[b - 1]);
        }
    }
    assert forall|x: ApplicationInfo| #[trigger] r@.contains(x) <==> (before.contains(x) || (x
        == o && !has_pid(before, o.pid))) by {
        if r@.contains(x) {
            let y = choose|y: int| 0 <= y < r@.len() && r@[y] == x;
            if y < i {
                assert(before[y] == x);
            } else if y > i {
                assert(before[y - 1] == x);
            }
        }
        if before.contains(x) {
            let y = choose|y: int| 0 <= y < before.len() && before[y] == x;
            if y < i {
                assert(r@[y] == x);
            } else {
                assert(r@[y + 1] == x);
            }
        }
    }
}

proof fn lemma_owner_step(
    windows: Seq<ApplicationInfo>,
    w: int,
    before: Seq<ApplicationInfo>,
    after: Seq<ApplicationInfo>,
)
    requires
        0 <= w < windows.len(),
        forall|i: int| 0 <= i < before.len() ==> first_with_pid(windows.subrange(0, w), #[trigger] before[i]),
        forall|j: int| 0 <= j < w ==> has_pid(before, (#[trigger] windows[j]).pid),
        has_pid(after, windows[w].pid),
        forall|x: ApplicationInfo| #[trigger]
            after.contains(x) <==> (before.contains(x) || (x == windows[w] && !has_pid(
                before,
                windows[w].pid,
            ))),
    ensures
        forall|i: int| 0 <= i < after.len() ==> first_with_pid(windows.subrange(0, w + 1), #[trigger] after[i]),
        forall|j: int| 0 <= j < w + 1 ==> has_pid(after, (#[trigger] windows[j]).pid),
{
    let seen = windows.subrange(0, w);
    let now = windows.subrange(0, w + 1);
    assert forall|i: int| 0 <= i < after.len() implies first_with_pid(now, #[trigger] after[i]) by {
        let x = after[i];
        assert(after.contains(x));
        if before.contains(x) {
            let y = choose|y: int| 0 <= y < before.len() && before[y] == x;
            assert(first_with_pid(seen, before[y]));
            let j = choose|j: int|
                0 <= j < seen.len() && seen[j] == x && forall|k: int|
                    0 <= k < j ==> (#[trigger] seen[k]).pid != x.pid;
            assert(now[j] == seen[j]);
            assert forall|k: int| 0 <= k < j implies (#[trigger] now[k]).pid != x.pid by {
                assert(now[k] == seen[k]);
            }
        } else {
            assert(x == windows[w]);
            assert(now[w] == x);
            assert forall|k: int| 0 <= k < w implies (#[trigger] now[k]).pid != x.pid by {
                assert(now[k] == windows[k]);
                assert(has_pid(before, windows[k].pid));
            }
        }
    }
    assert forall|j: int| 0 <= j < w + 1 implies has_pid(after, (#[trigger] windows[j]).pid) by {
        if j < w {
            assert(has_pid(before, windows[j].pid));
            let y = choose|y: int| 0 <= y < before.len() && (#[trigger] before[y]).pid == windows[j].pid;
            assert(after.contains(before[y]));
            let z = choose|z: int| 0 <= z < after.len() && after[z] == before[y];
            assert(after[z].pid == windows[j].pid);
        }
    }
}

/// The owners of the listed windows, one per pid in increasing pid order,
/// each as it was given for the first window of that pid.
pub fn owners_by_pid(windows: &Vec<ApplicationInfo>) -> (r: Vec<ApplicationInfo>)
    ensures
        pids_increase(r@),
        forall|i: int| 0 <= i < r@.len() ==> first_with_pid(windows@, #[trigger] r@[i]),
        forall|j: int| 0 <= j < windows@.len() ==> has_pid(r@, (#[trigger] windows@[j]).pid),
{
    let mut r: Vec<ApplicationInfo> = Vec::new();
    let n = windows.len();
    let mut w: usize = 0;
    while w < n
        invariant
            n == windows@.len(),
            w <= n,
            pids_increase(r@),
            forall|i: int|
                0 <= i < r@.len() ==> first_with_pid(windows@.subrange(0, w as int), #[trigger] r@[i]),
            forall|j: int| 0 <= j < w ==> has_pid(r@, (#[trigger] windows@[j]).pid),
        decreases n - w,
    {
        let ghost before = r@;
        let o = windows[w].clone();
        add_owner(&mut r, o);
        proof {
            lemma_owner_step(windows@, w as int, before, r@);
        }
        w = w + 1;
    }
    assert(windows@.subrange(0, n as int) =~= windows@);
    r
}

/// The `--app` candidates after the given owners, as a map from value to
/// description: an owner with a bundle id sets that id, described by the
/// owner's name (or `running application`); an owner with a name adds that
/// name, described by its bundle id (or `application with windows`),
/// unless the name is already a candidate.
pub open spec fn app_candidate_map(owners: Seq<ApplicationInfo>) -> Map<Seq<char>, Seq<char>>
    decreases owners.len(),
{
    if owners.len() == 0 {
        Map::empty()
    } else {
        let m = app_candidate_map(owners.drop_last());
        let o = owners.last();
        let m1 = match o.bundle_id {
            Some(b) => m.insert(b@, or_text(o.name, "running application"@)),
            None => m,
        };
        match o.name {
            Some(n) => if m1.contains_key(n@) {
                m1
            } else {
                m1.insert(n@, or_text(o.bundle_id, "application with windows"@))
            },
            None => m1,
        }
    }
}

/// Which values are `--app` candidates and how each is described: exactly
/// the bundle ids and names of the owners; a bundle id is described by the
/// name (or `running application`) of the last owner with that bundle id
/// (owners listed in pid order: the highest pid); a name that is no owner's
/// bundle id is described by the bundle id (or `application with windows`)
/// of the first owner with that name.
pub proof fn lemma_app_candidates_meaning(owners: Seq<ApplicationInfo>)
    ensures
        forall|k: Seq<char>|
            #[trigger] app_candidate_map(owners).contains_key(k) <==> exists|i: int|
                0 <= i < owners.len() && (arg_text_is(owners[i].bundle_id, k) || arg_text_is(
                    owners[i].name,
                    k,
                )),
        forall|i: int, k: Seq<char>|
            0 <= i < owners.len() && #[trigger] arg_text_is(owners[i].bundle_id, k) && (forall|
                j: int,
            | i < j < owners.len() ==> !arg_text_is(owners[j].bundle_id, k))
                ==> app_candidate_map(owners)[k] == or_text(
                owners[i].name,
                "running application"@,
            ),
        forall|i: int, k: Seq<char>|
            0 <= i < owners.len() && #[trigger] arg_text_is(owners[i].name, k) && (forall|j: int|
                0 <= j < owners.len() ==> !arg_text_is(owners[j].bundle_id, k)) && (forall|j: int|
                0 <= j < i ==> !arg_text_is(owners[j].name, k)) ==> app_candidate_map(owners)[k]
                == or_text(owners[i].bundle_id, "application with windows"@),
    decreases owners.len(),
{
    if owners.len() > 0 {
        let p = owners.drop_last();
        let last = owners.len() - 1;
        let o = owners[last];
        lemma_app_candidates_meaning(p);
        assert forall|j: int| 0 <= j < p.len() implies #[trigger] p[j] == owners[j] by {}
        assert forall|k: Seq<char>|
            #[trigger] app_candidate_map(owners).contains_key(k) <==> exists|i: int|
                0 <= i < owners.len() && (arg_text_is(owners[i].bundle_id, k) || arg_text_is(
                    owners[i].name,
                    k,
                )) by {
            if app_candidate_map(p).contains_key(k) {
                let i = choose|i: int|
                    0 <= i < p.len() && (arg_text_is(p[i].bundle_id, k) || arg_text_is(
                        p[i].name,
                        k,
                    ));
                assert(p[i] == owners[i]);
            }
            if exists|i: int|
                0 <= i < owners.len() && (arg_text_is(owners[i].bundle_id, k) || arg_text_is(
                    owners[i].name,
                    k,
                )) {
                let i = choose|i: int|
                    0 <= i < owners.len() && (arg_text_is(owners[i].bundle_id, k) || arg_text_is(
                        owners[i].name,
                        k,
                    ));
                if i < last {
                    assert(p[i] == owners[i]);
                    assert(app_candidate_map(p).contains_key(k));
                }
            }
        }
        assert forall|i: int, k: Seq<char>|
            0 <= i < owners.len() && #[trigger] arg_text_is(owners[i].bundle_id, k) && (forall|
                j: int,
            | i < j < owners.len() ==> !arg_text_is(owners[j].bundle_id, k))
                implies app_candidate_map(owners)[k] == or_text(
                owners[i].name,
                "running application"@,
            ) by {
            if i < last {
                assert(!arg_text_is(o.bundle_id, k));
                assert(arg_text_is(p[i].bundle_id, k));
                assert forall|j: int| i < j < p.len() implies !arg_text_is(p[j].bundle_id, k) by {
                    assert(p[j] == owners[j]);
                }
                assert(app_candidate_map(p).contains_key(k));
            }
        }
        assert forall|i: int, k: Seq<char>|
            0 <= i < owners.len() && #[trigger] arg_text_is(owners[i].name, k) && (forall|j: int|
                0 <= j < owners.len() ==> !arg_text_is(owners[j].bundle_id, k)) && (forall|j: int|
                0 <= j < i ==> !arg_text_is(owners[j].name, k)) implies app_candidate_map(
                owners,
            )[k] == or_text(owners[i].bundle_id, "application with windows"@) by {
            assert(!arg_text_is(o.bundle_id, k));
            if i < last {
                assert(arg_text_is(p[i].name, k));
                assert forall|j: int| 0 <= j < p.len() implies !arg_text_is(p[j].bundle_id, k) by {
                    assert(p[j] == owners[j]);
                }
                assert forall|j: int| 0 <= j < i implies !arg_text_is(p[j].name, k) by {
                    assert(p[j] == owners[j]);
                }
                assert(app_candidate_map(p).contains_key(k));
            } else {
                assert(!app_candidate_map(p).contains_key(k)) by {
                    if app_candidate_map(p).contains_key(k) {
                        let j = choose|j: int|
                            0 <= j < p.len() && (arg_text_is(p[j].bundle_id, k) || arg_text_is(
                                p[j].name,
                                k,
                            ));
                        assert(p[j] == owners[j]);
                    }
                }
            }
        }
    }
}

fn text_or(o: &Option<String>, placeholder: &str) -> (t: String)
    ensures
        t@ == or_text(*o, placeholder@),
{
    match o {
        Some(s) => s.clone(),
        None => String::from_str(placeholder),
    }
}

/// The `--app` candidates for the owners (in pid order), as values with
/// descriptions in value order.
pub fn app_candidates(owners: &Vec<ApplicationInfo>) -> (m: StringMap)
    ensures
        m.well_formed(),
        to_map(m@) == app_candidate_map(owners@),
{
    let mut m = StringMap::new();
    let n = owners.len();
    let mut i: usize = 0;
    while i < n
        invariant
            n == owners@.len(),
            i <= n,
            m.well_formed(),
            to_map(m@) == app_candidate_map(owners@.subrange(0, i as int)),
        decreases n - i,
    {
        let ghost p = owners@.subrange(0, i + 1);
        assert(p.drop_last() =~= owners@.subrange(0, i as int));
        let o = &owners[i];
        match &o.bundle_id {
            Some(b) => {
                let ghost s0 = m@;
                let d = text_or(&o.name, "running application");
                m.insert(b.clone(), d);
                proof {
                    lemma_insert_is_map_insert(s0, b@, or_text(o.name, "running application"@), m@);
                }
            },
            None => {},
        }
        match &o.name {
            Some(name) => {
                let ghost s1 = m@;
                proof {
                    lemma_has_key_is_map_key(s1, name@);
                }
                let d = text_or(&o.bundle_id, "application with windows");
                m.insert_if_absent(name.clone(), d);
                proof {
                    if !has_key(s1, name@) {
                        lemma_insert_is_map_insert(
                            s1,
                            name@,
                            or_text(o.bundle_id, "application with windows"@),
                            m@,
                        );
                    }
                }
            },
            None => {},
        }
        assert(to_map(m@) == app_candidate_map(p));
        i = i + 1;
    }
    assert(owners@.subrange(0, n as int) =~= owners@);
    m
}

/// The `--pid` candidate of an owner: its pid, described by its name (or
/// `application with windows`).
pub fn pid_candidate(owner: &ApplicationInfo) -> (c: (String, String))
    ensures
        c.0@ == signed_decimal(owner.pid as int),
        c.1@ == or_text(owner.name, "application with windows"@),
{
    (i64_text(owner.pid as i64), text_or(&owner.name, "application with windows"))
}

/// The `--window-id` candidate of a window: its id, described as
/// `title — owner (pid N)` with `<untitled>` and `<unknown app>` for
/// missing values.
pub fn window_candidate(
    window_id: u32,
    title: &Option<String>,
    owner_name: &Option<String>,
    owner_pid: i32,
) -> (c: (String, String))
    ensures
        c.0@ == decimal(window_id as nat),
        c.1@ == or_text(*title, "<untitled>"@) + " — "@ + or_text(*owner_name, "<unknown app>"@)
            + " (pid "@ + signed_decimal(owner_pid as int) + ")"@,
{
    let mut d = text_or(title, "<untitled>");
    d.append(" — ");
    let owner = text_or(owner_name, "<unknown app>");
    d.append(owner.as_str());
    d.append(" (pid ");
    let pid = i64_text(owner_pid as i64);
    d.append(pid.as_str());
    d.append(")");
    (u64_text(window_id as u64), d)
}

/// Whether an argument is the given text.
pub open spec fn arg_text_is(a: Option<String>, t: Seq<char>) -> bool {
    match a {
        Some(x) => x@ == t,
        None => false,
    }
}

/// What the command line asks of the completion sub-command.
pub enum CompletionArgs {
    /// The first argument is not `completion`.
    NotCompletion,
    /// `completion` without a shell name.
    MissingShell,
    /// `completion` with this shell name.
    Shell(String),
}

fn arg_is(arg: &Option<String>, text: &str) -> (b: bool)
    ensures
        b == arg_text_is(*arg, text@),
{
    match arg {
        Some(a) => str_eq(a.as_str(), text),
        None => false,
    }
}

fn arg_at(args: &Vec<Option<String>>, i: usize) -> (a: Option<String>)
    ensures
        i < args@.len() ==> a == args@[i as int],
        i >= args@.len() ==> a is None,
{
    if i < args.len() {
        args[i].clone()
    } else {
        None
    }
}

/// Reads the arguments after the program name (each `None` when it is not
/// valid Unicode): `completion SHELL` or `completion --shell SHELL` name a
/// shell.
pub fn completion_args(args: &Vec<Option<String>>) -> (r: CompletionArgs)
    ensures
        !(args@.len() > 0 && arg_text_is(args@[0], "completion"@)) ==> r is NotCompletion,
        args@.len() > 0 && arg_text_is(args@[0], "completion"@) ==> {
            let second = if args@.len() > 1 {
                args@[1]
            } else {
                None
            };
            let third = if args@.len() > 2 {
                args@[2]
            } else {
                None
            };
            let shell = match second {
                Some(s) => if s@ == "--shell"@ {
                    third
                } else {
                    Some(s)
                },
                None => None,
            };
            match shell {
                Some(s) => r == CompletionArgs::Shell(s),
                None => r is MissingShell,
            }
        },
{
    let first = arg_at(args, 0);
    if !arg_is(&first, "completion") {
        return CompletionArgs::NotCompletion;
    }
    let second = arg_at(args, 1);
    let shell = match second {
        Some(s) => if str_eq(s.as_str(), "--shell") {
            arg_at(args, 2)
        } else {
            Some(s)
        },
        None => None,
    };
    match shell {
        Some(s) => CompletionArgs::Shell(s),
        None => CompletionArgs::MissingShell,
    }
}

} // verus!
