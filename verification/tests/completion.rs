use screen_dump::completion::{
    app_candidates, completion_args, owners_by_pid, pid_candidate, window_candidate,
    CompletionArgs,
};
use screen_dump::model::ApplicationInfo;

fn owner(pid: i32, name: Option<&str>, bundle: Option<&str>) -> ApplicationInfo {
    ApplicationInfo { pid, name: name.map(|s| s.to_string()), bundle_id: bundle.map(|s| s.to_string()) }
}

#[test]
fn owners_are_listed_once_per_pid_in_pid_order() {
    let windows = vec![
        owner(30, Some("Mail"), None),
        owner(10, Some("Safari"), Some("com.apple.Safari")),
        owner(30, Some("Other"), None),
    ];
    let owners = owners_by_pid(&windows);
    let pids: Vec<i32> = owners.iter().map(|o| o.pid).collect();
    assert_eq!(pids, vec![10, 30]);
    assert_eq!(owners[1].name, Some("Mail".to_string()));
}

#[test]
fn app_candidates_prefer_bundle_ids_and_keep_first_names() {
    let owners = vec![
        owner(1, Some("Safari"), Some("com.apple.Safari")),
        owner(2, None, Some("com.example.daemon")),
        owner(3, Some("Terminal"), None),
        owner(4, Some("Safari"), None),
    ];
    let pairs = app_candidates(&owners).to_pairs();
    let expected: Vec<(String, String)> = vec![
        ("Safari", "com.apple.Safari"),
        ("Terminal", "application with windows"),
        ("com.apple.Safari", "Safari"),
        ("com.example.daemon", "running application"),
    ]
    .into_iter()
    .map(|(a, b)| (a.to_string(), b.to_string()))
    .collect();
    assert_eq!(pairs, expected);
}

#[test]
fn pid_and_window_candidates() {
    assert_eq!(
        pid_candidate(&owner(77, None, None)),
        ("77".to_string(), "application with windows".to_string())
    );
    assert_eq!(
        pid_candidate(&owner(78, Some("Finder"), None)),
        ("78".to_string(), "Finder".to_string())
    );
    assert_eq!(
        window_candidate(9, &None, &None, 12),
        ("9".to_string(), "<untitled> — <unknown app> (pid 12)".to_string())
    );
    assert_eq!(
        window_candidate(9, &Some("Inbox".to_string()), &Some("Mail".to_string()), 12),
        ("9".to_string(), "Inbox — Mail (pid 12)".to_string())
    );
}

fn args(v: &[Option<&str>]) -> Vec<Option<String>> {
    v.iter().map(|a| a.map(|s| s.to_string())).collect()
}

#[test]
fn completion_arguments() {
    assert!(matches!(completion_args(&args(&[])), CompletionArgs::NotCompletion));
    assert!(matches!(completion_args(&args(&[Some("--json")])), CompletionArgs::NotCompletion));
    assert!(matches!(completion_args(&args(&[None])), CompletionArgs::NotCompletion));
    assert!(matches!(completion_args(&args(&[Some("completion")])), CompletionArgs::MissingShell));
    assert!(matches!(
        completion_args(&args(&[Some("completion"), Some("--shell")])),
        CompletionArgs::MissingShell
    ));
    match completion_args(&args(&[Some("completion"), Some("zsh")])) {
        CompletionArgs::Shell(s) => assert_eq!(s, "zsh"),
        _ => panic!("expected a shell"),
    }
    match completion_args(&args(&[Some("completion"), Some("--shell"), Some("fish")])) {
        CompletionArgs::Shell(s) => assert_eq!(s, "fish"),
        _ => panic!("expected a shell"),
    }
}
