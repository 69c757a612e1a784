use kodi_recurse::access::PathAccessData;
use kodi_recurse::data::{KodiResult, ListItem, Page, SubContent};
use kodi_recurse::report::{ExitStatus, KodiError};
use kodi_recurse::resolver::{judge_exit, Kodi, ResolverCache};
use kodi_recurse::user_config::UserConfig;

fn s(x: &str) -> String {
    x.to_string()
}

fn strings(v: &[&str]) -> Vec<String> {
    v.iter().map(|x| x.to_string()).collect()
}

fn kodi() -> Kodi {
    Kodi::new(s("/home/u/.kodi"), s("/tmp/g"), s("/tmp/g/kodi_interface.py"), 3600, 500)
}

fn descriptor() -> PathAccessData {
    let mut config = UserConfig::new_empty();
    config.language_order.value = strings(&["fr"]);
    config.format_order.value = strings(&["mp4", "webm"]);
    PathAccessData { path: s("plugin://x/?a"), input: strings(&["yes"]), config }
}

#[test]
fn helper_arguments() {
    let k = kodi();
    let args = k.get_arguments("/tmp/r/tmp.json", &descriptor());
    assert_eq!(
        args,
        strings(&[
            "/tmp/g/kodi_interface.py",
            "/home/u/.kodi",
            "plugin://x/?a",
            "/tmp/r/tmp.json",
            "-I",
            "yes",
            "-AL",
            "language_order",
            "fr",
            "-AL",
            "format_order",
            "mp4",
            "-AL",
            "format_order",
            "webm",
        ])
    );
}

#[test]
fn command_without_sandbox() {
    let mut k = kodi();
    k.set_python_command(s("python3"));
    assert!(k.sandbox_call);
    k.sandbox_call(false);
    let cmd = k.get_commands("/tmp/r", "/tmp/r/tmp.json", "", &descriptor());
    assert_eq!(cmd[0], "python3");
    assert_eq!(cmd[1], "/tmp/g/kodi_interface.py");
    assert_eq!(cmd.len(), 16);
}

#[test]
fn command_in_sandbox() {
    let mut k = kodi();
    k.sandbox_call(true);
    k.allowed_path = strings(&["/opt/lib"]);
    let cmd = k.get_commands("/tmp/r", "/tmp/r/tmp.json", "/py/a:/py/b", &PathAccessData::new(s("plugin://y/"), None, UserConfig::new_empty()));
    let expected = strings(&[
        "bwrap",
        "--ro-bind-try", "/home/u/.kodi", "/home/u/.kodi",
        "--ro-bind-try", "/nix", "/nix",
        "--ro-bind-try", "/gnu", "/gnu",
        "--ro-bind-try", "/usr", "/usr",
        "--ro-bind-try", "/bin", "/bin",
        "--ro-bind-try", "/tmp/g", "/tmp/g",
        "--ro-bind-try", "/py/a", "/py/a",
        "--ro-bind-try", "/py/b", "/py/b",
        "--ro-bind-try", "/opt/lib", "/opt/lib",
        "--bind", "/tmp/r", "/tmp/r",
        "--",
        "python2",
        "/tmp/g/kodi_interface.py",
        "/home/u/.kodi",
        "plugin://y/",
        "/tmp/r/tmp.json",
    ]);
    assert_eq!(cmd, expected);
}

#[test]
fn exit_judgement() {
    assert!(judge_exit(ExitStatus::Exited(0), None).is_ok());
    match judge_exit(ExitStatus::Exited(2), Some(s("boom"))) {
        Err(KodiError::NonZeroResult(Some(out), ExitStatus::Exited(2))) => assert_eq!(out, "boom"),
        _ => panic!("expected a non-zero exit"),
    }
    match judge_exit(ExitStatus::Signaled(9), None) {
        Err(KodiError::NonZeroResult(None, ExitStatus::Signaled(9))) => (),
        _ => panic!("expected a non-zero exit"),
    }
}

fn page(label: &str) -> KodiResult {
    let mut item = ListItem::default();
    item.label = Some(s(label));
    KodiResult::Content(Page {
        sub_content: vec![SubContent { url: s("c"), is_folder: true, total_items: 1, listitem: item.clone() }],
        resolved_listitem: Some(item),
    })
}

fn label_of(r: &KodiResult) -> Option<String> {
    match r {
        KodiResult::Content(p) => p.resolved_listitem.as_ref().and_then(|l| l.label.clone()),
        KodiResult::Keyboard(_) => None,
    }
}

#[test]
fn cache_hit_returns_the_stored_result() {
    let mut cache = kodi().new_cache();
    let d = descriptor();
    assert!(cache.get(&d).is_none());
    cache.insert(d.clone(), page("first"));
    let hit = cache.get(&d).expect("a hit");
    assert_eq!(label_of(&hit), Some(s("first")));
    let again = cache.get(&d.clone()).expect("a second hit");
    assert_eq!(format!("{:?}", hit), format!("{:?}", again));
    let mut other = d.clone();
    other.input.push(s("more"));
    assert!(cache.get(&other).is_none());
    cache.insert(d.clone(), page("second"));
    assert_eq!(label_of(&cache.get(&d).unwrap()), Some(s("second")));
}

#[test]
fn cache_capacity_is_bounded() {
    let mut cache = ResolverCache::new(1, 3600);
    let a = PathAccessData::new(s("a"), None, UserConfig::new_empty());
    let b = PathAccessData::new(s("b"), None, UserConfig::new_empty());
    cache.insert(a.clone(), page("a"));
    cache.insert(b.clone(), page("b"));
    assert!(cache.get(&a).is_none());
    assert_eq!(label_of(&cache.get(&b).unwrap()), Some(s("b")));
}
