use kodi_recurse::access::PathAccessData;
use kodi_recurse::data::{ListItem, Page, SubContent};
use kodi_recurse::encoding::encode_attribute_url;
use kodi_recurse::getlink::{
    get_art_link_subcontent, get_data_link_resolved_url, get_media_link_resolved_url, get_media_link_subcontent,
    get_served_data_url,
};
use kodi_recurse::report::ReportKind;
use kodi_recurse::user_config::UserConfig;
use kodi_recurse::visitors::{
    encode_path, get_child_dir, get_extension, get_label_from_listitem, get_success_path, media_checks,
    path_join, plan_save, playable_consistency_error, ParentInfo, SavePlan,
};

fn s(x: &str) -> String {
    x.to_string()
}

fn parent() -> PathAccessData {
    let mut config = UserConfig::new_empty();
    config.language_order.value = vec![s("en")];
    PathAccessData { path: s("plugin://p/"), input: vec![s("a b")], config }
}

fn entry(url: &str, label: Option<&str>) -> SubContent {
    let mut l = ListItem::default();
    l.label = label.map(s);
    SubContent { url: s(url), is_folder: false, total_items: 0, listitem: l }
}

#[test]
fn served_url() {
    let u = get_served_data_url(s("/get_media?"), "plugin://x/1", vec![s("i")], &parent());
    assert_eq!(
        u,
        "/get_media?path=plugin%3A%2F%2Fx%2F1&input=i&parent_path=plugin%3A%2F%2Fp%2F&parent_input=a%2520b&c=lang%5Ford.en"
    );
}

#[test]
fn data_links() {
    assert_eq!(
        get_data_link_resolved_url("http://e/m 1.mp4", "plugin://x/1", Vec::new(), s("/get_media?"), &parent()),
        "http://e/m 1.mp4"
    );
    let served = get_media_link_resolved_url("/local/file", "plugin://x/1", Vec::new(), &parent());
    assert!(served.starts_with("/get_media?path=plugin%3A%2F%2Fx%2F1&"));
    assert_eq!(encode_attribute_url("a\"<b>'& c\u{e9}"), "a%22%3Cb%3E%27%26 c%C3%A9");
}

#[test]
fn entry_links() {
    let mut e = entry("plugin://x/2", Some("two"));
    assert!(get_media_link_subcontent(&e, &parent()).starts_with("/get_media?path=plugin%3A%2F%2Fx%2F2&"));
    e.listitem.path = Some(s("http://e/v.webm"));
    assert_eq!(get_media_link_subcontent(&e, &parent()), "http://e/v.webm");
    assert!(get_art_link_subcontent(&e, "thumb", &parent()).starts_with("/get_art?category=thumb&path="));
    e.listitem.arts.push((s("thumb"), Some(s("http://e/t.png"))));
    assert_eq!(get_art_link_subcontent(&e, "thumb", &parent()), "http://e/t.png");
}

#[test]
fn mirror_paths() {
    assert_eq!(get_extension("http://e/movie.webm"), Some(s(".webm")));
    assert_eq!(get_extension("http://e/movie.mp4?token=long"), None);
    assert_eq!(get_extension("noext"), Some(s(".noext")));
    assert_eq!(get_extension("long.extension"), None);
    assert_eq!(get_extension("a.b"), Some(s(".b")));
    assert_eq!(path_join("/dest", "x"), "/dest/x");
    assert_eq!(path_join("/dest/", "x"), "/dest/x");
    assert_eq!(path_join("/dest", "/abs"), "/abs");
    assert_eq!(get_success_path(s("/dest/x")), "/dest/x/.success");
    assert_eq!(encode_path(s("a/b")), "a/b");
    assert_eq!(get_label_from_listitem(&entry("u", Some("L")).listitem), Some(s("L")));
}

#[test]
fn mirror_child_dir() {
    let top = ParentInfo { parent_path: s("/dest"), is_top_level: true };
    assert_eq!(get_child_dir(&top, None).unwrap(), "/dest");
    let inner = ParentInfo { parent_path: s("/dest"), is_top_level: false };
    assert_eq!(get_child_dir(&inner, Some(&entry("u", Some("Show")))).unwrap(), "/dest/Show");
    let no_label = get_child_dir(&inner, Some(&entry("u", None))).unwrap_err();
    assert_eq!(no_label.kind, ReportKind::Error);
    assert!(!no_label.is_internal_error);
    assert!(get_child_dir(&inner, None).unwrap_err().is_internal_error);
}

#[test]
fn mirror_plans() {
    let mut media = ListItem::default();
    media.path = Some(s("http://e/film.mkv"));
    let leaf = Page { sub_content: Vec::new(), resolved_listitem: Some(media.clone()) };
    match plan_save(&leaf).ok().unwrap() {
        SavePlan::Media { media_file_name, media_url, .. } => {
            assert_eq!(media_file_name, "media.mkv");
            assert_eq!(media_url, "http://e/film.mkv");
        }
        _ => panic!("expected a media"),
    }
    let both = Page { sub_content: vec![entry("u", Some("x"))], resolved_listitem: Some(media) };
    assert!(plan_save(&both).is_err());
    let folder = Page { sub_content: vec![entry("u", Some("x")), entry("v", Some("y"))], resolved_listitem: None };
    match plan_save(&folder).ok().unwrap() {
        SavePlan::Directory(entries) => {
            assert_eq!(entries.len(), 2);
            assert_eq!(entries[1].0, "y");
        }
        _ => panic!("expected a folder"),
    }
    let unnamed = Page { sub_content: vec![entry("u", None)], resolved_listitem: None };
    assert!(plan_save(&unnamed).is_err());
    let no_path = Page { sub_content: Vec::new(), resolved_listitem: Some(ListItem::default()) };
    assert!(plan_save(&no_path).is_err());
}

#[test]
fn check_decisions() {
    let web = media_checks("https://e/a.mp4");
    assert!(web.remote && !web.local && web.undetermined);
    let local = media_checks("/srv/a.mp4");
    assert!(!local.remote && local.local && !local.undetermined);
    let mut playable = entry("u", Some("x"));
    playable.listitem.properties.push((s("IsPlayable"), s("true")));
    let folder = entry("v", Some("y"));
    assert!(playable_consistency_error(true, Some(&playable)).is_none());
    assert!(playable_consistency_error(true, Some(&folder)).is_some());
    assert!(playable_consistency_error(false, Some(&playable)).is_some());
    assert!(playable_consistency_error(false, Some(&folder)).is_none());
    assert!(playable_consistency_error(true, None).is_none());
}
