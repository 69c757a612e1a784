use kodi_recurse::access::PathAccessData;
use kodi_recurse::encoding::{decode_input, decode_percent, encode_alnum, encode_input, escape_tag};
use kodi_recurse::setting::Setting;
use kodi_recurse::user_config::{OverridableVec, UserConfig};

fn s(x: &str) -> String {
    x.to_string()
}

fn strings(v: &[&str]) -> Vec<String> {
    v.iter().map(|x| x.to_string()).collect()
}

#[test]
fn config_from_dict_reads_lists_and_flags() {
    let dict = vec![
        (s("lang_ord"), s("fr:en")),
        (s("res_ord"), s("1080p")),
        (s("nc-res_ord"), s("t")),
        (s("nc-inv"), s("t")),
        (s("useless"), s("none")),
    ];
    let c = UserConfig::new_from_dict(dict);
    assert_eq!(c.language_order.value, strings(&["fr", "en"]));
    assert_eq!(c.resolution_order.value, strings(&["1080p"]));
    assert!(c.resolution_order.no_child);
    assert!(!c.language_order.no_child);
    assert_eq!(c.format_order.value, Vec::<String>::new());
}

#[test]
fn config_from_dict_last_entry_wins() {
    let dict = vec![(s("lang_ord"), s("fr")), (s("lang_ord"), s("de:it")), (s("nc-lang_ord"), s("f"))];
    let c = UserConfig::new_from_dict(dict);
    assert_eq!(c.language_order.value, strings(&["de", "it"]));
    assert!(!c.language_order.no_child);
}

#[test]
fn config_merge_prioritary() {
    let mut low = UserConfig::new_empty();
    low.language_order.value = strings(&["fr"]);
    low.resolution_order.value = strings(&["1080p", "720p"]);
    low.format_order.value = strings(&["mp4", "webm"]);
    let mut prio = UserConfig::new_empty();
    prio.language_order.value = strings(&["en"]);
    prio.resolution_order.value = strings(&["720p"]);
    prio.format_order.value = strings(&["ogv"]);
    prio.format_order.no_child = true;
    let r = low.add_config_prioritary(prio);
    assert_eq!(r.language_order.value, strings(&["en", "fr"]));
    assert_eq!(r.resolution_order.value, strings(&["720p", "1080p"]));
    assert_eq!(r.format_order.value, strings(&["ogv"]));
    assert!(!r.format_order.no_child);
}

#[test]
fn config_merge_under_empty_deduplicates() {
    let mut low = UserConfig::new_empty();
    low.language_order.value = strings(&["fr", "en", "fr", "de", "en"]);
    low.resolution_order.value = strings(&["720p", "720p"]);
    low.format_order.no_child = true;
    let merged = low.add_config_prioritary(UserConfig::new_empty());
    assert_eq!(merged.language_order.value, strings(&["fr", "en", "de"]));
    assert_eq!(merged.resolution_order.value, strings(&["720p"]));
    assert!(merged.format_order.value.is_empty());
    assert!(!merged.format_order.no_child);
    let again = merged.clone().add_config_prioritary(UserConfig::new_empty());
    assert_eq!(again, merged);
}

#[test]
fn config_default_lists() {
    let c = UserConfig::default();
    assert_eq!(c.language_order.value, strings(&["en"]));
    assert_eq!(c.resolution_order.value, strings(&["720p", "480p", "360p", "1080p"]));
    assert_eq!(c.format_order.value, strings(&["mp4", "webm", "ogv"]));
}

#[test]
fn config_to_dict_joins_lists() {
    let mut c = UserConfig::new_empty();
    c.language_order.value = strings(&["fr", "en"]);
    let d = c.to_dict();
    assert_eq!(d, vec![(s("lang_ord"), s("fr:en")), (s("res_ord"), s("")), (s("form_ord"), s(""))]);
}

#[test]
fn config_uri_decodes_escapes() {
    let mut source = UserConfig::new_empty();
    source.language_order.value = strings(&["fr", "!nv.li-=d"]);
    source.resolution_order.value = strings(&["la%li!"]);
    let decoded = UserConfig::new_from_optional_uri(Some(s("lang_ord.fr:%21nv%2eli-=d!res_ord.la%25li%21")));
    assert_eq!(decoded, source);
}

#[test]
fn config_uri_round_trip() {
    let mut source = UserConfig::new_empty();
    source.language_order.value = strings(&["fr", "!nv/li-=d"]);
    source.resolution_order.value = strings(&["la%li!"]);
    let uri = source.encode_to_uri();
    assert_eq!(uri, "lang%5Ford.fr%3A%21nv%2Fli%2D%3Dd!res%5Ford.la%25li%21");
    assert_eq!(UserConfig::new_from_optional_uri(Some(uri)), source);
}

#[test]
fn config_uri_absent_is_empty() {
    let c = UserConfig::new_from_optional_uri(None);
    assert_eq!(c, UserConfig::new_empty());
    let d = UserConfig::new_from_optional_uri(Some(s("nodot!lang_ord.en.extra")));
    assert_eq!(d.language_order.value, strings(&["en"]));
}

#[test]
fn overridable_vec_absorbs_child() {
    let mut v = OverridableVec::from_vec(strings(&["a"]));
    v.add_child_and_reset_no_child(OverridableVec::from_vec(strings(&["b"])));
    assert_eq!(v.value, strings(&["a", "b"]));
    let mut w = OverridableVec::from_vec(strings(&["a"]));
    w.no_child = true;
    w.add_child_and_reset_no_child(OverridableVec::from_vec(strings(&["b"])));
    assert_eq!(w.value, strings(&["a"]));
    assert!(!w.no_child);
}

#[test]
fn clean_removes_later_repetitions() {
    let mut c = UserConfig::new_empty();
    c.format_order.value = strings(&["a", "b", "a", "c", "b"]);
    c.format_order.no_child = true;
    c.clean();
    assert_eq!(c.format_order.value, strings(&["a", "b", "c"]));
    assert!(c.format_order.no_child);
}

#[test]
fn access_descriptor_decodes_inputs() {
    let a = PathAccessData::new(s("plugin://x/?a"), Some("a%20b:c"), UserConfig::new_empty());
    assert_eq!(a.input, strings(&["a b", "c"]));
    let b = PathAccessData::new(s("plugin://x/?a"), None, UserConfig::new_empty());
    assert!(b.input.is_empty());
    assert!(PathAccessData::try_create_from_url(None, Some("a"), UserConfig::new_empty()).is_none());
    let c = PathAccessData::try_create_from_url(Some(s("p")), Some(""), UserConfig::new_empty()).unwrap();
    assert_eq!(c.path, "p");
    assert!(c.input.is_empty());
}

#[test]
fn input_codec() {
    assert_eq!(encode_input(&strings(&["a b", "c:d"])), "a%20b:c%3Ad");
    assert_eq!(encode_input(&Vec::new()), "");
    assert_eq!(decode_input("a%20b:c%3Ad"), strings(&["a b", "c:d"]));
    assert_eq!(decode_input(""), Vec::<String>::new());
    assert_eq!(decode_input(":"), strings(&["", ""]));
}

#[test]
fn percent_codec() {
    assert_eq!(encode_alnum("a b/\u{e9}"), "a%20b%2F%C3%A9");
    assert_eq!(decode_percent("%41%20b"), "A b");
    assert_eq!(decode_percent("plain"), "plain");
}

#[test]
fn escape_tag_rewrites_in_order() {
    assert_eq!(escape_tag(s("<a>")), "&amp;lt;a&amp;gt;");
    assert_eq!(escape_tag(s("\"x'")), "&amp;quot;x&amp;#39;");
    assert_eq!(escape_tag(s("a&b")), "a&amp;b");
}

#[test]
fn setting_label_lookup() {
    let mut st = Setting::default();
    assert_eq!(st.kodi_path, "~/.kodi");
    assert_eq!(st.python_command, "python2");
    st.plugins_to_show = vec![(s("One"), s("plugin://one/")), (s("Two"), s("plugin://two/")), (s("Dup"), s("plugin://one/"))];
    assert_eq!(st.get_label_for_path("plugin://one/"), Some(s("One")));
    assert_eq!(st.get_label_for_path("plugin://two/"), Some(s("Two")));
    assert_eq!(st.get_label_for_path("plugin://three/"), None);
}
