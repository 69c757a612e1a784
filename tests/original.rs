use kodi_recurse::argument::AppArgument;
use kodi_recurse::data::extend_option;
use kodi_recurse::encoding::encode_url;
use kodi_recurse::format::format_to_string;
use kodi_recurse::getlink::should_serve_file;

fn s(x: &str) -> String {
    x.to_string()
}

#[test]
fn test_extend_option() {
    let mut changed = None;
    extend_option(&mut changed, None);
    assert_eq!(changed, None);
    extend_option(&mut changed, Some(1));
    assert_eq!(changed, Some(1));
    changed = Some(2);
    extend_option(&mut changed, None);
    assert_eq!(changed, Some(2));
    extend_option(&mut changed, Some(5));
    assert_eq!(changed, Some(5));
}

#[test]
fn lib_test_should_serve_file() {
    assert!(should_serve_file("/test.webm"));
    assert!(should_serve_file("plugin://stuff/url"));
    assert!(!should_serve_file("http://example.org/media.webm"));
}

#[test]
fn lib_test_encode_url() {
    assert_eq!(encode_url("http://\u{ee} h"), "http://%C3%AE%20h");
}

#[test]
fn test_format() {
    assert_eq!(&format_to_string("[B]Hello[/B]"), "<b>Hello</b>");
    assert_eq!(&format_to_string("[COLOR ffFBBA16]Hello[/COLOR]"), "Hello");
}

#[test]
fn test_app_argument() {
    let app = AppArgument {
        command_name: s("hello"),
        args_order: vec![s("text"), s("bool"), s("another")],
        short_version: vec![(s("text"), s("t"))],
        bool_set: vec![s("bool")],
        args: vec![(s("text"), s("hello, world")), (s("another"), s("tes\"t"))],
        sub_command: Some(Box::new(AppArgument {
            command_name: s("sub_command"),
            args_order: Vec::new(),
            short_version: Vec::new(),
            bool_set: Vec::new(),
            args: vec![(s("sub"), s("arg"))],
            sub_command: None,
        })),
    };

    assert_eq!(
        app.get_command_safe(),
        "hello -t \'hello, world\' --bool --another \'tes\"t\' sub_command --sub arg"
    );
}

#[test]
fn test_should_serve_file() {
    assert!(should_serve_file("/test.webm"));
    assert!(should_serve_file("plugin://stuff/url"));
    assert!(!should_serve_file("http://example.org/media.webm"));
}

#[test]
fn test_encode_url() {
    assert_eq!(encode_url("http://\u{ee} h"), "http://%C3%AE%20h");
}
