//! Links from a web page to the media and art of plugin entries.
use vstd::prelude::*;
use vstd::string::*;
use crate::access::PathAccessData;
use crate::data::{art_get, art_lookup, SubContent};
use crate::encoding::{alnum_encoded, attribute_encoded, encode_alnum, encode_attribute_url, encode_input, inputs_encoded};
use crate::text::{char_vec, join_spec, starts_with};
use crate::user_config::uri_sections;

verus! {

/// Whether a data path must be served from the plugin rather than linked directly: a
/// local path or a plugin path.
pub open spec fn serve_spec(path: Seq<char>) -> bool {
    (path.len() > 0 && path[0] == '/') || (path.len() >= 9 && path.subrange(0, 9) == "plugin://"@)
}

/// Whether a data path must be served from the plugin rather than linked directly.
pub fn should_serve_file(path: &str) -> (r: bool)
    ensures
        r == serve_spec(path@),
{
    let chars = char_vec(path);
    if chars.len() > 0 && chars[0] == '/' {
        return true;
    }
    proof {
        reveal_strlit("plugin://");
    }
    starts_with(path, "plugin://")
}

/// The link that asks the server for a data path of a plugin entry.
pub open spec fn served_url_spec(prefix: Seq<char>, path: Seq<char>, input: Seq<Seq<char>>, parent: PathAccessData) -> Seq<char> {
    prefix + "path="@ + alnum_encoded(path) + "&input="@ + alnum_encoded(inputs_encoded(input))
        + "&parent_path="@ + alnum_encoded(parent.path@) + "&parent_input="@ + alnum_encoded(
        inputs_encoded(parent.input.deep_view()),
    ) + "&c="@ + join_spec(uri_sections(parent.config.to_dict_spec()), '!')
}

/// The link to a data URL: served by the server when it is local or a plugin path, else the
/// URL itself, escaped for an HTML attribute.
pub open spec fn data_link_spec(media_url: Seq<char>, media_path: Seq<char>, input: Seq<Seq<char>>, prefix: Seq<char>, parent: PathAccessData) -> Seq<char> {
    if serve_spec(media_url) {
        served_url_spec(prefix, media_path, input, parent)
    } else {
        attribute_encoded(media_url)
    }
}

/// The link that asks the server for `path`'s data, under `prefix`.
pub fn get_served_data_url(prefix: String, path: &str, input: Vec<String>, parent: &PathAccessData) -> (r: String)
    ensures
        r@ == served_url_spec(prefix@, path@, input.deep_view(), *parent),
{
    let mut r = prefix;
    r.append("path=");
    let p = encode_alnum(path);
    r.append(p.as_str());
    r.append("&input=");
    let i = encode_input(&input);
    let ie = encode_alnum(i.as_str());
    r.append(ie.as_str());
    r.append("&parent_path=");
    let pp = encode_alnum(parent.path.as_str());
    r.append(pp.as_str());
    r.append("&parent_input=");
    let pi = encode_input(&parent.input);
    let pie = encode_alnum(pi.as_str());
    r.append(pie.as_str());
    r.append("&c=");
    let c = parent.config.encode_to_uri();
    r.append(c.as_str());
    r
}

/// The link to `media_url`, or the server's link to `media_path` when the URL must be served.
pub fn get_data_link_resolved_url(media_url: &str, media_path: &str, input: Vec<String>, prefix: String, parent: &PathAccessData) -> (r: String)
    ensures
        r@ == data_link_spec(media_url@, media_path@, input.deep_view(), prefix@, *parent),
{
    if should_serve_file(media_url) {
        get_served_data_url(prefix, media_path, input, parent)
    } else {
        encode_attribute_url(media_url)
    }
}

/// The link to a resolved media.
pub fn get_media_link_resolved_url(media_url: &str, media_path: &str, input: Vec<String>, parent: &PathAccessData) -> (r: String)
    ensures
        r@ == data_link_spec(media_url@, media_path@, input.deep_view(), "/get_media?"@, *parent),
{
    get_data_link_resolved_url(media_url, media_path, input, "/get_media?".to_owned(), parent)
}

/// The link to the media of an entry: its own path when it has one, else the server's.
pub fn get_media_link_subcontent(content: &SubContent, parent: &PathAccessData) -> (r: String)
    ensures
        r@ == match content.listitem.path {
            Some(url) => data_link_spec(url@, content.url@, Seq::empty(), "/get_media?"@, *parent),
            None => served_url_spec("/get_media?"@, content.url@, Seq::empty(), *parent),
        },
{
    let prefix = "/get_media?".to_owned();
    let none: Vec<String> = Vec::new();
    assert(none.deep_view() =~= Seq::<Seq<char>>::empty());
    match &content.listitem.path {
        Some(url) => get_data_link_resolved_url(url.as_str(), content.url.as_str(), none, prefix, parent),
        None => get_served_data_url(prefix, content.url.as_str(), none, parent),
    }
}

/// The link to the art of `category` of an entry: its own URL when it has one, else the
/// server's.
pub fn get_art_link_subcontent(content: &SubContent, category: &str, parent: &PathAccessData) -> (r: String)
    ensures
        r@ == match art_get(content.listitem.arts.deep_view(), category@) {
            Some(Some(url)) => data_link_spec(
                url,
                content.url@,
                Seq::empty(),
                "/get_art?category="@ + category@ + "&"@,
                *parent,
            ),
            _ => served_url_spec("/get_art?category="@ + category@ + "&"@, content.url@, Seq::empty(), *parent),
        },
{
    let mut prefix = "/get_art?category=".to_owned();
    prefix.append(category);
    prefix.append("&");
    let none: Vec<String> = Vec::new();
    assert(none.deep_view() =~= Seq::<Seq<char>>::empty());
    match art_lookup(&content.listitem.arts, category) {
        Some(Some(url)) => get_data_link_resolved_url(url.as_str(), content.url.as_str(), none, prefix, parent),
        _ => get_served_data_url(prefix, content.url.as_str(), none, parent),
    }
}

} // verus!
