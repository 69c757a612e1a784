//! The decisions of the two visitors of the crawler: checking a plugin, and mirroring it
//! to disk.
use vstd::prelude::*;
use vstd::string::*;
use vstd::utf8::encode_utf8;
use crate::data::{playable_spec, ListItem, Page, SubContent};
use crate::report::{ReportBuilder, ReportKind};
use crate::text::{char_vec, split_on, split_spec, starts_with};

verus! {

/// Relies on the `Debug` implementation derived for [`ListItem`], to quote an entry in a tip.
#[verifier::external_body]
fn listitem_debug(l: &ListItem) -> (r: String) {
    format!("{:?}", l)
}

/// `.` and the text after the last `.` of `media_path`, unless that text is longer than
/// five bytes.
pub open spec fn extension_spec(media_path: Seq<char>) -> Option<Seq<char>> {
    let last = split_spec(media_path, '.').last();
    if encode_utf8(last).len() > 5 {
        None
    } else {
        Some(seq!['.'] + last)
    }
}

/// The file extension of a media path, with its dot.
pub fn get_extension(media_path: &str) -> (r: Option<String>)
    ensures
        r.deep_view() == extension_spec(media_path@),
{
    let pieces = split_on(media_path, '.');
    proof {
        crate::text::lemma_split_nonempty(media_path@, '.');
    }
    let last = &pieces[pieces.len() - 1];
    assert(pieces.deep_view().last() == last@);
    proof {
        reveal_strlit(".");
    }
    let n = last.as_str().as_bytes().len();
    assert(n as int == encode_utf8(last@).len());
    if n > 5 {
        None
    } else {
        let mut r = ".".to_owned();
        r.append(last.as_str());
        assert(r@ =~= seq!['.'] + last@);
        let out = Some(r);
        assert(out.deep_view() == Some(seq!['.'] + last@));
        out
    }
}

/// The label of an entry.
pub fn get_label_from_listitem(list: &ListItem) -> (r: Option<String>)
    ensures
        r.deep_view() == list.label.deep_view(),
{
    match &list.label {
        Some(l) => Some(l.clone()),
        None => None,
    }
}

/// The directory name for a label; labels are used as they are.
pub fn encode_path(path: String) -> (r: String)
    ensures
        r == path,
{
    path
}

/// `name` under the directory `base`, as a path: an absolute `name` stands alone.
pub open spec fn path_join_spec(base: Seq<char>, name: Seq<char>) -> Seq<char> {
    if name.len() > 0 && name[0] == '/' {
        name
    } else if base.len() == 0 {
        name
    } else if base.last() == '/' {
        base + name
    } else {
        base + seq!['/'] + name
    }
}

/// `name` under the directory `base`.
pub fn path_join(base: &str, name: &str) -> (r: String)
    ensures
        r@ == path_join_spec(base@, name@),
{
    let n = char_vec(name);
    let b = char_vec(base);
    if n.len() > 0 && n[0] == '/' {
        return name.to_owned();
    }
    if b.len() == 0 {
        return name.to_owned();
    }
    proof {
        reveal_strlit("/");
    }
    assert(b@.last() == base@.last());
    let mut r = base.to_owned();
    if b[b.len() - 1] != '/' {
        r.append("/");
    }
    r.append(name);
    r
}

/// Where the mirror of a node goes: its parent's directory, and whether it is the root.
pub struct ParentInfo {
    pub parent_path: String,
    pub is_top_level: bool,
}

/// The marker file that says a directory was mirrored completely.
pub fn get_success_path(folder: String) -> (r: String)
    ensures
        r@ == path_join_spec(folder@, ".success"@),
{
    path_join(folder.as_str(), ".success")
}

/// The directory a node is mirrored to: the parent's directory for the root, else a
/// sub-directory named after the entry's label. Fails without a label, or when a child has no
/// entry in its parent.
pub fn get_child_dir(parent_data: &ParentInfo, sub_content_from_parent: Option<&SubContent>) -> (r: Result<String, ReportBuilder>)
    ensures
        parent_data.is_top_level ==> (r matches Ok(d) && d@ == parent_data.parent_path@),
        !parent_data.is_top_level ==> match sub_content_from_parent {
            None => r matches Err(b) && b.kind == ReportKind::Error && b.is_internal_error,
            Some(s) => match s.listitem.label {
                None => r matches Err(b) && b.kind == ReportKind::Error && !b.is_internal_error,
                Some(l) => r matches Ok(d) && d@ == path_join_spec(parent_data.parent_path@, l@),
            },
        },
{
    if parent_data.is_top_level {
        return Ok(parent_data.parent_path.clone());
    }
    match sub_content_from_parent {
        Some(sub_content) => match get_label_from_listitem(&sub_content.listitem) {
            Some(label) => {
                let name = encode_path(label);
                Ok(path_join(parent_data.parent_path.as_str(), name.as_str()))
            },
            None => {
                let mut tip = "listitem is : ".to_owned();
                let d = listitem_debug(&sub_content.listitem);
                tip.append(d.as_str());
                Err(ReportBuilder::new_error(
                    "can't find a label for this element, so can't save to a folder".to_owned(),
                ).add_tip(tip))
            },
        },
        None => Err(ReportBuilder::new_error(
            "can't get the sub content from the parent, even thought this isn't declared as a children".to_owned(),
        ).set_internal_error(true)),
    }
}

/// What the mirror writes for a node.
pub enum SavePlan {
    /// A folder: each child under its directory name.
    Directory(Vec<(String, SubContent)>),
    /// A media: the file name to save it under, its URL, and its description.
    Media { media_file_name: String, media_url: String, listitem: ListItem },
}

/// Decides what the mirror writes for a page. A page with both a media and children, a media
/// without path, or a child without label is refused with an error report.
pub fn plan_save(page: &Page) -> (r: Result<SavePlan, ReportBuilder>)
    ensures
        match page.resolved_listitem {
            Some(item) => if page.sub_content@.len() > 0 {
                r matches Err(b) && b.kind == ReportKind::Error
            } else {
                match item.path {
                    None => r matches Err(b) && b.kind == ReportKind::Error,
                    Some(url) => r matches Ok(SavePlan::Media { media_file_name, media_url, listitem })
                        && media_url@ == url@ && media_file_name@ == "media"@ + match extension_spec(url@) {
                        Some(e) => e,
                        None => Seq::<char>::empty(),
                    },
                }
            },
            None => if forall|i: int| 0 <= i < page.sub_content@.len() ==> (#[trigger] page.sub_content@[i]).listitem.label is Some {
                r matches Ok(SavePlan::Directory(entries)) && entries@.len() == page.sub_content@.len()
                    && forall|i: int| 0 <= i < entries@.len() ==> Some((#[trigger] entries@[i]).0@)
                    == page.sub_content@[i].listitem.label.deep_view()
            } else {
                r matches Err(b) && b.kind == ReportKind::Error
            },
        },
{
    if let Some(resolved) = &page.resolved_listitem {
        if page.sub_content.len() > 0 {
            return Err(ReportBuilder::new_error("the folder have both a resolved listitem and sub folder !".to_owned()));
        }
        let media_url = match &resolved.path {
            Some(v) => v.clone(),
            None => {
                return Err(ReportBuilder::new_error("can't find the path for the this media".to_owned()));
            },
        };
        let mut name = "media".to_owned();
        if let Some(ext) = get_extension(media_url.as_str()) {
            name.append(ext.as_str());
        }
        return Ok(SavePlan::Media { media_file_name: name, media_url, listitem: resolved.clone() });
    }
    let mut entries: Vec<(String, SubContent)> = Vec::new();
    let mut i: usize = 0;
    while i < page.sub_content.len()
        invariant
            i <= page.sub_content@.len(),
            page.resolved_listitem is None,
            entries@.len() == i,
            forall|j: int| 0 <= j < i ==> page.sub_content@[j].listitem.label is Some,
            forall|j: int| 0 <= j < i ==> Some((#[trigger] entries@[j]).0@) == page.sub_content@[j].listitem.label.deep_view(),
        decreases page.sub_content@.len() - i,
    {
        match get_label_from_listitem(&page.sub_content[i].listitem) {
            Some(label) => {
                entries.push((encode_path(label), page.sub_content[i].clone()));
            },
            None => {
                let mut tip = "child's listitem : ".to_owned();
                let d = listitem_debug(&page.sub_content[i].listitem);
                tip.append(d.as_str());
                return Err(ReportBuilder::new_error("can't find a label for a child".to_owned()).add_tip(tip));
            },
        }
        i = i + 1;
    }
    Ok(SavePlan::Directory(entries))
}

/// Which checks the check visitor runs on a media URL.
pub struct MediaChecks {
    /// An HTTP request on an `http://` or `https://` URL.
    pub remote: bool,
    /// Opening a local file, for a URL that starts with `/`.
    pub local: bool,
    /// An error saying the URL cannot be checked, for any URL that does not start with `/`.
    pub undetermined: bool,
}

/// The checks run on a media URL.
pub fn media_checks(media_url: &str) -> (r: MediaChecks)
    ensures
        r.remote == ((media_url@.len() >= 7 && media_url@.subrange(0, 7) == "http://"@) || (media_url@.len() >= 8
            && media_url@.subrange(0, 8) == "https://"@)),
        r.local == (media_url@.len() > 0 && media_url@[0] == '/'),
        r.undetermined == !r.local,
{
    proof {
        reveal_strlit("http://");
        reveal_strlit("https://");
    }
    let remote = starts_with(media_url, "http://") || starts_with(media_url, "https://");
    let c = char_vec(media_url);
    let local = c.len() > 0 && c[0] == '/';
    MediaChecks { remote, local, undetermined: !local }
}

/// The error of the check visitor on the playability flag: a media must be marked playable
/// by its parent's entry, and a folder must not.
pub fn playable_consistency_error(has_resolved_listitem: bool, sub_content_from_parent: Option<&SubContent>) -> (r: Option<String>)
    ensures
        match sub_content_from_parent {
            None => r is None,
            Some(s) => if has_resolved_listitem {
                (r is Some) == !playable_spec(s.listitem.properties.deep_view())
            } else {
                (r is Some) == playable_spec(s.listitem.properties.deep_view())
            },
        },
{
    match sub_content_from_parent {
        None => None,
        Some(s) => {
            let playable = s.listitem.is_playable();
            if has_resolved_listitem && !playable {
                Some("the data is not marked as playable by one of it parent, but it contain a resolved listitem".to_owned())
            } else if !has_resolved_listitem && playable {
                Some("the data is marked as playable by one of it parent, but doesn't contain a resolved listitem".to_owned())
            } else {
                None
            }
        },
    }
}

} // verus!
