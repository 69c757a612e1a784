//! Rendering of the formatting tags plugins put in labels (`[B]`, `[COLOR ...]`) as HTML.
use vstd::prelude::*;
use vstd::string::*;
use crate::data::ListItem;
use crate::text::{char_vec, push_char, str_eq};

verus! {

/// `s` with `&`, `<` and `>` written as HTML entities.
pub open spec fn escape_text_spec(s: Seq<char>) -> Seq<char>
    decreases s.len(),
{
    if s.len() == 0 {
        s
    } else {
        escape_text_spec(s.drop_last()) + if s.last() == '&' {
            "&amp;"@
        } else if s.last() == '<' {
            "&lt;"@
        } else if s.last() == '>' {
            "&gt;"@
        } else {
            seq![s.last()]
        }
    }
}

/// Relies on `html_escape::encode_text`: `&`, `<` and `>` become `&amp;`, `&lt;` and `&gt;`,
/// every other character stays.
#[verifier::external_body]
fn html_text_escape(s: &str) -> (r: String)
    ensures
        r@ == escape_text_spec(s@),
{
    html_escape::encode_text(s).into_owned()
}

/// The first index from `j` on that holds `]` or a space, or the length.
pub open spec fn scan_keyword(s: Seq<char>, j: int) -> int
    decreases s.len() - j,
{
    if j >= s.len() {
        s.len() as int
    } else if s[j] == ']' || s[j] == ' ' {
        j
    } else {
        scan_keyword(s, j + 1)
    }
}

/// The first index from `j` on that holds `]`, or the length.
pub open spec fn scan_close(s: Seq<char>, j: int) -> int
    decreases s.len() - j,
{
    if j >= s.len() {
        s.len() as int
    } else if s[j] == ']' {
        j
    } else {
        scan_close(s, j + 1)
    }
}

/// Whether the keyword of the tag opened at `i` is followed by a space.
pub open spec fn has_extension(s: Seq<char>, i: int) -> bool {
    let k = scan_keyword(s, i + 1);
    k < s.len() && s[k] == ' '
}

/// The index just after the tag opened at `i`.
pub open spec fn tag_end(s: Seq<char>, i: int) -> int {
    let k = scan_keyword(s, i + 1);
    let e = if has_extension(s, i) {
        scan_close(s, k + 1)
    } else {
        k
    };
    if e < s.len() {
        e + 1
    } else {
        s.len() as int
    }
}

/// What a tag renders to: bold tags become HTML, colour tags vanish, anything else is written
/// back with its brackets.
pub open spec fn tag_text(keyword: Seq<char>, extension: Seq<char>) -> Seq<char> {
    if keyword == "B"@ {
        "<b>"@
    } else if keyword == "/B"@ {
        "</b>"@
    } else if keyword == "COLOR"@ || keyword == "/COLOR"@ {
        Seq::<char>::empty()
    } else {
        seq!['['] + keyword + (if extension.len() > 0 {
            seq![' '] + extension
        } else {
            Seq::<char>::empty()
        }) + seq![']']
    }
}

/// The rendering of the tag opened at `i`.
pub open spec fn tag_out(s: Seq<char>, i: int) -> Seq<char> {
    let k = scan_keyword(s, i + 1);
    let extension = if has_extension(s, i) {
        s.subrange(k + 1, scan_close(s, k + 1))
    } else {
        Seq::<char>::empty()
    };
    tag_text(s.subrange(i + 1, k), extension)
}

/// The rendering of `s` from index `i` on.
pub open spec fn render_from(s: Seq<char>, i: int) -> Seq<char>
    decreases s.len() - i,
{
    if i < 0 || i >= s.len() {
        Seq::<char>::empty()
    } else if s[i] == '[' {
        if tag_end(s, i) > i {
            tag_out(s, i) + render_from(s, tag_end(s, i))
        } else {
            Seq::<char>::empty()
        }
    } else {
        seq![s[i]] + render_from(s, i + 1)
    }
}

/// A label rendered as HTML: the text is escaped, then its tags are rendered.
pub open spec fn format_spec(source: Seq<char>) -> Seq<char> {
    render_from(escape_text_spec(source), 0)
}

/// A keyword scan stops between its start and the end.
proof fn lemma_scan_keyword_bounds(s: Seq<char>, j: int)
    requires
        0 <= j <= s.len(),
    ensures
        j <= scan_keyword(s, j) <= s.len(),
    decreases s.len() - j,
{
    if j < s.len() && !(s[j] == ']' || s[j] == ' ') {
        lemma_scan_keyword_bounds(s, j + 1);
    }
}

/// A scan for `]` stops between its start and the end.
proof fn lemma_scan_close_bounds(s: Seq<char>, j: int)
    requires
        0 <= j <= s.len(),
    ensures
        j <= scan_close(s, j) <= s.len(),
    decreases s.len() - j,
{
    if j < s.len() && s[j] != ']' {
        lemma_scan_close_bounds(s, j + 1);
    }
}

/// Renders the formatting tags of a label as HTML, after escaping its text.
pub fn format_to_string(source: &str) -> (r: String)
    ensures
        r@ == format_spec(source@),
{
    let escaped = html_text_escape(source);
    let s = char_vec(escaped.as_str());
    let ghost t = s@;
    let n = s.len();
    let mut out = String::new();
    let mut i: usize = 0;
    while i < n
        invariant
            n == s@.len(),
            t == s@,
            t == escape_text_spec(source@),
            i <= n,
            out@ + render_from(t, i as int) == render_from(t, 0),
        decreases n - i,
    {
        let c = s[i];
        if c == '[' {
            let mut keyword = String::new();
            let mut j: usize = i + 1;
            proof {
                lemma_scan_keyword_bounds(t, i as int + 1);
            }
            while j < n && s[j] != ']' && s[j] != ' '
                invariant
                    n == s@.len(),
                    t == s@,
                    i < j <= n,
                    scan_keyword(t, i as int + 1) == scan_keyword(t, j as int),
                    keyword@ == t.subrange(i as int + 1, j as int),
                decreases n - j,
            {
                push_char(&mut keyword, s[j]);
                assert(keyword@ =~= t.subrange(i as int + 1, j as int + 1));
                j = j + 1;
            }
            let k = j;
            assert(scan_keyword(t, k as int) == k as int);
            let mut extension = String::new();
            let mut e: usize = k;
            if k < n && s[k] == ' ' {
                e = k + 1;
                proof {
                    lemma_scan_close_bounds(t, k as int + 1);
                }
                while e < n && s[e] != ']'
                    invariant
                        n == s@.len(),
                        t == s@,
                        k < e <= n,
                        scan_close(t, k as int + 1) == scan_close(t, e as int),
                        extension@ == t.subrange(k as int + 1, e as int),
                    decreases n - e,
                {
                    push_char(&mut extension, s[e]);
                    assert(extension@ =~= t.subrange(k as int + 1, e as int + 1));
                    e = e + 1;
                }
                assert(scan_close(t, e as int) == e as int);
            }
            let next: usize = if e < n {
                e + 1
            } else {
                n
            };
            assert(next as int == tag_end(t, i as int));
            let tag = render_tag(&keyword, &extension);
            assert(tag@ == tag_out(t, i as int));
            out.append(tag.as_str());
            i = next;
        } else {
            push_char(&mut out, c);
            i = i + 1;
        }
    }
    out
}

fn render_tag(keyword: &String, extension: &String) -> (r: String)
    ensures
        r@ == tag_text(keyword@, extension@),
{
    if str_eq(keyword.as_str(), "B") {
        "<b>".to_owned()
    } else if str_eq(keyword.as_str(), "/B") {
        "</b>".to_owned()
    } else if str_eq(keyword.as_str(), "COLOR") || str_eq(keyword.as_str(), "/COLOR") {
        String::new()
    } else {
        let mut r = String::new();
        push_char(&mut r, '[');
        r.append(keyword.as_str());
        if !extension.as_str().is_empty() {
            push_char(&mut r, ' ');
            r.append(extension.as_str());
        }
        push_char(&mut r, ']');
        r
    }
}

impl ListItem {
    /// The HTML of the entry's name: its label, else its title, rendered; else `unnamed`.
    pub fn get_display_html(&self) -> (r: String)
        ensures
            r@ == match self.label {
                Some(l) => format_spec(l@),
                None => match self.info.title {
                    Some(t) => format_spec(t@),
                    None => "unnamed"@,
                },
            },
    {
        if let Some(value) = &self.label {
            format_to_string(value.as_str())
        } else if let Some(name) = &self.info.title {
            format_to_string(name.as_str())
        } else {
            "unnamed".to_owned()
        }
    }
}

} // verus!
