//! Ordered user preferences handed to plugins, and how two sets of them merge.
use vstd::prelude::*;
use vstd::string::*;
use crate::encoding::{alnum_encoded, decode_percent, encode_alnum, percent_decoded};
use crate::text::{join_spec, join_with, lemma_split_nonempty, push_char, split_on, split_spec, str_eq};

verus! {

/// `s` with every later repetition of an element removed; first occurrences keep their order.
pub open spec fn dedup_spec(s: Seq<Seq<char>>) -> Seq<Seq<char>>
    decreases s.len(),
{
    if s.len() == 0 {
        s
    } else {
        let d = dedup_spec(s.drop_last());
        if d.contains(s.last()) {
            d
        } else {
            d.push(s.last())
        }
    }
}

/// The list that a higher-priority list leaves after absorbing a lower-priority one.
pub open spec fn merge_list_spec(low: Seq<Seq<char>>, prio: Seq<Seq<char>>, prio_no_child: bool) -> Seq<Seq<char>> {
    if prio_no_child {
        prio
    } else {
        prio + low
    }
}

/// The value of the last entry of `d` whose key is `key`.
pub open spec fn dict_get(d: Seq<(Seq<char>, Seq<char>)>, key: Seq<char>) -> Option<Seq<char>>
    decreases d.len(),
{
    if d.len() == 0 {
        None
    } else if d.last().0 == key {
        Some(d.last().1)
    } else {
        dict_get(d.drop_last(), key)
    }
}

/// A list of preferences that may refuse to inherit the entries of a lower-priority list.
#[derive(Clone, Debug, PartialEq, Eq, Hash)]
pub struct OverridableVec {
    pub value: Vec<String>,
    pub no_child: bool,
}

impl OverridableVec {
    pub open spec fn items(&self) -> Seq<Seq<char>> {
        self.value.deep_view()
    }

    /// An empty list that inherits.
    pub fn new() -> (r: Self)
        ensures
            r.items().len() == 0,
            !r.no_child,
    {
        OverridableVec { value: Vec::new(), no_child: false }
    }

    /// A list that inherits, holding `value`.
    pub fn from_vec(value: Vec<String>) -> (r: Self)
        ensures
            r.items() == value.deep_view(),
            !r.no_child,
    {
        OverridableVec { value, no_child: false }
    }

    /// A copy with the same entries and flag.
    pub fn duplicate(&self) -> (r: Self)
        ensures
            r.items() == self.items(),
            r.no_child == self.no_child,
    {
        OverridableVec { value: copy_strings(&self.value), no_child: self.no_child }
    }

    /// Absorbs the lower-priority `child`: its entries are appended unless this list refuses
    /// them, in which case the refusal is spent.
    pub fn add_child_and_reset_no_child(&mut self, child: OverridableVec)
        ensures
            final(self).items() == merge_list_spec(child.items(), old(self).items(), old(self).no_child),
            !final(self).no_child,
    {
        if self.no_child {
            self.no_child = false;
        } else {
            let mut child = child;
            self.value.append(&mut child.value);
        }
    }
}

/// A copy of a list of strings.
pub fn copy_strings(v: &Vec<String>) -> (r: Vec<String>)
    ensures
        r.deep_view() == v.deep_view(),
{
    let mut out: Vec<String> = Vec::new();
    let mut i: usize = 0;
    while i < v.len()
        invariant
            i <= v.len(),
            out.deep_view() == v.deep_view().take(i as int),
        decreases v.len() - i,
    {
        let s = v[i].clone();
        let ghost before = out.deep_view();
        out.push(s);
        assert(out.deep_view() =~= before.push(v[i as int]@));
        assert(out.deep_view() =~= v.deep_view().take(i as int + 1));
        i = i + 1;
    }
    assert(v.deep_view().take(i as int) =~= v.deep_view());
    out
}

/// Whether `v` holds a string equal to `x`.
pub fn contains_string(v: &Vec<String>, x: &String) -> (r: bool)
    ensures
        r == v.deep_view().contains(x@),
{
    let mut i: usize = 0;
    while i < v.len()
        invariant
            i <= v.len(),
            forall|j: int| 0 <= j < i ==> v.deep_view()[j] != x@,
        decreases v.len() - i,
    {
        if v[i] == *x {
            assert(v.deep_view()[i as int] == x@);
            return true;
        }
        i = i + 1;
    }
    false
}

/// `list` without later repetitions.
pub fn remove_duplicate(list: &Vec<String>) -> (r: Vec<String>)
    ensures
        r.deep_view() == dedup_spec(list.deep_view()),
{
    let mut out: Vec<String> = Vec::new();
    let mut i: usize = 0;
    while i < list.len()
        invariant
            i <= list.len(),
            out.deep_view() == dedup_spec(list.deep_view().take(i as int)),
        decreases list.len() - i,
    {
        let ghost prefix = list.deep_view().take(i as int + 1);
        assert(prefix.drop_last() =~= list.deep_view().take(i as int));
        assert(prefix.last() == list[i as int]@);
        if !contains_string(&out, &list[i]) {
            out.push(list[i].clone());
            assert(out.deep_view() =~= dedup_spec(list.deep_view().take(i as int)).push(list[i as int]@));
        }
        i = i + 1;
    }
    assert(list.deep_view().take(i as int) =~= list.deep_view());
    out
}

/// The three preference lists that travel with a request to a plugin.
#[derive(Clone, Debug, PartialEq, Eq, Hash)]
pub struct UserConfig {
    pub language_order: OverridableVec,
    pub resolution_order: OverridableVec,
    pub format_order: OverridableVec,
}

/// The value of the last entry of `dict` whose key is `key`.
pub fn dict_lookup(dict: &Vec<(String, String)>, key: &str) -> (r: Option<String>)
    ensures
        r matches Some(v) ==> dict_get(dict.deep_view(), key@) == Some(v@),
        r is None ==> dict_get(dict.deep_view(), key@) is None,
{
    let mut i: usize = dict.len();
    assert(dict.deep_view().take(i as int) =~= dict.deep_view());
    while i > 0
        invariant
            i <= dict.len(),
            dict_get(dict.deep_view(), key@) == dict_get(dict.deep_view().take(i as int), key@),
        decreases i,
    {
        let ghost prefix = dict.deep_view().take(i as int);
        assert(prefix.drop_last() =~= dict.deep_view().take(i as int - 1));
        assert(prefix.last() == dict.deep_view()[i as int - 1]);
        if str_eq(dict[i - 1].0.as_str(), key) {
            return Some(dict[i - 1].1.clone());
        }
        i = i - 1;
    }
    None
}

impl UserConfig {
    pub open spec fn languages(&self) -> Seq<Seq<char>> {
        self.language_order.items()
    }

    pub open spec fn resolutions(&self) -> Seq<Seq<char>> {
        self.resolution_order.items()
    }

    pub open spec fn formats(&self) -> Seq<Seq<char>> {
        self.format_order.items()
    }

    /// The same lists and flags.
    pub open spec fn same_as(&self, other: &UserConfig) -> bool {
        &&& self.languages() == other.languages()
        &&& self.resolutions() == other.resolutions()
        &&& self.formats() == other.formats()
        &&& self.language_order.no_child == other.language_order.no_child
        &&& self.resolution_order.no_child == other.resolution_order.no_child
        &&& self.format_order.no_child == other.format_order.no_child
    }

    /// Three empty lists that inherit.
    pub open spec fn is_empty_config(&self) -> bool {
        &&& self.languages().len() == 0
        &&& self.resolutions().len() == 0
        &&& self.formats().len() == 0
        &&& !self.language_order.no_child
        &&& !self.resolution_order.no_child
        &&& !self.format_order.no_child
    }

    /// Whether this configuration is the result of merging `low` under the higher-priority `prio`.
    pub open spec fn is_merge_of(&self, low: &UserConfig, prio: &UserConfig) -> bool {
        &&& self.languages() == dedup_spec(
            merge_list_spec(low.languages(), prio.languages(), prio.language_order.no_child),
        )
        &&& self.resolutions() == dedup_spec(
            merge_list_spec(low.resolutions(), prio.resolutions(), prio.resolution_order.no_child),
        )
        &&& self.formats() == dedup_spec(
            merge_list_spec(low.formats(), prio.formats(), prio.format_order.no_child),
        )
        &&& !self.language_order.no_child
        &&& !self.resolution_order.no_child
        &&& !self.format_order.no_child
    }

    /// A configuration with no preference at all.
    pub fn new_empty() -> (r: Self)
        ensures
            r.is_empty_config(),
    {
        UserConfig {
            language_order: OverridableVec::new(),
            resolution_order: OverridableVec::new(),
            format_order: OverridableVec::new(),
        }
    }

    /// A copy with the same lists and flags.
    pub fn duplicate(&self) -> (r: Self)
        ensures
            r.same_as(self),
    {
        UserConfig {
            language_order: self.language_order.duplicate(),
            resolution_order: self.resolution_order.duplicate(),
            format_order: self.format_order.duplicate(),
        }
    }

    /// Reads a configuration from key/value entries, the last entry of a key winning.
    ///
    /// `lang_ord`, `res_ord` and `form_ord` hold `:`-separated lists; `nc-<key>` set to `t`
    /// makes that list refuse lower-priority entries. Other keys are ignored.
    pub fn new_from_dict(dict: Vec<(String, String)>) -> (r: Self)
        ensures
            r.languages() == list_from_dict(dict.deep_view(), "lang_ord"@),
            r.resolutions() == list_from_dict(dict.deep_view(), "res_ord"@),
            r.formats() == list_from_dict(dict.deep_view(), "form_ord"@),
            r.language_order.no_child == (dict_get(dict.deep_view(), "nc-lang_ord"@) == Some("t"@)),
            r.resolution_order.no_child == (dict_get(dict.deep_view(), "nc-res_ord"@) == Some("t"@)),
            r.format_order.no_child == (dict_get(dict.deep_view(), "nc-form_ord"@) == Some("t"@)),
    {
        UserConfig {
            language_order: list_of_dict(&dict, "lang_ord", "nc-lang_ord"),
            resolution_order: list_of_dict(&dict, "res_ord", "nc-res_ord"),
            format_order: list_of_dict(&dict, "form_ord", "nc-form_ord"),
        }
    }

    /// The entries that [`UserConfig::new_from_dict`] reads back into the same lists.
    pub fn to_dict(&self) -> (r: Vec<(String, String)>)
        ensures
            r.deep_view() == seq![
                ("lang_ord"@, join_spec(self.languages(), ':')),
                ("res_ord"@, join_spec(self.resolutions(), ':')),
                ("form_ord"@, join_spec(self.formats(), ':')),
            ],
    {
        let mut r: Vec<(String, String)> = Vec::new();
        r.push((String::from_str("lang_ord"), join_with(&self.language_order.value, ':')));
        r.push((String::from_str("res_ord"), join_with(&self.resolution_order.value, ':')));
        r.push((String::from_str("form_ord"), join_with(&self.format_order.value, ':')));
        assert(r.deep_view() =~= seq![
            ("lang_ord"@, join_spec(self.languages(), ':')),
            ("res_ord"@, join_spec(self.resolutions(), ':')),
            ("form_ord"@, join_spec(self.formats(), ':')),
        ]);
        r
    }

    /// Merges `prio` over this configuration: `prio`'s entries come first, this one's follow
    /// unless `prio` refuses them for that list; repetitions are then removed and every
    /// refusal is spent.
    pub fn add_config_prioritary(self, prio: Self) -> (r: Self)
        ensures
            r.is_merge_of(&self, &prio),
    {
        let mut result = prio;
        result.language_order.add_child_and_reset_no_child(self.language_order);
        result.resolution_order.add_child_and_reset_no_child(self.resolution_order);
        result.format_order.add_child_and_reset_no_child(self.format_order);
        result.clean();
        result
    }

    /// Removes later repetitions from each list.
    pub fn clean(&mut self)
        ensures
            final(self).languages() == dedup_spec(old(self).languages()),
            final(self).resolutions() == dedup_spec(old(self).resolutions()),
            final(self).formats() == dedup_spec(old(self).formats()),
            final(self).language_order.no_child == old(self).language_order.no_child,
            final(self).resolution_order.no_child == old(self).resolution_order.no_child,
            final(self).format_order.no_child == old(self).format_order.no_child,
    {
        self.language_order.value = remove_duplicate(&self.language_order.value);
        self.resolution_order.value = remove_duplicate(&self.resolution_order.value);
        self.format_order.value = remove_duplicate(&self.format_order.value);
    }
}

impl Default for UserConfig {
    /// English first; 720p, 480p, 360p, then 1080p; mp4, webm, then ogv.
    fn default() -> (r: Self)
        ensures
            r.languages() == seq!["en"@],
            r.resolutions() == seq!["720p"@, "480p"@, "360p"@, "1080p"@],
            r.formats() == seq!["mp4"@, "webm"@, "ogv"@],
            !r.language_order.no_child,
            !r.resolution_order.no_child,
            !r.format_order.no_child,
    {
        let mut languages: Vec<String> = Vec::new();
        languages.push(String::from_str("en"));
        let mut resolutions: Vec<String> = Vec::new();
        resolutions.push(String::from_str("720p"));
        resolutions.push(String::from_str("480p"));
        resolutions.push(String::from_str("360p"));
        resolutions.push(String::from_str("1080p"));
        let mut formats: Vec<String> = Vec::new();
        formats.push(String::from_str("mp4"));
        formats.push(String::from_str("webm"));
        formats.push(String::from_str("ogv"));
        assert(languages.deep_view() =~= seq!["en"@]);
        assert(resolutions.deep_view() =~= seq!["720p"@, "480p"@, "360p"@, "1080p"@]);
        assert(formats.deep_view() =~= seq!["mp4"@, "webm"@, "ogv"@]);
        UserConfig {
            language_order: OverridableVec::from_vec(languages),
            resolution_order: OverridableVec::from_vec(resolutions),
            format_order: OverridableVec::from_vec(formats),
        }
    }
}

/// The `key.value` sections of a configuration URI, for the entries whose value is not empty.
pub open spec fn uri_sections(d: Seq<(Seq<char>, Seq<char>)>) -> Seq<Seq<char>>
    decreases d.len(),
{
    if d.len() == 0 {
        Seq::<Seq<char>>::empty()
    } else if d.last().1.len() == 0 {
        uri_sections(d.drop_last())
    } else {
        uri_sections(d.drop_last()).push(alnum_encoded(d.last().0) + seq!['.'] + alnum_encoded(d.last().1))
    }
}

/// The entries that the `!`-separated sections of a configuration URI stand for: a section
/// without `.` stands for none, else its first two `.`-separated pieces, percent-decoded.
pub open spec fn uri_entries(uri: Seq<char>) -> Seq<(Seq<char>, Seq<char>)> {
    section_entries(split_spec(uri, '!'))
}

pub open spec fn section_entries(sections: Seq<Seq<char>>) -> Seq<(Seq<char>, Seq<char>)>
    decreases sections.len(),
{
    if sections.len() == 0 {
        Seq::<(Seq<char>, Seq<char>)>::empty()
    } else {
        let rest = section_entries(sections.drop_last());
        let pieces = split_spec(sections.last(), '.');
        if pieces.len() < 2 {
            rest
        } else {
            rest.push((percent_decoded(pieces[0]), percent_decoded(pieces[1])))
        }
    }
}

impl UserConfig {
    /// Whether this configuration is what [`UserConfig::new_from_dict`] reads from `d`.
    pub open spec fn read_from(&self, d: Seq<(Seq<char>, Seq<char>)>) -> bool {
        &&& self.languages() == list_from_dict(d, "lang_ord"@)
        &&& self.resolutions() == list_from_dict(d, "res_ord"@)
        &&& self.formats() == list_from_dict(d, "form_ord"@)
        &&& self.language_order.no_child == (dict_get(d, "nc-lang_ord"@) == Some("t"@))
        &&& self.resolution_order.no_child == (dict_get(d, "nc-res_ord"@) == Some("t"@))
        &&& self.format_order.no_child == (dict_get(d, "nc-form_ord"@) == Some("t"@))
    }

    /// Encodes the non-empty lists as `key.value` sections joined with `!`, key and value
    /// percent-encoded but for ASCII letters and digits.
    pub fn encode_to_uri(&self) -> (r: String)
        ensures
            r@ == join_spec(uri_sections(self.to_dict_spec()), '!'),
    {
        let dict = self.to_dict();
        let mut sections: Vec<String> = Vec::new();
        let mut i: usize = 0;
        while i < dict.len()
            invariant
                i <= dict.len(),
                dict.deep_view() == self.to_dict_spec(),
                sections.deep_view() == uri_sections(dict.deep_view().take(i as int)),
            decreases dict.len() - i,
        {
            assert(dict.deep_view().take(i as int + 1).drop_last() =~= dict.deep_view().take(i as int));
            assert(dict.deep_view().take(i as int + 1).last() == dict.deep_view()[i as int]);
            assert(dict.deep_view()[i as int] == (dict[i as int].0@, dict[i as int].1@));
            if !dict[i].1.as_str().is_empty() {
                let mut section = encode_alnum(dict[i].0.as_str());
                push_char(&mut section, '.');
                let v = encode_alnum(dict[i].1.as_str());
                section.append(v.as_str());
                assert(section@ =~= alnum_encoded(dict[i as int].0@) + seq!['.'] + alnum_encoded(dict[i as int].1@));
                let ghost before = sections.deep_view();
                sections.push(section);
                assert(sections.deep_view() =~= before.push(section@));
            }
            i = i + 1;
        }
        assert(dict.deep_view().take(i as int) =~= dict.deep_view());
        join_with(&sections, '!')
    }

    /// The entries of [`UserConfig::to_dict`].
    pub open spec fn to_dict_spec(&self) -> Seq<(Seq<char>, Seq<char>)> {
        seq![
            ("lang_ord"@, join_spec(self.languages(), ':')),
            ("res_ord"@, join_spec(self.resolutions(), ':')),
            ("form_ord"@, join_spec(self.formats(), ':')),
        ]
    }

    /// Reads a configuration from a URI written by [`UserConfig::encode_to_uri`]; without a
    /// URI the configuration is empty.
    pub fn new_from_optional_uri(uri: Option<String>) -> (r: Self)
        ensures
            uri is None ==> r.is_empty_config(),
            uri matches Some(u) ==> r.read_from(uri_entries(u@)),
    {
        match uri {
            None => Self::new_empty(),
            Some(u) => {
                let sections = split_on(u.as_str(), '!');
                let mut dict: Vec<(String, String)> = Vec::new();
                let mut i: usize = 0;
                while i < sections.len()
                    invariant
                        i <= sections.len(),
                        sections.deep_view() == split_spec(u@, '!'),
                        dict.deep_view() == section_entries(sections.deep_view().take(i as int)),
                    decreases sections.len() - i,
                {
                    let ghost prefix = sections.deep_view().take(i as int + 1);
                    assert(prefix.drop_last() =~= sections.deep_view().take(i as int));
                    assert(prefix.last() == sections[i as int]@);
                    let pieces = split_on(sections[i].as_str(), '.');
                    if pieces.len() >= 2 {
                        let key = decode_percent(pieces[0].as_str());
                        let value = decode_percent(pieces[1].as_str());
                        let ghost before = dict.deep_view();
                        assert(pieces.deep_view()[0] == pieces[0]@);
                        assert(pieces.deep_view()[1] == pieces[1]@);
                        dict.push((key, value));
                        assert(dict.deep_view() =~= before.push((key@, value@)));
                    }
                    i = i + 1;
                }
                assert(sections.deep_view().take(i as int) =~= sections.deep_view());
                Self::new_from_dict(dict)
            },
        }
    }
}

/// `dedup_spec(s)` holds no element twice.
pub proof fn lemma_dedup_unique(s: Seq<Seq<char>>)
    ensures
        dedup_spec(s).no_duplicates(),
    decreases s.len(),
{
    if s.len() > 0 {
        lemma_dedup_unique(s.drop_last());
    }
}

/// A sequence without repetitions is left as it is.
pub proof fn lemma_dedup_of_unique(s: Seq<Seq<char>>)
    requires
        s.no_duplicates(),
    ensures
        dedup_spec(s) == s,
    decreases s.len(),
{
    if s.len() > 0 {
        let p = s.drop_last();
        assert(p.no_duplicates());
        lemma_dedup_of_unique(p);
        if p.contains(s.last()) {
            let k = choose|k: int| 0 <= k < p.len() && p[k] == s.last();
            assert(s[k] == s[s.len() - 1]);
        }
        assert(p.push(s.last()) =~= s);
    }
}

/// Removing repetitions twice is removing them once.
pub proof fn lemma_dedup_idempotent(s: Seq<Seq<char>>)
    ensures
        dedup_spec(dedup_spec(s)) == dedup_spec(s),
{
    lemma_dedup_unique(s);
    lemma_dedup_of_unique(dedup_spec(s));
}

/// Merging any configuration under an empty higher-priority one yields its lists without
/// repetitions, with no refusal left; merging the result under an empty one again changes
/// nothing.
pub proof fn lemma_merge_under_empty(low: UserConfig, empty: UserConfig, merged: UserConfig, again: UserConfig)
    requires
        empty.is_empty_config(),
        merged.is_merge_of(&low, &empty),
        again.is_merge_of(&merged, &empty),
    ensures
        merged.languages() == dedup_spec(low.languages()),
        merged.resolutions() == dedup_spec(low.resolutions()),
        merged.formats() == dedup_spec(low.formats()),
        !merged.language_order.no_child,
        !merged.resolution_order.no_child,
        !merged.format_order.no_child,
        again.same_as(&merged),
{
    assert(empty.languages() + low.languages() =~= low.languages());
    assert(empty.resolutions() + low.resolutions() =~= low.resolutions());
    assert(empty.formats() + low.formats() =~= low.formats());
    assert(empty.languages() + merged.languages() =~= merged.languages());
    assert(empty.resolutions() + merged.resolutions() =~= merged.resolutions());
    assert(empty.formats() + merged.formats() =~= merged.formats());
    lemma_dedup_idempotent(low.languages());
    lemma_dedup_idempotent(low.resolutions());
    lemma_dedup_idempotent(low.formats());
}

/// The list stored under `key` in `d`, empty when the key is absent.
pub open spec fn list_from_dict(d: Seq<(Seq<char>, Seq<char>)>, key: Seq<char>) -> Seq<Seq<char>> {
    match dict_get(d, key) {
        Some(v) => split_spec(v, ':'),
        None => Seq::<Seq<char>>::empty(),
    }
}

fn list_of_dict(dict: &Vec<(String, String)>, key: &str, nc_key: &str) -> (r: OverridableVec)
    ensures
        r.items() == list_from_dict(dict.deep_view(), key@),
        r.no_child == (dict_get(dict.deep_view(), nc_key@) == Some("t"@)),
{
    let mut r = OverridableVec::new();
    if let Some(list) = dict_lookup(dict, key) {
        r.value = split_on(list.as_str(), ':');
    }
    if let Some(flag) = dict_lookup(dict, nc_key) {
        r.no_child = str_eq(flag.as_str(), "t");
    }
    r
}

} // verus!
