//! What a plugin answers for one virtual folder: a page of entries, or a request for input.
use vstd::prelude::*;
use vstd::string::*;
use crate::text::str_eq;
use crate::user_config::dict_get;

verus! {

/// What the resolver returns for one descriptor.
#[derive(Clone, Debug)]
pub enum KodiResult {
    Content(Page),
    Keyboard(Keyboard),
}

/// A request for text input.
#[derive(Clone, Debug)]
pub struct Keyboard {
    pub default: Option<String>,
    pub heading: Option<String>,
    pub hidden: bool,
}

/// The unit the crawler walks: the entries of a folder, and the media it resolves to, if any.
#[derive(Clone, Debug)]
pub struct Page {
    pub sub_content: Vec<SubContent>,
    pub resolved_listitem: Option<ListItem>,
}

/// One entry of a page: the child's path and what the parent says of it.
#[derive(Clone, Debug)]
pub struct SubContent {
    pub url: String,
    pub is_folder: bool,
    pub total_items: u32,
    pub listitem: ListItem,
}

/// The description of a media or folder. `arts` and `properties` are key/value entries in
/// which the last entry of a key is the one that counts.
#[derive(Clone, Debug, Default)]
pub struct ListItem {
    pub label: Option<String>,
    pub path: Option<String>,
    pub arts: Vec<(String, Option<String>)>,
    pub category: Option<String>,
    pub info: Info,
    pub subtitles: Vec<Option<String>>,
    pub properties: Vec<(String, String)>,
    pub x_avalaible_languages: Vec<String>,
    pub stream_info: StreamInfo,
}

#[derive(Clone, Debug, Default)]
pub struct Info {
    pub plot: Option<String>,
    pub season: Option<u64>,
    pub episode: Option<u64>,
    pub mediatype: Option<String>,
    pub album: Option<String>,
    pub count: Option<u64>,
    pub title: Option<String>,
    pub artist: Option<String>,
    pub comment: Option<String>,
    pub genre: Option<String>,
    pub year: Option<i64>,
    pub duration: Option<u64>,
}

#[derive(Clone, Debug, Default)]
pub struct StreamInfo {
    pub audio: StreamInfoAudio,
}

#[derive(Clone, Debug, Default)]
pub struct StreamInfoAudio {
    pub language: Option<String>,
}

/// `source` after [`extend_option`]: the extender when there is one.
pub open spec fn extended_option<T>(source: Option<T>, extender: Option<T>) -> Option<T> {
    if extender is Some {
        extender
    } else {
        source
    }
}

/// `source` after [`fill_option`]: its own value when it has one, else the fallback.
pub open spec fn filled_option<T>(source: Option<T>, fallback: Option<T>) -> Option<T> {
    if source is Some {
        source
    } else {
        fallback
    }
}

/// Takes `fallback` only when `source` holds no value.
pub fn fill_option<T>(source: &mut Option<T>, fallback: Option<T>)
    ensures
        *final(source) == filled_option(*old(source), fallback),
{
    if source.is_none() {
        *source = fallback;
    }
}

/// Whether no entry of `own` has the key `key`.
pub open spec fn key_absent<V>(own: Seq<(Seq<char>, V)>, key: Seq<char>) -> bool {
    forall|i: int| 0 <= i < own.len() ==> (#[trigger] own[i]).0 != key
}

/// The entries of `other` whose key `own` lacks, in order.
pub open spec fn missing_entries<V>(other: Seq<(Seq<char>, V)>, own: Seq<(Seq<char>, V)>) -> Seq<(Seq<char>, V)>
    decreases other.len(),
{
    if other.len() == 0 {
        other
    } else if key_absent(own, other.last().0) {
        missing_entries(other.drop_last(), own).push(other.last())
    } else {
        missing_entries(other.drop_last(), own)
    }
}

/// Replaces `source` by `extender` when the latter holds a value.
pub fn extend_option<T>(source: &mut Option<T>, extender: Option<T>)
    ensures
        *final(source) == extended_option(*old(source), extender),
{
    if extender.is_some() {
        *source = extender;
    }
}

/// `s` without the elements equal to the one just before them.
pub open spec fn dedup_adjacent<A>(s: Seq<A>) -> Seq<A>
    decreases s.len(),
{
    if s.len() <= 1 {
        s
    } else if s[s.len() - 2] == s.last() {
        dedup_adjacent(s.drop_last())
    } else {
        dedup_adjacent(s.drop_last()).push(s.last())
    }
}

/// Removing adjacent repetitions keeps the last element.
pub proof fn lemma_dedup_adjacent_last<A>(s: Seq<A>)
    requires
        s.len() >= 1,
    ensures
        dedup_adjacent(s).len() >= 1,
        dedup_adjacent(s).last() == s.last(),
    decreases s.len(),
{
    if s.len() > 1 {
        lemma_dedup_adjacent_last(s.drop_last());
    }
}

/// `v` without the elements equal to the one just before them.
pub fn dedup_adjacent_strings(v: Vec<String>) -> (r: Vec<String>)
    ensures
        r.deep_view() == dedup_adjacent(v.deep_view()),
{
    let mut out: Vec<String> = Vec::new();
    let mut i: usize = 0;
    while i < v.len()
        invariant
            i <= v.len(),
            out.deep_view() == dedup_adjacent(v.deep_view().take(i as int)),
        decreases v.len() - i,
    {
        let ghost p = v.deep_view().take(i as int + 1);
        assert(p.drop_last() =~= v.deep_view().take(i as int));
        assert(p.last() == v[i as int]@);
        if i > 0 {
            assert(p[p.len() - 2] == v[i as int - 1]@);
            proof {
                lemma_dedup_adjacent_last(v.deep_view().take(i as int));
            }
            assert(out.deep_view().last() == v[i as int - 1]@);
        }
        if i == 0 || v[i] != out[out.len() - 1] {
            let ghost before = out.deep_view();
            out.push(v[i].clone());
            assert(out.deep_view() =~= before.push(v[i as int]@));
        }
        i = i + 1;
    }
    assert(v.deep_view().take(i as int) =~= v.deep_view());
    out
}

fn option_string_eq(a: &Option<String>, b: &Option<String>) -> (r: bool)
    ensures
        r == (a.deep_view() == b.deep_view()),
{
    match a {
        None => b.is_none(),
        Some(x) => match b {
            None => false,
            Some(y) => {
                let e = *x == *y;
                assert(e == (x@ == y@));
                e
            },
        },
    }
}

fn copy_option_string(a: &Option<String>) -> (r: Option<String>)
    ensures
        r.deep_view() == a.deep_view(),
{
    match a {
        None => None,
        Some(x) => Some(x.clone()),
    }
}

/// `v` without the elements equal to the one just before them.
pub fn dedup_adjacent_options(v: Vec<Option<String>>) -> (r: Vec<Option<String>>)
    ensures
        r.deep_view() == dedup_adjacent(v.deep_view()),
{
    let mut out: Vec<Option<String>> = Vec::new();
    let mut i: usize = 0;
    while i < v.len()
        invariant
            i <= v.len(),
            out.deep_view() == dedup_adjacent(v.deep_view().take(i as int)),
        decreases v.len() - i,
    {
        let ghost p = v.deep_view().take(i as int + 1);
        assert(p.drop_last() =~= v.deep_view().take(i as int));
        assert(p.last() == v[i as int].deep_view());
        if i > 0 {
            assert(p[p.len() - 2] == v[i as int - 1].deep_view());
            proof {
                lemma_dedup_adjacent_last(v.deep_view().take(i as int));
            }
            assert(out.deep_view().last() == v[i as int - 1].deep_view());
        }
        if i == 0 || !option_string_eq(&v[i], &out[out.len() - 1]) {
            let ghost before = out.deep_view();
            out.push(copy_option_string(&v[i]));
            assert(out.deep_view() =~= before.push(v[i as int].deep_view()));
        }
        i = i + 1;
    }
    assert(v.deep_view().take(i as int) =~= v.deep_view());
    out
}

/// The value of the last entry of `d` whose key is `key`.
pub open spec fn art_get(d: Seq<(Seq<char>, Option<Seq<char>>)>, key: Seq<char>) -> Option<Option<Seq<char>>>
    decreases d.len(),
{
    if d.len() == 0 {
        None
    } else if d.last().0 == key {
        Some(d.last().1)
    } else {
        art_get(d.drop_last(), key)
    }
}

/// Whether a property value reads as true.
pub open spec fn is_true_text(v: Seq<char>) -> bool {
    v == "true"@ || v == "True"@ || v == "TRUE"@
}

/// Whether the entry stored under `key` reads as true.
pub open spec fn key_is_true(props: Seq<(Seq<char>, Seq<char>)>, key: Seq<char>) -> bool {
    dict_get(props, key) matches Some(v) && is_true_text(v)
}

/// The playability flag: any of `IsPlayable`, `isPlayable`, `Isplayable`, `isplayable` whose
/// value reads as true makes the item playable.
pub open spec fn playable_spec(props: Seq<(Seq<char>, Seq<char>)>) -> bool {
    key_is_true(props, "IsPlayable"@) || key_is_true(props, "isPlayable"@) || key_is_true(props, "Isplayable"@)
        || key_is_true(props, "isplayable"@)
}

/// The art category that serves as thumbnail: `thumb`, else `poster`, if it holds a URL.
pub open spec fn thumb_category_spec(arts: Seq<(Seq<char>, Option<Seq<char>>)>) -> Option<Seq<char>> {
    if art_get(arts, "thumb"@) matches Some(Some(_)) {
        Some("thumb"@)
    } else if art_get(arts, "poster"@) matches Some(Some(_)) {
        Some("poster"@)
    } else {
        None
    }
}

/// The value of the last entry of `d` whose key is `key`.
pub fn art_lookup(d: &Vec<(String, Option<String>)>, key: &str) -> (r: Option<Option<String>>)
    ensures
        r.deep_view() == art_get(d.deep_view(), key@),
{
    let mut i: usize = d.len();
    assert(d.deep_view().take(i as int) =~= d.deep_view());
    while i > 0
        invariant
            i <= d.len(),
            art_get(d.deep_view(), key@) == art_get(d.deep_view().take(i as int), key@),
        decreases i,
    {
        let ghost prefix = d.deep_view().take(i as int);
        assert(prefix.drop_last() =~= d.deep_view().take(i as int - 1));
        assert(prefix.last() == d.deep_view()[i as int - 1]);
        assert(d.deep_view()[i as int - 1] == (d[i as int - 1].0@, d[i as int - 1].1.deep_view()));
        if str_eq(d[i - 1].0.as_str(), key) {
            return Some(copy_option_string(&d[i - 1].1));
        }
        i = i - 1;
    }
    None
}

fn property_lookup(d: &Vec<(String, String)>, key: &str) -> (r: Option<String>)
    ensures
        r.deep_view() == dict_get(d.deep_view(), key@),
{
    let r = crate::user_config::dict_lookup(d, key);
    r
}

fn property_is_true(d: &Vec<(String, String)>, key: &str) -> (r: bool)
    ensures
        r == key_is_true(d.deep_view(), key@),
{
    match property_lookup(d, key) {
        Some(v) => is_true_value(&v),
        None => false,
    }
}

fn is_true_value(v: &String) -> (r: bool)
    ensures
        r == is_true_text(v@),
{
    str_eq(v.as_str(), "true") || str_eq(v.as_str(), "True") || str_eq(v.as_str(), "TRUE")
}

impl ListItem {
    /// `self` after [`ListItem::extend`] with `other` applied to `old`.
    pub open spec fn is_extension_of(&self, old: &ListItem, other: &ListItem) -> bool {
        &&& self.label == filled_option(old.label, other.label)
        &&& self.path == filled_option(old.path, other.path)
        &&& self.arts.deep_view() == old.arts.deep_view() + missing_entries(other.arts.deep_view(), old.arts.deep_view())
        &&& self.info.is_extension_of(&old.info, &other.info)
        &&& self.subtitles.deep_view() == dedup_adjacent(old.subtitles.deep_view() + other.subtitles.deep_view())
        &&& self.properties.deep_view() == old.properties.deep_view() + missing_entries(
            other.properties.deep_view(),
            old.properties.deep_view(),
        )
        &&& self.x_avalaible_languages.deep_view() == dedup_adjacent(
            old.x_avalaible_languages.deep_view() + other.x_avalaible_languages.deep_view(),
        )
        &&& self.stream_info.audio.language == filled_option(
            old.stream_info.audio.language,
            other.stream_info.audio.language,
        )
        &&& self.category == old.category
    }

    /// The art category to use as thumbnail.
    pub fn get_thumb_category(&self) -> (r: Option<&'static str>)
        ensures
            match thumb_category_spec(self.arts.deep_view()) {
                Some(c) => r matches Some(s) && s@ == c,
                None => r is None,
            },
    {
        if let Some(Some(_)) = art_lookup(&self.arts, "thumb") {
            proof { reveal_strlit("thumb"); }
            return Some("thumb");
        }
        if let Some(Some(_)) = art_lookup(&self.arts, "poster") {
            return Some("poster");
        }
        None
    }

    /// Whether a parent marks this entry as playable.
    pub fn is_playable(&self) -> (r: bool)
        ensures
            r == playable_spec(self.properties.deep_view()),
    {
        property_is_true(&self.properties, "IsPlayable") || property_is_true(&self.properties, "isPlayable")
            || property_is_true(&self.properties, "Isplayable") || property_is_true(&self.properties, "isplayable")
    }

    /// Completes this entry with `other`, its parent's description: a single value is taken
    /// only where this entry has none, a map entry only for a key this entry lacks; lists are
    /// appended and lose adjacent repetitions.
    pub fn extend(&mut self, other: Self)
        ensures
            final(self).is_extension_of(old(self), &other),
    {
        let ListItem {
            label,
            path,
            arts,
            category: _,
            info,
            mut subtitles,
            properties,
            mut x_avalaible_languages,
            stream_info,
        } = other;
        fill_option(&mut self.label, label);
        fill_option(&mut self.path, path);
        fill_missing_arts(&mut self.arts, &arts);
        self.info.extend(info);
        let mut subs: Vec<Option<String>> = Vec::new();
        std::mem::swap(&mut subs, &mut self.subtitles);
        let ghost a = subs.deep_view();
        let ghost b = subtitles.deep_view();
        subs.append(&mut subtitles);
        assert(subs.deep_view() =~= a + b);
        self.subtitles = dedup_adjacent_options(subs);
        fill_missing_properties(&mut self.properties, &properties);
        let mut langs: Vec<String> = Vec::new();
        std::mem::swap(&mut langs, &mut self.x_avalaible_languages);
        let ghost c = langs.deep_view();
        let ghost d = x_avalaible_languages.deep_view();
        langs.append(&mut x_avalaible_languages);
        assert(langs.deep_view() =~= c + d);
        self.x_avalaible_languages = dedup_adjacent_strings(langs);
        self.stream_info.extend(stream_info);
    }
}

impl Info {
    pub open spec fn is_extension_of(&self, old: &Info, other: &Info) -> bool {
        &&& self.plot == filled_option(old.plot, other.plot)
        &&& self.season == filled_option(old.season, other.season)
        &&& self.episode == filled_option(old.episode, other.episode)
        &&& self.mediatype == filled_option(old.mediatype, other.mediatype)
        &&& self.album == filled_option(old.album, other.album)
        &&& self.count == filled_option(old.count, other.count)
        &&& self.title == filled_option(old.title, other.title)
        &&& self.artist == filled_option(old.artist, other.artist)
        &&& self.comment == filled_option(old.comment, other.comment)
        &&& self.genre == filled_option(old.genre, other.genre)
        &&& self.year == filled_option(old.year, other.year)
        &&& self.duration == filled_option(old.duration, other.duration)
    }

    /// Takes from `other` every field this one does not set.
    pub fn extend(&mut self, other: Self)
        ensures
            final(self).is_extension_of(old(self), &other),
    {
        fill_option(&mut self.plot, other.plot);
        fill_option(&mut self.genre, other.genre);
        fill_option(&mut self.season, other.season);
        fill_option(&mut self.episode, other.episode);
        fill_option(&mut self.mediatype, other.mediatype);
        fill_option(&mut self.album, other.album);
        fill_option(&mut self.count, other.count);
        fill_option(&mut self.title, other.title);
        fill_option(&mut self.artist, other.artist);
        fill_option(&mut self.comment, other.comment);
        fill_option(&mut self.year, other.year);
        fill_option(&mut self.duration, other.duration);
    }
}

impl StreamInfo {
    /// Takes the audio fields this one does not set.
    pub fn extend(&mut self, other: Self)
        ensures
            final(self).audio.language == filled_option(old(self).audio.language, other.audio.language),
    {
        self.audio.extend(other.audio)
    }
}

impl StreamInfoAudio {
    /// Takes `other`'s language when this one has none.
    pub fn extend(&mut self, other: Self)
        ensures
            final(self).language == filled_option(old(self).language, other.language),
    {
        fill_option(&mut self.language, other.language)
    }
}

fn has_art_key(own: &Vec<(String, Option<String>)>, n: usize, key: &String) -> (r: bool)
    requires
        n <= own@.len(),
    ensures
        r == !key_absent(own.deep_view().take(n as int), key@),
{
    let mut i: usize = 0;
    while i < n
        invariant
            i <= n <= own@.len(),
            key_absent(own.deep_view().take(i as int), key@),
        decreases n - i,
    {
        assert(own.deep_view()[i as int].0 == own[i as int].0@);
        if own[i].0 == *key {
            assert(own.deep_view().take(n as int)[i as int].0 == key@);
            return true;
        }
        assert forall|j: int| 0 <= j < i + 1 implies (#[trigger] own.deep_view().take(i as int + 1)[j]).0 != key@ by {
            if j < i {
                assert(own.deep_view().take(i as int + 1)[j] == own.deep_view().take(i as int)[j]);
            }
        }
        i = i + 1;
    }
    false
}

/// Appends the entries of `other` whose key `own` lacks.
fn fill_missing_arts(own: &mut Vec<(String, Option<String>)>, other: &Vec<(String, Option<String>)>)
    ensures
        final(own).deep_view() == old(own).deep_view() + missing_entries(other.deep_view(), old(own).deep_view()),
{
    let n = own.len();
    let ghost start = own.deep_view();
    let mut i: usize = 0;
    assert(start + missing_entries(other.deep_view().take(0), start) =~= start);
    while i < other.len()
        invariant
            n == start.len(),
            i <= other@.len(),
            own.deep_view().take(n as int) =~= start,
            own.deep_view() == start + missing_entries(other.deep_view().take(i as int), start),
        decreases other@.len() - i,
    {
        let ghost p = other.deep_view().take(i as int + 1);
        assert(p.drop_last() =~= other.deep_view().take(i as int));
        assert(p.last() == other.deep_view()[i as int]);
        assert(other.deep_view()[i as int] == (other[i as int].0@, other[i as int].1.deep_view()));
        if !has_art_key(own, n, &other[i].0) {
            let ghost before = own.deep_view();
            own.push((other[i].0.clone(), copy_option_string(&other[i].1)));
            assert(own.deep_view() =~= before.push(other.deep_view()[i as int]));
            assert(own.deep_view().take(n as int) =~= before.take(n as int));
        }
        assert(own.deep_view() =~= start + missing_entries(p, start));
        i = i + 1;
    }
    assert(other.deep_view().take(i as int) =~= other.deep_view());
}

fn has_property_key(own: &Vec<(String, String)>, n: usize, key: &String) -> (r: bool)
    requires
        n <= own@.len(),
    ensures
        r == !key_absent(own.deep_view().take(n as int), key@),
{
    let mut i: usize = 0;
    while i < n
        invariant
            i <= n <= own@.len(),
            key_absent(own.deep_view().take(i as int), key@),
        decreases n - i,
    {
        assert(own.deep_view()[i as int].0 == own[i as int].0@);
        if own[i].0 == *key {
            assert(own.deep_view().take(n as int)[i as int].0 == key@);
            return true;
        }
        assert forall|j: int| 0 <= j < i + 1 implies (#[trigger] own.deep_view().take(i as int + 1)[j]).0 != key@ by {
            if j < i {
                assert(own.deep_view().take(i as int + 1)[j] == own.deep_view().take(i as int)[j]);
            }
        }
        i = i + 1;
    }
    false
}

/// Appends the entries of `other` whose key `own` lacks.
fn fill_missing_properties(own: &mut Vec<(String, String)>, other: &Vec<(String, String)>)
    ensures
        final(own).deep_view() == old(own).deep_view() + missing_entries(other.deep_view(), old(own).deep_view()),
{
    let n = own.len();
    let ghost start = own.deep_view();
    let mut i: usize = 0;
    assert(start + missing_entries(other.deep_view().take(0), start) =~= start);
    while i < other.len()
        invariant
            n == start.len(),
            i <= other@.len(),
            own.deep_view().take(n as int) =~= start,
            own.deep_view() == start + missing_entries(other.deep_view().take(i as int), start),
        decreases other@.len() - i,
    {
        let ghost p = other.deep_view().take(i as int + 1);
        assert(p.drop_last() =~= other.deep_view().take(i as int));
        assert(p.last() == other.deep_view()[i as int]);
        assert(other.deep_view()[i as int] == (other[i as int].0@, other[i as int].1@));
        if !has_property_key(own, n, &other[i].0) {
            let ghost before = own.deep_view();
            own.push((other[i].0.clone(), other[i].1.clone()));
            assert(own.deep_view() =~= before.push(other.deep_view()[i as int]));
            assert(own.deep_view().take(n as int) =~= before.take(n as int));
        }
        assert(own.deep_view() =~= start + missing_entries(p, start));
        i = i + 1;
    }
    assert(other.deep_view().take(i as int) =~= other.deep_view());
}

} // verus!
