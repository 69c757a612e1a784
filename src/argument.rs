//! The command line a crawl was started with, and the shell command that reruns it.
use vstd::prelude::*;
use vstd::string::*;
use crate::text::{join_spec, push_char, str_eq};
use crate::user_config::{copy_strings, dict_get};

verus! {

/// Characters that a POSIX shell reads literally.
pub open spec fn shell_safe_char(c: char) -> bool {
    ('a' <= c <= 'z') || ('A' <= c <= 'Z') || ('0' <= c <= '9') || c == '-' || c == '_' || c
        == '=' || c == '/' || c == ',' || c == '.' || c == '+'
}

/// The characters of `s`, with `'` and `!` written so that they survive single quotes.
pub open spec fn shell_quoted_body(s: Seq<char>) -> Seq<char>
    decreases s.len(),
{
    if s.len() == 0 {
        s
    } else {
        shell_quoted_body(s.drop_last()) + if s.last() == '\'' || s.last() == '!' {
            seq!['\'', '\\', s.last(), '\'']
        } else {
            seq![s.last()]
        }
    }
}

/// `s` as one shell word: as it is when it is not empty and holds only safe characters,
/// else in single quotes.
pub open spec fn shell_escaped(s: Seq<char>) -> Seq<char> {
    if s.len() > 0 && forall|i: int| 0 <= i < s.len() ==> shell_safe_char(#[trigger] s[i]) {
        s
    } else {
        seq!['\''] + shell_quoted_body(s) + seq!['\'']
    }
}

/// Relies on `shell_escape::unix::escape`: safe non-empty words are kept, anything else is
/// single-quoted with `'` and `!` escaped.
#[verifier::external_body]
fn shell_escape_word(s: &str) -> (r: String)
    ensures
        r@ == shell_escaped(s@),
{
    shell_escape::unix::escape(std::borrow::Cow::from(s)).into_owned()
}

/// A command name, its options with values, its flags, and an optional sub-command.
///
/// `args` and `short_version` are key/value entries in which the last entry of a key counts;
/// `args_order` gives the order in which known options are written.
#[derive(Debug)]
pub struct AppArgument {
    pub command_name: String,
    pub args_order: Vec<String>,
    pub short_version: Vec<(String, String)>,
    pub args: Vec<(String, String)>,
    pub bool_set: Vec<String>,
    pub sub_command: Option<Box<AppArgument>>,
}

/// `d` without the entries whose key is `key`.
pub open spec fn dict_without(d: Seq<(Seq<char>, Seq<char>)>, key: Seq<char>) -> Seq<(Seq<char>, Seq<char>)>
    decreases d.len(),
{
    if d.len() == 0 {
        d
    } else if d.last().0 == key {
        dict_without(d.drop_last(), key)
    } else {
        dict_without(d.drop_last(), key).push(d.last())
    }
}

/// `s` without the elements equal to `x`.
pub open spec fn seq_without(s: Seq<Seq<char>>, x: Seq<char>) -> Seq<Seq<char>>
    decreases s.len(),
{
    if s.len() == 0 {
        s
    } else if s.last() == x {
        seq_without(s.drop_last(), x)
    } else {
        seq_without(s.drop_last(), x).push(s.last())
    }
}

/// Removing a key leaves the other keys' values as they were.
pub proof fn lemma_dict_without_get(d: Seq<(Seq<char>, Seq<char>)>, key: Seq<char>, other: Seq<char>)
    ensures
        dict_get(dict_without(d, key), other) == if other == key {
            None
        } else {
            dict_get(d, other)
        },
    decreases d.len(),
{
    if d.len() > 0 {
        lemma_dict_without_get(d.drop_last(), key, other);
        let w = dict_without(d.drop_last(), key);
        if d.last().0 != key {
            assert(w.push(d.last()).drop_last() =~= w);
        }
    }
}

/// Removing `x` keeps exactly the other elements.
pub proof fn lemma_seq_without_contains(s: Seq<Seq<char>>, x: Seq<char>, y: Seq<char>)
    ensures
        seq_without(s, x).contains(y) == (y != x && s.contains(y)),
    decreases s.len(),
{
    if s.len() > 0 {
        lemma_seq_without_contains(s.drop_last(), x, y);
        let w = seq_without(s.drop_last(), x);
        if s.contains(y) && y != s.last() {
            let k = choose|k: int| 0 <= k < s.len() && s[k] == y;
            assert(s.drop_last()[k] == y);
        }
        if s.drop_last().contains(y) {
            let k = choose|k: int| 0 <= k < s.len() - 1 && s.drop_last()[k] == y;
            assert(s[k] == y);
        }
        if s.last() != x {
            if w.push(s.last()).contains(y) && y != s.last() {
                let k = choose|k: int| 0 <= k < w.len() + 1 && w.push(s.last())[k] == y;
                assert(w[k] == y);
            }
            if w.contains(y) {
                let k = choose|k: int| 0 <= k < w.len() && w[k] == y;
                assert(w.push(s.last())[k] == y);
            }
            assert(w.push(s.last())[w.len() as int] == s.last());
        }
        assert(s[s.len() - 1] == s.last());
    }
}

impl AppArgument {
    /// Whether `key` is given, as an option with a value or as a flag.
    pub open spec fn present(&self, key: Seq<char>) -> bool {
        dict_get(self.args.deep_view(), key) is Some || self.bool_set.deep_view().contains(key)
    }

    /// How `key` is written: its short form after `-` when it has one, else `--key`.
    pub open spec fn flag_token(&self, key: Seq<char>) -> Seq<char> {
        match dict_get(self.short_version.deep_view(), key) {
            Some(s) => seq!['-'] + s,
            None => seq!['-', '-'] + key,
        }
    }

    /// The words of one option: its name, then its value when it has one.
    pub open spec fn single_tokens(&self, key: Seq<char>) -> Seq<Seq<char>> {
        seq![self.flag_token(key)] + match dict_get(self.args.deep_view(), key) {
            Some(v) => seq![v],
            None => Seq::<Seq<char>>::empty(),
        }
    }

    /// Whether `key` was written in the declared order.
    pub open spec fn written_in_order(&self, key: Seq<char>) -> bool {
        self.args_order.deep_view().contains(key) && self.present(key)
    }

    /// The words of the declared options that are given, in the declared order.
    pub open spec fn order_tokens(&self, keys: Seq<Seq<char>>) -> Seq<Seq<char>>
        decreases keys.len(),
    {
        if keys.len() == 0 {
            Seq::<Seq<char>>::empty()
        } else {
            self.order_tokens(keys.drop_last()) + if self.present(keys.last()) {
                self.single_tokens(keys.last())
            } else {
                Seq::<Seq<char>>::empty()
            }
        }
    }

    /// The words of the options with values that the declared order left out, each key once.
    pub open spec fn rest_arg_tokens(&self, entries: Seq<(Seq<char>, Seq<char>)>) -> Seq<Seq<char>>
        decreases entries.len(),
    {
        if entries.len() == 0 {
            Seq::<Seq<char>>::empty()
        } else {
            self.rest_arg_tokens(entries.drop_last()) + if self.written_in_order(entries.last().0)
                || dict_get(entries.drop_last(), entries.last().0) is Some {
                Seq::<Seq<char>>::empty()
            } else {
                self.single_tokens(entries.last().0)
            }
        }
    }

    /// The words of the flags that neither the declared order nor the options wrote, each once.
    pub open spec fn rest_flag_tokens(&self, flags: Seq<Seq<char>>) -> Seq<Seq<char>>
        decreases flags.len(),
    {
        if flags.len() == 0 {
            Seq::<Seq<char>>::empty()
        } else {
            self.rest_flag_tokens(flags.drop_last()) + if self.written_in_order(flags.last()) || dict_get(
                self.args.deep_view(),
                flags.last(),
            ) is Some || flags.drop_last().contains(flags.last()) {
                Seq::<Seq<char>>::empty()
            } else {
                self.single_tokens(flags.last())
            }
        }
    }

    /// The words of the command line: the command name, the declared options in order, the
    /// other options, the other flags, then the sub-command's words.
    pub open spec fn command_tokens(&self) -> Seq<Seq<char>>
        decreases self,
    {
        seq![self.command_name@] + self.order_tokens(self.args_order.deep_view())
            + self.rest_arg_tokens(self.args.deep_view()) + self.rest_flag_tokens(
            self.bool_set.deep_view(),
        ) + match self.sub_command {
            Some(sub) => sub.command_tokens(),
            None => Seq::<Seq<char>>::empty(),
        }
    }

    /// The value of option `key`, if it is given one.
    pub fn value_of(&self, key: &str) -> (r: Option<&str>)
        ensures
            r matches Some(s) ==> dict_get(self.args.deep_view(), key@) == Some(s@),
            r is None ==> dict_get(self.args.deep_view(), key@) is None,
    {
        let mut i: usize = self.args.len();
        assert(self.args.deep_view().take(i as int) =~= self.args.deep_view());
        while i > 0
            invariant
                i <= self.args.len(),
                dict_get(self.args.deep_view(), key@) == dict_get(self.args.deep_view().take(i as int), key@),
            decreases i,
        {
            let ghost prefix = self.args.deep_view().take(i as int);
            assert(prefix.drop_last() =~= self.args.deep_view().take(i as int - 1));
            assert(prefix.last() == self.args.deep_view()[i as int - 1]);
            if str_eq(self.args[i - 1].0.as_str(), key) {
                return Some(self.args[i - 1].1.as_str());
            }
            i = i - 1;
        }
        None
    }

    /// Whether `key` is given, as an option with a value or as a flag.
    pub fn is_present(&self, key: &str) -> (r: bool)
        ensures
            r == self.present(key@),
    {
        self.value_of(key).is_some() || contains_str(&self.bool_set, key)
    }

    fn short_of(&self, key: &str) -> (r: Option<&str>)
        ensures
            r matches Some(s) ==> dict_get(self.short_version.deep_view(), key@) == Some(s@),
            r is None ==> dict_get(self.short_version.deep_view(), key@) is None,
    {
        let mut i: usize = self.short_version.len();
        assert(self.short_version.deep_view().take(i as int) =~= self.short_version.deep_view());
        while i > 0
            invariant
                i <= self.short_version.len(),
                dict_get(self.short_version.deep_view(), key@) == dict_get(
                    self.short_version.deep_view().take(i as int),
                    key@,
                ),
            decreases i,
        {
            let ghost prefix = self.short_version.deep_view().take(i as int);
            assert(prefix.drop_last() =~= self.short_version.deep_view().take(i as int - 1));
            assert(prefix.last() == self.short_version.deep_view()[i as int - 1]);
            if str_eq(self.short_version[i - 1].0.as_str(), key) {
                return Some(self.short_version[i - 1].1.as_str());
            }
            i = i - 1;
        }
        None
    }

    /// Appends the words of option `key`.
    fn push_single_arg(&self, key: &str, vec: &mut Vec<String>)
        requires
            self.present(key@),
        ensures
            final(vec).deep_view() == old(vec).deep_view() + self.single_tokens(key@),
    {
        let ghost start = vec.deep_view();
        let mut flag = String::new();
        match self.short_of(key) {
            Some(s) => {
                push_char(&mut flag, '-');
                flag.append(s);
            },
            None => {
                push_char(&mut flag, '-');
                push_char(&mut flag, '-');
                flag.append(key);
            },
        }
        assert(flag@ =~= self.flag_token(key@));
        vec.push(flag);
        if let Some(value) = self.value_of(key) {
            vec.push(value.to_owned());
        }
        assert(vec.deep_view() =~= start + self.single_tokens(key@));
    }

    /// Appends the words of this command line to `vec`.
    pub fn add_argument_to_vec(&self, vec: &mut Vec<String>)
        ensures
            final(vec).deep_view() == old(vec).deep_view() + self.command_tokens(),
        decreases self,
    {
        let ghost start = vec.deep_view();
        vec.push(self.command_name.clone());
        assert(vec.deep_view() =~= start + seq![self.command_name@]);
        let ghost s1 = vec.deep_view();
        let mut i: usize = 0;
        while i < self.args_order.len()
            invariant
                i <= self.args_order.len(),
                vec.deep_view() == s1 + self.order_tokens(self.args_order.deep_view().take(i as int)),
            decreases self.args_order.len() - i,
        {
            let ghost p = self.args_order.deep_view().take(i as int + 1);
            assert(p.drop_last() =~= self.args_order.deep_view().take(i as int));
            assert(p.last() == self.args_order[i as int]@);
            let ghost before = vec.deep_view();
            if self.is_present(self.args_order[i].as_str()) {
                self.push_single_arg(self.args_order[i].as_str(), vec);
            }
            assert(vec.deep_view() =~= s1 + self.order_tokens(p));
            i = i + 1;
        }
        assert(self.args_order.deep_view().take(i as int) =~= self.args_order.deep_view());
        let ghost s2 = vec.deep_view();
        let mut j: usize = 0;
        while j < self.args.len()
            invariant
                j <= self.args.len(),
                vec.deep_view() == s2 + self.rest_arg_tokens(self.args.deep_view().take(j as int)),
            decreases self.args.len() - j,
        {
            let ghost p = self.args.deep_view().take(j as int + 1);
            assert(p.drop_last() =~= self.args.deep_view().take(j as int));
            assert(p.last() == self.args.deep_view()[j as int]);
            assert(self.args.deep_view()[j as int].0 == self.args[j as int].0@);
            let key = self.args[j].0.as_str();
            let in_order = contains_str(&self.args_order, key) && self.is_present(key);
            let earlier = key_before(&self.args, j, key);
            if !in_order && !earlier {
                proof {
                    lemma_dict_get_of_member(self.args.deep_view(), j as int);
                }
                self.push_single_arg(key, vec);
            }
            assert(vec.deep_view() =~= s2 + self.rest_arg_tokens(p));
            j = j + 1;
        }
        assert(self.args.deep_view().take(j as int) =~= self.args.deep_view());
        let ghost s3 = vec.deep_view();
        let mut k: usize = 0;
        while k < self.bool_set.len()
            invariant
                k <= self.bool_set.len(),
                vec.deep_view() == s3 + self.rest_flag_tokens(self.bool_set.deep_view().take(k as int)),
            decreases self.bool_set.len() - k,
        {
            let ghost p = self.bool_set.deep_view().take(k as int + 1);
            assert(p.drop_last() =~= self.bool_set.deep_view().take(k as int));
            assert(p.last() == self.bool_set[k as int]@);
            let key = self.bool_set[k].as_str();
            let in_order = contains_str(&self.args_order, key) && self.is_present(key);
            let written = self.value_of(key).is_some() || str_before(&self.bool_set, k, key);
            if !in_order && !written {
                assert(self.bool_set.deep_view()[k as int] == key@);
                self.push_single_arg(key, vec);
            }
            assert(vec.deep_view() =~= s3 + self.rest_flag_tokens(p));
            k = k + 1;
        }
        assert(self.bool_set.deep_view().take(k as int) =~= self.bool_set.deep_view());
        let ghost s4 = vec.deep_view();
        if let Some(sub) = &self.sub_command {
            sub.add_argument_to_vec(vec);
        }
        assert(vec.deep_view() =~= start + self.command_tokens());
    }

    /// The command line as one shell command: each word shell-escaped, joined by spaces.
    pub fn get_command_safe(&self) -> (r: String)
        ensures
            r@ == join_spec(self.command_tokens().map_values(|w: Seq<char>| shell_escaped(w)), ' '),
    {
        let mut words: Vec<String> = Vec::new();
        self.add_argument_to_vec(&mut words);
        assert(words.deep_view() =~= self.command_tokens());
        let ghost escaped = self.command_tokens().map_values(|w: Seq<char>| shell_escaped(w));
        let mut out = String::new();
        let mut i: usize = 0;
        while i < words.len()
            invariant
                i <= words.len(),
                words.deep_view() == self.command_tokens(),
                escaped == self.command_tokens().map_values(|w: Seq<char>| shell_escaped(w)),
                out@ == join_spec(escaped.take(i as int), ' '),
            decreases words.len() - i,
        {
            assert(escaped.take(i as int + 1).drop_last() =~= escaped.take(i as int));
            assert(escaped.take(i as int + 1).last() == shell_escaped(words[i as int]@));
            if i > 0 {
                push_char(&mut out, ' ');
            }
            let w = shell_escape_word(words[i].as_str());
            out.append(w.as_str());
            if i == 0 {
                assert(out@ =~= escaped.take(1)[0]);
            }
            i = i + 1;
        }
        assert(escaped.take(i as int) =~= escaped);
        out
    }
}

/// A key of some entry has a value.
pub proof fn lemma_dict_get_of_member(d: Seq<(Seq<char>, Seq<char>)>, j: int)
    requires
        0 <= j < d.len(),
    ensures
        dict_get(d, d[j].0) is Some,
    decreases d.len(),
{
    if j < d.len() - 1 && d.last().0 != d[j].0 {
        assert(d.drop_last()[j] == d[j]);
        lemma_dict_get_of_member(d.drop_last(), j);
    }
}

/// `d` with `key` set to `value`: its earlier entries are dropped and the new one comes last.
pub open spec fn dict_set(d: Seq<(Seq<char>, Seq<char>)>, key: Seq<char>, value: Seq<char>) -> Seq<(Seq<char>, Seq<char>)> {
    dict_without(d, key).push((key, value))
}

/// Setting a key gives it the new value and leaves the other keys' values as they were.
pub proof fn lemma_dict_set_get(d: Seq<(Seq<char>, Seq<char>)>, key: Seq<char>, value: Seq<char>, other: Seq<char>)
    ensures
        dict_get(dict_set(d, key, value), other) == if other == key {
            Some(value)
        } else {
            dict_get(d, other)
        },
{
    lemma_dict_without_get(d, key, other);
    assert(dict_set(d, key, value).drop_last() =~= dict_without(d, key));
}

fn dict_remove(d: &Vec<(String, String)>, key: &str) -> (r: Vec<(String, String)>)
    ensures
        r.deep_view() == dict_without(d.deep_view(), key@),
{
    let mut out: Vec<(String, String)> = Vec::new();
    let mut i: usize = 0;
    while i < d.len()
        invariant
            i <= d.len(),
            out.deep_view() == dict_without(d.deep_view().take(i as int), key@),
        decreases d.len() - i,
    {
        let ghost p = d.deep_view().take(i as int + 1);
        assert(p.drop_last() =~= d.deep_view().take(i as int));
        assert(p.last() == d.deep_view()[i as int]);
        assert(d.deep_view()[i as int] == (d[i as int].0@, d[i as int].1@));
        if !str_eq(d[i].0.as_str(), key) {
            let ghost before = out.deep_view();
            out.push((d[i].0.clone(), d[i].1.clone()));
            assert(out.deep_view() =~= before.push(d.deep_view()[i as int]));
        }
        i = i + 1;
    }
    assert(d.deep_view().take(i as int) =~= d.deep_view());
    out
}

fn dict_insert(d: &Vec<(String, String)>, key: &str, value: &str) -> (r: Vec<(String, String)>)
    ensures
        r.deep_view() == dict_set(d.deep_view(), key@, value@),
{
    let mut out = dict_remove(d, key);
    let ghost before = out.deep_view();
    out.push((key.to_owned(), value.to_owned()));
    assert(out.deep_view() =~= before.push((key@, value@)));
    out
}

fn strings_without(v: &Vec<String>, x: &str) -> (r: Vec<String>)
    ensures
        r.deep_view() == seq_without(v.deep_view(), x@),
{
    let mut out: Vec<String> = Vec::new();
    let mut i: usize = 0;
    while i < v.len()
        invariant
            i <= v.len(),
            out.deep_view() == seq_without(v.deep_view().take(i as int), x@),
        decreases v.len() - i,
    {
        let ghost p = v.deep_view().take(i as int + 1);
        assert(p.drop_last() =~= v.deep_view().take(i as int));
        assert(p.last() == v[i as int]@);
        if !str_eq(v[i].as_str(), x) {
            let ghost before = out.deep_view();
            out.push(v[i].clone());
            assert(out.deep_view() =~= before.push(v[i as int]@));
        }
        i = i + 1;
    }
    assert(v.deep_view().take(i as int) =~= v.deep_view());
    out
}

fn copy_dict(d: &Vec<(String, String)>) -> (r: Vec<(String, String)>)
    ensures
        r.deep_view() == d.deep_view(),
{
    let mut out: Vec<(String, String)> = Vec::new();
    let mut i: usize = 0;
    while i < d.len()
        invariant
            i <= d.len(),
            out.deep_view() == d.deep_view().take(i as int),
        decreases d.len() - i,
    {
        let ghost before = out.deep_view();
        assert(d.deep_view()[i as int] == (d[i as int].0@, d[i as int].1@));
        out.push((d[i].0.clone(), d[i].1.clone()));
        assert(out.deep_view() =~= before.push(d.deep_view()[i as int]));
        assert(out.deep_view() =~= d.deep_view().take(i as int + 1));
        i = i + 1;
    }
    assert(d.deep_view().take(i as int) =~= d.deep_view());
    out
}

impl AppArgument {
    /// The same command name, options, flags and sub-command.
    pub open spec fn same_as(&self, other: &AppArgument) -> bool
        decreases self,
    {
        &&& self.command_name@ == other.command_name@
        &&& self.args_order.deep_view() == other.args_order.deep_view()
        &&& self.short_version.deep_view() == other.short_version.deep_view()
        &&& self.args.deep_view() == other.args.deep_view()
        &&& self.bool_set.deep_view() == other.bool_set.deep_view()
        &&& match (self.sub_command, other.sub_command) {
            (Some(a), Some(b)) => a.same_as(&*b),
            (None, None) => true,
            _ => false,
        }
    }

    /// A copy with the same command name, options, flags and sub-command.
    pub fn duplicate(&self) -> (r: AppArgument)
        ensures
            self.same_as(&r),
        decreases self,
    {
        let sub = match &self.sub_command {
            Some(s) => Some(Box::new(s.duplicate())),
            None => None,
        };
        AppArgument {
            command_name: self.command_name.clone(),
            args_order: copy_strings(&self.args_order),
            short_version: copy_dict(&self.short_version),
            args: copy_dict(&self.args),
            bool_set: copy_strings(&self.bool_set),
            sub_command: sub,
        }
    }

    /// The command line that reruns one node alone: without `keep-going`, with
    /// `no-catch-output`, on one job, with `path` set to `child_path` and `parent-path` set to
    /// `parent_path` or removed.
    pub fn reproducer(&self, child_path: &str, parent_path: Option<&str>) -> (r: AppArgument)
        ensures
            r.command_name@ == self.command_name@,
            r.args_order.deep_view() == self.args_order.deep_view(),
            r.short_version.deep_view() == self.short_version.deep_view(),
            r.bool_set.deep_view() == seq_without(
                seq_without(self.bool_set.deep_view(), "keep-going"@),
                "no-catch-output"@,
            ).push("no-catch-output"@),
            r.args.deep_view() == match parent_path {
                Some(p) => dict_set(
                    dict_set(dict_set(self.args.deep_view(), "jobs"@, "1"@), "path"@, child_path@),
                    "parent-path"@,
                    p@,
                ),
                None => dict_without(
                    dict_set(dict_set(self.args.deep_view(), "jobs"@, "1"@), "path"@, child_path@),
                    "parent-path"@,
                ),
            },
            match (self.sub_command, r.sub_command) {
                (Some(a), Some(b)) => a.same_as(&*b),
                (None, None) => true,
                _ => false,
            },
    {
        let mut r = self.duplicate();
        let flags = strings_without(&r.bool_set, "keep-going");
        let mut flags = strings_without(&flags, "no-catch-output");
        flags.push(String::from_str("no-catch-output"));
        r.bool_set = flags;
        let args = dict_insert(&r.args, "jobs", "1");
        let args = dict_insert(&args, "path", child_path);
        r.args = match parent_path {
            Some(p) => dict_insert(&args, "parent-path", p),
            None => dict_remove(&args, "parent-path"),
        };
        r
    }
}

/// What a reproducer says of the run it starts: one job, the child's path, the parent's path
/// or none, no `keep-going` flag and the capture of the plugin's output disabled; every other
/// option keeps its value.
pub proof fn lemma_reproducer_reads_back(a: AppArgument, child_path: Seq<char>, parent_path: Option<Seq<char>>, r: AppArgument, key: Seq<char>)
    requires
        r.bool_set.deep_view() == seq_without(
            seq_without(a.bool_set.deep_view(), "keep-going"@),
            "no-catch-output"@,
        ).push("no-catch-output"@),
        r.args.deep_view() == match parent_path {
            Some(p) => dict_set(
                dict_set(dict_set(a.args.deep_view(), "jobs"@, "1"@), "path"@, child_path),
                "parent-path"@,
                p,
            ),
            None => dict_without(
                dict_set(dict_set(a.args.deep_view(), "jobs"@, "1"@), "path"@, child_path),
                "parent-path"@,
            ),
        },
    ensures
        dict_get(r.args.deep_view(), "jobs"@) == Some("1"@),
        dict_get(r.args.deep_view(), "path"@) == Some(child_path),
        dict_get(r.args.deep_view(), "parent-path"@) == parent_path,
        !r.bool_set.deep_view().contains("keep-going"@),
        r.present("no-catch-output"@),
        key != "jobs"@ && key != "path"@ && key != "parent-path"@ ==> dict_get(r.args.deep_view(), key)
            == dict_get(a.args.deep_view(), key),
{
    reveal_strlit("jobs");
    reveal_strlit("path");
    reveal_strlit("parent-path");
    reveal_strlit("keep-going");
    reveal_strlit("no-catch-output");
    assert("jobs"@[0] != "path"@[0]);
    assert("jobs"@ != "parent-path"@) by {
        assert("jobs"@.len() != "parent-path"@.len());
    }
    assert("path"@ != "parent-path"@) by {
        assert("path"@.len() != "parent-path"@.len());
    }
    assert("keep-going"@ != "no-catch-output"@) by {
        assert("keep-going"@.len() != "no-catch-output"@.len());
    }
    let d1 = dict_set(a.args.deep_view(), "jobs"@, "1"@);
    let d2 = dict_set(d1, "path"@, child_path);
    lemma_dict_set_get(a.args.deep_view(), "jobs"@, "1"@, "jobs"@);
    lemma_dict_set_get(a.args.deep_view(), "jobs"@, "1"@, key);
    lemma_dict_set_get(d1, "path"@, child_path, "jobs"@);
    lemma_dict_set_get(d1, "path"@, child_path, "path"@);
    lemma_dict_set_get(d1, "path"@, child_path, key);
    match parent_path {
        Some(p) => {
            lemma_dict_set_get(d2, "parent-path"@, p, "jobs"@);
            lemma_dict_set_get(d2, "parent-path"@, p, "path"@);
            lemma_dict_set_get(d2, "parent-path"@, p, "parent-path"@);
            lemma_dict_set_get(d2, "parent-path"@, p, key);
        },
        None => {
            lemma_dict_without_get(d2, "parent-path"@, "jobs"@);
            lemma_dict_without_get(d2, "parent-path"@, "path"@);
            lemma_dict_without_get(d2, "parent-path"@, "parent-path"@);
            lemma_dict_without_get(d2, "parent-path"@, key);
        },
    }
    let b1 = seq_without(a.bool_set.deep_view(), "keep-going"@);
    let b2 = seq_without(b1, "no-catch-output"@);
    lemma_seq_without_contains(a.bool_set.deep_view(), "keep-going"@, "keep-going"@);
    lemma_seq_without_contains(b1, "no-catch-output"@, "keep-going"@);
    if b2.push("no-catch-output"@).contains("keep-going"@) {
        let k = choose|k: int| 0 <= k < b2.len() + 1 && b2.push("no-catch-output"@)[k] == "keep-going"@;
        if k < b2.len() {
            assert(b2[k] == "keep-going"@);
        }
    }
    assert(b2.push("no-catch-output"@)[b2.len() as int] == "no-catch-output"@);
}

/// Whether one of the first `j` entries of `d` has the key `key`.
fn key_before(d: &Vec<(String, String)>, j: usize, key: &str) -> (r: bool)
    requires
        j <= d@.len(),
    ensures
        r == (dict_get(d.deep_view().take(j as int), key@) is Some),
{
    let mut i: usize = j;
    while i > 0
        invariant
            i <= j <= d@.len(),
            dict_get(d.deep_view().take(j as int), key@) == dict_get(d.deep_view().take(i as int), key@),
        decreases i,
    {
        let ghost prefix = d.deep_view().take(i as int);
        assert(prefix.drop_last() =~= d.deep_view().take(i as int - 1));
        assert(prefix.last() == d.deep_view()[i as int - 1]);
        assert(d.deep_view()[i as int - 1].0 == d[i as int - 1].0@);
        if str_eq(d[i - 1].0.as_str(), key) {
            return true;
        }
        i = i - 1;
    }
    false
}

/// Whether one of the first `k` strings of `v` equals `x`.
fn str_before(v: &Vec<String>, k: usize, x: &str) -> (r: bool)
    requires
        k <= v@.len(),
    ensures
        r == v.deep_view().take(k as int).contains(x@),
{
    let mut i: usize = 0;
    while i < k
        invariant
            i <= k <= v@.len(),
            forall|j: int| 0 <= j < i ==> v.deep_view()[j] != x@,
        decreases k - i,
    {
        if str_eq(v[i].as_str(), x) {
            assert(v.deep_view().take(k as int)[i as int] == x@);
            return true;
        }
        i = i + 1;
    }
    assert forall|j: int| 0 <= j < k implies v.deep_view().take(k as int)[j] != x@ by {
        assert(v.deep_view().take(k as int)[j] == v.deep_view()[j]);
    }
    false
}

/// Whether `v` holds a string equal to `x`.
pub fn contains_str(v: &Vec<String>, x: &str) -> (r: bool)
    ensures
        r == v.deep_view().contains(x@),
{
    let mut i: usize = 0;
    while i < v.len()
        invariant
            i <= v.len(),
            forall|j: int| 0 <= j < i ==> v.deep_view()[j] != x@,
        decreases v.len() - i,
    {
        if str_eq(v[i].as_str(), x) {
            assert(v.deep_view()[i as int] == x@);
            return true;
        }
        i = i + 1;
    }
    false
}

} // verus!
