//! What the resolver sub-process is asked, how its exit is judged, and the timed cache of
//! its results.
use vstd::prelude::*;
use vstd::string::*;
use crate::access::PathAccessData;
use crate::data::KodiResult;
use crate::report::{ExitStatus, KodiError};
use crate::text::{split_on, split_spec};

verus! {

#[verifier::external_type_specification]
#[verifier::external_body]
#[verifier::reject_recursive_types(K)]
#[verifier::reject_recursive_types(V)]
#[verifier::reject_recursive_types(S)]
pub struct ExLruTtlCache<K, V, S>(cached::LruTtlCache<K, V, S>);

/// What identifies a descriptor: its path, inputs, and each preference list with its flag.
pub type AccessKey = (Seq<char>, Seq<Seq<char>>, Seq<Seq<char>>, Seq<Seq<char>>, Seq<Seq<char>>, bool, bool, bool);

pub open spec fn access_key(a: PathAccessData) -> AccessKey {
    (
        a.path@,
        a.input.deep_view(),
        a.config.languages(),
        a.config.resolutions(),
        a.config.formats(),
        a.config.language_order.no_child,
        a.config.resolution_order.no_child,
        a.config.format_order.no_child,
    )
}

/// The entries a timed cache holds, expired or not, by descriptor.
pub uninterp spec fn cache_entries(c: cached::LruTtlCache<PathAccessData, KodiResult>) -> Map<AccessKey, KodiResult>;

/// The largest capacity a cache is built with; the store is allocated up front.
pub const MAX_CACHE_SIZE: usize = 65536;

/// Relies on `cached::LruTtlCache::new`: an empty store of `size` entries whose entries
/// expire after `ttl_secs` seconds; it panics on a zero size or lifetime.
#[verifier::external_body]
fn new_timed_cache(size: usize, ttl_secs: u64) -> (r: cached::LruTtlCache<PathAccessData, KodiResult>)
    requires
        0 < size <= MAX_CACHE_SIZE,
        ttl_secs > 0,
    ensures
        cache_entries(r).dom() == Set::<AccessKey>::empty(),
{
    cached::LruTtlCache::new(size, std::time::Duration::from_secs(ttl_secs))
}

/// Relies on `cached::Cached::cache_get` of `LruTtlCache`: a hit is a copy of the entry stored
/// under an equal key; the call may drop entries, never add one.
#[verifier::external_body]
fn timed_cache_get(c: &mut cached::LruTtlCache<PathAccessData, KodiResult>, key: &PathAccessData) -> (r: Option<KodiResult>)
    ensures
        cache_entries(*final(c)).submap_of(cache_entries(*old(c))),
        r matches Some(v) ==> cache_entries(*old(c)).contains_key(access_key(*key))
            && cache_entries(*old(c))[access_key(*key)] == v,
{
    cached::Cached::cache_get(c, key).cloned()
}

/// Relies on `cached::Cached::cache_set` of `LruTtlCache`: the entry is stored under its key,
/// replacing an entry of an equal key; others may be dropped to respect the capacity.
#[verifier::external_body]
fn timed_cache_set(c: &mut cached::LruTtlCache<PathAccessData, KodiResult>, key: PathAccessData, value: KodiResult)
    ensures
        cache_entries(*final(c)).contains_key(access_key(key)),
        cache_entries(*final(c))[access_key(key)] == value,
        cache_entries(*final(c)).submap_of(cache_entries(*old(c)).insert(access_key(key), value)),
{
    cached::Cached::cache_set(c, key, value);
}

/// The timed, bounded cache of successful resolver results, shared by all workers behind
/// one lock. It remembers, as a ghost record, every result it was given.
pub struct ResolverCache {
    cache: cached::LruTtlCache<PathAccessData, KodiResult>,
    produced: Ghost<Set<(AccessKey, KodiResult)>>,
}

impl ResolverCache {
    /// Every entry of the store is a result that was given for its descriptor.
    pub closed spec fn wf(&self) -> bool {
        forall|k: AccessKey|
            #[trigger] cache_entries(self.cache).contains_key(k) ==> self.produced@.contains(
                (k, cache_entries(self.cache)[k]),
            )
    }

    /// The entries the store holds, expired or not, by descriptor.
    pub closed spec fn entries(&self) -> Map<AccessKey, KodiResult> {
        cache_entries(self.cache)
    }

    /// The results given to the cache so far, with their descriptors.
    pub closed spec fn produced(&self) -> Set<(AccessKey, KodiResult)> {
        self.produced@
    }

    /// An empty cache of `size` entries (one at least, `MAX_CACHE_SIZE` at most) whose
    /// entries expire after `ttl_secs` seconds (one at least).
    pub fn new(size: usize, ttl_secs: u64) -> (r: Self)
        ensures
            r.wf(),
            r.produced() == Set::<(AccessKey, KodiResult)>::empty(),
    {
        let size = if size == 0 {
            1
        } else if size > MAX_CACHE_SIZE {
            MAX_CACHE_SIZE
        } else {
            size
        };
        let ttl = if ttl_secs == 0 {
            1
        } else {
            ttl_secs
        };
        ResolverCache { cache: new_timed_cache(size, ttl), produced: Ghost(Set::empty()) }
    }

    /// A result stored for `access`, if one is still there. Whatever comes back was given to
    /// the cache for that very descriptor.
    pub fn get(&mut self, access: &PathAccessData) -> (r: Option<KodiResult>)
        requires
            old(self).wf(),
        ensures
            final(self).wf(),
            final(self).produced() == old(self).produced(),
            r matches Some(v) ==> old(self).produced().contains((access_key(*access), v)),
    {
        let ghost before = cache_entries(self.cache);
        let r = timed_cache_get(&mut self.cache, access);
        assert forall|k: AccessKey| #[trigger] cache_entries(self.cache).contains_key(k) implies self.produced@.contains(
            (k, cache_entries(self.cache)[k]),
        ) by {
            assert(before.contains_key(k));
            assert(before[k] == cache_entries(self.cache)[k]);
        }
        r
    }

    /// Stores a successful result for `access`: the store then maps that descriptor to it,
    /// and other entries may only have been dropped to respect the capacity.
    pub fn insert(&mut self, access: PathAccessData, result: KodiResult)
        requires
            old(self).wf(),
        ensures
            final(self).wf(),
            final(self).entries().contains_key(access_key(access)),
            final(self).entries()[access_key(access)] == result,
            final(self).entries().submap_of(old(self).entries().insert(access_key(access), result)),
            final(self).produced() == old(self).produced().insert((access_key(access), result)),
    {
        let ghost key = access_key(access);
        let ghost before = cache_entries(self.cache);
        proof {
            self.produced@ = self.produced@.insert((key, result));
        }
        timed_cache_set(&mut self.cache, access, result);
        assert forall|k: AccessKey| #[trigger] cache_entries(self.cache).contains_key(k) implies self.produced@.contains(
            (k, cache_entries(self.cache)[k]),
        ) by {
            if k != key {
                assert(before.insert(key, result).contains_key(k));
            }
        }
    }
}

/// How to invoke the resolver: the plugin root, the interpreter, whether to capture its output
/// and to run it in a sandbox, and the paths the sandbox may read.
pub struct Kodi {
    pub kodi_config_path: String,
    pub python_command: String,
    pub global_tempdir: String,
    pub interface_path: String,
    pub cache_time: u64,
    pub cache_size: usize,
    pub catch_stdout: bool,
    pub sandbox_call: bool,
    pub allowed_path: Vec<String>,
}

/// `-I` before each input.
pub open spec fn input_args(inputs: Seq<Seq<char>>) -> Seq<Seq<char>>
    decreases inputs.len(),
{
    if inputs.len() == 0 {
        Seq::<Seq<char>>::empty()
    } else {
        input_args(inputs.drop_last()) + seq!["-I"@, inputs.last()]
    }
}

/// `-AL key` before each value.
pub open spec fn list_args(key: Seq<char>, values: Seq<Seq<char>>) -> Seq<Seq<char>>
    decreases values.len(),
{
    if values.len() == 0 {
        Seq::<Seq<char>>::empty()
    } else {
        list_args(key, values.drop_last()) + seq!["-AL"@, key, values.last()]
    }
}

/// `--ro-bind-try path path` for each path.
pub open spec fn ro_binds(paths: Seq<Seq<char>>) -> Seq<Seq<char>>
    decreases paths.len(),
{
    if paths.len() == 0 {
        Seq::<Seq<char>>::empty()
    } else {
        ro_binds(paths.drop_last()) + seq!["--ro-bind-try"@, paths.last(), paths.last()]
    }
}

impl Kodi {
    /// The arguments of the helper script for `access`, writing its result to `tempory_file`.
    pub open spec fn arguments_spec(&self, tempory_file: Seq<char>, access: PathAccessData) -> Seq<Seq<char>> {
        seq![self.interface_path@, self.kodi_config_path@, access.path@, tempory_file] + input_args(
            access.input.deep_view(),
        ) + list_args("language_order"@, access.config.languages()) + list_args(
            "resolution_order"@,
            access.config.resolutions(),
        ) + list_args("format_order"@, access.config.formats())
    }

    /// The paths the sandbox may read: the plugin root, system directories, the helper's
    /// directory, each entry of the library search path, and the configured paths.
    pub open spec fn readable_paths(&self, python_path: Seq<char>) -> Seq<Seq<char>> {
        seq![self.kodi_config_path@, "/nix"@, "/gnu"@, "/usr"@, "/bin"@, self.global_tempdir@]
            + split_spec(python_path, ':') + self.allowed_path.deep_view()
    }

    /// The whole command: wrapped in the sandbox when asked (its bindings end with `--`), then
    /// the interpreter and the helper's arguments.
    pub open spec fn command_spec(&self, result_dir: Seq<char>, tempory_file: Seq<char>, python_path: Seq<char>, access: PathAccessData) -> Seq<Seq<char>> {
        (if self.sandbox_call {
            seq!["bwrap"@] + ro_binds(self.readable_paths(python_path)) + seq!["--bind"@, result_dir, result_dir, "--"@]
        } else {
            Seq::<Seq<char>>::empty()
        }) + seq![self.python_command@] + self.arguments_spec(tempory_file, access)
    }

    /// Settings for a plugin root, with the helper script extracted into `global_tempdir` at
    /// `interface_path`, a cache lifetime and size, `python2`, captured output, sandboxed.
    pub fn new(kodi_config_path: String, global_tempdir: String, interface_path: String, cache_time: u64, cache_size: usize) -> (r: Self)
        ensures
            r.kodi_config_path == kodi_config_path,
            r.global_tempdir == global_tempdir,
            r.interface_path == interface_path,
            r.cache_time == cache_time,
            r.cache_size == cache_size,
            r.python_command@ == "python2"@,
            r.catch_stdout,
            r.sandbox_call,
            r.allowed_path@.len() == 0,
    {
        Kodi {
            kodi_config_path,
            python_command: "python2".to_owned(),
            global_tempdir,
            interface_path,
            cache_time,
            cache_size,
            catch_stdout: true,
            sandbox_call: true,
            allowed_path: Vec::new(),
        }
    }

    /// Sets the interpreter command.
    pub fn set_python_command(&mut self, command: String)
        ensures
            final(self).python_command == command,
            final(self).catch_stdout == old(self).catch_stdout,
            final(self).sandbox_call == old(self).sandbox_call,
    {
        self.python_command = command;
    }

    /// Sets whether the plugin's output is captured (else it goes to the terminal).
    pub fn set_catch_stdout(&mut self, catch_stdout: bool)
        ensures
            final(self).catch_stdout == catch_stdout,
            final(self).python_command == old(self).python_command,
            final(self).sandbox_call == old(self).sandbox_call,
    {
        self.catch_stdout = catch_stdout;
    }

    /// Sets whether the plugin runs in a sandbox.
    pub fn sandbox_call(&mut self, sandbox_call: bool)
        ensures
            final(self).sandbox_call == sandbox_call,
            final(self).python_command == old(self).python_command,
            final(self).catch_stdout == old(self).catch_stdout,
    {
        self.sandbox_call = sandbox_call;
    }

    /// A fresh cache sized and timed by these settings.
    pub fn new_cache(&self) -> (r: ResolverCache)
        ensures
            r.wf(),
            r.produced() == Set::<(AccessKey, KodiResult)>::empty(),
    {
        ResolverCache::new(self.cache_size, self.cache_time)
    }

    /// The arguments of the helper script.
    pub fn get_arguments(&self, tempory_file: &str, access: &PathAccessData) -> (r: Vec<String>)
        ensures
            r.deep_view() == self.arguments_spec(tempory_file@, *access),
    {
        let mut result: Vec<String> = Vec::new();
        result.push(self.interface_path.clone());
        result.push(self.kodi_config_path.clone());
        result.push(access.path.clone());
        result.push(tempory_file.to_owned());
        assert(result.deep_view() =~= seq![self.interface_path@, self.kodi_config_path@, access.path@, tempory_file@]
            + input_args(access.input.deep_view().take(0)));
        let ghost head = seq![self.interface_path@, self.kodi_config_path@, access.path@, tempory_file@];
        let mut i: usize = 0;
        while i < access.input.len()
            invariant
                i <= access.input.len(),
                result.deep_view() == head + input_args(access.input.deep_view().take(i as int)),
            decreases access.input.len() - i,
        {
            let ghost p = access.input.deep_view().take(i as int + 1);
            assert(p.drop_last() =~= access.input.deep_view().take(i as int));
            assert(p.last() == access.input[i as int]@);
            let ghost before = result.deep_view();
            result.push("-I".to_owned());
            result.push(access.input[i].clone());
            assert(result.deep_view() =~= before + seq!["-I"@, access.input[i as int]@]);
            assert(result.deep_view() =~= head + input_args(p));
            i = i + 1;
        }
        assert(access.input.deep_view().take(i as int) =~= access.input.deep_view());
        push_list_args(&mut result, "language_order", &access.config.language_order.value);
        push_list_args(&mut result, "resolution_order", &access.config.resolution_order.value);
        push_list_args(&mut result, "format_order", &access.config.format_order.value);
        result
    }

    /// The whole command line of one resolver call, `python_path` being the library search
    /// path of the environment.
    pub fn get_commands(&self, result_dir: &str, tempory_file: &str, python_path: &str, access: &PathAccessData) -> (r: Vec<String>)
        ensures
            r.deep_view() == self.command_spec(result_dir@, tempory_file@, python_path@, *access),
    {
        let mut result: Vec<String> = Vec::new();
        if self.sandbox_call {
            result.push("bwrap".to_owned());
            let mut paths: Vec<String> = Vec::new();
            paths.push(self.kodi_config_path.clone());
            paths.push("/nix".to_owned());
            paths.push("/gnu".to_owned());
            paths.push("/usr".to_owned());
            paths.push("/bin".to_owned());
            paths.push(self.global_tempdir.clone());
            let ghost fixed = paths.deep_view();
            let mut pieces = split_on(python_path, ':');
            paths.append(&mut pieces);
            let mut allowed = crate::user_config::copy_strings(&self.allowed_path);
            let ghost mid = paths.deep_view();
            paths.append(&mut allowed);
            assert(paths.deep_view() =~= self.readable_paths(python_path@));
            push_ro_binds(&mut result, &paths);
            let ghost b = result.deep_view();
            result.push("--bind".to_owned());
            result.push(result_dir.to_owned());
            result.push(result_dir.to_owned());
            result.push("--".to_owned());
            assert(result.deep_view() =~= b + seq!["--bind"@, result_dir@, result_dir@, "--"@]);
        }
        let ghost c = result.deep_view();
        result.push(self.python_command.clone());
        let mut args = self.get_arguments(tempory_file, access);
        let ghost a = args.deep_view();
        result.append(&mut args);
        assert(result.deep_view() =~= c + seq![self.python_command@] + a);
        assert(result.deep_view() =~= self.command_spec(result_dir@, tempory_file@, python_path@, *access));
        result
    }
}

fn push_list_args(result: &mut Vec<String>, key: &str, values: &Vec<String>)
    ensures
        final(result).deep_view() == old(result).deep_view() + list_args(key@, values.deep_view()),
{
    let ghost start = result.deep_view();
    let mut i: usize = 0;
    assert(start =~= start + list_args(key@, values.deep_view().take(0)));
    while i < values.len()
        invariant
            i <= values.len(),
            result.deep_view() == start + list_args(key@, values.deep_view().take(i as int)),
        decreases values.len() - i,
    {
        let ghost p = values.deep_view().take(i as int + 1);
        assert(p.drop_last() =~= values.deep_view().take(i as int));
        assert(p.last() == values[i as int]@);
        let ghost before = result.deep_view();
        result.push("-AL".to_owned());
        result.push(key.to_owned());
        result.push(values[i].clone());
        assert(result.deep_view() =~= before + seq!["-AL"@, key@, values[i as int]@]);
        assert(result.deep_view() =~= start + list_args(key@, p));
        i = i + 1;
    }
    assert(values.deep_view().take(i as int) =~= values.deep_view());
}

fn push_ro_binds(result: &mut Vec<String>, paths: &Vec<String>)
    ensures
        final(result).deep_view() == old(result).deep_view() + ro_binds(paths.deep_view()),
{
    let ghost start = result.deep_view();
    let mut i: usize = 0;
    assert(start =~= start + ro_binds(paths.deep_view().take(0)));
    while i < paths.len()
        invariant
            i <= paths.len(),
            result.deep_view() == start + ro_binds(paths.deep_view().take(i as int)),
        decreases paths.len() - i,
    {
        let ghost p = paths.deep_view().take(i as int + 1);
        assert(p.drop_last() =~= paths.deep_view().take(i as int));
        assert(p.last() == paths[i as int]@);
        let ghost before = result.deep_view();
        result.push("--ro-bind-try".to_owned());
        result.push(paths[i].clone());
        result.push(paths[i].clone());
        assert(result.deep_view() =~= before + seq!["--ro-bind-try"@, paths[i as int]@, paths[i as int]@]);
        assert(result.deep_view() =~= start + ro_binds(p));
        i = i + 1;
    }
    assert(paths.deep_view().take(i as int) =~= paths.deep_view());
}

/// How a finished resolver process is judged: a zero exit lets its result file be read;
/// any other exit is a failure that carries the captured output, if any.
pub fn judge_exit(status: ExitStatus, output: Option<String>) -> (r: Result<(), KodiError>)
    ensures
        status == ExitStatus::Exited(0) ==> r is Ok,
        status != ExitStatus::Exited(0) ==> (r matches Err(KodiError::NonZeroResult(o, s)) && o == output && s
            == status),
{
    match status {
        ExitStatus::Exited(0) => Ok(()),
        _ => Err(KodiError::NonZeroResult(output, status)),
    }
}

} // verus!
