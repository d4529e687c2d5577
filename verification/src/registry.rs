//! Registries of packages: which remote a registry is fetched from, and where a package of
//! a registry lies on disk. Fetching and looking at the disk are left to the caller.

use crate::config::{position, registry_names, remote_names, ConfigLayout, RemoteLayout};
use crate::reference::{path_segments, segments};
use crate::text::{chars_of, str_eq, views};
use vstd::prelude::*;
use vstd::string::*;

verus! {

/// A remote of a registry.
#[derive(Debug)]
pub struct Remote {
    pub registry_name: String,
    pub layout: RemoteLayout,
}

/// Why a registry cannot be used.
#[derive(Debug)]
pub enum RegistryError {
    /// No registry of this name is configured.
    RegistryNotFound(String),
    /// The registry, first, names a default remote, second, that it does not have.
    DefaultRemoteMissing(String, String),
}

impl RegistryError {
    pub open spec fn message_text(self) -> Seq<char> {
        match self {
            RegistryError::RegistryNotFound(name) => "could not find registry with the name \""@
                + name@ + "\""@,
            RegistryError::DefaultRemoteMissing(name, remote) => "registry \""@ + name@
                + "\" did not have a remote by the default name \""@ + remote@ + "\""@,
        }
    }

    /// The text shown to the user.
    pub fn message(&self) -> (r: String)
        ensures
            r@ == self.message_text(),
    {
        match self {
            RegistryError::RegistryNotFound(name) => {
                let mut r = String::from_str("could not find registry with the name \"");
                r.append(name.as_str());
                r.append("\"");
                r
            },
            RegistryError::DefaultRemoteMissing(name, remote) => {
                let mut r = String::from_str("registry \"");
                r.append(name.as_str());
                r.append("\" did not have a remote by the default name \"");
                r.append(remote.as_str());
                r.append("\"");
                r
            },
        }
    }
}

/// The default remote of the first registry of the given name: the index of the registry
/// and, in it, of the remote. `Err(None)` where there is no such registry, `Err(Some(i))`
/// where registry `i` lacks the remote that it names.
pub open spec fn default_remote_at(config: ConfigLayout, name: Seq<char>) -> Result<
    (int, int),
    Option<int>,
> {
    match position(registry_names(config.spec.registries@), name) {
        None => Err(None),
        Some(i) => match position(
            remote_names(config.spec.registries@[i].remotes@),
            config.spec.registries@[i].default_remote@,
        ) {
            None => Err(Some(i)),
            Some(j) => Ok((i, j)),
        },
    }
}

/// Whether `e` is the error of looking for the default remote of the registry of the given
/// name: the error carries the name, and the name of the remote that is missing.
pub open spec fn is_registry_error(config: ConfigLayout, name: Seq<char>, e: RegistryError) -> bool {
    match e {
        RegistryError::RegistryNotFound(n) => default_remote_at(config, name) == Err::<
            (int, int),
            _,
        >(None::<int>) && n@ == name,
        RegistryError::DefaultRemoteMissing(n, d) => default_remote_at(config, name) matches Err(
            Some(i),
        ) && n@ == name && d@ == config.spec.registries@[i].default_remote@,
    }
}

/// Whether `remote` is the default remote of the first registry of the given name.
pub open spec fn is_default_remote(config: ConfigLayout, name: Seq<char>, remote: Remote) -> bool {
    default_remote_at(config, name) matches Ok((i, j)) && remote.registry_name@ == name
        && remote.layout == config.spec.registries@[i].remotes@[j]
}

/// A path and one more part of it.
pub open spec fn path_join(base: Seq<char>, more: Seq<char>, sep: char) -> Seq<char> {
    base + seq![sep] + more
}

/// The last segment of a path, where the path has one that is not `..`.
pub open spec fn file_name(path: Seq<char>, sep: char) -> Option<Seq<char>> {
    let found = segments(path, sep);
    if found.len() == 0 || found.last() == ".."@ {
        None
    } else {
        Some(found.last())
    }
}

/// The name of the artifact of a package: the last segment of the package path, a dash,
/// the version, and the suffix of artifacts.
pub open spec fn artifact_name(stem: Seq<char>, version: Seq<char>) -> Seq<char> {
    stem + "-"@ + version + ".mist-pack.wasm"@
}

/// Where the artifact of a package lies below the directory of registries.
pub open spec fn artifact_path(
    registries: Seq<char>,
    registry: Seq<char>,
    package: Seq<char>,
    version: Seq<char>,
    sep: char,
) -> Option<Seq<char>> {
    match file_name(package, sep) {
        None => None,
        Some(stem) => Some(
            path_join(
                path_join(path_join(registries, registry, sep), package, sep),
                artifact_name(stem, version),
                sep,
            ),
        ),
    }
}

/// Appends one more part to a path.
pub fn push_path(base: &mut String, more: &str, sep: char)
    ensures
        final(base)@ == path_join(old(base)@, more@, sep),
{
    base.push(sep);
    base.append(more);
}

impl Remote {
    pub fn new(registry_name: String, layout: RemoteLayout) -> (r: Self)
        ensures
            r.registry_name == registry_name,
            r.layout == layout,
    {
        Remote { registry_name, layout }
    }

    /// The remote that the first registry of the given name uses by default.
    pub fn default_for_name(name: &str, config: &ConfigLayout) -> (r: Result<Self, RegistryError>)
        ensures
            match r {
                Ok(remote) => is_default_remote(*config, name@, remote),
                Err(e) => is_registry_error(*config, name@, e),
            },
    {
        proof {
            lemma_position_names(registry_names(config.spec.registries@), name@);
        }
        let registry = match config.spec.lookup_registry(name) {
            None => { return Err(RegistryError::RegistryNotFound(String::from_str(name))); },
            Some(registry) => registry,
        };
        proof {
            lemma_position_names(remote_names(registry.remotes@), registry.default_remote@);
        }
        match registry.lookup_default_remote() {
            None => Err(
                RegistryError::DefaultRemoteMissing(
                    String::from_str(name),
                    registry.default_remote.clone(),
                ),
            ),
            Some(remote) => {
                proof {
                    let i = position(registry_names(config.spec.registries@), name@)->0;
                    assert(registry_names(config.spec.registries@)[i] == name@);
                    assert(registry.name@ == name@);
                }
                Ok(Remote::new(registry.name.clone(), remote.clone()))
            },
        }
    }

    /// The address that the remote is fetched from.
    pub fn url(&self) -> (r: &str)
        ensures
            r@ == self.layout.url_text(),
    {
        self.layout.url()
    }

    /// The directory of the registry below the directory of registries.
    pub fn get_local_registry_path(&self, registries: &str, sep: char) -> (r: String)
        ensures
            r@ == path_join(registries@, self.registry_name@, sep),
    {
        let mut r = String::from_str(registries);
        push_path(&mut r, self.registry_name.as_str(), sep);
        r
    }

    /// Where the artifact of the package in the given version lies, if it is there: below
    /// the directory of the registry, in the directory of the package, under the name of the
    /// package, a dash, the version and `.mist-pack.wasm`. `None` where the package path
    /// names no file.
    pub fn lookup_package(&self, registries: &str, package: &str, version: &str, sep: char) -> (r:
        Option<String>)
        ensures
            match r {
                Some(path) => artifact_path(
                    registries@,
                    self.registry_name@,
                    package@,
                    version@,
                    sep,
                ) == Some(path@),
                None => artifact_path(registries@, self.registry_name@, package@, version@, sep)
                    is None,
            },
    {
        let chars = chars_of(package);
        let found = path_segments(&chars, chars.len(), sep);
        assert(chars@.subrange(0, chars.len() as int) =~= package@);
        if found.len() == 0 {
            return None;
        }
        let stem = &found[found.len() - 1];
        assert(views(found@).last() == stem@);
        if str_eq(stem.as_str(), "..") {
            return None;
        }
        let mut file = stem.clone();
        file.append("-");
        file.append(version);
        file.append(".mist-pack.wasm");
        let mut path = self.get_local_registry_path(registries, sep);
        push_path(&mut path, package, sep);
        push_path(&mut path, file.as_str(), sep);
        Some(path)
    }
}

/// A name that is found stands at the index where it is found.
pub(crate) proof fn lemma_position_names(names: Seq<Seq<char>>, name: Seq<char>)
    ensures
        position(names, name) matches Some(i) ==> 0 <= i < names.len() && names[i] == name,
    decreases names.len(),
{
    if names.len() > 0 {
        lemma_position_names(names.drop_last(), name);
    }
}

/// Those of `found` that are not among `declared`, in order.
pub open spec fn stale_among(found: Seq<Seq<char>>, declared: Seq<Seq<char>>) -> Seq<Seq<char>>
    decreases found.len(),
{
    if found.len() == 0 {
        Seq::empty()
    } else {
        let done = stale_among(found.drop_last(), declared);
        if declared.contains(found.last()) {
            done
        } else {
            done.push(found.last())
        }
    }
}

/// What is to be done to bring the registries on disk in line with the configuration.
#[derive(Debug)]
pub struct RegistryPlan {
    /// Directories of registries that are no longer configured, to be removed.
    pub remove: Vec<String>,
    /// The remotes to fetch and to pull, in the order of the configuration.
    pub sync: Vec<Remote>,
    /// The error to stop with once the remotes before it are done.
    pub failure: Option<RegistryError>,
}

/// The number of configured registries, counted from the first, whose default remote is
/// found.
pub open spec fn usable_prefix(config: ConfigLayout, n: int) -> int
    decreases n,
{
    if n <= 0 {
        0
    } else {
        let before = usable_prefix(config, n - 1);
        if before == n - 1 && default_remote_at(config, config.spec.registries@[n - 1].name@)
            is Ok {
            n
        } else {
            before
        }
    }
}

/// Plans the cleaning and fetching of registries: every directory found that bears the name
/// of no configured registry is removed; then every configured registry is fetched from its
/// default remote, in order, up to the first that has none.
pub fn process_registries(found: &Vec<String>, config: &ConfigLayout) -> (r: RegistryPlan)
    ensures
        views(r.remove@) == stale_among(views(found@), registry_names(config.spec.registries@)),
        r.sync@.len() == usable_prefix(*config, config.spec.registries@.len() as int),
        forall|k: int|
            0 <= k < r.sync@.len() ==> is_default_remote(
                *config,
                config.spec.registries@[k].name@,
                #[trigger] r.sync@[k],
            ),
        match r.failure {
            Some(e) => r.sync@.len() < config.spec.registries@.len() && is_registry_error(
                *config,
                config.spec.registries@[r.sync@.len() as int].name@,
                e,
            ),
            None => r.sync@.len() == config.spec.registries@.len(),
        },
{
    let ghost declared = registry_names(config.spec.registries@);
    let mut remove: Vec<String> = Vec::new();
    let mut i: usize = 0;
    assert(views(remove@) =~= Seq::empty());
    while i < found.len()
        invariant
            i <= found.len(),
            declared == registry_names(config.spec.registries@),
            views(remove@) == stale_among(views(found@).subrange(0, i as int), declared),
        decreases found.len() - i,
    {
        let ghost had = views(remove@);
        proof {
            assert(views(found@).subrange(0, i + 1).drop_last() =~= views(found@).subrange(
                0,
                i as int,
            ));
            assert(views(found@).subrange(0, i + 1).last() == found@[i as int]@);
        }
        match config.spec.find_registry(found[i].as_str()) {
            Some(k) => {
                assert(declared[k as int] == found@[i as int]@);
            },
            None => {
                proof {
                    lemma_position_none(declared, found@[i as int]@);
                }
                remove.push(found[i].clone());
                assert(views(remove@) =~= had.push(found@[i as int]@));
            },
        }
        i = i + 1;
    }
    assert(views(found@).subrange(0, found.len() as int) =~= views(found@));
    let mut sync: Vec<Remote> = Vec::new();
    let mut failure: Option<RegistryError> = None;
    let mut k: usize = 0;
    while k < config.spec.registries.len()
        invariant
            k <= config.spec.registries.len(),
            sync@.len() == k,
            views(remove@) == stale_among(
                views(found@),
                registry_names(config.spec.registries@),
            ),
            usable_prefix(*config, k as int) == k,
            failure is None,
            forall|n: int|
                0 <= n < k ==> is_default_remote(
                    *config,
                    config.spec.registries@[n].name@,
                    #[trigger] sync@[n],
                ),
        decreases config.spec.registries.len() - k,
    {
        match Remote::default_for_name(config.spec.registries[k].name.as_str(), config) {
            Ok(remote) => {
                sync.push(remote);
            },
            Err(e) => {
                failure = Some(e);
                proof {
                    lemma_usable_prefix_stops(
                        *config,
                        k as int,
                        config.spec.registries@.len() as int,
                    );
                }
                return RegistryPlan { remove, sync, failure };
            },
        }
        k = k + 1;
    }
    RegistryPlan { remove, sync, failure }
}

/// A name that is found nowhere is none of the names.
pub(crate) proof fn lemma_position_none(names: Seq<Seq<char>>, name: Seq<char>)
    requires
        position(names, name) is None,
    ensures
        !names.contains(name),
    decreases names.len(),
{
    if names.len() > 0 {
        lemma_position_none(names.drop_last(), name);
        if names.contains(name) {
            let i = choose|i: int| 0 <= i < names.len() && names[i] == name;
            if i < names.len() - 1 {
                assert(names.drop_last()[i] == name);
            }
        }
    }
}

/// Once a registry has no default remote, no later registry is counted.
pub(crate) proof fn lemma_usable_prefix_stops(config: ConfigLayout, k: int, n: int)
    requires
        0 <= k < n <= config.spec.registries@.len(),
        usable_prefix(config, k) == k,
        default_remote_at(config, config.spec.registries@[k].name@) is Err,
    ensures
        usable_prefix(config, n) == k,
    decreases n - k,
{
    if n == k + 1 {
    } else {
        lemma_usable_prefix_stops(config, k, n - 1);
    }
}

} // verus!
