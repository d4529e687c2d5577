//! The configuration of the tool: the registries that the user has added.

use vstd::prelude::*;
use vstd::string::*;

verus! {

pub const API_VERSION: &'static str = "mistletoe.dev/v1alpha1";

pub const KIND: &'static str = "MistletoeConfig";

/// The configuration document.
#[derive(Debug)]
pub struct ConfigLayout {
    pub api_version: String,
    pub kind: String,
    pub spec: SpecLayout,
}

#[derive(Debug)]
pub struct SpecLayout {
    pub registries: Vec<RegistryLayout>,
}

/// A registry: its name, its remotes, and the name of the remote to use.
#[derive(PartialEq, Debug)]
pub struct RegistryLayout {
    pub name: String,
    pub default_remote: String,
    pub remotes: Vec<RemoteLayout>,
}

/// Where a registry is fetched from.
#[derive(PartialEq, Debug)]
pub enum RemoteLayout {
    Git { name: String, git: GitRemoteLayout },
}

#[derive(PartialEq, Debug)]
pub struct GitRemoteLayout {
    pub url: String,
}

/// The index of the first of `names` that is `name`.
pub open spec fn position(names: Seq<Seq<char>>, name: Seq<char>) -> Option<int>
    decreases names.len(),
{
    if names.len() == 0 {
        None
    } else {
        match position(names.drop_last(), name) {
            Some(i) => Some(i),
            None => if names.last() == name {
                Some(names.len() - 1)
            } else {
                None
            },
        }
    }
}

/// A name found among the first stays the one found among all.
pub(crate) proof fn lemma_position_stays(names: Seq<Seq<char>>, name: Seq<char>, i: int)
    requires
        0 <= i < names.len(),
        position(names.subrange(0, i + 1), name) is Some,
    ensures
        position(names, name) == position(names.subrange(0, i + 1), name),
    decreases names.len() - i,
{
    if i + 1 == names.len() {
        assert(names.subrange(0, i + 1) =~= names);
    } else {
        assert(names.subrange(0, i + 2).drop_last() =~= names.subrange(0, i + 1));
        lemma_position_stays(names, name, i + 1);
    }
}

pub open spec fn registry_names(registries: Seq<RegistryLayout>) -> Seq<Seq<char>> {
    Seq::new(registries.len(), |i: int| registries[i].name@)
}

pub open spec fn remote_names(remotes: Seq<RemoteLayout>) -> Seq<Seq<char>> {
    Seq::new(remotes.len(), |i: int| remotes[i].name_text())
}

impl Clone for GitRemoteLayout {
    fn clone(&self) -> (r: Self)
        ensures
            r == *self,
    {
        GitRemoteLayout { url: self.url.clone() }
    }
}

impl Clone for RemoteLayout {
    fn clone(&self) -> (r: Self)
        ensures
            r == *self,
    {
        match self {
            RemoteLayout::Git { name, git } => RemoteLayout::Git {
                name: name.clone(),
                git: git.clone(),
            },
        }
    }
}

impl Clone for RegistryLayout {
    fn clone(&self) -> (r: Self)
        ensures
            r.name == self.name,
            r.default_remote == self.default_remote,
            r.remotes@ == self.remotes@,
    {
        let mut remotes: Vec<RemoteLayout> = Vec::new();
        let mut i: usize = 0;
        while i < self.remotes.len()
            invariant
                i <= self.remotes.len(),
                remotes@ == self.remotes@.subrange(0, i as int),
            decreases self.remotes.len() - i,
        {
            remotes.push(self.remotes[i].clone());
            assert(remotes@ =~= self.remotes@.subrange(0, i + 1));
            i = i + 1;
        }
        assert(self.remotes@.subrange(0, self.remotes.len() as int) =~= self.remotes@);
        RegistryLayout {
            name: self.name.clone(),
            default_remote: self.default_remote.clone(),
            remotes,
        }
    }
}

impl RemoteLayout {
    pub open spec fn name_text(self) -> Seq<char> {
        match self {
            RemoteLayout::Git { name, git } => name@,
        }
    }

    pub open spec fn url_text(self) -> Seq<char> {
        match self {
            RemoteLayout::Git { name, git } => git.url@,
        }
    }

    /// The name of the remote.
    pub fn name(&self) -> (r: &str)
        ensures
            r@ == self.name_text(),
    {
        match self {
            RemoteLayout::Git { name, git: _ } => name.as_str(),
        }
    }

    /// The address that the remote is fetched from.
    pub fn url(&self) -> (r: &str)
        ensures
            r@ == self.url_text(),
    {
        match self {
            RemoteLayout::Git { name: _, git } => git.url.as_str(),
        }
    }
}

impl ConfigLayout {
    /// A configuration without registries.
    pub fn new() -> (r: Self)
        ensures
            r.spec.registries@.len() == 0,
            r.api_version@ == "mistletoe.dev/v1alpha1"@,
            r.kind@ == "MistletoeConfig"@,
    {
        ConfigLayout {
            api_version: String::from_str(API_VERSION),
            kind: String::from_str(KIND),
            spec: SpecLayout { registries: Vec::new() },
        }
    }
}

impl SpecLayout {
    /// The index of the first registry of the given name.
    pub fn find_registry(&self, name: &str) -> (r: Option<usize>)
        ensures
            match r {
                Some(i) => position(registry_names(self.registries@), name@) == Some(i as int)
                    && i < self.registries.len() && self.registries@[i as int].name@ == name@,
                None => position(registry_names(self.registries@), name@) is None,
            },
    {
        let wanted = name.to_owned();
        let ghost names = registry_names(self.registries@);
        let mut i: usize = 0;
        while i < self.registries.len()
            invariant
                i <= self.registries.len(),
                wanted@ == name@,
                names == registry_names(self.registries@),
                position(names.subrange(0, i as int), name@) is None,
            decreases self.registries.len() - i,
        {
            proof {
                assert(names.subrange(0, i + 1).drop_last() =~= names.subrange(0, i as int));
                assert(names.subrange(0, i + 1).last() == self.registries@[i as int].name@);
            }
            if self.registries[i].name == wanted {
                proof {
                    lemma_position_stays(names, name@, i as int);
                }
                return Some(i);
            }
            i = i + 1;
        }
        assert(names.subrange(0, self.registries.len() as int) =~= names);
        None
    }

    /// The first registry of the given name.
    pub fn lookup_registry(&self, name: &str) -> (r: Option<&RegistryLayout>)
        ensures
            match r {
                Some(found) => position(registry_names(self.registries@), name@) matches Some(i)
                    && *found == self.registries@[i],
                None => position(registry_names(self.registries@), name@) is None,
            },
    {
        match self.find_registry(name) {
            Some(i) => Some(&self.registries[i]),
            None => None,
        }
    }

    /// The first registry of the given name, to be changed in place.
    pub fn lookup_registry_mut(&mut self, name: &str) -> (r: Option<&mut RegistryLayout>)
        ensures
            match r {
                Some(found) => position(registry_names(old(self).registries@), name@) matches Some(
                    i,
                ) && *found == old(self).registries@[i] && final(self).registries@ == old(self).registries@.update(i, *final(found)),
                None => position(registry_names(old(self).registries@), name@) is None && *final(self) == *old(self),
            },
    {
        match self.find_registry(name) {
            Some(i) => Some(&mut self.registries[i]),
            None => None,
        }
    }
}

impl RegistryLayout {
    /// The index of the first remote of the given name.
    pub fn find_remote(&self, name: &str) -> (r: Option<usize>)
        ensures
            match r {
                Some(i) => position(remote_names(self.remotes@), name@) == Some(i as int) && i
                    < self.remotes.len() && self.remotes@[i as int].name_text() == name@,
                None => position(remote_names(self.remotes@), name@) is None,
            },
    {
        let ghost names = remote_names(self.remotes@);
        let mut i: usize = 0;
        while i < self.remotes.len()
            invariant
                i <= self.remotes.len(),
                names == remote_names(self.remotes@),
                position(names.subrange(0, i as int), name@) is None,
            decreases self.remotes.len() - i,
        {
            proof {
                assert(names.subrange(0, i + 1).drop_last() =~= names.subrange(0, i as int));
                assert(names.subrange(0, i + 1).last() == self.remotes@[i as int].name_text());
            }
            if crate::text::str_eq(self.remotes[i].name(), name) {
                proof {
                    lemma_position_stays(names, name@, i as int);
                }
                return Some(i);
            }
            i = i + 1;
        }
        assert(names.subrange(0, self.remotes.len() as int) =~= names);
        None
    }

    /// The first remote of the given name.
    pub fn lookup_remote(&self, name: &str) -> (r: Option<&RemoteLayout>)
        ensures
            match r {
                Some(found) => position(remote_names(self.remotes@), name@) matches Some(i)
                    && *found == self.remotes@[i],
                None => position(remote_names(self.remotes@), name@) is None,
            },
    {
        match self.find_remote(name) {
            Some(i) => Some(&self.remotes[i]),
            None => None,
        }
    }

    /// The first remote of the given name, to be changed in place.
    pub fn lookup_remote_mut(&mut self, name: &str) -> (r: Option<&mut RemoteLayout>)
        ensures
            match r {
                Some(found) => position(remote_names(old(self).remotes@), name@) matches Some(i)
                    && *found == old(self).remotes@[i] && final(self).remotes@ == old(self).remotes@.update(i, *final(found)) && final(self).name == old(self).name
                    && final(self).default_remote == old(self).default_remote,
                None => position(remote_names(old(self).remotes@), name@) is None && *final(self)
                    == *old(self),
            },
    {
        match self.find_remote(name) {
            Some(i) => Some(&mut self.remotes[i]),
            None => None,
        }
    }

    /// The remote that the registry names as the one to use.
    pub fn lookup_default_remote(&self) -> (r: Option<&RemoteLayout>)
        ensures
            match r {
                Some(found) => position(remote_names(self.remotes@), self.default_remote@)
                    matches Some(i) && *found == self.remotes@[i],
                None => position(remote_names(self.remotes@), self.default_remote@) is None,
            },
    {
        match self.find_remote(self.default_remote.as_str()) {
            Some(i) => Some(&self.remotes[i]),
            None => None,
        }
    }

    /// The remote that the registry names as the one to use, to be changed in place.
    pub fn lookup_default_remote_mut(&mut self) -> (r: Option<&mut RemoteLayout>)
        ensures
            match r {
                Some(found) => position(
                    remote_names(old(self).remotes@),
                    old(self).default_remote@,
                ) matches Some(i) && *found == old(self).remotes@[i] && final(self).remotes@
                    == old(self).remotes@.update(i, *final(found)) && final(self).name == old(self).name && final(self).default_remote == old(self).default_remote,
                None => position(remote_names(old(self).remotes@), old(self).default_remote@)
                    is None && *final(self) == *old(self),
            },
    {
        match self.find_remote(self.default_remote.as_str()) {
            Some(i) => Some(&mut self.remotes[i]),
            None => None,
        }
    }
}

} // verus!
