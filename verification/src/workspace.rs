use vstd::prelude::*;

use crate::command::CommandError;
use crate::index::{PackageIdentifier, PackageType};
use crate::resolver::{cand_in_range, cand_version};
use crate::semver::{spec_le, spec_parse, SemVer, VersionOrder};
use crate::semver::{lemma_seq_lt_trichotomy, lemma_spec_le_trans};

verus! {

/// One installed module tracked by the workspace registry.
#[derive(Clone, Debug)]
pub struct InstalledModule {
    pub name: String,
    pub version: String,
    /// Path of the module's manifest, relative to the workspace root.
    pub manifest_path: String,
    pub package_type: PackageType,
    pub dependencies: Vec<PackageIdentifier>,
}

/// A configured remote: a named backend to publish to and install from.
#[derive(Clone, Debug)]
pub struct Remote {
    pub name: String,
    pub url: String,
}

/// The registry of installed modules and configured remotes rooted at a
/// directory. It exists on disk only where the marker subdirectory is present.
#[derive(Clone, Debug)]
pub struct Workspace {
    pub root: String,
    pub installed_modules: Vec<InstalledModule>,
    pub remotes: Vec<Remote>,
}

/// Whether two registry entries identify the same module install.
pub open spec fn same_module_key(a: InstalledModule, b: InstalledModule) -> bool {
    a.name@ == b.name@ && a.version@ == b.version@
}

impl Workspace {
    /// `(name, version)` pairs are unique, and remote names are unique.
    pub open spec fn wf(self) -> bool {
        &&& forall|i: int, j: int|
            0 <= i < j < self.installed_modules@.len() ==> !same_module_key(
                #[trigger] self.installed_modules@[i],
                #[trigger] self.installed_modules@[j],
            )
        &&& forall|i: int, j: int|
            0 <= i < j < self.remotes@.len() ==> (#[trigger] self.remotes@[i]).name@ != (
            #[trigger] self.remotes@[j]).name@
    }

    pub open spec fn spec_has_module(self, name: Seq<char>, version: Seq<char>) -> bool {
        exists|i: int|
            0 <= i < self.installed_modules@.len() && (
            #[trigger] self.installed_modules@[i]).name@ == name
                && self.installed_modules@[i].version@ == version
    }

    /// A fresh, empty registry for `root`.
    pub fn new(root: String) -> (ws: Workspace)
        ensures
            ws.wf(),
            ws.root == root,
            ws.installed_modules@.len() == 0,
            ws.remotes@.len() == 0,
    {
        Workspace { root, installed_modules: Vec::new(), remotes: Vec::new() }
    }

    /// Decides an `init`: a directory already inside a workspace (itself or
    /// any ancestor carrying the marker) cannot be initialized again.
    pub fn init(root: String, enclosing_root: Option<String>) -> (r: Result<
        Workspace,
        CommandError,
    >)
        ensures
            r is Ok <==> enclosing_root is None,
            r is Err ==> r.unwrap_err() is AlreadyInWorkspace,
            r is Ok ==> {
                let ws = r.unwrap();
                &&& ws.wf()
                &&& ws.root == root
                &&& ws.installed_modules@.len() == 0
                &&& ws.remotes@.len() == 0
            },
    {
        match enclosing_root {
            Some(_) => Err(
                CommandError::AlreadyInWorkspace {
                    message: String::from_str("directory is already under a workspace"),
                },
            ),
            None => Ok(Workspace::new(root)),
        }
    }

    /// Decides a `load`: without the marker there is no workspace, and a
    /// registry whose `(name, version)` pairs or remote names collide is
    /// rejected as corrupt.
    pub fn load(
        root: String,
        marker_present: bool,
        installed_modules: Vec<InstalledModule>,
        remotes: Vec<Remote>,
    ) -> (r: Result<Workspace, CommandError>)
        ensures
            !marker_present ==> r is Err && r.unwrap_err() is NotAWorkspace,
            marker_present ==> {
                let ws = Workspace { root, installed_modules, remotes };
                &&& r is Ok <==> ws.wf()
                &&& r is Err ==> r.unwrap_err() is IOError
                &&& r is Ok ==> r.unwrap() == ws
            },
    {
        if !marker_present {
            return Err(
                CommandError::NotAWorkspace {
                    message: String::from_str("no workspace marker found at the directory"),
                },
            );
        }
        let ws = Workspace { root, installed_modules, remotes };
        if !ws.check_wf() {
            return Err(
                CommandError::IOError {
                    message: String::from_str("the registry on disk holds colliding entries"),
                },
            );
        }
        Ok(ws)
    }

    /// Checks the registry invariant.
    fn check_wf(&self) -> (r: bool)
        ensures
            r == self.wf(),
    {
        let n = self.installed_modules.len();
        let mut i: usize = 0;
        while i < n
            invariant
                0 <= i <= n,
                n == self.installed_modules@.len(),
                forall|a: int, b: int|
                    0 <= a < b < self.installed_modules@.len() && a < i ==> !same_module_key(
                        #[trigger] self.installed_modules@[a],
                        #[trigger] self.installed_modules@[b],
                    ),
            decreases n - i,
        {
            let mut j: usize = i + 1;
            while j < n
                invariant
                    0 <= i < j <= n,
                    n == self.installed_modules@.len(),
                    forall|b: int|
                        i < b < j ==> !same_module_key(
                            self.installed_modules@[i as int],
                            #[trigger] self.installed_modules@[b],
                        ),
                decreases n - j,
            {
                let a = &self.installed_modules[i];
                let b = &self.installed_modules[j];
                if a.name.eq(&b.name) && a.version.eq(&b.version) {
                    return false;
                }
                j = j + 1;
            }
            i = i + 1;
        }
        let rn = self.remotes.len();
        let mut i: usize = 0;
        while i < rn
            invariant
                0 <= i <= rn,
                rn == self.remotes@.len(),
                forall|a: int, b: int|
                    0 <= a < b < self.installed_modules@.len() ==> !same_module_key(
                        #[trigger] self.installed_modules@[a],
                        #[trigger] self.installed_modules@[b],
                    ),
                forall|a: int, b: int|
                    0 <= a < b < self.remotes@.len() && a < i ==> (
                    #[trigger] self.remotes@[a]).name@ != (#[trigger] self.remotes@[b]).name@,
            decreases rn - i,
        {
            let mut j: usize = i + 1;
            while j < rn
                invariant
                    0 <= i < j <= rn,
                    rn == self.remotes@.len(),
                    forall|b: int|
                        i < b < j ==> (self.remotes@[i as int]).name@ != (
                        #[trigger] self.remotes@[b]).name@,
                decreases rn - j,
            {
                if self.remotes[i].name.eq(&self.remotes[j].name) {
                    return false;
                }
                j = j + 1;
            }
            i = i + 1;
        }
        true
    }

    /// Registers an installed module. Re-installing the same `(name, version)`
    /// overwrites the entry in place; with `dry_run` set nothing changes.
    pub fn install_module(&mut self, module: InstalledModule, dry_run: bool)
        requires
            old(self).wf(),
        ensures
            final(self).wf(),
            final(self).root == old(self).root,
            final(self).remotes == old(self).remotes,
            dry_run ==> *final(self) == *old(self),
            !dry_run && old(self).spec_has_module(module.name@, module.version@) ==> exists|i: int|
                {
                    &&& 0 <= i < old(self).installed_modules@.len()
                    &&& same_module_key(#[trigger] old(self).installed_modules@[i], module)
                    &&& final(self).installed_modules@ == old(self).installed_modules@.update(
                        i,
                        module,
                    )
                },
            !dry_run && !old(self).spec_has_module(module.name@, module.version@)
                ==> final(self).installed_modules@ == old(self).installed_modules@.push(module),
    {
        if dry_run {
            return ;
        }
        let found = find_module_key_index(&self.installed_modules, &module.name, &module.version);
        let ghost old_mods = self.installed_modules@;
        match found {
            Some(i) => {
                proof {
                    assert(old_mods[i as int].name@ == module.name@);
                    assert(old(self).spec_has_module(module.name@, module.version@));
                }
                self.installed_modules.remove(i);
                self.installed_modules.insert(i, module);
                proof {
                    assert(self.installed_modules@ =~= old_mods.update(i as int, module));
                    assert forall|a: int, b: int|
                        0 <= a < b < self.installed_modules@.len() implies !same_module_key(
                        #[trigger] self.installed_modules@[a],
                        #[trigger] self.installed_modules@[b],
                    ) by {
                        assert(!same_module_key(old_mods[a], old_mods[b]));
                        assert(same_module_key(old_mods[i as int], module));
                    }
                }
            },
            None => {
                self.installed_modules.push(module);
                proof {
                    if old(self).spec_has_module(module.name@, module.version@) {
                        let i = choose|i: int|
                            0 <= i < old_mods.len() && (#[trigger] old_mods[i]).name@ == module.name@
                                && old_mods[i].version@ == module.version@;
                        assert(same_module_key(old_mods[i], module));
                        assert(false);
                    }
                    assert forall|a: int, b: int|
                        0 <= a < b < self.installed_modules@.len() implies !same_module_key(
                        #[trigger] self.installed_modules@[a],
                        #[trigger] self.installed_modules@[b],
                    ) by {
                        if b < old_mods.len() {
                            assert(!same_module_key(old_mods[a], old_mods[b]));
                        } else {
                            assert(self.installed_modules@[a] == old_mods[a]);
                            assert(self.installed_modules@[b] == module);
                        }
                    }
                }
            },
        }
    }

    /// Unregisters an installed module; absent `(name, version)` pairs are
    /// reported as not found. With `dry_run` set the registry is left
    /// untouched either way.
    pub fn remove_module(&mut self, name: &String, version: &String, dry_run: bool) -> (r: Result<
        (),
        CommandError,
    >)
        requires
            old(self).wf(),
        ensures
            final(self).wf(),
            final(self).root == old(self).root,
            final(self).remotes == old(self).remotes,
            r is Ok <==> old(self).spec_has_module(name@, version@),
            r is Err ==> r.unwrap_err() is NotFound && *final(self) == *old(self),
            dry_run ==> *final(self) == *old(self),
            r is Ok && !dry_run ==> exists|i: int|
                {
                    &&& 0 <= i < old(self).installed_modules@.len()
                    &&& (#[trigger] old(self).installed_modules@[i]).name@ == name@
                    &&& old(self).installed_modules@[i].version@ == version@
                    &&& final(self).installed_modules@ == old(self).installed_modules@.remove(i)
                },
    {
        let found = find_module_key_index(&self.installed_modules, name, version);
        match found {
            Some(i) => {
                proof {
                    assert(old(self).installed_modules@[i as int].name@ == name@);
                    assert(old(self).spec_has_module(name@, version@));
                }
                if dry_run {
                    return Ok(());
                }
                let ghost old_mods = self.installed_modules@;
                self.installed_modules.remove(i);
                proof {
                    assert forall|a: int, b: int|
                        0 <= a < b < self.installed_modules@.len() implies !same_module_key(
                        #[trigger] self.installed_modules@[a],
                        #[trigger] self.installed_modules@[b],
                    ) by {
                        let a0: int = if a < i { a } else { a + 1 };
                        let b0: int = if b < i { b } else { b + 1 };
                        assert(self.installed_modules@[a] == old_mods[a0]);
                        assert(self.installed_modules@[b] == old_mods[b0]);
                        assert(!same_module_key(old_mods[a0], old_mods[b0]));
                    }
                }
                Ok(())
            },
            None => {
                proof {
                    if old(self).spec_has_module(name@, version@) {
                        let i = choose|i: int|
                            0 <= i < old(self).installed_modules@.len() && (
                            #[trigger] old(self).installed_modules@[i]).name@ == name@ && old(
                                self,
                            ).installed_modules@[i].version@ == version@;
                        assert(false);
                    }
                }
                Err(
                    CommandError::NotFound {
                        message: String::from_str("no such module version is installed"),
                    },
                )
            },
        }
    }

    /// Looks up a configured remote by name.
    pub fn find_remote(&self, name: &String) -> (r: Option<&Remote>)
        ensures
            r is Some ==> r.unwrap().name@ == name@ && exists|i: int|
                0 <= i < self.remotes@.len() && #[trigger] self.remotes@[i] == *r.unwrap(),
            r is None ==> forall|i: int|
                0 <= i < self.remotes@.len() ==> (#[trigger] self.remotes@[i]).name@ != name@,
    {
        let n = self.remotes.len();
        let mut i: usize = 0;
        while i < n
            invariant
                0 <= i <= n,
                n == self.remotes@.len(),
                forall|j: int| 0 <= j < i ==> (#[trigger] self.remotes@[j]).name@ != name@,
            decreases n - i,
        {
            if self.remotes[i].name.eq(name) {
                return Some(&self.remotes[i]);
            }
            i = i + 1;
        }
        None
    }

    /// Range-mode resolution restricted to installed modules of one name:
    /// the highest installed version within the request's `major.minor`
    /// window, used when a dependency must be resolved without remote access.
    pub fn get_latest_installed_module_for_version(&self, name: &String, token: &str) -> (r:
        Result<&InstalledModule, CommandError>)
        ensures
            spec_parse(token@) is None ==> r is Err && r.unwrap_err() is InvalidArgument,
            spec_parse(token@) is Some && spec_parse(token@).unwrap().minor is None ==> r is Err
                && r.unwrap_err() is ImpreciseVersion,
            spec_parse(token@) is Some && spec_parse(token@).unwrap().minor is Some ==> {
                let req = spec_parse(token@).unwrap();
                &&& (r is Ok <==> exists|i: int|
                    0 <= i < self.installed_modules@.len() && (
                    #[trigger] self.installed_modules@[i]).name@ == name@ && cand_in_range(
                        req,
                        self.installed_modules@[i].version@,
                    ))
                &&& r is Err ==> r.unwrap_err() is NotFound
                &&& r is Ok ==> {
                    let m = *r.unwrap();
                    &&& exists|i: int|
                        0 <= i < self.installed_modules@.len()
                            && #[trigger] self.installed_modules@[i] == m
                    &&& m.name@ == name@
                    &&& cand_in_range(req, m.version@)
                    &&& forall|j: int|
                        0 <= j < self.installed_modules@.len() && (
                        #[trigger] self.installed_modules@[j]).name@ == name@ && cand_in_range(
                            req,
                            self.installed_modules@[j].version@,
                        ) ==> spec_le(
                            cand_version(self.installed_modules@[j].version@),
                            cand_version(m.version@),
                        )
                }
            },
    {
        let parsed = SemVer::parse_from_string(token);
        let req = match parsed {
            Some(v) => v,
            None => {
                return Err(
                    CommandError::InvalidArgument {
                        message: String::from_str(
                            "dependency version is not semantic-versioning compatible",
                        ),
                    },
                );
            },
        };
        if req.minor.is_none() {
            return Err(
                CommandError::ImpreciseVersion {
                    message: String::from_str("a major-only version cannot be matched"),
                },
            );
        }
        let n = self.installed_modules.len();
        let mut best: Option<(usize, SemVer)> = None;
        let mut i: usize = 0;
        while i < n
            invariant
                0 <= i <= n,
                n == self.installed_modules@.len(),
                req.minor is Some,
                spec_parse(token@) == Some(req),
                best is Some ==> {
                    let (bi, bv) = best.unwrap();
                    &&& bi < n
                    &&& self.installed_modules@[bi as int].name@ == name@
                    &&& spec_parse(self.installed_modules@[bi as int].version@) == Some(bv)
                    &&& req.spec_in_minor_range(bv)
                    &&& forall|j: int|
                        0 <= j < i && (#[trigger] self.installed_modules@[j]).name@ == name@
                            && cand_in_range(req, self.installed_modules@[j].version@) ==> spec_le(
                            cand_version(self.installed_modules@[j].version@),
                            bv,
                        )
                },
                best is None ==> forall|j: int|
                    0 <= j < i ==> !((#[trigger] self.installed_modules@[j]).name@ == name@
                        && cand_in_range(req, self.installed_modules@[j].version@)),
            decreases n - i,
        {
            if self.installed_modules[i].name.eq(name) {
                if let Some(v) = SemVer::parse_from_string(self.installed_modules[i].version.as_str()) {
                    if req.in_minor_range(&v) {
                        match best {
                            None => {
                                best = Some((i, v));
                            },
                            Some((bi, bv)) => {
                                if matches!(bv.range_cmp(&v), VersionOrder::Less) {
                                    proof {
                                        lemma_seq_lt_trichotomy(bv.comps(), v.comps());
                                        assert forall|j: int|
                                            0 <= j < i + 1 && (
                                            #[trigger] self.installed_modules@[j]).name@ == name@
                                                && cand_in_range(
                                                req,
                                                self.installed_modules@[j].version@,
                                            ) implies spec_le(
                                            cand_version(self.installed_modules@[j].version@),
                                            v,
                                        ) by {
                                            if j < i {
                                                lemma_spec_le_trans(
                                                    cand_version(
                                                        self.installed_modules@[j].version@,
                                                    ),
                                                    bv,
                                                    v,
                                                );
                                            }
                                        }
                                    }
                                    best = Some((i, v));
                                } else {
                                    proof {
                                        lemma_seq_lt_trichotomy(bv.comps(), v.comps());
                                        assert(spec_le(v, bv));
                                    }
                                }
                            },
                        }
                    }
                }
            }
            i = i + 1;
        }
        match best {
            Some((bi, _)) => Ok(&self.installed_modules[bi]),
            None => Err(
                CommandError::NotFound {
                    message: String::from_str(
                        "no installed version of the module satisfies the request",
                    ),
                },
            ),
        }
    }
}

/// Finds the registry entry with the given `(name, version)` key.
fn find_module_key_index(modules: &Vec<InstalledModule>, name: &String, version: &String) -> (r:
    Option<usize>)
    ensures
        r is Some ==> r.unwrap() < modules@.len() && modules@[r.unwrap() as int].name@ == name@
            && modules@[r.unwrap() as int].version@ == version@,
        r is None ==> forall|i: int|
            0 <= i < modules@.len() ==> !((#[trigger] modules@[i]).name@ == name@
                && modules@[i].version@ == version@),
{
    let n = modules.len();
    let mut i: usize = 0;
    while i < n
        invariant
            0 <= i <= n,
            n == modules@.len(),
            forall|j: int|
                0 <= j < i ==> !((#[trigger] modules@[j]).name@ == name@ && modules@[j].version@
                    == version@),
        decreases n - i,
    {
        if modules[i].name.eq(name) && modules[i].version.eq(version) {
            return Some(i);
        }
        i = i + 1;
    }
    None
}

} // verus!
