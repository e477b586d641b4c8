use vstd::prelude::*;

use crate::command::CommandError;
use crate::semver::SemVer;

verus! {

/// The closed set of package kinds a manifest or a caller may declare.
#[derive(Clone, Copy, Debug, PartialEq, Eq, Structural)]
pub enum PackageType {
    Plugin,
    Subsystem,
    Nodos,
    Engine,
}

/// A dependency edge before resolution: a module name and a raw version text.
#[derive(Clone, Debug)]
pub struct PackageIdentifier {
    pub name: String,
    pub version: String,
}

/// One published release of a module: the unit of a remote catalog, immutable
/// once registered.
#[derive(Clone, Debug)]
pub struct PackageReleaseEntry {
    pub version: String,
    pub url: String,
    pub plugin_api_version: Option<SemVer>,
    pub subsystem_api_version: Option<SemVer>,
    pub release_date: Option<String>,
    pub dependencies: Option<Vec<PackageIdentifier>>,
    pub category: Option<String>,
    pub module_tags: Option<Vec<String>>,
    pub release_tags: Option<Vec<String>>,
    pub platform: Option<String>,
    pub min_required_api_minor_version: Option<u32>,
}

/// A module's published releases under one remote, with the vendor that owns
/// the name.
#[derive(Clone, Debug)]
pub struct IndexModule {
    pub name: String,
    pub vendor: String,
    pub releases: Vec<PackageReleaseEntry>,
}

/// A remote's catalog: one entry per module name.
#[derive(Clone, Debug)]
pub struct RemoteIndex {
    pub modules: Vec<IndexModule>,
}

/// The view of an optional string.
pub open spec fn opt_text(o: Option<String>) -> Option<Seq<char>> {
    match o {
        Some(s) => Some(s@),
        None => None,
    }
}

/// Two releases clash when they share a version and a platform: the catalog
/// key is the `(name, version, platform)` triple.
pub open spec fn same_release_key(a: PackageReleaseEntry, b: PackageReleaseEntry) -> bool {
    a.version@ == b.version@ && opt_text(a.platform) == opt_text(b.platform)
}

impl RemoteIndex {
    /// Module names are unique, and within a module no two releases share a
    /// `(version, platform)` key.
    pub open spec fn wf(self) -> bool {
        &&& forall|i: int, j: int|
            0 <= i < j < self.modules@.len() ==> (#[trigger] self.modules@[i]).name@ != (
            #[trigger] self.modules@[j]).name@
        &&& forall|m: int|
            0 <= m < self.modules@.len() ==> (#[trigger] self.modules@[m]).releases_wf()
    }

    pub open spec fn spec_has_module(self, name: Seq<char>) -> bool {
        exists|i: int| 0 <= i < self.modules@.len() && (#[trigger] self.modules@[i]).name@ == name
    }

    /// An empty catalog.
    pub fn new() -> (r: RemoteIndex)
        ensures
            r.wf(),
            r.modules@.len() == 0,
    {
        RemoteIndex { modules: Vec::new() }
    }

    /// Checks the catalog invariant, as a loaded cache of unknown provenance
    /// must be checked before it is used.
    pub fn check_wf(&self) -> (r: bool)
        ensures
            r == self.wf(),
    {
        let n = self.modules.len();
        let mut i: usize = 0;
        while i < n
            invariant
                0 <= i <= n,
                n == self.modules@.len(),
                forall|a: int, b: int|
                    0 <= a < b < self.modules@.len() && a < i ==> (
                    #[trigger] self.modules@[a]).name@ != (#[trigger] self.modules@[b]).name@,
            decreases n - i,
        {
            let mut j: usize = i + 1;
            while j < n
                invariant
                    0 <= i < j <= n,
                    n == self.modules@.len(),
                    forall|b: int|
                        i < b < j ==> (self.modules@[i as int]).name@ != (
                        #[trigger] self.modules@[b]).name@,
                decreases n - j,
            {
                if self.modules[i].name.eq(&self.modules[j].name) {
                    return false;
                }
                j = j + 1;
            }
            i = i + 1;
        }
        let mut m: usize = 0;
        while m < n
            invariant
                0 <= m <= n,
                n == self.modules@.len(),
                forall|a: int, b: int|
                    0 <= a < b < self.modules@.len() ==> (#[trigger] self.modules@[a]).name@ != (
                    #[trigger] self.modules@[b]).name@,
                forall|k: int| 0 <= k < m ==> (#[trigger] self.modules@[k]).releases_wf(),
            decreases n - m,
        {
            let releases = &self.modules[m].releases;
            let rn = releases.len();
            let mut i: usize = 0;
            while i < rn
                invariant
                    0 <= m < n,
                    n == self.modules@.len(),
                    0 <= i <= rn,
                    rn == releases@.len(),
                    releases@ == self.modules@[m as int].releases@,
                    forall|a: int, b: int|
                        0 <= a < b < releases@.len() && a < i ==> !same_release_key(
                            #[trigger] releases@[a],
                            #[trigger] releases@[b],
                        ),
                decreases rn - i,
            {
                let mut j: usize = i + 1;
                while j < rn
                    invariant
                        0 <= m < n,
                        n == self.modules@.len(),
                        0 <= i < j <= rn,
                        rn == releases@.len(),
                        releases@ == self.modules@[m as int].releases@,
                        forall|b: int|
                            i < b < j ==> !same_release_key(
                                releases@[i as int],
                                #[trigger] releases@[b],
                            ),
                    decreases rn - j,
                {
                    let ver_eq = releases[i].version.eq(&releases[j].version);
                    let plat_eq = match (&releases[i].platform, &releases[j].platform) {
                        (Some(a), Some(b)) => a.eq(b),
                        (None, None) => true,
                        _ => false,
                    };
                    if ver_eq && plat_eq {
                        proof {
                            assert(same_release_key(releases@[i as int], releases@[j as int]));
                            assert(!self.modules@[m as int].releases_wf());
                        }
                        return false;
                    }
                    j = j + 1;
                }
                i = i + 1;
            }
            m = m + 1;
        }
        true
    }

    /// Registers `entry` under `module_name`, overwriting any release with the
    /// same `(version, platform)` key (last write wins). A module name not yet
    /// in the catalog requires a vendor, since a first-time publish must
    /// declare ownership. With `dry_run` set, the catalog is left untouched and
    /// only the decision is reported.
    pub fn fetch_add(
        &mut self,
        dry_run: bool,
        module_name: &String,
        vendor: Option<&String>,
        entry: PackageReleaseEntry,
    ) -> (r: Result<(), CommandError>)
        requires
            old(self).wf(),
        ensures
            final(self).wf(),
            r is Err ==> *final(self) == *old(self) && r.unwrap_err() is InvalidArgument,
            r is Err <==> !old(self).spec_has_module(module_name@) && vendor is None,
            dry_run ==> *final(self) == *old(self),
            r is Ok && !dry_run && old(self).spec_has_module(module_name@) ==> exists|mi: int|
                {
                    &&& 0 <= mi < old(self).modules@.len()
                    &&& (#[trigger] old(self).modules@[mi]).name@ == module_name@
                    &&& final(self).modules@.len() == old(self).modules@.len()
                    &&& forall|k: int|
                        0 <= k < old(self).modules@.len() && k != mi ==> final(self).modules@[k]
                            == old(self).modules@[k]
                    &&& final(self).modules@[mi].name@ == module_name@
                    &&& final(self).modules@[mi].vendor == old(self).modules@[mi].vendor
                    &&& final(self).modules@[mi].spec_updated_with(old(self).modules@[mi], entry)
                },
            r is Ok && !dry_run && !old(self).spec_has_module(module_name@) ==> {
                &&& final(self).modules@.len() == old(self).modules@.len() + 1
                &&& final(self).modules@.subrange(0, old(self).modules@.len() as int) == old(
                    self,
                ).modules@
                &&& final(self).modules@.last().name@ == module_name@
                &&& final(self).modules@.last().vendor@ == vendor.unwrap()@
                &&& final(self).modules@.last().releases@ =~= seq![entry]
            },
    {
        let found = find_module_index(&self.modules, module_name);
        if found.is_none() && vendor.is_none() {
            return Err(
                CommandError::InvalidArgument {
                    message: String::from_str(
                        "a first-time publish must declare a vendor for the module",
                    ),
                },
            );
        }
        if dry_run {
            return Ok(());
        }
        match found {
            Some(mi) => {
                let ghost old_modules = self.modules@;
                let mut m = self.modules.remove(mi);
                let ghost old_m = m;
                m.add_release(entry);
                self.modules.insert(mi, m);
                proof {
                    assert(self.modules@ =~= old_modules.update(mi as int, m));
                    assert forall|i: int, j: int|
                        0 <= i < j < self.modules@.len() implies (#[trigger] self.modules@[i]).name@
                        != (#[trigger] self.modules@[j]).name@ by {
                        assert(old_modules[i].name@ != old_modules[j].name@);
                    }
                    assert forall|k: int|
                        0 <= k < self.modules@.len() implies (
                        #[trigger] self.modules@[k]).releases_wf() by {
                        if k != mi {
                            assert(self.modules@[k] == old_modules[k]);
                        }
                    }
                }
                Ok(())
            },
            None => {
                let v = match vendor {
                    Some(v) => v.clone(),
                    None => {
                        proof {
                            assert(false);
                        }
                        String::new()
                    },
                };
                let ghost old_modules = self.modules@;
                let mut releases: Vec<PackageReleaseEntry> = Vec::new();
                releases.push(entry);
                let m = IndexModule { name: module_name.clone(), vendor: v, releases };
                proof {
                    assert(m.releases_wf());
                }
                self.modules.push(m);
                proof {
                    assert(self.modules@ =~= old_modules.push(m));
                    assert(self.modules@.subrange(0, old_modules.len() as int) =~= old_modules);
                    assert forall|i: int, j: int|
                        0 <= i < j < self.modules@.len() implies (#[trigger] self.modules@[i]).name@
                        != (#[trigger] self.modules@[j]).name@ by {
                        if j < old_modules.len() {
                            assert(old_modules[i].name@ != old_modules[j].name@);
                        } else {
                            assert(self.modules@[j].name@ == module_name@);
                            assert(self.modules@[i] == old_modules[i]);
                            assert(!old(self).spec_has_module(module_name@));
                        }
                    }
                    assert forall|k: int|
                        0 <= k < self.modules@.len() implies (
                        #[trigger] self.modules@[k]).releases_wf() by {
                        if k < old_modules.len() {
                            assert(self.modules@[k] == old_modules[k]);
                        }
                    }
                }
                Ok(())
            },
        }
    }
}

impl RemoteIndex {
    /// Removes the release with the given `(name, version, platform)` key, as
    /// the compensation for a registration whose upload failed: the catalog
    /// must not keep referencing an artifact that was never uploaded. Reports
    /// whether the key was present; with `dry_run` set nothing changes.
    pub fn remove_release(
        &mut self,
        dry_run: bool,
        module_name: &String,
        version: &String,
        platform: &Option<String>,
    ) -> (r: Result<(), CommandError>)
        requires
            old(self).wf(),
        ensures
            final(self).wf(),
            dry_run ==> *final(self) == *old(self),
            r is Err ==> r.unwrap_err() is NotFound && *final(self) == *old(self),
            r is Ok <==> exists|mi: int, ri: int|
                {
                    &&& 0 <= mi < old(self).modules@.len()
                    &&& (#[trigger] old(self).modules@[mi]).name@ == module_name@
                    &&& 0 <= ri < old(self).modules@[mi].releases@.len()
                    &&& (#[trigger] old(self).modules@[mi].releases@[ri]).version@ == version@
                    &&& opt_text(old(self).modules@[mi].releases@[ri].platform) == opt_text(
                        *platform,
                    )
                },
            r is Ok && !dry_run ==> exists|mi: int, ri: int|
                {
                    &&& 0 <= mi < old(self).modules@.len()
                    &&& (#[trigger] old(self).modules@[mi]).name@ == module_name@
                    &&& 0 <= ri < old(self).modules@[mi].releases@.len()
                    &&& (#[trigger] old(self).modules@[mi].releases@[ri]).version@ == version@
                    &&& opt_text(old(self).modules@[mi].releases@[ri].platform) == opt_text(
                        *platform,
                    )
                    &&& final(self).modules@.len() == old(self).modules@.len()
                    &&& forall|k: int|
                        0 <= k < old(self).modules@.len() && k != mi ==> final(self).modules@[k]
                            == old(self).modules@[k]
                    &&& final(self).modules@[mi].name == old(self).modules@[mi].name
                    &&& final(self).modules@[mi].vendor == old(self).modules@[mi].vendor
                    &&& final(self).modules@[mi].releases@ == old(
                        self,
                    ).modules@[mi].releases@.remove(ri)
                },
    {
        let probe = PackageReleaseEntry {
            version: version.clone(),
            url: String::new(),
            plugin_api_version: None,
            subsystem_api_version: None,
            release_date: None,
            dependencies: None,
            category: None,
            module_tags: None,
            release_tags: None,
            platform: match platform {
                Some(p) => Some(p.clone()),
                None => None,
            },
            min_required_api_minor_version: None,
        };
        let found = find_module_index(&self.modules, module_name);
        match found {
            Some(mi) => {
                let ri = find_release_index(&self.modules[mi].releases, &probe);
                match ri {
                    Some(ri) => {
                        proof {
                            assert(same_release_key(
                                old(self).modules@[mi as int].releases@[ri as int],
                                probe,
                            ));
                        }
                        if dry_run {
                            return Ok(());
                        }
                        let ghost old_modules = self.modules@;
                        let mut m = self.modules.remove(mi);
                        let ghost old_releases = m.releases@;
                        m.releases.remove(ri);
                        proof {
                            assert forall|i: int, j: int|
                                0 <= i < j < m.releases@.len() implies !same_release_key(
                                #[trigger] m.releases@[i],
                                #[trigger] m.releases@[j],
                            ) by {
                                let i0: int = if i < ri { i } else { i + 1 };
                                let j0: int = if j < ri { j } else { j + 1 };
                                assert(m.releases@[i] == old_releases[i0]);
                                assert(m.releases@[j] == old_releases[j0]);
                                assert(!same_release_key(old_releases[i0], old_releases[j0]));
                            }
                        }
                        self.modules.insert(mi, m);
                        proof {
                            assert(self.modules@ =~= old_modules.update(mi as int, m));
                            assert forall|i: int, j: int|
                                0 <= i < j < self.modules@.len() implies (
                                #[trigger] self.modules@[i]).name@ != (
                                #[trigger] self.modules@[j]).name@ by {
                                assert(old_modules[i].name@ != old_modules[j].name@);
                            }
                            assert forall|k: int|
                                0 <= k < self.modules@.len() implies (
                                #[trigger] self.modules@[k]).releases_wf() by {
                                if k != mi {
                                    assert(self.modules@[k] == old_modules[k]);
                                }
                            }
                        }
                        Ok(())
                    },
                    None => {
                        proof {
                            if exists|mi2: int, ri2: int|
                                {
                                    &&& 0 <= mi2 < self.modules@.len()
                                    &&& (#[trigger] self.modules@[mi2]).name@ == module_name@
                                    &&& 0 <= ri2 < self.modules@[mi2].releases@.len()
                                    &&& (#[trigger] self.modules@[mi2].releases@[ri2]).version@
                                        == version@
                                    &&& opt_text(self.modules@[mi2].releases@[ri2].platform)
                                        == opt_text(*platform)
                                } {
                                let (mi2, ri2): (int, int) = choose|mi2: int, ri2: int|
                                    {
                                        &&& 0 <= mi2 < self.modules@.len()
                                        &&& (#[trigger] self.modules@[mi2]).name@ == module_name@
                                        &&& 0 <= ri2 < self.modules@[mi2].releases@.len()
                                        &&& (#[trigger] self.modules@[mi2].releases@[ri2]).version@
                                            == version@
                                        &&& opt_text(self.modules@[mi2].releases@[ri2].platform)
                                            == opt_text(*platform)
                                    };
                                assert(mi2 == mi as int) by {
                                    if mi2 != mi as int {
                                        assert(self.modules@[mi2].name@ == self.modules@[
                                            mi as int].name@);
                                    }
                                }
                                assert(same_release_key(
                                    self.modules@[mi as int].releases@[ri2],
                                    probe,
                                ));
                                assert(false);
                            }
                        }
                        Err(
                            CommandError::NotFound {
                                message: String::from_str(
                                    "no release with that version and platform is registered",
                                ),
                            },
                        )
                    },
                }
            },
            None => {
                proof {
                    if exists|mi2: int, ri2: int|
                        {
                            &&& 0 <= mi2 < self.modules@.len()
                            &&& (#[trigger] self.modules@[mi2]).name@ == module_name@
                            &&& 0 <= ri2 < self.modules@[mi2].releases@.len()
                            &&& (#[trigger] self.modules@[mi2].releases@[ri2]).version@ == version@
                            &&& opt_text(self.modules@[mi2].releases@[ri2].platform) == opt_text(
                                *platform,
                            )
                        } {
                        let (mi2, ri2): (int, int) = choose|mi2: int, ri2: int|
                            {
                                &&& 0 <= mi2 < self.modules@.len()
                                &&& (#[trigger] self.modules@[mi2]).name@ == module_name@
                                &&& 0 <= ri2 < self.modules@[mi2].releases@.len()
                                &&& (#[trigger] self.modules@[mi2].releases@[ri2]).version@
                                    == version@
                                &&& opt_text(self.modules@[mi2].releases@[ri2].platform)
                                    == opt_text(*platform)
                            };
                        assert(false);
                    }
                }
                Err(
                    CommandError::NotFound {
                        message: String::from_str("the module is not in the catalog"),
                    },
                )
            },
        }
    }
}

impl IndexModule {
    /// No two releases share a `(version, platform)` key.
    pub open spec fn releases_wf(self) -> bool {
        forall|i: int, j: int|
            0 <= i < j < self.releases@.len() ==> !same_release_key(
                #[trigger] self.releases@[i],
                #[trigger] self.releases@[j],
            )
    }

    /// How one registration changes a module's release list: a clashing
    /// release is replaced in place, anything else is appended.
    pub open spec fn spec_updated_with(self, old_m: IndexModule, entry: PackageReleaseEntry)
        -> bool {
        if exists|ri: int|
            0 <= ri < old_m.releases@.len() && same_release_key(
                #[trigger] old_m.releases@[ri],
                entry,
            ) {
            exists|ri: int|
                {
                    &&& 0 <= ri < old_m.releases@.len()
                    &&& same_release_key(#[trigger] old_m.releases@[ri], entry)
                    &&& self.releases@ == old_m.releases@.update(ri, entry)
                }
        } else {
            self.releases@ == old_m.releases@.push(entry)
        }
    }

    /// Inserts `entry`, overwriting the release that shares its key, if any.
    fn add_release(&mut self, entry: PackageReleaseEntry)
        requires
            old(self).releases_wf(),
        ensures
            final(self).releases_wf(),
            final(self).name == old(self).name,
            final(self).vendor == old(self).vendor,
            final(self).spec_updated_with(*old(self), entry),
    {
        let found = find_release_index(&self.releases, &entry);
        let ghost old_releases = self.releases@;
        match found {
            Some(ri) => {
                self.releases.remove(ri);
                self.releases.insert(ri, entry);
                proof {
                    assert(self.releases@ =~= old_releases.update(ri as int, entry));
                    assert forall|i: int, j: int|
                        0 <= i < j < self.releases@.len() implies !same_release_key(
                        #[trigger] self.releases@[i],
                        #[trigger] self.releases@[j],
                    ) by {
                        assert(!same_release_key(old_releases[i], old_releases[j]));
                    }
                }
            },
            None => {
                self.releases.push(entry);
                proof {
                    assert forall|i: int, j: int|
                        0 <= i < j < self.releases@.len() implies !same_release_key(
                        #[trigger] self.releases@[i],
                        #[trigger] self.releases@[j],
                    ) by {
                        if j < old_releases.len() {
                            assert(!same_release_key(old_releases[i], old_releases[j]));
                        } else {
                            assert(self.releases@[i] == old_releases[i]);
                            assert(!same_release_key(old_releases[i], entry));
                        }
                    }
                }
            },
        }
    }
}

/// Finds the catalog entry for a module name.
fn find_module_index(modules: &Vec<IndexModule>, name: &String) -> (r: Option<usize>)
    ensures
        r is Some ==> r.unwrap() < modules@.len() && modules@[r.unwrap() as int].name@ == name@,
        r is None ==> forall|i: int|
            0 <= i < modules@.len() ==> (#[trigger] modules@[i]).name@ != name@,
{
    let n = modules.len();
    let mut i: usize = 0;
    while i < n
        invariant
            0 <= i <= n,
            n == modules@.len(),
            forall|j: int| 0 <= j < i ==> (#[trigger] modules@[j]).name@ != name@,
        decreases n - i,
    {
        if modules[i].name.eq(name) {
            return Some(i);
        }
        i = i + 1;
    }
    None
}

/// Finds the release that shares `entry`'s `(version, platform)` key.
fn find_release_index(releases: &Vec<PackageReleaseEntry>, entry: &PackageReleaseEntry) -> (r:
    Option<usize>)
    ensures
        r is Some ==> r.unwrap() < releases@.len() && same_release_key(
            releases@[r.unwrap() as int],
            *entry,
        ),
        r is None ==> forall|i: int|
            0 <= i < releases@.len() ==> !same_release_key(#[trigger] releases@[i], *entry),
{
    let n = releases.len();
    let mut i: usize = 0;
    while i < n
        invariant
            0 <= i <= n,
            n == releases@.len(),
            forall|j: int| 0 <= j < i ==> !same_release_key(#[trigger] releases@[j], *entry),
        decreases n - i,
    {
        let ver_eq = releases[i].version.eq(&entry.version);
        let plat_eq = match (&releases[i].platform, &entry.platform) {
            (Some(a), Some(b)) => a.eq(b),
            (None, None) => true,
            _ => false,
        };
        if ver_eq && plat_eq {
            return Some(i);
        }
        i = i + 1;
    }
    None
}

/// Replaces the local cache of a remote's catalog on a rescan. With
/// `fetch_index` set the backend's current state wins; otherwise the cache is
/// kept as it is.
pub fn rescan_cache(current: RemoteIndex, fetch_index: bool, fetched: RemoteIndex) -> (r:
    RemoteIndex)
    ensures
        fetch_index ==> r == fetched,
        !fetch_index ==> r == current,
{
    if fetch_index {
        fetched
    } else {
        current
    }
}

} // verus!
