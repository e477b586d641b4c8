use vstd::prelude::*;

use crate::index::PackageIdentifier;

verus! {

/// What the core reads out of a module's JSON manifest: the identity, the
/// dependency edges, optional catalog metadata, and the optional native
/// binary with its extra library search paths (all paths relative to the
/// manifest's directory).
#[derive(Clone, Debug)]
pub struct ModuleManifest {
    pub name: String,
    pub version: String,
    pub dependencies: Vec<PackageIdentifier>,
    pub category: Option<String>,
    pub module_tags: Option<Vec<String>>,
    pub binary_path: Option<String>,
    pub additional_search_paths: Vec<String>,
}

impl ModuleManifest {
    /// The manifest with its version field replaced by `version` and every
    /// other field kept verbatim: what a publish archives in place of the
    /// on-disk manifest, so the packaged manifest always carries the
    /// published version.
    pub fn with_version(self, version: String) -> (r: ModuleManifest)
        ensures
            r.name == self.name,
            r.version == version,
            r.dependencies == self.dependencies,
            r.category == self.category,
            r.module_tags == self.module_tags,
            r.binary_path == self.binary_path,
            r.additional_search_paths == self.additional_search_paths,
    {
        ModuleManifest {
            name: self.name,
            version,
            dependencies: self.dependencies,
            category: self.category,
            module_tags: self.module_tags,
            binary_path: self.binary_path,
            additional_search_paths: self.additional_search_paths,
        }
    }
}

/// Per-package publish policy, read from the optional sidecar options file.
#[derive(Clone, Debug)]
pub struct PublishOptions {
    pub release_globs: Vec<String>,
    pub additional_publish_triggering_globs: Option<Vec<String>>,
    pub target_platforms: Option<Vec<String>>,
}

impl PublishOptions {
    /// Options with nothing set.
    pub fn empty() -> (r: PublishOptions)
        ensures
            r.release_globs@.len() == 0,
            r.additional_publish_triggering_globs is None,
            r.target_platforms is None,
    {
        PublishOptions {
            release_globs: Vec::new(),
            additional_publish_triggering_globs: None,
            target_platforms: None,
        }
    }

    /// The policy in force for a package root: the loaded options file if one
    /// was found, else the default of releasing every file. The second result
    /// reports whether a file was found.
    pub fn defaulted(found: Option<PublishOptions>) -> (r: (PublishOptions, bool))
        ensures
            found is Some ==> r.0 == found.unwrap() && r.1,
            found is None ==> {
                &&& r.0.release_globs@.len() == 1
                &&& r.0.release_globs@[0]@ == "**"@
                &&& r.0.additional_publish_triggering_globs is None
                &&& r.0.target_platforms is None
                &&& !r.1
            },
    {
        match found {
            Some(options) => (options, true),
            None => {
                let mut globs: Vec<String> = Vec::new();
                globs.push("**".to_owned());
                (
                    PublishOptions {
                        release_globs: globs,
                        additional_publish_triggering_globs: None,
                        target_platforms: None,
                    },
                    false,
                )
            },
        }
    }

    /// Whether the policy admits the given target platform: an absent
    /// `target_platforms` list admits every platform.
    pub fn includes_platform(&self, platform_text: &String) -> (r: bool)
        ensures
            r == (self.target_platforms is None || exists|i: int|
                0 <= i < self.target_platforms.unwrap()@.len()
                    && (#[trigger] self.target_platforms.unwrap()@[i])@ == platform_text@),
    {
        match &self.target_platforms {
            None => true,
            Some(targets) => {
                let n = targets.len();
                let mut i: usize = 0;
                while i < n
                    invariant
                        0 <= i <= n,
                        n == targets@.len(),
                        self.target_platforms == Some(*targets),
                        forall|j: int| 0 <= j < i ==> (#[trigger] targets@[j])@ != platform_text@,
                    decreases n - i,
                {
                    if targets[i].eq(platform_text) {
                        proof {
                            assert((self.target_platforms.unwrap()@[i as int])@
                                == platform_text@);
                        }
                        return true;
                    }
                    i = i + 1;
                }
                false
            },
        }
    }
}

// ---------------------------------------------------------------------------
// Relative-path arithmetic on plain strings, with `/` as the separator.
// ---------------------------------------------------------------------------

/// Joins a directory and a relative path with a single separator.
pub fn join_path(base: &str, rel: &str) -> (r: String)
    ensures
        r@ == base@ + seq!['/'] + rel@,
{
    proof {
        reveal_strlit("/");
        assert("/"@ =~= seq!['/']);
    }
    let mut s = base.to_owned();
    s.append("/");
    s.append(rel);
    proof {
        assert(s@ =~= base@ + seq!['/'] + rel@);
    }
    s
}

/// The index of the dot starting the final component's extension, if the
/// last path component has one.
pub open spec fn last_dot_idx(p: Seq<char>) -> Option<int>
    decreases p.len(),
{
    if p.len() == 0 {
        None
    } else if p.last() == '.' {
        Some(p.len() - 1)
    } else if p.last() == '/' {
        None
    } else {
        last_dot_idx(p.drop_last())
    }
}

/// What `replace_extension` produces: the path with its final extension (if
/// any) replaced by `ext`, or with `.ext` appended.
pub open spec fn spec_replace_extension(p: Seq<char>, ext: Seq<char>) -> Seq<char> {
    match last_dot_idx(p) {
        Some(i) => p.subrange(0, i) + seq!['.'] + ext,
        None => p + seq!['.'] + ext,
    }
}

/// Replaces or appends the extension of the last path component, as the
/// platform-specific binary file name is derived from a manifest's declared
/// binary path.
pub fn replace_extension(path: &str, ext: &str) -> (r: String)
    ensures
        r@ == spec_replace_extension(path@, ext@),
{
    proof {
        reveal_strlit(".");
        assert("."@ =~= seq!['.']);
    }
    let n = path.unicode_len();
    let mut i: usize = n;
    proof {
        assert(path@.subrange(0, n as int) =~= path@);
    }
    while i > 0
        invariant
            0 <= i <= n,
            n == path@.len(),
            last_dot_idx(path@) == last_dot_idx(path@.subrange(0, i as int)),
            forall|j: int| i <= j < n ==> path@[j] != '.' && path@[j] != '/',
        decreases i,
    {
        let c = path.get_char(i - 1);
        proof {
            let p = path@.subrange(0, i as int);
            assert(p.last() == path@[i as int - 1]);
            assert(p.drop_last() =~= path@.subrange(0, i as int - 1));
        }
        if c == '.' {
            proof {
                reveal_strlit(".");
                assert("."@ =~= seq!['.']);
                assert(last_dot_idx(path@) == Some(i as int - 1));
            }
            let stem = path.substring_char(0, i - 1);
            let mut s = stem.to_owned();
            s.append(".");
            s.append(ext);
            proof {
                assert(s@ =~= spec_replace_extension(path@, ext@));
            }
            return s;
        }
        if c == '/' {
            proof {
                reveal_strlit(".");
                assert("."@ =~= seq!['.']);
                assert(last_dot_idx(path@) is None);
            }
            let mut s = path.to_owned();
            s.append(".");
            s.append(ext);
            proof {
                assert(s@ =~= spec_replace_extension(path@, ext@));
            }
            return s;
        }
        i = i - 1;
    }
    proof {
        assert(path@.subrange(0, 0) =~= Seq::<char>::empty());
        assert(last_dot_idx(path@) is None);
    }
    let mut s = path.to_owned();
    s.append(".");
    s.append(ext);
    proof {
        assert(s@ =~= spec_replace_extension(path@, ext@));
    }
    s
}

/// The library search paths a manifest contributes, each joined under the
/// manifest's directory.
pub fn search_paths_under(module_dir: &str, rel_paths: &Vec<String>) -> (r: Vec<String>)
    ensures
        r@.len() == rel_paths@.len(),
        forall|i: int|
            0 <= i < r@.len() ==> (#[trigger] r@[i])@ == module_dir@ + seq!['/'] + rel_paths@[i]@,
{
    let n = rel_paths.len();
    let mut out: Vec<String> = Vec::new();
    let mut i: usize = 0;
    while i < n
        invariant
            0 <= i <= n,
            n == rel_paths@.len(),
            out@.len() == i,
            forall|j: int|
                0 <= j < i ==> (#[trigger] out@[j])@ == module_dir@ + seq!['/'] + rel_paths@[j]@,
        decreases n - i,
    {
        let joined = join_path(module_dir, rel_paths[i].as_str());
        out.push(joined);
        i = i + 1;
    }
    out
}

} // verus!
