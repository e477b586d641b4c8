use vstd::prelude::*;

use crate::strutil::split_on;
use crate::strutil::split_str_on;

verus! {

/// A target or host platform, rendered as an `os-arch` token.
#[derive(Clone, Debug)]
pub struct Platform {
    pub os: String,
    pub arch: String,
}

/// What `Platform::from_str` accepts: exactly one `-` separating a non-empty
/// operating system from a non-empty architecture.
pub open spec fn spec_platform_parse(s: Seq<char>) -> Option<(Seq<char>, Seq<char>)> {
    let parts = split_on(s, '-');
    if parts.len() == 2 && parts[0].len() > 0 && parts[1].len() > 0 {
        Some((parts[0], parts[1]))
    } else {
        None
    }
}

impl Platform {
    /// Parses an `os-arch` token.
    pub fn from_str(s: &str) -> (r: Option<Platform>)
        ensures
            r is Some <==> spec_platform_parse(s@) is Some,
            r is Some ==> {
                let (os, arch) = spec_platform_parse(s@).unwrap();
                r.unwrap().os@ == os && r.unwrap().arch@ == arch
            },
    {
        let mut parts = split_str_on(s, '-');
        if parts.len() != 2 {
            return None;
        }
        let arch = parts.pop().unwrap();
        let os = parts.pop().unwrap();
        proof {
            assert(os@ == split_on(s@, '-')[0]);
            assert(arch@ == split_on(s@, '-')[1]);
        }
        if os.as_str().is_empty() || arch.as_str().is_empty() {
            return None;
        }
        Some(Platform { os, arch })
    }

    /// Renders the platform as its `os-arch` token.
    pub fn format(&self) -> (r: String)
        ensures
            r@ == self.os@ + seq!['-'] + self.arch@,
    {
        proof {
            reveal_strlit("-");
            assert("-"@ =~= seq!['-']);
        }
        let mut s = self.os.clone();
        s.append("-");
        s.append(self.arch.as_str());
        proof {
            assert(s@ =~= self.os@ + seq!['-'] + self.arch@);
        }
        s
    }

    /// The dynamic-library file extension of the platform's operating system:
    /// `dll` on windows, `dylib` on macos, `so` elsewhere.
    pub fn binary_extension(&self) -> (r: &'static str)
        ensures
            self.os@ == "windows"@ ==> r@ == "dll"@,
            self.os@ == "macos"@ ==> r@ == "dylib"@,
            self.os@ != "windows"@ && self.os@ != "macos"@ ==> r@ == "so"@,
    {
        proof {
            reveal_strlit("windows");
            reveal_strlit("macos");
            assert("windows"@.len() != "macos"@.len());
        }
        if self.os.eq(&"windows".to_owned()) {
            "dll"
        } else if self.os.eq(&"macos".to_owned()) {
            "dylib"
        } else {
            "so"
        }
    }
}

/// The archive container a publish produces.
#[derive(Clone, Copy, Debug, PartialEq, Eq, Structural)]
pub enum ArchiveFormat {
    Zip,
    TarGz,
}

impl ArchiveFormat {
    /// The file-name suffix of the archive container.
    pub fn extension(&self) -> (r: &'static str)
        ensures
            *self is Zip ==> r@ == "zip"@,
            *self is TarGz ==> r@ == "tar.gz"@,
    {
        match self {
            ArchiveFormat::Zip => "zip",
            ArchiveFormat::TarGz => "tar.gz",
        }
    }
}

/// The archive format a publish uses, chosen by the publishing host's
/// operating system — not the target's: `zip` on a windows host, gzipped tar
/// elsewhere.
pub fn archive_format_for_host(host_os: &String) -> (r: ArchiveFormat)
    ensures
        r is Zip <==> host_os@ == "windows"@,
{
    if host_os.eq(&"windows".to_owned()) {
        ArchiveFormat::Zip
    } else {
        ArchiveFormat::TarGz
    }
}

} // verus!
