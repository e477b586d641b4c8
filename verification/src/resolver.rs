use vstd::prelude::*;

use crate::command::CommandError;
use crate::semver::{spec_le, spec_lt, spec_parse, SemVer, VersionOrder};
use crate::semver::{lemma_seq_lt_trichotomy, lemma_spec_le_trans};

verus! {

/// Where a resolved version came from: a module already installed in the
/// workspace, or a remote catalog entry still to be downloaded.
#[derive(Clone, Copy, Debug, PartialEq, Eq, Structural)]
pub enum ResolvedSource {
    Installed,
    Remote,
}

/// The outcome of a successful resolution: one concrete candidate.
#[derive(Clone, Debug)]
pub struct Resolution {
    pub version: SemVer,
    pub version_text: String,
    pub source: ResolvedSource,
}

/// Whether the candidate text parses as a version.
pub open spec fn cand_parses(c: Seq<char>) -> bool {
    spec_parse(c) is Some
}

/// The version a candidate text stands for.
pub open spec fn cand_version(c: Seq<char>) -> SemVer {
    spec_parse(c).unwrap()
}

/// Whether a candidate satisfies a range-mode request for `req`.
pub open spec fn cand_in_range(req: SemVer, c: Seq<char>) -> bool {
    cand_parses(c) && req.spec_in_minor_range(cand_version(c))
}

/// Whether some candidate satisfies a range-mode request for `req`.
pub open spec fn some_in_range(req: SemVer, cs: Seq<Seq<char>>) -> bool {
    exists|i: int| 0 <= i < cs.len() && cand_in_range(req, #[trigger] cs[i])
}

/// Whether some candidate parses at all.
pub open spec fn some_parses(cs: Seq<Seq<char>>) -> bool {
    exists|i: int| 0 <= i < cs.len() && cand_parses(#[trigger] cs[i])
}

/// Whether `ver` is at or above every in-range candidate.
pub open spec fn max_in_range(req: SemVer, cs: Seq<Seq<char>>, ver: SemVer) -> bool {
    forall|i: int|
        0 <= i < cs.len() && cand_in_range(req, #[trigger] cs[i]) ==> spec_le(
            cand_version(cs[i]),
            ver,
        )
}

/// Whether `ver` is at or above every parseable candidate.
pub open spec fn max_parsed(cs: Seq<Seq<char>>, ver: SemVer) -> bool {
    forall|i: int|
        0 <= i < cs.len() && cand_parses(#[trigger] cs[i]) ==> spec_le(cand_version(cs[i]), ver)
}

/// Whether some candidate both satisfies the range request and stands for
/// exactly `ver`.
pub open spec fn holds_in_range(req: SemVer, cs: Seq<Seq<char>>, ver: SemVer) -> bool {
    exists|i: int|
        0 <= i < cs.len() && cand_in_range(req, #[trigger] cs[i]) && cand_version(cs[i]) == ver
}

/// Whether some candidate parses to exactly `ver`.
pub open spec fn holds_parsed(cs: Seq<Seq<char>>, ver: SemVer) -> bool {
    exists|i: int|
        0 <= i < cs.len() && cand_parses(#[trigger] cs[i]) && cand_version(cs[i]) == ver
}

/// Finds the highest candidate satisfying a range-mode request for `req`.
fn find_max_in_range(req: &SemVer, cands: &Vec<String>) -> (r: Option<(usize, SemVer)>)
    requires
        req.minor is Some,
    ensures
        r is Some ==> {
            let (i, ver) = r.unwrap();
            &&& i < cands.len()
            &&& spec_parse(cands.deep_view()[i as int]) == Some(ver)
            &&& req.spec_in_minor_range(ver)
            &&& max_in_range(*req, cands.deep_view(), ver)
        },
        r is None ==> !some_in_range(*req, cands.deep_view()),
{
    let mut best: Option<(usize, SemVer)> = None;
    let n = cands.len();
    let mut i: usize = 0;
    while i < n
        invariant
            0 <= i <= n,
            n == cands.len(),
            req.minor is Some,
            best is Some ==> {
                let (bi, bv) = best.unwrap();
                &&& bi < n
                &&& spec_parse(cands.deep_view()[bi as int]) == Some(bv)
                &&& req.spec_in_minor_range(bv)
                &&& forall|j: int|
                    0 <= j < i && cand_in_range(*req, #[trigger] cands.deep_view()[j])
                        ==> spec_le(cand_version(cands.deep_view()[j]), bv)
            },
            best is None ==> forall|j: int|
                0 <= j < i ==> !cand_in_range(*req, #[trigger] cands.deep_view()[j]),
        decreases n - i,
    {
        proof {
            assert(cands.deep_view()[i as int] == cands@[i as int]@);
        }
        if let Some(v) = SemVer::parse_from_string(cands[i].as_str()) {
            if req.in_minor_range(&v) {
                match best {
                    None => {
                        best = Some((i, v));
                    },
                    Some((bi, bv)) => {
                        if matches!(bv.range_cmp(&v), VersionOrder::Less) {
                            proof {
                                lemma_seq_lt_trichotomy(bv.comps(), v.comps());
                                assert forall|j: int|
                                    0 <= j < i + 1 && cand_in_range(
                                        *req,
                                        #[trigger] cands.deep_view()[j],
                                    ) implies spec_le(cand_version(cands.deep_view()[j]), v) by {
                                    if j < i {
                                        lemma_spec_le_trans(
                                            cand_version(cands.deep_view()[j]),
                                            bv,
                                            v,
                                        );
                                    }
                                }
                            }
                            best = Some((i, v));
                        } else {
                            proof {
                                lemma_seq_lt_trichotomy(bv.comps(), v.comps());
                                assert(spec_le(v, bv));
                            }
                        }
                    },
                }
            }
        }
        i = i + 1;
    }
    best
}

/// Finds the highest parseable candidate, with no range restriction.
fn find_max_parsed(cands: &Vec<String>) -> (r: Option<(usize, SemVer)>)
    ensures
        r is Some ==> {
            let (i, ver) = r.unwrap();
            &&& i < cands.len()
            &&& spec_parse(cands.deep_view()[i as int]) == Some(ver)
            &&& max_parsed(cands.deep_view(), ver)
        },
        r is None ==> !some_parses(cands.deep_view()),
{
    let mut best: Option<(usize, SemVer)> = None;
    let n = cands.len();
    let mut i: usize = 0;
    while i < n
        invariant
            0 <= i <= n,
            n == cands.len(),
            best is Some ==> {
                let (bi, bv) = best.unwrap();
                &&& bi < n
                &&& spec_parse(cands.deep_view()[bi as int]) == Some(bv)
                &&& forall|j: int|
                    0 <= j < i && cand_parses(#[trigger] cands.deep_view()[j]) ==> spec_le(
                        cand_version(cands.deep_view()[j]),
                        bv,
                    )
            },
            best is None ==> forall|j: int|
                0 <= j < i ==> !cand_parses(#[trigger] cands.deep_view()[j]),
        decreases n - i,
    {
        proof {
            assert(cands.deep_view()[i as int] == cands@[i as int]@);
        }
        if let Some(v) = SemVer::parse_from_string(cands[i].as_str()) {
            match best {
                None => {
                    best = Some((i, v));
                },
                Some((bi, bv)) => {
                    if matches!(bv.range_cmp(&v), VersionOrder::Less) {
                        proof {
                            lemma_seq_lt_trichotomy(bv.comps(), v.comps());
                            assert forall|j: int|
                                0 <= j < i + 1 && cand_parses(#[trigger] cands.deep_view()[j])
                                implies spec_le(cand_version(cands.deep_view()[j]), v) by {
                                if j < i {
                                    lemma_spec_le_trans(cand_version(cands.deep_view()[j]), bv, v);
                                }
                            }
                        }
                        best = Some((i, v));
                    } else {
                        proof {
                            lemma_seq_lt_trichotomy(bv.comps(), v.comps());
                            assert(spec_le(v, bv));
                        }
                    }
                },
            }
        }
        i = i + 1;
    }
    best
}

/// Finds a candidate whose text equals `token` exactly.
fn find_exact(token: &str, cands: &Vec<String>) -> (r: Option<usize>)
    ensures
        r is Some ==> r.unwrap() < cands.len() && cands.deep_view()[r.unwrap() as int] == token@,
        r is None ==> forall|j: int|
            0 <= j < cands.len() ==> #[trigger] cands.deep_view()[j] != token@,
{
    let t = token.to_owned();
    let n = cands.len();
    let mut i: usize = 0;
    while i < n
        invariant
            0 <= i <= n,
            n == cands.len(),
            t@ == token@,
            forall|j: int| 0 <= j < i ==> #[trigger] cands.deep_view()[j] != token@,
        decreases n - i,
    {
        proof {
            assert(cands.deep_view()[i as int] == cands@[i as int]@);
        }
        if cands[i].eq(&t) {
            return Some(i);
        }
        i = i + 1;
    }
    None
}

/// Resolves a requested version token against the installed and remote
/// candidate sets.
///
/// The token `latest` is a sentinel, valid only in non-exact mode, where it
/// selects the highest version among all candidates. Any other token must
/// parse as a version. Exact mode selects the candidate whose text equals the
/// token; range mode selects the highest candidate within the request's
/// `major.minor` window at or above the request, preferring installed
/// candidates so that no remote access is needed when one satisfies the
/// request.
pub fn resolve(token: &str, exact: bool, installed: &Vec<String>, remote: &Vec<String>) -> (r:
    Result<Resolution, CommandError>)
    ensures
        token@ == "latest"@ && exact ==> r is Err && r.unwrap_err() is InvalidArgument,
        token@ == "latest"@ && !exact ==> {
            &&& r is Ok <==> some_parses(installed.deep_view() + remote.deep_view())
            &&& r is Err ==> r.unwrap_err() is NotFound
            &&& r is Ok ==> {
                let res = r.unwrap();
                &&& holds_parsed(installed.deep_view() + remote.deep_view(), res.version)
                &&& max_parsed(installed.deep_view() + remote.deep_view(), res.version)
                &&& spec_parse(res.version_text@) == Some(res.version)
                &&& (res.source is Installed <==> holds_parsed(
                    installed.deep_view(),
                    res.version,
                ))
            }
        },
        token@ != "latest"@ && spec_parse(token@) is None ==> r is Err
            && r.unwrap_err() is InvalidArgument,
        token@ != "latest"@ && spec_parse(token@) is Some && spec_parse(
            token@,
        ).unwrap().minor is None ==> r is Err && r.unwrap_err() is ImpreciseVersion,
        token@ != "latest"@ && spec_parse(token@) is Some && spec_parse(
            token@,
        ).unwrap().minor is Some && exact ==> {
            let present = (exists|j: int|
                0 <= j < installed.len() && #[trigger] installed.deep_view()[j] == token@)
                || (exists|j: int|
                0 <= j < remote.len() && #[trigger] remote.deep_view()[j] == token@);
            &&& r is Ok <==> present
            &&& r is Err ==> r.unwrap_err() is NotFound
            &&& r is Ok ==> {
                let res = r.unwrap();
                &&& res.version_text@ == token@
                &&& res.version == spec_parse(token@).unwrap()
                &&& (res.source is Installed <==> exists|j: int|
                    0 <= j < installed.len() && #[trigger] installed.deep_view()[j] == token@)
            }
        },
        token@ != "latest"@ && spec_parse(token@) is Some && spec_parse(
            token@,
        ).unwrap().minor is Some && !exact ==> {
            let req = spec_parse(token@).unwrap();
            &&& r is Ok <==> (some_in_range(req, installed.deep_view()) || some_in_range(
                req,
                remote.deep_view(),
            ))
            &&& r is Err ==> r.unwrap_err() is NotFound
            &&& r is Ok ==> {
                let res = r.unwrap();
                &&& req.spec_in_minor_range(res.version)
                &&& spec_parse(res.version_text@) == Some(res.version)
                &&& (res.source is Installed <==> some_in_range(req, installed.deep_view()))
                &&& (res.source is Installed ==> holds_in_range(
                    req,
                    installed.deep_view(),
                    res.version,
                ) && max_in_range(req, installed.deep_view(), res.version))
                &&& (res.source is Remote ==> holds_in_range(req, remote.deep_view(), res.version)
                    && max_in_range(req, remote.deep_view(), res.version))
            }
        },
{
    let latest = "latest".to_owned();
    if token.to_owned().eq(&latest) {
        proof {
            assert(token@ == "latest"@);
        }
        if exact {
            return Err(
                CommandError::InvalidArgument {
                    message: String::from_str("exact lookup requires a concrete version"),
                },
            );
        }
        let best_installed = find_max_parsed(installed);
        let best_remote = find_max_parsed(remote);
        return resolve_latest_pick(installed, remote, best_installed, best_remote);
    }
    proof {
        assert(token@ != "latest"@);
    }
    let parsed = SemVer::parse_from_string(token);
    let req = match parsed {
        Some(v) => v,
        None => {
            return Err(
                CommandError::InvalidArgument {
                    message: String::from_str("version token is not semantic-versioning compatible"),
                },
            );
        },
    };
    if req.minor.is_none() {
        return Err(
            CommandError::ImpreciseVersion {
                message: String::from_str("a major-only version cannot be matched"),
            },
        );
    }
    if exact {
        if let Some(i) = find_exact(token, installed) {
            return Ok(
                Resolution {
                    version: req,
                    version_text: token.to_owned(),
                    source: ResolvedSource::Installed,
                },
            );
        }
        if let Some(i) = find_exact(token, remote) {
            return Ok(
                Resolution {
                    version: req,
                    version_text: token.to_owned(),
                    source: ResolvedSource::Remote,
                },
            );
        }
        return Err(
            CommandError::NotFound {
                message: String::from_str("no candidate carries the requested version"),
            },
        );
    }
    if let Some((i, ver)) = find_max_in_range(&req, installed) {
        return Ok(
            Resolution {
                version: ver,
                version_text: installed[i].clone(),
                source: ResolvedSource::Installed,
            },
        );
    }
    if let Some((i, ver)) = find_max_in_range(&req, remote) {
        return Ok(
            Resolution {
                version: ver,
                version_text: remote[i].clone(),
                source: ResolvedSource::Remote,
            },
        );
    }
    Err(
        CommandError::NotFound {
            message: String::from_str("no installed or remote version satisfies the request"),
        },
    )
}

/// Combines the per-source maxima for a `latest` request, preferring the
/// installed source on ties.
fn resolve_latest_pick(
    installed: &Vec<String>,
    remote: &Vec<String>,
    best_installed: Option<(usize, SemVer)>,
    best_remote: Option<(usize, SemVer)>,
) -> (r: Result<Resolution, CommandError>)
    requires
        best_installed is Some ==> {
            let (i, ver) = best_installed.unwrap();
            &&& i < installed.len()
            &&& spec_parse(installed.deep_view()[i as int]) == Some(ver)
            &&& max_parsed(installed.deep_view(), ver)
        },
        best_installed is None ==> !some_parses(installed.deep_view()),
        best_remote is Some ==> {
            let (i, ver) = best_remote.unwrap();
            &&& i < remote.len()
            &&& spec_parse(remote.deep_view()[i as int]) == Some(ver)
            &&& max_parsed(remote.deep_view(), ver)
        },
        best_remote is None ==> !some_parses(remote.deep_view()),
    ensures
        r is Ok <==> some_parses(installed.deep_view() + remote.deep_view()),
        r is Err ==> r.unwrap_err() is NotFound,
        r is Ok ==> {
            let res = r.unwrap();
            &&& holds_parsed(installed.deep_view() + remote.deep_view(), res.version)
            &&& max_parsed(installed.deep_view() + remote.deep_view(), res.version)
            &&& spec_parse(res.version_text@) == Some(res.version)
            &&& (res.source is Installed <==> holds_parsed(installed.deep_view(), res.version))
        },
{
    let ghost inst = installed.deep_view();
    let ghost rem = remote.deep_view();
    let ghost all = inst + rem;
    match (best_installed, best_remote) {
        (None, None) => {
            proof {
                assert forall|j: int| 0 <= j < all.len() implies !cand_parses(
                    #[trigger] all[j],
                ) by {
                    if j < inst.len() {
                        assert(all[j] == inst[j]);
                        if cand_parses(inst[j]) {
                            assert(some_parses(inst));
                        }
                    } else {
                        assert(all[j] == rem[j - inst.len()]);
                        if cand_parses(rem[j - inst.len()]) {
                            assert(some_parses(rem));
                        }
                    }
                }
                if some_parses(all) {
                    let j = choose|j: int| 0 <= j < all.len() && cand_parses(#[trigger] all[j]);
                    assert(false);
                }
            }
            Err(
                CommandError::NotFound {
                    message: String::from_str("no candidate carries any version"),
                },
            )
        },
        (Some((i, ver)), None) => {
            proof {
                assert(all[i as int] == inst[i as int]);
                assert(cand_parses(all[i as int]) && cand_version(all[i as int]) == ver);
                assert(some_parses(all));
                assert(holds_parsed(all, ver));
                assert(holds_parsed(inst, ver));
                assert forall|j: int|
                    0 <= j < rem.len() && cand_parses(#[trigger] rem[j]) implies spec_le(
                    cand_version(rem[j]),
                    ver,
                ) by {
                    assert(some_parses(rem));
                }
                lemma_latest_max(installed, remote, ver);
                assert(inst[i as int] == installed@[i as int]@);
            }
            Ok(
                Resolution {
                    version: ver,
                    version_text: installed[i].clone(),
                    source: ResolvedSource::Installed,
                },
            )
        },
        (None, Some((i, ver))) => {
            proof {
                assert(all[i + installed.len()] == rem[i as int]);
                assert(cand_parses(all[i + installed.len()]) && cand_version(
                    all[i + installed.len()],
                ) == ver);
                assert(some_parses(all));
                assert(holds_parsed(all, ver));
                if holds_parsed(inst, ver) {
                    let j = choose|j: int|
                        0 <= j < inst.len() && cand_parses(#[trigger] inst[j]) && cand_version(
                            inst[j],
                        ) == ver;
                    assert(some_parses(inst));
                    assert(false);
                }
                assert forall|j: int|
                    0 <= j < inst.len() && cand_parses(#[trigger] inst[j]) implies spec_le(
                    cand_version(inst[j]),
                    ver,
                ) by {
                    assert(some_parses(inst));
                }
                lemma_latest_max(installed, remote, ver);
                assert(rem[i as int] == remote@[i as int]@);
            }
            Ok(
                Resolution {
                    version: ver,
                    version_text: remote[i].clone(),
                    source: ResolvedSource::Remote,
                },
            )
        },
        (Some((ii, iv)), Some((ri, rv))) => {
            if matches!(iv.range_cmp(&rv), VersionOrder::Less) {
                proof {
                    lemma_seq_lt_trichotomy(iv.comps(), rv.comps());
                    assert forall|j: int|
                        0 <= j < inst.len() && cand_parses(#[trigger] inst[j]) implies spec_le(
                        cand_version(inst[j]),
                        rv,
                    ) by {
                        lemma_spec_le_trans(cand_version(inst[j]), iv, rv);
                    }
                    lemma_latest_max(installed, remote, rv);
                    assert forall|j: int|
                        0 <= j < inst.len() && cand_parses(#[trigger] inst[j]) implies cand_version(
                        inst[j],
                    ) != rv by {
                        if cand_version(inst[j]) == rv {
                            // rv <= iv by installed maximality, but iv < rv.
                            assert(spec_le(rv, iv));
                            lemma_seq_lt_trichotomy(rv.comps(), iv.comps());
                        }
                    }
                    if holds_parsed(inst, rv) {
                        let j = choose|j: int|
                            0 <= j < inst.len() && cand_parses(#[trigger] inst[j]) && cand_version(
                                inst[j],
                            ) == rv;
                        assert(false);
                    }
                    assert(all[ri + installed.len()] == rem[ri as int]);
                    assert(cand_parses(all[ri + installed.len()]) && cand_version(
                        all[ri + installed.len()],
                    ) == rv);
                    assert(some_parses(all));
                    assert(holds_parsed(all, rv));
                    assert(rem[ri as int] == remote@[ri as int]@);
                }
                Ok(
                    Resolution {
                        version: rv,
                        version_text: remote[ri].clone(),
                        source: ResolvedSource::Remote,
                    },
                )
            } else {
                proof {
                    lemma_seq_lt_trichotomy(iv.comps(), rv.comps());
                    assert(spec_le(rv, iv));
                    assert forall|j: int|
                        0 <= j < rem.len() && cand_parses(#[trigger] rem[j]) implies spec_le(
                        cand_version(rem[j]),
                        iv,
                    ) by {
                        lemma_spec_le_trans(cand_version(rem[j]), rv, iv);
                    }
                    lemma_latest_max(installed, remote, iv);
                    assert(all[ii as int] == inst[ii as int]);
                    assert(cand_parses(all[ii as int]) && cand_version(all[ii as int]) == iv);
                    assert(some_parses(all));
                    assert(holds_parsed(all, iv));
                    assert(holds_parsed(inst, iv));
                    assert(inst[ii as int] == installed@[ii as int]@);
                }
                Ok(
                    Resolution {
                        version: iv,
                        version_text: installed[ii].clone(),
                        source: ResolvedSource::Installed,
                    },
                )
            }
        },
    }
}

/// Lifts per-source maximality to the combined candidate sequence.
proof fn lemma_latest_max(installed: &Vec<String>, remote: &Vec<String>, ver: SemVer)
    requires
        forall|i: int|
            0 <= i < installed.deep_view().len() && cand_parses(#[trigger] installed.deep_view()[i])
                ==> spec_le(cand_version(installed.deep_view()[i]), ver),
        forall|i: int|
            0 <= i < remote.deep_view().len() && cand_parses(#[trigger] remote.deep_view()[i])
                ==> spec_le(cand_version(remote.deep_view()[i]), ver),
    ensures
        max_parsed(installed.deep_view() + remote.deep_view(), ver),
{
    let inst = installed.deep_view();
    let rem = remote.deep_view();
    let all = inst + rem;
    assert forall|j: int|
        0 <= j < all.len() && cand_parses(#[trigger] all[j]) implies spec_le(
        cand_version(all[j]),
        ver,
    ) by {
        if j < inst.len() {
            assert(all[j] == inst[j]);
        } else {
            assert(all[j] == rem[j - inst.len()]);
        }
    }
}

} // verus!
