use vstd::prelude::*;

use crate::command::CommandError;
use crate::strutil::{
    all_digits, dec_digits, digits_val, is_digit, lemma_dec_digits_well_formed, parse_u32,
    fmt_u32, prepend_first, split_on, split_str_on, valid_component,
};

verus! {

/// A partial semantic version: `major` is always present, and a later
/// component may only be present when every earlier one is.
#[derive(Clone, Copy, Debug)]
pub struct SemVer {
    pub major: u32,
    pub minor: Option<u32>,
    pub patch: Option<u32>,
    pub build_number: Option<u32>,
}

impl SemVer {
    /// The prefix rule: patch requires minor, build requires patch.
    pub open spec fn wf(self) -> bool {
        &&& self.patch is Some ==> self.minor is Some
        &&& self.build_number is Some ==> self.patch is Some
    }

    /// The present components, in order of significance.
    pub open spec fn comps(self) -> Seq<u32> {
        if self.minor is None {
            seq![self.major]
        } else if self.patch is None {
            seq![self.major, self.minor.unwrap()]
        } else if self.build_number is None {
            seq![self.major, self.minor.unwrap(), self.patch.unwrap()]
        } else {
            seq![self.major, self.minor.unwrap(), self.patch.unwrap(), self.build_number.unwrap()]
        }
    }
}

/// What `parse_from_string` accepts: one to four dot-separated decimal
/// components, each non-empty, numeric, and within `u32`. Neither a prefix
/// character nor the token `latest` is a version.
pub open spec fn spec_parse(s: Seq<char>) -> Option<SemVer> {
    let parts = split_on(s, '.');
    if 1 <= parts.len() <= 4 && (forall|i: int|
        0 <= i < parts.len() ==> valid_component(#[trigger] parts[i])) {
        Some(
            SemVer {
                major: digits_val(parts[0]) as u32,
                minor: if parts.len() >= 2 {
                    Some(digits_val(parts[1]) as u32)
                } else {
                    None
                },
                patch: if parts.len() >= 3 {
                    Some(digits_val(parts[2]) as u32)
                } else {
                    None
                },
                build_number: if parts.len() >= 4 {
                    Some(digits_val(parts[3]) as u32)
                } else {
                    None
                },
            },
        )
    } else {
        None
    }
}

/// What `format` produces: the present components in decimal, joined by dots.
pub open spec fn spec_format(v: SemVer) -> Seq<char> {
    dec_digits(v.major as nat) + if v.minor is Some {
        seq!['.'] + dec_digits(v.minor.unwrap() as nat) + if v.patch is Some {
            seq!['.'] + dec_digits(v.patch.unwrap() as nat) + if v.build_number is Some {
                seq!['.'] + dec_digits(v.build_number.unwrap() as nat)
            } else {
                Seq::<char>::empty()
            }
        } else {
            Seq::<char>::empty()
        }
    } else {
        Seq::<char>::empty()
    }
}

impl SemVer {
    /// Parses `major[.minor[.patch[.build]]]`; rejects empty or non-numeric
    /// components, prefixes such as a leading `v`, and the token `latest`.
    pub fn parse_from_string(s: &str) -> (r: Option<SemVer>)
        ensures
            r == spec_parse(s@),
            r is Some ==> r.unwrap().wf(),
    {
        let parts = split_str_on(s, '.');
        let ghost gparts = split_on(s@, '.');
        proof {
            assert(parts.deep_view().len() == parts@.len());
        }
        if parts.len() > 4 {
            return None;
        }
        let major = match parse_u32(parts[0].as_str()) {
            Some(x) => x,
            None => {
                proof {
                    assert(parts.deep_view()[0] == parts@[0]@);
                    assert(!valid_component(gparts[0]));
                }
                return None;
            },
        };
        let minor = if parts.len() >= 2 {
            match parse_u32(parts[1].as_str()) {
                Some(x) => Some(x),
                None => {
                    proof {
                        assert(parts.deep_view()[1] == parts@[1]@);
                        assert(!valid_component(gparts[1]));
                    }
                    return None;
                },
            }
        } else {
            None
        };
        let patch = if parts.len() >= 3 {
            match parse_u32(parts[2].as_str()) {
                Some(x) => Some(x),
                None => {
                    proof {
                        assert(parts.deep_view()[2] == parts@[2]@);
                        assert(!valid_component(gparts[2]));
                    }
                    return None;
                },
            }
        } else {
            None
        };
        let build_number = if parts.len() >= 4 {
            match parse_u32(parts[3].as_str()) {
                Some(x) => Some(x),
                None => {
                    proof {
                        assert(parts.deep_view()[3] == parts@[3]@);
                        assert(!valid_component(gparts[3]));
                    }
                    return None;
                },
            }
        } else {
            None
        };
        let v = SemVer { major, minor, patch, build_number };
        proof {
            assert forall|i: int| 0 <= i < gparts.len() implies valid_component(
                #[trigger] gparts[i],
            ) by {
                assert(gparts[i] == parts.deep_view()[i]);
                assert(parts.deep_view()[i] == parts@[i]@);
            }
            assert(spec_parse(s@) == Some(v));
        }
        Some(v)
    }

    /// Renders the version with its present components joined by dots;
    /// `parse_from_string` accepts the result and returns this value back.
    pub fn format(&self) -> (r: String)
        requires
            self.wf(),
        ensures
            r@ =~= spec_format(*self),
    {
        proof {
            reveal_strlit(".");
            assert("."@ =~= seq!['.']);
        }
        let mut s = fmt_u32(self.major);
        if let Some(m) = self.minor {
            s.append(".");
            let ms = fmt_u32(m);
            s.append(ms.as_str());
            if let Some(p) = self.patch {
                s.append(".");
                let ps = fmt_u32(p);
                s.append(ps.as_str());
                if let Some(b) = self.build_number {
                    s.append(".");
                    let bs = fmt_u32(b);
                    s.append(bs.as_str());
                }
            }
        }
        s
    }
}

// ---------------------------------------------------------------------------
// Ordering for range computations: lexicographic over the present components,
// with an absent trailing component sorting below every present value, so
// `1.2 < 1.2.0 < 1.2.1`. Direct equality requires identical component lists.
// ---------------------------------------------------------------------------

pub open spec fn seq_lt(a: Seq<u32>, b: Seq<u32>) -> bool
    decreases a.len(),
{
    if b.len() == 0 {
        false
    } else if a.len() == 0 {
        true
    } else if a[0] < b[0] {
        true
    } else if a[0] > b[0] {
        false
    } else {
        seq_lt(a.subrange(1, a.len() as int), b.subrange(1, b.len() as int))
    }
}

pub open spec fn spec_lt(a: SemVer, b: SemVer) -> bool {
    seq_lt(a.comps(), b.comps())
}

pub open spec fn spec_le(a: SemVer, b: SemVer) -> bool {
    spec_lt(a, b) || a.comps() == b.comps()
}

pub proof fn lemma_seq_lt_trichotomy(a: Seq<u32>, b: Seq<u32>)
    ensures
        seq_lt(a, b) || seq_lt(b, a) || a =~= b,
        seq_lt(a, b) ==> !seq_lt(b, a) && !(a =~= b),
        seq_lt(b, a) ==> !seq_lt(a, b) && !(a =~= b),
    decreases a.len() + b.len(),
{
    if a.len() == 0 || b.len() == 0 {
    } else if a[0] == b[0] {
        let at = a.subrange(1, a.len() as int);
        let bt = b.subrange(1, b.len() as int);
        lemma_seq_lt_trichotomy(at, bt);
        if at =~= bt {
            assert forall|k: int| 0 <= k < a.len() implies a[k] == b[k] by {
                if k > 0 {
                    assert(at[k - 1] == bt[k - 1]);
                }
            }
            assert(a =~= b);
        }
        if a =~= b {
            assert(at =~= bt);
        }
    }
}

pub proof fn lemma_seq_lt_trans(a: Seq<u32>, b: Seq<u32>, c: Seq<u32>)
    requires
        seq_lt(a, b),
        seq_lt(b, c),
    ensures
        seq_lt(a, c),
    decreases a.len() + b.len() + c.len(),
{
    if a.len() == 0 {
    } else {
        if b.len() > 0 && c.len() > 0 && a[0] == b[0] && b[0] == c[0] {
            lemma_seq_lt_trans(
                a.subrange(1, a.len() as int),
                b.subrange(1, b.len() as int),
                c.subrange(1, c.len() as int),
            );
        }
    }
}

pub proof fn lemma_spec_le_trans(a: SemVer, b: SemVer, c: SemVer)
    requires
        spec_le(a, b),
        spec_le(b, c),
    ensures
        spec_le(a, c),
{
    if seq_lt(a.comps(), b.comps()) && seq_lt(b.comps(), c.comps()) {
        lemma_seq_lt_trans(a.comps(), b.comps(), c.comps());
    }
}

/// A shared prefix does not decide the comparison.
proof fn lemma_seq_lt_common(a: Seq<u32>, b: Seq<u32>, i: int)
    requires
        0 <= i <= a.len(),
        i <= b.len(),
        a.subrange(0, i) =~= b.subrange(0, i),
    ensures
        seq_lt(a, b) == seq_lt(a.subrange(i, a.len() as int), b.subrange(i, b.len() as int)),
    decreases i,
{
    if i == 0 {
        assert(a.subrange(0, a.len() as int) =~= a);
        assert(b.subrange(0, b.len() as int) =~= b);
    } else {
        assert(a[0] == b[0]) by {
            assert(a.subrange(0, i)[0] == a[0]);
            assert(b.subrange(0, i)[0] == b[0]);
        }
        let at = a.subrange(1, a.len() as int);
        let bt = b.subrange(1, b.len() as int);
        assert(at.subrange(0, i - 1) =~= bt.subrange(0, i - 1)) by {
            assert forall|k: int| 0 <= k < i - 1 implies #[trigger] at.subrange(0, i - 1)[k]
                == bt.subrange(0, i - 1)[k] by {
                assert(at[k] == a[k + 1]);
                assert(bt[k] == b[k + 1]);
                assert(a.subrange(0, i)[k + 1] == b.subrange(0, i)[k + 1]);
            }
        }
        lemma_seq_lt_common(at, bt, i - 1);
        assert(at.subrange(i - 1, at.len() as int) =~= a.subrange(i, a.len() as int));
        assert(bt.subrange(i - 1, bt.len() as int) =~= b.subrange(i, b.len() as int));
    }
}

/// The outcome of comparing two versions under the range ordering.
#[derive(Clone, Copy, Debug, PartialEq, Eq, Structural)]
pub enum VersionOrder {
    Less,
    Equal,
    Greater,
}

impl SemVer {
    /// The present components as a vector, most significant first.
    pub fn components(&self) -> (v: Vec<u32>)
        ensures
            v@ == self.comps(),
    {
        let mut v: Vec<u32> = Vec::new();
        v.push(self.major);
        if let Some(m) = self.minor {
            v.push(m);
            if let Some(p) = self.patch {
                v.push(p);
                if let Some(b) = self.build_number {
                    v.push(b);
                    proof {
                        assert(v@ =~= self.comps());
                    }
                } else {
                    proof {
                        assert(v@ =~= self.comps());
                    }
                }
            } else {
                proof {
                    assert(v@ =~= self.comps());
                }
            }
        } else {
            proof {
                assert(v@ =~= self.comps());
            }
        }
        v
    }

    /// Compares under the range ordering, where an absent trailing component
    /// sorts below every present one.
    pub fn range_cmp(&self, other: &SemVer) -> (o: VersionOrder)
        ensures
            o is Less <==> spec_lt(*self, *other),
            o is Equal <==> self.comps() == other.comps(),
            o is Greater <==> spec_lt(*other, *self),
    {
        let a = self.components();
        let b = other.components();
        let an = a.len();
        let bn = b.len();
        let mut i: usize = 0;
        proof {
            lemma_seq_lt_trichotomy(a@, b@);
        }
        loop
            invariant
                0 <= i <= an <= 4,
                i <= bn <= 4,
                an == a@.len(),
                bn == b@.len(),
                a@ == self.comps(),
                b@ == other.comps(),
                a@.subrange(0, i as int) =~= b@.subrange(0, i as int),
            decreases an - i,
        {
            proof {
                lemma_seq_lt_common(a@, b@, i as int);
                lemma_seq_lt_common(b@, a@, i as int);
            }
            if i == an && i == bn {
                proof {
                    assert(a@.subrange(0, i as int) =~= a@);
                    assert(b@.subrange(0, i as int) =~= b@);
                    assert(a@ =~= b@);
                }
                return VersionOrder::Equal;
            }
            if i == an {
                proof {
                    lemma_seq_lt_trichotomy(a@, b@);
                }
                return VersionOrder::Less;
            }
            if i == bn {
                proof {
                    lemma_seq_lt_trichotomy(a@, b@);
                }
                return VersionOrder::Greater;
            }
            let x = a[i];
            let y = b[i];
            if x < y {
                proof {
                    assert(a@.subrange(i as int, an as int)[0] == x);
                    assert(b@.subrange(i as int, bn as int)[0] == y);
                    lemma_seq_lt_trichotomy(a@, b@);
                }
                return VersionOrder::Less;
            }
            if x > y {
                proof {
                    assert(a@.subrange(i as int, an as int)[0] == x);
                    assert(b@.subrange(i as int, bn as int)[0] == y);
                    lemma_seq_lt_trichotomy(a@, b@);
                }
                return VersionOrder::Greater;
            }
            proof {
                assert(a@.subrange(0, i as int + 1) =~= b@.subrange(0, i as int + 1));
            }
            i = i + 1;
        }
    }

    /// Whether `x` falls in the half-open window `[self, next minor)`: at or
    /// above `self`, within the same `major.minor`.
    pub open spec fn spec_in_minor_range(self, x: SemVer) -> bool {
        spec_le(self, x) && x.major == self.major && x.minor == self.minor
    }

    /// Whether `x` satisfies a range-mode request for `self`, which must be
    /// minor-precise.
    pub fn in_minor_range(&self, x: &SemVer) -> (r: bool)
        requires
            self.minor is Some,
        ensures
            r == self.spec_in_minor_range(*x),
    {
        let le = match self.range_cmp(x) {
            VersionOrder::Greater => false,
            _ => true,
        };
        proof {
            lemma_seq_lt_trichotomy(self.comps(), x.comps());
        }
        if !le {
            return false;
        }
        if x.major != self.major {
            return false;
        }
        match (self.minor, x.minor) {
            (Some(a), Some(b)) => a == b,
            (None, None) => true,
            _ => false,
        }
    }

    /// The half-open window of a range-mode request: the request itself as the
    /// inclusive floor, and the next minor version as the exclusive bound.
    /// A request without a minor component cannot be range-matched.
    pub fn minor_range(&self) -> (r: Result<(SemVer, SemVer), CommandError>)
        requires
            self.minor is Some ==> self.minor.unwrap() < u32::MAX,
        ensures
            r is Ok <==> self.minor is Some,
            r is Ok ==> r.unwrap().0 == *self,
            r is Ok ==> r.unwrap().1 == (SemVer {
                major: self.major,
                minor: Some((self.minor.unwrap() + 1) as u32),
                patch: None,
                build_number: None,
            }),
            r is Err ==> r.unwrap_err() is ImpreciseVersion,
    {
        match self.minor {
            Some(m) => Ok(
                (
                    *self,
                    SemVer { major: self.major, minor: Some(m + 1), patch: None, build_number: None },
                ),
            ),
            None => Err(
                CommandError::ImpreciseVersion {
                    message: String::from_str("version request lacks a minor component"),
                },
            ),
        }
    }
}

/// The window law: a version `x` lies in `[v, upper)` — where `upper` is the
/// exclusive bound returned by `minor_range` — exactly when `x` is at or above
/// `v` and shares its `major.minor`. Any `x` with a different `major.minor`
/// falls outside.
pub proof fn lemma_minor_range_window(v: SemVer, x: SemVer)
    requires
        v.wf(),
        x.wf(),
        v.minor is Some,
        v.minor.unwrap() < u32::MAX,
    ensures
        ({
            let upper = SemVer {
                major: v.major,
                minor: Some((v.minor.unwrap() + 1) as u32),
                patch: None,
                build_number: None,
            };
            v.spec_in_minor_range(x) <==> (spec_le(v, x) && spec_lt(x, upper))
        }),
{
    let upper = SemVer {
        major: v.major,
        minor: Some((v.minor.unwrap() + 1) as u32),
        patch: None,
        build_number: None,
    };
    let uc = upper.comps();
    let xc = x.comps();
    assert(uc == seq![v.major, (v.minor.unwrap() + 1) as u32]);
    if v.spec_in_minor_range(x) {
        // x.major == v.major and x.minor == v.minor, so x < upper at the
        // minor position.
        assert(xc[0] == uc[0]);
        let xt = xc.subrange(1, xc.len() as int);
        let ut = uc.subrange(1, uc.len() as int);
        assert(ut[0] == v.minor.unwrap() + 1);
        assert(xt.len() >= 1 && xt[0] == x.minor.unwrap());
        assert(xt[0] < ut[0]);
        assert(seq_lt(xt, ut));
        assert(seq_lt(xc, uc));
    }
    if spec_le(v, x) && spec_lt(x, upper) {
        // From x < upper: x.major <= v.major, and on equal major the minor
        // (if present) stays at or below v.minor.
        if xc.len() == 1 {
            // x is major-only: then x <= {major} < {v.major, v.minor}, so
            // v <= x forces equality of majors and contradicts v <= x unless
            // the majors differ; rule both out.
            let vc = v.comps();
            assert(vc.len() >= 2);
            if x.major == v.major {
                // v's comps extend x's comps, so v > x, contradicting v <= x.
                assert(seq_lt(xc, vc)) by {
                    assert(xc[0] == vc[0]);
                    assert(xc.subrange(1, 1) =~= Seq::<u32>::empty());
                    assert(seq_lt(
                        xc.subrange(1, 1),
                        vc.subrange(1, vc.len() as int),
                    ));
                }
                lemma_seq_lt_trichotomy(vc, xc);
                assert(false);
            } else {
                if x.major < v.major {
                    assert(seq_lt(xc, vc));
                    lemma_seq_lt_trichotomy(vc, xc);
                    assert(false);
                } else {
                    assert(xc[0] > uc[0]);
                    lemma_seq_lt_trichotomy(xc, uc);
                    assert(!seq_lt(xc, uc));
                    assert(false);
                }
            }
        } else {
            assert(xc.len() >= 2 && x.minor is Some);
            let vc = v.comps();
            if x.major != v.major {
                if x.major > v.major {
                    assert(!seq_lt(xc, uc));
                    assert(false);
                } else {
                    assert(seq_lt(xc, vc));
                    lemma_seq_lt_trichotomy(vc, xc);
                    assert(false);
                }
            }
            assert(xc[0] == uc[0]);
            let xt = xc.subrange(1, xc.len() as int);
            let ut = uc.subrange(1, uc.len() as int);
            assert(seq_lt(xt, ut));
            assert(xt[0] == x.minor.unwrap());
            if x.minor.unwrap() != v.minor.unwrap() {
                if x.minor.unwrap() > v.minor.unwrap() {
                    // then xt[0] >= v.minor + 1 == ut[0], so not xt < ut
                    assert(xt[0] >= ut[0]);
                    if xt[0] == ut[0] {
                        assert(ut.subrange(1, 1) =~= Seq::<u32>::empty());
                        assert(!seq_lt(
                            xt.subrange(1, xt.len() as int),
                            ut.subrange(1, 1),
                        ));
                    }
                    assert(false);
                } else {
                    // x.minor < v.minor: then x < v, contradicting v <= x.
                    assert(vc[0] == xc[0]);
                    let vt = vc.subrange(1, vc.len() as int);
                    assert(vt.len() >= 1 && xt.len() >= 1);
                    assert(vt[0] == v.minor.unwrap());
                    assert(xt[0] < vt[0]);
                    assert(seq_lt(xt, vt));
                    assert(seq_lt(xc, vc));
                    lemma_seq_lt_trichotomy(vc, xc);
                    assert(false);
                }
            }
        }
    }
}

proof fn lemma_dec_digits_no_dot(n: nat)
    ensures
        forall|i: int| 0 <= i < dec_digits(n).len() ==> #[trigger] dec_digits(n)[i] != '.',
{
    lemma_dec_digits_well_formed(n);
    assert forall|i: int| 0 <= i < dec_digits(n).len() implies #[trigger] dec_digits(n)[i]
        != '.' by {
        assert(is_digit(dec_digits(n)[i]));
        assert('.' as u32 == 46);
        assert('0' as u32 == 48);
    }
}

/// A separator-free string splits into itself alone.
proof fn lemma_split_on_no_sep(a: Seq<char>, sep: char)
    requires
        forall|i: int| 0 <= i < a.len() ==> #[trigger] a[i] != sep,
    ensures
        split_on(a, sep) =~~= seq![a],
    decreases a.len(),
{
    if a.len() == 0 {
    } else {
        let tail = a.subrange(1, a.len() as int);
        lemma_split_on_no_sep(tail, sep);
        assert(seq![a[0]] + tail =~= a);
    }
}

/// Splitting starts over after the first separator, once the separator-free
/// prefix is set aside.
proof fn lemma_split_on_prefix(a: Seq<char>, rest: Seq<char>, sep: char)
    requires
        forall|i: int| 0 <= i < a.len() ==> #[trigger] a[i] != sep,
    ensures
        split_on(a + seq![sep] + rest, sep) =~~= seq![a] + split_on(rest, sep),
    decreases a.len(),
{
    let s = a + seq![sep] + rest;
    if a.len() == 0 {
        assert(s[0] == sep);
        assert(s.subrange(1, s.len() as int) =~= rest);
    } else {
        let atail = a.subrange(1, a.len() as int);
        lemma_split_on_prefix(atail, rest, sep);
        assert(s[0] == a[0]);
        assert(s[0] != sep);
        assert(s.subrange(1, s.len() as int) =~= atail + seq![sep] + rest);
        crate::strutil::lemma_split_on_len(atail + seq![sep] + rest, sep);
        assert(split_on(s, sep) == prepend_first(
            seq![s[0]],
            split_on(atail + seq![sep] + rest, sep),
        ));
        assert((seq![a[0]] + (seq![atail] + split_on(rest, sep))[0]) =~= a);
    }
}

/// Round trip: formatting a well-formed version and parsing the text gives
/// the same version back.
pub proof fn lemma_parse_format_round_trip(v: SemVer)
    requires
        v.wf(),
    ensures
        spec_parse(spec_format(v)) == Some(v),
{
    let maj = dec_digits(v.major as nat);
    lemma_dec_digits_well_formed(v.major as nat);
    lemma_dec_digits_no_dot(v.major as nat);
    if v.minor is None {
        assert(spec_format(v) =~= maj);
        lemma_split_on_no_sep(maj, '.');
        assert(split_on(spec_format(v), '.') =~~= seq![maj]);
    } else {
        let mnr = dec_digits(v.minor.unwrap() as nat);
        lemma_dec_digits_well_formed(v.minor.unwrap() as nat);
        lemma_dec_digits_no_dot(v.minor.unwrap() as nat);
        if v.patch is None {
            assert(spec_format(v) =~= maj + seq!['.'] + mnr);
            lemma_split_on_prefix(maj, mnr, '.');
            lemma_split_on_no_sep(mnr, '.');
            assert(split_on(spec_format(v), '.') =~~= seq![maj, mnr]);
        } else {
            let pat = dec_digits(v.patch.unwrap() as nat);
            lemma_dec_digits_well_formed(v.patch.unwrap() as nat);
            lemma_dec_digits_no_dot(v.patch.unwrap() as nat);
            if v.build_number is None {
                assert(spec_format(v) =~= maj + seq!['.'] + (mnr + seq!['.'] + pat));
                lemma_split_on_prefix(maj, mnr + seq!['.'] + pat, '.');
                lemma_split_on_prefix(mnr, pat, '.');
                lemma_split_on_no_sep(pat, '.');
                assert(split_on(spec_format(v), '.') =~~= seq![maj, mnr, pat]);
            } else {
                let bld = dec_digits(v.build_number.unwrap() as nat);
                lemma_dec_digits_well_formed(v.build_number.unwrap() as nat);
                lemma_dec_digits_no_dot(v.build_number.unwrap() as nat);
                assert(spec_format(v) =~= maj + seq!['.'] + (mnr + seq!['.'] + (pat + seq!['.']
                    + bld)));
                lemma_split_on_prefix(maj, mnr + seq!['.'] + (pat + seq!['.'] + bld), '.');
                lemma_split_on_prefix(mnr, pat + seq!['.'] + bld, '.');
                lemma_split_on_prefix(pat, bld, '.');
                lemma_split_on_no_sep(bld, '.');
                assert(split_on(spec_format(v), '.') =~~= seq![maj, mnr, pat, bld]);
            }
        }
    }
}

} // verus!

