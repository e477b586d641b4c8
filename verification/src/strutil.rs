use vstd::prelude::*;

verus! {

// ---------------------------------------------------------------------------
// Decimal digits
// ---------------------------------------------------------------------------

/// Whether `c` is a decimal digit.
pub open spec fn is_digit(c: char) -> bool {
    '0' as u32 <= c as u32 && c as u32 <= '9' as u32
}

/// The numeric value of a digit character.
pub open spec fn digit_val(c: char) -> nat
    recommends
        is_digit(c),
{
    (c as u32 - '0' as u32) as nat
}

/// The digit character for a value below ten.
pub open spec fn digit_to_char(d: nat) -> char
    recommends
        d < 10,
{
    if d == 0 {
        '0'
    } else if d == 1 {
        '1'
    } else if d == 2 {
        '2'
    } else if d == 3 {
        '3'
    } else if d == 4 {
        '4'
    } else if d == 5 {
        '5'
    } else if d == 6 {
        '6'
    } else if d == 7 {
        '7'
    } else if d == 8 {
        '8'
    } else {
        '9'
    }
}

/// The decimal rendering of `n`, most significant digit first, no sign,
/// no leading zero except for `n == 0` itself.
pub open spec fn dec_digits(n: nat) -> Seq<char>
    decreases n,
{
    if n < 10 {
        seq![digit_to_char(n)]
    } else {
        dec_digits(n / 10).push(digit_to_char(n % 10))
    }
}

pub open spec fn all_digits(s: Seq<char>) -> bool {
    forall|i: int| 0 <= i < s.len() ==> is_digit(#[trigger] s[i])
}

/// The value of a digit string, read in base ten. Leading zeros are allowed
/// and do not change the value.
pub open spec fn digits_val(s: Seq<char>) -> nat
    decreases s.len(),
{
    if s.len() == 0 {
        0
    } else {
        digits_val(s.drop_last()) * 10 + digit_val(s.last())
    }
}

pub proof fn lemma_digit_char_round(d: nat)
    requires
        d < 10,
    ensures
        digit_val(digit_to_char(d)) == d,
        is_digit(digit_to_char(d)),
{
    if d == 0 {
        assert(digit_to_char(d) == '0');
        assert('0' as u32 == 48);
    } else if d == 1 {
        assert('1' as u32 == 49);
    } else if d == 2 {
        assert('2' as u32 == 50);
    } else if d == 3 {
        assert('3' as u32 == 51);
    } else if d == 4 {
        assert('4' as u32 == 52);
    } else if d == 5 {
        assert('5' as u32 == 53);
    } else if d == 6 {
        assert('6' as u32 == 54);
    } else if d == 7 {
        assert('7' as u32 == 55);
    } else if d == 8 {
        assert('8' as u32 == 56);
    } else {
        assert('9' as u32 == 57);
    }
    assert('0' as u32 == 48);
    assert('9' as u32 == 57);
}

pub proof fn lemma_dec_digits_well_formed(n: nat)
    ensures
        dec_digits(n).len() >= 1,
        all_digits(dec_digits(n)),
        digits_val(dec_digits(n)) == n,
    decreases n,
{
    if n < 10 {
        lemma_digit_char_round(n);
        assert(dec_digits(n) == seq![digit_to_char(n)]);
        assert(dec_digits(n).drop_last() =~= Seq::<char>::empty());
        assert(dec_digits(n).last() == digit_to_char(n));
        assert(digits_val(Seq::<char>::empty()) == 0);
        assert(digits_val(dec_digits(n)) == digits_val(dec_digits(n).drop_last()) * 10
            + digit_val(dec_digits(n).last()));
    } else {
        lemma_dec_digits_well_formed(n / 10);
        lemma_digit_char_round(n % 10);
        let s = dec_digits(n / 10);
        let c = digit_to_char(n % 10);
        assert(dec_digits(n) == s.push(c));
        assert(s.push(c).drop_last() =~= s);
        assert(s.push(c).last() == c);
        assert(digit_val(c) == n % 10);
        assert forall|i: int| 0 <= i < s.push(c).len() implies is_digit(#[trigger] s.push(c)[i]) by {
            if i < s.len() {
                assert(s.push(c)[i] == s[i]);
            } else {
                assert(s.push(c)[i] == c);
            }
        }
        assert(digits_val(s.push(c)) == (n / 10) * 10 + n % 10);
        assert((n / 10) * 10 + n % 10 == n) by {
            vstd::arithmetic::div_mod::lemma_fundamental_div_mod(n as int, 10);
        }
    }
}

/// Appending a digit multiplies the value by ten and adds the digit.
pub proof fn lemma_digits_val_step(s: Seq<char>, i: int)
    requires
        0 <= i < s.len(),
    ensures
        digits_val(s.subrange(0, i + 1)) == digits_val(s.subrange(0, i)) * 10 + digit_val(s[i]),
{
    let p = s.subrange(0, i + 1);
    assert(p.drop_last() =~= s.subrange(0, i));
    assert(p.last() == s[i]);
}

/// The value of a digit string never decreases as the string is extended.
pub proof fn lemma_digits_val_prefix_le(s: Seq<char>, i: int, j: int)
    requires
        0 <= i <= j <= s.len(),
    ensures
        digits_val(s.subrange(0, i)) <= digits_val(s.subrange(0, j)),
    decreases j - i,
{
    if i < j {
        lemma_digits_val_prefix_le(s, i, j - 1);
        lemma_digits_val_step(s, j - 1);
        let v = digits_val(s.subrange(0, j - 1));
        assert(v * 10 + digit_val(s[j - 1]) >= v) by {
            assert(v * 10 == v + 9 * v) by (nonlinear_arith);
        }
    } else {
        assert(s.subrange(0, i) =~= s.subrange(0, j));
    }
}

/// A usable version component: non-empty, all digits, and within `u32`.
pub open spec fn valid_component(p: Seq<char>) -> bool {
    p.len() > 0 && all_digits(p) && digits_val(p) <= u32::MAX
}

// ---------------------------------------------------------------------------
// Splitting on a separator character
// ---------------------------------------------------------------------------

/// `parts` with its first element prefixed by `c`.
pub open spec fn prepend_first(c: Seq<char>, parts: Seq<Seq<char>>) -> Seq<Seq<char>>
    recommends
        parts.len() > 0,
{
    seq![c + parts[0]] + parts.subrange(1, parts.len() as int)
}

/// The pieces of `s` between occurrences of `sep`; always at least one piece,
/// and empty pieces are kept.
pub open spec fn split_on(s: Seq<char>, sep: char) -> Seq<Seq<char>>
    decreases s.len(),
{
    if s.len() == 0 {
        seq![Seq::<char>::empty()]
    } else if s[0] == sep {
        seq![Seq::<char>::empty()] + split_on(s.subrange(1, s.len() as int), sep)
    } else {
        prepend_first(seq![s[0]], split_on(s.subrange(1, s.len() as int), sep))
    }
}

pub proof fn lemma_split_on_len(s: Seq<char>, sep: char)
    ensures
        split_on(s, sep).len() >= 1,
    decreases s.len(),
{
    if s.len() != 0 {
        lemma_split_on_len(s.subrange(1, s.len() as int), sep);
    }
}

proof fn lemma_prepend_first_assoc(a: Seq<char>, b: Seq<char>, parts: Seq<Seq<char>>)
    requires
        parts.len() > 0,
    ensures
        prepend_first(a, prepend_first(b, parts)) =~~= prepend_first(a + b, parts),
{
    assert((a + (b + parts[0])) =~= ((a + b) + parts[0]));
}

/// One step of the forward split: consuming a non-separator character moves it
/// onto the current piece.
pub proof fn lemma_split_on_step_other(cur: Seq<char>, rest: Seq<char>, sep: char)
    requires
        rest.len() > 0,
        rest[0] != sep,
    ensures
        prepend_first(cur, split_on(rest, sep)) =~~= prepend_first(
            cur.push(rest[0]),
            split_on(rest.subrange(1, rest.len() as int), sep),
        ),
{
    let tail = rest.subrange(1, rest.len() as int);
    lemma_split_on_len(tail, sep);
    assert(split_on(rest, sep) == prepend_first(seq![rest[0]], split_on(tail, sep)));
    lemma_prepend_first_assoc(cur, seq![rest[0]], split_on(tail, sep));
    assert(cur + seq![rest[0]] =~= cur.push(rest[0]));
}

/// One step of the forward split: consuming the separator closes the current
/// piece.
pub proof fn lemma_split_on_step_sep(cur: Seq<char>, rest: Seq<char>, sep: char)
    requires
        rest.len() > 0,
        rest[0] == sep,
    ensures
        prepend_first(cur, split_on(rest, sep)) =~~= seq![cur] + split_on(
            rest.subrange(1, rest.len() as int),
            sep,
        ),
{
    let tail = rest.subrange(1, rest.len() as int);
    lemma_split_on_len(tail, sep);
    assert(cur + Seq::<char>::empty() =~= cur);
}

/// At the end of the input the current piece is the last piece.
pub proof fn lemma_split_on_end(cur: Seq<char>, sep: char)
    ensures
        prepend_first(cur, split_on(Seq::<char>::empty(), sep)) =~~= seq![cur],
{
    assert(cur + Seq::<char>::empty() =~= cur);
}

/// Splits `s` at every occurrence of `sep`, keeping empty pieces.
pub fn split_str_on(s: &str, sep: char) -> (parts: Vec<String>)
    ensures
        parts.deep_view() =~~= split_on(s@, sep),
        parts.len() >= 1,
{
    let n = s.unicode_len();
    let mut parts: Vec<String> = Vec::new();
    let mut start: usize = 0;
    let mut i: usize = 0;
    proof {
        lemma_split_on_len(s@, sep);
        assert(s@.subrange(0, n as int) =~= s@);
        assert(s@.subrange(0, 0) =~= Seq::<char>::empty());
        assert(Seq::<char>::empty() + split_on(s@, sep)[0] =~= split_on(s@, sep)[0]);
        assert(prepend_first(Seq::<char>::empty(), split_on(s@, sep)) =~~= split_on(s@, sep));
    }
    while i < n
        invariant
            0 <= start <= i <= n,
            n == s@.len(),
            split_on(s@, sep) =~~= parts.deep_view() + prepend_first(
                s@.subrange(start as int, i as int),
                split_on(s@.subrange(i as int, n as int), sep),
            ),
        decreases n - i,
    {
        let c = s.get_char(i);
        proof {
            let cur = s@.subrange(start as int, i as int);
            let rest = s@.subrange(i as int, n as int);
            let tail = s@.subrange(i as int + 1, n as int);
            assert(rest.subrange(1, rest.len() as int) =~= tail);
            if c == sep {
                lemma_split_on_step_sep(cur, rest, sep);
            } else {
                lemma_split_on_step_other(cur, rest, sep);
                assert(cur.push(rest[0]) =~= s@.subrange(start as int, i as int + 1));
            }
        }
        if c == sep {
            let piece = s.substring_char(start, i).to_owned();
            parts.push(piece);
            start = i + 1;
        }
        i = i + 1;
    }
    let last = s.substring_char(start, n).to_owned();
    proof {
        lemma_split_on_end(s@.subrange(start as int, n as int), sep);
        assert(s@.subrange(n as int, n as int) =~= Seq::<char>::empty());
    }
    parts.push(last);
    proof {
        lemma_split_on_len(s@, sep);
    }
    parts
}

// ---------------------------------------------------------------------------
// Numeric parsing and formatting
// ---------------------------------------------------------------------------

/// Parses a non-empty, all-digit string as a base-ten number, failing on
/// anything else and on values that do not fit in a `u32`.
pub fn parse_u32(s: &str) -> (r: Option<u32>)
    ensures
        r is Some <==> s@.len() > 0 && all_digits(s@) && digits_val(s@) <= u32::MAX,
        r is Some ==> r.unwrap() as nat == digits_val(s@),
{
    let n = s.unicode_len();
    if n == 0 {
        return None;
    }
    let mut val: u64 = 0;
    let mut i: usize = 0;
    while i < n
        invariant
            0 <= i <= n,
            n == s@.len(),
            n > 0,
            all_digits(s@.subrange(0, i as int)),
            val as nat == digits_val(s@.subrange(0, i as int)),
            val <= u32::MAX,
        decreases n - i,
    {
        let c = s.get_char(i);
        let cv = c as u32;
        if cv < '0' as u32 || cv > '9' as u32 {
            assert(!is_digit(s@[i as int]));
            return None;
        }
        let d = (cv - '0' as u32) as u64;
        proof {
            lemma_digits_val_step(s@, i as int);
        }
        let next: u64 = val * 10 + d;
        if next > u32::MAX as u64 {
            proof {
                lemma_digits_val_prefix_le(s@, i as int + 1, n as int);
                assert(s@.subrange(0, n as int) =~= s@);
            }
            return None;
        }
        val = next;
        proof {
            assert(all_digits(s@.subrange(0, i as int + 1))) by {
                let p = s@.subrange(0, i as int + 1);
                assert(forall|k: int| 0 <= k < p.len() ==> is_digit(#[trigger] p[k]));
            }
        }
        i = i + 1;
    }
    proof {
        assert(s@.subrange(0, n as int) =~= s@);
    }
    Some(val as u32)
}

/// The digit character for a value below ten, as a one-character string.
fn digit_str(d: u32) -> (r: &'static str)
    requires
        d < 10,
    ensures
        r@ =~= seq![digit_to_char(d as nat)],
{
    proof {
        reveal_strlit("0");
        reveal_strlit("1");
        reveal_strlit("2");
        reveal_strlit("3");
        reveal_strlit("4");
        reveal_strlit("5");
        reveal_strlit("6");
        reveal_strlit("7");
        reveal_strlit("8");
        reveal_strlit("9");
    }
    if d == 0 {
        "0"
    } else if d == 1 {
        "1"
    } else if d == 2 {
        "2"
    } else if d == 3 {
        "3"
    } else if d == 4 {
        "4"
    } else if d == 5 {
        "5"
    } else if d == 6 {
        "6"
    } else if d == 7 {
        "7"
    } else if d == 8 {
        "8"
    } else {
        "9"
    }
}

/// Renders `n` in decimal.
pub fn fmt_u32(n: u32) -> (s: String)
    ensures
        s@ =~= dec_digits(n as nat),
    decreases n,
{
    if n < 10 {
        digit_str(n).to_owned()
    } else {
        let mut s = fmt_u32(n / 10);
        let d = digit_str(n % 10);
        s.append(d);
        proof {
            assert(s@ =~= dec_digits((n / 10) as nat).push(digit_to_char((n % 10) as nat)));
        }
        s
    }
}

} // verus!
