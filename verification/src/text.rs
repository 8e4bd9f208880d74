//! The textual ground of the instruction set: splitting a line into
//! space-separated tokens, joining tokens back, and reading decimal
//! integers out of tokens.

use vstd::prelude::*;

verus! {

/// The tokens of `s`, split on every single space character. Splitting never
/// loses text: empty tokens stand where two spaces touch, so joining the
/// tokens with single spaces gives `s` back (`lemma_join_split`).
pub open spec fn spec_split(s: Seq<char>) -> Seq<Seq<char>>
    decreases s.len(),
{
    if s.len() == 0 {
        seq![Seq::<char>::empty()]
    } else if s[0] == ' ' {
        seq![Seq::<char>::empty()] + spec_split(s.skip(1))
    } else {
        let rest = spec_split(s.skip(1));
        rest.update(0, seq![s[0]] + rest[0])
    }
}

/// The tokens joined with single spaces: the canonical text of a token list.
pub open spec fn spec_join(parts: Seq<Seq<char>>) -> Seq<char>
    decreases parts.len(),
{
    if parts.len() == 0 {
        Seq::<char>::empty()
    } else if parts.len() == 1 {
        parts[0]
    } else {
        parts[0] + seq![' '] + spec_join(parts.skip(1))
    }
}

/// A line always has at least one token.
pub proof fn lemma_split_len(s: Seq<char>)
    ensures
        spec_split(s).len() >= 1,
    decreases s.len(),
{
    if s.len() == 0 {
    } else if s[0] == ' ' {
        lemma_split_len(s.skip(1));
    } else {
        lemma_split_len(s.skip(1));
    }
}

/// Joining the tokens of `s` with single spaces reproduces `s` exactly.
pub proof fn lemma_join_split(s: Seq<char>)
    ensures
        spec_join(spec_split(s)) == s,
    decreases s.len(),
{
    if s.len() == 0 {
        assert(spec_join(spec_split(s)) =~= s);
    } else if s[0] == ' ' {
        lemma_join_split(s.skip(1));
        lemma_split_len(s.skip(1));
        let parts = spec_split(s);
        assert(parts.skip(1) =~= spec_split(s.skip(1)));
        assert(spec_join(parts) =~= s);
    } else {
        lemma_join_split(s.skip(1));
        lemma_split_len(s.skip(1));
        let rest = spec_split(s.skip(1));
        let parts = spec_split(s);
        if rest.len() == 1 {
            assert(spec_join(rest) == rest[0]);
            assert(spec_join(parts) == seq![s[0]] + rest[0]);
            assert(spec_join(parts) =~= s);
        } else {
            assert(parts.len() == rest.len());
            assert(parts.skip(1) =~= rest.skip(1));
            assert(spec_join(parts) == (seq![s[0]] + rest[0]) + seq![' '] + spec_join(rest.skip(1)));
            assert(spec_join(rest) == rest[0] + seq![' '] + spec_join(rest.skip(1)));
            assert(spec_join(parts) =~= seq![s[0]] + spec_join(rest));
            assert(spec_join(parts) =~= s);
        }
    }
}

/// A stretch without spaces is a single token.
pub proof fn lemma_split_no_space(s: Seq<char>)
    requires
        forall|i: int| 0 <= i < s.len() ==> s[i] != ' ',
    ensures
        spec_split(s) == seq![s],
    decreases s.len(),
{
    if s.len() == 0 {
        assert(spec_split(s) =~~= seq![s]);
    } else {
        lemma_split_no_space(s.skip(1));
        assert(seq![s[0]] + s.skip(1) =~= s);
        assert(spec_split(s) =~~= seq![s]);
    }
}

/// Splitting at the first space: the text before it is the first token, and
/// the rest of the line is split on its own.
pub proof fn lemma_split_at_first_space(s: Seq<char>, k: int)
    requires
        0 <= k < s.len(),
        s[k] == ' ',
        forall|i: int| 0 <= i < k ==> s[i] != ' ',
    ensures
        spec_split(s) == seq![s.take(k)] + spec_split(s.skip(k + 1)),
    decreases k,
{
    if k == 0 {
        assert(s.take(0) =~= Seq::<char>::empty());
        assert(spec_split(s) =~~= seq![s.take(0)] + spec_split(s.skip(1)));
    } else {
        let t = s.skip(1);
        lemma_split_at_first_space(t, k - 1);
        lemma_split_len(t.skip(k));
        assert(seq![s[0]] + t.take(k - 1) =~= s.take(k));
        assert(t.skip(k) =~= s.skip(k + 1));
        let rest = spec_split(t);
        assert(rest == seq![t.take(k - 1)] + spec_split(t.skip(k)));
        assert(rest[0] == t.take(k - 1));
        assert(spec_split(s) == rest.update(0, seq![s[0]] + rest[0]));
        assert(spec_split(s) =~~= seq![s.take(k)] + spec_split(s.skip(k + 1)));
    }
}

/// Joining three tokens, written out.
pub proof fn lemma_join3(a: Seq<char>, b: Seq<char>, c: Seq<char>)
    ensures
        spec_join(seq![a, b, c]) == a + seq![' '] + b + seq![' '] + c,
{
    assert(seq![a, b, c].skip(1) =~= seq![b, c]);
    assert(seq![b, c].skip(1) =~= seq![c]);
    assert(spec_join(seq![c]) == c);
    assert(spec_join(seq![b, c]) == b + seq![' '] + c);
    assert(a + seq![' '] + (b + seq![' '] + c) =~= a + seq![' '] + b + seq![' '] + c);
}

/// Joining four tokens, written out.
pub proof fn lemma_join4(a: Seq<char>, b: Seq<char>, c: Seq<char>, d: Seq<char>)
    ensures
        spec_join(seq![a, b, c, d]) == a + seq![' '] + b + seq![' '] + c + seq![' '] + d,
{
    lemma_join3(b, c, d);
    assert(seq![a, b, c, d].skip(1) =~= seq![b, c, d]);
    assert(a + seq![' '] + (b + seq![' '] + c + seq![' '] + d) =~= a + seq![' '] + b + seq![' ']
        + c + seq![' '] + d);
}

/// Character-by-character equality of two text slices.
pub fn str_eq_str(a: &str, b: &str) -> (r: bool)
    ensures
        r == (a@ == b@),
{
    let na = a.unicode_len();
    let nb = b.unicode_len();
    if na != nb {
        return false;
    }
    let mut i: usize = 0;
    while i < na
        invariant
            0 <= i <= na,
            na == a@.len(),
            na == b@.len(),
            forall|m: int| 0 <= m < i ==> a@[m] == b@[m],
        decreases na - i,
    {
        if a.get_char(i) != b.get_char(i) {
            return false;
        }
        i = i + 1;
    }
    assert(a@ =~= b@);
    true
}

/// The decimal digits.
pub open spec fn is_digit(c: char) -> bool {
    48 <= c as int && c as int <= 57
}

/// The value of one digit.
pub open spec fn digit_val(c: char) -> int {
    c as int - 48
}

pub open spec fn all_digits(s: Seq<char>) -> bool {
    forall|i: int| 0 <= i < s.len() ==> is_digit(#[trigger] s[i])
}

/// A non-empty run of digits: the form of a non-negative integer literal.
pub open spec fn is_nat_token(s: Seq<char>) -> bool {
    s.len() > 0 && all_digits(s)
}

/// The value of a digit string, most significant digit first.
pub open spec fn dec_val(s: Seq<char>) -> nat
    decreases s.len(),
{
    if s.len() == 0 {
        0
    } else {
        (10 * dec_val(s.drop_last()) + digit_val(s.last())) as nat
    }
}

/// The form of a signed integer literal: digits, optionally after one `-`.
pub open spec fn is_int_token(s: Seq<char>) -> bool {
    if s.len() > 0 && s[0] == '-' {
        is_nat_token(s.skip(1))
    } else {
        is_nat_token(s)
    }
}

/// The value of a signed integer literal.
pub open spec fn int_val(s: Seq<char>) -> int {
    if s.len() > 0 && s[0] == '-' {
        -(dec_val(s.skip(1)) as int)
    } else {
        dec_val(s) as int
    }
}

/// A signed integer literal whose value fits a 32-bit register cell.
pub open spec fn is_i32_token(s: Seq<char>) -> bool {
    is_int_token(s) && i32::MIN <= int_val(s) && int_val(s) <= i32::MAX
}

/// How reading a capped non-negative integer out of a token can end.
#[derive(Clone, Copy, Debug, PartialEq, Eq, Structural)]
pub enum NatParse {
    /// The text is empty or holds a character that is no digit.
    BadDigit,
    /// A well-formed digit string whose value is over the cap.
    TooBig,
    /// A well-formed digit string with its value.
    Value(usize),
}

/// Reads the digit string `t[from..]` as a non-negative integer, refusing a
/// value over `cap`.
pub fn parse_nat_capped(t: &str, from: usize, cap: usize) -> (r: NatParse)
    requires
        from as int <= t@.len(),
    ensures
        ({
            let p = t@.skip(from as int);
            match r {
                NatParse::BadDigit => !is_nat_token(p),
                NatParse::TooBig => is_nat_token(p) && dec_val(p) > cap,
                NatParse::Value(v) => is_nat_token(p) && v == dec_val(p) && dec_val(p) <= cap,
            }
        }),
{
    let ghost p = t@.skip(from as int);
    let n = t.unicode_len();
    if from == n {
        assert(p.len() == 0);
        return NatParse::BadDigit;
    }
    let mut i = from;
    let mut acc: usize = 0;
    let mut big = false;
    while i < n
        invariant
            from <= i <= n,
            n == t@.len(),
            from < n,
            p == t@.skip(from as int),
            all_digits(t@.subrange(from as int, i as int)),
            !big ==> acc == dec_val(t@.subrange(from as int, i as int)) && acc <= cap,
            big ==> dec_val(t@.subrange(from as int, i as int)) > cap,
        decreases n - i,
    {
        let ghost pre = t@.subrange(from as int, i as int);
        let c = t.get_char(i);
        let u = c as u32;
        if u < 48 || u > 57 {
            assert(p[i as int - from as int] == t@[i as int]);
            assert(!all_digits(p));
            return NatParse::BadDigit;
        }
        let d = (u - 48) as usize;
        proof {
            let cur = t@.subrange(from as int, i as int + 1);
            assert(cur.drop_last() =~= pre);
            assert(cur.last() == t@[i as int]);
            assert(dec_val(cur) == (10 * dec_val(pre) + digit_val(t@[i as int])) as nat);
            assert(all_digits(cur));
        }
        if big {
            proof {
                let cur = t@.subrange(from as int, i as int + 1);
                assert(dec_val(cur) >= dec_val(pre));
            }
        } else {
            let next: u128 = (acc as u128) * 10 + (d as u128);
            if next > cap as u128 {
                big = true;
            } else {
                acc = next as usize;
            }
        }
        i = i + 1;
    }
    assert(t@.subrange(from as int, n as int) =~= p);
    if big {
        NatParse::TooBig
    } else {
        NatParse::Value(acc)
    }
}

/// Reads a whole token as a signed 32-bit integer literal: digits, optionally
/// after one `-`, rejected when malformed or out of the 32-bit range.
pub fn parse_i32_token(t: &str) -> (r: Option<i32>)
    ensures
        r is Some <==> is_i32_token(t@),
        r matches Some(v) ==> v as int == int_val(t@),
{
    let n = t.unicode_len();
    if n > 0 && t.get_char(0) == '-' {
        match parse_nat_capped(t, 1, 2147483648) {
            NatParse::Value(v) => {
                if v == 2147483648 {
                    Some(i32::MIN)
                } else {
                    Some(-(v as i32))
                }
            },
            NatParse::TooBig => None,
            NatParse::BadDigit => None,
        }
    } else {
        match parse_nat_capped(t, 0, 2147483647) {
            NatParse::Value(v) => {
                assert(t@.skip(0) =~= t@);
                Some(v as i32)
            },
            NatParse::TooBig => {
                assert(t@.skip(0) =~= t@);
                None
            },
            NatParse::BadDigit => {
                assert(t@.skip(0) =~= t@);
                None
            },
        }
    }
}

} // verus!
