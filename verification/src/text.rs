//! Character-level helpers shared by the lexer, the error messages and the
//! analysers: conversions between `str`, `String` and `Vec<char>`, decimal
//! rendering of integers and substring replacement.
use vstd::prelude::*;

verus! {

/// Compares two string slices for equality, character by character.
pub(crate) fn str_eq(a: &str, b: &str) -> (r: bool)
    ensures
        r == (a@ == b@),
{
    let x = chars_of(a);
    let y = chars_of(b);
    if x.len() != y.len() {
        return false;
    }
    let mut i: usize = 0;
    while i < x.len()
        invariant
            x@ == a@,
            y@ == b@,
            x@.len() == y@.len(),
            i <= x@.len(),
            forall|j: int| 0 <= j < i ==> x@[j] == y@[j],
        decreases x@.len() - i,
    {
        if x[i] != y[i] {
            return false;
        }
        i = i + 1;
    }
    assert(x@ =~= y@);
    true
}

/// The characters of a string slice, in order, read with `str::chars`.
pub(crate) fn chars_of(s: &str) -> (r: Vec<char>)
    ensures
        r@ == s@,
{
    broadcast use vstd::string::axiom_spec_iter, vstd::string::next_postcondition;

    let mut it = s.chars();
    let mut out: Vec<char> = Vec::new();
    assert(out@ + vstd::std_specs::iter::IteratorSpec::remaining(&it) =~= s@);
    loop
        invariant
            out@ + vstd::std_specs::iter::IteratorSpec::remaining(&it) == s@,
        decreases s@.len() - out@.len(),
    {
        let ghost before = it;
        match it.next() {
            Some(c) => {
                let ghost prev = out@;
                out.push(c);
                assert(out@ + vstd::std_specs::iter::IteratorSpec::remaining(&it) =~= prev + vstd::std_specs::iter::IteratorSpec::remaining(&before));
            },
            None => {
                assert(out@ =~= s@);
                return out;
            },
        }
    }
}

/// A `String` made of the given characters, in order.
///
/// Trusted: `String::from_iter` over `char`s, which std documents as
/// concatenating the characters, so the string holds exactly `v`.
#[verifier::external_body]
pub(crate) fn string_from_chars(v: &Vec<char>) -> (r: String)
    ensures
        r@ == v@,
{
    v.iter().collect()
}

/// An owned copy of a string slice.
pub fn owned(s: &str) -> (r: String)
    ensures
        r@ == s@,
{
    s.to_string()
}

/// Concatenation of two strings.
pub fn concat(a: &str, b: &str) -> (r: String)
    ensures
        r@ == a@ + b@,
{
    let mut v = chars_of(a);
    let w = chars_of(b);
    let mut i: usize = 0;
    while i < w.len()
        invariant
            i <= w.len(),
            w@ == b@,
            v@ == a@ + b@.take(i as int),
        decreases w.len() - i,
    {
        v.push(w[i]);
        i = i + 1;
        assert(b@.take(i as int) == b@.take((i - 1) as int).push(w@[i - 1]));
    }
    assert(b@.take(w.len() as int) == b@);
    string_from_chars(&v)
}

/// The character of a decimal digit.
pub open spec fn digit_char(d: nat) -> char {
    if d == 0 {
        '0'
    } else if d == 1 {
        '1'
    } else if d == 2 {
        '2'
    } else if d == 3 {
        '3'
    } else if d == 4 {
        '4'
    } else if d == 5 {
        '5'
    } else if d == 6 {
        '6'
    } else if d == 7 {
        '7'
    } else if d == 8 {
        '8'
    } else {
        '9'
    }
}

/// The decimal representation of a natural number, most significant digit
/// first, without leading zeros (`0` is written `"0"`).
pub open spec fn decimal(n: nat) -> Seq<char>
    decreases n,
{
    if n < 10 {
        seq![digit_char(n)]
    } else {
        decimal(n / 10).push(digit_char(n % 10))
    }
}

fn digit_of(d: u64) -> (c: char)
    requires
        d < 10,
    ensures
        c == digit_char(d as nat),
{
    if d == 0 {
        '0'
    } else if d == 1 {
        '1'
    } else if d == 2 {
        '2'
    } else if d == 3 {
        '3'
    } else if d == 4 {
        '4'
    } else if d == 5 {
        '5'
    } else if d == 6 {
        '6'
    } else if d == 7 {
        '7'
    } else if d == 8 {
        '8'
    } else {
        '9'
    }
}

/// The decimal representation of `n`, as `to_string` writes it for unsigned
/// integers.
pub fn decimal_string(n: u64) -> (r: String)
    ensures
        r@ == decimal(n as nat),
{
    let v = decimal_chars(n);
    string_from_chars(&v)
}

fn decimal_chars(n: u64) -> (r: Vec<char>)
    ensures
        r@ == decimal(n as nat),
    decreases n,
{
    if n < 10 {
        let mut v: Vec<char> = Vec::new();
        v.push(digit_of(n));
        assert(v@ == seq![digit_char(n as nat)]);
        v
    } else {
        let mut v = decimal_chars(n / 10);
        v.push(digit_of(n % 10));
        v
    }
}

/// `s` with every non-overlapping occurrence of `pat`, scanned from the left,
/// replaced by `rep` (what `str::replace` computes for a non-empty pattern).
pub open spec fn replace_all(s: Seq<char>, pat: Seq<char>, rep: Seq<char>) -> Seq<char>
    decreases s.len(),
{
    if pat.len() == 0 || s.len() < pat.len() {
        s
    } else if s.take(pat.len() as int) == pat {
        rep + replace_all(s.skip(pat.len() as int), pat, rep)
    } else {
        seq![s[0]] + replace_all(s.skip(1), pat, rep)
    }
}

/// Replacing a pattern that does not occur leaves the text as it is.
pub proof fn lemma_replace_absent(s: Seq<char>, pat: Seq<char>, rep: Seq<char>)
    requires
        forall|i: int| 0 <= i && i + pat.len() <= s.len() ==> #[trigger] s.subrange(i, i + pat.len()) != pat,
    ensures
        replace_all(s, pat, rep) == s,
    decreases s.len(),
{
    if pat.len() == 0 || s.len() < pat.len() {
    } else {
        assert(s.subrange(0int, 0int + pat.len()) != pat);
        assert(s.take(pat.len() as int) == s.subrange(0, pat.len() as int));
        let t = s.skip(1);
        assert forall|i: int| 0 <= i && i + pat.len() <= t.len() implies #[trigger] t.subrange(
            i,
            i + pat.len(),
        ) != pat by {
            assert(t.subrange(i, i + pat.len()) == s.subrange(i + 1, i + 1 + pat.len()));
        }
        lemma_replace_absent(t, pat, rep);
        assert(seq![s[0]] + t == s);
    }
}

fn starts_at(s: &Vec<char>, i: usize, pat: &Vec<char>) -> (r: bool)
    requires
        i + pat.len() <= s.len(),
    ensures
        r == (s@.subrange(i as int, i + pat.len()) == pat@),
{
    let mut k: usize = 0;
    while k < pat.len()
        invariant
            i + pat.len() <= s.len(),
            k <= pat.len(),
            forall|j: int| 0 <= j < k ==> s@[i + j] == pat@[j],
        decreases pat.len() - k,
    {
        if s[i + k] != pat[k] {
            assert(s@.subrange(i as int, i + pat.len())[k as int] != pat@[k as int]);
            return false;
        }
        k = k + 1;
    }
    assert(s@.subrange(i as int, i + pat.len()) == pat@);
    true
}

/// Replaces every occurrence of `pat` in `s` by `rep`, as `str::replace`.
pub fn replace_chars(s: &Vec<char>, pat: &Vec<char>, rep: &Vec<char>) -> (r: Vec<char>)
    requires
        pat.len() > 0,
    ensures
        r@ == replace_all(s@, pat@, rep@),
{
    let mut out: Vec<char> = Vec::new();
    let mut i: usize = 0;
    assert(s@.skip(0) == s@);
    assert(out@ + replace_all(s@, pat@, rep@) == replace_all(s@, pat@, rep@));
    while i < s.len()
        invariant
            i <= s.len(),
            pat.len() > 0,
            out@ + replace_all(s@.skip(i as int), pat@, rep@) == replace_all(s@, pat@, rep@),
        decreases s.len() - i,
    {
        let ghost t = s@.skip(i as int);
        if pat.len() <= s.len() - i && starts_at(s, i, pat) {
            assert(t.take(pat.len() as int) == s@.subrange(i as int, i + pat.len()));
            let mut k: usize = 0;
            let ghost out0 = out@;
            while k < rep.len()
                invariant
                    k <= rep.len(),
                    out@ == out0 + rep@.take(k as int),
                decreases rep.len() - k,
            {
                out.push(rep[k]);
                k = k + 1;
                assert(rep@.take(k as int) == rep@.take((k - 1) as int).push(rep@[k - 1]));
            }
            assert(rep@.take(rep.len() as int) == rep@);
            assert(t.skip(pat.len() as int) == s@.skip(i + pat.len()));
            assert(out0 + (rep@ + replace_all(t.skip(pat.len() as int), pat@, rep@)) == out@
                + replace_all(s@.skip(i + pat.len()), pat@, rep@));
            i = i + pat.len();
        } else {
            if pat.len() <= s.len() - i {
                assert(t.take(pat.len() as int) == s@.subrange(i as int, i + pat.len()));
            }
            assert(t.skip(1) == s@.skip(i + 1));
            let ghost out0 = out@;
            out.push(s[i]);
            proof {
                if t.len() < pat@.len() {
                    // the rest is kept as it is
                    assert(replace_all(t, pat@, rep@) == t);
                    assert(replace_all(t.skip(1), pat@, rep@) == t.skip(1)) by {
                        assert(t.skip(1).len() < pat@.len());
                    }
                    assert(t == seq![t[0]] + t.skip(1));
                }
            }
            assert(out0 + (seq![s@[i as int]] + replace_all(t.skip(1), pat@, rep@)) == out@
                + replace_all(s@.skip(i + 1), pat@, rep@));
            i = i + 1;
        }
    }
    assert(s@.skip(s.len() as int) == Seq::<char>::empty());
    assert(out@ + Seq::<char>::empty() == out@);
    out
}

/// Replaces every occurrence of `pat` in `s` by `rep`, as `str::replace`.
pub fn replace(s: &str, pat: &str, rep: &str) -> (r: String)
    requires
        pat@.len() > 0,
    ensures
        r@ == replace_all(s@, pat@, rep@),
{
    let sv = chars_of(s);
    let pv = chars_of(pat);
    let rv = chars_of(rep);
    let out = replace_chars(&sv, &pv, &rv);
    string_from_chars(&out)
}

} // verus!
