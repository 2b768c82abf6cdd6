//! Character-level helpers shared by the rest of the library.

use vstd::prelude::*;
use vstd::utf8::encode_utf8;

verus! {

/// Appends one character to a string.
///
/// Trusted: std's `String::push`, which (per its documentation) appends the
/// character at the end of the string.
#[verifier::external_body]
pub fn push_char(s: &mut String, c: char)
    ensures
        final(s)@ == old(s)@.push(c),
{
    s.push(c);
}

/// The characters of `s`, in order.
pub fn chars_of(s: &str) -> (out: Vec<char>)
    ensures
        out@ == s@,
{
    let mut out: Vec<char> = Vec::new();
    for c in it: s.chars()
        invariant
            out@ == it.seq().take(it.index() as int),
    {
        out.push(c);
    }
    out
}

} // verus!

verus! {

/// The string made of the characters `chars`, in order.
pub fn string_from_chars(chars: &Vec<char>) -> (s: String)
    ensures
        s@ == chars@,
{
    let mut s = String::new();
    for i in 0..chars.len()
        invariant
            s@ == chars@.take(i as int),
    {
        push_char(&mut s, chars[i]);
        assert(chars@.take(i + 1) == chars@.take(i as int).push(chars@[i as int]));
    }
    assert(chars@.take(chars@.len() as int) == chars@);
    s
}

/// The decimal digit character for `d` (0 to 9).
pub open spec fn digit_char(d: int) -> char {
    seq!['0', '1', '2', '3', '4', '5', '6', '7', '8', '9'][d]
}

/// The decimal representation of `n`, without leading zeros.
pub open spec fn decimal(n: nat) -> Seq<char>
    decreases n,
{
    if n < 10 {
        seq![digit_char(n as int)]
    } else {
        decimal(n / 10).push(digit_char((n % 10) as int))
    }
}

/// `n` in decimal, left-padded with `'0'` to at least `width` characters
/// (what `format!("{:0width$}", n)` produces).
pub open spec fn zero_padded(n: nat, width: nat) -> Seq<char> {
    let d = decimal(n);
    if d.len() < width {
        Seq::new((width - d.len()) as nat, |i: int| '0') + d
    } else {
        d
    }
}

fn digit(d: u64) -> (c: char)
    requires
        d < 10,
    ensures
        c == digit_char(d as int),
{
    match d {
        0 => '0',
        1 => '1',
        2 => '2',
        3 => '3',
        4 => '4',
        5 => '5',
        6 => '6',
        7 => '7',
        8 => '8',
        _ => '9',
    }
}

/// The decimal digits of `n`, as characters.
pub fn decimal_chars(n: u64) -> (out: Vec<char>)
    ensures
        out@ == decimal(n as nat),
        1 <= out@.len(),
{
    let mut rest: u64 = n;
    let mut acc: Vec<char> = Vec::new();
    while rest >= 10
        invariant
            decimal(n as nat) == decimal(rest as nat) + acc@,
        decreases rest,
    {
        let d = digit(rest % 10);
        proof {
            assert(decimal(rest as nat) == decimal((rest / 10) as nat).push(d));
            assert(decimal(rest as nat) + acc@ == decimal((rest / 10) as nat) + seq![d].add(acc@));
        }
        acc.insert(0, d);
        rest = rest / 10;
    }
    let d = digit(rest);
    acc.insert(0, d);
    assert(decimal(rest as nat) == seq![d]);
    assert(acc@ == seq![d] + (acc@.drop_first()));
    acc
}

} // verus!

verus! {

/// `pat` occurs in `s` starting at position `i`.
pub open spec fn occurs_at(s: Seq<char>, pat: Seq<char>, i: int) -> bool {
    0 <= i && i + pat.len() <= s.len() && s.subrange(i, i + pat.len()) == pat
}

/// `pat` occurs somewhere in `s` (what `str::contains` answers; an empty
/// pattern occurs in every string).
pub open spec fn has_substring(s: Seq<char>, pat: Seq<char>) -> bool {
    exists|i: int| occurs_at(s, pat, i)
}

/// Whether `pat` occurs in `s` at position `i`.
pub fn matches_at(s: &Vec<char>, pat: &Vec<char>, i: usize) -> (b: bool)
    ensures
        b == occurs_at(s@, pat@, i as int),
{
    if pat.len() > s.len() || i > s.len() - pat.len() {
        return false;
    }
    let mut j: usize = 0;
    while j < pat.len()
        invariant
            i + pat@.len() <= s@.len(),
            s@.len() == s.len(),
            pat@.len() == pat.len(),
            j <= pat@.len(),
            forall|k: int| 0 <= k < j ==> s@[i + k] == pat@[k],
        decreases pat@.len() - j,
    {
        if s[i + j] != pat[j] {
            assert(s@.subrange(i as int, i + pat@.len())[j as int] != pat@[j as int]);
            return false;
        }
        j = j + 1;
    }
    assert(s@.subrange(i as int, i + pat@.len()) =~= pat@);
    true
}

/// Whether `pat` occurs anywhere in `s`.
pub fn contains_chars(s: &Vec<char>, pat: &Vec<char>) -> (b: bool)
    ensures
        b == has_substring(s@, pat@),
{
    if pat.len() > s.len() {
        assert(forall|i: int| !occurs_at(s@, pat@, i));
        return false;
    }
    if pat.len() == 0 {
        assert(s@.subrange(0, 0) =~= pat@);
        assert(occurs_at(s@, pat@, 0));
        return true;
    }
    let last: usize = s.len() - pat.len();
    let mut i: usize = 0;
    while i <= last
        invariant
            last == s@.len() - pat@.len(),
            last < s.len(),
            i <= last + 1,
            forall|k: int| 0 <= k < i ==> !occurs_at(s@, pat@, k),
        decreases last + 1 - i,
    {
        if matches_at(s, pat, i) {
            return true;
        }
        i = i + 1;
    }
    assert(forall|k: int| !occurs_at(s@, pat@, k));
    false
}

/// Whether `pat` occurs anywhere in `s` (`str::contains`).
pub fn str_contains(s: &str, pat: &str) -> (b: bool)
    ensures
        b == has_substring(s@, pat@),
{
    let sc = chars_of(s);
    let pc = chars_of(pat);
    contains_chars(&sc, &pc)
}

/// Appends the characters of `t` to `s`.
pub fn push_str(s: &mut String, t: &str)
    ensures
        final(s)@ == old(s)@ + t@,
{
    let tc = chars_of(t);
    for i in 0..tc.len()
        invariant
            tc@ == t@,
            s@ == old(s)@ + t@.take(i as int),
    {
        push_char(s, tc[i]);
        assert(t@.take(i + 1) == t@.take(i as int).push(t@[i as int]));
    }
    assert(t@.take(t@.len() as int) == t@);
}

/// `n` in decimal, left-padded with zeros to at least `width` characters.
pub fn zero_padded_string(n: u64, width: usize) -> (s: String)
    ensures
        s@ == zero_padded(n as nat, width as nat),
{
    let digits = decimal_chars(n);
    let mut s = String::new();
    if digits.len() < width {
        let pad: usize = width - digits.len();
        let mut k: usize = 0;
        while k < pad
            invariant
                k <= pad,
                s@ == Seq::new(k as nat, |i: int| '0'),
            decreases pad - k,
        {
            push_char(&mut s, '0');
            k = k + 1;
            assert(s@ =~= Seq::new(k as nat, |i: int| '0'));
        }
    }
    let ghost before = s@;
    for i in 0..digits.len()
        invariant
            s@ == before + digits@.take(i as int),
    {
        push_char(&mut s, digits[i]);
        assert(digits@.take(i + 1) == digits@.take(i as int).push(digits@[i as int]));
    }
    assert(digits@.take(digits@.len() as int) == digits@);
    if digits.len() < width {
        assert(before =~= Seq::new((width - digits@.len()) as nat, |i: int| '0'));
    } else {
        assert(before =~= Seq::<char>::empty());
    }
    s
}

} // verus!

verus! {

/// The first `n` items of `s`, or all of `s` when it is shorter
/// (what `take(n)` on an iterator yields).
pub open spec fn first_n<A>(s: Seq<A>, n: nat) -> Seq<A> {
    if s.len() <= n {
        s
    } else {
        s.take(n as int)
    }
}

/// The part of `s` before its first `'&'` (all of `s` when there is none):
/// what `s.split('&').next()` yields.
pub open spec fn before_ampersand(s: Seq<char>) -> Seq<char>
    decreases s.len(),
{
    if s.len() == 0 {
        s
    } else if s[0] == '&' {
        Seq::empty()
    } else {
        seq![s[0]] + before_ampersand(s.drop_first())
    }
}

pub proof fn lemma_before_ampersand(s: Seq<char>, i: int)
    requires
        0 <= i <= s.len(),
        forall|k: int| 0 <= k < i ==> s[k] != '&',
    ensures
        before_ampersand(s) == s.take(i) + before_ampersand(s.skip(i)),
    decreases i,
{
    if i == 0 {
        assert(s.skip(0) == s);
        assert(s.take(0) =~= Seq::<char>::empty());
    } else {
        let t = s.drop_first();
        assert forall|k: int| 0 <= k < i - 1 implies t[k] != '&' by {
            assert(t[k] == s[k + 1]);
        }
        lemma_before_ampersand(t, i - 1);
        assert(t.skip(i - 1) =~= s.skip(i));
        assert(s.take(i) =~= seq![s[0]] + t.take(i - 1));
    }
}

/// The characters of `s` before its first `'&'`.
pub fn before_ampersand_chars(s: &Vec<char>) -> (out: Vec<char>)
    ensures
        out@ == before_ampersand(s@),
{
    let mut out: Vec<char> = Vec::new();
    let mut i: usize = 0;
    while i < s.len() && s[i] != '&'
        invariant
            i <= s@.len(),
            out@ == s@.take(i as int),
            forall|k: int| 0 <= k < i ==> s@[k] != '&',
        decreases s@.len() - i,
    {
        out.push(s[i]);
        i = i + 1;
        assert(out@ =~= s@.take(i as int));
    }
    proof {
        lemma_before_ampersand(s@, i as int);
        if i < s@.len() {
            assert(s@.skip(i as int)[0] == '&');
        } else {
            assert(s@.skip(i as int) =~= Seq::<char>::empty());
        }
        assert(before_ampersand(s@.skip(i as int)) =~= Seq::<char>::empty());
        assert(s@.take(i as int) + Seq::<char>::empty() =~= s@.take(i as int));
    }
    out
}

/// The characters of `s` from position `start` on.
pub fn chars_from(s: &Vec<char>, start: usize) -> (out: Vec<char>)
    requires
        start <= s@.len(),
    ensures
        out@ == s@.skip(start as int),
{
    let mut out: Vec<char> = Vec::new();
    let mut i: usize = start;
    while i < s.len()
        invariant
            start <= i <= s@.len(),
            out@ == s@.subrange(start as int, i as int),
        decreases s@.len() - i,
    {
        out.push(s[i]);
        i = i + 1;
        assert(out@ =~= s@.subrange(start as int, i as int));
    }
    assert(s@.subrange(start as int, s@.len() as int) =~= s@.skip(start as int));
    out
}

pub proof fn lemma_encoded_len_concat(a: Seq<char>, b: Seq<char>)
    ensures
        encode_utf8(a + b).len() == encode_utf8(a).len() + encode_utf8(b).len(),
    decreases a.len(),
{
    if a.len() == 0 {
        assert(a + b =~= b);
    } else {
        assert((a + b).drop_first() =~= a.drop_first() + b);
        assert((a + b)[0] == a[0]);
        lemma_encoded_len_concat(a.drop_first(), b);
    }
}

/// Number of bytes in the UTF-8 encoding of `c`.
fn utf8_width(c: char) -> (w: usize)
    ensures
        w == encode_utf8(seq![c]).len(),
        1 <= w <= 4,
{
    proof {
        vstd::utf8::char_is_scalar(c);
        assert(seq![c].drop_first() =~= Seq::<char>::empty());
        assert(encode_utf8(Seq::<char>::empty()) =~= Seq::<u8>::empty());
        assert(encode_utf8(seq![c]) =~= vstd::utf8::encode_scalar(c as u32));
    }
    let v: u32 = c as u32;
    if v <= 0x7f {
        1
    } else if v <= 0x7ff {
        2
    } else if v <= 0xffff {
        3
    } else {
        4
    }
}

/// Whether the UTF-8 encoding of `s` is longer than `n` bytes (`s.len() > n`).
pub fn utf8_len_exceeds(s: &str, n: usize) -> (b: bool)
    ensures
        b == (encode_utf8(s@).len() > n),
{
    let cs = chars_of(s);
    let mut count: usize = 0;
    for i in 0..cs.len()
        invariant
            cs@ == s@,
            count <= n,
            count == encode_utf8(cs@.take(i as int)).len(),
    {
        let w: usize = utf8_width(cs[i]);
        proof {
            assert(cs@.take(i + 1) =~= cs@.take(i as int) + seq![cs@[i as int]]);
            lemma_encoded_len_concat(cs@.take(i as int), seq![cs@[i as int]]);
        }
        if w > n - count {
            proof {
                assert(cs@ =~= cs@.take(i + 1) + cs@.skip(i + 1));
                lemma_encoded_len_concat(cs@.take(i + 1), cs@.skip(i + 1));
            }
            return true;
        }
        count = count + w;
    }
    assert(cs@.take(cs@.len() as int) =~= cs@);
    false
}

} // verus!
