//! Character classes and small string algorithms, stated over `Seq<char>`.
//!
//! Every other module works on strings through the functions of this one, so
//! that what a string test means is written down once, as a spec function.

use vstd::prelude::*;

verus! {

/// A control code: one of the 65 code points of the general category `Cc`,
/// U+0000..=U+001F and U+007F..=U+009F.
pub open spec fn is_control_char(c: char) -> bool {
    c as u32 <= 0x1f || 0x7f <= c as u32 <= 0x9f
}

/// Tells whether `c` is a control code.
pub fn is_control(c: char) -> (b: bool)
    ensures
        b == is_control_char(c),
{
    let n: u32 = c as u32;
    n <= 0x1f || (0x7f <= n && n <= 0x9f)
}

/// A white-space character: one of the 25 code points that carry the
/// Unicode property `White_Space`.
pub open spec fn is_whitespace_char(c: char) -> bool {
    let n = c as u32;
    ||| 0x09 <= n <= 0x0d
    ||| n == 0x20
    ||| n == 0x85
    ||| n == 0xa0
    ||| n == 0x1680
    ||| 0x2000 <= n <= 0x200a
    ||| n == 0x2028
    ||| n == 0x2029
    ||| n == 0x202f
    ||| n == 0x205f
    ||| n == 0x3000
}

/// Tells whether `c` is a white-space character.
pub fn is_whitespace(c: char) -> (b: bool)
    ensures
        b == is_whitespace_char(c),
{
    let n: u32 = c as u32;
    (0x09 <= n && n <= 0x0d) || n == 0x20 || n == 0x85 || n == 0xa0 || n == 0x1680 || (0x2000 <= n
        && n <= 0x200a) || n == 0x2028 || n == 0x2029 || n == 0x202f || n == 0x205f || n == 0x3000
}

/// The characters of a string slice, in order.
pub fn chars_of(s: &str) -> (v: Vec<char>)
    ensures
        v@ == s@,
{
    let mut v: Vec<char> = Vec::new();
    for c in it: s.chars()
        invariant
            v@ == it.seq().take(it.index() as int),
            it.seq() == s@,
    {
        v.push(c);
    }
    v
}

/// `String::push` of std: appends one character to the string and leaves
/// what was there before in place.
#[verifier::external_body]
pub(crate) fn push_char(s: &mut String, c: char)
    ensures
        final(s)@ == old(s)@.push(c),
{
    s.push(c);
}

/// The string that holds the characters `v[from..to]`.
pub fn string_from_range(v: &Vec<char>, from: usize, to: usize) -> (s: String)
    requires
        from <= to <= v.len(),
    ensures
        s@ == v@.subrange(from as int, to as int),
{
    let mut s = String::new();
    let mut i: usize = from;
    while i < to
        invariant
            from <= i <= to <= v.len(),
            s@ == v@.subrange(from as int, i as int),
        decreases to - i,
    {
        push_char(&mut s, v[i]);
        i += 1;
    }
    s
}

/// The string that holds the characters of `v`.
pub fn string_from_chars(v: &Vec<char>) -> (s: String)
    ensures
        s@ == v@,
{
    let s = string_from_range(v, 0, v.len());
    assert(v@.subrange(0, v@.len() as int) == v@);
    s
}

/// Tells whether two character vectors hold the same characters.
pub fn chars_equal(a: &Vec<char>, b: &Vec<char>) -> (r: bool)
    ensures
        r == (a@ == b@),
{
    if a.len() != b.len() {
        return false;
    }
    let mut i: usize = 0;
    while i < a.len()
        invariant
            a.len() == b.len(),
            i <= a.len(),
            forall|k: int| 0 <= k < i ==> a@[k] == b@[k],
        decreases a.len() - i,
    {
        if a[i] != b[i] {
            return false;
        }
        i += 1;
    }
    assert(a@ =~= b@);
    true
}

/// Tells whether the string `s` holds the characters `v`.
pub fn str_spells(s: &str, v: &Vec<char>) -> (r: bool)
    ensures
        r == (s@ == v@),
{
    let mut i: usize = 0;
    for c in it: s.chars()
        invariant
            it.seq() == s@,
            i == it.index(),
            i <= v.len(),
            forall|k: int| 0 <= k < i ==> s@[k] == v@[k],
    {
        if i >= v.len() || v[i] != c {
            return false;
        }
        i += 1;
    }
    if i != v.len() {
        return false;
    }
    assert(s@ =~= v@);
    true
}

/// Tells whether two string slices hold the same characters.
pub fn str_equal(a: &str, b: &str) -> (r: bool)
    ensures
        r == (a@ == b@),
{
    let vb = chars_of(b);
    str_spells(a, &vb)
}

/// Tells whether the characters `v` spell the string `s`.
pub fn chars_spell(v: &Vec<char>, s: &str) -> (r: bool)
    ensures
        r == (v@ == s@),
{
    let vs = chars_of(s);
    chars_equal(v, &vs)
}

/// `needle` occurs in `hay` at position `at`.
pub open spec fn occurs_at(hay: Seq<char>, needle: Seq<char>, at: int) -> bool {
    &&& 0 <= at
    &&& at + needle.len() <= hay.len()
    &&& hay.subrange(at, at + needle.len()) == needle
}

/// Tells whether `needle` occurs in `hay` at position `at`.
pub fn matches_at(hay: &Vec<char>, needle: &Vec<char>, at: usize) -> (r: bool)
    ensures
        r == occurs_at(hay@, needle@, at as int),
{
    if needle.len() > hay.len() || at > hay.len() - needle.len() {
        return false;
    }
    let mut k: usize = 0;
    while k < needle.len()
        invariant
            k <= needle.len(),
            at + needle.len() <= hay.len(),
            forall|j: int| 0 <= j < k ==> hay@[at + j] == needle@[j],
        decreases needle.len() - k,
    {
        if hay[at + k] != needle[k] {
            assert(hay@.subrange(at as int, at + needle@.len())[k as int] != needle@[k as int]);
            return false;
        }
        k += 1;
    }
    assert(hay@.subrange(at as int, at + needle@.len()) =~= needle@);
    true
}

/// `s` without the white space at its front.
pub open spec fn trim_front(s: Seq<char>) -> Seq<char>
    decreases s.len(),
{
    if s.len() > 0 && is_whitespace_char(s[0]) {
        trim_front(s.drop_first())
    } else {
        s
    }
}

/// `s` without the white space at its end.
pub open spec fn trim_back(s: Seq<char>) -> Seq<char>
    decreases s.len(),
{
    if s.len() > 0 && is_whitespace_char(s.last()) {
        trim_back(s.drop_last())
    } else {
        s
    }
}

/// `s` without the white space at its front and at its end.
pub open spec fn trim_seq(s: Seq<char>) -> Seq<char> {
    trim_back(trim_front(s))
}

/// The bounds `(from, to)` of what is left of `v` once the white space at
/// both ends is taken away.
pub fn trim_bounds(v: &Vec<char>) -> (r: (usize, usize))
    ensures
        r.0 <= r.1 <= v.len(),
        v@.subrange(r.0 as int, r.1 as int) == trim_seq(v@),
{
    let mut from: usize = 0;
    assert(v@.subrange(0, v@.len() as int) == v@);
    while from < v.len() && is_whitespace(v[from])
        invariant
            from <= v.len(),
            trim_front(v@) == trim_front(v@.subrange(from as int, v@.len() as int)),
        decreases v.len() - from,
    {
        assert(v@.subrange(from as int, v@.len() as int).drop_first() == v@.subrange(
            from + 1,
            v@.len() as int,
        ));
        from += 1;
    }
    assert(trim_front(v@) == v@.subrange(from as int, v@.len() as int));
    let mut to: usize = v.len();
    while to > from && is_whitespace(v[to - 1])
        invariant
            from <= to <= v.len(),
            trim_seq(v@) == trim_back(v@.subrange(from as int, to as int)),
        decreases to - from,
    {
        assert(v@.subrange(from as int, to as int).drop_last() == v@.subrange(
            from as int,
            to - 1,
        ));
        to -= 1;
    }
    (from, to)
}

/// The string `s` without the white space at its front and at its end.
pub fn trim(s: &str) -> (r: String)
    ensures
        r@ == trim_seq(s@),
{
    let v = chars_of(s);
    let (from, to) = trim_bounds(&v);
    string_from_range(&v, from, to)
}

/// The upper-case form of a string, as `str::to_uppercase` of std gives it.
pub uninterp spec fn uppercase(s: Seq<char>) -> Seq<char>;

/// The lower-case form of a string, as `str::to_lowercase` of std gives it.
pub uninterp spec fn lowercase(s: Seq<char>) -> Seq<char>;

/// `str::to_uppercase` of std: the result depends on the characters of the
/// argument alone, and is called `uppercase` of them.
#[verifier::external_body]
pub(crate) fn to_uppercase(s: &str) -> (r: String)
    ensures
        r@ == uppercase(s@),
{
    s.to_uppercase()
}

/// `str::to_lowercase` of std: the result depends on the characters of the
/// argument alone, and is called `lowercase` of them.
#[verifier::external_body]
pub(crate) fn to_lowercase(s: &str) -> (r: String)
    ensures
        r@ == lowercase(s@),
{
    s.to_lowercase()
}

/// The character of a decimal digit.
pub open spec fn digit_char(d: int) -> char {
    ((48 + d) as u8) as char
}

/// A natural number in decimal, without leading zeros.
pub open spec fn decimal_nat(n: nat) -> Seq<char>
    decreases n,
{
    if n < 10 {
        seq![digit_char(n as int)]
    } else {
        decimal_nat(n / 10).push(digit_char((n % 10) as int))
    }
}

/// An integer in decimal, with a minus sign where it is negative.
pub open spec fn decimal(n: int) -> Seq<char> {
    if n < 0 {
        seq!['-'] + decimal_nat((-n) as nat)
    } else {
        decimal_nat(n as nat)
    }
}

/// The digits of `n` but for the number zero, which has none here.
pub open spec fn leading_digits(n: nat) -> Seq<char> {
    if n == 0 {
        Seq::<char>::empty()
    } else {
        decimal_nat(n)
    }
}

/// A number in decimal is the digits of its tenth, then its last digit.
pub proof fn lemma_decimal_step(n: nat)
    ensures
        decimal_nat(n) == leading_digits(n / 10).push(digit_char((n % 10) as int)),
{
    if n < 10 {
        assert(n / 10 == 0);
        assert(n % 10 == n);
        assert(seq![digit_char(n as int)] =~= Seq::<char>::empty().push(digit_char(n as int)));
    }
}

/// Appends an integer in decimal to a string.
pub fn push_decimal(out: &mut String, n: i64)
    ensures
        final(out)@ == old(out)@ + decimal(n as int),
{
    let negative = n < 0;
    let magnitude: u64 = if negative {
        if n == i64::MIN {
            9223372036854775808u64
        } else {
            (-n) as u64
        }
    } else {
        n as u64
    };
    assert(magnitude as int == if n < 0 {
        -(n as int)
    } else {
        n as int
    });
    let mut digits: Vec<char> = Vec::new();
    let mut m: u64 = magnitude;
    let d0: u8 = (m % 10) as u8;
    digits.push((48u8 + d0) as char);
    proof {
        lemma_decimal_step(magnitude as nat);
        assert(digits@.reverse() =~= seq![digit_char((magnitude % 10) as int)]);
        assert(leading_digits((magnitude / 10) as nat).push(digit_char((magnitude % 10) as int))
            =~= leading_digits((magnitude / 10) as nat) + digits@.reverse());
    }
    m = m / 10;
    while m != 0
        invariant
            decimal_nat(magnitude as nat) == leading_digits(m as nat) + digits@.reverse(),
        decreases m,
    {
        let d: u8 = (m % 10) as u8;
        proof {
            lemma_decimal_step(m as nat);
            let c = digit_char((m % 10) as int);
            assert(digits@.push(c).reverse() =~= seq![c] + digits@.reverse());
            assert(leading_digits((m / 10) as nat).push(c) + digits@.reverse() =~= leading_digits(
                (m / 10) as nat,
            ) + digits@.push(c).reverse());
        }
        digits.push((48u8 + d) as char);
        m = m / 10;
    }
    assert(decimal_nat(magnitude as nat) =~= digits@.reverse());
    let ghost before = out@;
    if negative {
        push_char(out, '-');
    }
    let ghost sign = if negative {
        seq!['-']
    } else {
        Seq::<char>::empty()
    };
    let mut i: usize = digits.len();
    assert(digits@.reverse().take(0) =~= Seq::<char>::empty());
    assert(before + sign + Seq::<char>::empty() =~= out@);
    while i > 0
        invariant
            i <= digits.len(),
            out@ == before + sign + digits@.reverse().take(digits.len() - i),
        decreases i,
    {
        i -= 1;
        proof {
            let r = digits@.reverse();
            let k = digits.len() - 1 - i;
            assert(r.take(k + 1) =~= r.take(k).push(r[k]));
            assert(r[k] == digits@[i as int]);
            assert(before + sign + r.take(k).push(r[k]) =~= (before + sign + r.take(k)).push(
                r[k],
            ));
        }
        push_char(out, digits[i]);
    }
    proof {
        let r = digits@.reverse();
        assert(r.take(r.len() as int) =~= r);
        assert(before + sign + r =~= before + decimal(n as int));
    }
}

/// The parts of `s` between the occurrences of `sep`, in order. A string
/// without `sep` has one part, itself; a `sep` at either end leaves an empty
/// part there.
pub open spec fn split_on(s: Seq<char>, sep: char) -> Seq<Seq<char>>
    decreases s.len(),
{
    if s.len() == 0 {
        seq![Seq::<char>::empty()]
    } else {
        let before = split_on(s.drop_last(), sep);
        if s.last() == sep {
            before.push(Seq::<char>::empty())
        } else {
            before.drop_last().push(before.last().push(s.last()))
        }
    }
}

/// The views of character vectors, in order.
pub open spec fn parts_view(parts: Seq<Vec<char>>) -> Seq<Seq<char>> {
    Seq::new(parts.len(), |i: int| parts[i]@)
}

/// Splits `v` at every `sep`.
pub fn split_chars(v: &Vec<char>, sep: char) -> (parts: Vec<Vec<char>>)
    ensures
        parts_view(parts@) == split_on(v@, sep),
        parts.len() >= 1,
{
    let mut parts: Vec<Vec<char>> = Vec::new();
    let mut current: Vec<char> = Vec::new();
    let mut i: usize = 0;
    assert(v@.take(0) =~= Seq::<char>::empty());
    assert(split_on(v@.take(0), sep) =~= parts_view(parts@).push(current@));
    while i < v.len()
        invariant
            i <= v.len(),
            split_on(v@.take(i as int), sep) == parts_view(parts@).push(current@),
        decreases v.len() - i,
    {
        let c = v[i];
        proof {
            let next = v@.take(i + 1);
            assert(next.drop_last() =~= v@.take(i as int));
            assert(next.last() == c);
            let done = parts_view(parts@);
            assert(done.push(current@).drop_last() =~= done);
            assert(done.push(current@).last() == current@);
        }
        if c == sep {
            let ghost done = parts_view(parts@);
            let ghost closed = current@;
            parts.push(current);
            current = Vec::new();
            assert(parts_view(parts@) =~= done.push(closed));
        } else {
            current.push(c);
        }
        i += 1;
    }
    assert(v@.take(v@.len() as int) =~= v@);
    let ghost done = parts_view(parts@);
    let ghost last = current@;
    parts.push(current);
    assert(parts_view(parts@) =~= done.push(last));
    parts
}

} // verus!
