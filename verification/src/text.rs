//! Character-level helpers shared by the formatting and prompt modules.

use vstd::prelude::*;
use vstd::string::StringExecFns;

verus! {

/// Rust's `char::is_whitespace`: the Unicode `White_Space` property.
pub open spec fn spec_is_whitespace(c: char) -> bool {
    let u = c as u32;
    ||| 0x9 <= u <= 0xD
    ||| u == 0x20
    ||| u == 0x85
    ||| u == 0xA0
    ||| u == 0x1680
    ||| 0x2000 <= u <= 0x200A
    ||| u == 0x2028
    ||| u == 0x2029
    ||| u == 0x202F
    ||| u == 0x205F
    ||| u == 0x3000
}

/// Rust's `u8::is_ascii_whitespace` lifted to characters: space, tab, line
/// feed, form feed and carriage return.
pub open spec fn spec_is_ascii_whitespace(c: char) -> bool {
    c == ' ' || c == '\t' || c == '\n' || c == '\x0C' || c == '\r'
}

/// ASCII lower-casing on a code point; every other code point is unchanged.
pub open spec fn ascii_lower(u: u32) -> u32 {
    if 0x41 <= u <= 0x5A {
        (u + 0x20) as u32
    } else {
        u
    }
}

/// Two characters equal up to ASCII case.
pub open spec fn chars_eq_ignore_ascii_case(a: char, b: char) -> bool {
    ascii_lower(a as u32) == ascii_lower(b as u32)
}

/// Two character sequences equal up to ASCII case (`str::eq_ignore_ascii_case`).
pub open spec fn eq_ignore_ascii_case(a: Seq<char>, b: Seq<char>) -> bool {
    &&& a.len() == b.len()
    &&& forall|k: int| 0 <= k < a.len() ==> #[trigger] chars_eq_ignore_ascii_case(a[k], b[k])
}

/// `s` with every whitespace character removed.
pub open spec fn strip_whitespace(s: Seq<char>) -> Seq<char>
    decreases s.len(),
{
    if s.len() == 0 {
        s
    } else if spec_is_whitespace(s.last()) {
        strip_whitespace(s.drop_last())
    } else {
        strip_whitespace(s.drop_last()).push(s.last())
    }
}

/// Removing whitespace distributes over concatenation.
pub proof fn lemma_strip_whitespace_concat(a: Seq<char>, b: Seq<char>)
    ensures
        strip_whitespace(a + b) == strip_whitespace(a) + strip_whitespace(b),
    decreases b.len(),
{
    if b.len() == 0 {
        assert(a + b == a);
    } else {
        lemma_strip_whitespace_concat(a, b.drop_last());
        assert((a + b).drop_last() == a + b.drop_last());
        assert((a + b).last() == b.last());
    }
}

/// `char::is_whitespace`: the Unicode `White_Space` property.
pub fn is_whitespace(c: char) -> (b: bool)
    ensures
        b == spec_is_whitespace(c),
{
    let u = c as u32;
    (0x9 <= u && u <= 0xD) || u == 0x20 || u == 0x85 || u == 0xA0 || u == 0x1680 || (0x2000 <= u
        && u <= 0x200A) || u == 0x2028 || u == 0x2029 || u == 0x202F || u == 0x205F || u == 0x3000
}

/// `char::is_ascii_whitespace`.
pub fn is_ascii_whitespace(c: char) -> (b: bool)
    ensures
        b == spec_is_ascii_whitespace(c),
{
    c == ' ' || c == '\t' || c == '\n' || c == '\x0C' || c == '\r'
}

pub fn char_eq_ignore_ascii_case(a: char, b: char) -> (r: bool)
    ensures
        r == chars_eq_ignore_ascii_case(a, b),
{
    let x = a as u32;
    let y = b as u32;
    let lx = if 0x41 <= x && x <= 0x5A {
        x + 0x20
    } else {
        x
    };
    let ly = if 0x41 <= y && y <= 0x5A {
        y + 0x20
    } else {
        y
    };
    lx == ly
}

/// `str::eq_ignore_ascii_case` over character slices.
pub fn slice_eq_ignore_ascii_case(a: &[char], b: &[char]) -> (r: bool)
    ensures
        r == eq_ignore_ascii_case(a@, b@),
{
    if a.len() != b.len() {
        return false;
    }
    let mut k: usize = 0;
    while k < a.len()
        invariant
            a.len() == b.len(),
            k <= a.len(),
            forall|m: int| 0 <= m < k ==> #[trigger] chars_eq_ignore_ascii_case(a@[m], b@[m]),
        decreases a.len() - k,
    {
        if !char_eq_ignore_ascii_case(a[k], b[k]) {
            return false;
        }
        k += 1;
    }
    true
}

/// The characters of `s`, in order.
pub fn chars_of(s: &str) -> (v: Vec<char>)
    ensures
        v@ == s@,
{
    let mut v: Vec<char> = Vec::new();
    for c in it: s.chars()
        invariant
            v@ == it.seq().take(it.index() as int),
    {
        v.push(c);
    }
    v
}

/// Appends one character to a string (`String::push`).
#[verifier::external_body]
pub(crate) fn push_char(s: &mut String, c: char)
    ensures
        final(s)@ == old(s)@.push(c),
{
    s.push(c);
}

/// Appends a string slice to a string.
pub fn push_str(s: &mut String, t: &str)
    ensures
        final(s)@ == old(s)@ + t@,
{
    s.append(t);
}

/// Builds a string holding exactly the characters of `v`.
pub fn string_of(v: &[char]) -> (s: String)
    ensures
        s@ == v@,
{
    let mut s = String::new();
    let mut i: usize = 0;
    while i < v.len()
        invariant
            i <= v.len(),
            s@ == v@.take(i as int),
        decreases v.len() - i,
    {
        push_char(&mut s, v[i]);
        assert(v@.take(i as int + 1) == v@.take(i as int).push(v@[i as int]));
        i += 1;
    }
    assert(v@.take(v.len() as int) == v@);
    s
}

/// Appends `t[from..to]` to `out`.
pub fn push_range(out: &mut Vec<char>, t: &[char], from: usize, to: usize)
    requires
        from <= to <= t.len(),
    ensures
        final(out)@ == old(out)@ + t@.subrange(from as int, to as int),
{
    let mut k = from;
    while k < to
        invariant
            from <= k <= to <= t.len(),
            out@ == old(out)@ + t@.subrange(from as int, k as int),
        decreases to - k,
    {
        out.push(t[k]);
        assert(t@.subrange(from as int, k as int + 1) == t@.subrange(from as int, k as int).push(
            t@[k as int],
        ));
        k += 1;
    }
}

/// A copy of `t[from..to]`.
pub fn copy_range(t: &[char], from: usize, to: usize) -> (r: Vec<char>)
    requires
        from <= to <= t.len(),
    ensures
        r@ == t@.subrange(from as int, to as int),
{
    let mut r: Vec<char> = Vec::new();
    push_range(&mut r, t, from, to);
    assert(Seq::<char>::empty() + t@.subrange(from as int, to as int) == t@.subrange(
        from as int,
        to as int,
    ));
    r
}


/// The decimal digit character for a value below ten.
pub open spec fn decimal_digit(d: nat) -> char {
    (d + 48) as char
}

/// The decimal rendering of `n`, as `format!("{n}")` prints it.
pub open spec fn spec_decimal(n: nat) -> Seq<char>
    decreases n,
{
    if n < 10 {
        seq![decimal_digit(n)]
    } else {
        spec_decimal(n / 10).push(decimal_digit(n % 10))
    }
}

/// Appends the decimal rendering of `n` to `s`.
pub fn push_decimal(s: &mut String, n: u64)
    ensures
        final(s)@ == old(s)@ + spec_decimal(n as nat),
    decreases n,
{
    if n >= 10 {
        push_decimal(s, n / 10);
    }
    let d = (n % 10) as u32;
    let c = if d == 0 {
        '0'
    } else if d == 1 {
        '1'
    } else if d == 2 {
        '2'
    } else if d == 3 {
        '3'
    } else if d == 4 {
        '4'
    } else if d == 5 {
        '5'
    } else if d == 6 {
        '6'
    } else if d == 7 {
        '7'
    } else if d == 8 {
        '8'
    } else {
        '9'
    };
    push_char(s, c);
}

} // verus!
