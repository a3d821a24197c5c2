//! Building and taking apart text.

use vstd::prelude::*;

verus! {

/// Appends a character to a string: `String::push`.
///
/// Trusted: as the standard library documents, the string afterwards is the
/// string before with the character at its end.
#[verifier::external_body]
pub(crate) fn push_char(s: &mut String, c: char)
    ensures
        final(s)@ == old(s)@.push(c),
{
    s.push(c);
}

/// The characters of `s`, in order.
pub fn to_chars(s: &str) -> (v: Vec<char>)
    ensures
        v@ == s@,
{
    broadcast use vstd::string::group_string_axioms;

    let mut v: Vec<char> = Vec::new();
    for c in it: s.chars()
        invariant
            it.seq() == s@,
            v@ == it.seq().take(it.index() as int),
    {
        v.push(c);
    }
    assert(v@ =~= s@);
    v
}

/// The string of the characters of `v`, in order.
pub fn from_chars(v: &Vec<char>) -> (s: String)
    ensures
        s@ == v@,
{
    let mut s = String::new();
    let mut i: usize = 0;
    while i < v.len()
        invariant
            i <= v.len(),
            s@ == v@.take(i as int),
        decreases v.len() - i,
    {
        push_char(&mut s, v[i]);
        assert(v@.take(i as int + 1) =~= v@.take(i as int).push(v@[i as int]));
        i += 1;
    }
    assert(v@.take(v.len() as int) =~= v@);
    s
}

/// The decimal digit for `d`, which is below 10.
pub open spec fn digit_char(d: int) -> char {
    (48 + d) as u8 as char
}

/// The decimal numeral of `n`, without leading zeros.
pub open spec fn decimal_text(n: nat) -> Seq<char>
    decreases n,
{
    if n < 10 {
        seq![digit_char(n as int)]
    } else {
        decimal_text(n / 10).push(digit_char((n % 10) as int))
    }
}

/// Writes `n` as a decimal numeral.
pub fn decimal(n: u64) -> (s: String)
    ensures
        s@ == decimal_text(n as nat),
{
    let mut digits: Vec<char> = Vec::new();
    let mut rest = n;
    while rest >= 10
        invariant
            decimal_text(n as nat) == decimal_text(rest as nat) + digits@.reverse(),
        decreases rest,
    {
        let d = (rest % 10) as u8;
        let ghost before = digits@;
        digits.push((48 + d) as char);
        proof {
            assert(digits@.reverse() =~= seq![digit_char((rest % 10) as int)] + before.reverse());
            assert(decimal_text(rest as nat) + before.reverse() =~= decimal_text(
                (rest / 10) as nat,
            ) + digits@.reverse());
        }
        rest = rest / 10;
    }
    let mut s = String::new();
    push_char(&mut s, (48 + (rest as u8)) as char);
    let mut i: usize = digits.len();
    while i > 0
        invariant
            i <= digits.len(),
            rest < 10,
            s@ == decimal_text(rest as nat) + digits@.reverse().take(digits.len() - i),
        decreases i,
    {
        i -= 1;
        push_char(&mut s, digits[i]);
        proof {
            let r = digits@.reverse();
            assert(r.take(digits.len() - i) =~= r.take(digits.len() - i - 1).push(
                digits@[i as int],
            ));
        }
    }
    assert(digits@.reverse().take(digits.len() as int) =~= digits@.reverse());
    s
}

/// Where a scan through text stops.
#[derive(Debug, Clone, Copy, PartialEq, Eq, Structural)]
pub enum Stop {
    /// At white space.
    Space,
    /// At anything but white space.
    NonSpace,
    /// At the character.
    At(char),
    /// At either of two characters.
    AtEither(char, char),
    /// At anything but the character.
    Unless(char),
}

/// Whether `c` is white space: a character with the Unicode property
/// `White_Space`.
pub open spec fn is_space(c: char) -> bool {
    let u = c as u32;
    ||| 0x09 <= u <= 0x0D
    ||| u == 0x20
    ||| u == 0x85
    ||| u == 0xA0
    ||| u == 0x1680
    ||| 0x2000 <= u <= 0x200A
    ||| u == 0x2028
    ||| u == 0x2029
    ||| u == 0x202F
    ||| u == 0x205F
    ||| u == 0x3000
}

/// Whether a scan stops at `c`.
pub open spec fn stops_at(stop: Stop, c: char) -> bool {
    match stop {
        Stop::Space => is_space(c),
        Stop::NonSpace => !is_space(c),
        Stop::At(x) => c == x,
        Stop::AtEither(x, y) => c == x || c == y,
        Stop::Unless(x) => c != x,
    }
}

/// The first place at or after `from` at which a scan through `s` stops; the
/// length of `s` if it stops nowhere.
pub open spec fn scan(s: Seq<char>, from: int, stop: Stop) -> int
    decreases s.len() - from,
{
    if from < 0 || from >= s.len() {
        s.len() as int
    } else if stops_at(stop, s[from]) {
        from
    } else {
        scan(s, from + 1, stop)
    }
}

/// A scan stops within the text, at or after where it began, at the first
/// place where it can.
pub proof fn lemma_scan(s: Seq<char>, from: int, stop: Stop)
    requires
        0 <= from <= s.len(),
    ensures
        from <= scan(s, from, stop) <= s.len(),
        scan(s, from, stop) < s.len() ==> stops_at(stop, s[scan(s, from, stop)]),
        forall|i: int| from <= i < scan(s, from, stop) ==> !stops_at(stop, #[trigger] s[i]),
    decreases s.len() - from,
{
    if from < s.len() && !stops_at(stop, s[from]) {
        lemma_scan(s, from + 1, stop);
    }
}

/// Decides whether `c` is white space.
pub fn space(c: char) -> (r: bool)
    ensures
        r == is_space(c),
{
    let u = c as u32;
    (0x09 <= u && u <= 0x0D) || u == 0x20 || u == 0x85 || u == 0xA0 || u == 0x1680 || (0x2000 <= u
        && u <= 0x200A) || u == 0x2028 || u == 0x2029 || u == 0x202F || u == 0x205F || u == 0x3000
}

/// Decides whether a scan stops at `c`.
pub fn stops(stop: Stop, c: char) -> (r: bool)
    ensures
        r == stops_at(stop, c),
{
    match stop {
        Stop::Space => space(c),
        Stop::NonSpace => !space(c),
        Stop::At(x) => c == x,
        Stop::AtEither(x, y) => c == x || c == y,
        Stop::Unless(x) => c != x,
    }
}

/// Finds the first place at or after `from` at which a scan through `s`
/// stops.
pub fn scan_from(s: &Vec<char>, from: usize, stop: Stop) -> (r: usize)
    requires
        from <= s.len(),
    ensures
        r == scan(s@, from as int, stop),
        from <= r <= s.len(),
{
    let mut i = from;
    while i < s.len() && !stops(stop, s[i])
        invariant
            from <= i <= s.len(),
            scan(s@, from as int, stop) == scan(s@, i as int, stop),
        decreases s.len() - i,
    {
        i += 1;
    }
    i
}

/// Copies the characters of `s` from `from` up to `to`.
pub fn part(s: &Vec<char>, from: usize, to: usize) -> (r: Vec<char>)
    requires
        from <= to <= s.len(),
    ensures
        r@ == s@.subrange(from as int, to as int),
{
    let mut r: Vec<char> = Vec::new();
    let mut i = from;
    while i < to
        invariant
            from <= i <= to <= s.len(),
            r@ == s@.subrange(from as int, i as int),
        decreases to - i,
    {
        r.push(s[i]);
        assert(s@.subrange(from as int, i as int + 1) =~= s@.subrange(from as int, i as int).push(
            s@[i as int],
        ));
        i += 1;
    }
    r
}

} // verus!
