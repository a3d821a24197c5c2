//! Deciding whether a release is newer than the running version.

use vstd::prelude::*;
use vstd::string::StringExecFns;
use crate::text::{from_chars, lemma_scan, part, scan, scan_from, to_chars, Stop};

verus! {

/// The owner of the repository that publishes releases.
pub const REPO_OWNER: &'static str = "JosephIris";

/// The repository that publishes releases.
pub const REPO_NAME: &'static str = "reminder-app-tauri";

/// A release that is newer than the running version.
#[derive(Debug)]
pub struct UpdateInfo {
    pub version: String,
    pub current_version: String,
    pub download_url: String,
}

/// Whether every character is a decimal digit.
pub open spec fn all_digits(s: Seq<char>) -> bool {
    forall|i: int| 0 <= i < s.len() ==> '0' <= #[trigger] s[i] <= '9'
}

/// The number that decimal digits denote.
pub open spec fn digits_value(s: Seq<char>) -> nat
    decreases s.len(),
{
    if s.len() == 0 {
        0
    } else {
        (digits_value(s.drop_last()) * 10 + (s.last() as u32 - 48)) as nat
    }
}

/// The number that a piece of a version denotes: an optional `+`, then one
/// or more decimal digits, with a value that a `u32` can hold. Anything else
/// denotes no number.
pub open spec fn piece_value(s: Seq<char>) -> Option<u32> {
    let digits = if s.len() > 0 && s[0] == '+' {
        s.skip(1)
    } else {
        s
    };
    if digits.len() > 0 && all_digits(digits) && digits_value(digits) <= u32::MAX {
        Some(digits_value(digits) as u32)
    } else {
        None
    }
}

/// The numbers of a version from `from` on: those that its pieces denote,
/// where pieces are what `.` separates and a piece that denotes no number is
/// passed over.
pub open spec fn numbers_from(s: Seq<char>, from: int) -> Seq<u32>
    decreases s.len() - from,
    via numbers_from_decreases
{
    if from < 0 || from > s.len() {
        Seq::empty()
    } else {
        let end = scan(s, from, Stop::At('.'));
        let head = match piece_value(s.subrange(from, end)) {
            Some(n) => seq![n],
            None => Seq::empty(),
        };
        if end < s.len() {
            head + numbers_from(s, end + 1)
        } else {
            head
        }
    }
}

#[via_fn]
proof fn numbers_from_decreases(s: Seq<char>, from: int) {
    if 0 <= from <= s.len() {
        lemma_scan(s, from, Stop::At('.'));
    }
}

/// The number at place `i` of a version; 0 where the version has none.
pub open spec fn number_at(numbers: Seq<u32>, i: int) -> u32 {
    if 0 <= i < numbers.len() {
        numbers[i]
    } else {
        0
    }
}

/// Whether the version `new` is newer than `current`: its first three
/// numbers, taken in order, are greater.
pub open spec fn is_newer(new: Seq<char>, current: Seq<char>) -> bool {
    let n = numbers_from(new, 0);
    let c = numbers_from(current, 0);
    ||| number_at(n, 0) > number_at(c, 0)
    ||| number_at(n, 0) == number_at(c, 0) && number_at(n, 1) > number_at(c, 1)
    ||| number_at(n, 0) == number_at(c, 0) && number_at(n, 1) == number_at(c, 1) && number_at(n, 2)
        > number_at(c, 2)
}

/// The number that the characters of `s` from `from` up to `to` denote.
pub fn parse_piece(s: &Vec<char>, from: usize, to: usize) -> (r: Option<u32>)
    requires
        from <= to <= s.len(),
    ensures
        r == piece_value(s@.subrange(from as int, to as int)),
{
    let ghost piece = s@.subrange(from as int, to as int);
    let start = if from < to && s[from] == '+' {
        from + 1
    } else {
        from
    };
    let ghost digits = s@.subrange(start as int, to as int);
    proof {
        if from < to {
            assert(piece[0] == s@[from as int]);
        }
        if start == from {
            assert(digits =~= piece);
        } else {
            assert(digits =~= piece.skip(1));
        }
    }
    if start == to {
        return None;
    }
    let ghost goal = piece_value(piece);
    assert(goal == if all_digits(digits) && digits_value(digits) <= u32::MAX {
        Some(digits_value(digits) as u32)
    } else {
        None
    });
    let mut value: u64 = 0;
    let mut i = start;
    while i < to
        invariant
            from <= start <= i <= to <= s.len(),
            goal == piece_value(s@.subrange(from as int, to as int)),
            goal == if all_digits(digits) && digits_value(digits) <= u32::MAX {
                Some(digits_value(digits) as u32)
            } else {
                None
            },
            digits == s@.subrange(start as int, to as int),
            all_digits(digits.take(i - start)),
            value == digits_value(digits.take(i - start)),
            value <= u32::MAX,
        decreases to - i,
    {
        let c = s[i];
        assert(digits[i - start] == c);
        let ghost before = digits.take(i - start);
        let ghost after = digits.take(i - start + 1);
        proof {
            assert(after.drop_last() =~= before);
            assert(after.last() == c);
        }
        if c < '0' || c > '9' {
            assert(!('0' <= digits[i - start] <= '9'));
            return None;
        }
        let d = (c as u32 - 48) as u64;
        value = value * 10 + d;
        proof {
            assert forall|j: int| 0 <= j < after.len() implies '0' <= #[trigger] after[j]
                <= '9' by {
                if j < before.len() {
                    assert(after[j] == before[j]);
                }
            }
        }
        if value > u32::MAX as u64 {
            proof {
                if all_digits(digits) {
                    lemma_digits_grow(digits, i - start + 1);
                }
            }
            return None;
        }
        i += 1;
    }
    assert(digits.take(to - start) =~= digits);
    Some(value as u32)
}

/// The number that digits denote is no smaller than the number that a prefix
/// of them denotes.
pub proof fn lemma_digits_grow(s: Seq<char>, n: int)
    requires
        0 <= n <= s.len(),
        all_digits(s),
    ensures
        digits_value(s.take(n)) <= digits_value(s),
    decreases s.len() - n,
{
    if n < s.len() {
        lemma_digits_grow(s, n + 1);
        assert(s.take(n + 1).drop_last() =~= s.take(n));
        assert(s.take(n + 1).last() == s[n]);
        assert('0' <= s[n] <= '9');
    } else {
        assert(s.take(n) =~= s);
    }
}

/// Reads the numbers of a version.
pub fn version_numbers(version: &Vec<char>) -> (r: Vec<u32>)
    ensures
        r@ == numbers_from(version@, 0),
{
    let mut out: Vec<u32> = Vec::new();
    let mut from: usize = 0;
    loop
        invariant
            from <= version.len(),
            numbers_from(version@, 0) == out@ + numbers_from(version@, from as int),
        decreases version.len() - from,
    {
        let end = scan_from(version, from, Stop::At('.'));
        let ghost before = out@;
        match parse_piece(version, from, end) {
            Some(n) => {
                out.push(n);
                assert(out@ =~= before + seq![n]);
            },
            None => {
                assert(out@ =~= before + Seq::<u32>::empty());
            },
        }
        if end < version.len() {
            assert(numbers_from(version@, 0) =~= out@ + numbers_from(version@, end as int + 1));
            from = end + 1;
        } else {
            assert(numbers_from(version@, 0) =~= out@);
            return out;
        }
    }
}

/// The number at place `i` of a version; 0 where the version has none.
pub fn number(numbers: &Vec<u32>, i: usize) -> (n: u32)
    ensures
        n == number_at(numbers@, i as int),
{
    if i < numbers.len() {
        numbers[i]
    } else {
        0
    }
}

/// Decides whether the version `new` is newer than `current`, comparing
/// major, minor and patch number in turn.
pub fn version_is_newer(new: &str, current: &str) -> (r: bool)
    ensures
        r == is_newer(new@, current@),
{
    let n = version_numbers(&to_chars(new));
    let c = version_numbers(&to_chars(current));
    let (n0, n1, n2) = (number(&n, 0), number(&n, 1), number(&n, 2));
    let (c0, c1, c2) = (number(&c, 0), number(&c, 1), number(&c, 2));
    n0 > c0 || (n0 == c0 && n1 > c1) || (n0 == c0 && n1 == c1 && n2 > c2)
}

/// A version without the `v`s in front of it.
pub open spec fn bare_version(version: Seq<char>) -> Seq<char> {
    version.skip(scan(version, 0, Stop::Unless('v')))
}

/// Takes the `v`s in front of a version away.
pub fn strip_v(version: &str) -> (r: String)
    ensures
        r@ == bare_version(version@),
{
    let chars = to_chars(version);
    let start = scan_from(&chars, 0, Stop::Unless('v'));
    let rest = part(&chars, start, chars.len());
    assert(rest@ =~= bare_version(version@));
    from_chars(&rest)
}

/// The address from which the release with the tag is downloaded.
pub open spec fn download_url_text(tag: Seq<char>) -> Seq<char> {
    "https://github.com/"@ + REPO_OWNER@ + "/"@ + REPO_NAME@ + "/releases/download/"@ + tag
        + "/reminder-app.exe"@
}

/// What the latest release means for the running version: an update, if the
/// release is newer. Versions are compared without the `v`s in front of
/// them.
pub fn check_for_update(latest_tag: &str, current_version: &str) -> (r: Option<UpdateInfo>)
    ensures
        match r {
            Some(info) => {
                &&& is_newer(bare_version(latest_tag@), bare_version(current_version@))
                &&& info.version@ == latest_tag@
                &&& info.current_version@ == current_version@
                &&& info.download_url@ == download_url_text(latest_tag@)
            },
            None => !is_newer(bare_version(latest_tag@), bare_version(current_version@)),
        },
{
    let latest = strip_v(latest_tag);
    let current = strip_v(current_version);
    if version_is_newer(latest.as_str(), current.as_str()) {
        let mut url = String::from_str("https://github.com/");
        url.append(REPO_OWNER);
        url.append("/");
        url.append(REPO_NAME);
        url.append("/releases/download/");
        url.append(latest_tag);
        url.append("/reminder-app.exe");
        Some(
            UpdateInfo {
                version: String::from_str(latest_tag),
                current_version: String::from_str(current_version),
                download_url: url,
            },
        )
    } else {
        None
    }
}

} // verus!
