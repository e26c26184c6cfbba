//! Cleaning of the titles that come out of protobuf-encoded proposals.

use vstd::prelude::*;
use vstd::string::{StrSliceExecFns, StringExecFns};
use crate::scope::retained;

verus! {

/// The control character that ends the title within an encoded proposal.
pub const FIELD_SEPARATOR: char = '\u{12}';

/// The escape character, which is dropped from a title.
pub const ESCAPE: char = '\u{1b}';

/// Whether `c` is white space: a character with the Unicode property
/// `White_Space`.
pub open spec fn is_space(c: char) -> bool {
    let n = c as u32;
    (0x09 <= n && n <= 0x0d) || n == 0x20 || n == 0x85 || n == 0xa0 || n == 0x1680 || (0x2000 <= n
        && n <= 0x200a) || n == 0x2028 || n == 0x2029 || n == 0x202f || n == 0x205f || n == 0x3000
}

/// The index of the first `c` in `s`; the length of `s` where it holds none.
pub open spec fn index_of(s: Seq<char>, c: char) -> int
    decreases s.len(),
{
    if s.len() == 0 {
        0
    } else if s[0] == c {
        0
    } else {
        1 + index_of(s.skip(1), c)
    }
}

/// `s` without the white space that it begins with.
pub open spec fn trimmed_start(s: Seq<char>) -> Seq<char>
    decreases s.len(),
{
    if s.len() > 0 && is_space(s[0]) {
        trimmed_start(s.skip(1))
    } else {
        s
    }
}

/// `s` without the white space that it ends with.
pub open spec fn trimmed_end(s: Seq<char>) -> Seq<char>
    decreases s.len(),
{
    if s.len() > 0 && is_space(s.last()) {
        trimmed_end(s.drop_last())
    } else {
        s
    }
}

/// `s` without the white space at its two ends.
pub open spec fn trimmed(s: Seq<char>) -> Seq<char> {
    trimmed_end(trimmed_start(s))
}

/// The clean form of `input`. Where `input` holds a field separator, it is
/// what stands before the first one, without escape characters and without
/// white space at its ends; else it is `input` without white space at its
/// ends.
pub open spec fn cleaned(input: Seq<char>) -> Seq<char> {
    let cut = index_of(input, FIELD_SEPARATOR);
    if cut < input.len() {
        trimmed(retained(input.take(cut), |c: char| c != ESCAPE))
    } else {
        trimmed(input)
    }
}

/// Whether `c` is white space.
pub fn check_space(c: char) -> (r: bool)
    ensures
        r == is_space(c),
{
    let n: u32 = c as u32;
    (0x09 <= n && n <= 0x0d) || n == 0x20 || n == 0x85 || n == 0xa0 || n == 0x1680 || (0x2000 <= n
        && n <= 0x200a) || n == 0x2028 || n == 0x2029 || n == 0x202f || n == 0x205f || n == 0x3000
}

/// Finds the first `c` in `s`.
pub fn find_char(s: &str, c: char) -> (i: usize)
    ensures
        i == index_of(s@, c),
        i <= s@.len(),
{
    let n = s.unicode_len();
    let mut i: usize = 0;
    assert(s@.skip(0) =~= s@);
    while i < n
        invariant
            i <= n,
            n == s@.len(),
            index_of(s@, c) == i + index_of(s@.skip(i as int), c),
        decreases n - i,
    {
        let ghost rest = s@.skip(i as int);
        assert(rest[0] == s@[i as int]);
        assert(rest.skip(1) =~= s@.skip(i + 1));
        if s.get_char(i) == c {
            return i;
        }
        i = i + 1;
    }
    i
}

/// Drops every `c` from `s`.
pub fn without_char(s: &str, c: char) -> (out: String)
    ensures
        out@ == retained(s@, |x: char| x != c),
{
    let ghost keep = |x: char| x != c;
    let n = s.unicode_len();
    let mut out = String::from_str("");
    proof {
        reveal_strlit("");
        assert(out@ =~= Seq::<char>::empty());
    }
    let mut i: usize = 0;
    while i < n
        invariant
            i <= n,
            n == s@.len(),
            keep == |x: char| x != c,
            out@ == retained(s@.take(i as int), keep),
        decreases n - i,
    {
        proof {
            assert(s@.take(i + 1).drop_last() =~= s@.take(i as int));
            assert(s@.take(i + 1).last() == s@[i as int]);
        }
        if s.get_char(i) != c {
            let one = s.substring_char(i, i + 1);
            assert(one@ =~= seq![s@[i as int]]);
            out.append(one);
            assert(out@ =~= retained(s@.take(i as int), keep).push(s@[i as int]));
        }
        i = i + 1;
    }
    proof {
        assert(s@.take(n as int) =~= s@);
    }
    out
}

/// Drops the white space at the two ends of `s`.
pub fn trim(s: &str) -> (out: String)
    ensures
        out@ == trimmed(s@),
{
    let n = s.unicode_len();
    let mut a: usize = 0;
    assert(s@.skip(0) =~= s@);
    while a < n && check_space(s.get_char(a))
        invariant
            a <= n,
            n == s@.len(),
            trimmed_start(s@) == trimmed_start(s@.skip(a as int)),
        decreases n - a,
    {
        let ghost rest = s@.skip(a as int);
        assert(rest[0] == s@[a as int]);
        assert(rest.skip(1) =~= s@.skip(a + 1));
        a = a + 1;
    }
    let ghost t = s@.skip(a as int);
    proof {
        if a < n {
            assert(t[0] == s@[a as int]);
        }
        assert(trimmed_start(s@) == t);
        assert(t.take(t.len() as int) =~= t);
    }
    let mut b: usize = n;
    while b > a && check_space(s.get_char(b - 1))
        invariant
            a <= b <= n,
            n == s@.len(),
            t == s@.skip(a as int),
            trimmed_end(t) == trimmed_end(t.take(b - a)),
        decreases b,
    {
        let ghost part = t.take(b - a);
        assert(part.last() == s@[b - 1]);
        assert(part.drop_last() =~= t.take(b - a - 1));
        b = b - 1;
    }
    proof {
        let part = t.take(b - a);
        if b > a {
            assert(part.last() == s@[b - 1]);
        }
        assert(trimmed_end(t) == part);
        assert(part =~= s@.subrange(a as int, b as int));
    }
    String::from_str(s.substring_char(a, b))
}

/// Cleans a title that was cut out of a protobuf-encoded proposal.
pub fn clean_proto_string(input: &str) -> (out: String)
    ensures
        out@ == cleaned(input@),
{
    let cut = find_char(input, FIELD_SEPARATOR);
    if cut < input.unicode_len() {
        let head = input.substring_char(0, cut);
        assert(head@ =~= input@.take(cut as int));
        let title = without_char(head, ESCAPE);
        trim(title.as_str())
    } else {
        trim(input)
    }
}

} // verus!
