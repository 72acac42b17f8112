//! Small text utilities shared by the interactive programs: decimal
//! parsing, whitespace trimming and character search, all specified
//! over sequences of characters.
//!
//! Two thin bridges carry a string into and out of its characters; all
//! splitting, trimming and digit logic is done on the characters and
//! proved here.

use vstd::prelude::*;

verus! {

pub open spec fn is_digit(c: char) -> bool {
    '0' <= c <= '9'
}

pub open spec fn digit_val(c: char) -> int {
    c as int - '0' as int
}

pub open spec fn all_digits(s: Seq<char>) -> bool {
    forall|i: int| 0 <= i < s.len() ==> is_digit(#[trigger] s[i])
}

/// The number the digit characters denote, most significant first.
pub open spec fn digits_value(s: Seq<char>) -> int
    decreases s.len(),
{
    if s.len() == 0 {
        0
    } else {
        digits_value(s.drop_last()) * 10 + digit_val(s.last())
    }
}

/// What decimal parsing accepts: a non-empty run of digits whose value
/// fits, exactly as the callers' retry loops expect.
pub open spec fn parse_u32_spec(s: Seq<char>) -> Option<u32> {
    if s.len() > 0 && all_digits(s) && digits_value(s) <= u32::MAX {
        Some(digits_value(s) as u32)
    } else {
        None
    }
}

pub open spec fn is_space(c: char) -> bool {
    c == ' ' || c == '\t' || c == '\r' || c == '\n'
}

pub open spec fn trim_front(s: Seq<char>) -> Seq<char>
    decreases s.len(),
{
    if s.len() > 0 && is_space(s[0]) {
        trim_front(s.drop_first())
    } else {
        s
    }
}

pub open spec fn trim_back(s: Seq<char>) -> Seq<char>
    decreases s.len(),
{
    if s.len() > 0 && is_space(s.last()) {
        trim_back(s.drop_last())
    } else {
        s
    }
}

/// The string with its leading and trailing whitespace removed.
pub open spec fn trim_spec(s: Seq<char>) -> Seq<char> {
    trim_back(trim_front(s))
}

pub open spec fn contains_char(s: Seq<char>, c: char) -> bool {
    exists|i: int| 0 <= i < s.len() && s[i] == c
}

/// Index of the first occurrence of `c` in `s`, if any.
pub open spec fn find_first(s: Seq<char>, c: char) -> Option<int>
    decreases s.len(),
{
    if s.len() == 0 {
        None
    } else if s[0] == c {
        Some(0)
    } else {
        match find_first(s.drop_first(), c) {
            Some(i) => Some(i + 1),
            None => None,
        }
    }
}

pub proof fn lemma_find_first_at(s: Seq<char>, c: char, i: int)
    requires
        0 <= i < s.len(),
        s[i] == c,
        forall|j: int| 0 <= j < i ==> s[j] != c,
    ensures
        find_first(s, c) == Some(i),
    decreases i,
{
    if i > 0 {
        lemma_find_first_at(s.drop_first(), c, i - 1);
    }
}

pub proof fn lemma_find_first_none(s: Seq<char>, c: char)
    requires
        forall|j: int| 0 <= j < s.len() ==> s[j] != c,
    ensures
        find_first(s, c) is None,
    decreases s.len(),
{
    if s.len() > 0 {
        lemma_find_first_none(s.drop_first(), c);
    }
}

/// Relies on `str::chars`: the characters of the string, in order.
#[verifier::external_body]
pub(crate) fn chars_of(s: &str) -> (r: Vec<char>)
    ensures
        r@ == s@,
{
    s.chars().collect()
}

/// Relies on `String`'s `FromIterator<char>`: collecting characters
/// yields the string of exactly those characters.
#[verifier::external_body]
pub(crate) fn string_from_chars(cs: &Vec<char>) -> (r: String)
    ensures
        r@ == cs@,
{
    cs.iter().collect()
}

fn is_space_char(c: char) -> (r: bool)
    ensures
        r == is_space(c),
{
    c == ' ' || c == '\t' || c == '\r' || c == '\n'
}

/// Copies `cs[lo..hi]`.
pub fn sub_chars(cs: &Vec<char>, lo: usize, hi: usize) -> (r: Vec<char>)
    requires
        lo <= hi <= cs@.len(),
    ensures
        r@ == cs@.subrange(lo as int, hi as int),
{
    let mut r: Vec<char> = Vec::new();
    let mut i: usize = lo;
    while i < hi
        invariant
            lo <= i <= hi <= cs@.len(),
            r@ == cs@.subrange(lo as int, i as int),
        decreases hi - i,
    {
        r.push(cs[i]);
        proof {
            assert(cs@.subrange(lo as int, i + 1) =~= cs@.subrange(lo as int, i as int).push(
                cs@[i as int],
            ));
        }
        i = i + 1;
    }
    r
}

/// Index of the first `c` at or after `from`, if any.
pub fn find_char_from(cs: &Vec<char>, c: char, from: usize) -> (r: Option<usize>)
    requires
        from <= cs@.len(),
    ensures
        match r {
            Some(i) => {
                &&& from <= i < cs@.len()
                &&& cs@[i as int] == c
                &&& forall|j: int| from <= j < i ==> cs@[j] != c
            },
            None => forall|j: int| from <= j < cs@.len() ==> cs@[j] != c,
        },
{
    let mut i: usize = from;
    while i < cs.len()
        invariant
            from <= i <= cs@.len(),
            forall|j: int| from <= j < i ==> cs@[j] != c,
        decreases cs@.len() - i,
    {
        if cs[i] == c {
            return Some(i);
        }
        i = i + 1;
    }
    None
}

proof fn lemma_trim_front_index(s: Seq<char>, lo: int)
    requires
        0 <= lo <= s.len(),
        forall|j: int| 0 <= j < lo ==> is_space(s[j]),
        lo == s.len() || !is_space(s[lo]),
    ensures
        trim_front(s) == s.subrange(lo, s.len() as int),
    decreases lo,
{
    if lo == 0 {
        assert(s.subrange(0, s.len() as int) =~= s);
    } else {
        assert(is_space(s[0]));
        lemma_trim_front_index(s.drop_first(), lo - 1);
        assert(s.drop_first().subrange(lo - 1, s.drop_first().len() as int) =~= s.subrange(
            lo,
            s.len() as int,
        ));
    }
}

proof fn lemma_trim_back_index(s: Seq<char>, hi: int)
    requires
        0 <= hi <= s.len(),
        forall|j: int| hi <= j < s.len() ==> is_space(s[j]),
        hi == 0 || !is_space(s[hi - 1]),
    ensures
        trim_back(s) == s.subrange(0, hi),
    decreases s.len(),
{
    if hi == s.len() {
        if s.len() == 0 || !is_space(s.last()) {
            assert(s.subrange(0, s.len() as int) =~= s);
        } else {
            assert(false);
        }
    } else {
        assert(is_space(s.last()));
        lemma_trim_back_index(s.drop_last(), hi);
        assert(s.drop_last().subrange(0, hi) =~= s.subrange(0, hi));
    }
}

/// The characters with leading and trailing whitespace removed.
pub fn trim_chars(cs: &Vec<char>) -> (r: Vec<char>)
    ensures
        r@ == trim_spec(cs@),
{
    let n = cs.len();
    let mut lo: usize = 0;
    while lo < n && is_space_char(cs[lo])
        invariant
            lo <= n == cs@.len(),
            forall|j: int| 0 <= j < lo ==> is_space(cs@[j]),
        decreases n - lo,
    {
        lo = lo + 1;
    }
    proof {
        lemma_trim_front_index(cs@, lo as int);
    }
    let mut hi: usize = n;
    while hi > lo && is_space_char(cs[hi - 1])
        invariant
            lo <= hi <= n == cs@.len(),
            forall|j: int| hi <= j < cs@.len() ==> is_space(cs@[j]),
        decreases hi,
    {
        hi = hi - 1;
    }
    proof {
        let t = cs@.subrange(lo as int, cs@.len() as int);
        lemma_trim_back_index(t, hi - lo);
        assert(t.subrange(0, hi - lo) =~= cs@.subrange(lo as int, hi as int));
    }
    sub_chars(cs, lo, hi)
}

/// Parses a non-empty run of decimal digits.
pub fn parse_u32_chars(cs: &Vec<char>) -> (r: Option<u32>)
    ensures
        r == parse_u32_spec(cs@),
{
    let n = cs.len();
    if n == 0 {
        return None;
    }
    let mut acc: u64 = 0;
    let mut too_big = false;
    let mut i: usize = 0;
    while i < n
        invariant
            i <= n == cs@.len(),
            all_digits(cs@.subrange(0, i as int)),
            !too_big ==> acc <= u32::MAX && acc == digits_value(cs@.subrange(0, i as int)),
            too_big ==> digits_value(cs@.subrange(0, i as int)) > u32::MAX,
        decreases n - i,
    {
        let c = cs[i];
        if c < '0' || c > '9' {
            assert(!is_digit(cs@[i as int]));
            return None;
        }
        let ghost prefix = cs@.subrange(0, i as int);
        proof {
            assert(cs@.subrange(0, i + 1) =~= prefix.push(cs@[i as int]));
            assert(cs@.subrange(0, i + 1).drop_last() =~= prefix);
            assert(digits_value(cs@.subrange(0, i + 1)) == digits_value(prefix) * 10 + digit_val(
                cs@[i as int],
            ));
        }
        let d = (c as u32) - 48;
        assert(d == digit_val(cs@[i as int]));
        if !too_big {
            acc = acc * 10 + (d as u64);
            if acc > 0xffff_ffff {
                too_big = true;
            }
        } else {
            proof {
                assert(digits_value(prefix) * 10 >= digits_value(prefix));
            }
        }
        i = i + 1;
    }
    proof {
        assert(cs@.subrange(0, n as int) =~= cs@);
    }
    if too_big {
        None
    } else {
        Some(acc as u32)
    }
}

/// Parses a decimal number from a string, std-style leading and
/// trailing whitespace first removed by the caller's `trim`.
pub fn parse_u32_trimmed(s: &str) -> (r: Option<u32>)
    ensures
        r == parse_u32_spec(trim_spec(s@)),
{
    let cs = chars_of(s);
    let t = trim_chars(&cs);
    parse_u32_chars(&t)
}

/// What the side prompt accepts: a positive number.  Zero and anything
/// unparsable are rejected and the prompt is asked again.
pub fn side_from_input(s: &str) -> (r: Option<u32>)
    ensures
        r == (match parse_u32_spec(trim_spec(s@)) {
            Some(v) => if v > 0 {
                Some(v)
            } else {
                None
            },
            None => None,
        }),
{
    match parse_u32_trimmed(s) {
        Some(v) => if v > 0 {
            Some(v)
        } else {
            None
        },
        None => None,
    }
}

/// What the choice prompt accepts: a number between 1 and the number
/// of choices on offer, inclusive.
pub fn choice_from_input(s: &str, num_of_choices: u32) -> (r: Option<u32>)
    ensures
        r == (match parse_u32_spec(trim_spec(s@)) {
            Some(v) => if 1 <= v <= num_of_choices {
                Some(v)
            } else {
                None
            },
            None => None,
        }),
{
    match parse_u32_trimmed(s) {
        Some(v) => if 1 <= v && v <= num_of_choices {
            Some(v)
        } else {
            None
        },
        None => None,
    }
}

} // verus!
