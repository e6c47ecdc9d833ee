//! Text helpers: decimal numbers, trimming, prefixes and substrings.

use vstd::prelude::*;

verus! {

/// The character for a decimal digit.
pub open spec fn digit_char(d: nat) -> char {
    (48 + d) as char
}

/// A natural number in decimal, without leading zeros.
pub open spec fn decimal(n: nat) -> Seq<char>
    decreases n,
{
    if n < 10 {
        seq![digit_char(n)]
    } else {
        decimal(n / 10).push(digit_char(n % 10))
    }
}

fn digit_text(d: u64) -> (text: &'static str)
    requires
        d < 10,
    ensures
        text@ == seq![digit_char(d as nat)],
{
    proof {
        reveal_strlit("0");
        reveal_strlit("1");
        reveal_strlit("2");
        reveal_strlit("3");
        reveal_strlit("4");
        reveal_strlit("5");
        reveal_strlit("6");
        reveal_strlit("7");
        reveal_strlit("8");
        reveal_strlit("9");
    }
    match d {
        0 => "0",
        1 => "1",
        2 => "2",
        3 => "3",
        4 => "4",
        5 => "5",
        6 => "6",
        7 => "7",
        8 => "8",
        _ => "9",
    }
}

/// Formats a number in decimal.
pub fn decimal_text(n: u64) -> (text: String)
    ensures
        text@ == decimal(n as nat),
    decreases n,
{
    if n < 10 {
        digit_text(n).to_owned()
    } else {
        let mut text = decimal_text(n / 10);
        text.append(digit_text(n % 10));
        text
    }
}

/// `first` followed by `second`.
pub fn concat(first: &str, second: &str) -> (text: String)
    ensures
        text@ == first@ + second@,
{
    let mut text = first.to_owned();
    text.append(second);
    text
}

/// `prefix` followed by a number in decimal.
pub fn with_number(prefix: &str, n: u64) -> (text: String)
    ensures
        text@ == prefix@ + decimal(n as nat),
{
    concat(prefix, decimal_text(n).as_str())
}

/// The two texts hold the same characters.
pub fn same_text(a: &str, b: &str) -> (same: bool)
    ensures
        same == (a@ == b@),
{
    a.to_owned() == b.to_owned()
}

/// Unicode's White_Space property.
pub open spec fn white_space(c: char) -> bool {
    let n = c as int;
    ||| 0x09 <= n <= 0x0d
    ||| n == 0x20
    ||| n == 0x85
    ||| n == 0xa0
    ||| n == 0x1680
    ||| 0x2000 <= n <= 0x200a
    ||| n == 0x2028
    ||| n == 0x2029
    ||| n == 0x202f
    ||| n == 0x205f
    ||| n == 0x3000
}

fn is_white_space(c: char) -> (white: bool)
    ensures
        white == white_space(c),
{
    let n: u32 = c as u32;
    (0x09 <= n && n <= 0x0d) || n == 0x20 || n == 0x85 || n == 0xa0 || n == 0x1680 || (0x2000 <= n
        && n <= 0x200a) || n == 0x2028 || n == 0x2029 || n == 0x202f || n == 0x205f || n == 0x3000
}

/// `s` without its leading white space.
pub open spec fn skip_white(s: Seq<char>) -> Seq<char>
    decreases s.len(),
{
    if s.len() > 0 && white_space(s[0]) {
        skip_white(s.subrange(1, s.len() as int))
    } else {
        s
    }
}

/// `s` without its trailing white space.
pub open spec fn drop_white(s: Seq<char>) -> Seq<char>
    decreases s.len(),
{
    if s.len() > 0 && white_space(s[s.len() - 1]) {
        drop_white(s.subrange(0, s.len() - 1))
    } else {
        s
    }
}

/// `s` without the white space at either end.
pub open spec fn trimmed(s: Seq<char>) -> Seq<char> {
    drop_white(skip_white(s))
}

/// Removes the white space at either end.
pub fn trim(s: &str) -> (t: String)
    ensures
        t@ == trimmed(s@),
{
    let len: usize = s.unicode_len();
    let mut from: usize = 0;
    assert(s@.subrange(0, len as int) =~= s@);
    while from < len && is_white_space(s.get_char(from))
        invariant
            from <= len,
            len == s@.len(),
            skip_white(s@) == skip_white(s@.subrange(from as int, len as int)),
        decreases len - from,
    {
        assert(s@.subrange(from as int, len as int).subrange(1, len - from) =~= s@.subrange(
            from + 1,
            len as int,
        ));
        from = from + 1;
    }
    let mut to: usize = len;
    let ghost body = s@.subrange(from as int, len as int);
    assert(skip_white(s@) == body);
    assert(body =~= s@.subrange(from as int, to as int));
    while from < to && is_white_space(s.get_char(to - 1))
        invariant
            from <= to <= len,
            len == s@.len(),
            drop_white(body) == drop_white(s@.subrange(from as int, to as int)),
        decreases to - from,
    {
        assert(s@.subrange(from as int, to as int).subrange(0, to - from - 1) =~= s@.subrange(
            from as int,
            to - 1,
        ));
        to = to - 1;
    }
    s.substring_char(from, to).to_owned()
}

/// `s` begins with `prefix`.
pub open spec fn begins_with(s: Seq<char>, prefix: Seq<char>) -> bool {
    &&& prefix.len() <= s.len()
    &&& s.subrange(0, prefix.len() as int) == prefix
}

/// `part` occurs in `s`.
pub open spec fn has_part(s: Seq<char>, part: Seq<char>) -> bool {
    exists|i: int|
        0 <= i <= s.len() - part.len() && #[trigger] s.subrange(i, i + part.len()) == part
}

pub fn starts_with(s: &str, prefix: &str) -> (found: bool)
    ensures
        found == begins_with(s@, prefix@),
{
    let n: usize = prefix.unicode_len();
    n <= s.unicode_len() && same_text(s.substring_char(0, n), prefix)
}

pub fn contains(s: &str, part: &str) -> (found: bool)
    ensures
        found == has_part(s@, part@),
{
    let len: usize = s.unicode_len();
    let n: usize = part.unicode_len();
    if n > len {
        return false;
    }
    let last: usize = len - n;
    let mut i: usize = 0;
    while !same_text(s.substring_char(i, i + n), part)
        invariant
            i <= last,
            last + n == s@.len(),
            n == part@.len(),
            s@.len() <= usize::MAX,
            forall|j: int| 0 <= j < i ==> #[trigger] s@.subrange(j, j + n) != part@,
        decreases last - i,
    {
        if i == last {
            return false;
        }
        i = i + 1;
    }
    assert(s@.subrange(i as int, i + n) == part@);
    true
}

/// Trimmed text has no white space at either end.
pub proof fn lemma_trimmed(s: Seq<char>)
    ensures
        trimmed(s).len() > 0 ==> !white_space(trimmed(s)[0]) && !white_space(trimmed(s).last()),
{
    lemma_skip_white(s);
    lemma_drop_white(skip_white(s));
}

proof fn lemma_skip_white(s: Seq<char>)
    ensures
        skip_white(s).len() > 0 ==> !white_space(skip_white(s)[0]),
    decreases s.len(),
{
    if s.len() > 0 && white_space(s[0]) {
        lemma_skip_white(s.subrange(1, s.len() as int));
    }
}

proof fn lemma_drop_white(s: Seq<char>)
    ensures
        drop_white(s).len() > 0 ==> !white_space(drop_white(s).last()) && drop_white(s)[0] == s[0],
    decreases s.len(),
{
    if s.len() > 0 && white_space(s[s.len() - 1]) {
        lemma_drop_white(s.subrange(0, s.len() - 1));
    }
}

/// Text without white space at either end is trimmed.
pub proof fn lemma_trimmed_fixed(s: Seq<char>)
    requires
        s.len() > 0 ==> !white_space(s[0]) && !white_space(s.last()),
    ensures
        trimmed(s) == s,
{
}

/// The number that decimal digits stand for.
pub open spec fn number(digits: Seq<char>) -> int
    decreases digits.len(),
{
    if digits.len() == 0 {
        0
    } else {
        10 * number(digits.drop_last()) + (digits.last() as int - '0' as int)
    }
}

/// What is formatted reads back, in digits, without a zero in front.
pub proof fn law_decimal(n: nat)
    ensures
        number(decimal(n)) == n,
        decimal(n).len() > 0,
        forall|i: int| 0 <= i < decimal(n).len() ==> '0' <= #[trigger] decimal(n)[i] <= '9',
        decimal(n).len() > 1 ==> decimal(n)[0] != '0',
    decreases n,
{
    reveal_with_fuel(number, 2);
    if n < 10 {
        assert(decimal(n).drop_last() =~= Seq::<char>::empty());
    } else {
        law_decimal(n / 10);
        assert(decimal(n).drop_last() =~= decimal(n / 10));
        if decimal(n / 10).len() == 1 {
            assert(decimal(n / 10).drop_last() =~= Seq::<char>::empty());
            assert(number(decimal(n / 10)) == decimal(n / 10)[0] as int - '0' as int);
        }
    }
}

/// Trimming takes white space off either end, all of it, and nothing else.
pub proof fn law_trim(s: Seq<char>)
    ensures
        exists|from: int, to: int|
            {
                &&& 0 <= from <= to <= s.len()
                &&& #[trigger] s.subrange(from, to) == trimmed(s)
                &&& forall|i: int| 0 <= i < from ==> white_space(#[trigger] s[i])
                &&& forall|i: int| to <= i < s.len() ==> white_space(#[trigger] s[i])
            },
        trimmed(s).len() > 0 ==> !white_space(trimmed(s)[0]) && !white_space(trimmed(s).last()),
{
    lemma_trimmed(s);
    let from = lemma_skipped(s);
    let rest = s.subrange(from, s.len() as int);
    let len = lemma_dropped(rest);
    assert(s.subrange(from, from + len) =~= rest.subrange(0, len));
    assert forall|i: int| from + len <= i < s.len() implies white_space(#[trigger] s[i]) by {
        assert(rest[i - from] == s[i]);
    }
}

proof fn lemma_skipped(s: Seq<char>) -> (from: int)
    ensures
        0 <= from <= s.len(),
        skip_white(s) == s.subrange(from, s.len() as int),
        forall|i: int| 0 <= i < from ==> white_space(#[trigger] s[i]),
    decreases s.len(),
{
    if s.len() > 0 && white_space(s[0]) {
        let rest = s.subrange(1, s.len() as int);
        let n = lemma_skipped(rest);
        assert(rest.subrange(n, rest.len() as int) =~= s.subrange(n + 1, s.len() as int));
        assert forall|i: int| 0 <= i < n + 1 implies white_space(#[trigger] s[i]) by {
            if i > 0 {
                assert(rest[i - 1] == s[i]);
            }
        }
        n + 1
    } else {
        assert(s.subrange(0, s.len() as int) =~= s);
        0
    }
}

proof fn lemma_dropped(s: Seq<char>) -> (len: int)
    ensures
        0 <= len <= s.len(),
        drop_white(s) == s.subrange(0, len),
        forall|i: int| len <= i < s.len() ==> white_space(#[trigger] s[i]),
    decreases s.len(),
{
    if s.len() > 0 && white_space(s[s.len() - 1]) {
        let rest = s.subrange(0, s.len() - 1);
        let n = lemma_dropped(rest);
        assert(rest.subrange(0, n) =~= s.subrange(0, n));
        assert forall|i: int| n <= i < s.len() implies white_space(#[trigger] s[i]) by {
            if i < s.len() - 1 {
                assert(rest[i] == s[i]);
            }
        }
        n
    } else {
        assert(s.subrange(0, s.len() as int) =~= s);
        s.len() as int
    }
}

} // verus!
