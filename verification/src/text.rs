//! Character-level text helpers shared by the settings format and the window
//! list: Unicode white space, trimming, substring search and decimal numbers.

use vstd::prelude::*;

verus! {

/// The Unicode `White_Space` property (the characters for which
/// `char::is_whitespace` holds).
pub open spec fn white_space(c: char) -> bool {
    let u = c as u32;
    ||| 0x09 <= u <= 0x0d
    ||| u == 0x20
    ||| u == 0x85
    ||| u == 0xa0
    ||| u == 0x1680
    ||| 0x2000 <= u <= 0x200a
    ||| u == 0x2028
    ||| u == 0x2029
    ||| u == 0x202f
    ||| u == 0x205f
    ||| u == 0x3000
}

/// Whether `c` is white space, see `white_space`.
pub fn is_white_space(c: char) -> (r: bool)
    ensures
        r == white_space(c),
{
    let u = c as u32;
    (0x09 <= u && u <= 0x0d) || u == 0x20 || u == 0x85 || u == 0xa0 || u == 0x1680 || (0x2000 <= u
        && u <= 0x200a) || u == 0x2028 || u == 0x2029 || u == 0x202f || u == 0x205f || u == 0x3000
}

/// Every character of `s` is white space (so `s` trims to nothing).
pub open spec fn blank(s: Seq<char>) -> bool {
    forall|i: int| 0 <= i < s.len() ==> white_space(#[trigger] s[i])
}

/// The characters of `s`, in order.
pub fn chars_of(s: &str) -> (r: Vec<char>)
    ensures
        r@ == s@,
{
    let mut out: Vec<char> = Vec::new();
    for c in it: s.chars()
        invariant
            out@ == it.seq().take(it.index() as int),
    {
        out.push(c);
        proof {
            assert(out@ == it.seq().take(it.index() as int + 1));
        }
    }
    proof {
        assert(out@ =~= s@);
    }
    out
}

/// Whether every character of `s` is white space.
pub fn is_blank(s: &str) -> (r: bool)
    ensures
        r == blank(s@),
{
    let cs = chars_of(s);
    let mut i: usize = 0;
    while i < cs.len()
        invariant
            cs@ == s@,
            i <= cs.len(),
            forall|j: int| 0 <= j < i ==> white_space(#[trigger] cs@[j]),
        decreases cs.len() - i,
    {
        if !is_white_space(cs[i]) {
            return false;
        }
        i += 1;
    }
    true
}

/// `needle` occurs in `hay` starting at `at`.
pub open spec fn occurs_at(hay: Seq<char>, needle: Seq<char>, at: int) -> bool {
    0 <= at && at + needle.len() <= hay.len() && hay.subrange(at, at + needle.len()) == needle
}

/// `needle` occurs somewhere in `hay` (the empty needle occurs everywhere).
pub open spec fn occurs_in(hay: Seq<char>, needle: Seq<char>) -> bool {
    exists|at: int| occurs_at(hay, needle, at)
}

/// Whether `needle` occurs at `at` in `hay`.
fn matches_at(hay: &Vec<char>, needle: &Vec<char>, at: usize) -> (r: bool)
    requires
        at + needle.len() <= hay.len(),
    ensures
        r == occurs_at(hay@, needle@, at as int),
{
    let mut i: usize = 0;
    while i < needle.len()
        invariant
            at + needle.len() <= hay.len(),
            i <= needle.len(),
            forall|j: int| 0 <= j < i ==> hay@[at + j] == needle@[j],
        decreases needle.len() - i,
    {
        if hay[at + i] != needle[i] {
            proof {
                assert(hay@.subrange(at as int, at + needle.len())[i as int] != needle@[i as int]);
            }
            return false;
        }
        i += 1;
    }
    proof {
        assert(hay@.subrange(at as int, at + needle.len()) =~= needle@);
    }
    true
}

/// Whether `needle` occurs in `hay` (substring search).
pub fn contains_text(hay: &str, needle: &str) -> (r: bool)
    ensures
        r == occurs_in(hay@, needle@),
{
    let h = chars_of(hay);
    let n = chars_of(needle);
    if n.len() > h.len() {
        proof {
            assert forall|at: int| !occurs_at(hay@, needle@, at) by {}
        }
        return false;
    }
    let last = h.len() - n.len();
    let mut at: usize = 0;
    loop
        invariant
            h@ == hay@,
            n@ == needle@,
            last == h.len() - n.len(),
            n.len() <= h.len(),
            at <= last,
            forall|j: int| 0 <= j < at ==> !occurs_at(hay@, needle@, j),
        ensures
            forall|j: int| 0 <= j <= last ==> !occurs_at(hay@, needle@, j),
        decreases last - at,
    {
        if matches_at(&h, &n, at) {
            return true;
        }
        if at == last {
            break;
        }
        at += 1;
    }
    proof {
        assert forall|j: int| !occurs_at(hay@, needle@, j) by {
            if 0 <= j <= last {
            }
        }
    }
    false
}

/// Position of the first `c` in `s`, or `s.len()` when there is none.
pub open spec fn first_of(s: Seq<char>, c: char) -> nat
    decreases s.len(),
{
    if s.len() == 0 {
        0
    } else if s[0] == c {
        0
    } else {
        1 + first_of(s.drop_first(), c)
    }
}

/// `first_of` is the first position holding `c`.
pub proof fn lemma_first_of(s: Seq<char>, c: char, m: int)
    requires
        0 <= m <= s.len(),
        forall|k: int| 0 <= k < m ==> s[k] != c,
        m == s.len() || s[m] == c,
    ensures
        first_of(s, c) == m,
    decreases s.len(),
{
    if s.len() > 0 && m > 0 {
        assert forall|k: int| 0 <= k < m - 1 implies s.drop_first()[k] != c by {
            assert(s.drop_first()[k] == s[k + 1]);
        }
        lemma_first_of(s.drop_first(), c, m - 1);
    }
}

/// The first position at or after `from` and before `to` in `cs` that holds
/// `c`, or `to`.
pub fn find_char(cs: &Vec<char>, from: usize, to: usize, c: char) -> (r: usize)
    requires
        from <= to <= cs.len(),
    ensures
        from <= r <= to,
        first_of(cs@.subrange(from as int, to as int), c) == r - from,
        forall|k: int| from <= k < r ==> cs@[k] != c,
        r < to ==> cs@[r as int] == c,
{
    let mut i = from;
    while i < to && cs[i] != c
        invariant
            from <= i <= to <= cs.len(),
            forall|k: int| from <= k < i ==> cs@[k] != c,
        decreases to - i,
    {
        i += 1;
    }
    proof {
        let s = cs@.subrange(from as int, to as int);
        lemma_first_of(s, c, i - from);
    }
    i
}

/// How many white space characters `s` starts with.
pub open spec fn leading_ws(s: Seq<char>) -> nat
    decreases s.len(),
{
    if s.len() > 0 && white_space(s[0]) {
        1 + leading_ws(s.drop_first())
    } else {
        0
    }
}

/// How many white space characters `s` ends with.
pub open spec fn trailing_ws(s: Seq<char>) -> nat
    decreases s.len(),
{
    if s.len() > 0 && white_space(s.last()) {
        1 + trailing_ws(s.drop_last())
    } else {
        0
    }
}

/// `s` without its leading and trailing white space (`str::trim`).
pub open spec fn trim(s: Seq<char>) -> Seq<char> {
    if blank(s) {
        Seq::empty()
    } else {
        s.subrange(leading_ws(s) as int, s.len() - trailing_ws(s))
    }
}

pub proof fn lemma_leading_ws(s: Seq<char>, m: int)
    requires
        0 <= m <= s.len(),
        forall|k: int| 0 <= k < m ==> white_space(#[trigger] s[k]),
        m == s.len() || !white_space(s[m]),
    ensures
        leading_ws(s) == m,
    decreases s.len(),
{
    if s.len() > 0 && m > 0 {
        assert forall|k: int| 0 <= k < m - 1 implies white_space(#[trigger] s.drop_first()[k]) by {
            assert(s.drop_first()[k] == s[k + 1]);
        }
        lemma_leading_ws(s.drop_first(), m - 1);
    }
}

pub proof fn lemma_trailing_ws(s: Seq<char>, m: int)
    requires
        0 <= m <= s.len(),
        forall|k: int| s.len() - m <= k < s.len() ==> white_space(#[trigger] s[k]),
        m == s.len() || !white_space(s[s.len() - m - 1]),
    ensures
        trailing_ws(s) == m,
    decreases s.len(),
{
    if s.len() > 0 && m > 0 {
        assert forall|k: int| s.drop_last().len() - (m - 1) <= k < s.drop_last().len() implies white_space(
            #[trigger] s.drop_last()[k],
        ) by {
            assert(s.drop_last()[k] == s[k]);
        }
        lemma_trailing_ws(s.drop_last(), m - 1);
    }
}

/// `s` is empty or neither starts nor ends with white space.
pub open spec fn untrimmed_ends(s: Seq<char>) -> bool {
    s.len() == 0 || (!white_space(s[0]) && !white_space(s.last()))
}

/// Trimming leaves a text without white space at its ends unchanged.
pub proof fn lemma_trim_clean(s: Seq<char>)
    requires
        untrimmed_ends(s),
    ensures
        trim(s) == s,
{
    if s.len() == 0 {
        assert(blank(s));
        assert(trim(s) =~= s);
    } else {
        assert(!blank(s));
        lemma_leading_ws(s, 0);
        lemma_trailing_ws(s, 0);
        assert(s.subrange(0, s.len() as int) =~= s);
    }
}

/// The part of `cs[lo..hi]` that remains after trimming white space, as a range.
pub fn trim_range(cs: &Vec<char>, lo: usize, hi: usize) -> (r: (usize, usize))
    requires
        lo <= hi <= cs.len(),
    ensures
        lo <= r.0 <= r.1 <= hi,
        cs@.subrange(r.0 as int, r.1 as int) == trim(cs@.subrange(lo as int, hi as int)),
{
    let ghost s = cs@.subrange(lo as int, hi as int);
    let mut a = lo;
    while a < hi && is_white_space(cs[a])
        invariant
            lo <= a <= hi <= cs.len(),
            forall|k: int| lo <= k < a ==> white_space(#[trigger] cs@[k]),
        decreases hi - a,
    {
        a += 1;
    }
    if a == hi {
        proof {
            assert forall|k: int| 0 <= k < s.len() implies white_space(#[trigger] s[k]) by {
                assert(s[k] == cs@[lo + k]);
            }
            assert(cs@.subrange(a as int, a as int) =~= Seq::<char>::empty());
        }
        return (a, a);
    }
    let mut b = hi;
    while b > a && is_white_space(cs[b - 1])
        invariant
            lo <= a < hi,
            a <= b <= hi <= cs.len(),
            !white_space(cs@[a as int]),
            forall|k: int| b <= k < hi ==> white_space(#[trigger] cs@[k]),
        decreases b - a,
    {
        b -= 1;
    }
    proof {
        assert(!white_space(s[a - lo]));
        assert(!blank(s));
        assert forall|k: int| 0 <= k < a - lo implies white_space(#[trigger] s[k]) by {
            assert(s[k] == cs@[lo + k]);
        }
        lemma_leading_ws(s, a - lo);
        assert forall|k: int| s.len() - (hi - b) <= k < s.len() implies white_space(#[trigger] s[k]) by {
            assert(s[k] == cs@[lo + k]);
        }
        assert(b > a);
        assert(s[s.len() - (hi - b) - 1] == cs@[b - 1]);
        lemma_trailing_ws(s, hi - b);
        assert(cs@.subrange(a as int, b as int) =~= s.subrange(a - lo, s.len() - (hi - b)));
    }
    (a, b)
}

/// Whether `cs[lo..hi]` is the text `lit`.
pub fn range_is(cs: &Vec<char>, lo: usize, hi: usize, lit: &str) -> (r: bool)
    requires
        lo <= hi <= cs.len(),
    ensures
        r == (cs@.subrange(lo as int, hi as int) == lit@),
{
    let l = chars_of(lit);
    if hi - lo != l.len() {
        return false;
    }
    let mut i: usize = 0;
    while i < l.len()
        invariant
            l@ == lit@,
            lo <= hi <= cs.len(),
            hi - lo == l.len(),
            i <= l.len(),
            forall|k: int| 0 <= k < i ==> cs@[lo + k] == l@[k],
        decreases l.len() - i,
    {
        if cs[lo + i] != l[i] {
            proof {
                assert(cs@.subrange(lo as int, hi as int)[i as int] != lit@[i as int]);
            }
            return false;
        }
        i += 1;
    }
    proof {
        assert(cs@.subrange(lo as int, hi as int) =~= lit@);
    }
    true
}

pub open spec fn is_digit(c: char) -> bool {
    '0' <= c && c <= '9'
}

pub open spec fn digit_value(c: char) -> int {
    c as int - '0' as int
}

pub open spec fn all_digits(d: Seq<char>) -> bool {
    forall|i: int| 0 <= i < d.len() ==> is_digit(#[trigger] d[i])
}

/// The number written by the decimal digits `d` (most significant first).
pub open spec fn decimal_value(d: Seq<char>) -> int
    decreases d.len(),
{
    if d.len() == 0 {
        0
    } else {
        10 * decimal_value(d.drop_last()) + digit_value(d.last())
    }
}

/// What `str::parse::<i32>` accepts: an optional `+` or `-`, then one or more
/// ASCII digits, whose value fits in `i32`.
pub open spec fn parse_i32(s: Seq<char>) -> Option<i32> {
    if s.len() == 0 {
        None
    } else {
        let digits = if s[0] == '+' || s[0] == '-' { s.drop_first() } else { s };
        let v = if s[0] == '-' { -decimal_value(digits) } else { decimal_value(digits) };
        if digits.len() == 0 || !all_digits(digits) || v < i32::MIN || v > i32::MAX {
            None
        } else {
            Some(v as i32)
        }
    }
}

proof fn lemma_decimal_value_nonneg(d: Seq<char>)
    requires
        all_digits(d),
    ensures
        decimal_value(d) >= 0,
    decreases d.len(),
{
    if d.len() > 0 {
        assert(is_digit(d[d.len() - 1]));
        lemma_decimal_value_nonneg(d.drop_last());
    }
}

/// Parses `cs[lo..hi]` as a decimal `i32`, see `parse_i32`.
pub fn parse_i32_range(cs: &Vec<char>, lo: usize, hi: usize) -> (r: Option<i32>)
    requires
        lo <= hi <= cs.len(),
    ensures
        r == parse_i32(cs@.subrange(lo as int, hi as int)),
{
    let ghost s = cs@.subrange(lo as int, hi as int);
    if lo == hi {
        return None;
    }
    let negative = cs[lo] == '-';
    let start = if cs[lo] == '+' || cs[lo] == '-' { lo + 1 } else { lo };
    let ghost digits = cs@.subrange(start as int, hi as int);
    proof {
        if cs[lo as int] == '+' || cs[lo as int] == '-' {
            assert(digits =~= s.drop_first());
        } else {
            assert(digits =~= s);
        }
    }
    if start == hi {
        return None;
    }
    let cap: u64 = 0x8000_0001;
    let mut acc: u64 = 0;
    let mut i = start;
    while i < hi
        invariant
            lo <= start <= i <= hi <= cs.len(),
            cap == 0x8000_0001,
            s == cs@.subrange(lo as int, hi as int),
            s[0] == cs@[lo as int],
            negative == (cs@[lo as int] == '-'),
            (cs@[lo as int] == '+' || cs@[lo as int] == '-') ==> digits == s.drop_first(),
            !(cs@[lo as int] == '+' || cs@[lo as int] == '-') ==> digits == s,
            digits == cs@.subrange(start as int, hi as int),
            all_digits(cs@.subrange(start as int, i as int)),
            acc as int == (if decimal_value(cs@.subrange(start as int, i as int)) < cap as int {
                decimal_value(cs@.subrange(start as int, i as int))
            } else {
                cap as int
            }),
        decreases hi - i,
    {
        let c = cs[i];
        if c < '0' || c > '9' {
            proof {
                assert(digits[i - start] == c);
                assert(!all_digits(digits));
            }
            return None;
        }
        let d = (c as u32 - '0' as u32) as u64;
        let ghost prefix = cs@.subrange(start as int, i as int);
        let ghost next = cs@.subrange(start as int, i + 1);
        proof {
            assert(next.drop_last() =~= prefix);
            assert(next.last() == c);
            lemma_decimal_value_nonneg(prefix);
            assert forall|k: int| 0 <= k < next.len() implies is_digit(#[trigger] next[k]) by {
                if k < prefix.len() {
                    assert(next[k] == prefix[k]);
                }
            }
        }
        let grown = acc * 10 + d;
        acc = if grown < cap { grown } else { cap };
        i += 1;
    }
    proof {
        assert(cs@.subrange(start as int, hi as int) =~= digits);
        lemma_decimal_value_nonneg(digits);
    }
    if negative {
        if acc > 0x8000_0000 {
            None
        } else {
            Some((0 - (acc as i64)) as i32)
        }
    } else {
        if acc > 0x7fff_ffff {
            None
        } else {
            Some(acc as i32)
        }
    }
}

pub open spec fn digit_char(d: int) -> char {
    (d + '0' as int) as char
}

/// The decimal digits of `n`, without leading zeros.
pub open spec fn decimal_text(n: nat) -> Seq<char>
    decreases n,
{
    if n < 10 {
        seq![digit_char(n as int)]
    } else {
        decimal_text(n / 10).push(digit_char((n % 10) as int))
    }
}

/// `n` written in decimal as `Display` writes an `i32`.
pub open spec fn i32_text(n: i32) -> Seq<char> {
    if n < 0 {
        seq!['-'] + decimal_text((-n) as nat)
    } else {
        decimal_text(n as nat)
    }
}

pub proof fn lemma_decimal_text(n: nat)
    ensures
        all_digits(decimal_text(n)),
        decimal_value(decimal_text(n)) == n,
        decimal_text(n).len() > 0,
    decreases n,
{
    if n < 10 {
        let c = digit_char(n as int);
        assert(c as int == n + '0' as int);
        assert(decimal_text(n).drop_last() =~= Seq::<char>::empty());
        assert(decimal_value(decimal_text(n)) == 10 * decimal_value(Seq::<char>::empty()) + digit_value(c));
    } else {
        lemma_decimal_text(n / 10);
        let t = decimal_text(n);
        assert(t.drop_last() =~= decimal_text(n / 10));
        let c = digit_char((n % 10) as int);
        assert(c as int == (n % 10) + '0' as int);
        assert(t.last() == c);
        assert(digit_value(c) == n % 10);
        assert forall|i: int| 0 <= i < t.len() implies is_digit(#[trigger] t[i]) by {
            if i < t.len() - 1 {
                assert(t[i] == decimal_text(n / 10)[i]);
            }
        }
    }
}

/// Reading back the decimal text of an `i32` gives the same number.
pub proof fn lemma_i32_text_parses(n: i32)
    ensures
        parse_i32(i32_text(n)) == Some(n),
{
    let s = i32_text(n);
    if n < 0 {
        lemma_decimal_text((-n) as nat);
        assert(s.drop_first() =~= decimal_text((-n) as nat));
    } else {
        lemma_decimal_text(n as nat);
        let t = decimal_text(n as nat);
        assert(is_digit(t[0]));
    }
}

fn digit_str(d: u64) -> (r: &'static str)
    requires
        d < 10,
    ensures
        r@ == seq![digit_char(d as int)],
{
    proof {
        reveal_strlit("0");
        reveal_strlit("1");
        reveal_strlit("2");
        reveal_strlit("3");
        reveal_strlit("4");
        reveal_strlit("5");
        reveal_strlit("6");
        reveal_strlit("7");
        reveal_strlit("8");
        reveal_strlit("9");
    }
    let r = match d {
        0 => "0",
        1 => "1",
        2 => "2",
        3 => "3",
        4 => "4",
        5 => "5",
        6 => "6",
        7 => "7",
        8 => "8",
        _ => "9",
    };
    proof {
        assert(r@ =~= seq![digit_char(d as int)]);
    }
    r
}

/// The decimal digits of `n`.
pub fn decimal_string(n: u64) -> (r: String)
    ensures
        r@ == decimal_text(n as nat),
    decreases n,
{
    if n < 10 {
        String::from_str(digit_str(n))
    } else {
        let mut s = decimal_string(n / 10);
        s.append(digit_str(n % 10));
        s
    }
}

/// `n` in decimal, as `Display` writes an `i32`.
pub fn i32_string(n: i32) -> (r: String)
    ensures
        r@ == i32_text(n),
{
    if n < 0 {
        let mut s = String::from_str("-");
        proof {
            reveal_strlit("-");
        }
        let magnitude = (0 - (n as i64)) as u64;
        let digits = decimal_string(magnitude);
        s.append(digits.as_str());
        s
    } else {
        decimal_string(n as u64)
    }
}

} // verus!
