//! Small shared text helpers.

use vstd::prelude::*;
use vstd::string::StrSliceExecFns;
use vstd::string::StringExecFns;

verus! {

// ---------- characters ----------

/// The characters of a text, in order.
pub fn chars_of(s: &str) -> (chars: Vec<char>)
    ensures
        chars@ == s@,
{
    let mut out: Vec<char> = Vec::new();
    for c in it: s.chars()
        invariant
            out@ == it.seq().take(it.index() as int),
            it.seq() == s@,
    {
        out.push(c);
        assert(it.seq().take(it.index() as int).push(c) =~= it.seq().take(it.index() + 1));
    }
    assert(s@.take(s@.len() as int) =~= s@);
    out
}

/// Unicode's `White_Space` property.
pub open spec fn is_white(c: char) -> bool {
    ||| 0x09 <= c as u32 <= 0x0d
    ||| c as u32 == 0x20
    ||| c as u32 == 0x85
    ||| c as u32 == 0xa0
    ||| c as u32 == 0x1680
    ||| 0x2000 <= c as u32 <= 0x200a
    ||| c as u32 == 0x2028
    ||| c as u32 == 0x2029
    ||| c as u32 == 0x202f
    ||| c as u32 == 0x205f
    ||| c as u32 == 0x3000
}

fn white(c: char) -> (yes: bool)
    ensures
        yes == is_white(c),
{
    let u: u32 = c as u32;
    (0x09 <= u && u <= 0x0d) || u == 0x20 || u == 0x85 || u == 0xa0 || u == 0x1680 || (0x2000 <= u
        && u <= 0x200a) || u == 0x2028 || u == 0x2029 || u == 0x202f || u == 0x205f || u == 0x3000
}

/// The lower-case form of an ASCII letter, any other character unchanged.
pub open spec fn ascii_lower(c: char) -> u32 {
    if 0x41 <= c as u32 <= 0x5a {
        (c as u32 + 0x20) as u32
    } else {
        c as u32
    }
}

fn lower(c: char) -> (l: u32)
    ensures
        l == ascii_lower(c),
{
    let u: u32 = c as u32;
    if 0x41 <= u && u <= 0x5a {
        u + 0x20
    } else {
        u
    }
}

// ---------- comparing ----------

/// Two texts are equal when the case of ASCII letters is ignored.
pub open spec fn same_ignoring_case(a: Seq<char>, b: Seq<char>) -> bool {
    &&& a.len() == b.len()
    &&& forall|i: int| 0 <= i < a.len() ==> ascii_lower(#[trigger] a[i]) == ascii_lower(b[i])
}

pub fn eq_ignore_case(a: &str, b: &str) -> (same: bool)
    ensures
        same == same_ignoring_case(a@, b@),
{
    let x = chars_of(a);
    let y = chars_of(b);
    if x.len() != y.len() {
        return false;
    }
    let mut i: usize = 0;
    while i < x.len()
        invariant
            0 <= i <= x.len(),
            x.len() == y.len(),
            x@ == a@,
            y@ == b@,
            forall|k: int| 0 <= k < i ==> ascii_lower(#[trigger] a@[k]) == ascii_lower(b@[k]),
        decreases x.len() - i,
    {
        if lower(x[i]) != lower(y[i]) {
            assert(ascii_lower(a@[i as int]) != ascii_lower(b@[i as int]));
            return false;
        }
        i += 1;
    }
    true
}

/// The two texts have the same characters.
pub fn same_text(a: &str, b: &str) -> (same: bool)
    ensures
        same == (a@ == b@),
{
    let x = chars_of(a);
    let y = chars_of(b);
    if x.len() != y.len() {
        return false;
    }
    let mut i: usize = 0;
    while i < x.len()
        invariant
            0 <= i <= x.len(),
            x.len() == y.len(),
            x@ == a@,
            y@ == b@,
            forall|k: int| 0 <= k < i ==> a@[k] == b@[k],
        decreases x.len() - i,
    {
        if x[i] != y[i] {
            return false;
        }
        i += 1;
    }
    assert(a@ =~= b@);
    true
}

/// `needle` occurs in `hay` at position `k`.
pub open spec fn occurs_at(hay: Seq<char>, needle: Seq<char>, k: int) -> bool {
    0 <= k <= hay.len() - needle.len() && hay.subrange(k, k + needle.len()) == needle
}

pub open spec fn contains_text(hay: Seq<char>, needle: Seq<char>) -> bool {
    exists|k: int| occurs_at(hay, needle, k)
}

pub fn contains(hay: &str, needle: &str) -> (found: bool)
    ensures
        found == contains_text(hay@, needle@),
{
    let h = chars_of(hay);
    let n = chars_of(needle);
    let mut k: usize = 0;
    while n.len() <= h.len() && k <= h.len() - n.len()
        invariant
            h@ == hay@,
            n@ == needle@,
            0 <= k,
            n.len() <= h.len() ==> k <= h.len() - n.len() + 1,
            forall|j: int| 0 <= j < k ==> !occurs_at(hay@, needle@, j),
        decreases h.len() - k,
    {
        let mut i: usize = 0;
        while i < n.len() && h[k + i] == n[i]
            invariant
                0 <= i <= n.len(),
                n.len() <= h.len(),
                k <= h.len() - n.len(),
                forall|j: int| 0 <= j < i ==> h@[k + j] == n@[j],
            decreases n.len() - i,
        {
            i += 1;
        }
        if i == n.len() {
            assert(hay@.subrange(k as int, k + needle@.len()) =~= needle@);
            assert(occurs_at(hay@, needle@, k as int));
            return true;
        }
        proof {
            if occurs_at(hay@, needle@, k as int) {
                assert(hay@.subrange(k as int, k + needle@.len())[i as int] == hay@[k + i]);
            }
        }
        if k == h.len() {
            return false;
        }
        k += 1;
    }
    false
}

// ---------- trimming ----------

pub open spec fn trim_start(s: Seq<char>) -> Seq<char>
    decreases s.len(),
{
    if s.len() > 0 && is_white(s[0]) {
        trim_start(s.drop_first())
    } else {
        s
    }
}

pub open spec fn trim_end(s: Seq<char>) -> Seq<char>
    decreases s.len(),
{
    if s.len() > 0 && is_white(s.last()) {
        trim_end(s.drop_last())
    } else {
        s
    }
}

/// The text without the white space at both ends.
pub open spec fn trimmed(s: Seq<char>) -> Seq<char> {
    trim_end(trim_start(s))
}

/// The part `from..to` of `s` without the white space at its ends.
pub fn trim_range(s: &Vec<char>, from: usize, to: usize) -> (range: (usize, usize))
    requires
        from <= to <= s@.len(),
    ensures
        from <= range.0 <= range.1 <= to,
        s@.subrange(range.0 as int, range.1 as int) == trimmed(
            s@.subrange(from as int, to as int),
        ),
{
    let ghost whole = s@.subrange(from as int, to as int);
    let mut a: usize = from;
    while a < to && white(s[a])
        invariant
            from <= a <= to <= s@.len(),
            trim_start(s@.subrange(a as int, to as int)) == trim_start(whole),
        decreases to - a,
    {
        assert(s@.subrange(a as int, to as int).drop_first() =~= s@.subrange(a + 1, to as int));
        a += 1;
    }
    let ghost left = s@.subrange(a as int, to as int);
    assert(trim_start(left) == left);
    let mut b: usize = to;
    while b > a && white(s[b - 1])
        invariant
            from <= a <= b <= to <= s@.len(),
            trim_end(s@.subrange(a as int, b as int)) == trim_end(left),
        decreases b - a,
    {
        assert(s@.subrange(a as int, b as int).drop_last() =~= s@.subrange(a as int, b - 1));
        b -= 1;
    }
    assert(trim_end(s@.subrange(a as int, b as int)) == s@.subrange(a as int, b as int));
    (a, b)
}

/// The text without the white space at both ends.
pub fn trim<'a>(s: &'a str) -> (t: &'a str)
    ensures
        t@ == trimmed(s@),
{
    let chars = chars_of(s);
    let (a, b) = trim_range(&chars, 0, chars.len());
    assert(chars@.subrange(0, chars@.len() as int) =~= chars@);
    s.substring_char(a, b)
}

// ---------- shortening ----------

/// At most `max_chars` characters of `s`, followed by an ellipsis when some
/// were dropped.
pub fn truncate(s: &str, max_chars: usize) -> (short: String)
    ensures
        short@ == (if s@.len() <= max_chars {
            s@
        } else {
            s@.take(max_chars as int).push('…')
        }),
{
    let count = s.unicode_len();
    if count <= max_chars {
        s.to_owned()
    } else {
        proof {
            reveal_strlit("…");
            assert("…"@ =~= seq!['…']);
            assert(s@.take(max_chars as int).push('…') =~= s@.take(max_chars as int) + "…"@);
        }
        s.substring_char(0, max_chars).to_owned().concat("…")
    }
}

/// The last `n` characters of a text (all of it when it is shorter).
pub open spec fn tail(s: Seq<char>, n: int) -> Seq<char> {
    if n < s.len() {
        s.skip(s.len() - n)
    } else {
        s
    }
}

/// The last `n` characters of `s`.
pub fn tail_chars(s: &str, n: usize) -> (t: String)
    ensures
        t@ == tail(s@, n as int),
{
    let count = s.unicode_len();
    let from = count.saturating_sub(n);
    assert(s@.subrange(from as int, count as int) =~= tail(s@, n as int));
    s.substring_char(from, count).to_owned()
}

// ---------- whole numbers ----------

pub open spec fn is_digit(c: char) -> bool {
    0x30 <= c as u32 <= 0x39
}

pub open spec fn all_digits(s: Seq<char>) -> bool {
    forall|i: int| 0 <= i < s.len() ==> is_digit(#[trigger] s[i])
}

/// The number that a row of decimal digits stands for.
pub open spec fn digits_value(s: Seq<char>) -> int
    decreases s.len(),
{
    if s.len() == 0 {
        0
    } else {
        digits_value(s.drop_last()) * 10 + (s.last() as u32 - 0x30)
    }
}

/// The digits behind an optional plus sign.
pub open spec fn unsigned_digits(s: Seq<char>) -> Seq<char> {
    if s.len() > 0 && s[0] == '+' {
        s.skip(1)
    } else {
        s
    }
}

/// The value of a decimal number that fits in 64 bits, or nothing.
pub open spec fn parsed_u64(s: Seq<char>) -> Option<u64> {
    let d = unsigned_digits(s);
    if d.len() > 0 && all_digits(d) && digits_value(d) <= u64::MAX {
        Some(digits_value(d) as u64)
    } else {
        None
    }
}

/// Read the part `from..to` of `s` as a decimal number.
pub fn parse_u64(s: &Vec<char>, from: usize, to: usize) -> (value: Option<u64>)
    requires
        from <= to <= s@.len(),
    ensures
        value == parsed_u64(s@.subrange(from as int, to as int)),
{
    let ghost part = s@.subrange(from as int, to as int);
    let ghost d = unsigned_digits(part);
    let first: usize = if from < to && s[from] == '+' {
        from + 1
    } else {
        from
    };
    assert(d =~= s@.subrange(first as int, to as int));
    if first == to {
        return None;
    }
    let mut value: u64 = 0;
    let mut i: usize = first;
    let mut overflow = false;
    while i < to
        invariant
            from <= first <= i <= to <= s@.len(),
            d == s@.subrange(first as int, to as int),
            d == unsigned_digits(s@.subrange(from as int, to as int)),
            forall|k: int| 0 <= k < i - first ==> is_digit(#[trigger] d[k]),
            !overflow ==> value == digits_value(d.take(i - first)),
            overflow ==> digits_value(d.take(i - first)) > u64::MAX,
        decreases to - i,
    {
        let u: u32 = s[i] as u32;
        assert(d[i - first] == s@[i as int]);
        if u < 0x30 || u > 0x39 {
            assert(!is_digit(d[i - first]));
            return None;
        }
        assert(d.take(i - first + 1).drop_last() =~= d.take(i - first));
        let digit: u64 = (u - 0x30) as u64;
        if !overflow {
            if value > (u64::MAX - digit) / 10 {
                overflow = true;
            } else {
                value = value * 10 + digit;
            }
        }
        i += 1;
    }
    assert(d.take(to - first) =~= d);
    if overflow {
        None
    } else {
        Some(value)
    }
}

/// The decimal digits of `n`.
pub open spec fn decimal_digits(n: int) -> Seq<char>
    decreases n,
{
    if n < 10 {
        seq![(0x30 + n) as char]
    } else {
        decimal_digits(n / 10).push((0x30 + n % 10) as char)
    }
}

fn digit_text(d: u64) -> (t: &'static str)
    requires
        d < 10,
    ensures
        t@ == seq![(0x30 + d) as char],
{
    proof {
        reveal_strlit("0");
        reveal_strlit("1");
        reveal_strlit("2");
        reveal_strlit("3");
        reveal_strlit("4");
        reveal_strlit("5");
        reveal_strlit("6");
        reveal_strlit("7");
        reveal_strlit("8");
        reveal_strlit("9");
    }
    let t = if d == 0 {
        "0"
    } else if d == 1 {
        "1"
    } else if d == 2 {
        "2"
    } else if d == 3 {
        "3"
    } else if d == 4 {
        "4"
    } else if d == 5 {
        "5"
    } else if d == 6 {
        "6"
    } else if d == 7 {
        "7"
    } else if d == 8 {
        "8"
    } else {
        "9"
    };
    assert(t@ =~= seq![(0x30 + d) as char]);
    t
}

/// Write `n` in decimal.
pub fn decimal(n: u64) -> (t: String)
    ensures
        t@ == decimal_digits(n as int),
    decreases n,
{
    if n < 10 {
        digit_text(n).to_owned()
    } else {
        let head = decimal(n / 10);
        let t = head.concat(digit_text(n % 10));
        assert(t@ =~= decimal_digits(n as int));
        t
    }
}

/// Writing a number and reading it back gives the number.
pub proof fn law_decimal_reads_back(n: u64)
    ensures
        parsed_u64(decimal_digits(n as int)) == Some(n),
{
    lemma_decimal_digits(n as int);
    let d = decimal_digits(n as int);
    assert(is_digit(d[0]));
}

pub proof fn lemma_decimal_digits(n: int)
    requires
        0 <= n,
    ensures
        all_digits(decimal_digits(n)),
        decimal_digits(n).len() > 0,
        digits_value(decimal_digits(n)) == n,
    decreases n,
{
    let d = decimal_digits(n);
    if n < 10 {
        assert(d.drop_last() =~= Seq::<char>::empty());
        assert(digits_value(Seq::<char>::empty()) == 0);
    } else {
        lemma_decimal_digits(n / 10);
        assert(d.drop_last() =~= decimal_digits(n / 10));
        assert forall|i: int| 0 <= i < d.len() implies is_digit(#[trigger] d[i]) by {
            if i < d.len() - 1 {
                assert(is_digit(decimal_digits(n / 10)[i]));
            }
        }
    }
}

} // verus!
