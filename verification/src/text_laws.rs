//! Laws of the texts: numbers, the settings file and the settings panel.

use crate::config;
use crate::config::Persisted;
use crate::panel;
use crate::state::Core;
use crate::util;
use vstd::prelude::*;

verus! {

// ---------- white space ----------

/// Among the ASCII characters, white space is the space and the control
/// characters from tab to carriage return; beyond them the no-break space and
/// the ideographic space are, too.
pub proof fn law_white_space(c: char)
    ensures
        (c as u32) < 128 ==> (util::is_white(c) <==> c as u32 == 32 || 9 <= c as u32 <= 13),
        c as u32 == 0xa0 || c as u32 == 0x3000 ==> util::is_white(c),
        0x4e00 <= c as u32 <= 0x9fff ==> !util::is_white(c),
{
}

proof fn lemma_trim_start(s: Seq<char>) -> (a: int)
    ensures
        0 <= a <= s.len(),
        util::trim_start(s) == s.skip(a),
        forall|k: int| 0 <= k < a ==> util::is_white(#[trigger] s[k]),
        a < s.len() ==> !util::is_white(s[a]),
    decreases s.len(),
{
    if s.len() > 0 && util::is_white(s[0]) {
        let rest = s.drop_first();
        let a = lemma_trim_start(rest);
        assert(rest.skip(a) =~= s.skip(a + 1));
        assert forall|k: int| 0 <= k < a + 1 implies util::is_white(#[trigger] s[k]) by {
            if k > 0 {
                assert(rest[k - 1] == s[k]);
            }
        }
        a + 1
    } else {
        assert(s.skip(0) =~= s);
        0
    }
}

proof fn lemma_trim_end(s: Seq<char>) -> (b: int)
    ensures
        0 <= b <= s.len(),
        util::trim_end(s) == s.take(b),
        forall|k: int| b <= k < s.len() ==> util::is_white(#[trigger] s[k]),
        b > 0 ==> !util::is_white(s[b - 1]),
    decreases s.len(),
{
    if s.len() > 0 && util::is_white(s.last()) {
        let rest = s.drop_last();
        let b = lemma_trim_end(rest);
        assert(rest.take(b) =~= s.take(b));
        assert forall|k: int| b <= k < s.len() implies util::is_white(#[trigger] s[k]) by {
            if k < rest.len() {
                assert(rest[k] == s[k]);
            }
        }
        b
    } else {
        assert(s.take(s.len() as int) =~= s);
        s.len() as int
    }
}

/// Trimming takes away the white space at both ends and nothing else.
pub proof fn law_trimming_takes_the_white_space_at_the_ends(s: Seq<char>) -> (ab: (int, int))
    ensures
        0 <= ab.0 <= ab.1 <= s.len(),
        util::trimmed(s) == s.subrange(ab.0, ab.1),
        forall|k: int| 0 <= k < ab.0 ==> util::is_white(#[trigger] s[k]),
        forall|k: int| ab.1 <= k < s.len() ==> util::is_white(#[trigger] s[k]),
        ab.0 < ab.1 ==> !util::is_white(s[ab.0]) && !util::is_white(s[ab.1 - 1]),
{
    let a = lemma_trim_start(s);
    let t = s.skip(a);
    let b = lemma_trim_end(t);
    assert(t.take(b) =~= s.subrange(a, a + b));
    assert forall|k: int| a + b <= k < s.len() implies util::is_white(#[trigger] s[k]) by {
        assert(t[k - a] == s[k]);
    }
    if b > 0 {
        assert(t[b - 1] == s[a + b - 1]);
    }
    (a, a + b)
}

/// The text is nothing but white space.
pub open spec fn blank(s: Seq<char>) -> bool {
    forall|k: int| 0 <= k < s.len() ==> util::is_white(#[trigger] s[k])
}

/// White space around a text does not count.
pub proof fn law_padding_does_not_count(before: Seq<char>, s: Seq<char>, after: Seq<char>)
    requires
        blank(before),
        blank(after),
        s.len() > 0,
        !util::is_white(s[0]),
        !util::is_white(s.last()),
    ensures
        util::trimmed(before + s + after) == s,
{
    let all = before + s + after;
    let ab = law_trimming_takes_the_white_space_at_the_ends(all);
    let n = before.len() as int;
    let m = n + s.len();
    assert(all[n] == s[0]);
    assert(all[m - 1] == s.last());
    assert(ab.0 <= n < ab.1) by {
        if ab.0 > n {
            assert(util::is_white(all[n]));
        }
        if ab.1 <= n {
            assert(util::is_white(all[n]));
        }
    }
    assert(ab.1 >= m) by {
        if ab.1 < m {
            assert(util::is_white(all[m - 1]));
        }
    }
    assert(ab.0 == n) by {
        if ab.0 < n {
            assert(all[ab.0] == before[ab.0]);
        }
    }
    assert(ab.1 == m) by {
        if ab.1 > m {
            assert(all[ab.1 - 1] == after[ab.1 - 1 - m]);
        }
    }
    assert(all.subrange(n, m) =~= s);
}

/// A blank text is nothing once it is trimmed.
pub proof fn law_blank_text_is_empty(s: Seq<char>)
    requires
        blank(s),
    ensures
        util::trimmed(s).len() == 0,
{
    let ab = law_trimming_takes_the_white_space_at_the_ends(s);
    if ab.0 < ab.1 {
        assert(util::is_white(s[ab.0]));
    }
}

// ---------- numbers ----------

proof fn lemma_value_is_natural(s: Seq<char>)
    requires
        util::all_digits(s),
    ensures
        util::digits_value(s) >= 0,
    decreases s.len(),
{
    if s.len() > 0 {
        let head = s.drop_last();
        assert forall|i: int| 0 <= i < head.len() implies util::is_digit(#[trigger] head[i]) by {
            assert(util::is_digit(s[i]));
        }
        lemma_value_is_natural(head);
        assert(util::is_digit(s[s.len() - 1]));
    }
}

/// Reading a number digit by digit: one more digit makes it ten times as large,
/// plus the digit. A number that does not fit in 64 bits is none.
pub proof fn law_numbers_are_decimal(s: Seq<char>, v: u64, c: char)
    requires
        util::parsed_u64(s) == Some(v),
        0x30 <= c as u32 <= 0x39,
    ensures
        v * 10 + (c as u32 - 0x30) <= u64::MAX ==> util::parsed_u64(s.push(c)) == Some(
            (v * 10 + (c as u32 - 0x30)) as u64,
        ),
        v * 10 + (c as u32 - 0x30) > u64::MAX ==> util::parsed_u64(s.push(c)) is None,
{
    let d = util::unsigned_digits(s);
    let e = util::unsigned_digits(s.push(c));
    lemma_value_is_natural(d);
    assert(s.len() > 0);
    assert(s.push(c)[0] == s[0]);
    assert(e =~= d.push(c));
    assert(e.drop_last() =~= d);
    assert(e.last() == c);
    assert forall|i: int| 0 <= i < e.len() implies util::is_digit(#[trigger] e[i]) by {
        if i < d.len() {
            assert(util::is_digit(d[i]));
        }
    }
    assert(util::all_digits(e));
}

/// One digit stands for itself, also behind a plus sign.
pub proof fn law_one_digit(c: char)
    requires
        0x30 <= c as u32 <= 0x39,
    ensures
        util::parsed_u64(seq![c]) == Some((c as u32 - 0x30) as u64),
        util::parsed_u64(seq!['+', c]) == Some((c as u32 - 0x30) as u64),
{
    let one = seq![c];
    assert(one.drop_last() =~= Seq::<char>::empty());
    assert(util::digits_value(Seq::<char>::empty()) == 0);
    assert(util::digits_value(one) == c as u32 - 0x30);
    assert(util::all_digits(one));
    assert(util::unsigned_digits(one) =~= one);
    assert(util::unsigned_digits(seq!['+', c]) =~= one);
}

/// A text with anything but digits in it, apart from a plus sign at its
/// beginning, is no number; neither is one without digits.
pub proof fn law_other_texts_are_no_numbers(s: Seq<char>, k: int)
    ensures
        0 <= k < s.len() && !(0x30 <= s[k] as u32 <= 0x39) && (k > 0 || s[k] != '+')
            ==> util::parsed_u64(s) is None,
        s.len() == 0 ==> util::parsed_u64(s) is None,
        s.len() == 1 && s[0] == '+' ==> util::parsed_u64(s) is None,
{
    let d = util::unsigned_digits(s);
    if 0 <= k < s.len() && !(0x30 <= s[k] as u32 <= 0x39) && (k > 0 || s[k] != '+') {
        if s[0] == '+' {
            assert(d[k - 1] == s[k]);
        } else {
            assert(d[k] == s[k]);
        }
        assert(!util::all_digits(d));
    }
}

/// A written number has no needless zeros: it begins with one only if it is
/// zero.
pub proof fn law_written_numbers_have_no_leading_zeros(n: int)
    requires
        n >= 0,
    ensures
        util::decimal_digits(n).len() > 0,
        n > 0 ==> util::decimal_digits(n)[0] != '0',
        n == 0 ==> util::decimal_digits(n) == seq!['0'],
        n < 10 <==> util::decimal_digits(n).len() == 1,
    decreases n,
{
    if n >= 10 {
        law_written_numbers_have_no_leading_zeros(n / 10);
    }
}

// ---------- searching and shortening ----------

/// A text contains another one exactly if it can be split around it.
pub proof fn law_contains_means_it_can_be_split(
    hay: Seq<char>,
    needle: Seq<char>,
    before: Seq<char>,
    after: Seq<char>,
)
    ensures
        hay == before + needle + after ==> util::contains_text(hay, needle),
        util::contains_text(hay, needle) ==> exists|k: int|
            0 <= k <= hay.len() - needle.len() && hay == #[trigger] hay.take(k) + needle
                + hay.skip(k + needle.len()),
{
    if hay == before + needle + after {
        let k = before.len() as int;
        assert(hay.subrange(k, k + needle.len()) =~= needle);
        assert(util::occurs_at(hay, needle, k));
    }
    if util::contains_text(hay, needle) {
        let k = choose|k: int| util::occurs_at(hay, needle, k);
        assert(hay =~= hay.take(k) + hay.subrange(k, k + needle.len()) + hay.skip(k + needle.len()));
    }
}

/// The last characters of a text are the end of it.
pub proof fn law_tail_is_the_end(s: Seq<char>, n: int)
    requires
        n >= 0,
    ensures
        n >= s.len() ==> util::tail(s, n) == s,
        n < s.len() ==> util::tail(s, n).len() == n && s.take(s.len() - n) + util::tail(s, n) == s,
{
    if n < s.len() {
        assert(s.take(s.len() - n) + s.skip(s.len() - n) =~= s);
    }
}

// ---------- ranges ----------

/// The settings' ranges: 1 to 3600 seconds, and 50 to 2000 milliseconds. A value
/// in its range stays as it is; any other one becomes the nearest end.
pub proof fn law_ranges_of_the_settings(v: u64)
    ensures
        1 <= v <= 3600 ==> config::clamped_interval(v) == v,
        v < 1 ==> config::clamped_interval(v) == 1,
        v > 3600 ==> config::clamped_interval(v) == 3600,
        50 <= v <= 2000 ==> config::clamped_delay(v) == v,
        v < 50 ==> config::clamped_delay(v) == 50,
        v > 2000 ==> config::clamped_delay(v) == 2000,
{
}

/// Without a settings file thumbnails are refreshed every 45 seconds, and a tap
/// takes at most 0.08 seconds.
pub proof fn law_default_settings()
    ensures
        config::settings_of(None) == (Persisted { interval_secs: 45, delay_ms: 80 }),
        config::settings_of(Some(Seq::empty())) == (Persisted { interval_secs: 45, delay_ms: 80 }),
{
    assert(util::trimmed(Seq::<char>::empty()) =~= Seq::<char>::empty());
}

// ---------- the settings file ----------

/// A position where a character stands for the first time.
proof fn lemma_find(s: Seq<char>, c: char, k: int)
    requires
        0 <= k <= s.len(),
        forall|i: int| 0 <= i < k ==> s[i] != c,
        k < s.len() ==> s[k] == c,
    ensures
        config::find_char(s, c) == k,
    decreases s.len(),
{
    if s.len() > 0 && k > 0 {
        assert(s[0] != c);
        lemma_find(s.drop_first(), c, k - 1);
    }
}

proof fn lemma_found(s: Seq<char>, c: char)
    ensures
        0 <= config::find_char(s, c) <= s.len(),
        forall|i: int| 0 <= i < config::find_char(s, c) ==> s[i] != c,
        config::find_char(s, c) < s.len() ==> s[config::find_char(s, c)] == c,
    decreases s.len(),
{
    if s.len() > 0 && s[0] != c {
        lemma_found(s.drop_first(), c);
        let k = config::find_char(s.drop_first(), c);
        assert forall|i: int| 0 <= i < k + 1 implies s[i] != c by {
            if i > 0 {
                assert(s.drop_first()[i - 1] == s[i]);
            }
        }
    }
}

/// The settings file is read line by line: a line at its end is applied to what
/// the text before it gave, so that the last value of a setting wins.
pub proof fn law_lines_are_read_in_order(cur: Persisted, text: Seq<char>, line: Seq<char>)
    requires
        forall|i: int| 0 <= i < line.len() ==> line[i] != '\n',
    ensures
        config::apply_text(cur, text.push('\n') + line) == config::apply_line(
            config::apply_text(cur, text),
            line,
        ),
        config::apply_text(cur, line) == config::apply_line(cur, line),
    decreases text.len(),
{
    let all = text.push('\n') + line;
    lemma_found(text, '\n');
    lemma_find(line, '\n', line.len() as int);
    let e = config::find_char(text, '\n');
    if e < text.len() {
        lemma_find(all, '\n', e);
        assert(all.take(e) =~= text.take(e));
        let rest = text.skip(e + 1);
        assert(all.skip(e + 1) =~= rest.push('\n') + line);
        let then = config::apply_line(cur, text.take(e));
        law_lines_are_read_in_order(then, rest, line);
        assert(config::apply_text(cur, text) == config::apply_text(then, rest));
        assert(config::apply_text(cur, all) == config::apply_text(then, rest.push('\n') + line));
    } else {
        lemma_find(all, '\n', text.len() as int);
        assert(all.take(text.len() as int) =~= text);
        assert(all.skip((text.len() + 1) as int) =~= line);
        let then = config::apply_line(cur, text);
        assert(config::apply_text(cur, text) == then);
        assert(config::apply_text(then, line) == config::apply_line(then, line));
    }
}

/// A line of the settings file that sets a value: the key, an equals sign and
/// the number, with any white space around each.
pub open spec fn setting_line(
    a: Seq<char>,
    key: Seq<char>,
    b: Seq<char>,
    c: Seq<char>,
    n: u64,
    d: Seq<char>,
) -> Seq<char> {
    a + (key + b + seq!['='] + c + util::decimal_digits(n as int)) + d
}

proof fn lemma_setting_line(
    cur: Persisted,
    a: Seq<char>,
    key: Seq<char>,
    b: Seq<char>,
    c: Seq<char>,
    n: u64,
    d: Seq<char>,
)
    requires
        blank(a),
        blank(b),
        blank(c),
        blank(d),
        config::is_key(key),
        key == "capture_interval"@ || key == "quick_delay"@,
    ensures
        ({
            let next = config::apply_line(cur, setting_line(a, key, b, c, n, d));
            &&& key == "capture_interval"@ ==> next == (Persisted {
                interval_secs: config::clamped_interval(n),
                ..cur
            })
            &&& key != "capture_interval"@ ==> next == (Persisted {
                delay_ms: config::clamped_delay(n),
                ..cur
            })
        }),
{
    let digits = util::decimal_digits(n as int);
    util::lemma_decimal_digits(n as int);
    util::law_decimal_reads_back(n);
    assert(util::is_digit(digits[0]));
    assert(util::is_digit(digits[digits.len() - 1]));
    let l = key + b + seq!['='] + c + digits;
    assert(l[0] == key[0]);
    assert(l.last() == digits.last());
    law_padding_does_not_count(a, l, d);
    let k = (key.len() + b.len()) as int;
    assert forall|i: int| 0 <= i < k implies l[i] != '=' by {
        if i < key.len() {
            assert(l[i] == key[i]);
        } else {
            assert(l[i] == b[i - key.len()]);
            assert(util::is_white(b[i - key.len()]));
        }
    }
    assert(l[k] == '=');
    lemma_find(l, '=', k);
    assert(l.take(k) =~= Seq::<char>::empty() + key + b);
    assert(l.skip(k + 1) =~= c + digits + Seq::<char>::empty());
    law_padding_does_not_count(Seq::empty(), key, b);
    law_padding_does_not_count(c, digits, Seq::empty());
}

proof fn lemma_the_keys()
    ensures
        config::is_key("capture_interval"@),
        config::is_key("quick_delay"@),
        "capture_interval"@ != "quick_delay"@,
{
    reveal_strlit("capture_interval");
    reveal_strlit("quick_delay");
    assert("capture_interval"@.len() != "quick_delay"@.len());
}

/// Whatever the settings file says before, a last line that sets the interval
/// decides it, moved into its range of 1 to 3600 seconds; the delay stays as it
/// was set before.
pub proof fn law_last_interval_wins(
    text: Seq<char>,
    a: Seq<char>,
    b: Seq<char>,
    c: Seq<char>,
    n: u64,
    d: Seq<char>,
)
    requires
        blank(a) && blank(b) && blank(c) && blank(d),
        forall|i: int|
            0 <= i < setting_line(a, "capture_interval"@, b, c, n, d).len() ==> setting_line(
                a,
                "capture_interval"@,
                b,
                c,
                n,
                d,
            )[i] != '\n',
    ensures
        ({
            let s = config::settings_of(
                Some(text.push('\n') + setting_line(a, "capture_interval"@, b, c, n, d)),
            );
            &&& 1 <= n <= 3600 ==> s.interval_secs == n
            &&& n < 1 ==> s.interval_secs == 1
            &&& n > 3600 ==> s.interval_secs == 3600
            &&& s.delay_ms == config::settings_of(Some(text)).delay_ms
        }),
{
    lemma_the_keys();
    let line = setting_line(a, "capture_interval"@, b, c, n, d);
    law_lines_are_read_in_order(config::default_settings(), text, line);
    lemma_setting_line(
        config::settings_of(Some(text)),
        a,
        "capture_interval"@,
        b,
        c,
        n,
        d,
    );
}

/// Whatever the settings file says before, a last line that sets the delay
/// decides it, moved into its range of 50 to 2000 milliseconds; the interval
/// stays as it was set before.
pub proof fn law_last_delay_wins(
    text: Seq<char>,
    a: Seq<char>,
    b: Seq<char>,
    c: Seq<char>,
    n: u64,
    d: Seq<char>,
)
    requires
        blank(a) && blank(b) && blank(c) && blank(d),
        forall|i: int|
            0 <= i < setting_line(a, "quick_delay"@, b, c, n, d).len() ==> setting_line(
                a,
                "quick_delay"@,
                b,
                c,
                n,
                d,
            )[i] != '\n',
    ensures
        ({
            let s = config::settings_of(
                Some(text.push('\n') + setting_line(a, "quick_delay"@, b, c, n, d)),
            );
            &&& 50 <= n <= 2000 ==> s.delay_ms == n
            &&& n < 50 ==> s.delay_ms == 50
            &&& n > 2000 ==> s.delay_ms == 2000
            &&& s.interval_secs == config::settings_of(Some(text)).interval_secs
        }),
{
    lemma_the_keys();
    let line = setting_line(a, "quick_delay"@, b, c, n, d);
    law_lines_are_read_in_order(config::default_settings(), text, line);
    lemma_setting_line(config::settings_of(Some(text)), a, "quick_delay"@, b, c, n, d);
}

/// Blank lines, comments and lines without an equals sign change nothing.
pub proof fn law_other_lines_change_nothing(cur: Persisted, a: Seq<char>, line: Seq<char>)
    requires
        blank(a),
        ({
            ||| line.len() == 0
            ||| line[0] == '#' && !util::is_white(line.last())
            ||| forall|i: int| 0 <= i < line.len() ==> line[i] != '='
        }),
    ensures
        config::apply_line(cur, a + line) == cur,
{
    let all = a + line;
    let ab = law_trimming_takes_the_white_space_at_the_ends(all);
    let l = util::trimmed(all);
    if line.len() == 0 {
        assert(all =~= a);
        law_blank_text_is_empty(a);
    } else if line[0] == '#' && !util::is_white(line.last()) {
        assert(!util::is_white(line[0]));
        law_padding_does_not_count(a, line, Seq::empty());
        assert(a + line + Seq::<char>::empty() =~= all);
    } else {
        assert forall|i: int| 0 <= i < l.len() implies l[i] != '=' by {
            let k = ab.0 + i;
            assert(l[i] == all[k]);
            if k < a.len() {
                assert(all[k] == a[k]);
                assert(util::is_white(a[k]));
            } else {
                assert(all[k] == line[k - a.len()]);
            }
        }
        lemma_find(l, '=', l.len() as int);
    }
}

// ---------- the settings panel ----------

/// A number of seconds in the panel's field, with any white space around it,
/// becomes the interval, moved into its range of 1 to 3600 seconds.
pub proof fn law_entered_interval_applies(core: Core, a: Seq<char>, secs: u64, b: Seq<char>)
    requires
        blank(a),
        blank(b),
    ensures
        ({
            let text = a + util::decimal_digits(secs as int) + b;
            &&& 1 <= secs <= 3600 ==> panel::interval_after(core, text) == secs * 1000
            &&& secs < 1 ==> panel::interval_after(core, text) == 1000
            &&& secs > 3600 ==> panel::interval_after(core, text) == 3_600_000
        }),
{
    let digits = util::decimal_digits(secs as int);
    util::lemma_decimal_digits(secs as int);
    util::law_decimal_reads_back(secs);
    assert(util::is_digit(digits[0]));
    assert(util::is_digit(digits[digits.len() - 1]));
    law_padding_does_not_count(a, digits, b);
}

/// What is no number leaves the interval as it is, and so does a blank field.
pub proof fn law_other_entries_keep_the_interval(core: Core, text: Seq<char>, k: int)
    requires
        blank(text) || (0 <= k < text.len() && !(0x30 <= text[k] as u32 <= 0x39) && text[k] != '+'
            && !util::is_white(text[k])),
    ensures
        panel::interval_after(core, text) == core.capture_interval_ms,
{
    let ab = law_trimming_takes_the_white_space_at_the_ends(text);
    let t = util::trimmed(text);
    if blank(text) {
        law_blank_text_is_empty(text);
        law_other_texts_are_no_numbers(t, 0);
    } else {
        assert(ab.0 <= k < ab.1) by {
            if k < ab.0 {
                assert(util::is_white(text[k]));
            }
            if k >= ab.1 {
                assert(util::is_white(text[k]));
            }
        }
        assert(t[k - ab.0] == text[k]);
        law_other_texts_are_no_numbers(t, k - ab.0);
    }
}

/// A delay that was entered applies, moved into its range of 50 to 2000
/// milliseconds; without one it stays as it is.
pub proof fn law_entered_delay_applies(core: Core, ms: u64)
    ensures
        50 <= ms <= 2000 ==> panel::delay_after(core, Some(ms)) == ms,
        ms < 50 ==> panel::delay_after(core, Some(ms)) == 50,
        ms > 2000 ==> panel::delay_after(core, Some(ms)) == 2000,
        panel::delay_after(core, None) == core.quick_delay_ms,
{
}

} // verus!
