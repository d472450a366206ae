//! Runtime configuration.
//!
//! Defaults come from `Config::default()`. The two settings of the panel, the
//! thumbnail capture interval and the quick-tap delay, are persisted as a small
//! text of `key=value` lines that is merged over the defaults at startup. The
//! other fields are not exposed and keep their defaults.

use crate::util;
use vstd::prelude::*;
use vstd::string::StringExecFns;

verus! {

pub const DEFAULT_CAPTURE_INTERVAL_SECS: u64 = 45;

pub const DEFAULT_QUICK_DELAY_MS: u64 = 80;

/// Range of the capture interval in seconds.
pub const MIN_CAPTURE_INTERVAL_SECS: u64 = 1;

pub const MAX_CAPTURE_INTERVAL_SECS: u64 = 3600;

/// Range of the quick-tap delay in milliseconds.
pub const MIN_QUICK_DELAY_MS: u64 = 50;

pub const MAX_QUICK_DELAY_MS: u64 = 2000;

/// Runtime configuration. Lengths are in milli-points (thousandths of a
/// point), ratios in millionths, times in milliseconds.
#[derive(Debug)]
pub struct Config {
    /// Background thumbnail capture interval.
    pub capture_interval: u64,
    /// Quick-tap judgment delay: releasing the hotkey's modifier within this
    /// time switches straight to the previous window; holding it longer shows
    /// the switcher.
    pub quick_delay: u64,
    /// Thumbnail height.
    pub thumb_height: i32,
    /// Crispness multiplier over the display's backing scale factor.
    pub thumb_px_scale: u32,
    /// Overlay width as a fraction of the screen's width.
    pub max_width_frac: u32,
    pub min_window_w: i32,
    pub min_window_h: i32,
    /// Extra terms that filter out a window by its owner or title.
    pub filter_terms: Vec<String>,
    /// Wrap-around navigation at the grid's edges.
    pub wrap: bool,
}

impl Clone for Config {
    fn clone(&self) -> (copy: Self)
        ensures
            copy.filter_terms@ == self.filter_terms@,
            copy == (Config { filter_terms: copy.filter_terms, ..*self }),
    {
        let mut filter_terms: Vec<String> = Vec::new();
        let mut i: usize = 0;
        while i < self.filter_terms.len()
            invariant
                0 <= i <= self.filter_terms.len(),
                filter_terms@ == self.filter_terms@.take(i as int),
            decreases self.filter_terms.len() - i,
        {
            filter_terms.push(self.filter_terms[i].clone());
            assert(self.filter_terms@.take(i as int).push(self.filter_terms@[i as int])
                =~= self.filter_terms@.take(i + 1));
            i += 1;
        }
        assert(self.filter_terms@.take(i as int) =~= self.filter_terms@);
        Config {
            capture_interval: self.capture_interval,
            quick_delay: self.quick_delay,
            thumb_height: self.thumb_height,
            thumb_px_scale: self.thumb_px_scale,
            max_width_frac: self.max_width_frac,
            min_window_w: self.min_window_w,
            min_window_h: self.min_window_h,
            filter_terms,
            wrap: self.wrap,
        }
    }
}

/// Every field but the two persisted settings has its default value.
pub open spec fn unexposed_defaults(cfg: Config) -> bool {
    &&& cfg.thumb_height == 200_000
    &&& cfg.thumb_px_scale == 1_000_000
    &&& cfg.max_width_frac == 800_000
    &&& cfg.min_window_w == 120_000
    &&& cfg.min_window_h == 80_000
    &&& cfg.filter_terms@.len() == 0
    &&& cfg.wrap
}

impl Default for Config {
    fn default() -> (cfg: Self)
        ensures
            cfg.capture_interval == DEFAULT_CAPTURE_INTERVAL_SECS * 1000,
            cfg.quick_delay == DEFAULT_QUICK_DELAY_MS,
            unexposed_defaults(cfg),
    {
        Config {
            capture_interval: DEFAULT_CAPTURE_INTERVAL_SECS * 1000,
            quick_delay: DEFAULT_QUICK_DELAY_MS,
            thumb_height: 200_000,
            thumb_px_scale: 1_000_000,
            max_width_frac: 800_000,
            min_window_w: 120_000,
            min_window_h: 80_000,
            filter_terms: Vec::new(),
            wrap: true,
        }
    }
}

// ---------- ranges ----------

pub open spec fn clamped(v: u64, lo: u64, hi: u64) -> u64 {
    if v < lo {
        lo
    } else if v > hi {
        hi
    } else {
        v
    }
}

/// A capture interval in seconds, moved into its range.
pub open spec fn clamped_interval(secs: u64) -> u64 {
    clamped(secs, MIN_CAPTURE_INTERVAL_SECS, MAX_CAPTURE_INTERVAL_SECS)
}

/// A quick-tap delay in milliseconds, moved into its range.
pub open spec fn clamped_delay(ms: u64) -> u64 {
    clamped(ms, MIN_QUICK_DELAY_MS, MAX_QUICK_DELAY_MS)
}

pub fn clamp_interval(secs: u64) -> (v: u64)
    ensures
        v == clamped_interval(secs),
{
    if secs < MIN_CAPTURE_INTERVAL_SECS {
        MIN_CAPTURE_INTERVAL_SECS
    } else if secs > MAX_CAPTURE_INTERVAL_SECS {
        MAX_CAPTURE_INTERVAL_SECS
    } else {
        secs
    }
}

pub fn clamp_delay(ms: u64) -> (v: u64)
    ensures
        v == clamped_delay(ms),
{
    if ms < MIN_QUICK_DELAY_MS {
        MIN_QUICK_DELAY_MS
    } else if ms > MAX_QUICK_DELAY_MS {
        MAX_QUICK_DELAY_MS
    } else {
        ms
    }
}

// ---------- reading ----------

/// The two persisted settings: capture interval in seconds, quick-tap delay in
/// milliseconds.
pub struct Persisted {
    pub interval_secs: u64,
    pub delay_ms: u64,
}

/// Position of the first `c` in a text, its length when there is none.
pub open spec fn find_char(s: Seq<char>, c: char) -> int
    decreases s.len(),
{
    if s.len() == 0 || s[0] == c {
        0
    } else {
        1 + find_char(s.drop_first(), c)
    }
}

/// What one line does to the settings. Blank lines, comments, lines without
/// `=`, unknown keys and values that are no numbers change nothing; a number
/// is moved into its setting's range.
pub open spec fn apply_line(cur: Persisted, line: Seq<char>) -> Persisted {
    let l = util::trimmed(line);
    let k = find_char(l, '=');
    if l.len() == 0 || l[0] == '#' || k >= l.len() {
        cur
    } else {
        let key = util::trimmed(l.take(k));
        let value = util::parsed_u64(util::trimmed(l.skip(k + 1)));
        if key == "capture_interval"@ {
            match value {
                Some(v) => Persisted { interval_secs: clamped_interval(v), ..cur },
                None => cur,
            }
        } else if key == "quick_delay"@ {
            match value {
                Some(v) => Persisted { delay_ms: clamped_delay(v), ..cur },
                None => cur,
            }
        } else {
            cur
        }
    }
}

/// The settings after the lines of a text, later lines over earlier ones.
pub open spec fn apply_text(cur: Persisted, text: Seq<char>) -> Persisted
    decreases text.len(),
{
    let e = find_char(text, '\n');
    if e < 0 || e >= text.len() {
        apply_line(cur, text)
    } else {
        apply_text(apply_line(cur, text.take(e)), text.skip(e + 1))
    }
}

pub open spec fn default_settings() -> Persisted {
    Persisted {
        interval_secs: DEFAULT_CAPTURE_INTERVAL_SECS,
        delay_ms: DEFAULT_QUICK_DELAY_MS,
    }
}

/// The settings a persisted text gives; a text that is missing gives the
/// defaults.
pub open spec fn settings_of(text: Option<Seq<char>>) -> Persisted {
    match text {
        Some(t) => apply_text(default_settings(), t),
        None => default_settings(),
    }
}

proof fn lemma_find_char(s: Seq<char>, c: char, k: int)
    requires
        0 <= k <= s.len(),
        forall|i: int| 0 <= i < k ==> s[i] != c,
        k < s.len() ==> s[k] == c,
    ensures
        find_char(s, c) == k,
    decreases s.len(),
{
    if s.len() > 0 && k > 0 {
        assert(s[0] != c);
        lemma_find_char(s.drop_first(), c, k - 1);
    }
}

/// Position of the first `c` in `from..to` of `s`, `to` when there is none.
fn find(s: &Vec<char>, from: usize, to: usize, c: char) -> (k: usize)
    requires
        from <= to <= s@.len(),
    ensures
        from <= k <= to,
        k - from == find_char(s@.subrange(from as int, to as int), c),
{
    let mut k: usize = from;
    while k < to && s[k] != c
        invariant
            from <= k <= to <= s@.len(),
            forall|i: int| from <= i < k ==> s@[i] != c,
        decreases to - k,
    {
        k += 1;
    }
    proof {
        lemma_find_char(s@.subrange(from as int, to as int), c, k - from);
    }
    k
}

/// The part `from..to` of `s` is the text `t`.
fn part_is(s: &Vec<char>, from: usize, to: usize, t: &str) -> (same: bool)
    requires
        from <= to <= s@.len(),
    ensures
        same == (s@.subrange(from as int, to as int) == t@),
{
    let u = util::chars_of(t);
    if u.len() != to - from {
        return false;
    }
    let mut i: usize = 0;
    while i < u.len()
        invariant
            0 <= i <= u.len(),
            u.len() == to - from,
            from <= to <= s@.len(),
            u@ == t@,
            forall|k: int| 0 <= k < i ==> s@[from + k] == u@[k],
        decreases u.len() - i,
    {
        if s[from + i] != u[i] {
            assert(s@.subrange(from as int, to as int)[i as int] != t@[i as int]);
            return false;
        }
        i += 1;
    }
    assert(s@.subrange(from as int, to as int) =~= t@);
    true
}

fn read_line(cur: Persisted, s: &Vec<char>, from: usize, to: usize) -> (next: Persisted)
    requires
        from <= to <= s@.len(),
    ensures
        next == apply_line(cur, s@.subrange(from as int, to as int)),
{
    let (a, b) = util::trim_range(s, from, to);
    let ghost l = s@.subrange(a as int, b as int);
    if a == b || s[a] == '#' {
        return cur;
    }
    let eq = find(s, a, b, '=');
    if eq == b {
        return cur;
    }
    assert(l.take(eq - a) =~= s@.subrange(a as int, eq as int));
    assert(l.skip(eq - a + 1) =~= s@.subrange(eq + 1, b as int));
    let (ka, kb) = util::trim_range(s, a, eq);
    let (va, vb) = util::trim_range(s, eq + 1, b);
    let value = util::parse_u64(s, va, vb);
    if part_is(s, ka, kb, "capture_interval") {
        match value {
            Some(v) => Persisted { interval_secs: clamp_interval(v), delay_ms: cur.delay_ms },
            None => cur,
        }
    } else if part_is(s, ka, kb, "quick_delay") {
        match value {
            Some(v) => Persisted { interval_secs: cur.interval_secs, delay_ms: clamp_delay(v) },
            None => cur,
        }
    } else {
        cur
    }
}

/// Read the persisted settings.
fn read_settings(text: Option<&str>) -> (settings: Persisted)
    ensures
        settings == settings_of(
            match text {
                Some(t) => Some(t@),
                None => None,
            },
        ),
{
    let mut cur = Persisted {
        interval_secs: DEFAULT_CAPTURE_INTERVAL_SECS,
        delay_ms: DEFAULT_QUICK_DELAY_MS,
    };
    let t = match text {
        Some(t) => t,
        None => {
            return cur;
        },
    };
    let s = util::chars_of(t);
    let mut pos: usize = 0;
    assert(s@.skip(0) =~= s@);
    loop
        invariant
            0 <= pos <= s@.len(),
            s@ == t@,
            text == Some(t),
            apply_text(cur, s@.skip(pos as int)) == apply_text(default_settings(), t@),
        decreases s@.len() - pos,
    {
        let ghost rest = s@.skip(pos as int);
        assert(s@.subrange(pos as int, s@.len() as int) =~= rest);
        let e = find(&s, pos, s.len(), '\n');
        assert(s@.subrange(pos as int, e as int) =~= rest.take(e - pos));
        cur = read_line(cur, &s, pos, e);
        if e == s.len() {
            assert(rest.take(e - pos) =~= rest);
            return cur;
        }
        assert(rest.skip(e - pos + 1) =~= s@.skip(e + 1));
        pos = e + 1;
    }
}

/// The configuration: the persisted settings over the defaults. `text` is what
/// the settings file holds, `None` when it could not be read.
pub fn load(text: Option<&str>) -> (cfg: Config)
    ensures
        ({
            let s = settings_of(
                match text {
                    Some(t) => Some(t@),
                    None => None,
                },
            );
            &&& cfg.capture_interval == s.interval_secs * 1000
            &&& cfg.quick_delay == s.delay_ms
        }),
        valid_settings(cfg.capture_interval, cfg.quick_delay),
        unexposed_defaults(cfg),
{
    let s = read_settings(text);
    proof {
        law_settings_stay_in_range(
            match text {
                Some(t) => Some(t@),
                None => None,
            },
        );
    }
    let mut cfg = Config::default();
    cfg.capture_interval = s.interval_secs * 1000;
    cfg.quick_delay = s.delay_ms;
    cfg
}

/// Settings that the panel can make: the interval, in milliseconds, is a whole
/// number of seconds, and both are in their ranges.
pub open spec fn valid_settings(interval_ms: u64, delay_ms: u64) -> bool {
    &&& interval_ms % 1000 == 0
    &&& MIN_CAPTURE_INTERVAL_SECS * 1000 <= interval_ms <= MAX_CAPTURE_INTERVAL_SECS * 1000
    &&& MIN_QUICK_DELAY_MS <= delay_ms <= MAX_QUICK_DELAY_MS
}

pub open spec fn in_range(s: Persisted) -> bool {
    &&& MIN_CAPTURE_INTERVAL_SECS <= s.interval_secs <= MAX_CAPTURE_INTERVAL_SECS
    &&& MIN_QUICK_DELAY_MS <= s.delay_ms <= MAX_QUICK_DELAY_MS
}

proof fn lemma_apply_text_in_range(cur: Persisted, text: Seq<char>)
    requires
        in_range(cur),
    ensures
        in_range(apply_text(cur, text)),
    decreases text.len(),
{
    let e = find_char(text, '\n');
    if !(e < 0 || e >= text.len()) {
        lemma_apply_text_in_range(apply_line(cur, text.take(e)), text.skip(e + 1));
    }
}

/// Whatever the settings file holds, the settings are within their ranges.
pub proof fn law_settings_stay_in_range(text: Option<Seq<char>>)
    ensures
        in_range(settings_of(text)),
{
    match text {
        Some(t) => {
            lemma_apply_text_in_range(default_settings(), t);
        },
        None => {},
    }
}

// ---------- writing ----------

/// A text as a line of its own.
pub open spec fn as_line(s: Seq<char>) -> Seq<char> {
    s.push('\n')
}

/// The text that persists the two settings.
pub open spec fn settings_text(secs: u64, ms: u64) -> Seq<char> {
    as_line("# winflow settings (edited via the menu-bar panel)"@) + as_line(
        "# capture_interval: thumbnail capture interval in seconds (1-3600)"@,
    ) + as_line("# quick_delay: hotkey judgment delay in milliseconds (50-2000)"@) + as_line(
        "capture_interval="@ + util::decimal_digits(secs as int),
    ) + as_line("quick_delay="@ + util::decimal_digits(ms as int))
}

fn push_line(body: String, line: &str) -> (longer: String)
    ensures
        longer@ == body@ + as_line(line@),
{
    proof {
        reveal_strlit("\n");
        assert(body@ + line@ + "\n"@ =~= body@ + as_line(line@));
    }
    body.concat(line).concat("\n")
}

/// The text to persist for the two settings, each moved into its range.
pub fn save(capture_interval_secs: u64, quick_delay_ms: u64) -> (body: String)
    ensures
        body@ == settings_text(
            clamped_interval(capture_interval_secs),
            clamped_delay(quick_delay_ms),
        ),
{
    let secs = util::decimal(clamp_interval(capture_interval_secs));
    let ms = util::decimal(clamp_delay(quick_delay_ms));
    let body = push_line(String::new(), "# winflow settings (edited via the menu-bar panel)");
    let body = push_line(
        body,
        "# capture_interval: thumbnail capture interval in seconds (1-3600)",
    );
    let body = push_line(body, "# quick_delay: hotkey judgment delay in milliseconds (50-2000)");
    let interval = "capture_interval=".to_owned().concat(&secs);
    let delay = "quick_delay=".to_owned().concat(&ms);
    let body = push_line(body, &interval);
    let body = push_line(body, &delay);
    assert(Seq::<char>::empty() + as_line("# winflow settings (edited via the menu-bar panel)"@)
        =~= as_line("# winflow settings (edited via the menu-bar panel)"@));
    body
}

/// A text without white space at its ends is trimmed already.
proof fn lemma_trimmed_none(s: Seq<char>)
    requires
        s.len() > 0 ==> !util::is_white(s[0]) && !util::is_white(s.last()),
    ensures
        util::trimmed(s) == s,
{
}

/// Reading a line that ends with a line break.
proof fn lemma_apply_first_line(cur: Persisted, line: Seq<char>, rest: Seq<char>)
    requires
        forall|i: int| 0 <= i < line.len() ==> line[i] != '\n',
    ensures
        apply_text(cur, as_line(line) + rest) == apply_text(apply_line(cur, line), rest),
{
    let text = as_line(line) + rest;
    lemma_find_char(text, '\n', line.len() as int);
    assert(text.take(line.len() as int) =~= line);
    assert(text.skip((line.len() + 1) as int) =~= rest);
}

/// Reading a comment.
proof fn lemma_apply_comment(cur: Persisted, line: Seq<char>)
    requires
        line.len() > 0,
        line[0] == '#',
        !util::is_white(line.last()),
    ensures
        apply_line(cur, line) == cur,
{
    lemma_trimmed_none(line);
}

/// Reading a line that was written for a key.
proof fn lemma_apply_setting(cur: Persisted, key: Seq<char>, v: u64)
    requires
        key.len() > 0,
        key[0] != '#',
        !util::is_white(key[0]),
        !util::is_white(key.last()),
        forall|i: int| 0 <= i < key.len() ==> key[i] != '=',
        key == "capture_interval"@ || key == "quick_delay"@,
        "capture_interval"@ != "quick_delay"@,
    ensures
        apply_line(cur, key.push('=') + util::decimal_digits(v as int)) == (if key
            == "capture_interval"@ {
            Persisted { interval_secs: clamped_interval(v), ..cur }
        } else {
            Persisted { delay_ms: clamped_delay(v), ..cur }
        }),
{
    let d = util::decimal_digits(v as int);
    let line = key.push('=') + d;
    util::lemma_decimal_digits(v as int);
    util::law_decimal_reads_back(v);
    assert(line.last() == d.last());
    assert(util::is_digit(d[d.len() - 1]));
    assert(util::is_digit(d[0]));
    lemma_trimmed_none(line);
    lemma_find_char(line, '=', key.len() as int);
    assert(line.take(key.len() as int) =~= key);
    assert(line.skip((key.len() + 1) as int) =~= d);
    lemma_trimmed_none(key);
    lemma_trimmed_none(d);
}

/// A line that is a comment.
pub open spec fn is_comment(line: Seq<char>) -> bool {
    &&& line.len() > 0
    &&& line[0] == '#'
    &&& !util::is_white(line.last())
    &&& forall|i: int| 0 <= i < line.len() ==> line[i] != '\n'
}

proof fn lemma_first_comment()
    ensures
        is_comment("# winflow settings (edited via the menu-bar panel)"@),
{
    reveal_strlit("# winflow settings (edited via the menu-bar panel)");
}

proof fn lemma_second_comment()
    ensures
        is_comment("# capture_interval: thumbnail capture interval in seconds (1-3600)"@),
{
    reveal_strlit("# capture_interval: thumbnail capture interval in seconds (1-3600)");
}

proof fn lemma_third_comment()
    ensures
        is_comment("# quick_delay: hotkey judgment delay in milliseconds (50-2000)"@),
{
    reveal_strlit("# quick_delay: hotkey judgment delay in milliseconds (50-2000)");
}

/// A key as it stands in a setting's line.
pub open spec fn is_key(key: Seq<char>) -> bool {
    &&& key.len() > 0
    &&& key[0] != '#'
    &&& !util::is_white(key[0])
    &&& !util::is_white(key.last())
    &&& forall|i: int| 0 <= i < key.len() ==> key[i] != '=' && key[i] != '\n'
}

proof fn lemma_keys()
    ensures
        is_key("capture_interval"@),
        is_key("quick_delay"@),
        "capture_interval"@ != "quick_delay"@,
        "capture_interval="@ == "capture_interval"@.push('='),
        "quick_delay="@ == "quick_delay"@.push('='),
{
    reveal_strlit("capture_interval=");
    reveal_strlit("quick_delay=");
    reveal_strlit("capture_interval");
    reveal_strlit("quick_delay");
    assert("capture_interval="@ =~= "capture_interval"@.push('='));
    assert("quick_delay="@ =~= "quick_delay"@.push('='));
    assert("capture_interval"@.len() != "quick_delay"@.len());
}

/// A setting's line has no line break in it.
proof fn lemma_setting_is_one_line(key: Seq<char>, v: u64)
    requires
        is_key(key),
    ensures
        forall|i: int|
            0 <= i < (key.push('=') + util::decimal_digits(v as int)).len() ==> (key.push('=')
                + util::decimal_digits(v as int))[i] != '\n',
{
    let d = util::decimal_digits(v as int);
    let line = key.push('=') + d;
    util::lemma_decimal_digits(v as int);
    assert forall|i: int| 0 <= i < line.len() implies line[i] != '\n' by {
        if i > key.len() {
            assert(util::is_digit(d[i - key.len() - 1]));
        }
    }
}

/// Saving the settings and loading them gives the saved values, each moved
/// into its range.
pub proof fn law_saved_settings_load_back(secs: u64, ms: u64)
    ensures
        settings_of(Some(settings_text(clamped_interval(secs), clamped_delay(ms)))) == (Persisted {
            interval_secs: clamped_interval(secs),
            delay_ms: clamped_delay(ms),
        }),
{
    lemma_first_comment();
    lemma_second_comment();
    lemma_third_comment();
    lemma_keys();
    let h1 = "# winflow settings (edited via the menu-bar panel)"@;
    let h2 = "# capture_interval: thumbnail capture interval in seconds (1-3600)"@;
    let h3 = "# quick_delay: hotkey judgment delay in milliseconds (50-2000)"@;
    let a = clamped_interval(secs);
    let b = clamped_delay(ms);
    let k1 = "capture_interval"@;
    let k2 = "quick_delay"@;
    let l1 = k1.push('=') + util::decimal_digits(a as int);
    let l2 = k2.push('=') + util::decimal_digits(b as int);
    lemma_setting_is_one_line(k1, a);
    lemma_setting_is_one_line(k2, b);
    let t5 = as_line(l2);
    let t4 = as_line(l1) + t5;
    let t3 = as_line(h3) + t4;
    let t2 = as_line(h2) + t3;
    let t1 = as_line(h1) + t2;
    assert(settings_text(a, b) =~= t1);
    let d = default_settings();
    lemma_apply_first_line(d, h1, t2);
    lemma_apply_comment(d, h1);
    lemma_apply_first_line(d, h2, t3);
    lemma_apply_comment(d, h2);
    lemma_apply_first_line(d, h3, t4);
    lemma_apply_comment(d, h3);
    lemma_apply_first_line(d, l1, t5);
    lemma_apply_setting(d, k1, a);
    let s = apply_line(d, l1);
    assert(t5 =~= as_line(l2) + Seq::<char>::empty());
    lemma_apply_first_line(s, l2, Seq::empty());
    lemma_apply_setting(s, k2, b);
    let r = apply_line(s, l2);
    assert(find_char(Seq::<char>::empty(), '\n') == 0);
    assert(util::trimmed(Seq::<char>::empty()) =~= Seq::<char>::empty());
    assert(apply_line(r, Seq::<char>::empty()) == r);
}

} // verus!
