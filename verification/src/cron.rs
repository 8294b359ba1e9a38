//! Five-field cron expressions over civil (local) date-times.
//!
//! A date-time is modelled by its civil fields; the weekday is computed
//! from the proleptic Gregorian day number.

use vstd::prelude::*;

use crate::errors::Error;
use crate::numbers::all_digits;
use crate::numbers::dec_val;
use crate::numbers::parse_u32_chars;
use crate::text::trim;
use crate::text::trim_chars;

verus! {

/// A civil date-time: local wall-clock fields, no time zone.
#[derive(Clone, Copy, Debug, PartialEq, Eq, Structural)]
pub struct CivilDateTime {
    pub year: u32,
    pub month: u32,
    pub day: u32,
    pub hour: u32,
    pub minute: u32,
    pub second: u32,
}

/// Gregorian leap year.
pub open spec fn spec_is_leap(y: int) -> bool {
    y % 4 == 0 && (y % 100 != 0 || y % 400 == 0)
}

/// Days in a month of a year.
pub open spec fn spec_days_in_month(y: int, m: int) -> int {
    if m == 2 {
        if spec_is_leap(y) {
            29
        } else {
            28
        }
    } else if m == 4 || m == 6 || m == 9 || m == 11 {
        30
    } else {
        31
    }
}

impl CivilDateTime {
    /// The fields lie in their civil ranges; years are kept within a
    /// window wide enough for the scheduler's search.
    pub open spec fn wf(&self) -> bool {
        &&& 1 <= self.year <= 9999
        &&& 1 <= self.month <= 12
        &&& 1 <= self.day <= spec_days_in_month(self.year as int, self.month as int)
        &&& self.hour <= 23
        &&& self.minute <= 59
        &&& self.second <= 59
    }
}

/// Lexicographic order on civil date-times.
pub open spec fn spec_dt_lt(a: CivilDateTime, b: CivilDateTime) -> bool {
    if a.year != b.year {
        a.year < b.year
    } else if a.month != b.month {
        a.month < b.month
    } else if a.day != b.day {
        a.day < b.day
    } else if a.hour != b.hour {
        a.hour < b.hour
    } else if a.minute != b.minute {
        a.minute < b.minute
    } else {
        a.second < b.second
    }
}

/// Leap years in `[1, n]`.
pub open spec fn spec_leaps_upto(n: int) -> int {
    n / 4 - n / 100 + n / 400
}

/// Days before the first day of month `m` in year `y`.
pub open spec fn spec_days_before_month(y: int, m: int) -> int
    decreases m,
{
    if m <= 1 {
        0
    } else {
        spec_days_before_month(y, m - 1) + spec_days_in_month(y, m - 1)
    }
}

/// Day number of a civil date, with year 1, January 1st as day zero.
pub open spec fn spec_day_number(y: int, m: int, d: int) -> int {
    365 * (y - 1) + spec_leaps_upto(y - 1) + spec_days_before_month(y, m) + (d - 1)
}

/// Weekday with Sunday as zero.  Day zero (year 1, January 1st) is a
/// Monday in the proleptic Gregorian calendar.
pub open spec fn spec_weekday_from_sunday(y: int, m: int, d: int) -> int {
    (spec_day_number(y, m, d) + 1) % 7
}

/// One civil minute later, seconds kept; `None` past the calendar
/// window the scheduler searches.
pub open spec fn spec_add_minute(t: CivilDateTime) -> Option<CivilDateTime> {
    if t.minute < 59 {
        Some(CivilDateTime { minute: (t.minute + 1) as u32, ..t })
    } else if t.hour < 23 {
        Some(CivilDateTime { hour: (t.hour + 1) as u32, minute: 0, ..t })
    } else if t.day < spec_days_in_month(t.year as int, t.month as int) {
        Some(CivilDateTime { day: (t.day + 1) as u32, hour: 0, minute: 0, ..t })
    } else if t.month < 12 {
        Some(CivilDateTime { month: (t.month + 1) as u32, day: 1, hour: 0, minute: 0, ..t })
    } else if t.year < 9999 {
        Some(CivilDateTime { year: (t.year + 1) as u32, month: 1, day: 1, hour: 0, minute: 0, ..t })
    } else {
        None
    }
}

/// The start of the minute after `t`: seconds cleared, one minute on.
pub open spec fn spec_next_minute_start(t: CivilDateTime) -> Option<CivilDateTime> {
    spec_add_minute(CivilDateTime { second: 0, ..t })
}

/// `t` advanced by `k` whole minutes, stepping one minute at a time.
pub open spec fn spec_plus_minutes(t: CivilDateTime, k: int) -> Option<CivilDateTime>
    decreases k when k >= 0
{
    if k <= 0 {
        Some(t)
    } else {
        match spec_plus_minutes(t, k - 1) {
            Some(u) => spec_add_minute(u),
            None => None,
        }
    }
}

/// Once the stepping runs off the calendar window it stays off.
pub proof fn lemma_plus_minutes_none(t: CivilDateTime, k: int, k2: int)
    requires
        0 <= k <= k2,
        spec_plus_minutes(t, k) is None,
    ensures
        spec_plus_minutes(t, k2) is None,
    decreases k2 - k,
{
    if k < k2 {
        lemma_plus_minutes_none(t, k + 1, k2);
    }
}

/// Days in the month, executable form.
pub fn days_in_month(y: u32, m: u32) -> (r: u32)
    requires
        1 <= m <= 12,
    ensures
        r == spec_days_in_month(y as int, m as int),
{
    if m == 2 {
        if y % 4 == 0 && (y % 100 != 0 || y % 400 == 0) {
            29
        } else {
            28
        }
    } else if m == 4 || m == 6 || m == 9 || m == 11 {
        30
    } else {
        31
    }
}

/// Days before month `m` in year `y`, executable form.
fn days_before_month(y: u32, m: u32) -> (r: u32)
    requires
        1 <= m <= 12,
    ensures
        r == spec_days_before_month(y as int, m as int),
        r <= 366,
{
    let mut acc: u32 = 0;
    let mut k: u32 = 1;
    while k < m
        invariant
            1 <= k <= m <= 12,
            acc == spec_days_before_month(y as int, k as int),
            acc <= 31 * (k - 1),
        decreases m - k,
    {
        acc = acc + days_in_month(y, k);
        k += 1;
    }
    acc
}

/// The weekday of a date, Sunday as zero.
pub fn weekday_from_sunday(dt: &CivilDateTime) -> (r: u32)
    requires
        dt.wf(),
    ensures
        r == spec_weekday_from_sunday(dt.year as int, dt.month as int, dt.day as int),
        r <= 6,
{
    let y: u64 = dt.year as u64;
    let prev: u64 = y - 1;
    let days: u64 = 365 * prev + prev / 4 - prev / 100 + prev / 400 + days_before_month(
        dt.year,
        dt.month,
    ) as u64 + (dt.day as u64 - 1);
    proof {
        assert(prev / 100 <= prev / 4) by (nonlinear_arith)
            requires
                prev >= 0,
        ;
        assert(days == spec_day_number(dt.year as int, dt.month as int, dt.day as int));
    }
    ((days + 1) % 7) as u32
}

/// One cron field: the bounds of its range and the allowed values.
#[derive(Clone, Debug)]
pub struct Field {
    pub min: u32,
    pub max: u32,
    pub any: bool,
    pub allowed: Vec<bool>,
}

impl Field {
    /// The allowed vector covers the range, and `any` says that every
    /// in-range value is allowed.
    pub open spec fn wf(&self) -> bool {
        &&& self.min <= self.max
        &&& self.max < 64
        &&& self.allowed@.len() == self.max + 1
        &&& (self.any <==> forall|v: int| self.min <= v <= self.max ==> self.allowed@[v])
    }

    /// A value is matched iff it lies in range and is allowed.
    pub open spec fn spec_contains(&self, v: int) -> bool {
        self.min <= v <= self.max && self.allowed@[v]
    }

    /// Whether the field matches `v`.
    pub fn contains(&self, v: u32) -> (r: bool)
        requires
            self.wf(),
        ensures
            r == self.spec_contains(v as int),
    {
        if v < self.min || v > self.max {
            return false;
        }
        self.allowed[v as usize]
    }

    /// Parse one cron field over the inclusive range `min..=max`.
    ///
    /// Accepts `*`, `a`, `a-b`, `a/s`, `a-b/s`, `*/s` and comma lists;
    /// when `allow_7_as_0` is set a literal `7` reads as `0`.  The
    /// bare wildcard always parses, to a field matching every value.
    pub fn parse(raw: &str, min: u32, max: u32, allow_7_as_0: bool) -> (r: Result<Field, Error>)
        requires
            min <= max,
            max < 64,
        ensures
            match r {
                Ok(f) => f.wf() && f.min == min && f.max == max,
                Err(e) => e is Config,
            },
            trim(raw@) == seq!['*'] ==> (r matches Ok(f) && f.any),
    {
        let rc = crate::text::str_chars(raw);
        let rt = trim_chars(&rc);
        let star = rt.len() == 1 && rt[0] == '*';
        proof {
            if trim(raw@) == seq!['*'] {
                assert(rt@.len() == 1 && rt@[0] == '*');
            }
            if rt@.len() == 1 && rt@[0] == '*' {
                assert(rt@ =~= seq!['*']);
            }
        }
        if star {
            let mut allowed: Vec<bool> = Vec::new();
            let mut k: u32 = 0;
            while k <= max
                invariant
                    k <= max + 1,
                    max < 64,
                    allowed@.len() == k,
                    forall|v: int| 0 <= v < k ==> allowed@[v],
                decreases max + 1 - k,
            {
                allowed.push(true);
                k += 1;
            }
            return Ok(Field { min, max, any: true, allowed });
        }
        let mut allowed: Vec<bool> = Vec::new();
        let mut k: u32 = 0;
        while k <= max
            invariant
                k <= max + 1,
                max < 64,
                allowed@.len() == k,
            decreases max + 1 - k,
        {
            allowed.push(false);
            k += 1;
        }
        let parts = crate::text::split_chars(&rt, ',');
        let mut pi: usize = 0;
        while pi < parts.len()
            invariant
                pi <= parts@.len(),
                min <= max,
                max < 64,
                allowed@.len() == max + 1,
                trim(raw@) != seq!['*'],
            decreases parts@.len() - pi,
        {
            let part = trim_chars(&parts[pi]);
            pi += 1;
            if part.len() == 0 {
                continue;
            }
            if part.len() == 1 && part[0] == '*' {
                let mut v: u32 = min;
                while v <= max
                    invariant
                        min <= v <= max + 1,
                        max < 64,
                        allowed@.len() == max + 1,
                    decreases max + 1 - v,
                {
                    allowed.set(v as usize, true);
                    v += 1;
                }
                continue;
            }
            // Split an optional step off at `/`.
            let mut slash: Option<usize> = None;
            let mut si: usize = 0;
            while si < part.len()
                invariant
                    si <= part@.len(),
                    slash matches Some(j) ==> j < part@.len(),
                decreases part@.len() - si,
            {
                if part[si] == '/' {
                    slash = Some(si);
                    break ;
                }
                si += 1;
            }
            let mut base: Vec<char> = Vec::new();
            let mut step: u32 = 1;
            let mut has_step = false;
            match slash {
                Some(j) => {
                    crate::text::push_range(&mut base, &part, 0, j);
                    let mut sv: Vec<char> = Vec::new();
                    crate::text::push_range(&mut sv, &part, j + 1, part.len());
                    let st = trim_chars(&sv);
                    match parse_u32_chars(&st) {
                        Some(s) => {
                            if s == 0 {
                                return Err(Error::Config(step_zero_text()));
                            }
                            step = s;
                            has_step = true;
                        },
                        None => {
                            return Err(Error::Config(step_invalid_text()));
                        },
                    }
                },
                None => {
                    crate::text::push_all(&mut base, &part);
                },
            }
            let bt = trim_chars(&base);
            // Bounds of this part.
            let mut start: u32;
            let mut end: u32;
            if bt.len() == 1 && bt[0] == '*' {
                start = min;
                end = max;
            } else {
                // Split an optional range at `-`.
                let mut dash: Option<usize> = None;
                let mut di: usize = 0;
                while di < bt.len()
                    invariant
                        di <= bt@.len(),
                        dash matches Some(j) ==> j < bt@.len(),
                    decreases bt@.len() - di,
                {
                    if bt[di] == '-' {
                        dash = Some(di);
                        break ;
                    }
                    di += 1;
                }
                match dash {
                    Some(j) => {
                        let mut av: Vec<char> = Vec::new();
                        crate::text::push_range(&mut av, &bt, 0, j);
                        let mut bv: Vec<char> = Vec::new();
                        crate::text::push_range(&mut bv, &bt, j + 1, bt.len());
                        let a = match parse_field_number(&av, allow_7_as_0) {
                            Some(v) => v,
                            None => {
                                return Err(Error::Config(number_invalid_text()));
                            },
                        };
                        let b = match parse_field_number(&bv, allow_7_as_0) {
                            Some(v) => v,
                            None => {
                                return Err(Error::Config(number_invalid_text()));
                            },
                        };
                        start = a;
                        end = b;
                    },
                    None => {
                        let a = match parse_field_number(&bt, allow_7_as_0) {
                            Some(v) => v,
                            None => {
                                return Err(Error::Config(number_invalid_text()));
                            },
                        };
                        start = a;
                        if has_step {
                            end = max;
                        } else {
                            end = a;
                        }
                    },
                }
            }
            if start < min {
                start = min;
            }
            if end > max {
                end = max;
            }
            if start > end {
                return Err(Error::Config(range_invalid_text()));
            }
            // Mark start, start+step, ... up to end.
            let mut v: u32 = start;
            while v <= end
                invariant
                    start <= v,
                    end <= max,
                    max < 64,
                    step >= 1,
                    allowed@.len() == max + 1,
                decreases end + step - v,
            {
                allowed.set(v as usize, true);
                if step > end - v {
                    break ;
                }
                v = v + step;
            }
        }
        // Compute `any` from the final table.
        let mut any = true;
        let mut v: u32 = min;
        while v <= max
            invariant
                min <= v <= max + 1,
                min <= max,
                max < 64,
                allowed@.len() == max + 1,
                trim(raw@) != seq!['*'],
                any <==> forall|w: int| min <= w < v ==> allowed@[w],
            decreases max + 1 - v,
        {
            if !allowed[v as usize] {
                any = false;
            }
            v += 1;
        }
        proof {
            assert(allowed@.len() == max + 1);
            assert(any <==> forall|w: int| min <= w <= max ==> allowed@[w]);
        }
        Ok(Field { min, max, any, allowed })
    }
}

/// Parse one field number, reading `7` as `0` where the field allows.
fn parse_field_number(s: &Vec<char>, allow_7_as_0: bool) -> (r: Option<u32>)
    ensures
        match r {
            Some(v) => {
                let t = trim(s@);
                all_digits(t) && t.len() > 0 && (if allow_7_as_0 && dec_val(t) == 7 {
                    v == 0
                } else {
                    v == dec_val(t)
                })
            },
            None => true,
        },
{
    let t = trim_chars(s);
    match parse_u32_chars(&t) {
        Some(v) => {
            if allow_7_as_0 && v == 7 {
                Some(0)
            } else {
                Some(v)
            }
        },
        None => None,
    }
}

fn step_zero_text() -> (r: String)
    ensures
        r@.len() > 0,
{
    let s = crate::text::str_chars("step must be > 0");
    proof {
        reveal_strlit("step must be > 0");
    }
    crate::text::chars_string(&s)
}

fn step_invalid_text() -> (r: String)
    ensures
        r@.len() > 0,
{
    let s = crate::text::str_chars("invalid step");
    proof {
        reveal_strlit("invalid step");
    }
    crate::text::chars_string(&s)
}

fn number_invalid_text() -> (r: String)
    ensures
        r@.len() > 0,
{
    let s = crate::text::str_chars("invalid number");
    proof {
        reveal_strlit("invalid number");
    }
    crate::text::chars_string(&s)
}

fn range_invalid_text() -> (r: String)
    ensures
        r@.len() > 0,
{
    let s = crate::text::str_chars("invalid range");
    proof {
        reveal_strlit("invalid range");
    }
    crate::text::chars_string(&s)
}

/// A parsed five-field cron expression.
#[derive(Clone, Debug)]
pub struct CronExpr {
    pub min: Field,
    pub hour: Field,
    pub dom: Field,
    pub mon: Field,
    pub dow: Field,
}

impl CronExpr {
    /// All five fields well-formed over their cron ranges.
    pub open spec fn wf(&self) -> bool {
        &&& self.min.wf() && self.min.min == 0 && self.min.max == 59
        &&& self.hour.wf() && self.hour.min == 0 && self.hour.max == 23
        &&& self.dom.wf() && self.dom.min == 1 && self.dom.max == 31
        &&& self.mon.wf() && self.mon.min == 1 && self.mon.max == 12
        &&& self.dow.wf() && self.dow.min == 0 && self.dow.max == 6
    }

    /// The cron match: minute, hour and month must match; day-of-month
    /// and day-of-week combine with the standard either-matches rule
    /// when both are restricted.
    pub open spec fn spec_matches(&self, dt: CivilDateTime) -> bool {
        &&& self.min.spec_contains(dt.minute as int)
        &&& self.hour.spec_contains(dt.hour as int)
        &&& self.mon.spec_contains(dt.month as int)
        &&& {
            let dom_match = self.dom.spec_contains(dt.day as int);
            let dow_match = self.dow.spec_contains(
                spec_weekday_from_sunday(dt.year as int, dt.month as int, dt.day as int),
            );
            if self.dom.any && self.dow.any {
                true
            } else if self.dom.any {
                dow_match
            } else if self.dow.any {
                dom_match
            } else {
                dom_match || dow_match
            }
        }
    }

    /// Parse a five-field cron expression.  An expression of five bare
    /// wildcards always parses.
    pub fn parse(expr: &str) -> (r: Result<CronExpr, Error>)
        ensures
            match r {
                Ok(e) => e.wf(),
                Err(e) => e is Config,
            },
            (crate::text::ws_words(expr@).len() == 5 && (forall|k: int|
                0 <= k < 5 ==> trim(#[trigger] crate::text::ws_words(expr@)[k])
                    == seq!['*'])) ==> r is Ok,
    {
        let ec = crate::text::str_chars(expr);
        let parts = crate::text::split_ws(&ec);
        let ghost gparts = parts@.map_values(|p: Vec<char>| p@);
        proof {
            assert(gparts == crate::text::ws_words(expr@));
        }
        if parts.len() != 5 {
            return Err(Error::Config(field_count_text()));
        }

        let s0 = crate::text::chars_string(&parts[0]);
        let min = match Field::parse(s0.as_str(), 0, 59, false) {
            Ok(f) => f,
            Err(e) => {
                proof {
                    if crate::text::ws_words(expr@).len() == 5 && (forall|k: int|
                        0 <= k < 5 ==> trim(#[trigger] crate::text::ws_words(expr@)[k])
                            == seq!['*']) {
                        assert(trim(crate::text::ws_words(expr@)[0]) == seq!['*']);
                        assert(s0@ == gparts[0]);
                    }
                }
                return Err(e);
            },
        };
        let s1 = crate::text::chars_string(&parts[1]);
        let hour = match Field::parse(s1.as_str(), 0, 23, false) {
            Ok(f) => f,
            Err(e) => {
                proof {
                    if crate::text::ws_words(expr@).len() == 5 && (forall|k: int|
                        0 <= k < 5 ==> trim(#[trigger] crate::text::ws_words(expr@)[k])
                            == seq!['*']) {
                        assert(trim(crate::text::ws_words(expr@)[1]) == seq!['*']);
                        assert(s1@ == gparts[1]);
                    }
                }
                return Err(e);
            },
        };
        let s2 = crate::text::chars_string(&parts[2]);
        let dom = match Field::parse(s2.as_str(), 1, 31, false) {
            Ok(f) => f,
            Err(e) => {
                proof {
                    if crate::text::ws_words(expr@).len() == 5 && (forall|k: int|
                        0 <= k < 5 ==> trim(#[trigger] crate::text::ws_words(expr@)[k])
                            == seq!['*']) {
                        assert(trim(crate::text::ws_words(expr@)[2]) == seq!['*']);
                        assert(s2@ == gparts[2]);
                    }
                }
                return Err(e);
            },
        };
        let s3 = crate::text::chars_string(&parts[3]);
        let mon = match Field::parse(s3.as_str(), 1, 12, false) {
            Ok(f) => f,
            Err(e) => {
                proof {
                    if crate::text::ws_words(expr@).len() == 5 && (forall|k: int|
                        0 <= k < 5 ==> trim(#[trigger] crate::text::ws_words(expr@)[k])
                            == seq!['*']) {
                        assert(trim(crate::text::ws_words(expr@)[3]) == seq!['*']);
                        assert(s3@ == gparts[3]);
                    }
                }
                return Err(e);
            },
        };
        let s4 = crate::text::chars_string(&parts[4]);
        let dow = match Field::parse(s4.as_str(), 0, 6, true) {
            Ok(f) => f,
            Err(e) => {
                proof {
                    if crate::text::ws_words(expr@).len() == 5 && (forall|k: int|
                        0 <= k < 5 ==> trim(#[trigger] crate::text::ws_words(expr@)[k])
                            == seq!['*']) {
                        assert(trim(crate::text::ws_words(expr@)[4]) == seq!['*']);
                        assert(s4@ == gparts[4]);
                    }
                }
                return Err(e);
            },
        };
        Ok(CronExpr { min, hour, dom, mon, dow })
    }

    /// Whether the expression matches the date-time.
    pub fn matches(&self, dt: &CivilDateTime) -> (r: bool)
        requires
            self.wf(),
            dt.wf(),
        ensures
            r == self.spec_matches(*dt),
    {
        if !self.min.contains(dt.minute) {
            return false;
        }
        if !self.hour.contains(dt.hour) {
            return false;
        }
        if !self.mon.contains(dt.month) {
            return false;
        }
        let dow_val = weekday_from_sunday(dt);
        let dom_match = self.dom.contains(dt.day);
        let dow_match = self.dow.contains(dow_val);
        if self.dom.any && self.dow.any {
            true
        } else if self.dom.any {
            dow_match
        } else if self.dow.any {
            dom_match
        } else {
            dom_match || dow_match
        }
    }

    /// The first matching minute strictly after `now`, scanning minute
    /// by minute for at most a year of minutes; `None` only when no
    /// minute boundary in that window matches (an expression that can
    /// never fire) or the calendar window ends.
    ///
    /// Any returned time is strictly later than `now`, matches the
    /// expression, and sits on a minute boundary.
    pub fn next_after(&self, now: &CivilDateTime) -> (r: Option<CivilDateTime>)
        requires
            self.wf(),
            now.wf(),
        ensures
            match r {
                Some(t) => {
                    &&& t.wf() && spec_dt_lt(*now, t) && self.spec_matches(t) && t.second == 0
                    &&& (spec_next_minute_start(*now) matches Some(start) ==> exists|k: int|
                        0 <= k < 527040 && #[trigger] spec_plus_minutes(start, k) == Some(t)
                            && (forall|j: int|
                            0 <= j < k ==> (#[trigger] spec_plus_minutes(start, j) matches Some(
                                u,
                            ) ==> !self.spec_matches(u))))
                },
                None => spec_next_minute_start(*now) matches Some(start) ==> forall|k: int|
                    0 <= k < 527040 ==> (#[trigger] spec_plus_minutes(start, k) matches Some(u)
                        ==> !self.spec_matches(u)),
            },
    {
        let mut t = match next_minute_start(now) {
            Some(t) => t,
            None => {
                return None;
            },
        };
        let ghost start = t;
        let mut iters: u32 = 0;
        let max_iters: u32 = 527040;
        proof {
            assert(spec_plus_minutes(start, 0) == Some(t));
        }
        while iters < max_iters
            invariant
                self.wf(),
                now.wf(),
                t.wf(),
                t.second == 0,
                iters <= max_iters,
                max_iters == 527040,
                spec_dt_lt(*now, t),
                spec_next_minute_start(*now) == Some(start),
                spec_plus_minutes(start, iters as int) == Some(t),
                forall|k: int|
                    0 <= k < iters ==> (#[trigger] spec_plus_minutes(start, k) matches Some(u)
                        ==> !self.spec_matches(u)),
            decreases max_iters - iters,
        {
            if self.matches(&t) {
                proof {
                    let ghost kk = iters as int;
                    assert(0 <= kk < 527040 && spec_plus_minutes(start, kk) == Some(t) && (
                    forall|j: int|
                        0 <= j < kk ==> (#[trigger] spec_plus_minutes(start, j) matches Some(u)
                            ==> !self.spec_matches(u))));
                }
                return Some(t);
            }
            t = match add_minute(&t) {
                Some(n) => n,
                None => {
                    proof {
                        let ghost cur = iters as int;
                        assert(spec_plus_minutes(start, cur + 1) is None);
                        assert forall|k: int|
                            0 <= k < 527040 implies (#[trigger] spec_plus_minutes(start, k)
                            matches Some(u) ==> !self.spec_matches(u)) by {
                            if k > cur {
                                lemma_plus_minutes_none(start, cur + 1, k);
                            }
                        }
                    }
                    return None;
                },
            };
            iters += 1;
        }
        None
    }
}

fn field_count_text() -> (r: String)
    ensures
        r@.len() > 0,
{
    let s = crate::text::str_chars("expected 5 fields");
    proof {
        reveal_strlit("expected 5 fields");
    }
    crate::text::chars_string(&s)
}

/// The start of the minute after `t`: one minute added, seconds
/// cleared.  `None` only when the calendar window runs out.
fn next_minute_start(t: &CivilDateTime) -> (r: Option<CivilDateTime>)
    requires
        t.wf(),
    ensures
        r == spec_next_minute_start(*t),
        match r {
            Some(n) => n.wf() && n.second == 0 && spec_dt_lt(*t, n),
            None => true,
        },
{
    let zeroed = CivilDateTime {
        year: t.year,
        month: t.month,
        day: t.day,
        hour: t.hour,
        minute: t.minute,
        second: 0,
    };
    match add_minute(&zeroed) {
        Some(n) => Some(n),
        None => None,
    }
}

/// `t` plus one minute, seconds kept; `None` past the calendar window.
fn add_minute(t: &CivilDateTime) -> (r: Option<CivilDateTime>)
    requires
        t.wf(),
    ensures
        r == spec_add_minute(*t),
        match r {
            Some(n) => n.wf() && spec_dt_lt(*t, n) && n.second == t.second,
            None => true,
        },
{
    if t.minute < 59 {
        return Some(CivilDateTime { minute: t.minute + 1, ..*t });
    }
    if t.hour < 23 {
        return Some(CivilDateTime { hour: t.hour + 1, minute: 0, ..*t });
    }
    let dim = days_in_month(t.year, t.month);
    if t.day < dim {
        return Some(CivilDateTime { day: t.day + 1, hour: 0, minute: 0, ..*t });
    }
    if t.month < 12 {
        return Some(CivilDateTime { month: t.month + 1, day: 1, hour: 0, minute: 0, ..*t });
    }
    if t.year < 9999 {
        return Some(
            CivilDateTime { year: t.year + 1, month: 1, day: 1, hour: 0, minute: 0, ..*t },
        );
    }
    None
}

} // verus!
