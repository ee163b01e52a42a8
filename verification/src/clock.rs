//! The simulated clock: an integral count of ticks, ten to the second, with
//! its textual form `HH:MM:SS.d`.

use vstd::prelude::*;

verus! {

/// Ticks in one simulated second.
pub const TICKS_PER_SECOND: u64 = 10;

/// Ticks in one simulated minute.
pub const TICKS_PER_MINUTE: u64 = 600;

/// Ticks in one simulated hour.
pub const TICKS_PER_HOUR: u64 = 36_000;

/// The last tick of a simulated day, `23:59:59.9`.
pub const END_OF_DAY_TICKS: u64 = 863_999;

/// A span of simulated time, in ticks.
#[derive(Clone, Copy, Debug, PartialEq, Eq, Structural, PartialOrd, Ord, Hash)]
pub struct Duration {
    pub ticks: u64,
}

/// A point in simulated time, in ticks since the start of the run.
#[derive(Clone, Copy, Debug, PartialEq, Eq, Structural, PartialOrd, Ord, Hash)]
pub struct Clock {
    pub ticks: u64,
}

impl Duration {
    pub fn zero() -> (r: Duration)
        ensures
            r.ticks == 0,
    {
        Duration { ticks: 0 }
    }

    pub fn from_ticks(ticks: u64) -> (r: Duration)
        ensures
            r.ticks == ticks,
    {
        Duration { ticks }
    }

    pub fn from_seconds(seconds: u32) -> (r: Duration)
        ensures
            r.ticks == seconds * TICKS_PER_SECOND,
    {
        let wide: u64 = seconds as u64;
        Duration { ticks: wide * TICKS_PER_SECOND }
    }

    pub fn from_minutes(minutes: u32) -> (r: Duration)
        ensures
            r.ticks == minutes * TICKS_PER_MINUTE,
    {
        let wide: u64 = minutes as u64;
        Duration { ticks: wide * TICKS_PER_MINUTE }
    }

    pub fn ticks(&self) -> (r: u64)
        ensures
            r == self.ticks,
    {
        self.ticks
    }

    /// The sum of two spans, or nothing where it does not fit.
    pub fn checked_add(self, other: Duration) -> (r: Option<Duration>)
        ensures
            self.ticks + other.ticks <= u64::MAX ==> r == Some(
                Duration { ticks: (self.ticks + other.ticks) as u64 },
            ),
            self.ticks + other.ticks > u64::MAX ==> r is None,
    {
        match self.ticks.checked_add(other.ticks) {
            Some(ticks) => Some(Duration { ticks }),
            None => None,
        }
    }
}

/// Whether `c` is one of the ten decimal digits.
pub open spec fn is_digit(c: char) -> bool {
    '0' <= c && c <= '9'
}

/// The number a decimal digit stands for.
pub open spec fn digit_value(c: char) -> nat {
    if is_digit(c) {
        (c as nat - '0' as nat) as nat
    } else {
        0
    }
}

/// The decimal digit that stands for `d`, for `d` below ten.
pub open spec fn digit_char(d: nat) -> char {
    if d == 0 {
        '0'
    } else if d == 1 {
        '1'
    } else if d == 2 {
        '2'
    } else if d == 3 {
        '3'
    } else if d == 4 {
        '4'
    } else if d == 5 {
        '5'
    } else if d == 6 {
        '6'
    } else if d == 7 {
        '7'
    } else if d == 8 {
        '8'
    } else {
        '9'
    }
}

/// A non-empty run of decimal digits.
pub open spec fn all_digits(s: Seq<char>) -> bool {
    s.len() > 0 && forall|i: int| 0 <= i < s.len() ==> is_digit(#[trigger] s[i])
}

/// The number that a run of decimal digits writes, most significant first.
pub open spec fn decimal_value(s: Seq<char>) -> nat
    decreases s.len(),
{
    if s.len() == 0 {
        0
    } else {
        10 * decimal_value(s.drop_last()) + digit_value(s.last())
    }
}

/// The index of the first `c` in `s`, or the length of `s` where there is none.
pub open spec fn position(s: Seq<char>, c: char) -> int
    decreases s.len(),
{
    if s.len() == 0 || s[0] == c {
        0
    } else {
        1 + position(s.drop_first(), c)
    }
}

/// A field of digits as a number.
pub open spec fn field_value(s: Seq<char>) -> Option<nat> {
    if all_digits(s) {
        Some(decimal_value(s))
    } else {
        None
    }
}

/// The last field of a time, `SS` or `SS.d`, in ticks.
pub open spec fn seconds_ticks(s: Seq<char>) -> Option<nat> {
    let dot = position(s, '.');
    if dot == s.len() {
        if all_digits(s) {
            Some(10 * decimal_value(s))
        } else {
            None
        }
    } else {
        let whole = s.take(dot);
        let tenth = s.skip(dot + 1);
        if all_digits(whole) && tenth.len() == 1 && is_digit(tenth[0]) {
            Some(10 * decimal_value(whole) + digit_value(tenth[0]))
        } else {
            None
        }
    }
}

/// What a time text means in ticks: `SS`, `MM:SS` or `HH:MM:SS`, each field a
/// non-empty run of digits, the last one with an optional tenth after a dot.
pub open spec fn time_ticks(s: Seq<char>) -> Option<nat> {
    let first = position(s, ':');
    if first == s.len() {
        seconds_ticks(s)
    } else {
        let head = s.take(first);
        let rest = s.skip(first + 1);
        let second = position(rest, ':');
        if second == rest.len() {
            match (field_value(head), seconds_ticks(rest)) {
                (Some(m), Some(t)) => Some(600 * m + t),
                _ => None,
            }
        } else {
            let mid = rest.take(second);
            let tail = rest.skip(second + 1);
            match (field_value(head), field_value(mid), seconds_ticks(tail)) {
                (Some(h), Some(m), Some(t)) => Some(36_000 * h + 600 * m + t),
                _ => None,
            }
        }
    }
}

/// The clock that a text denotes, if it is a well-formed time that fits.
pub open spec fn parse_spec(s: Seq<char>) -> Option<Clock> {
    match time_ticks(s) {
        Some(t) => if t <= u64::MAX {
            Some(Clock { ticks: t as u64 })
        } else {
            None
        },
        None => None,
    }
}

/// The decimal digits of `n`, most significant first, without leading zeros.
pub open spec fn decimal_digits(n: nat) -> Seq<char>
    decreases n,
{
    if n < 10 {
        seq![digit_char(n)]
    } else {
        decimal_digits(n / 10).push(digit_char(n % 10))
    }
}

/// The decimal digits of `n`, padded with a zero to two places.
pub open spec fn two_digits(n: nat) -> Seq<char> {
    if n < 10 {
        seq!['0', digit_char(n)]
    } else {
        decimal_digits(n)
    }
}

/// The text `HH:MM:SS.d` of a tick count.
pub open spec fn format_spec(ticks: nat) -> Seq<char> {
    two_digits(ticks / 36_000) + seq![':'] + two_digits((ticks / 600) % 60) + seq![':']
        + two_digits((ticks / 10) % 60) + seq!['.'] + seq![digit_char(ticks % 10)]
}

/// The text `HHhMMmSS.ds` of a tick count, fit for a file name.
pub open spec fn filename_spec(ticks: nat) -> Seq<char> {
    two_digits(ticks / 36_000) + seq!['h'] + two_digits((ticks / 600) % 60) + seq!['m']
        + two_digits((ticks / 10) % 60) + seq!['.'] + seq![digit_char(ticks % 10)] + seq!['s']
}


/// A bounded count: the number itself where it fits in 64 bits.
pub open spec fn fitting(value: Option<nat>) -> Option<u64> {
    match value {
        Some(v) => if v <= u64::MAX {
            Some(v as u64)
        } else {
            None
        },
        None => None,
    }
}

/// `position` is the least index that holds `c`, or the length.
pub proof fn lemma_position_least(s: Seq<char>, c: char)
    ensures
        0 <= position(s, c) <= s.len(),
        position(s, c) < s.len() ==> s[position(s, c)] == c,
        forall|j: int| 0 <= j < position(s, c) ==> s[j] != c,
    decreases s.len(),
{
    if s.len() == 0 || s[0] == c {
    } else {
        let rest = s.drop_first();
        lemma_position_least(rest, c);
        assert forall|j: int| 0 <= j < position(s, c) implies s[j] != c by {
            if j > 0 {
                assert(s[j] == rest[j - 1]);
            }
        }
    }
}

/// An index that holds the first `c` is the `position` of `c`.
pub proof fn lemma_position_at(s: Seq<char>, c: char, k: int)
    requires
        0 <= k <= s.len(),
        k < s.len() ==> s[k] == c,
        forall|j: int| 0 <= j < k ==> s[j] != c,
    ensures
        position(s, c) == k,
    decreases s.len(),
{
    if k == 0 {
    } else {
        let rest = s.drop_first();
        assert forall|j: int| 0 <= j < k - 1 implies rest[j] != c by {
            assert(rest[j] == s[j + 1]);
        }
        lemma_position_at(rest, c, k - 1);
    }
}

/// A prefix of a digit run is worth no more than the run.
proof fn lemma_decimal_prefix(s: Seq<char>, k: int)
    requires
        0 <= k <= s.len(),
    ensures
        decimal_value(s.take(k)) <= decimal_value(s),
    decreases s.len(),
{
    if k == s.len() {
        assert(s.take(k) =~= s);
    } else {
        lemma_decimal_prefix(s.drop_last(), k);
        assert(s.drop_last().take(k) =~= s.take(k));
    }
}

/// A text that denotes a time holds digits, colons and dots only.
pub proof fn lemma_time_alphabet(s: Seq<char>)
    requires
        time_ticks(s) is Some,
    ensures
        forall|i: int| 0 <= i < s.len() ==> is_digit(#[trigger] s[i]) || s[i] == ':' || s[i] == '.',
{
    let first = position(s, ':');
    lemma_position_least(s, ':');
    if first == s.len() {
        lemma_seconds_alphabet(s);
    } else {
        let head = s.take(first);
        let rest = s.skip(first + 1);
        let second = position(rest, ':');
        lemma_position_least(rest, ':');
        if second == rest.len() {
            lemma_seconds_alphabet(rest);
            assert forall|i: int| 0 <= i < s.len() implies is_digit(#[trigger] s[i]) || s[i] == ':'
                || s[i] == '.' by {
                if i < first {
                    assert(s[i] == head[i]);
                } else if i > first {
                    assert(s[i] == rest[i - first - 1]);
                }
            }
        } else {
            let mid = rest.take(second);
            let tail = rest.skip(second + 1);
            lemma_seconds_alphabet(tail);
            assert forall|i: int| 0 <= i < s.len() implies is_digit(#[trigger] s[i]) || s[i] == ':'
                || s[i] == '.' by {
                if i < first {
                    assert(s[i] == head[i]);
                } else if i > first {
                    let j = i - first - 1;
                    assert(s[i] == rest[j]);
                    if j < second {
                        assert(rest[j] == mid[j]);
                    } else if j > second {
                        assert(rest[j] == tail[j - second - 1]);
                    }
                }
            }
        }
    }
}

proof fn lemma_seconds_alphabet(s: Seq<char>)
    requires
        seconds_ticks(s) is Some,
    ensures
        forall|i: int| 0 <= i < s.len() ==> is_digit(#[trigger] s[i]) || s[i] == '.',
{
    let dot = position(s, '.');
    lemma_position_least(s, '.');
    if dot == s.len() {
    } else {
        let whole = s.take(dot);
        let tenth = s.skip(dot + 1);
        assert forall|i: int| 0 <= i < s.len() implies is_digit(#[trigger] s[i]) || s[i] == '.' by {
            if i < dot {
                assert(s[i] == whole[i]);
            } else if i > dot {
                assert(s[i] == tenth[i - dot - 1]);
            }
        }
    }
}

/// The digits of a number are a digit run that writes the number.
pub proof fn lemma_decimal_digits(n: nat)
    ensures
        all_digits(decimal_digits(n)),
        decimal_value(decimal_digits(n)) == n,
    decreases n,
{
    if n < 10 {
        let s = decimal_digits(n);
        assert(s.len() == 1);
        assert(s.drop_last() =~= Seq::<char>::empty());
        assert(decimal_value(s.drop_last()) == 0);
        assert(digit_value(digit_char(n)) == n);
    } else {
        lemma_decimal_digits(n / 10);
        let front = decimal_digits(n / 10);
        let s = front.push(digit_char(n % 10));
        assert(s.drop_last() =~= front);
        assert(digit_value(digit_char(n % 10)) == n % 10);
        assert forall|i: int| 0 <= i < s.len() implies is_digit(#[trigger] s[i]) by {
            if i < front.len() {
                assert(s[i] == front[i]);
            }
        }
    }
}

/// The padded digits of a number are a digit run that writes the number.
pub proof fn lemma_two_digits(n: nat)
    ensures
        all_digits(two_digits(n)),
        decimal_value(two_digits(n)) == n,
{
    if n < 10 {
        let s = two_digits(n);
        assert(s.len() == 2);
        let front = s.drop_last();
        assert(front =~= seq!['0']);
        assert(front.drop_last() =~= Seq::<char>::empty());
        assert(decimal_value(front.drop_last()) == 0);
        assert(decimal_value(front) == 0);
        assert(digit_value(digit_char(n)) == n);
    } else {
        lemma_decimal_digits(n);
    }
}

/// Where `a` holds no `c`, the first `c` of `a`, `c`, `b` in a row is the one
/// between them, and cutting there gives back `a` and `b`.
proof fn lemma_cut_at_separator(a: Seq<char>, c: char, b: Seq<char>)
    requires
        forall|i: int| 0 <= i < a.len() ==> a[i] != c,
    ensures
        position(a + seq![c] + b, c) == a.len(),
        (a + seq![c] + b).take(a.len() as int) =~= a,
        (a + seq![c] + b).skip(a.len() + 1 as int) =~= b,
{
    let s = a + seq![c] + b;
    assert(s[a.len() as int] == c);
    assert forall|j: int| 0 <= j < a.len() implies s[j] != c by {
        assert(s[j] == a[j]);
    }
    lemma_position_at(s, c, a.len() as int);
}

/// The last field written from its seconds and tenth reads back as both.
proof fn lemma_seconds_read_back(sec: nat, d: nat)
    requires
        d < 10,
    ensures
        seconds_ticks(two_digits(sec) + seq!['.'] + seq![digit_char(d)]) == Some(10 * sec + d),
{
    let ss = two_digits(sec);
    let tenth = seq![digit_char(d)];
    let tail = ss + seq!['.'] + tenth;
    lemma_two_digits(sec);
    lemma_cut_at_separator(ss, '.', tenth);
    assert(tail.take(ss.len() as int) == ss);
    assert(tail.skip(ss.len() + 1 as int) == tenth);
    assert(digit_value(digit_char(d)) == d);
    assert(is_digit(tenth[0]));
}

/// Three fields written from their numbers read back as the ticks they stand for.
proof fn lemma_fields_read_back(h: nat, m: nat, tail: Seq<char>, t: nat)
    requires
        seconds_ticks(tail) == Some(t),
    ensures
        time_ticks(two_digits(h) + seq![':'] + (two_digits(m) + seq![':'] + tail)) == Some(
            36_000 * h + 600 * m + t,
        ),
{
    let hh = two_digits(h);
    let mm = two_digits(m);
    let rest = mm + seq![':'] + tail;
    let s = hh + seq![':'] + rest;
    lemma_two_digits(h);
    lemma_two_digits(m);
    lemma_cut_at_separator(hh, ':', rest);
    lemma_cut_at_separator(mm, ':', tail);
    assert(s.take(hh.len() as int) == hh);
    assert(s.skip(hh.len() + 1 as int) == rest);
    assert(rest.take(mm.len() as int) == mm);
    assert(rest.skip(mm.len() + 1 as int) == tail);
    assert(position(rest, ':') < rest.len());
    assert(position(s, ':') < s.len());
}

/// A tick count is made of its hours, minutes, seconds and tenth.
proof fn lemma_ticks_split(ticks: nat)
    ensures
        36_000 * (ticks / 36_000) + 600 * ((ticks / 600) % 60) + (10 * ((ticks / 10) % 60) + ticks
            % 10) == ticks,
{
}

/// Reading back the text of a tick count gives the tick count: for every
/// clock `t`, parsing the formatted `t` yields `t`.
pub proof fn lemma_parse_inverts_format(t: Clock)
    ensures
        parse_spec(format_spec(t.ticks as nat)) == Some(t),
{
    let ticks = t.ticks as nat;
    let h = ticks / 36_000;
    let m = (ticks / 600) % 60;
    let sec = (ticks / 10) % 60;
    let d = ticks % 10;
    let tail = two_digits(sec) + seq!['.'] + seq![digit_char(d)];
    let s = two_digits(h) + seq![':'] + (two_digits(m) + seq![':'] + tail);
    assert(s =~= format_spec(ticks));
    lemma_seconds_read_back(sec, d);
    lemma_fields_read_back(h, m, tail, 10 * sec + d);
    lemma_ticks_split(ticks);
}

/// Two clocks with the same text are the same clock.
pub proof fn lemma_format_injective(a: Clock, b: Clock)
    requires
        format_spec(a.ticks as nat) == format_spec(b.ticks as nat),
    ensures
        a == b,
{
    lemma_parse_inverts_format(a);
    lemma_parse_inverts_format(b);
}

impl Clock {
    /// The start of a run.
    pub fn zero() -> (r: Clock)
        ensures
            r.ticks == 0,
    {
        Clock { ticks: 0 }
    }

    pub fn from_ticks(ticks: u64) -> (r: Clock)
        ensures
            r.ticks == ticks,
    {
        Clock { ticks }
    }

    pub fn from_seconds(seconds: u32) -> (r: Clock)
        ensures
            r.ticks == seconds * TICKS_PER_SECOND,
    {
        let wide: u64 = seconds as u64;
        Clock { ticks: wide * TICKS_PER_SECOND }
    }

    pub fn from_minutes(minutes: u32) -> (r: Clock)
        ensures
            r.ticks == minutes * TICKS_PER_MINUTE,
    {
        let wide: u64 = minutes as u64;
        Clock { ticks: wide * TICKS_PER_MINUTE }
    }

    /// The horizon of a simulated day.
    pub fn end_of_day() -> (r: Clock)
        ensures
            r.ticks == END_OF_DAY_TICKS,
    {
        Clock { ticks: END_OF_DAY_TICKS }
    }

    pub fn ticks(&self) -> (r: u64)
        ensures
            r == self.ticks,
    {
        self.ticks
    }

    /// This clock moved on by a span, or nothing where the sum does not fit.
    pub fn checked_add(self, span: Duration) -> (r: Option<Clock>)
        ensures
            self.ticks + span.ticks <= u64::MAX ==> r == Some(
                Clock { ticks: (self.ticks + span.ticks) as u64 },
            ),
            self.ticks + span.ticks > u64::MAX ==> r is None,
    {
        match self.ticks.checked_add(span.ticks) {
            Some(ticks) => Some(Clock { ticks }),
            None => None,
        }
    }

    /// The span from an earlier clock to this one, or nothing where `earlier`
    /// is the later of the two.
    pub fn since(self, earlier: Clock) -> (r: Option<Duration>)
        ensures
            earlier.ticks <= self.ticks ==> r == Some(
                Duration { ticks: (self.ticks - earlier.ticks) as u64 },
            ),
            earlier.ticks > self.ticks ==> r is None,
    {
        if earlier.ticks <= self.ticks {
            Some(Duration { ticks: self.ticks - earlier.ticks })
        } else {
            None
        }
    }

    /// Whether this clock is a whole number of `span`s from the start. No
    /// clock is a multiple of a span of no ticks.
    pub fn is_multiple_of(self, span: Duration) -> (r: bool)
        ensures
            r == (span.ticks > 0 && self.ticks % span.ticks == 0),
    {
        span.ticks > 0 && self.ticks % span.ticks == 0
    }

    /// Reads a time: `SS`, `MM:SS` or `HH:MM:SS`, the seconds with an optional
    /// tenth. Malformed text, and a time past the last tick, give nothing.
    pub fn parse(text: &str) -> (r: Option<Clock>)
        ensures
            r == parse_spec(text@),
    {
        if !text.is_ascii() {
            proof {
                if time_ticks(text@) is Some {
                    lemma_time_alphabet(text@);
                }
            }
            return None;
        }
        let n = text.as_bytes().len();
        proof {
            vstd::string::is_ascii_spec_bytes(text);
        }
        assert(n == text@.len());
        assert(text@.subrange(0, n as int) =~= text@);
        let first = find(text, 0, n, 58);
        if first == n {
            return match seconds_at(text, 0, n) {
                Some(ticks) => Some(Clock { ticks }),
                None => None,
            };
        }
        let ghost rest = text@.skip(first + 1);
        assert(text@.subrange(0, first as int) =~= text@.take(first as int));
        assert(text@.subrange(first + 1, n as int) =~= rest);
        let head = digits_at(text, 0, first);
        let second = find(text, first + 1, n, 58);
        if second == n {
            let tail = seconds_at(text, first + 1, n);
            return match (head, tail) {
                (Some(m), Some(t)) => match m.checked_mul(TICKS_PER_MINUTE) {
                    Some(scaled) => match scaled.checked_add(t) {
                        Some(ticks) => Some(Clock { ticks }),
                        None => None,
                    },
                    None => None,
                },
                _ => None,
            };
        }
        assert(text@.subrange(first + 1, second as int) =~= rest.take(second - first - 1));
        assert(text@.subrange(second + 1, n as int) =~= rest.skip(second - first));
        let mid = digits_at(text, first + 1, second);
        let tail = seconds_at(text, second + 1, n);
        match (head, mid, tail) {
            (Some(h), Some(m), Some(t)) => {
                let hours = h.checked_mul(TICKS_PER_HOUR);
                let minutes = m.checked_mul(TICKS_PER_MINUTE);
                match (hours, minutes) {
                    (Some(a), Some(b)) => match a.checked_add(b) {
                        Some(ab) => match ab.checked_add(t) {
                            Some(ticks) => Some(Clock { ticks }),
                            None => None,
                        },
                        None => None,
                    },
                    _ => None,
                }
            },
            _ => None,
        }
    }

    /// Writes the clock as `HH:MM:SS.d`.
    pub fn format(&self) -> (r: String)
        ensures
            r@ == format_spec(self.ticks as nat),
    {
        let mut out = String::new();
        push_two_digits(&mut out, self.ticks / TICKS_PER_HOUR);
        push_mark(&mut out, 0);
        push_two_digits(&mut out, (self.ticks / TICKS_PER_MINUTE) % 60);
        push_mark(&mut out, 0);
        push_two_digits(&mut out, (self.ticks / TICKS_PER_SECOND) % 60);
        push_mark(&mut out, 1);
        push_digit(&mut out, self.ticks % 10);
        assert(out@ =~= format_spec(self.ticks as nat));
        out
    }

    /// Writes the clock as `HHhMMmSS.ds`, which can stand in a file name.
    pub fn as_filename(&self) -> (r: String)
        ensures
            r@ == filename_spec(self.ticks as nat),
    {
        let mut out = String::new();
        push_two_digits(&mut out, self.ticks / TICKS_PER_HOUR);
        push_mark(&mut out, 2);
        push_two_digits(&mut out, (self.ticks / TICKS_PER_MINUTE) % 60);
        push_mark(&mut out, 3);
        push_two_digits(&mut out, (self.ticks / TICKS_PER_SECOND) % 60);
        push_mark(&mut out, 1);
        push_digit(&mut out, self.ticks % 10);
        push_mark(&mut out, 4);
        assert(out@ =~= filename_spec(self.ticks as nat));
        out
    }
}

/// The separator that a byte stands for: a colon for 58, else a dot.
spec fn separator(byte: u8) -> char {
    if byte == 58 {
        ':'
    } else {
        '.'
    }
}

/// The place of the first separator in `text[start..end]`, or `end`.
fn find(text: &str, start: usize, end: usize, target: u8) -> (r: usize)
    requires
        text.is_ascii(),
        start <= end <= text@.len(),
        target == 58 || target == 46,
    ensures
        start <= r <= end,
        r - start == position(text@.subrange(start as int, end as int), separator(target)),
{
    let ghost part = text@.subrange(start as int, end as int);
    let mut i = start;
    while i < end
        invariant
            text.is_ascii(),
            start <= i <= end <= text@.len(),
            target == 58 || target == 46,
            part == text@.subrange(start as int, end as int),
            forall|j: int| 0 <= j < i - start ==> part[j] != separator(target),
        decreases end - i,
    {
        let byte = text.get_ascii(i);
        assert(part[i - start] == text@[i as int]);
        if byte == target {
            proof {
                lemma_position_at(part, separator(target), i - start);
            }
            return i;
        }
        i += 1;
    }
    proof {
        lemma_position_at(part, separator(target), end - start);
    }
    end
}

/// The number that `text[start..end]` writes, where it is a digit run that fits.
fn digits_at(text: &str, start: usize, end: usize) -> (r: Option<u64>)
    requires
        text.is_ascii(),
        start <= end <= text@.len(),
    ensures
        r == fitting(field_value(text@.subrange(start as int, end as int))),
{
    let ghost part = text@.subrange(start as int, end as int);
    if start == end {
        return None;
    }
    let mut value: u64 = 0;
    let mut i = start;
    assert(part.take(0) =~= Seq::<char>::empty());
    while i < end
        invariant
            text.is_ascii(),
            start <= i <= end <= text@.len(),
            start < end,
            part == text@.subrange(start as int, end as int),
            forall|j: int| 0 <= j < i - start ==> is_digit(#[trigger] part[j]),
            value == decimal_value(part.take(i - start)),
        decreases end - i,
    {
        let byte = text.get_ascii(i);
        assert(part[i - start] == text@[i as int]);
        if byte < 48 || byte > 57 {
            return None;
        }
        let digit: u64 = (byte - 48) as u64;
        let ghost longer = part.take(i - start + 1);
        assert(longer.drop_last() =~= part.take(i - start));
        assert(longer.last() == part[i - start]);
        assert(digit == digit_value(part[i - start]));
        proof {
            lemma_decimal_prefix(part, i - start + 1);
        }
        match value.checked_mul(10) {
            Some(scaled) => match scaled.checked_add(digit) {
                Some(next) => {
                    value = next;
                },
                None => {
                    return None;
                },
            },
            None => {
                return None;
            },
        }
        i += 1;
    }
    assert(part.take(end - start) =~= part);
    Some(value)
}

/// The ticks that `text[start..end]` writes as a last field, where they fit.
fn seconds_at(text: &str, start: usize, end: usize) -> (r: Option<u64>)
    requires
        text.is_ascii(),
        start <= end <= text@.len(),
    ensures
        r == fitting(seconds_ticks(text@.subrange(start as int, end as int))),
{
    let ghost part = text@.subrange(start as int, end as int);
    let dot = find(text, start, end, 46);
    if dot == end {
        return match digits_at(text, start, end) {
            Some(whole) => whole.checked_mul(TICKS_PER_SECOND),
            None => None,
        };
    }
    assert(text@.subrange(start as int, dot as int) =~= part.take(dot - start));
    assert(text@.subrange(dot + 1, end as int) =~= part.skip(dot - start + 1));
    if end - dot != 2 {
        return None;
    }
    let byte = text.get_ascii(dot + 1);
    assert(part.skip(dot - start + 1)[0] == text@[dot + 1]);
    if byte < 48 || byte > 57 {
        return None;
    }
    let tenth: u64 = (byte - 48) as u64;
    match digits_at(text, start, dot) {
        Some(whole) => match whole.checked_mul(TICKS_PER_SECOND) {
            Some(scaled) => scaled.checked_add(tenth),
            None => None,
        },
        None => None,
    }
}

/// The mark with the given number: colon, dot, `h`, `m`, `s`.
spec fn mark(which: u8) -> char {
    if which == 0 {
        ':'
    } else if which == 1 {
        '.'
    } else if which == 2 {
        'h'
    } else if which == 3 {
        'm'
    } else {
        's'
    }
}

fn push_mark(out: &mut String, which: u8)
    ensures
        final(out)@ == old(out)@.push(mark(which)),
{
    proof {
        reveal_strlit(":");
        reveal_strlit(".");
        reveal_strlit("h");
        reveal_strlit("m");
        reveal_strlit("s");
    }
    let ghost before = out@;
    if which == 0 {
        out.append(":");
        assert(out@ =~= before.push(':'));
    } else if which == 1 {
        out.append(".");
        assert(out@ =~= before.push('.'));
    } else if which == 2 {
        out.append("h");
        assert(out@ =~= before.push('h'));
    } else if which == 3 {
        out.append("m");
        assert(out@ =~= before.push('m'));
    } else {
        out.append("s");
        assert(out@ =~= before.push('s'));
    }
}

fn push_digit(out: &mut String, digit: u64)
    requires
        digit < 10,
    ensures
        final(out)@ == old(out)@.push(digit_char(digit as nat)),
{
    proof {
        reveal_strlit("0");
        reveal_strlit("1");
        reveal_strlit("2");
        reveal_strlit("3");
        reveal_strlit("4");
        reveal_strlit("5");
        reveal_strlit("6");
        reveal_strlit("7");
        reveal_strlit("8");
        reveal_strlit("9");
    }
    let ghost before = out@;
    if digit == 0 {
        out.append("0");
        assert(out@ =~= before.push('0'));
    } else if digit == 1 {
        out.append("1");
        assert(out@ =~= before.push('1'));
    } else if digit == 2 {
        out.append("2");
        assert(out@ =~= before.push('2'));
    } else if digit == 3 {
        out.append("3");
        assert(out@ =~= before.push('3'));
    } else if digit == 4 {
        out.append("4");
        assert(out@ =~= before.push('4'));
    } else if digit == 5 {
        out.append("5");
        assert(out@ =~= before.push('5'));
    } else if digit == 6 {
        out.append("6");
        assert(out@ =~= before.push('6'));
    } else if digit == 7 {
        out.append("7");
        assert(out@ =~= before.push('7'));
    } else if digit == 8 {
        out.append("8");
        assert(out@ =~= before.push('8'));
    } else {
        out.append("9");
        assert(out@ =~= before.push('9'));
    }
}

/// Appends the decimal digits of `n`.
pub fn push_decimal(out: &mut String, n: u64)
    ensures
        final(out)@ == old(out)@ + decimal_digits(n as nat),
    decreases n,
{
    let ghost before = out@;
    if n >= 10 {
        push_decimal(out, n / 10);
    }
    push_digit(out, n % 10);
    assert(out@ =~= before + decimal_digits(n as nat));
}

fn push_two_digits(out: &mut String, n: u64)
    ensures
        final(out)@ == old(out)@ + two_digits(n as nat),
{
    let ghost before = out@;
    if n < 10 {
        push_digit(out, 0);
        push_digit(out, n);
        assert(out@ =~= before + two_digits(n as nat));
    } else {
        push_decimal(out, n);
    }
}

} // verus!
