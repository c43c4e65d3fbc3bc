//! The segmented date and time input: a format of segments and separator
//! texts, and one small state machine over a digit string for each segment.

use crate::chars::{
    all_digits, collect, digit_value, digits_value, is_ascii_digit, is_digit,
    lemma_decimal_digits, lemma_digits_value_monotone, number_of, parse_number, repeat, repeated,
    to_chars,
    zero_padded, zero_padded_string,
};
use crate::drawable::{Display, Options, Wrap};
use crate::span::{span_views, Span, SpanView};
use crate::style::{Color, StyleView};
use crate::width::{columns, str_width};
use crate::input::{outcome_text, KeyCode, KeyModifiers, KeyResult};
use crate::validators::{first_failure, run_chain, Validator};
use vstd::prelude::*;

verus! {

/// The kind of one segment of a date or a time.
#[derive(Debug, Clone, Copy, PartialEq, Eq, Structural)]
pub enum SegmentType {
    Year,
    Month,
    Day,
    Hour,
    Minute,
    Second,
}

impl SegmentType {
    /// The least value of a segment of this kind.
    pub open spec fn spec_min_value(&self) -> nat {
        match self {
            SegmentType::Year => 1900,
            SegmentType::Month => 1,
            SegmentType::Day => 1,
            SegmentType::Hour => 0,
            SegmentType::Minute => 0,
            SegmentType::Second => 0,
        }
    }

    /// The greatest value of a segment of this kind.
    pub open spec fn spec_max_value(&self) -> nat {
        match self {
            SegmentType::Year => 2100,
            SegmentType::Month => 12,
            SegmentType::Day => 31,
            SegmentType::Hour => 23,
            SegmentType::Minute => 59,
            SegmentType::Second => 59,
        }
    }

    /// The number of digits of a segment of this kind.
    pub open spec fn spec_length(&self) -> nat {
        match self {
            SegmentType::Year => 4,
            _ => 2,
        }
    }

    /// The token that stands for a segment of this kind in a format.
    pub open spec fn token(&self) -> Seq<char> {
        match self {
            SegmentType::Year => seq!['Y', 'Y', 'Y', 'Y'],
            SegmentType::Month => seq!['M', 'M'],
            SegmentType::Day => seq!['D', 'D'],
            SegmentType::Hour => seq!['H', 'H'],
            SegmentType::Minute => seq!['m', 'm'],
            SegmentType::Second => seq!['s', 's'],
        }
    }

    /// The name of the kind.
    pub open spec fn name(&self) -> Seq<char> {
        match self {
            SegmentType::Year => "Year"@,
            SegmentType::Month => "Month"@,
            SegmentType::Day => "Day"@,
            SegmentType::Hour => "Hour"@,
            SegmentType::Minute => "Minute"@,
            SegmentType::Second => "Second"@,
        }
    }

    /// The kind whose token is a run of `n` times the character `c`.
    pub open spec fn of_run(c: char, n: int) -> Option<SegmentType> {
        if c == 'Y' && n == 4 {
            Some(SegmentType::Year)
        } else if c == 'M' && n == 2 {
            Some(SegmentType::Month)
        } else if c == 'D' && n == 2 {
            Some(SegmentType::Day)
        } else if c == 'H' && n == 2 {
            Some(SegmentType::Hour)
        } else if c == 'm' && n == 2 {
            Some(SegmentType::Minute)
        } else if c == 's' && n == 2 {
            Some(SegmentType::Second)
        } else {
            None
        }
    }

    /// The least value of a segment of this kind.
    pub fn min_value(&self) -> (r: u32)
        ensures
            r == self.spec_min_value(),
    {
        match self {
            SegmentType::Year => 1900,
            SegmentType::Month => 1,
            SegmentType::Day => 1,
            SegmentType::Hour => 0,
            SegmentType::Minute => 0,
            SegmentType::Second => 0,
        }
    }

    /// The greatest value of a segment of this kind.
    pub fn max_value(&self) -> (r: u32)
        ensures
            r == self.spec_max_value(),
    {
        match self {
            SegmentType::Year => 2100,
            SegmentType::Month => 12,
            SegmentType::Day => 31,
            SegmentType::Hour => 23,
            SegmentType::Minute => 59,
            SegmentType::Second => 59,
        }
    }

    /// The number of digits of a segment of this kind.
    pub fn length(&self) -> (r: usize)
        ensures
            r == self.spec_length(),
    {
        match self {
            SegmentType::Year => 4,
            _ => 2,
        }
    }

    /// The kind that a run of `n` times the character `c` stands for.
    pub fn from_run(c: char, n: usize) -> (r: Option<SegmentType>)
        ensures
            r == SegmentType::of_run(c, n as int),
    {
        if c == 'Y' && n == 4 {
            Some(SegmentType::Year)
        } else if c == 'M' && n == 2 {
            Some(SegmentType::Month)
        } else if c == 'D' && n == 2 {
            Some(SegmentType::Day)
        } else if c == 'H' && n == 2 {
            Some(SegmentType::Hour)
        } else if c == 'm' && n == 2 {
            Some(SegmentType::Minute)
        } else if c == 's' && n == 2 {
            Some(SegmentType::Second)
        } else {
            None
        }
    }

    /// The kind that a token stands for: one of `YYYY`, `MM`, `DD`, `HH`,
    /// `mm` and `ss`.
    pub fn from_token(token: &str) -> (r: Option<SegmentType>)
        ensures
            r matches Some(kind) ==> token@ == kind.token(),
            r is None ==> forall|kind: SegmentType| token@ != #[trigger] kind.token(),
    {
        let v = to_chars(token);
        if v.len() == 4 {
            if v[0] == 'Y' && v[1] == 'Y' && v[2] == 'Y' && v[3] == 'Y' {
                assert(v@ =~= SegmentType::Year.token());
                return Some(SegmentType::Year);
            }
        } else if v.len() == 2 && v[0] == v[1] {
            let kind = SegmentType::from_run(v[0], 2);
            proof {
                if let Some(k) = kind {
                    assert(v@ =~= k.token());
                }
            }
            return kind;
        }
        None
    }

    /// The token that stands for a segment of this kind.
    pub fn placeholder(&self) -> (s: String)
        ensures
            s@ == self.token(),
    {
        let c = match self {
            SegmentType::Year => 'Y',
            SegmentType::Month => 'M',
            SegmentType::Day => 'D',
            SegmentType::Hour => 'H',
            SegmentType::Minute => 'm',
            SegmentType::Second => 's',
        };
        let s = repeat(c, self.length());
        assert(s@ =~= self.token());
        s
    }

    /// The name of the kind.
    pub fn describe(&self) -> (s: &'static str)
        ensures
            s@ == self.name(),
    {
        match self {
            SegmentType::Year => "Year",
            SegmentType::Month => "Month",
            SegmentType::Day => "Day",
            SegmentType::Hour => "Hour",
            SegmentType::Minute => "Minute",
            SegmentType::Second => "Second",
        }
    }
}

/// The value that stepping up from `current` gives: one more, or the least
/// value from the greatest value and from any value out of range.
pub open spec fn stepped_up(kind: SegmentType, current: nat) -> nat {
    if current >= kind.spec_max_value() || current < kind.spec_min_value() {
        kind.spec_min_value()
    } else {
        current + 1
    }
}

/// The number that the text of a segment denotes; zero where it denotes
/// none.
pub open spec fn reading(value: Seq<char>) -> nat {
    match number_of(value) {
        Some(n) => n as nat,
        None => 0,
    }
}

/// The value that stepping up a segment with the digits `value` gives: the
/// least value from an empty segment, else what stepping up from its number
/// gives.
pub open spec fn stepped_up_from(kind: SegmentType, value: Seq<char>) -> nat {
    if value.len() == 0 {
        kind.spec_min_value()
    } else {
        stepped_up(kind, reading(value))
    }
}

/// The value that stepping down from `current` gives: one less, or the
/// greatest value from the least value and from any value below it.
pub open spec fn stepped_down(kind: SegmentType, current: nat) -> nat {
    if current <= kind.spec_min_value() || current == 0 {
        kind.spec_max_value()
    } else {
        (current - 1) as nat
    }
}

/// The digits of a segment after typing the digit `d`: a full segment
/// starts afresh with `d`; else `d` is appended, unless the number would
/// pass the greatest value, in which case the segment starts afresh too.
pub open spec fn typed(kind: SegmentType, value: Seq<char>, d: char) -> Seq<char> {
    if value.len() >= kind.spec_length() {
        seq![d]
    } else if reading(value.push(d)) > kind.spec_max_value() {
        seq![d]
    } else {
        value.push(d)
    }
}

/// What a segment shows: its token while it is empty, its digits filled up
/// with underscores while it is incomplete, else its digits.
pub open spec fn shown(kind: SegmentType, value: Seq<char>) -> Seq<char> {
    if value.len() == 0 {
        kind.token()
    } else if value.len() < kind.spec_length() {
        value + repeated('_', (kind.spec_length() - value.len()) as nat)
    } else {
        value
    }
}

/// Stepping up `n` times.
pub open spec fn stepped_up_times(kind: SegmentType, current: nat, n: nat) -> nat
    decreases n,
{
    if n == 0 {
        current
    } else {
        stepped_up(kind, stepped_up_times(kind, current, (n - 1) as nat))
    }
}

/// One editable numeric component of a date or a time.
#[derive(Debug)]
pub struct DateSegment {
    pub segment_type: SegmentType,
    pub value: String,
}

impl DateSegment {
    /// The invariant of a segment: its value is a string of digits, no
    /// longer than the kind allows, that denotes no more than the greatest
    /// value of the kind.
    pub open spec fn well_formed(&self) -> bool {
        &&& all_digits(self.value@)
        &&& self.value@.len() <= self.segment_type.spec_length()
        &&& digits_value(self.value@) <= self.segment_type.spec_max_value()
    }

    /// The number that the digits denote; zero while there are none.
    pub open spec fn number(&self) -> nat {
        reading(self.value@)
    }

    /// Whether the segment is filled and its number is within the range of
    /// its kind.
    pub open spec fn complete(&self) -> bool {
        &&& self.value@.len() > 0
        &&& self.segment_type.spec_min_value() <= self.number()
            <= self.segment_type.spec_max_value()
    }

    /// Whether the segment is in order.
    pub fn is_well_formed(&self) -> (r: bool)
        ensures
            r == self.well_formed(),
    {
        let text = self.value.as_str();
        if !crate::chars::only_digits(text) {
            return false;
        }
        if text.unicode_len() > self.segment_type.length() {
            return false;
        }
        proof {
            lemma_reading(self.value@);
        }
        match parse_number(text) {
            Some(n) => n <= self.segment_type.max_value(),
            None => text.unicode_len() == 0,
        }
    }

    /// An empty segment.
    pub fn new(segment_type: SegmentType) -> (r: Self)
        ensures
            r.segment_type == segment_type,
            r.value@ == Seq::<char>::empty(),
            r.well_formed(),
    {
        DateSegment { segment_type, value: String::new() }
    }

    /// The number that the digits denote; zero while there are none.
    pub fn numeric_value(&self) -> (r: u32)
        ensures
            r == self.number(),
    {
        match parse_number(self.value.as_str()) {
            Some(n) => n,
            None => 0,
        }
    }

    /// Steps the value up by one, around from the greatest to the least
    /// value; an empty segment gets the least value.
    pub fn increment(&mut self)
        ensures
            final(self).segment_type == old(self).segment_type,
            final(self).value@ == zero_padded(
                stepped_up_from(old(self).segment_type, old(self).value@),
                old(self).segment_type.spec_length(),
            ),
            final(self).well_formed(),
            final(self).number() == stepped_up_from(old(self).segment_type, old(self).value@),
    {
        let current = self.numeric_value();
        let max = self.segment_type.max_value();
        let min = self.segment_type.min_value();
        let empty = self.value.as_str().unicode_len() == 0;
        let next: u32 = if empty || current >= max || current < min {
            min
        } else {
            current + 1
        };
        proof {
            lemma_zero_padded_value(next as nat, self.segment_type.spec_length());
            lemma_padded_length(self.segment_type, next as nat);
            lemma_reading(zero_padded(next as nat, self.segment_type.spec_length()));
        }
        self.value = zero_padded_string(next as usize, self.segment_type.length());
    }

    /// Steps the value down by one, around from the least to the greatest
    /// value.
    pub fn decrement(&mut self)
        ensures
            final(self).segment_type == old(self).segment_type,
            final(self).value@ == zero_padded(
                stepped_down(old(self).segment_type, old(self).number()),
                old(self).segment_type.spec_length(),
            ),
            old(self).well_formed() ==> final(self).well_formed() && final(self).number()
                == stepped_down(old(self).segment_type, old(self).number()),
    {
        let current = self.numeric_value();
        let max = self.segment_type.max_value();
        let min = self.segment_type.min_value();
        let prev: u32 = if current <= min || current == 0 {
            max
        } else {
            current - 1
        };
        proof {
            lemma_zero_padded_value(prev as nat, self.segment_type.spec_length());
            if old(self).well_formed() {
                lemma_reading(old(self).value@);
                lemma_padded_length(self.segment_type, prev as nat);
                lemma_reading(zero_padded(prev as nat, self.segment_type.spec_length()));
            }
        }
        self.value = zero_padded_string(prev as usize, self.segment_type.length());
    }

    /// Types a digit. Answers whether the character was a digit; any other
    /// character changes nothing.
    pub fn insert_digit(&mut self, digit: char) -> (r: bool)
        ensures
            r == is_digit(digit),
            final(self).segment_type == old(self).segment_type,
            !r ==> final(self).value == old(self).value,
            r ==> final(self).value@ == typed(old(self).segment_type, old(self).value@, digit),
            old(self).well_formed() ==> final(self).well_formed(),
    {
        if !is_ascii_digit(digit) {
            return false;
        }
        let mut chars = to_chars(self.value.as_str());
        let single = repeat(digit, 1);
        proof {
            assert(single@ =~= seq![digit]);
            lemma_single_digit(digit);
        }
        if chars.len() >= self.segment_type.length() {
            self.value = single;
            return true;
        }
        chars.push(digit);
        let longer = collect(&chars);
        proof {
            assert(longer@ =~= old(self).value@.push(digit));
            if old(self).well_formed() {
                lemma_typed_in_range(old(self).segment_type, old(self).value@, digit);
            }
        }
        match parse_number(longer.as_str()) {
            Some(n) => {
                if n > self.segment_type.max_value() {
                    self.value = single;
                } else {
                    self.value = longer;
                }
            },
            None => {
                self.value = longer;
            },
        }
        true
    }

    /// Deletes the last digit. Answers whether there was one.
    pub fn delete_digit(&mut self) -> (r: bool)
        ensures
            r == (old(self).value@.len() > 0),
            final(self).segment_type == old(self).segment_type,
            r ==> final(self).value@ == old(self).value@.drop_last(),
            !r ==> final(self).value == old(self).value,
            old(self).well_formed() ==> final(self).well_formed(),
    {
        let mut chars = to_chars(self.value.as_str());
        if chars.len() == 0 {
            return false;
        }
        chars.pop();
        proof {
            assert(chars@ =~= old(self).value@.drop_last());
            if old(self).well_formed() {
                lemma_digits_value_monotone(old(self).value@, chars@.len() as int);
                assert(old(self).value@.subrange(0, chars@.len() as int) =~= chars@);
            }
        }
        self.value = collect(&chars);
        true
    }

    /// What the segment shows.
    pub fn display_string(&self) -> (s: String)
        ensures
            s@ == shown(self.segment_type, self.value@),
    {
        let len = self.segment_type.length();
        let have = self.value.as_str().unicode_len();
        if have == 0 {
            self.segment_type.placeholder()
        } else if have < len {
            let mut s = self.value.clone();
            let fill = repeat('_', len - have);
            s.append(fill.as_str());
            s
        } else {
            self.value.clone()
        }
    }
}

/// A string of digits has no sign before it.
pub proof fn lemma_unsigned_digits(s: Seq<char>)
    requires
        all_digits(s),
    ensures
        crate::chars::unsigned_part(s) == s,
{
    if s.len() > 0 {
        assert(is_digit(s[0]));
    }
}

/// A string of at most four digits denotes a number below ten thousand.
pub proof fn lemma_bounded_value(s: Seq<char>)
    requires
        all_digits(s),
        s.len() <= 4,
    ensures
        digits_value(s) < 10000,
{
    reveal_with_fuel(digits_value, 5);
    if s.len() >= 1 {
        assert(is_digit(s[s.len() - 1]));
        let a = s.drop_last();
        if a.len() >= 1 {
            assert(is_digit(a[a.len() - 1]));
            let b = a.drop_last();
            if b.len() >= 1 {
                assert(is_digit(b[b.len() - 1]));
                let c = b.drop_last();
                if c.len() >= 1 {
                    assert(is_digit(c[c.len() - 1]));
                    assert(c.drop_last().len() == 0);
                }
            }
        }
    }
}

/// A single digit denotes its own value.
pub proof fn lemma_single_digit(d: char)
    requires
        is_digit(d),
    ensures
        all_digits(seq![d]),
        digits_value(seq![d]) == digit_value(d),
        digit_value(d) <= 9,
{
    let s = seq![d];
    assert(s.drop_last() =~= Seq::<char>::empty());
    assert(s.last() == d);
    assert(digits_value(s.drop_last()) == 0);
}

/// Zeros in front do not change what a digit string denotes.
pub proof fn lemma_leading_zeros(zeros: nat, s: Seq<char>)
    requires
        all_digits(s),
    ensures
        all_digits(repeated('0', zeros) + s),
        digits_value(repeated('0', zeros) + s) == digits_value(s),
    decreases s.len(),
{
    let z = repeated('0', zeros);
    let all = z + s;
    assert forall|i: int| 0 <= i < all.len() implies is_digit(#[trigger] all[i]) by {
        if i >= z.len() {
            assert(all[i] == s[i - z.len()]);
        }
    }
    if s.len() == 0 {
        assert(all =~= z);
        lemma_zeros_value(zeros);
    } else {
        lemma_leading_zeros(zeros, s.drop_last());
        assert(all.drop_last() =~= z + s.drop_last());
        assert(all.last() == s.last());
    }
}

/// A string of zeros denotes zero.
pub proof fn lemma_zeros_value(zeros: nat)
    ensures
        digits_value(repeated('0', zeros)) == 0,
    decreases zeros,
{
    if zeros > 0 {
        lemma_zeros_value((zeros - 1) as nat);
        assert(repeated('0', zeros).drop_last() =~= repeated('0', (zeros - 1) as nat));
    }
}

/// A number filled up with zeros is a digit string that denotes the number.
pub proof fn lemma_zero_padded_value(n: nat, width: nat)
    ensures
        all_digits(zero_padded(n, width)),
        digits_value(zero_padded(n, width)) == n,
        zero_padded(n, width).len() >= width,
        zero_padded(n, width).len() >= 1,
{
    lemma_decimal_digits(n);
    if crate::chars::decimal(n).len() < width {
        lemma_leading_zeros((width - crate::chars::decimal(n).len()) as nat, crate::chars::decimal(n));
    }
}

/// A value of a kind, filled up with zeros, has the length of the kind.
pub proof fn lemma_padded_length(kind: SegmentType, n: nat)
    requires
        n <= kind.spec_max_value(),
    ensures
        zero_padded(n, kind.spec_length()).len() == kind.spec_length(),
{
    lemma_decimal_length(n);
}

/// The decimal notation of a number below ten thousand has as many digits
/// as its size asks for.
pub proof fn lemma_decimal_length(n: nat)
    ensures
        n < 10 ==> crate::chars::decimal(n).len() == 1,
        10 <= n < 100 ==> crate::chars::decimal(n).len() == 2,
        100 <= n < 1000 ==> crate::chars::decimal(n).len() == 3,
        1000 <= n < 10000 ==> crate::chars::decimal(n).len() == 4,
{
    reveal_with_fuel(crate::chars::decimal, 5);
}

/// Stepping up from the least value reaches every value of the kind in
/// turn, without wrapping around before the greatest.
pub proof fn lemma_steps_within_cycle(kind: SegmentType, k: nat)
    requires
        k <= kind.spec_max_value() - kind.spec_min_value(),
    ensures
        stepped_up_times(kind, kind.spec_min_value(), k) == kind.spec_min_value() + k,
    decreases k,
{
    if k > 0 {
        lemma_steps_within_cycle(kind, (k - 1) as nat);
    }
}

/// Stepping up from the least value as many times as the kind has values
/// comes back to the least value: one full cycle wraps around exactly once.
pub proof fn lemma_full_cycle(kind: SegmentType)
    ensures
        stepped_up_times(
            kind,
            kind.spec_min_value(),
            (kind.spec_max_value() - kind.spec_min_value() + 1) as nat,
        ) == kind.spec_min_value(),
{
    lemma_steps_within_cycle(kind, (kind.spec_max_value() - kind.spec_min_value()) as nat);
}

/// The text of a segment in order denotes what its digits denote.
pub proof fn lemma_reading(value: Seq<char>)
    requires
        all_digits(value),
        value.len() <= 4,
    ensures
        reading(value) == digits_value(value),
{
    lemma_unsigned_digits(value);
    lemma_bounded_value(value);
}

/// Typing a digit into a segment in order leaves a digit string that
/// denotes no more than the greatest value of the kind.
pub proof fn lemma_typed_in_range(kind: SegmentType, value: Seq<char>, d: char)
    requires
        is_digit(d),
        all_digits(value),
        value.len() <= kind.spec_length(),
        digits_value(value) <= kind.spec_max_value(),
    ensures
        all_digits(typed(kind, value, d)),
        typed(kind, value, d).len() <= kind.spec_length(),
        digits_value(typed(kind, value, d)) <= kind.spec_max_value(),
{
    lemma_single_digit(d);
    let longer = value.push(d);
    assert(longer.drop_last() =~= value);
    assert forall|i: int| 0 <= i < longer.len() implies is_digit(#[trigger] longer[i]) by {
        if i < value.len() {
            assert(longer[i] == value[i]);
        }
    }
    if value.len() < kind.spec_length() {
        lemma_reading(longer);
    }
}

/// The length of the run of equal characters that starts at `i`.
pub open spec fn run_length(s: Seq<char>, i: int) -> nat
    decreases s.len() - i,
{
    if 0 <= i && i + 1 < s.len() && s[i + 1] == s[i] {
        1 + run_length(s, i + 1)
    } else {
        1
    }
}

/// What a format holds: the kinds of its segments in order, and the texts
/// around them: one before each segment and one behind the last.
pub struct FormatView {
    pub kinds: Seq<SegmentType>,
    pub separators: Seq<Seq<char>>,
}

/// The format read from position `i` on, after the segments and separators
/// already found and the separator text gathered since the last segment. A
/// run of equal characters that is one of the six tokens is a segment; any
/// other run is separator text.
pub open spec fn parsed_from(
    s: Seq<char>,
    i: int,
    kinds: Seq<SegmentType>,
    separators: Seq<Seq<char>>,
    current: Seq<char>,
) -> FormatView
    decreases s.len() - i,
{
    if i < 0 || i >= s.len() {
        FormatView { kinds, separators: separators.push(current) }
    } else {
        let n = run_length(s, i);
        proof {
            lemma_run_length(s, i);
        }
        match SegmentType::of_run(s[i], n as int) {
            Some(kind) => parsed_from(
                s,
                i + n,
                kinds.push(kind),
                separators.push(current),
                Seq::empty(),
            ),
            None => parsed_from(s, i + n, kinds, separators, current + s.subrange(i, i + n)),
        }
    }
}

/// The segments and separators of a format string.
pub open spec fn parsed(format: Seq<char>) -> FormatView {
    parsed_from(format, 0, Seq::empty(), Seq::empty(), Seq::empty())
}

/// A run ends within the text.
pub proof fn lemma_run_length(s: Seq<char>, i: int)
    requires
        0 <= i < s.len(),
    ensures
        1 <= run_length(s, i),
        i + run_length(s, i) <= s.len(),
    decreases s.len() - i,
{
    if i + 1 < s.len() && s[i + 1] == s[i] {
        lemma_run_length(s, i + 1);
    }
}

/// The first `k` parts, each behind its separator.
pub open spec fn interleaved_prefix(
    separators: Seq<Seq<char>>,
    parts: Seq<Seq<char>>,
    k: int,
) -> Seq<char>
    decreases k,
{
    if k <= 0 {
        Seq::empty()
    } else {
        interleaved_prefix(separators, parts, k - 1) + (if k - 1 < separators.len() {
            separators[k - 1]
        } else {
            Seq::empty()
        }) + (if k - 1 < parts.len() {
            parts[k - 1]
        } else {
            Seq::empty()
        })
    }
}

/// The parts, each behind its separator, and the last separator behind
/// them.
pub open spec fn interleaved(separators: Seq<Seq<char>>, parts: Seq<Seq<char>>) -> Seq<char> {
    interleaved_prefix(separators, parts, parts.len() as int) + (if parts.len()
        < separators.len() {
        separators[parts.len() as int]
    } else {
        Seq::empty()
    })
}

/// The kinds of segments.
pub open spec fn kinds_of(segments: Seq<DateSegment>) -> Seq<SegmentType> {
    segments.map_values(|s: DateSegment| s.segment_type)
}

/// The digits of segments.
pub open spec fn values_of(segments: Seq<DateSegment>) -> Seq<Seq<char>> {
    segments.map_values(|s: DateSegment| s.value@)
}

/// What segments show.
pub open spec fn shown_of(segments: Seq<DateSegment>) -> Seq<Seq<char>> {
    segments.map_values(|s: DateSegment| shown(s.segment_type, s.value@))
}

/// The texts of separators.
pub open spec fn texts_of(separators: Seq<String>) -> Seq<Seq<char>> {
    separators.map_values(|s: String| s@)
}

/// What is wrong with the first segment that is not in order: it is empty,
/// or its number is out of the range of its kind.
pub open spec fn segments_failure(segments: Seq<DateSegment>) -> Option<Seq<char>>
    decreases segments.len(),
{
    if segments.len() == 0 {
        None
    } else if segments[0].value@.len() == 0 {
        Some("All fields must be filled"@)
    } else if segments[0].number() < segments[0].segment_type.spec_min_value()
        || segments[0].number() > segments[0].segment_type.spec_max_value() {
        Some("Invalid value for "@ + segments[0].segment_type.name())
    } else {
        segments_failure(segments.drop_first())
    }
}

/// The segments are in order exactly when each of them is complete.
pub proof fn lemma_segments_complete(segments: Seq<DateSegment>)
    ensures
        segments_failure(segments) is None <==> forall|i: int|
            0 <= i < segments.len() ==> (#[trigger] segments[i]).complete(),
    decreases segments.len(),
{
    if segments.len() > 0 {
        lemma_segments_complete(segments.drop_first());
        if segments_failure(segments) is None {
            assert forall|i: int| 0 <= i < segments.len() implies (
            #[trigger] segments[i]).complete() by {
                if i > 0 {
                    assert(segments.drop_first()[i - 1] == segments[i]);
                }
            }
        } else if segments[0].complete() {
            let j = choose|j: int|
                0 <= j < segments.drop_first().len() && !(
                #[trigger] segments.drop_first()[j]).complete();
            assert(segments[j + 1] == segments.drop_first()[j]);
        }
    }
}

/// Reads a format string into empty segments and the separator texts
/// around them.
pub fn parse_format(format: &str) -> (r: (Vec<DateSegment>, Vec<String>))
    ensures
        kinds_of(r.0@) == parsed(format@).kinds,
        texts_of(r.1@) == parsed(format@).separators,
        forall|i: int| 0 <= i < r.0@.len() ==> (#[trigger] r.0@[i]).value@.len() == 0,
        forall|i: int| 0 <= i < r.0@.len() ==> (#[trigger] r.0@[i]).well_formed(),
        r.1@.len() == r.0@.len() + 1,
{
    let chars = to_chars(format);
    let mut segments: Vec<DateSegment> = Vec::new();
    let mut separators: Vec<String> = Vec::new();
    let mut current = String::new();
    let mut i: usize = 0;
    proof {
        assert(kinds_of(segments@) =~= Seq::<SegmentType>::empty());
        assert(texts_of(separators@) =~= Seq::<Seq<char>>::empty());
    }
    while i < chars.len()
        invariant
            i <= chars.len(),
            chars@ == format@,
            parsed(format@) == parsed_from(
                format@,
                i as int,
                kinds_of(segments@),
                texts_of(separators@),
                current@,
            ),
            forall|j: int| 0 <= j < segments@.len() ==> (#[trigger] segments@[j]).value@.len() == 0,
            forall|j: int| 0 <= j < segments@.len() ==> (#[trigger] segments@[j]).well_formed(),
            separators@.len() == segments@.len(),
        decreases chars.len() - i,
    {
        let c = chars[i];
        let mut n: usize = 1;
        while i + n < chars.len() && chars[i + n] == c
            invariant
                1 <= n,
                i + n <= chars.len(),
                chars@ == format@,
                c == chars@[i as int],
                forall|j: int| i <= j < i + n ==> chars@[j] == c,
                run_length(format@, i as int) == (n - 1) + run_length(format@, i + n - 1),
            decreases chars.len() - i - n,
        {
            n += 1;
        }
        proof {
            lemma_run_length(format@, i as int);
        }
        let ghost kinds_before = kinds_of(segments@);
        let ghost texts_before = texts_of(separators@);
        let ghost gathered = current@;
        match SegmentType::from_run(c, n) {
            Some(kind) => {
                separators.push(current);
                current = String::new();
                segments.push(DateSegment::new(kind));
                proof {
                    assert(kinds_of(segments@) =~= kinds_before.push(kind));
                    assert(texts_of(separators@) =~= texts_before.push(gathered));
                }
            },
            None => {
                let run = crate::chars::from_chars(&chars, i, i + n);
                current.append(run.as_str());
            },
        }
        i += n;
    }
    let ghost texts_before = texts_of(separators@);
    let ghost last = current@;
    separators.push(current);
    proof {
        assert(texts_of(separators@) =~= texts_before.push(last));
    }
    (segments, separators)
}

/// The text of parts behind their separators, with the last separator
/// behind them.
fn interleave(separators: &Vec<String>, parts: &Vec<String>) -> (s: String)
    ensures
        s@ == interleaved(texts_of(separators@), texts_of(parts@)),
{
    let mut s = String::new();
    let mut i: usize = 0;
    while i < parts.len()
        invariant
            i <= parts.len(),
            s@ == interleaved_prefix(texts_of(separators@), texts_of(parts@), i as int),
        decreases parts.len() - i,
    {
        if i < separators.len() {
            s.append(separators[i].as_str());
        }
        s.append(parts[i].as_str());
        i += 1;
        assert(s@ =~= interleaved_prefix(texts_of(separators@), texts_of(parts@), i as int));
    }
    if parts.len() < separators.len() {
        s.append(separators[parts.len()].as_str());
    }
    s
}

/// The state of a date input: identity and label, the segments with the
/// separator texts around them, the segment that takes the keys, the
/// validators, the error slot and the least width.
#[derive(Debug)]
pub struct DateInputNode {
    pub id: String,
    pub label: String,
    pub segments: Vec<DateSegment>,
    pub separators: Vec<String>,
    pub focused_segment: usize,
    pub validators: Vec<Validator>,
    pub error: Option<String>,
    pub min_width: usize,
}

impl DateInputNode {
    /// The invariant of a date input: every segment is in order, and the
    /// focused segment is one of them, or the first where there is none.
    pub open spec fn well_formed(&self) -> bool {
        &&& forall|i: int| 0 <= i < self.segments@.len() ==> (#[trigger] self.segments@[i]).well_formed()
        &&& (self.focused_segment < self.segments@.len() || self.focused_segment == 0)
    }

    /// Whether the input is in order.
    pub fn is_well_formed(&self) -> (r: bool)
        ensures
            r == self.well_formed(),
    {
        let mut i: usize = 0;
        while i < self.segments.len()
            invariant
                i <= self.segments.len(),
                forall|j: int| 0 <= j < i ==> (#[trigger] self.segments@[j]).well_formed(),
            decreases self.segments.len() - i,
        {
            if !self.segments[i].is_well_formed() {
                return false;
            }
            i += 1;
        }
        self.focused_segment < self.segments.len() || self.focused_segment == 0
    }

    /// Whether `other` differs from this input in the digits of its
    /// segments and in the focused segment at most.
    pub open spec fn same_frame(&self, other: &DateInputNode) -> bool {
        &&& other.id == self.id
        &&& other.label == self.label
        &&& other.separators == self.separators
        &&& other.validators == self.validators
        &&& other.error == self.error
        &&& other.min_width == self.min_width
        &&& kinds_of(other.segments@) == kinds_of(self.segments@)
    }

    /// Whether `other` has the segments of this input but for the one at
    /// `at`, which holds `value`.
    pub open spec fn segments_but(&self, other: &DateInputNode, at: int, value: Seq<char>) -> bool {
        &&& other.segments@.len() == self.segments@.len()
        &&& forall|i: int|
            0 <= i < self.segments@.len() && i != at ==> (#[trigger] other.segments@[i])
                == self.segments@[i]
        &&& 0 <= at < self.segments@.len() ==> other.segments@[at].value@ == value
            && other.segments@[at].segment_type == self.segments@[at].segment_type
    }

    /// The value: the digits of the segments between the separators.
    pub open spec fn spec_value(&self) -> Seq<char> {
        interleaved(texts_of(self.separators@), values_of(self.segments@))
    }

    /// What the input shows: what the segments show, between the
    /// separators.
    pub open spec fn spec_display(&self) -> Seq<char> {
        interleaved(texts_of(self.separators@), shown_of(self.segments@))
    }

    /// What validation finds: what is wrong with the first segment that is
    /// not in order, else the message of the first validator that the value
    /// fails.
    pub open spec fn failure(&self) -> Option<Seq<char>> {
        if segments_failure(self.segments@) is Some {
            segments_failure(self.segments@)
        } else {
            first_failure(self.validators@, self.spec_value())
        }
    }

    /// The segment that is focused after a move to the next one: the next
    /// one, but none beyond the last.
    pub open spec fn next_segment(&self) -> int {
        if self.focused_segment + 1 < self.segments@.len() {
            self.focused_segment + 1
        } else {
            self.focused_segment as int
        }
    }

    /// A date input for a format, with empty segments, the first of them
    /// focused, ten columns wide.
    pub fn new(id: &str, label: &str, format: &str) -> (r: Self)
        ensures
            r.id@ == id@,
            r.label@ == label@,
            kinds_of(r.segments@) == parsed(format@).kinds,
            texts_of(r.separators@) == parsed(format@).separators,
            forall|i: int| 0 <= i < r.segments@.len() ==> (#[trigger] r.segments@[i]).value@.len() == 0,
            r.focused_segment == 0,
            r.validators@ == Seq::<Validator>::empty(),
            r.error is None,
            r.min_width == 10,
            r.well_formed(),
            r.spec_display() == format@,
    {
        let (segments, separators) = parse_format(format);
        let r = DateInputNode {
            id: String::from_str(id),
            label: String::from_str(label),
            segments,
            separators,
            focused_segment: 0,
            validators: Vec::new(),
            error: None,
            min_width: 10,
        };
        proof {
            lemma_empty_input_shows_format(r, format@);
        }
        r
    }

    /// The value: the digits of the segments between the separators.
    pub fn value(&self) -> (s: String)
        ensures
            s@ == self.spec_value(),
    {
        let mut parts: Vec<String> = Vec::new();
        let mut i: usize = 0;
        while i < self.segments.len()
            invariant
                i <= self.segments.len(),
                parts@.len() == i,
                forall|j: int| 0 <= j < i ==> (#[trigger] parts@[j])@ == self.segments@[j].value@,
            decreases self.segments.len() - i,
        {
            parts.push(self.segments[i].value.clone());
            i += 1;
        }
        assert(texts_of(parts@) =~= values_of(self.segments@));
        interleave(&self.separators, &parts)
    }

    /// What the input shows: what the segments show, between the
    /// separators.
    pub fn display_string(&self) -> (s: String)
        ensures
            s@ == self.spec_display(),
    {
        let mut parts: Vec<String> = Vec::new();
        let mut i: usize = 0;
        while i < self.segments.len()
            invariant
                i <= self.segments.len(),
                parts@.len() == i,
                forall|j: int|
                    0 <= j < i ==> (#[trigger] parts@[j])@ == shown(
                        self.segments@[j].segment_type,
                        self.segments@[j].value@,
                    ),
            decreases self.segments.len() - i,
        {
            parts.push(self.segments[i].display_string());
            i += 1;
        }
        assert(texts_of(parts@) =~= shown_of(self.segments@));
        interleave(&self.separators, &parts)
    }

    /// Validates the input: every segment must be filled and within the
    /// range of its kind; then the validators run on the value.
    pub fn validate(&self) -> (r: Result<(), String>)
        ensures
            outcome_text(r) == self.failure(),
    {
        let mut i: usize = 0;
        proof {
            assert(self.segments@.skip(0) =~= self.segments@);
        }
        while i < self.segments.len()
            invariant
                i <= self.segments.len(),
                segments_failure(self.segments@) == segments_failure(
                    self.segments@.skip(i as int),
                ),
            decreases self.segments.len() - i,
        {
            let segment = &self.segments[i];
            proof {
                assert(self.segments@.skip(i as int)[0] == self.segments@[i as int]);
                assert(self.segments@.skip(i as int).drop_first() =~= self.segments@.skip(i + 1));
            }
            if segment.value.as_str().unicode_len() == 0 {
                return Err(String::from_str("All fields must be filled"));
            }
            let number = segment.numeric_value();
            if number < segment.segment_type.min_value() || number
                > segment.segment_type.max_value() {
                let mut message = String::from_str("Invalid value for ");
                message.append(segment.segment_type.describe());
                return Err(message);
            }
            i += 1;
        }
        let value = self.value();
        run_chain(&self.validators, value.as_str())
    }

    /// Moves the focus to the next segment, but not beyond the last.
    /// Answers whether it moved.
    pub fn move_next(&mut self) -> (r: bool)
        ensures
            r == (old(self).focused_segment + 1 < old(self).segments@.len()),
            final(self).focused_segment == old(self).next_segment(),
            final(self).segments == old(self).segments,
            old(self).same_frame(final(self)),
            old(self).well_formed() ==> final(self).well_formed(),
    {
        let len = self.segments.len();
        if len > 0 && self.focused_segment < len - 1 {
            self.focused_segment = self.focused_segment + 1;
            true
        } else {
            false
        }
    }

    /// Moves the focus to the segment before, but not before the first.
    /// Answers whether it moved.
    pub fn move_prev(&mut self) -> (r: bool)
        ensures
            r == (old(self).focused_segment > 0),
            final(self).focused_segment == if r {
                old(self).focused_segment - 1
            } else {
                0
            },
            final(self).segments == old(self).segments,
            old(self).same_frame(final(self)),
            old(self).well_formed() ==> final(self).well_formed(),
    {
        if self.focused_segment > 0 {
            self.focused_segment = self.focused_segment - 1;
            true
        } else {
            false
        }
    }

    /// Steps the focused segment up. Answers whether there is one.
    pub fn increment(&mut self) -> (r: bool)
        ensures
            r == (old(self).focused_segment < old(self).segments@.len()),
            final(self).focused_segment == old(self).focused_segment,
            old(self).same_frame(final(self)),
            !r ==> final(self).segments@ == old(self).segments@,
            r ==> old(self).segments_but(
                final(self),
                old(self).focused_segment as int,
                zero_padded(
                    stepped_up_from(
                        old(self).segments@[old(self).focused_segment as int].segment_type,
                        old(self).segments@[old(self).focused_segment as int].value@,
                    ),
                    old(self).segments@[old(self).focused_segment as int].segment_type.spec_length(),
                ),
            ),
            old(self).well_formed() ==> final(self).well_formed(),
    {
        let at = self.focused_segment;
        if at < self.segments.len() {
            let mut segment = self.segments.remove(at);
            segment.increment();
            self.segments.insert(at, segment);
            proof {
                assert(kinds_of(self.segments@) =~= kinds_of(old(self).segments@));
            }
            true
        } else {
            false
        }
    }

    /// Steps the focused segment down. Answers whether there is one.
    pub fn decrement(&mut self) -> (r: bool)
        ensures
            r == (old(self).focused_segment < old(self).segments@.len()),
            final(self).focused_segment == old(self).focused_segment,
            old(self).same_frame(final(self)),
            !r ==> final(self).segments@ == old(self).segments@,
            r ==> old(self).segments_but(
                final(self),
                old(self).focused_segment as int,
                zero_padded(
                    stepped_down(
                        old(self).segments@[old(self).focused_segment as int].segment_type,
                        old(self).segments@[old(self).focused_segment as int].number(),
                    ),
                    old(self).segments@[old(self).focused_segment as int].segment_type.spec_length(),
                ),
            ),
            old(self).well_formed() ==> final(self).well_formed(),
    {
        let at = self.focused_segment;
        if at < self.segments.len() {
            let mut segment = self.segments.remove(at);
            segment.decrement();
            self.segments.insert(at, segment);
            proof {
                assert(kinds_of(self.segments@) =~= kinds_of(old(self).segments@));
            }
            true
        } else {
            false
        }
    }

    /// Types a digit into the focused segment; once the segment is full,
    /// the focus moves on to the next. Answers whether there is a focused
    /// segment and the character was a digit.
    pub fn insert_digit(&mut self, digit: char) -> (r: bool)
        ensures
            r == (old(self).focused_segment < old(self).segments@.len() && is_digit(digit)),
            old(self).same_frame(final(self)),
            !r ==> final(self).segments@ == old(self).segments@ && final(self).focused_segment
                == old(self).focused_segment,
            r ==> old(self).segments_but(
                final(self),
                old(self).focused_segment as int,
                typed(
                    old(self).segments@[old(self).focused_segment as int].segment_type,
                    old(self).segments@[old(self).focused_segment as int].value@,
                    digit,
                ),
            ),
            r ==> final(self).focused_segment == if typed(
                old(self).segments@[old(self).focused_segment as int].segment_type,
                old(self).segments@[old(self).focused_segment as int].value@,
                digit,
            ).len() == old(self).segments@[old(
                self,
            ).focused_segment as int].segment_type.spec_length() {
                old(self).next_segment()
            } else {
                old(self).focused_segment as int
            },
            old(self).well_formed() ==> final(self).well_formed(),
    {
        let at = self.focused_segment;
        if at < self.segments.len() {
            let mut segment = self.segments.remove(at);
            let typed_digit = segment.insert_digit(digit);
            let full = segment.value.as_str().unicode_len() == segment.segment_type.length();
            self.segments.insert(at, segment);
            proof {
                assert(kinds_of(self.segments@) =~= kinds_of(old(self).segments@));
                if !typed_digit {
                    assert(self.segments@ =~= old(self).segments@);
                }
            }
            if typed_digit && full {
                self.move_next();
            }
            typed_digit
        } else {
            false
        }
    }

    /// Deletes the last digit of the focused segment. Answers whether there
    /// was one.
    pub fn delete_digit(&mut self) -> (r: bool)
        ensures
            r == (old(self).focused_segment < old(self).segments@.len() && old(
                self,
            ).segments@[old(self).focused_segment as int].value@.len() > 0),
            final(self).focused_segment == old(self).focused_segment,
            old(self).same_frame(final(self)),
            !r ==> final(self).segments@ == old(self).segments@,
            r ==> old(self).segments_but(
                final(self),
                old(self).focused_segment as int,
                old(self).segments@[old(self).focused_segment as int].value@.drop_last(),
            ),
            old(self).well_formed() ==> final(self).well_formed(),
    {
        let at = self.focused_segment;
        if at < self.segments.len() {
            let mut segment = self.segments.remove(at);
            let deleted = segment.delete_digit();
            self.segments.insert(at, segment);
            proof {
                assert(kinds_of(self.segments@) =~= kinds_of(old(self).segments@));
                if !deleted {
                    assert(self.segments@ =~= old(self).segments@);
                }
            }
            deleted
        } else {
            false
        }
    }

    /// Empties all segments and focuses the first.
    pub fn clear(&mut self)
        ensures
            final(self).focused_segment == 0,
            final(self).segments@.len() == old(self).segments@.len(),
            forall|i: int|
                0 <= i < final(self).segments@.len() ==> (#[trigger] final(self).segments@[i]).value@.len()
                    == 0,
            old(self).same_frame(final(self)),
            final(self).well_formed(),
    {
        let mut cleared: Vec<DateSegment> = Vec::new();
        let mut i: usize = 0;
        while i < self.segments.len()
            invariant
                i <= self.segments.len(),
                cleared@.len() == i,
                forall|j: int|
                    0 <= j < i ==> (#[trigger] cleared@[j]).value@.len() == 0 && cleared@[j].segment_type
                        == self.segments@[j].segment_type && cleared@[j].well_formed(),
            decreases self.segments.len() - i,
        {
            cleared.push(DateSegment::new(self.segments[i].segment_type));
            i += 1;
        }
        proof {
            assert(kinds_of(cleared@) =~= kinds_of(self.segments@));
        }
        self.segments = cleared;
        self.focused_segment = 0;
    }
}

impl DateInputNode {
    /// Whether `after` is this input after typing the digit into its
    /// focused segment.
    pub open spec fn digit_typed(&self, after: &DateInputNode, digit: char) -> bool {
        let at = self.focused_segment as int;
        let segment = self.segments@[at];
        let value = typed(segment.segment_type, segment.value@, digit);
        &&& self.segments_but(after, at, value)
        &&& after.focused_segment == if value.len() == segment.segment_type.spec_length() {
            self.next_segment()
        } else {
            at
        }
    }

    /// Whether `after` is this input after stepping its focused segment up
    /// or down.
    pub open spec fn segment_stepped(&self, after: &DateInputNode, up: bool) -> bool {
        let at = self.focused_segment as int;
        let segment = self.segments@[at];
        let number = if up {
            stepped_up_from(segment.segment_type, segment.value@)
        } else {
            stepped_down(segment.segment_type, segment.number())
        };
        &&& self.segments_but(after, at, zero_padded(number, segment.segment_type.spec_length()))
        &&& after.focused_segment == self.focused_segment
    }

    /// Whether `after` is this input after deleting the last digit of its
    /// focused segment.
    pub open spec fn digit_deleted(&self, after: &DateInputNode) -> bool {
        let at = self.focused_segment as int;
        let segment = self.segments@[at];
        &&& if segment.value@.len() > 0 {
            self.segments_but(after, at, segment.value@.drop_last())
        } else {
            after.segments@ == self.segments@
        }
        &&& after.focused_segment == self.focused_segment
    }

    /// The text that stands before the focused segment in what the input
    /// shows.
    pub open spec fn shown_before_focus(&self) -> Seq<char> {
        interleaved_prefix(
            texts_of(self.separators@),
            shown_of(self.segments@),
            self.focused_segment as int,
        ) + (if self.focused_segment < self.separators@.len() {
            self.separators@[self.focused_segment as int]@
        } else {
            Seq::empty()
        })
    }

    /// How many columns into what the input shows its focused segment
    /// begins.
    pub fn focus_offset(&self) -> (w: usize)
        ensures
            w == columns(self.shown_before_focus()),
    {
        let mut s = String::new();
        let mut i: usize = 0;
        while i < self.focused_segment
            invariant
                i <= self.focused_segment,
                s@ == interleaved_prefix(
                    texts_of(self.separators@),
                    shown_of(self.segments@),
                    i as int,
                ),
            decreases self.focused_segment - i,
        {
            if i < self.separators.len() {
                s.append(self.separators[i].as_str());
            }
            if i < self.segments.len() {
                let shown = self.segments[i].display_string();
                s.append(shown.as_str());
            }
            i += 1;
            assert(s@ =~= interleaved_prefix(
                texts_of(self.separators@),
                shown_of(self.segments@),
                i as int,
            ));
        }
        if self.focused_segment < self.separators.len() {
            s.append(self.separators[self.focused_segment].as_str());
        }
        str_width(s.as_str())
    }
}

/// What a date input answers to a key: a digit is typed, Backspace deletes,
/// Up and Down step the focused segment, where there is one; the arrows to
/// the sides, the slash and the colon move among the segments, where there
/// is one to move to; Enter submits; any other key is not handled.
pub open spec fn date_key_result(node: &DateInputNode, code: KeyCode) -> KeyResult {
    let has_segment = node.focused_segment < node.segments@.len();
    let can_advance = node.focused_segment + 1 < node.segments@.len();
    match code {
        KeyCode::Char(c) => if is_digit(c) {
            if has_segment {
                KeyResult::Handled
            } else {
                KeyResult::NotHandled
            }
        } else if c == '/' || c == ':' {
            if can_advance {
                KeyResult::Handled
            } else {
                KeyResult::NotHandled
            }
        } else {
            KeyResult::NotHandled
        },
        KeyCode::Backspace | KeyCode::Up | KeyCode::Down => if has_segment {
            KeyResult::Handled
        } else {
            KeyResult::NotHandled
        },
        KeyCode::Left => if node.focused_segment > 0 {
            KeyResult::Handled
        } else {
            KeyResult::NotHandled
        },
        KeyCode::Right => if can_advance {
            KeyResult::Handled
        } else {
            KeyResult::NotHandled
        },
        KeyCode::Enter => KeyResult::Submit,
        _ => KeyResult::NotHandled,
    }
}

/// Whether `after` is the date input `before` after a key that it handled.
pub open spec fn date_after_key(before: &DateInputNode, after: &DateInputNode, code: KeyCode) -> bool {
    match code {
        KeyCode::Char(c) => if is_digit(c) {
            before.digit_typed(after, c)
        } else {
            after.segments@ == before.segments@ && after.focused_segment == before.next_segment()
        },
        KeyCode::Backspace => before.digit_deleted(after),
        KeyCode::Up => before.segment_stepped(after, true),
        KeyCode::Down => before.segment_stepped(after, false),
        KeyCode::Left => after.segments@ == before.segments@ && after.focused_segment
            == before.focused_segment - 1,
        KeyCode::Right => after.segments@ == before.segments@ && after.focused_segment
            == before.next_segment(),
        _ => after.segments@ == before.segments@ && after.focused_segment == before.focused_segment,
    }
}

/// The spans of the first `k` segments of a date input, each behind its
/// separator where that is not empty. The focused segment of a focused
/// input is yellow.
pub open spec fn segment_spans(
    node: &DateInputNode,
    focused: bool,
    base: StyleView,
    wrap: Wrap,
    k: int,
) -> Seq<SpanView>
    decreases k,
{
    if k <= 0 {
        Seq::empty()
    } else {
        let i = k - 1;
        let before = segment_spans(node, focused, base, wrap, i);
        let with_separator = if i < node.separators@.len() && node.separators@[i]@.len() > 0 {
            before.push(SpanView { text: node.separators@[i]@, style: base, wrap })
        } else {
            before
        };
        if i < node.segments@.len() {
            with_separator.push(
                SpanView {
                    text: shown(node.segments@[i].segment_type, node.segments@[i].value@),
                    style: if focused && i == node.focused_segment {
                        StyleView { fg: Some(Color::Yellow), ..base }
                    } else {
                        base
                    },
                    wrap,
                },
            )
        } else {
            with_separator
        }
    }
}

/// The content of a date input as spans: the segments behind their
/// separators, the last separator where it is not empty, and spaces up to
/// the least width.
pub open spec fn date_spans(node: &DateInputNode, focused: bool, base: StyleView, wrap: Wrap) -> Seq<
    SpanView,
> {
    let n = node.segments@.len() as int;
    let segments = segment_spans(node, focused, base, wrap, n);
    let with_last = if n < node.separators@.len() && node.separators@[n]@.len() > 0 {
        segments.push(SpanView { text: node.separators@[n]@, style: base, wrap })
    } else {
        segments
    };
    if columns(node.spec_display()) < node.min_width {
        with_last.push(
            SpanView {
                text: repeated(' ', (node.min_width - columns(node.spec_display())) as nat),
                style: base,
                wrap,
            },
        )
    } else {
        with_last
    }
}

/// The segmented date and time input widget.
#[derive(Debug)]
pub struct DateInput {
    pub node: DateInputNode,
    pub format: String,
    pub focused: bool,
    pub opts: Options,
}

impl DateInput {
    /// Whether `other` differs from this input in the digits of its
    /// segments and in the focused segment at most.
    pub open spec fn same_frame(&self, other: &DateInput) -> bool {
        &&& self.node.same_frame(&other.node)
        &&& other.format == self.format
        &&& other.focused == self.focused
        &&& other.opts == self.opts
    }

    /// A date input for a format, with empty segments, unfocused, one
    /// column wide.
    pub fn new(id: &str, label: &str, format: &str) -> (r: Self)
        ensures
            r.node.id@ == id@,
            r.node.label@ == label@,
            r.format@ == format@,
            kinds_of(r.node.segments@) == parsed(format@).kinds,
            texts_of(r.node.separators@) == parsed(format@).separators,
            forall|i: int|
                0 <= i < r.node.segments@.len() ==> (#[trigger] r.node.segments@[i]).value@.len() == 0,
            r.node.focused_segment == 0,
            r.node.validators@ == Seq::<Validator>::empty(),
            r.node.error is None,
            r.node.min_width == 1,
            r.node.well_formed(),
            r.node.spec_display() == format@,
            !r.focused,
            r.opts == Options::plain(),
    {
        let mut node = DateInputNode::new(id, label, format);
        node.min_width = 1;
        DateInput { node, format: String::from_str(format), focused: false, opts: Options::new() }
    }

    /// Sets the least width of the content.
    pub fn with_min_width(self, width: usize) -> (r: Self)
        ensures
            r.node == (DateInputNode { min_width: width, ..self.node }),
            r.format == self.format,
            r.focused == self.focused,
            r.opts == self.opts,
    {
        let mut node = self.node;
        node.min_width = width;
        DateInput { node, format: self.format, focused: self.focused, opts: self.opts }
    }

    /// Adds a validator behind those already there.
    pub fn with_validator(self, validator: Validator) -> (r: Self)
        ensures
            r.node.validators@ == self.node.validators@.push(validator),
            r.node.id == self.node.id,
            r.node.label == self.node.label,
            r.node.segments == self.node.segments,
            r.node.separators == self.node.separators,
            r.node.focused_segment == self.node.focused_segment,
            r.node.error == self.node.error,
            r.node.min_width == self.node.min_width,
            r.format == self.format,
            r.focused == self.focused,
            r.opts == self.opts,
    {
        let mut node = self.node;
        node.validators.push(validator);
        DateInput { node, format: self.format, focused: self.focused, opts: self.opts }
    }

    /// What the input shows: what the segments show, between the
    /// separators.
    pub fn display_string(&self) -> (s: String)
        ensures
            s@ == self.node.spec_display(),
    {
        self.node.display_string()
    }

    /// The identity of the input.
    pub fn id(&self) -> (r: &str)
        ensures
            r@ == self.node.id@,
    {
        self.node.id.as_str()
    }

    /// The label of the input.
    pub fn label(&self) -> (r: &str)
        ensures
            r@ == self.node.label@,
    {
        self.node.label.as_str()
    }

    /// The value: the digits of the segments between the separators.
    pub fn value(&self) -> (r: String)
        ensures
            r@ == self.node.spec_value(),
    {
        self.node.value()
    }

    /// Whether the input has the focus.
    pub fn is_focused(&self) -> (r: bool)
        ensures
            r == self.focused,
    {
        self.focused
    }

    /// Sets the focus flag.
    pub fn set_focused(&mut self, focused: bool)
        ensures
            *final(self) == (DateInput { focused, ..*old(self) }),
    {
        self.focused = focused;
    }

    /// The message in the error slot.
    pub fn error(&self) -> (r: Option<&str>)
        ensures
            r is Some == self.node.error is Some,
            r matches Some(m) ==> m@ == self.node.error->0@,
    {
        match &self.node.error {
            Some(message) => Some(message.as_str()),
            None => None,
        }
    }

    /// Sets the error slot.
    pub fn set_error(&mut self, error: Option<String>)
        ensures
            final(self).node == (DateInputNode { error, ..old(self).node }),
            final(self).format == old(self).format,
            final(self).focused == old(self).focused,
            final(self).opts == old(self).opts,
    {
        self.node.error = error;
    }

    /// The index of the focused segment.
    pub fn cursor_pos(&self) -> (r: usize)
        ensures
            r == self.node.focused_segment,
    {
        self.node.focused_segment
    }

    /// The least width of the content.
    pub fn min_width(&self) -> (r: usize)
        ensures
            r == self.node.min_width,
    {
        self.node.min_width
    }

    /// The validators, in order.
    pub fn validators(&self) -> (r: &[Validator])
        ensures
            r@ == self.node.validators@,
    {
        self.node.validators.as_slice()
    }

    /// Validates the input: every segment must be filled and within the
    /// range of its kind; then the validators run on the value.
    pub fn validate(&self) -> (r: Result<(), String>)
        ensures
            outcome_text(r) == self.node.failure(),
    {
        self.node.validate()
    }

    /// Applies a key to the input.
    pub fn handle_key(&mut self, code: KeyCode, modifiers: KeyModifiers) -> (r: KeyResult)
        ensures
            r == date_key_result(&old(self).node, code),
            old(self).same_frame(final(self)),
            old(self).node.well_formed() ==> final(self).node.well_formed(),
            r == KeyResult::Handled ==> date_after_key(
                &old(self).node,
                &final(self).node,
                code,
            ),
            r != KeyResult::Handled ==> final(self).node.segments@ == old(self).node.segments@
                && final(self).node.focused_segment == old(self).node.focused_segment,
    {
        match code {
            KeyCode::Char(c) => {
                if is_ascii_digit(c) {
                    if self.node.insert_digit(c) {
                        KeyResult::Handled
                    } else {
                        KeyResult::NotHandled
                    }
                } else if c == '/' || c == ':' {
                    if self.node.move_next() {
                        KeyResult::Handled
                    } else {
                        KeyResult::NotHandled
                    }
                } else {
                    KeyResult::NotHandled
                }
            },
            KeyCode::Backspace => {
                if self.node.focused_segment < self.node.segments.len() {
                    self.node.delete_digit();
                    KeyResult::Handled
                } else {
                    KeyResult::NotHandled
                }
            },
            KeyCode::Left => {
                if self.node.move_prev() {
                    KeyResult::Handled
                } else {
                    KeyResult::NotHandled
                }
            },
            KeyCode::Right => {
                if self.node.move_next() {
                    KeyResult::Handled
                } else {
                    KeyResult::NotHandled
                }
            },
            KeyCode::Up => {
                if self.node.increment() {
                    KeyResult::Handled
                } else {
                    KeyResult::NotHandled
                }
            },
            KeyCode::Down => {
                if self.node.decrement() {
                    KeyResult::Handled
                } else {
                    KeyResult::NotHandled
                }
            },
            KeyCode::Enter => KeyResult::Submit,
            _ => KeyResult::NotHandled,
        }
    }

    /// The content of the input as spans.
    pub fn render_content(&self) -> (r: Vec<Span>)
        ensures
            span_views(r@) == date_spans(
                &self.node,
                self.focused,
                self.opts.style_view(),
                self.opts.wrap,
            ),
    {
        let ghost base = self.opts.style_view();
        let wrap = self.opts.wrap;
        let mut spans: Vec<Span> = Vec::new();
        let mut i: usize = 0;
        proof {
            assert(span_views(spans@) =~= Seq::<SpanView>::empty());
        }
        while i < self.node.segments.len()
            invariant
                i <= self.node.segments.len(),
                base == self.opts.style_view(),
                wrap == self.opts.wrap,
                span_views(spans@) == segment_spans(&self.node, self.focused, base, wrap, i as int),
            decreases self.node.segments.len() - i,
        {
            if i < self.node.separators.len() && self.node.separators[i].as_str().unicode_len()
                > 0 {
                let ghost before = span_views(spans@);
                let span = Span::new(self.node.separators[i].as_str()).with_style(
                    self.opts.to_style(),
                ).with_wrap(wrap);
                spans.push(span);
                assert(span_views(spans@) =~= before.push(span@));
            }
            let style = if self.focused && i == self.node.focused_segment {
                self.opts.to_style().with_fg(Color::Yellow)
            } else {
                self.opts.to_style()
            };
            let shown = self.node.segments[i].display_string();
            let ghost before = span_views(spans@);
            let span = Span::new(shown.as_str()).with_style(style).with_wrap(wrap);
            spans.push(span);
            assert(span_views(spans@) =~= before.push(span@));
            i += 1;
        }
        let n = self.node.segments.len();
        if n < self.node.separators.len() && self.node.separators[n].as_str().unicode_len() > 0 {
            let ghost before = span_views(spans@);
            let span = Span::new(self.node.separators[n].as_str()).with_style(
                self.opts.to_style(),
            ).with_wrap(wrap);
            spans.push(span);
            assert(span_views(spans@) =~= before.push(span@));
        }
        let shown = self.node.display_string();
        let width = str_width(shown.as_str());
        if width < self.node.min_width {
            let fill = repeat(' ', self.node.min_width - width);
            let ghost before = span_views(spans@);
            let span = Span::new(fill.as_str()).with_style(self.opts.to_style()).with_wrap(wrap);
            spans.push(span);
            assert(span_views(spans@) =~= before.push(span@));
        }
        spans
    }

    /// How many columns into the content the cursor stands: where the
    /// focused segment begins.
    pub fn cursor_offset_in_content(&self) -> (w: usize)
        ensures
            w == columns(self.node.shown_before_focus()),
    {
        self.node.focus_offset()
    }
}

/// Builds a date input step by step.
#[derive(Debug)]
pub struct DateInputBuilder {
    input: DateInputNode,
    format: String,
    opts: Options,
}

impl DateInputBuilder {
    /// The input that is being built.
    pub closed spec fn spec_input(&self) -> DateInputNode {
        self.input
    }

    /// The format of the input that is being built.
    pub closed spec fn spec_format(&self) -> Seq<char> {
        self.format@
    }

    /// The display options that are being built.
    pub closed spec fn spec_opts(&self) -> Options {
        self.opts
    }

    /// Whether `other` has the same input and format as this builder.
    pub open spec fn same_input(&self, other: &DateInputBuilder) -> bool {
        other.spec_input() == self.spec_input() && other.spec_format() == self.spec_format()
    }

    /// A builder for a date input with a format.
    pub fn new(id: String, label: String, format: String) -> (r: Self)
        ensures
            r.spec_input().id@ == id@,
            r.spec_input().label@ == label@,
            r.spec_format() == format@,
            kinds_of(r.spec_input().segments@) == parsed(format@).kinds,
            texts_of(r.spec_input().separators@) == parsed(format@).separators,
            r.spec_input().focused_segment == 0,
            r.spec_input().validators@ == Seq::<Validator>::empty(),
            r.spec_input().error is None,
            r.spec_input().min_width == 10,
            r.spec_input().well_formed(),
            r.spec_opts() == Options::plain(),
    {
        DateInputBuilder {
            input: DateInputNode::new(id.as_str(), label.as_str(), format.as_str()),
            format,
            opts: Options::new(),
        }
    }

    /// Sets the least width of the content.
    pub fn min_width(self, width: usize) -> (r: Self)
        ensures
            r.spec_input() == (DateInputNode { min_width: width, ..self.spec_input() }),
            r.spec_format() == self.spec_format(),
            r.spec_opts() == self.spec_opts(),
    {
        let mut input = self.input;
        input.min_width = width;
        DateInputBuilder { input, format: self.format, opts: self.opts }
    }

    /// Adds a validator behind those already there.
    pub fn validator(self, validator: Validator) -> (r: Self)
        ensures
            r.spec_input().validators@ == self.spec_input().validators@.push(validator),
            r.spec_input().id == self.spec_input().id,
            r.spec_input().label == self.spec_input().label,
            r.spec_input().segments == self.spec_input().segments,
            r.spec_input().separators == self.spec_input().separators,
            r.spec_input().focused_segment == self.spec_input().focused_segment,
            r.spec_input().error == self.spec_input().error,
            r.spec_input().min_width == self.spec_input().min_width,
            r.spec_format() == self.spec_format(),
            r.spec_opts() == self.spec_opts(),
    {
        let mut input = self.input;
        input.validators.push(validator);
        DateInputBuilder { input, format: self.format, opts: self.opts }
    }

    /// Sets the display hint.
    pub fn with_display(self, display: Display) -> (r: Self)
        ensures
            r.spec_opts() == (Options { display, ..self.spec_opts() }),
            self.same_input(&r),
    {
        let mut opts = self.opts;
        opts.display = display;
        DateInputBuilder { input: self.input, format: self.format, opts }
    }

    /// Sets the wrap policy.
    pub fn with_wrap(self, wrap: Wrap) -> (r: Self)
        ensures
            r.spec_opts() == (Options { wrap, ..self.spec_opts() }),
            self.same_input(&r),
    {
        let mut opts = self.opts;
        opts.wrap = wrap;
        DateInputBuilder { input: self.input, format: self.format, opts }
    }

    /// Sets the colour of the text.
    pub fn with_color(self, color: Color) -> (r: Self)
        ensures
            r.spec_opts() == (Options { color: Some(color), ..self.spec_opts() }),
            self.same_input(&r),
    {
        let mut opts = self.opts;
        opts.color = Some(color);
        DateInputBuilder { input: self.input, format: self.format, opts }
    }

    /// Sets the colour of the background.
    pub fn with_background(self, bg: Color) -> (r: Self)
        ensures
            r.spec_opts() == (Options { background: Some(bg), ..self.spec_opts() }),
            self.same_input(&r),
    {
        let mut opts = self.opts;
        opts.background = Some(bg);
        DateInputBuilder { input: self.input, format: self.format, opts }
    }

    /// Asks for bold text.
    pub fn bold(self) -> (r: Self)
        ensures
            r.spec_opts() == (Options { bold: true, ..self.spec_opts() }),
            self.same_input(&r),
    {
        let mut opts = self.opts;
        opts.bold = true;
        DateInputBuilder { input: self.input, format: self.format, opts }
    }

    /// Asks for italic text.
    pub fn italic(self) -> (r: Self)
        ensures
            r.spec_opts() == (Options { italic: true, ..self.spec_opts() }),
            self.same_input(&r),
    {
        let mut opts = self.opts;
        opts.italic = true;
        DateInputBuilder { input: self.input, format: self.format, opts }
    }

    /// Asks for underlined text.
    pub fn underline(self) -> (r: Self)
        ensures
            r.spec_opts() == (Options { underline: true, ..self.spec_opts() }),
            self.same_input(&r),
    {
        let mut opts = self.opts;
        opts.underline = true;
        DateInputBuilder { input: self.input, format: self.format, opts }
    }

    /// The date input that was built, unfocused.
    pub fn build(self) -> (r: DateInput)
        ensures
            r.node == self.spec_input(),
            r.format@ == self.spec_format(),
            r.opts == self.spec_opts(),
            !r.focused,
    {
        DateInput { node: self.input, format: self.format, focused: false, opts: self.opts }
    }
}

/// The tokens of kinds of segments.
pub open spec fn tokens_of(kinds: Seq<SegmentType>) -> Seq<Seq<char>> {
    kinds.map_values(|k: SegmentType| k.token())
}

/// A run is made of copies of its first character.
pub proof fn lemma_run_text(s: Seq<char>, i: int)
    requires
        0 <= i < s.len(),
    ensures
        i + run_length(s, i) <= s.len(),
        s.subrange(i, i + run_length(s, i)) == repeated(s[i], run_length(s, i)),
    decreases s.len() - i,
{
    lemma_run_length(s, i);
    if i + 1 < s.len() && s[i + 1] == s[i] {
        lemma_run_text(s, i + 1);
        let n = run_length(s, i + 1);
        assert(s.subrange(i, i + 1 + n) =~= seq![s[i]] + s.subrange(i + 1, i + 1 + n));
        assert(seq![s[i]] + repeated(s[i], n) =~= repeated(s[i], n + 1));
    } else {
        assert(s.subrange(i, i + 1) =~= repeated(s[i], 1));
    }
}

/// The token of a kind is the run that stands for the kind.
pub proof fn lemma_token_run(c: char, n: int, kind: SegmentType)
    requires
        SegmentType::of_run(c, n) == Some(kind),
    ensures
        n >= 0,
        kind.token() == repeated(c, n as nat),
{
    assert(kind.token() =~= repeated(c, n as nat));
}

/// The first parts behind their separators do not depend on what comes
/// behind them.
pub proof fn lemma_prefix_stable(
    separators: Seq<Seq<char>>,
    parts: Seq<Seq<char>>,
    more_separators: Seq<Seq<char>>,
    more_parts: Seq<Seq<char>>,
    k: int,
)
    requires
        k <= separators.len(),
        k <= parts.len(),
        separators.len() <= more_separators.len(),
        parts.len() <= more_parts.len(),
        forall|i: int| 0 <= i < separators.len() ==> more_separators[i] == separators[i],
        forall|i: int| 0 <= i < parts.len() ==> more_parts[i] == parts[i],
    ensures
        interleaved_prefix(more_separators, more_parts, k) == interleaved_prefix(
            separators,
            parts,
            k,
        ),
    decreases k,
{
    if k > 0 {
        lemma_prefix_stable(separators, parts, more_separators, more_parts, k - 1);
    }
}

/// Reading a format from a position on, after what was read before it,
/// gives segments and separators that spell the format.
pub proof fn lemma_parsed_from(
    s: Seq<char>,
    i: int,
    kinds: Seq<SegmentType>,
    separators: Seq<Seq<char>>,
    current: Seq<char>,
)
    requires
        0 <= i <= s.len(),
        separators.len() == kinds.len(),
        interleaved_prefix(separators, tokens_of(kinds), kinds.len() as int) + current == s.take(
            i,
        ),
    ensures
        parsed_from(s, i, kinds, separators, current).separators.len() == parsed_from(
            s,
            i,
            kinds,
            separators,
            current,
        ).kinds.len() + 1,
        interleaved(
            parsed_from(s, i, kinds, separators, current).separators,
            tokens_of(parsed_from(s, i, kinds, separators, current).kinds),
        ) == s,
    decreases s.len() - i,
{
    let tokens = tokens_of(kinds);
    let n = kinds.len() as int;
    if i >= s.len() {
        let all = separators.push(current);
        lemma_prefix_stable(separators, tokens, all, tokens, n);
        assert(s.take(i) =~= s);
    } else {
        let run = run_length(s, i);
        lemma_run_text(s, i);
        let text = s.subrange(i, i + run);
        assert(s.take(i) + text =~= s.take(i + run));
        match SegmentType::of_run(s[i], run as int) {
            Some(kind) => {
                lemma_token_run(s[i], run as int, kind);
                let more_kinds = kinds.push(kind);
                let more = separators.push(current);
                let more_tokens = tokens_of(more_kinds);
                assert(more_tokens =~= tokens.push(kind.token()));
                lemma_prefix_stable(separators, tokens, more, more_tokens, n);
                assert(interleaved_prefix(more, more_tokens, n + 1) + Seq::<char>::empty()
                    =~= interleaved_prefix(separators, tokens, n) + current + text);
                assert(interleaved_prefix(separators, tokens, n) + current + text =~= s.take(i)
                    + text);
                lemma_parsed_from(s, i + run, more_kinds, more, Seq::empty());
            },
            None => {
                assert(interleaved_prefix(separators, tokens, n) + (current + text) =~= s.take(i)
                    + text);
                lemma_parsed_from(s, i + run, kinds, separators, current + text);
            },
        }
    }
}

/// A format is spelled by its segments and separators: the tokens of the
/// segments, each behind its separator, and the last separator behind them.
pub proof fn lemma_format_round_trip(format: Seq<char>)
    ensures
        parsed(format).separators.len() == parsed(format).kinds.len() + 1,
        interleaved(parsed(format).separators, tokens_of(parsed(format).kinds)) == format,
{
    assert(format.take(0) =~= Seq::<char>::empty());
    assert(interleaved_prefix(
        Seq::<Seq<char>>::empty(),
        tokens_of(Seq::<SegmentType>::empty()),
        0,
    ) + Seq::<char>::empty() =~= format.take(0));
    lemma_parsed_from(format, 0, Seq::empty(), Seq::empty(), Seq::empty());
}

/// A date input without digits shows its format.
pub proof fn lemma_empty_input_shows_format(node: DateInputNode, format: Seq<char>)
    requires
        kinds_of(node.segments@) == parsed(format).kinds,
        texts_of(node.separators@) == parsed(format).separators,
        forall|i: int| 0 <= i < node.segments@.len() ==> (#[trigger] node.segments@[i]).value@.len() == 0,
    ensures
        node.spec_display() == format,
{
    lemma_format_round_trip(format);
    let kinds = kinds_of(node.segments@);
    assert(shown_of(node.segments@) =~= tokens_of(kinds)) by {
        assert forall|i: int| 0 <= i < node.segments@.len() implies shown_of(node.segments@)[i]
            == tokens_of(kinds)[i] by {
            assert(node.segments@[i].value@.len() == 0);
            assert(kinds[i] == node.segments@[i].segment_type);
        }
    }
}

} // verus!
