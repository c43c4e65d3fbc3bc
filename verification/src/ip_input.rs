//! The IPv4 address input: four octets, edited one at a time through a
//! buffer of digits.

use crate::chars::{
    decimal, decimal_string, is_ascii_digit, is_digit, number_of, parse_number, to_chars,
};
use crate::drawable::Wrap;
use crate::input::{outcome_text, InputBase, KeyCode, KeyModifiers, KeyResult};
use crate::span::{Span, SpanView};
use crate::style::{Attribute, Style, StyleView};
use crate::validators::{first_failure, run_chain, Validator};
use vstd::prelude::*;

verus! {

/// What the content of an address input holds: the four octets, the index
/// of the octet that is edited, and the digits typed for it.
pub struct IpView {
    pub octets: Seq<u8>,
    pub current: int,
    pub buffer: Seq<char>,
}

/// The octet that a number is written back as: the number, held at 255.
pub open spec fn capped(n: u32) -> u8 {
    if n > 255 {
        255u8
    } else {
        n as u8
    }
}

/// The content after the buffer is written back to the edited octet; a
/// buffer that is no number leaves the octet as it is.
pub open spec fn committed(v: IpView) -> IpView {
    match number_of(v.buffer) {
        Some(n) => if 0 <= v.current < 4 {
            IpView { octets: v.octets.update(v.current, capped(n)), ..v }
        } else {
            v
        },
        None => v,
    }
}

/// The content with the octet at `at` taken up for editing.
pub open spec fn loaded(v: IpView, at: int) -> IpView {
    IpView { current: at, buffer: decimal(v.octets[at] as nat), ..v }
}

/// The content after a move to the next octet: the buffer is written back,
/// and the next octet is taken up, unless the last one is edited.
pub open spec fn advanced(v: IpView) -> IpView {
    if v.current < 3 {
        loaded(committed(v), v.current + 1)
    } else {
        committed(v)
    }
}

/// The content after a move to the octet before: the buffer is written
/// back, and the octet before is taken up, unless the first one is edited.
pub open spec fn retreated(v: IpView) -> IpView {
    if 0 < v.current < 4 {
        loaded(committed(v), v.current - 1)
    } else {
        committed(v)
    }
}

/// The content after stepping the edited octet up or down by one, held at 0
/// and at 255.
pub open spec fn stepped(v: IpView, up: bool) -> IpView {
    if 0 <= v.current < 4 {
        stepped_octet(v, up)
    } else {
        v
    }
}

/// The content after stepping the edited octet, which is one of the four.
pub open spec fn stepped_octet(v: IpView, up: bool) -> IpView {
    let n = v.octets[v.current];
    let m: u8 = if up {
        if n == 255 {
            255u8
        } else {
            (n + 1) as u8
        }
    } else {
        if n == 0 {
            0u8
        } else {
            (n - 1) as u8
        }
    };
    IpView { octets: v.octets.update(v.current, m), buffer: decimal(m as nat), ..v }
}

/// The content after typing a digit: the digit replaces a buffer that is a
/// single zero, and is appended to any other; a digit that would make the
/// number pass 255 is ignored; after the third digit the input moves on to
/// the next octet.
pub open spec fn digit_added(v: IpView, d: char) -> IpView {
    let base = if v.buffer == seq!['0'] {
        Seq::empty()
    } else {
        v.buffer
    };
    let longer = base.push(d);
    if !is_digit(d) {
        v
    } else if number_of(longer) is Some && number_of(longer)->0 <= 255 {
        let typed = IpView { buffer: longer, ..v };
        if longer.len() == 3 && v.current < 3 {
            advanced(typed)
        } else {
            typed
        }
    } else {
        IpView { buffer: base, ..v }
    }
}

/// The content after deleting the last digit of the buffer; an empty buffer
/// becomes a single zero.
pub open spec fn digit_removed(v: IpView) -> IpView {
    let shorter = if v.buffer.len() > 0 {
        v.buffer.drop_last()
    } else {
        v.buffer
    };
    IpView {
        buffer: if shorter.len() == 0 {
            seq!['0']
        } else {
            shorter
        },
        ..v
    }
}

/// The content after Backspace: the last digit goes, or, from a buffer that
/// is a single zero, the input moves to the octet before.
pub open spec fn backspaced(v: IpView) -> IpView {
    if v.buffer != seq!['0'] {
        digit_removed(v)
    } else if v.current > 0 {
        retreated(v)
    } else {
        v
    }
}

/// The content with the edited octet set to zero.
pub open spec fn octet_cleared(v: IpView) -> IpView {
    if 0 <= v.current < 4 {
        IpView { octets: v.octets.update(v.current, 0u8), buffer: seq!['0'], ..v }
    } else {
        v
    }
}

/// The content with the octets behind the edited one set to zero.
pub open spec fn rest_cleared(v: IpView) -> IpView {
    IpView {
        octets: Seq::new(
            4,
            |i: int|
                if i > v.current {
                    0u8
                } else {
                    v.octets[i]
                },
        ),
        ..v
    }
}

/// The content after typing a character: a digit is added, a dot moves on
/// to the next octet, anything else changes nothing.
pub open spec fn char_typed(v: IpView, c: char) -> IpView {
    if is_digit(c) {
        digit_added(v, c)
    } else if c == '.' {
        advanced(v)
    } else {
        v
    }
}

/// Whether the content handles a key: characters without Control,
/// Backspace, Delete, the four arrows, Home and End.
pub open spec fn ip_handles(code: KeyCode, modifiers: KeyModifiers) -> bool {
    match code {
        KeyCode::Char(_) => !modifiers.control,
        KeyCode::Backspace | KeyCode::Delete | KeyCode::Left | KeyCode::Right | KeyCode::Up
        | KeyCode::Down | KeyCode::Home | KeyCode::End => true,
        _ => false,
    }
}

/// The content after a key.
pub open spec fn ip_after_key(v: IpView, code: KeyCode, modifiers: KeyModifiers) -> IpView {
    match code {
        KeyCode::Char(c) => if modifiers.control {
            v
        } else {
            char_typed(v, c)
        },
        KeyCode::Backspace => backspaced(v),
        KeyCode::Delete => octet_cleared(v),
        KeyCode::Left => retreated(v),
        KeyCode::Right => advanced(v),
        KeyCode::Up => stepped(v, true),
        KeyCode::Down => stepped(v, false),
        KeyCode::Home => loaded(committed(v), 0),
        KeyCode::End => loaded(committed(v), 3),
        _ => v,
    }
}

/// The address in dotted notation.
pub open spec fn dotted(octets: Seq<u8>) -> Seq<char> {
    decimal(octets[0] as nat).push('.') + decimal(octets[1] as nat).push('.') + decimal(
        octets[2] as nat,
    ).push('.') + decimal(octets[3] as nat)
}

/// What the octet at `i` shows: the buffer for the edited octet, its number
/// for any other.
pub open spec fn octet_text(v: IpView, i: int) -> Seq<char> {
    if i == v.current {
        v.buffer
    } else {
        decimal(v.octets[i] as nat)
    }
}

/// What the input shows: the four octets with dots between them, the
/// edited one as its buffer.
pub open spec fn ip_shown(v: IpView) -> Seq<char> {
    octet_text(v, 0).push('.') + octet_text(v, 1).push('.') + octet_text(v, 2).push('.')
        + octet_text(v, 3)
}

/// How many characters stand before the octet at `k`: the octets before it
/// and a dot behind each.
pub open spec fn lead_length(octets: Seq<u8>, k: int) -> int
    decreases k,
{
    if k <= 0 {
        0
    } else {
        lead_length(octets, k - 1) + decimal(octets[k - 1] as nat).len() + 1
    }
}

/// The place of the cursor in the content, in characters: behind the
/// octets before the edited one, a dot behind each, and behind the buffer;
/// held at `usize::MAX`.
pub open spec fn cursor_place(v: IpView) -> nat {
    let before = lead_length(
        v.octets,
        if v.current < 4 {
            v.current
        } else {
            4
        },
    );
    if before + v.buffer.len() <= usize::MAX {
        (before + v.buffer.len()) as nat
    } else {
        usize::MAX as nat
    }
}

/// Nothing stands before the first octet, and more before a later one.
pub proof fn lemma_lead_length(octets: Seq<u8>, k: int)
    ensures
        lead_length(octets, k) >= 0,
    decreases k,
{
    if k > 0 {
        lemma_lead_length(octets, k - 1);
    }
}

/// The span of the octet at `i`: bold for the edited octet.
pub open spec fn octet_span(v: IpView, i: int) -> SpanView {
    SpanView {
        text: octet_text(v, i),
        style: if i == v.current {
            StyleView { attributes: seq![Attribute::Bold], ..Style::plain() }
        } else {
            Style::plain()
        },
        wrap: Wrap::Yes,
    }
}

/// The span of a dot.
pub open spec fn dot_span() -> SpanView {
    SpanView { text: seq!['.'], style: Style::plain(), wrap: Wrap::Yes }
}

/// The content as spans: the four octets with a dot between two of them.
pub open spec fn ip_spans(v: IpView) -> Seq<SpanView> {
    seq![
        octet_span(v, 0),
        dot_span(),
        octet_span(v, 1),
        dot_span(),
        octet_span(v, 2),
        dot_span(),
        octet_span(v, 3),
    ]
}

/// The texts between the dots of `s`, read from position `i` on, after the
/// text `current` gathered since the last dot.
pub open spec fn dot_parts_from(s: Seq<char>, i: int, current: Seq<char>) -> Seq<Seq<char>>
    decreases s.len() - i,
{
    if i < 0 || i >= s.len() {
        seq![current]
    } else if s[i] == '.' {
        seq![current] + dot_parts_from(s, i + 1, Seq::empty())
    } else {
        dot_parts_from(s, i + 1, current.push(s[i]))
    }
}

/// The texts between the dots of `s`.
pub open spec fn dot_parts(s: Seq<char>) -> Seq<Seq<char>> {
    dot_parts_from(s, 0, Seq::empty())
}

/// The octet that a text denotes, where it denotes a number up to 255.
pub open spec fn octet_of(part: Seq<char>) -> Option<u8> {
    match number_of(part) {
        Some(n) => if n <= 255 {
            Some(n as u8)
        } else {
            None
        },
        None => None,
    }
}

/// The octets after a value in dotted notation is set: where the value has
/// four parts, each part that denotes an octet replaces the octet at its
/// place; any other value leaves the octets as they are.
pub open spec fn octets_set(octets: Seq<u8>, value: Seq<char>) -> Seq<u8> {
    let parts = dot_parts(value);
    if parts.len() == 4 {
        Seq::new(
            4,
            |i: int|
                match octet_of(parts[i]) {
                    Some(n) => n,
                    None => octets[i],
                },
        )
    } else {
        octets
    }
}

/// The four octets with the one at `at` replaced.
fn replaced(octets: &[u8; 4], at: usize, value: u8) -> (r: [u8; 4])
    requires
        at < 4,
    ensures
        r@ == octets@.update(at as int, value),
{
    let r = [
        if at == 0 {
            value
        } else {
            octets[0]
        },
        if at == 1 {
            value
        } else {
            octets[1]
        },
        if at == 2 {
            value
        } else {
            octets[2]
        },
        if at == 3 {
            value
        } else {
            octets[3]
        },
    ];
    assert(r@ =~= octets@.update(at as int, value));
    r
}

/// The texts between the dots of a text.
fn split_dots(text: &str) -> (r: Vec<String>)
    ensures
        r@.map_values(|s: String| s@) == dot_parts(text@),
{
    let chars = to_chars(text);
    let mut parts: Vec<String> = Vec::new();
    let mut current = String::new();
    let mut i: usize = 0;
    let ghost view = |s: String| s@;
    proof {
        assert(parts@.map_values(view) =~= Seq::<Seq<char>>::empty());
        assert(Seq::<Seq<char>>::empty() + dot_parts_from(text@, 0, current@) =~= dot_parts(
            text@,
        ));
    }
    while i < chars.len()
        invariant
            i <= chars.len(),
            chars@ == text@,
            view == |s: String| s@,
            parts@.map_values(view) + dot_parts_from(text@, i as int, current@) == dot_parts(
                text@,
            ),
        decreases chars.len() - i,
    {
        let ghost before = parts@.map_values(view);
        let ghost gathered = current@;
        if chars[i] == '.' {
            parts.push(current);
            current = String::new();
            proof {
                assert(parts@.map_values(view) =~= before.push(gathered));
                assert(before.push(gathered) + dot_parts_from(
                    text@,
                    i + 1,
                    Seq::<char>::empty(),
                ) =~= before + (seq![gathered] + dot_parts_from(
                    text@,
                    i + 1,
                    Seq::<char>::empty(),
                )));
            }
        } else {
            current.push(chars[i]);
        }
        i += 1;
    }
    let ghost before = parts@.map_values(view);
    let ghost gathered = current@;
    parts.push(current);
    proof {
        assert(parts@.map_values(view) =~= before.push(gathered));
        assert(before.push(gathered) =~= before + seq![gathered]);
    }
    parts
}

/// The content of an IPv4 address input.
#[derive(Debug)]
pub struct IpInputContent {
    pub octets: [u8; 4],
    pub current_octet: usize,
    pub editing_buffer: String,
}

impl View for IpInputContent {
    type V = IpView;

    open spec fn view(&self) -> IpView {
        IpView {
            octets: self.octets@,
            current: self.current_octet as int,
            buffer: self.editing_buffer@,
        }
    }
}

impl IpInputContent {
    /// The invariant of the content: one of the four octets is edited.
    pub open spec fn well_formed(&self) -> bool {
        self.current_octet < 4
    }

    /// Whether the content is in order.
    pub fn is_well_formed(&self) -> (r: bool)
        ensures
            r == self.well_formed(),
    {
        self.current_octet < 4
    }

    /// The address 0.0.0.0, its first octet taken up for editing.
    pub fn new() -> (r: Self)
        ensures
            r@ == (IpView { octets: seq![0u8, 0u8, 0u8, 0u8], current: 0, buffer: seq!['0'] }),
            r.well_formed(),
    {
        let r = IpInputContent {
            octets: [0, 0, 0, 0],
            current_octet: 0,
            editing_buffer: decimal_string(0),
        };
        proof {
            reveal_with_fuel(decimal, 2);
            assert(r.octets@ =~= seq![0u8, 0u8, 0u8, 0u8]);
            assert(r.editing_buffer@ =~= seq!['0']);
        }
        r
    }

    /// The given address, its first octet taken up for editing.
    pub fn with_value(ip: [u8; 4]) -> (r: Self)
        ensures
            r@ == loaded(IpView { octets: ip@, current: 0, buffer: Seq::empty() }, 0),
            r.well_formed(),
    {
        IpInputContent {
            octets: ip,
            current_octet: 0,
            editing_buffer: decimal_string(ip[0] as usize),
        }
    }

    /// Writes the buffer back to the edited octet.
    pub fn commit_buffer(&mut self)
        ensures
            final(self)@ == committed(old(self)@),
            final(self).current_octet == old(self).current_octet,
    {
        if self.current_octet < 4 {
            match parse_number(self.editing_buffer.as_str()) {
                Some(n) => {
                    let octet: u8 = if n > 255 {
                        255
                    } else {
                        n as u8
                    };
                    self.octets = replaced(&self.octets, self.current_octet, octet);
                },
                None => {},
            }
        }
    }

    /// Takes the octet at `at` up for editing.
    fn load(&mut self, at: usize)
        requires
            at < 4,
        ensures
            final(self)@ == loaded(old(self)@, at as int),
    {
        self.current_octet = at;
        self.editing_buffer = decimal_string(self.octets[at] as usize);
    }

    /// Moves on to the next octet.
    pub fn next_octet(&mut self)
        ensures
            final(self)@ == advanced(old(self)@),
            old(self).well_formed() ==> final(self).well_formed(),
    {
        self.commit_buffer();
        if self.current_octet < 3 {
            let at = self.current_octet + 1;
            self.load(at);
        }
    }

    /// Moves back to the octet before.
    pub fn prev_octet(&mut self)
        ensures
            final(self)@ == retreated(old(self)@),
            old(self).well_formed() ==> final(self).well_formed(),
    {
        self.commit_buffer();
        if self.current_octet > 0 && self.current_octet < 4 {
            let at = self.current_octet - 1;
            self.load(at);
        }
    }

    /// Steps the edited octet up by one, but not beyond 255.
    pub fn increment_octet(&mut self)
        ensures
            final(self)@ == stepped(old(self)@, true),
            final(self).current_octet == old(self).current_octet,
    {
        if self.current_octet < 4 {
            let n = self.octets[self.current_octet];
            let m: u8 = if n == 255 {
                255
            } else {
                n + 1
            };
            self.octets = replaced(&self.octets, self.current_octet, m);
            self.editing_buffer = decimal_string(m as usize);
        }
    }

    /// Steps the edited octet down by one, but not below 0.
    pub fn decrement_octet(&mut self)
        ensures
            final(self)@ == stepped(old(self)@, false),
            final(self).current_octet == old(self).current_octet,
    {
        if self.current_octet < 4 {
            let n = self.octets[self.current_octet];
            let m: u8 = if n == 0 {
                0
            } else {
                n - 1
            };
            self.octets = replaced(&self.octets, self.current_octet, m);
            self.editing_buffer = decimal_string(m as usize);
        }
    }

    /// Types a digit into the buffer.
    pub fn add_digit(&mut self, digit: char)
        ensures
            final(self)@ == digit_added(old(self)@, digit),
            old(self).well_formed() ==> final(self).well_formed(),
    {
        if !is_ascii_digit(digit) {
            return ;
        }
        let chars = to_chars(self.editing_buffer.as_str());
        let mut longer = if chars.len() == 1 && chars[0] == '0' {
            assert(chars@ =~= seq!['0']);
            String::new()
        } else {
            self.editing_buffer.clone()
        };
        let ghost base = longer@;
        longer.push(digit);
        let accepted = match parse_number(longer.as_str()) {
            Some(n) => n <= 255,
            None => false,
        };
        if accepted {
            let full = longer.as_str().unicode_len() == 3;
            self.editing_buffer = longer;
            if full && self.current_octet < 3 {
                self.next_octet();
            }
        } else {
            let mut shorter = to_chars(longer.as_str());
            shorter.pop();
            assert(shorter@ =~= base);
            self.editing_buffer = crate::chars::collect(&shorter);
        }
    }

    /// Deletes the last digit of the buffer.
    pub fn remove_digit(&mut self)
        ensures
            final(self)@ == digit_removed(old(self)@),
    {
        let mut chars = to_chars(self.editing_buffer.as_str());
        if chars.len() > 0 {
            chars.pop();
            assert(chars@ =~= old(self).editing_buffer@.drop_last());
        }
        if chars.len() == 0 {
            let zero = crate::chars::repeat('0', 1);
            assert(zero@ =~= seq!['0']);
            self.editing_buffer = zero;
        } else {
            self.editing_buffer = crate::chars::collect(&chars);
        }
    }

    /// The address in dotted notation.
    pub fn to_ip_string(&self) -> (s: String)
        ensures
            s@ == dotted(self.octets@),
    {
        let mut s = decimal_string(self.octets[0] as usize);
        s.push('.');
        let second = decimal_string(self.octets[1] as usize);
        s.append(second.as_str());
        s.push('.');
        let third = decimal_string(self.octets[2] as usize);
        s.append(third.as_str());
        s.push('.');
        let fourth = decimal_string(self.octets[3] as usize);
        s.append(fourth.as_str());
        assert(s@ =~= dotted(self.octets@));
        s
    }

    /// The four octets.
    pub fn to_array(&self) -> (r: [u8; 4])
        ensures
            r == self.octets,
    {
        self.octets
    }

    /// What the octet at `i` shows.
    fn octet_string(&self, i: usize) -> (s: String)
        requires
            i < 4,
        ensures
            s@ == octet_text(self@, i as int),
    {
        if i == self.current_octet {
            self.editing_buffer.clone()
        } else {
            decimal_string(self.octets[i] as usize)
        }
    }

    /// What the input shows: the four octets with dots between them, the
    /// edited one as its buffer.
    pub fn render_value(&self) -> (s: String)
        ensures
            s@ == ip_shown(self@),
    {
        let mut s = self.octet_string(0);
        s.push('.');
        let second = self.octet_string(1);
        s.append(second.as_str());
        s.push('.');
        let third = self.octet_string(2);
        s.append(third.as_str());
        s.push('.');
        let fourth = self.octet_string(3);
        s.append(fourth.as_str());
        assert(s@ =~= ip_shown(self@));
        s
    }

    /// The span of the octet at `i`.
    fn octet_as_span(&self, i: usize) -> (span: Span)
        requires
            i < 4,
        ensures
            span@ == octet_span(self@, i as int),
    {
        let text = self.octet_string(i);
        if i == self.current_octet {
            let style = Style::new().with_attribute(Attribute::Bold);
            assert(style@.attributes =~= seq![Attribute::Bold]);
            Span::new(text.as_str()).with_style(style)
        } else {
            Span::new(text.as_str())
        }
    }

    /// The content as spans: the four octets with a dot between two of
    /// them, the edited octet in bold.
    pub fn render_spans(&self) -> (r: Vec<Span>)
        ensures
            crate::span::span_views(r@) == ip_spans(self@),
    {
        let mut spans: Vec<Span> = Vec::new();
        proof {
            reveal_strlit(".");
        }
        spans.push(self.octet_as_span(0));
        spans.push(Span::new("."));
        spans.push(self.octet_as_span(1));
        spans.push(Span::new("."));
        spans.push(self.octet_as_span(2));
        spans.push(Span::new("."));
        spans.push(self.octet_as_span(3));
        proof {
            assert("."@ =~= seq!['.']);
            assert(crate::span::span_views(spans@) =~= ip_spans(self@));
        }
        spans
    }

    /// The place of the cursor in characters: behind the buffer of the
    /// edited octet.
    pub fn cursor_position(&self) -> (r: usize)
        ensures
            r == cursor_place(self@),
    {
        let mut pos: usize = 0;
        let mut i: usize = 0;
        proof {
            lemma_lead_length(self.octets@, 0);
        }
        while i < self.current_octet && i < 4
            invariant
                i <= 4,
                i <= self.current_octet,
                pos == lead_length(self.octets@, i as int),
                pos <= 4 * i,
            decreases 4 - i,
        {
            let text = decimal_string(self.octets[i] as usize);
            proof {
                crate::date_input::lemma_decimal_length(self.octets@[i as int] as nat);
            }
            pos = pos + text.as_str().unicode_len() + 1;
            i += 1;
        }
        let len = self.editing_buffer.as_str().unicode_len();
        if len > usize::MAX - pos {
            usize::MAX
        } else {
            pos + len
        }
    }

    /// The value for validation; the address has none of its own.
    pub fn value(&self) -> (r: &'static str)
        ensures
            r@ == Seq::<char>::empty(),
    {
        proof {
            reveal_strlit("");
        }
        let r = "";
        assert(r@ =~= Seq::<char>::empty());
        r
    }

    /// Sets the address from dotted notation and takes the first octet up
    /// for editing.
    pub fn set_value(&mut self, value: String)
        ensures
            final(self)@ == loaded(
                IpView { octets: octets_set(old(self).octets@, value@), ..old(self)@ },
                0,
            ),
            final(self).well_formed(),
    {
        let parts = split_dots(value.as_str());
        if parts.len() == 4 {
            let mut i: usize = 0;
            let ghost texts = dot_parts(value@);
            while i < 4
                invariant
                    i <= 4,
                    parts@.len() == 4,
                    parts@.map_values(|s: String| s@) == texts,
                    self.octets@.len() == 4,
                    forall|j: int|
                        0 <= j < 4 ==> self.octets@[j] == if j < i {
                            match octet_of(texts[j]) {
                                Some(n) => n,
                                None => old(self).octets@[j],
                            }
                        } else {
                            old(self).octets@[j]
                        },
                decreases 4 - i,
            {
                assert(parts@.map_values(|s: String| s@)[i as int] == parts@[i as int]@);
                match parse_number(parts[i].as_str()) {
                    Some(n) => {
                        if n <= 255 {
                            self.octets = replaced(&self.octets, i, n as u8);
                        }
                    },
                    None => {},
                }
                i += 1;
            }
            assert(self.octets@ =~= octets_set(old(self).octets@, value@));
        }
        self.load(0);
    }

    /// Types a character: a digit is added to the buffer, a dot moves on to
    /// the next octet.
    pub fn handle_char(&mut self, ch: char)
        ensures
            final(self)@ == char_typed(old(self)@, ch),
            old(self).well_formed() ==> final(self).well_formed(),
    {
        if is_ascii_digit(ch) {
            self.add_digit(ch);
        } else if ch == '.' {
            self.next_octet();
        }
    }

    /// Backspace: deletes the last digit, or moves to the octet before.
    pub fn handle_backspace(&mut self)
        ensures
            final(self)@ == backspaced(old(self)@),
            old(self).well_formed() ==> final(self).well_formed(),
    {
        let chars = to_chars(self.editing_buffer.as_str());
        let single_zero = chars.len() == 1 && chars[0] == '0';
        proof {
            if single_zero {
                assert(chars@ =~= seq!['0']);
            }
        }
        if !single_zero {
            self.remove_digit();
        } else if self.current_octet > 0 {
            self.prev_octet();
        }
    }

    /// Sets the edited octet to zero.
    pub fn delete_word(&mut self)
        ensures
            final(self)@ == octet_cleared(old(self)@),
            final(self).current_octet == old(self).current_octet,
    {
        if self.current_octet < 4 {
            self.octets = replaced(&self.octets, self.current_octet, 0);
            let zero = crate::chars::repeat('0', 1);
            assert(zero@ =~= seq!['0']);
            self.editing_buffer = zero;
        }
    }

    /// Sets the octets behind the edited one to zero.
    pub fn delete_word_forward(&mut self)
        ensures
            final(self)@ == rest_cleared(old(self)@),
    {
        let cur = self.current_octet;
        let r = [
            self.octets[0],
            if 1 > cur {
                0
            } else {
                self.octets[1]
            },
            if 2 > cur {
                0
            } else {
                self.octets[2]
            },
            if 3 > cur {
                0
            } else {
                self.octets[3]
            },
        ];
        assert(r@ =~= rest_cleared(old(self)@).octets);
        self.octets = r;
    }

    /// Applies a key. Answers whether the content handles the key.
    pub fn handle_key(&mut self, code: KeyCode, modifiers: KeyModifiers) -> (r: bool)
        ensures
            r == ip_handles(code, modifiers),
            final(self)@ == ip_after_key(old(self)@, code, modifiers),
            old(self).well_formed() ==> final(self).well_formed(),
    {
        match code {
            KeyCode::Char(ch) => {
                if modifiers.control {
                    return false;
                }
                self.handle_char(ch);
                true
            },
            KeyCode::Backspace => {
                self.handle_backspace();
                true
            },
            KeyCode::Delete => {
                self.delete_word();
                true
            },
            KeyCode::Left => {
                self.prev_octet();
                true
            },
            KeyCode::Right => {
                self.next_octet();
                true
            },
            KeyCode::Up => {
                self.increment_octet();
                true
            },
            KeyCode::Down => {
                self.decrement_octet();
                true
            },
            KeyCode::Home => {
                self.commit_buffer();
                self.load(0);
                true
            },
            KeyCode::End => {
                self.commit_buffer();
                self.load(3);
                true
            },
            _ => false,
        }
    }
}

impl Default for IpInputContent {
    fn default() -> (r: Self)
        ensures
            r@ == (IpView { octets: seq![0u8, 0u8, 0u8, 0u8], current: 0, buffer: seq!['0'] }),
    {
        IpInputContent::new()
    }
}

/// What an address input answers to a key: Enter submits, and the keys
/// that the content handles are handled.
pub open spec fn ip_key_result(code: KeyCode, modifiers: KeyModifiers) -> KeyResult {
    if code == KeyCode::Enter {
        KeyResult::Submit
    } else if ip_handles(code, modifiers) {
        KeyResult::Handled
    } else {
        KeyResult::NotHandled
    }
}

/// The IPv4 address input widget.
#[derive(Debug)]
pub struct IpInput {
    pub base: InputBase,
    pub content: IpInputContent,
}

impl IpInput {
    /// Whether `other` differs from this input in its content at most.
    pub open spec fn same_base(&self, other: &IpInput) -> bool {
        other.base == self.base
    }

    /// The given address as default: the octets are replaced and the buffer
    /// shows the first of them.
    pub fn with_default(self, ip: [u8; 4]) -> (r: Self)
        ensures
            r.base == self.base,
            r.content@ == (IpView {
                octets: ip@,
                current: self.content.current_octet as int,
                buffer: decimal(ip@[0] as nat),
            }),
    {
        let mut content = self.content;
        content.octets = ip;
        content.editing_buffer = decimal_string(ip[0] as usize);
        IpInput { base: self.base, content }
    }

    /// The four octets.
    pub fn ip_value(&self) -> (r: [u8; 4])
        ensures
            r == self.content.octets,
    {
        self.content.to_array()
    }

    /// The address in dotted notation.
    pub fn ip_string(&self) -> (s: String)
        ensures
            s@ == dotted(self.content.octets@),
    {
        self.content.to_ip_string()
    }

    /// The identity of the input.
    pub fn id(&self) -> (r: &str)
        ensures
            r@ == self.base.id@,
    {
        self.base.id.as_str()
    }

    /// The label of the input.
    pub fn label(&self) -> (r: &str)
        ensures
            r@ == self.base.label@,
    {
        self.base.label.as_str()
    }

    /// The value: the address as the input shows it.
    pub fn value(&self) -> (r: String)
        ensures
            r@ == ip_shown(self.content@),
    {
        self.content.render_value()
    }

    /// Sets the address from dotted notation.
    pub fn set_value(&mut self, value: String)
        ensures
            final(self).content@ == loaded(
                IpView {
                    octets: octets_set(old(self).content.octets@, value@),
                    ..old(self).content@
                },
                0,
            ),
            old(self).same_base(final(self)),
    {
        self.content.set_value(value);
    }

    /// Whether the input has the focus.
    pub fn is_focused(&self) -> (r: bool)
        ensures
            r == self.base.focused,
    {
        self.base.focused
    }

    /// Sets the focus flag.
    pub fn set_focused(&mut self, focused: bool)
        ensures
            final(self).base == (InputBase { focused, ..old(self).base }),
            final(self).content == old(self).content,
    {
        self.base.focused = focused;
    }

    /// The message in the error slot.
    pub fn error(&self) -> (r: Option<&str>)
        ensures
            r is Some == self.base.error is Some,
            r matches Some(m) ==> m@ == self.base.error->0@,
    {
        match &self.base.error {
            Some(message) => Some(message.as_str()),
            None => None,
        }
    }

    /// Sets the error slot.
    pub fn set_error(&mut self, error: Option<String>)
        ensures
            final(self).base == (InputBase { error, ..old(self).base }),
            final(self).content == old(self).content,
    {
        self.base.error = error;
    }

    /// The least width of the content.
    pub fn min_width(&self) -> (r: usize)
        ensures
            r == self.base.min_width,
    {
        self.base.min_width
    }

    /// Adds a validator behind those already there.
    pub fn with_validation(self, validator: Validator) -> (r: Self)
        ensures
            r.base.validators@ == self.base.validators@.push(validator),
            r.base.id == self.base.id,
            r.base.label == self.base.label,
            r.base.focused == self.base.focused,
            r.base.error == self.base.error,
            r.base.min_width == self.base.min_width,
            r.content == self.content,
    {
        IpInput { base: self.base.with_validator(validator), content: self.content }
    }

    /// Runs the validators on the value: the message of the first that
    /// fails, or success.
    pub fn validate(&self) -> (r: Result<(), String>)
        ensures
            outcome_text(r) == first_failure(self.base.validators@, ip_shown(self.content@)),
    {
        let value = self.content.render_value();
        run_chain(&self.base.validators, value.as_str())
    }

    /// Applies a key to the input.
    pub fn handle_key(&mut self, code: KeyCode, modifiers: KeyModifiers) -> (r: KeyResult)
        ensures
            r == ip_key_result(code, modifiers),
            old(self).same_base(final(self)),
            final(self).content@ == ip_after_key(
                old(self).content@,
                code,
                modifiers,
            ),
            old(self).content.well_formed() ==> final(self).content.well_formed(),
    {
        match code {
            KeyCode::Enter => KeyResult::Submit,
            _ => {
                if self.content.handle_key(code, modifiers) {
                    KeyResult::Handled
                } else {
                    KeyResult::NotHandled
                }
            },
        }
    }

    /// Sets the edited octet to zero.
    pub fn delete_word(&mut self)
        ensures
            final(self).content@ == octet_cleared(
                old(self).content@,
            ),
            final(self).content.current_octet == old(self).content.current_octet,
            old(self).same_base(final(self)),
    {
        self.content.delete_word();
    }

    /// Sets the octets behind the edited one to zero.
    pub fn delete_word_forward(&mut self)
        ensures
            final(self).content@ == rest_cleared(old(self).content@),
            old(self).same_base(final(self)),
    {
        self.content.delete_word_forward();
    }

    /// The content of the input as spans.
    pub fn render_content(&self) -> (r: Vec<Span>)
        ensures
            crate::span::span_views(r@) == ip_spans(self.content@),
    {
        self.content.render_spans()
    }

    /// How many characters into the content the cursor stands.
    pub fn cursor_offset_in_content(&self) -> (r: usize)
        ensures
            r == cursor_place(self.content@),
    {
        self.content.cursor_position()
    }
}

/// An address input with the address 0.0.0.0; the label is its identity
/// too.
pub fn ip_input(label: &str) -> (r: IpInput)
    ensures
        r.base.id@ == label@,
        r.base.label@ == label@,
        !r.base.focused,
        r.base.error is None,
        r.base.validators@ == Seq::<Validator>::empty(),
        r.base.min_width == 1,
        r.content@ == (IpView { octets: seq![0u8, 0u8, 0u8, 0u8], current: 0, buffer: seq!['0'] }),
        r.content.well_formed(),
{
    IpInput { base: InputBase::new(label, label), content: IpInputContent::new() }
}

/// The rule for an address: the octets of the input are in range by
/// construction, so every value passes.
pub fn valid_ip() -> (v: Validator)
    ensures
        v == Validator::Accept,
{
    Validator::Accept
}

/// The rule against the local host: it has no access to the octets, so
/// every value passes.
pub fn not_localhost() -> (v: Validator)
    ensures
        v == Validator::Accept,
{
    Validator::Accept
}

} // verus!
