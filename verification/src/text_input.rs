//! The single-line text input: a value, a cursor between its characters,
//! and the edits that keys make.

use crate::chars::{from_chars, is_whitespace_char, repeat, repeated, to_chars};
use crate::drawable::{Display, Options, Wrap};
use crate::input::{error_text, outcome_text, KeyCode, KeyModifiers, KeyResult};
use crate::span::{Span, SpanView};
use crate::validators::{first_failure, run_chain, Validator};
use crate::width::{columns, str_width};
use vstd::prelude::*;

verus! {

/// The cursor held within the text: no further right than its end.
pub open spec fn clamped(cursor: int, len: int) -> int {
    if cursor < len {
        cursor
    } else {
        len
    }
}

/// The text without the characters from `from` up to, not including, `to`.
pub open spec fn cut(text: Seq<char>, from: int, to: int) -> Seq<char> {
    text.take(from) + text.skip(to)
}

/// The text with `more` put in at `at`.
pub open spec fn inserted(text: Seq<char>, at: int, more: Seq<char>) -> Seq<char> {
    text.take(at) + more + text.skip(at)
}

/// Where white space that ends at `p` begins.
pub open spec fn space_start(text: Seq<char>, p: int) -> int
    decreases p,
{
    if 0 < p <= text.len() && is_whitespace_char(text[p - 1]) {
        space_start(text, p - 1)
    } else {
        p
    }
}

/// Where a run without white space that ends at `p` begins.
pub open spec fn run_start(text: Seq<char>, p: int) -> int
    decreases p,
{
    if 0 < p <= text.len() && !is_whitespace_char(text[p - 1]) {
        run_start(text, p - 1)
    } else {
        p
    }
}

/// Where the word before `p` begins: behind it there may be white space up
/// to `p`.
pub open spec fn word_start(text: Seq<char>, p: int) -> int {
    run_start(text, space_start(text, p))
}

/// Where white space that begins at `p` ends.
pub open spec fn space_end(text: Seq<char>, p: int) -> int
    decreases text.len() - p,
{
    if 0 <= p < text.len() && is_whitespace_char(text[p]) {
        space_end(text, p + 1)
    } else {
        p
    }
}

/// Where a run without white space that begins at `p` ends.
pub open spec fn run_end(text: Seq<char>, p: int) -> int
    decreases text.len() - p,
{
    if 0 <= p < text.len() && !is_whitespace_char(text[p]) {
        run_end(text, p + 1)
    } else {
        p
    }
}

/// Where the word after `p` ends: before it there may be white space from
/// `p` on.
pub open spec fn word_end(text: Seq<char>, p: int) -> int {
    run_end(text, space_end(text, p))
}

/// The value as it is shown: filled with spaces up to `min_width` columns.
pub open spec fn padded(value: Seq<char>, min_width: nat) -> Seq<char> {
    if columns(value) < min_width {
        value + repeated(' ', (min_width - columns(value)) as nat)
    } else {
        value
    }
}

proof fn lemma_starts_in_range(text: Seq<char>, p: int)
    requires
        0 <= p <= text.len(),
    ensures
        0 <= space_start(text, p) <= p,
        0 <= run_start(text, p) <= p,
        p <= space_end(text, p) <= text.len(),
        p <= run_end(text, p) <= text.len(),
    decreases p, text.len() - p,
{
    if 0 < p && is_whitespace_char(text[p - 1]) {
        lemma_starts_in_range(text, p - 1);
    }
    if 0 < p && !is_whitespace_char(text[p - 1]) {
        lemma_starts_in_range(text, p - 1);
    }
    if p < text.len() && is_whitespace_char(text[p]) {
        lemma_ends_in_range(text, p + 1);
    }
    if p < text.len() && !is_whitespace_char(text[p]) {
        lemma_ends_in_range(text, p + 1);
    }
}

proof fn lemma_ends_in_range(text: Seq<char>, p: int)
    requires
        0 <= p <= text.len(),
    ensures
        p <= space_end(text, p) <= text.len(),
        p <= run_end(text, p) <= text.len(),
    decreases text.len() - p,
{
    if p < text.len() && is_whitespace_char(text[p]) {
        lemma_ends_in_range(text, p + 1);
    }
    if p < text.len() && !is_whitespace_char(text[p]) {
        lemma_ends_in_range(text, p + 1);
    }
}

/// The word before a place begins at or before it, the word after it ends
/// at or behind it.
pub proof fn lemma_word_bounds(text: Seq<char>, p: int)
    requires
        0 <= p <= text.len(),
    ensures
        0 <= word_start(text, p) <= p,
        p <= word_end(text, p) <= text.len(),
{
    lemma_starts_in_range(text, p);
    lemma_starts_in_range(text, space_start(text, p));
    lemma_ends_in_range(text, p);
    lemma_ends_in_range(text, space_end(text, p));
}

/// The place where the word before `p` begins.
fn find_word_start(chars: &Vec<char>, p: usize) -> (r: usize)
    requires
        p <= chars.len(),
    ensures
        r == word_start(chars@, p as int),
        r <= p,
{
    proof {
        lemma_word_bounds(chars@, p as int);
    }
    let mut j: usize = p;
    while j > 0 && chars[j - 1].is_whitespace()
        invariant
            j <= p <= chars.len(),
            space_start(chars@, j as int) == space_start(chars@, p as int),
        decreases j,
    {
        j -= 1;
    }
    while j > 0 && !chars[j - 1].is_whitespace()
        invariant
            j <= p <= chars.len(),
            run_start(chars@, j as int) == word_start(chars@, p as int),
        decreases j,
    {
        j -= 1;
    }
    j
}

/// The place where the word after `p` ends.
fn find_word_end(chars: &Vec<char>, p: usize) -> (r: usize)
    requires
        p <= chars.len(),
    ensures
        r == word_end(chars@, p as int),
        p <= r <= chars.len(),
{
    proof {
        lemma_word_bounds(chars@, p as int);
    }
    let mut j: usize = p;
    while j < chars.len() && chars[j].is_whitespace()
        invariant
            p <= j <= chars.len(),
            space_end(chars@, j as int) == space_end(chars@, p as int),
        decreases chars.len() - j,
    {
        j += 1;
    }
    while j < chars.len() && !chars[j].is_whitespace()
        invariant
            p <= j <= chars.len(),
            run_end(chars@, j as int) == word_end(chars@, p as int),
        decreases chars.len() - j,
    {
        j += 1;
    }
    j
}

/// The text of `chars` without the characters from `from` up to `to`.
fn cut_string(chars: &Vec<char>, from: usize, to: usize) -> (s: String)
    requires
        from <= to <= chars.len(),
    ensures
        s@ == cut(chars@, from as int, to as int),
{
    let mut s = from_chars(chars, 0, from);
    let tail = from_chars(chars, to, chars.len());
    s.append(tail.as_str());
    assert(s@ =~= cut(chars@, from as int, to as int));
    s
}

/// The state of a text input: identity and label, the value with the
/// cursor as a character index into it, the validators, the error slot and
/// the least width.
#[derive(Debug)]
pub struct InputNode {
    pub id: String,
    pub label: String,
    pub value: String,
    pub cursor_pos: usize,
    pub validators: Vec<Validator>,
    pub error: Option<String>,
    pub min_width: usize,
}

impl InputNode {
    /// The invariant of the cursor: it stands within the value.
    pub open spec fn well_formed(&self) -> bool {
        self.cursor_pos <= self.value@.len()
    }

    /// The cursor, held within the value.
    pub open spec fn cursor(&self) -> int {
        clamped(self.cursor_pos as int, self.value@.len() as int)
    }

    /// Whether `other` differs from this input in value and cursor at most.
    pub open spec fn same_but_text(&self, other: &InputNode) -> bool {
        &&& other.id == self.id
        &&& other.label == self.label
        &&& other.validators == self.validators
        &&& other.error == self.error
        &&& other.min_width == self.min_width
    }

    /// An empty input, ten columns wide.
    pub fn new(id: &str, label: &str) -> (r: Self)
        ensures
            r.id@ == id@,
            r.label@ == label@,
            r.value@ == Seq::<char>::empty(),
            r.cursor_pos == 0,
            r.validators@ == Seq::<Validator>::empty(),
            r.error is None,
            r.min_width == 10,
            r.well_formed(),
    {
        InputNode {
            id: String::from_str(id),
            label: String::from_str(label),
            value: String::new(),
            cursor_pos: 0,
            validators: Vec::new(),
            error: None,
            min_width: 10,
        }
    }

    /// Runs the validators on the value: the message of the first that
    /// fails, or success.
    pub fn validate(&self) -> (r: Result<(), String>)
        ensures
            outcome_text(r) == first_failure(self.validators@, self.value@),
    {
        run_chain(&self.validators, self.value.as_str())
    }

    /// Puts the text in at the cursor, and the cursor behind it.
    pub fn insert_text(&mut self, text: &str)
        ensures
            final(self).value@ == inserted(old(self).value@, old(self).cursor(), text@),
            final(self).cursor_pos == old(self).cursor() + text@.len(),
            final(self).well_formed(),
            old(self).same_but_text(final(self)),
    {
        let chars = to_chars(self.value.as_str());
        let pos: usize = if self.cursor_pos < chars.len() {
            self.cursor_pos
        } else {
            chars.len()
        };
        let mut value = from_chars(&chars, 0, pos);
        value.append(text);
        let tail = from_chars(&chars, pos, chars.len());
        value.append(tail.as_str());
        assert(value@ =~= inserted(chars@, pos as int, text@));
        let total = value.as_str().unicode_len();
        let added = text.unicode_len();
        self.value = value;
        self.cursor_pos = pos + added;
    }

    /// Deletes the character before the cursor. Answers whether it did.
    pub fn delete_char(&mut self) -> (r: bool)
        ensures
            r == (old(self).cursor_pos > 0 && old(self).value@.len() > 0),
            r ==> final(self).value@ == cut(
                old(self).value@,
                old(self).cursor() - 1,
                old(self).cursor(),
            ) && final(self).cursor_pos == old(self).cursor() - 1,
            !r ==> *final(self) == *old(self),
            old(self).well_formed() ==> final(self).well_formed(),
            old(self).same_but_text(final(self)),
    {
        if self.cursor_pos == 0 {
            return false;
        }
        let chars = to_chars(self.value.as_str());
        let pos: usize = if self.cursor_pos < chars.len() {
            self.cursor_pos
        } else {
            chars.len()
        };
        if pos > 0 {
            self.value = cut_string(&chars, pos - 1, pos);
            self.cursor_pos = pos - 1;
            true
        } else {
            false
        }
    }

    /// Deletes the character at the cursor. Answers whether it did.
    pub fn delete_char_forward(&mut self) -> (r: bool)
        ensures
            r == (old(self).cursor_pos < old(self).value@.len()),
            r ==> final(self).value@ == cut(
                old(self).value@,
                old(self).cursor(),
                old(self).cursor() + 1,
            ) && final(self).cursor_pos == old(self).cursor_pos,
            !r ==> *final(self) == *old(self),
            old(self).well_formed() ==> final(self).well_formed(),
            old(self).same_but_text(final(self)),
    {
        let chars = to_chars(self.value.as_str());
        if self.cursor_pos < chars.len() {
            self.value = cut_string(&chars, self.cursor_pos, self.cursor_pos + 1);
            true
        } else {
            false
        }
    }

    /// Deletes the word before the cursor: the white space that ends at the
    /// cursor, then the run without white space before it. Answers whether
    /// the cursor stood behind the start.
    pub fn delete_word(&mut self) -> (r: bool)
        ensures
            r == (old(self).cursor_pos > 0),
            r ==> final(self).value@ == cut(
                old(self).value@,
                word_start(old(self).value@, old(self).cursor()),
                old(self).cursor(),
            ) && final(self).cursor_pos == word_start(old(self).value@, old(self).cursor()),
            !r ==> *final(self) == *old(self),
            r ==> final(self).well_formed(),
            old(self).same_but_text(final(self)),
    {
        if self.cursor_pos == 0 {
            return false;
        }
        let chars = to_chars(self.value.as_str());
        let pos: usize = if self.cursor_pos < chars.len() {
            self.cursor_pos
        } else {
            chars.len()
        };
        let start = find_word_start(&chars, pos);
        self.value = cut_string(&chars, start, pos);
        self.cursor_pos = start;
        true
    }

    /// Deletes the word after the cursor: the white space that begins at the
    /// cursor, then the run without white space behind it. Answers whether
    /// anything was deleted.
    pub fn delete_word_forward(&mut self) -> (r: bool)
        ensures
            r == (word_end(old(self).value@, old(self).cursor()) > old(self).cursor()),
            final(self).value@ == cut(
                old(self).value@,
                old(self).cursor(),
                word_end(old(self).value@, old(self).cursor()),
            ),
            final(self).cursor_pos == old(self).cursor(),
            final(self).well_formed(),
            old(self).same_but_text(final(self)),
    {
        let chars = to_chars(self.value.as_str());
        let pos: usize = if self.cursor_pos < chars.len() {
            self.cursor_pos
        } else {
            chars.len()
        };
        let end = find_word_end(&chars, pos);
        self.value = cut_string(&chars, pos, end);
        self.cursor_pos = pos;
        end > pos
    }

    /// Moves the cursor one character to the left. Answers whether it moved.
    pub fn move_cursor_left(&mut self) -> (r: bool)
        ensures
            r == (old(self).cursor() > 0),
            final(self).cursor_pos == if r {
                old(self).cursor() - 1
            } else {
                old(self).cursor()
            },
            final(self).value == old(self).value,
            final(self).well_formed(),
            old(self).same_but_text(final(self)),
    {
        let len = self.value.as_str().unicode_len();
        let pos: usize = if self.cursor_pos < len {
            self.cursor_pos
        } else {
            len
        };
        if pos > 0 {
            self.cursor_pos = pos - 1;
            true
        } else {
            self.cursor_pos = pos;
            false
        }
    }

    /// Moves the cursor one character to the right. Answers whether it
    /// moved.
    pub fn move_cursor_right(&mut self) -> (r: bool)
        ensures
            r == (old(self).cursor_pos < old(self).value@.len()),
            final(self).cursor_pos == if r {
                old(self).cursor() + 1
            } else {
                old(self).cursor()
            },
            final(self).value == old(self).value,
            final(self).well_formed(),
            old(self).same_but_text(final(self)),
    {
        let len = self.value.as_str().unicode_len();
        if self.cursor_pos < len {
            self.cursor_pos = self.cursor_pos + 1;
            true
        } else {
            self.cursor_pos = len;
            false
        }
    }

    /// Moves the cursor to the start. Answers whether it moved.
    pub fn move_cursor_home(&mut self) -> (r: bool)
        ensures
            r == (old(self).cursor_pos > 0),
            final(self).cursor_pos == 0,
            final(self).value == old(self).value,
            final(self).well_formed(),
            old(self).same_but_text(final(self)),
    {
        if self.cursor_pos > 0 {
            self.cursor_pos = 0;
            true
        } else {
            false
        }
    }

    /// Moves the cursor to the end. Answers whether it moved.
    pub fn move_cursor_end(&mut self) -> (r: bool)
        ensures
            r == (old(self).cursor_pos < old(self).value@.len()),
            final(self).cursor_pos == old(self).value@.len(),
            final(self).value == old(self).value,
            final(self).well_formed(),
            old(self).same_but_text(final(self)),
    {
        let len = self.value.as_str().unicode_len();
        let moved = self.cursor_pos < len;
        self.cursor_pos = len;
        moved
    }

    /// Empties the value.
    pub fn clear(&mut self)
        ensures
            final(self).value@ == Seq::<char>::empty(),
            final(self).cursor_pos == 0,
            final(self).well_formed(),
            old(self).same_but_text(final(self)),
    {
        self.value = String::new();
        self.cursor_pos = 0;
    }

    /// The value as it is shown: filled with spaces up to the least width.
    pub fn display_value(&self) -> (s: String)
        ensures
            s@ == padded(self.value@, self.min_width as nat),
    {
        let width = str_width(self.value.as_str());
        let mut s = self.value.clone();
        if width < self.min_width {
            let fill = repeat(' ', self.min_width - width);
            s.append(fill.as_str());
        }
        s
    }

    /// How many columns the text before the cursor takes.
    pub fn cursor_offset(&self) -> (w: usize)
        ensures
            w == columns(self.value@.take(self.cursor())),
    {
        let chars = to_chars(self.value.as_str());
        let pos: usize = if self.cursor_pos < chars.len() {
            self.cursor_pos
        } else {
            chars.len()
        };
        let before = from_chars(&chars, 0, pos);
        str_width(before.as_str())
    }
}

/// A text input as a node of a screen.
#[derive(Debug)]
pub struct TextInputNode {
    pub input: InputNode,
}

/// What a text input answers to a key: a character without Control is
/// typed, Backspace and Delete delete, the arrows, Home and End move, Enter
/// submits; any other key is not handled.
pub open spec fn text_key_result(code: KeyCode, modifiers: KeyModifiers) -> KeyResult {
    match code {
        KeyCode::Char(_) => if modifiers.control {
            KeyResult::NotHandled
        } else {
            KeyResult::Handled
        },
        KeyCode::Backspace | KeyCode::Delete | KeyCode::Left | KeyCode::Right | KeyCode::Home
        | KeyCode::End => KeyResult::Handled,
        KeyCode::Enter => KeyResult::Submit,
        _ => KeyResult::NotHandled,
    }
}

/// The value of a text input after a key.
pub open spec fn text_after_key(
    value: Seq<char>,
    cursor: int,
    code: KeyCode,
    modifiers: KeyModifiers,
) -> Seq<char> {
    match code {
        KeyCode::Char(c) => if modifiers.control {
            value
        } else {
            inserted(value, cursor, seq![c])
        },
        KeyCode::Backspace => if cursor > 0 {
            cut(value, cursor - 1, cursor)
        } else {
            value
        },
        KeyCode::Delete => if cursor < value.len() {
            cut(value, cursor, cursor + 1)
        } else {
            value
        },
        _ => value,
    }
}

/// The cursor of a text input after a key.
pub open spec fn cursor_after_key(
    value: Seq<char>,
    cursor: int,
    code: KeyCode,
    modifiers: KeyModifiers,
) -> int {
    match code {
        KeyCode::Char(c) => if modifiers.control {
            cursor
        } else {
            cursor + 1
        },
        KeyCode::Backspace | KeyCode::Left => if cursor > 0 {
            cursor - 1
        } else {
            cursor
        },
        KeyCode::Right => if cursor < value.len() {
            cursor + 1
        } else {
            cursor
        },
        KeyCode::Home => 0,
        KeyCode::End => value.len() as int,
        _ => cursor,
    }
}

/// The single-line text input widget.
#[derive(Debug)]
pub struct TextInput {
    pub node: InputNode,
    pub focused: bool,
    pub opts: Options,
}

impl TextInput {
    /// Whether `other` differs from this input in value and cursor at most.
    pub open spec fn same_but_text(&self, other: &TextInput) -> bool {
        &&& self.node.same_but_text(&other.node)
        &&& other.focused == self.focused
        &&& other.opts == self.opts
    }

    /// An empty, unfocused input, one column wide.
    pub fn new(id: &str, label: &str) -> (r: Self)
        ensures
            r.node.id@ == id@,
            r.node.label@ == label@,
            r.node.value@ == Seq::<char>::empty(),
            r.node.cursor_pos == 0,
            r.node.validators@ == Seq::<Validator>::empty(),
            r.node.error is None,
            r.node.min_width == 1,
            !r.focused,
            r.opts == Options::plain(),
    {
        let mut node = InputNode::new(id, label);
        node.min_width = 1;
        TextInput { node, focused: false, opts: Options::new() }
    }

    /// Sets the least width of the content.
    pub fn with_min_width(self, width: usize) -> (r: Self)
        ensures
            r.node == (InputNode { min_width: width, ..self.node }),
            r.focused == self.focused,
            r.opts == self.opts,
    {
        let mut node = self.node;
        node.min_width = width;
        TextInput { node, focused: self.focused, opts: self.opts }
    }

    /// Adds a validator behind those already there.
    pub fn with_validator(self, validator: Validator) -> (r: Self)
        ensures
            r.node.validators@ == self.node.validators@.push(validator),
            r.node.id == self.node.id,
            r.node.label == self.node.label,
            r.node.value == self.node.value,
            r.node.cursor_pos == self.node.cursor_pos,
            r.node.error == self.node.error,
            r.node.min_width == self.node.min_width,
            r.focused == self.focused,
            r.opts == self.opts,
    {
        let mut node = self.node;
        node.validators.push(validator);
        TextInput { node, focused: self.focused, opts: self.opts }
    }

    /// The identity of the input.
    pub fn id(&self) -> (r: &str)
        ensures
            r@ == self.node.id@,
    {
        self.node.id.as_str()
    }

    /// The label of the input.
    pub fn label(&self) -> (r: &str)
        ensures
            r@ == self.node.label@,
    {
        self.node.label.as_str()
    }

    /// The value of the input.
    pub fn value(&self) -> (r: String)
        ensures
            r@ == self.node.value@,
    {
        self.node.value.clone()
    }

    /// Replaces the value and puts the cursor behind it.
    pub fn set_value(&mut self, value: String)
        ensures
            final(self).node.value == value,
            final(self).node.cursor_pos == value@.len(),
            old(self).same_but_text(final(self)),
    {
        let len = value.as_str().unicode_len();
        self.node.value = value;
        self.node.cursor_pos = len;
    }

    /// Whether the input has the focus.
    pub fn is_focused(&self) -> (r: bool)
        ensures
            r == self.focused,
    {
        self.focused
    }

    /// Sets the focus flag.
    pub fn set_focused(&mut self, focused: bool)
        ensures
            *final(self) == (TextInput { focused, ..*old(self) }),
    {
        self.focused = focused;
    }

    /// The message in the error slot.
    pub fn error(&self) -> (r: Option<&str>)
        ensures
            r is Some == self.node.error is Some,
            r matches Some(m) ==> m@ == self.node.error->0@,
    {
        match &self.node.error {
            Some(message) => Some(message.as_str()),
            None => None,
        }
    }

    /// Sets the error slot.
    pub fn set_error(&mut self, error: Option<String>)
        ensures
            final(self).node == (InputNode { error, ..old(self).node }),
            final(self).focused == old(self).focused,
            final(self).opts == old(self).opts,
    {
        self.node.error = error;
    }

    /// The cursor as a character index into the value.
    pub fn cursor_pos(&self) -> (r: usize)
        ensures
            r == self.node.cursor_pos,
    {
        self.node.cursor_pos
    }

    /// The least width of the content.
    pub fn min_width(&self) -> (r: usize)
        ensures
            r == self.node.min_width,
    {
        self.node.min_width
    }

    /// The validators, in order.
    pub fn validators(&self) -> (r: &[Validator])
        ensures
            r@ == self.node.validators@,
    {
        self.node.validators.as_slice()
    }

    /// Runs the validators on the value: the message of the first that
    /// fails, or success.
    pub fn validate(&self) -> (r: Result<(), String>)
        ensures
            outcome_text(r) == first_failure(self.node.validators@, self.node.value@),
    {
        self.node.validate()
    }

    /// Deletes the word before the cursor.
    pub fn delete_word(&mut self)
        ensures
            final(self).node.value@ == cut(
                old(self).node.value@,
                word_start(old(self).node.value@, old(self).node.cursor()),
                old(self).node.cursor(),
            ),
            final(self).node.cursor_pos == word_start(
                old(self).node.value@,
                old(self).node.cursor(),
            ),
            old(self).same_but_text(final(self)),
    {
        proof {
            lemma_word_bounds(self.node.value@, self.node.cursor());
        }
        let ghost before = self.node.value@;
        let deleted = self.node.delete_word();
        proof {
            if !deleted {
                assert(cut(before, 0, 0) =~= before);
            }
        }
    }

    /// Deletes the word after the cursor.
    pub fn delete_word_forward(&mut self)
        ensures
            final(self).node.value@ == cut(
                old(self).node.value@,
                old(self).node.cursor(),
                word_end(old(self).node.value@, old(self).node.cursor()),
            ),
            final(self).node.cursor_pos == old(self).node.cursor(),
            old(self).same_but_text(final(self)),
    {
        self.node.delete_word_forward();
    }

    /// Applies a key to the input.
    pub fn handle_key(&mut self, code: KeyCode, modifiers: KeyModifiers) -> (r: KeyResult)
        ensures
            r == text_key_result(code, modifiers),
            final(self).node.value@ == text_after_key(
                old(self).node.value@,
                old(self).node.cursor(),
                code,
                modifiers,
            ),
            r != KeyResult::NotHandled && r != KeyResult::Submit ==> final(self).node.cursor_pos
                == cursor_after_key(
                old(self).node.value@,
                old(self).node.cursor(),
                code,
                modifiers,
            ),
            r == KeyResult::NotHandled || r == KeyResult::Submit ==> *final(self) == *old(self),
            old(self).same_but_text(final(self)),
    {
        let ghost value = self.node.value@;
        let ghost cursor = self.node.cursor();
        match code {
            KeyCode::Char(c) => {
                if modifiers.control {
                    KeyResult::NotHandled
                } else {
                    let mut text = String::new();
                    text.push(c);
                    assert(text@ =~= seq![c]);
                    self.node.insert_text(text.as_str());
                    KeyResult::Handled
                }
            },
            KeyCode::Backspace => {
                let len = self.node.value.as_str().unicode_len();
                if self.node.cursor_pos > len {
                    self.node.cursor_pos = len;
                }
                self.node.delete_char();
                KeyResult::Handled
            },
            KeyCode::Delete => {
                let len = self.node.value.as_str().unicode_len();
                if self.node.cursor_pos > len {
                    self.node.cursor_pos = len;
                }
                self.node.delete_char_forward();
                KeyResult::Handled
            },
            KeyCode::Left => {
                self.node.move_cursor_left();
                KeyResult::Handled
            },
            KeyCode::Right => {
                self.node.move_cursor_right();
                KeyResult::Handled
            },
            KeyCode::Home => {
                self.node.move_cursor_home();
                KeyResult::Handled
            },
            KeyCode::End => {
                self.node.move_cursor_end();
                KeyResult::Handled
            },
            KeyCode::Enter => KeyResult::Submit,
            _ => KeyResult::NotHandled,
        }
    }

    /// The content of the input as spans: the value, filled with spaces up
    /// to the least width, in the style and with the wrap policy of the
    /// options.
    pub fn render_content(&self) -> (r: Vec<Span>)
        ensures
            r@.len() == 1,
            r@[0]@ == (SpanView {
                text: padded(self.node.value@, self.node.min_width as nat),
                style: self.opts.style_view(),
                wrap: self.opts.wrap,
            }),
    {
        let text = self.node.display_value();
        let span = Span::new(text.as_str()).with_style(self.opts.to_style()).with_wrap(
            self.opts.wrap,
        );
        let mut spans: Vec<Span> = Vec::new();
        spans.push(span);
        spans
    }

    /// How many columns into the content the cursor stands: the width of
    /// the text before it.
    pub fn cursor_offset_in_content(&self) -> (w: usize)
        ensures
            w == columns(self.node.value@.take(self.node.cursor())),
    {
        self.node.cursor_offset()
    }
}

/// Builds a text input step by step.
#[derive(Debug)]
pub struct TextInputBuilder {
    input: InputNode,
    opts: Options,
}

impl TextInputBuilder {
    /// The input that is being built.
    pub closed spec fn spec_input(&self) -> InputNode {
        self.input
    }

    /// The display options that are being built.
    pub closed spec fn spec_opts(&self) -> Options {
        self.opts
    }

    /// Whether `other` has the same input as this builder.
    pub open spec fn same_input(&self, other: &TextInputBuilder) -> bool {
        other.spec_input() == self.spec_input()
    }

    /// A builder for a text input.
    pub fn new(id: String, label: String) -> (r: Self)
        ensures
            r.spec_input().id@ == id@,
            r.spec_input().label@ == label@,
            r.spec_input().value@ == Seq::<char>::empty(),
            r.spec_input().cursor_pos == 0,
            r.spec_input().validators@ == Seq::<Validator>::empty(),
            r.spec_input().error is None,
            r.spec_input().min_width == 10,
            r.spec_opts() == Options::plain(),
    {
        TextInputBuilder { input: InputNode::new(id.as_str(), label.as_str()), opts: Options::new() }
    }

    /// Adds the rule that the value must not be blank.
    pub fn required(self) -> (r: Self)
        ensures
            r.spec_input().validators@ == self.spec_input().validators@.push(Validator::Required),
            self.spec_input().same_but_validators(&r.spec_input()),
            r.spec_opts() == self.spec_opts(),
    {
        self.validator(Validator::Required)
    }

    /// Adds the rule that the value has at least `len` characters.
    pub fn min_length(self, len: usize) -> (r: Self)
        ensures
            r.spec_input().validators@ == self.spec_input().validators@.push(
                Validator::MinLength(len),
            ),
            self.spec_input().same_but_validators(&r.spec_input()),
            r.spec_opts() == self.spec_opts(),
    {
        self.validator(Validator::MinLength(len))
    }

    /// Adds the rule that the value has at most `len` characters.
    pub fn max_length(self, len: usize) -> (r: Self)
        ensures
            r.spec_input().validators@ == self.spec_input().validators@.push(
                Validator::MaxLength(len),
            ),
            self.spec_input().same_but_validators(&r.spec_input()),
            r.spec_opts() == self.spec_opts(),
    {
        self.validator(Validator::MaxLength(len))
    }

    /// Sets the least width of the content.
    pub fn min_width(self, width: usize) -> (r: Self)
        ensures
            r.spec_input() == (InputNode { min_width: width, ..self.spec_input() }),
            r.spec_opts() == self.spec_opts(),
    {
        let mut input = self.input;
        input.min_width = width;
        TextInputBuilder { input, opts: self.opts }
    }

    /// Adds a validator behind those already there.
    pub fn validator(self, validator: Validator) -> (r: Self)
        ensures
            r.spec_input().validators@ == self.spec_input().validators@.push(validator),
            self.spec_input().same_but_validators(&r.spec_input()),
            r.spec_opts() == self.spec_opts(),
    {
        let mut input = self.input;
        input.validators.push(validator);
        TextInputBuilder { input, opts: self.opts }
    }

    /// Sets the display hint.
    pub fn with_display(self, display: Display) -> (r: Self)
        ensures
            r.spec_opts() == (Options { display, ..self.spec_opts() }),
            self.same_input(&r),
    {
        let mut opts = self.opts;
        opts.display = display;
        TextInputBuilder { input: self.input, opts }
    }

    /// Sets the wrap policy.
    pub fn with_wrap(self, wrap: Wrap) -> (r: Self)
        ensures
            r.spec_opts() == (Options { wrap, ..self.spec_opts() }),
            self.same_input(&r),
    {
        let mut opts = self.opts;
        opts.wrap = wrap;
        TextInputBuilder { input: self.input, opts }
    }

    /// Sets the colour of the text.
    pub fn with_color(self, color: crate::style::Color) -> (r: Self)
        ensures
            r.spec_opts() == (Options { color: Some(color), ..self.spec_opts() }),
            self.same_input(&r),
    {
        let mut opts = self.opts;
        opts.color = Some(color);
        TextInputBuilder { input: self.input, opts }
    }

    /// Sets the colour of the background.
    pub fn with_background(self, bg: crate::style::Color) -> (r: Self)
        ensures
            r.spec_opts() == (Options { background: Some(bg), ..self.spec_opts() }),
            self.same_input(&r),
    {
        let mut opts = self.opts;
        opts.background = Some(bg);
        TextInputBuilder { input: self.input, opts }
    }

    /// Asks for bold text.
    pub fn bold(self) -> (r: Self)
        ensures
            r.spec_opts() == (Options { bold: true, ..self.spec_opts() }),
            self.same_input(&r),
    {
        let mut opts = self.opts;
        opts.bold = true;
        TextInputBuilder { input: self.input, opts }
    }

    /// Asks for italic text.
    pub fn italic(self) -> (r: Self)
        ensures
            r.spec_opts() == (Options { italic: true, ..self.spec_opts() }),
            self.same_input(&r),
    {
        let mut opts = self.opts;
        opts.italic = true;
        TextInputBuilder { input: self.input, opts }
    }

    /// Asks for underlined text.
    pub fn underline(self) -> (r: Self)
        ensures
            r.spec_opts() == (Options { underline: true, ..self.spec_opts() }),
            self.same_input(&r),
    {
        let mut opts = self.opts;
        opts.underline = true;
        TextInputBuilder { input: self.input, opts }
    }

    /// The text input that was built, unfocused.
    pub fn build(self) -> (r: TextInput)
        ensures
            r.node == self.spec_input(),
            r.opts == self.spec_opts(),
            !r.focused,
    {
        TextInput { node: self.input, focused: false, opts: self.opts }
    }
}

impl InputNode {
    /// Whether `other` differs from this input in its validators at most.
    pub open spec fn same_but_validators(&self, other: &InputNode) -> bool {
        &&& other.id == self.id
        &&& other.label == self.label
        &&& other.value == self.value
        &&& other.cursor_pos == self.cursor_pos
        &&& other.error == self.error
        &&& other.min_width == self.min_width
    }
}

} // verus!
