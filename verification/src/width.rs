//! Display widths: how many terminal columns a character or a text takes.

use vstd::prelude::*;

verus! {

/// What `unicode_width::UnicodeWidthChar::width` returns for a character:
/// the number of terminal columns it occupies, or `None` for a control
/// character.
pub uninterp spec fn unicode_char_width(c: char) -> Option<nat>;

/// Calls `unicode_width::UnicodeWidthChar::width`. The result is the named
/// width of the character.
#[verifier::external_body]
fn lookup_char_width(c: char) -> (w: Option<usize>)
    ensures
        w matches Some(n) ==> unicode_char_width(c) == Some(n as nat),
        w is None ==> unicode_char_width(c) is None,
{
    unicode_width::UnicodeWidthChar::width(c)
}

/// The columns that one character takes; a control character takes none.
pub open spec fn char_width(c: char) -> nat {
    match unicode_char_width(c) {
        Some(n) => n,
        None => 0,
    }
}

/// The sum of the widths of the characters of `s`.
pub open spec fn text_width(s: Seq<char>) -> nat
    decreases s.len(),
{
    if s.len() == 0 {
        0
    } else {
        text_width(s.drop_last()) + char_width(s.last())
    }
}

/// The width of `s` as a machine integer: the sum of the character widths,
/// held at `usize::MAX` where the sum is larger.
pub open spec fn columns(s: Seq<char>) -> nat {
    if text_width(s) <= usize::MAX {
        text_width(s)
    } else {
        usize::MAX as nat
    }
}

/// The width of a concatenation is the sum of the widths.
pub proof fn lemma_width_concat(a: Seq<char>, b: Seq<char>)
    ensures
        text_width(a + b) == text_width(a) + text_width(b),
    decreases b.len(),
{
    if b.len() == 0 {
        assert(a + b =~= a);
    } else {
        lemma_width_concat(a, b.drop_last());
        assert((a + b).drop_last() =~= a + b.drop_last());
        assert((a + b).last() == b.last());
    }
}

/// A text is as wide as its first `k` characters and the rest together.
pub proof fn lemma_width_split(s: Seq<char>, k: int)
    requires
        0 <= k <= s.len(),
    ensures
        text_width(s) == text_width(s.take(k)) + text_width(s.skip(k)),
{
    lemma_width_concat(s.take(k), s.skip(k));
    assert(s.take(k) + s.skip(k) =~= s);
}

/// A longer prefix is at least as wide as a shorter one.
pub proof fn lemma_width_prefix_monotone(s: Seq<char>, i: int, j: int)
    requires
        0 <= i <= j <= s.len(),
    ensures
        text_width(s.take(i)) <= text_width(s.take(j)),
{
    lemma_width_split(s.take(j), i);
    assert(s.take(j).take(i) =~= s.take(i));
}

/// The width of one character more.
pub proof fn lemma_width_push(s: Seq<char>, c: char)
    ensures
        text_width(s.push(c)) == text_width(s) + char_width(c),
{
    assert(s.push(c).drop_last() =~= s);
}

/// The columns that one character takes.
pub fn char_columns(c: char) -> (w: usize)
    ensures
        w == char_width(c),
{
    match lookup_char_width(c) {
        Some(n) => n,
        None => 0,
    }
}

/// The columns that a text takes.
pub fn str_width(s: &str) -> (w: usize)
    ensures
        w == columns(s@),
{
    let mut w: usize = 0;
    let ghost mut exact: nat = 0;
    for c in it: s.chars()
        invariant
            it.seq() == s@,
            exact == text_width(it.seq().take(it.index() as int)),
            w == if exact <= usize::MAX { exact } else { usize::MAX as nat },
    {
        let cw = char_columns(c);
        proof {
            let before = it.seq().take(it.index() as int);
            assert(it.seq().take(it.index() + 1) =~= before.push(c));
            lemma_width_push(before, c);
            exact = exact + cw as nat;
        }
        w = if cw > usize::MAX - w { usize::MAX } else { w + cw };
    }
    assert(s@.take(s@.len() as int) =~= s@);
    w
}

} // verus!
