//! Which texts are handed to `url` as a URL.
//!
//! `url` gives the host of a URL to `idna`, which writes labels that are not ASCII in
//! Punycode. The encoder there counts in 32 bits and at one step adds without a test, so a
//! long label with a high code point in it makes it overflow, and with overflow checks on it
//! panics. The client therefore looks at a text before `url` sees it, and hands on only
//! what cannot come near that:
//!
//! - a tame text, which gives the encoder nothing to do: ASCII all through, with no `%`
//!   that could stand for other bytes, no tab or line break that `url` would take out, and
//!   no `xn--`, the mark of a label that is already in Punycode; or
//! - a light text, too short to overflow anything. A label of `n` characters with code
//!   points below `0x110000` keeps the encoder's counter below `n * 0x110001`, so 3,855
//!   characters are safe. A character that is not ASCII, or one that a `%` stands for, is
//!   mapped by `idna` to at most 33 characters, and normalizing makes at most three of one,
//!   so each such character counts as 99.

use vstd::prelude::*;
use vstd::string::StrSliceExecFns;
use crate::url_text::chars_of;

verus! {

/// The longest text, in characters, that is handed to `url` as a URL or as a segment.
/// `url` holds positions in a serialization as 32-bit numbers, and panics in `push` where
/// one does not fit. A tame URL takes at most three bytes a character there (a character
/// that is percent-encoded), a light one is short, and a segment takes at most twelve (four
/// in UTF-8, each written as three). Fifteen times this bound is less than half of what 32
/// bits can count.
pub const MAX_TEXT_LEN: usize = 134_217_728;

/// The most that a light text may weigh.
pub const MAX_LIGHT_WEIGHT: usize = 3855;

/// What a heavy character counts for.
pub const HEAVY_WEIGHT: usize = 99;

/// True of the characters that may reach the encoder as more than one: those that are not
/// ASCII, and `%`, which may stand for one.
pub open spec fn is_heavy(c: char) -> bool {
    c > '\u{7f}' || c == '%'
}

/// How many heavy characters `text` holds.
pub open spec fn heavy_count(text: Seq<char>) -> nat
    decreases text.len(),
{
    if text.len() == 0 {
        0
    } else {
        heavy_count(text.drop_last()) + if is_heavy(text.last()) {
            1nat
        } else {
            0nat
        }
    }
}

/// A text that is too short to overflow the encoder, each heavy character counted in full.
pub open spec fn is_light(text: Seq<char>) -> bool {
    text.len() + (HEAVY_WEIGHT - 1) * heavy_count(text) <= MAX_LIGHT_WEIGHT
}

/// True of the characters that a tame text is made of: ASCII, and none of `%`, tab, line
/// feed and carriage return.
pub open spec fn is_mild(c: char) -> bool {
    c <= '\u{7f}' && c != '%' && c != '\t' && c != '\n' && c != '\r'
}

/// `xn--` stands in `text` at `i`, in small or capital letters.
pub open spec fn opens_punycode(text: Seq<char>, i: int) -> bool {
    &&& 0 <= i
    &&& i + 4 <= text.len()
    &&& (text[i] == 'x' || text[i] == 'X')
    &&& (text[i + 1] == 'n' || text[i + 1] == 'N')
    &&& text[i + 2] == '-'
    &&& text[i + 3] == '-'
}

/// A text that gives the encoder nothing to do.
pub open spec fn is_tame(text: Seq<char>) -> bool {
    &&& forall|i: int| 0 <= i < text.len() ==> is_mild(#[trigger] text[i])
    &&& forall|i: int| !opens_punycode(text, i)
}

/// The texts that are handed to `url` as a URL.
pub open spec fn is_admitted(text: Seq<char>) -> bool {
    &&& text.len() <= MAX_TEXT_LEN
    &&& (is_tame(text) || is_light(text))
}

/// A text has no more heavy characters than characters.
pub proof fn lemma_heavy_count_bound(text: Seq<char>)
    ensures
        heavy_count(text) <= text.len(),
    decreases text.len(),
{
    if text.len() > 0 {
        lemma_heavy_count_bound(text.drop_last());
    }
}

/// Decides whether `text` is tame.
#[verifier::loop_isolation(false)]
fn is_tame_text(text: &Vec<char>) -> (r: bool)
    ensures
        r == is_tame(text@),
{
    let n = text.len();
    let mut i: usize = 0;
    while i < n
        invariant
            i <= n,
            forall|j: int| 0 <= j < i ==> is_mild(#[trigger] text@[j]),
            forall|j: int| j + 4 <= i ==> !opens_punycode(text@, j),
        decreases n - i,
    {
        let c = text[i];
        if c > '\u{7f}' || c == '%' || c == '\t' || c == '\n' || c == '\r' {
            assert(!is_mild(text@[i as int]));
            return false;
        }
        if c == '-' && i >= 3 && text[i - 1] == '-' && (text[i - 2] == 'n' || text[i - 2] == 'N')
            && (text[i - 3] == 'x' || text[i - 3] == 'X') {
            assert(opens_punycode(text@, i - 3));
            return false;
        }
        i += 1;
    }
    true
}

/// Decides whether `text` is light.
#[verifier::loop_isolation(false)]
fn is_light_text(text: &Vec<char>) -> (r: bool)
    ensures
        r == is_light(text@),
{
    let n = text.len();
    if n > MAX_LIGHT_WEIGHT {
        return false;
    }
    let mut heavy: usize = 0;
    let mut i: usize = 0;
    while i < n
        invariant
            i <= n,
            heavy <= i,
            heavy == heavy_count(text@.take(i as int)),
        decreases n - i,
    {
        assert(text@.take(i + 1).drop_last() =~= text@.take(i as int));
        if text[i] > '\u{7f}' || text[i] == '%' {
            heavy += 1;
        }
        i += 1;
    }
    assert(text@.take(n as int) =~= text@);
    n + (HEAVY_WEIGHT - 1) * heavy <= MAX_LIGHT_WEIGHT
}

/// Decides whether `text` is handed to `url` as a URL.
pub fn is_admitted_text(text: &str) -> (r: bool)
    ensures
        r == is_admitted(text@),
{
    if text.unicode_len() > MAX_TEXT_LEN {
        return false;
    }
    let t = chars_of(text);
    is_tame_text(&t) || is_light_text(&t)
}

} // verus!
