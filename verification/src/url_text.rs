//! The shape of a URL written as text, as far as the client relies on it.
//!
//! A URL's text is read here as a location (scheme, authority and path), followed by a
//! trailer (query and fragment) that starts at the first `?` or `#`. The predicates of this
//! module say where the location ends, with which path segment it ends, and when one text is
//! another with a single path segment more. The functions at the end decide them.

use vstd::prelude::*;

verus! {

/// True of the characters that end the path of a URL: `?` opens the query, `#` the fragment.
pub open spec fn ends_path(c: char) -> bool {
    c == '?' || c == '#'
}

/// The location of `text` ends at `k`: no `?` or `#` stands before `k`, and one stands at `k`
/// unless the text ends there.
pub open spec fn is_path_end(text: Seq<char>, k: int) -> bool {
    &&& 0 <= k <= text.len()
    &&& forall|i: int| 0 <= i < k ==> !ends_path(#[trigger] text[i])
    &&& k < text.len() ==> ends_path(text[k])
}

/// Where the location of `text` ends.
pub open spec fn path_end(text: Seq<char>) -> int {
    choose|k: int| is_path_end(text, k)
}

/// Scheme, authority and path of `text`: all that stands before its query or fragment.
pub open spec fn location(text: Seq<char>) -> Seq<char> {
    text.take(path_end(text))
}

/// Query and fragment of `text`, with the character that opens them; empty where it has none.
pub open spec fn trailer(text: Seq<char>) -> Seq<char> {
    text.skip(path_end(text))
}

/// A path segment as it stands in the text of a URL: free of `/`, `?` and `#`.
pub open spec fn is_segment(segment: Seq<char>) -> bool {
    forall|i: int| 0 <= i < segment.len() ==> segment[i] != '/' && !ends_path(#[trigger] segment[i])
}

/// True of the characters that stand in a path segment as they are: ASCII letters and
/// digits, `-`, `.`, `_` and `~`.
pub open spec fn is_unreserved(c: char) -> bool {
    ||| 'a' <= c <= 'z'
    ||| 'A' <= c <= 'Z'
    ||| '0' <= c <= '9'
    ||| c == '-'
    ||| c == '.'
    ||| c == '_'
    ||| c == '~'
}

/// A segment that needs no encoding: every character of it stands in a URL as it is.
pub open spec fn is_plain(segment: Seq<char>) -> bool {
    forall|i: int| 0 <= i < segment.len() ==> is_unreserved(#[trigger] segment[i])
}

/// The two segments that stand for a place in a path and hold nothing themselves: `.`, the
/// path as it is, and `..`, the path above. A URL never keeps them as segments.
pub open spec fn is_dot_segment(segment: Seq<char>) -> bool {
    segment =~= seq!['.'] || segment =~= seq!['.', '.']
}

/// Nothing but slashes.
pub open spec fn is_slashes(s: Seq<char>) -> bool {
    forall|i: int| 0 <= i < s.len() ==> #[trigger] s[i] == '/'
}

/// The path of `text` ends with the segment `segment`.
pub open spec fn path_ends_with(text: Seq<char>, segment: Seq<char>) -> bool {
    (seq!['/'] + segment).is_suffix_of(location(text))
}

/// `longer` is the first `kept` characters of `shorter`, a slash, the segment `segment`, and
/// the trailer of `shorter`. What is left out of `shorter` between `kept` and the end of its
/// path is slashes: empty segments that the path ended with.
pub open spec fn extends_from(
    shorter: Seq<char>,
    kept: int,
    segment: Seq<char>,
    longer: Seq<char>,
) -> bool {
    &&& is_segment(segment)
    &&& 0 <= kept <= path_end(shorter)
    &&& is_slashes(shorter.subrange(kept, path_end(shorter)))
    &&& longer == shorter.take(kept) + seq!['/'] + segment + trailer(shorter)
}

/// `longer` is `shorter` with the segment `segment` appended to its path.
pub open spec fn extends_by(shorter: Seq<char>, segment: Seq<char>, longer: Seq<char>) -> bool {
    &&& is_segment(segment)
    &&& longer == location(shorter) + seq!['/'] + segment + trailer(shorter)
}

/// `longer` is `shorter` with the segment `segment` appended to its path, less slashes that
/// the path of `shorter` ended with.
pub open spec fn extends_trimmed(shorter: Seq<char>, segment: Seq<char>, longer: Seq<char>) -> bool {
    exists|kept: int| extends_from(shorter, kept, segment, longer)
}

/// `longer` is `shorter` with exactly one segment appended to its path.
pub open spec fn adds_one_segment(shorter: Seq<char>, longer: Seq<char>) -> bool {
    exists|segment: Seq<char>| extends_by(shorter, segment, longer)
}

proof fn lemma_path_end_from(text: Seq<char>, i: int)
    requires
        0 <= i <= text.len(),
        forall|j: int| 0 <= j < i ==> !ends_path(#[trigger] text[j]),
    ensures
        exists|k: int| is_path_end(text, k),
    decreases text.len() - i,
{
    if i < text.len() && !ends_path(text[i]) {
        lemma_path_end_from(text, i + 1);
    } else {
        assert(is_path_end(text, i));
    }
}

/// Every text has a place where its location ends.
pub proof fn lemma_path_end_exists(text: Seq<char>)
    ensures
        is_path_end(text, path_end(text)),
{
    lemma_path_end_from(text, 0);
}

/// The location of a text ends in one place only.
pub proof fn lemma_path_end_is(text: Seq<char>, k: int)
    requires
        is_path_end(text, k),
    ensures
        path_end(text) == k,
{
    let p = path_end(text);
    assert(is_path_end(text, p));
    if p < k {
        assert(ends_path(text[p]));
    } else if k < p {
        assert(ends_path(text[k]));
    }
}

/// Where a text with a segment appended after `kept` characters has its parts: its path ends
/// with that segment, and its trailer is the one it had.
pub proof fn lemma_extends_from(
    shorter: Seq<char>,
    kept: int,
    segment: Seq<char>,
    longer: Seq<char>,
)
    requires
        extends_from(shorter, kept, segment, longer),
    ensures
        path_end(longer) == kept + 1 + segment.len(),
        location(longer) == shorter.take(kept) + seq!['/'] + segment,
        trailer(longer) == trailer(shorter),
        path_ends_with(longer, segment),
{
    lemma_path_end_exists(shorter);
    let k = path_end(shorter);
    let m = kept + 1 + segment.len();
    assert forall|i: int| 0 <= i < m implies !ends_path(#[trigger] longer[i]) by {
        if i < kept {
            assert(longer[i] == shorter[i]);
        } else if i > kept {
            assert(longer[i] == segment[i - kept - 1]);
        }
    }
    if m < longer.len() {
        assert(longer[m] == shorter[k]);
    }
    lemma_path_end_is(longer, m);
    assert(location(longer) =~= shorter.take(kept) + seq!['/'] + segment);
    assert(trailer(longer) =~= trailer(shorter));
    assert((seq!['/'] + segment) =~= location(longer).subrange(
        location(longer).len() - (seq!['/'] + segment).len(),
        location(longer).len() as int,
    ));
}

/// Appending to the whole path is appending after all of the location.
pub proof fn lemma_extends_by_is_from(shorter: Seq<char>, segment: Seq<char>, longer: Seq<char>)
    ensures
        extends_by(shorter, segment, longer) <==> extends_from(
            shorter,
            path_end(shorter),
            segment,
            longer,
        ),
{
    lemma_path_end_exists(shorter);
}

/// Where a text with a segment appended to its path has its parts.
pub proof fn lemma_extends_by(shorter: Seq<char>, segment: Seq<char>, longer: Seq<char>)
    requires
        extends_by(shorter, segment, longer),
    ensures
        path_end(longer) == path_end(shorter) + 1 + segment.len(),
        location(longer) == location(shorter) + seq!['/'] + segment,
        trailer(longer) == trailer(shorter),
        path_ends_with(longer, segment),
        extends_trimmed(shorter, segment, longer),
        adds_one_segment(shorter, longer),
{
    lemma_extends_by_is_from(shorter, segment, longer);
    lemma_extends_from(shorter, path_end(shorter), segment, longer);
}

/// How long a text with a segment appended after `kept` characters is. The lengths of the
/// texts thus tell where the segment was appended.
proof fn lemma_extends_from_where(
    shorter: Seq<char>,
    kept: int,
    segment: Seq<char>,
    longer: Seq<char>,
)
    requires
        extends_from(shorter, kept, segment, longer),
    ensures
        longer.len() == kept + 1 + segment.len() + (shorter.len() - path_end(shorter)),
{
    lemma_path_end_exists(shorter);
}

/// The characters of `s`, in order.
pub fn chars_of(s: &str) -> (v: Vec<char>)
    ensures
        v@ == s@,
{
    let mut v: Vec<char> = Vec::new();
    for c in it: s.chars()
        invariant
            v@ == it.seq().take(it.index()),
            it.seq() == s@,
    {
        v.push(c);
    }
    v
}

/// Finds where the location of `text` ends.
pub fn find_path_end(text: &Vec<char>) -> (k: usize)
    ensures
        k == path_end(text@),
        is_path_end(text@, k as int),
{
    let mut k: usize = 0;
    while k < text.len() && text[k] != '?' && text[k] != '#'
        invariant
            k <= text.len(),
            forall|i: int| 0 <= i < k ==> !ends_path(#[trigger] text@[i]),
        decreases text.len() - k,
    {
        k += 1;
    }
    proof {
        lemma_path_end_is(text@, k as int);
    }
    k
}

/// Decides whether `segment` can stand in the text of a URL as one path segment.
#[verifier::loop_isolation(false)]
fn is_segment_text(segment: &Vec<char>) -> (r: bool)
    ensures
        r == is_segment(segment@),
{
    let mut i: usize = 0;
    while i < segment.len()
        invariant
            i <= segment.len(),
            forall|x: int| 0 <= x < i ==> segment@[x] != '/' && !ends_path(#[trigger] segment@[x]),
        decreases segment.len() - i,
    {
        if segment[i] == '/' || segment[i] == '?' || segment[i] == '#' {
            assert(segment@[i as int] == '/' || ends_path(segment@[i as int]));
            return false;
        }
        i += 1;
    }
    true
}

/// Decides whether `longer` is `shorter` with `segment` appended after `kept` characters.
#[verifier::loop_isolation(false)]
fn is_extension_from(
    shorter: &Vec<char>,
    kept: usize,
    segment: &Vec<char>,
    longer: &Vec<char>,
) -> (r: bool)
    ensures
        r == extends_from(shorter@, kept as int, segment@, longer@),
{
    let k = find_path_end(shorter);
    if kept > k || !is_segment_text(segment) {
        return false;
    }
    let rest = shorter.len() - k;
    if longer.len() <= segment.len() || longer.len() - segment.len() - 1 < rest || longer.len()
        - segment.len() - 1 - rest != kept {
        proof {
            if extends_from(shorter@, kept as int, segment@, longer@) {
                lemma_extends_from_where(shorter@, kept as int, segment@, longer@);
            }
        }
        return false;
    }
    let mut i: usize = kept;
    while i < k
        invariant
            kept <= i <= k,
            forall|x: int| kept <= x < i ==> #[trigger] shorter@[x] == '/',
        decreases k - i,
    {
        if shorter[i] != '/' {
            assert(shorter@.subrange(kept as int, k as int)[i - kept] != '/');
            return false;
        }
        i += 1;
    }
    let ghost wanted = shorter@.take(kept as int) + seq!['/'] + segment@ + trailer(shorter@);
    let m = kept + 1 + segment.len();
    i = 0;
    while i < longer.len()
        invariant
            i <= longer.len(),
            forall|x: int| 0 <= x < i ==> #[trigger] longer@[x] == wanted[x],
        decreases longer.len() - i,
    {
        let c = if i < kept {
            shorter[i]
        } else if i == kept {
            '/'
        } else if i < m {
            segment[i - kept - 1]
        } else {
            shorter[i - m + k]
        };
        if longer[i] != c {
            assert(longer@[i as int] != wanted[i as int]);
            return false;
        }
        i += 1;
    }
    assert(longer@ =~= wanted);
    true
}

/// Decides whether `segment` is `.` or `..`.
pub fn is_dot_segment_text(segment: &str) -> (r: bool)
    ensures
        r == is_dot_segment(segment@),
{
    let s = chars_of(segment);
    let dots = s.len() == 1 && s[0] == '.' || s.len() == 2 && s[0] == '.' && s[1] == '.';
    proof {
        if !dots && is_dot_segment(s@) {
            assert(s@[0] == '.');
            if s@.len() == 2 {
                assert(s@[1] == '.');
            }
        }
    }
    dots
}

/// Decides whether `segment` needs no encoding.
#[verifier::loop_isolation(false)]
pub fn is_plain_segment(segment: &str) -> (r: bool)
    ensures
        r == is_plain(segment@),
{
    let s = chars_of(segment);
    let mut i: usize = 0;
    while i < s.len()
        invariant
            i <= s.len(),
            forall|x: int| 0 <= x < i ==> is_unreserved(#[trigger] s@[x]),
        decreases s.len() - i,
    {
        let c = s[i];
        let kept = ('a' <= c && c <= 'z') || ('A' <= c && c <= 'Z') || ('0' <= c && c <= '9')
            || c == '-' || c == '.' || c == '_' || c == '~';
        if !kept {
            assert(!is_unreserved(s@[i as int]));
            return false;
        }
        i += 1;
    }
    true
}

/// Decides whether `longer` is `shorter` with the segment `segment` appended to its path.
pub fn is_extended_by(shorter: &str, segment: &str, longer: &str) -> (r: bool)
    ensures
        r == extends_by(shorter@, segment@, longer@),
{
    let b = chars_of(shorter);
    let kept = find_path_end(&b);
    proof {
        lemma_extends_by_is_from(shorter@, segment@, longer@);
    }
    is_extension_from(&b, kept, &chars_of(segment), &chars_of(longer))
}

/// Decides whether `longer` is `shorter` with the segment `segment` appended to its path,
/// less slashes that the path of `shorter` ended with.
pub fn is_trimmed_extension(shorter: &str, segment: &str, longer: &str) -> (r: bool)
    ensures
        r == extends_trimmed(shorter@, segment@, longer@),
{
    let b = chars_of(shorter);
    let s = chars_of(segment);
    let j = chars_of(longer);
    let rest = b.len() - find_path_end(&b);
    proof {
        assert forall|kept: int| extends_from(b@, kept, s@, j@) implies j@.len() == kept + 1
            + s@.len() + rest by {
            lemma_extends_from_where(b@, kept, s@, j@);
        }
    }
    if j.len() <= s.len() || j.len() - s.len() - 1 < rest {
        return false;
    }
    is_extension_from(&b, j.len() - s.len() - 1 - rest, &s, &j)
}

/// Decides whether `longer` is `shorter` with exactly one segment appended to its path.
pub fn is_one_segment_longer(shorter: &str, longer: &str) -> (r: bool)
    ensures
        r == adds_one_segment(shorter@, longer@),
{
    let b = chars_of(shorter);
    let j = chars_of(longer);
    let k = find_path_end(&b);
    let m = find_path_end(&j);
    if m <= k {
        proof {
            if adds_one_segment(b@, j@) {
                let segment = choose|segment: Seq<char>| extends_by(b@, segment, j@);
                lemma_extends_by(b@, segment, j@);
            }
        }
        return false;
    }
    let mut segment: Vec<char> = Vec::new();
    let mut i: usize = k + 1;
    while i < m
        invariant
            k < i <= m <= j.len(),
            segment@ == j@.subrange(k + 1, i as int),
        decreases m - i,
    {
        segment.push(j[i]);
        i += 1;
    }
    proof {
        if adds_one_segment(b@, j@) {
            let other = choose|other: Seq<char>| extends_by(b@, other, j@);
            lemma_extends_by(b@, other, j@);
            assert(other =~= location(j@).subrange(k + 1, m as int));
            assert(other =~= segment@);
        }
        lemma_extends_by_is_from(b@, segment@, j@);
    }
    is_extension_from(&b, k, &segment, &j)
}

} // verus!
