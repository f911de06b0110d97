//! Order and equality of texts, white space, and titles.
//!
//! Timestamps and cursors are RFC 3339 texts in UTC. They are compared the way
//! the store compares them: byte by byte over their UTF-8 form, a proper prefix
//! coming first.

use vstd::prelude::*;
use vstd::utf8::*;
use vstd::string::*;

verus! {

/// Whether `a` comes before `b` byte by byte, looking only from index `from` on.
pub open spec fn bytes_before_from(a: Seq<u8>, b: Seq<u8>, from: int) -> bool
    decreases b.len() - from,
{
    if from < 0 || from >= b.len() {
        false
    } else if from >= a.len() {
        true
    } else if a[from] != b[from] {
        a[from] < b[from]
    } else {
        bytes_before_from(a, b, from + 1)
    }
}

/// Whether the byte string `a` comes strictly before `b` in lexicographic order.
pub open spec fn bytes_before(a: Seq<u8>, b: Seq<u8>) -> bool {
    bytes_before_from(a, b, 0)
}

/// Whether the text `a` comes strictly before the text `b`.
pub open spec fn text_before(a: Seq<char>, b: Seq<char>) -> bool {
    bytes_before(encode_utf8(a), encode_utf8(b))
}

/// Whether the text `a` comes strictly after the text `b`.
pub open spec fn text_after(a: Seq<char>, b: Seq<char>) -> bool {
    text_before(b, a)
}

/// Whether the text `a` does not come after the text `b`.
pub open spec fn text_at_most(a: Seq<char>, b: Seq<char>) -> bool {
    !text_before(b, a)
}

proof fn lemma_before_from_irreflexive(a: Seq<u8>, from: int)
    requires
        0 <= from,
    ensures
        !bytes_before_from(a, a, from),
    decreases a.len() - from,
{
    if from < a.len() {
        lemma_before_from_irreflexive(a, from + 1);
    }
}

proof fn lemma_before_from_transitive(a: Seq<u8>, b: Seq<u8>, c: Seq<u8>, from: int)
    requires
        0 <= from,
        bytes_before_from(a, b, from),
        bytes_before_from(b, c, from),
    ensures
        bytes_before_from(a, c, from),
    decreases c.len() - from,
{
    if from < a.len() && from < b.len() && from < c.len() && a[from] == b[from] && b[from]
        == c[from] {
        lemma_before_from_transitive(a, b, c, from + 1);
    }
}

/// No text comes before itself.
pub proof fn lemma_text_before_irreflexive(a: Seq<char>)
    ensures
        !text_before(a, a),
{
    lemma_before_from_irreflexive(encode_utf8(a), 0);
}

/// The order of texts is transitive.
pub proof fn lemma_text_before_transitive(a: Seq<char>, b: Seq<char>, c: Seq<char>)
    requires
        text_before(a, b),
        text_before(b, c),
    ensures
        text_before(a, c),
{
    lemma_before_from_transitive(encode_utf8(a), encode_utf8(b), encode_utf8(c), 0);
}

/// Whether `a` comes strictly before `b`, byte by byte over the UTF-8 form.
pub fn str_before(a: &str, b: &str) -> (r: bool)
    ensures
        r == text_before(a@, b@),
{
    let x = a.as_bytes();
    let y = b.as_bytes();
    let mut i: usize = 0;
    while i < x.len() && i < y.len()
        invariant
            i <= x@.len(),
            i <= y@.len(),
            x@ == encode_utf8(a@),
            y@ == encode_utf8(b@),
            bytes_before(x@, y@) == bytes_before_from(x@, y@, i as int),
        decreases x@.len() - i,
    {
        if x[i] != y[i] {
            return x[i] < y[i];
        }
        i = i + 1;
    }
    i < y.len()
}

/// Whether `a` comes strictly after `b`.
pub fn str_after(a: &str, b: &str) -> (r: bool)
    ensures
        r == text_after(a@, b@),
{
    str_before(b, a)
}

/// Whether two texts are the same.
pub fn str_eq(a: &str, b: &str) -> (r: bool)
    ensures
        r == (a@ == b@),
{
    let x = a.as_bytes();
    let y = b.as_bytes();
    proof {
        encode_utf8_decode_utf8(a@);
        encode_utf8_decode_utf8(b@);
    }
    if x.len() != y.len() {
        return false;
    }
    let mut i: usize = 0;
    while i < x.len()
        invariant
            i <= x@.len(),
            x@.len() == y@.len(),
            x@ == encode_utf8(a@),
            y@ == encode_utf8(b@),
            x@.subrange(0, i as int) == y@.subrange(0, i as int),
        decreases x@.len() - i,
    {
        if x[i] != y[i] {
            return false;
        }
        assert(x@.subrange(0, i + 1) == x@.subrange(0, i as int).push(x@[i as int]));
        assert(y@.subrange(0, i + 1) == y@.subrange(0, i as int).push(y@[i as int]));
        i = i + 1;
    }
    assert(x@ == x@.subrange(0, i as int));
    assert(y@ == y@.subrange(0, i as int));
    true
}

// ---------------------------------------------------------------------------
// Blanks
// ---------------------------------------------------------------------------

/// Whether a character has the Unicode `White_Space` property.
pub uninterp spec fn unicode_white_space(c: char) -> bool;

/// Whether a character is in the Unicode general category `Cc`.
pub uninterp spec fn unicode_control(c: char) -> bool;

/// `char::is_whitespace`.
/// Claimed: the result is a function of the character alone.
#[verifier::external_body]
fn char_is_whitespace(c: char) -> (r: bool)
    ensures
        r == unicode_white_space(c),
{
    c.is_whitespace()
}

/// `char::is_control`.
/// Claimed: the result is a function of the character alone.
#[verifier::external_body]
fn char_is_control(c: char) -> (r: bool)
    ensures
        r == unicode_control(c),
{
    c.is_control()
}

/// `String::push`.
/// Claimed, as std documents: the character is appended to the end of the text.
pub assume_specification[ String::push ](s: &mut String, ch: char)
    ensures
        final(s)@ == old(s)@.push(ch),
;

/// A text without the white space at its start.
pub open spec fn trim_start(s: Seq<char>) -> Seq<char>
    decreases s.len(),
{
    if s.len() > 0 && unicode_white_space(s.first()) {
        trim_start(s.drop_first())
    } else {
        s
    }
}

/// A text without the white space at its end.
pub open spec fn trim_end(s: Seq<char>) -> Seq<char>
    decreases s.len(),
{
    if s.len() > 0 && unicode_white_space(s.last()) {
        trim_end(s.drop_last())
    } else {
        s
    }
}

/// A text without the white space at its start and at its end.
pub open spec fn trimmed(s: Seq<char>) -> Seq<char> {
    trim_end(trim_start(s))
}

/// `str::trim`.
/// Claimed, as std documents: the result is the text with leading and trailing
/// white space removed, white space being what `char::is_whitespace` says.
#[verifier::external_body]
pub(crate) fn str_trim(s: &str) -> (r: &str)
    ensures
        r@ == trimmed(s@),
{
    s.trim()
}

/// Whether a character separates words in a title: white space, or a control
/// character, which is shown as a space.
pub open spec fn title_blank(c: char) -> bool {
    unicode_control(c) || unicode_white_space(c)
}

/// The words of a text, each followed by the next after a single space.
pub open spec fn squeezed(s: Seq<char>) -> Seq<char>
    decreases s.len(),
{
    if s.len() == 0 {
        Seq::empty()
    } else {
        let head = squeezed(s.drop_last());
        let c = s.last();
        if title_blank(c) {
            head
        } else if head.len() > 0 && s.len() >= 2 && title_blank(s[s.len() - 2]) {
            head.push(' ').push(c)
        } else {
            head.push(c)
        }
    }
}

/// The title shown for a raw first line: control characters count as spaces,
/// runs of white space collapse to one space, white space at both ends goes,
/// and a line with no word in it is shown as `No Content`.
pub open spec fn spec_sanitize_title(input: Seq<char>) -> Seq<char> {
    if squeezed(input).len() == 0 {
        "No Content"@
    } else {
        squeezed(input)
    }
}

/// Makes a raw first line fit for a one-line title.
pub fn sanitize_title(input: &str) -> (r: String)
    ensures
        r@ == spec_sanitize_title(input@),
{
    broadcast use vstd::string::group_string_axioms;

    let mut out = String::new();
    let mut prev_blank = false;
    for c in it: input.chars()
        invariant
            it.seq() == input@,
            out@ == squeezed(input@.take(it.index())),
            it.index() > 0 ==> prev_blank == title_blank(input@[it.index() - 1]),
    {
        proof {
            let n = it.index();
            assert(input@.take(n + 1).drop_last() == input@.take(n));
            assert(input@.take(n + 1).last() == c);
            if n > 0 {
                assert(input@.take(n + 1)[n - 1] == input@[n - 1]);
            }
        }
        let blank = char_is_control(c) || char_is_whitespace(c);
        if !blank {
            if prev_blank && !out.as_str().is_empty() {
                out.push(' ');
            }
            out.push(c);
        }
        prev_blank = blank;
    }
    assert(input@.take(input@.len() as int) == input@);
    if out.as_str().is_empty() {
        str_to_string("No Content")
    } else {
        out
    }
}

/// An owned copy of a text.
pub fn str_to_string(a: &str) -> (r: String)
    ensures
        r@ == a@,
{
    a.to_owned()
}

} // verus!
