//! A small markdown reader for the preview of a note.
//!
//! A note is read line by line. A line is a code fence, a line inside a code
//! block, a heading, a list item, a quote, or running text; running text is
//! cut into plain, bold and inline-code spans. The reader only says what each
//! piece of text is; how it is drawn is for the caller to decide.

use vstd::prelude::*;
use vstd::string::*;

verus! {

/// What a span of a line is.
#[derive(Debug, Clone, Copy, PartialEq, Eq, Structural)]
pub enum SpanKind {
    /// A line that opens or closes a code block.
    Fence,
    /// A line inside a code block.
    CodeBlock,
    /// A heading of the first level.
    Heading1,
    /// A heading of the second level.
    Heading2,
    /// A heading of the third level.
    Heading3,
    /// The mark in front of a list item.
    Bullet,
    /// A quoted line.
    Quote,
    /// Text as it is.
    Plain,
    /// Text between two `**`.
    Bold,
    /// Text between two backticks.
    InlineCode,
}

/// A piece of text and what it is.
#[derive(Debug)]
pub struct Span {
    pub text: String,
    pub kind: SpanKind,
}

/// The mathematical value of a span.
pub struct SpanView {
    pub text: Seq<char>,
    pub kind: SpanKind,
}

impl View for Span {
    type V = SpanView;

    open spec fn view(&self) -> SpanView {
        SpanView { text: self.text@, kind: self.kind }
    }
}

/// The mark shown in front of a list item.
pub const BULLET_MARK: &'static str = "  • ";

/// The bar shown in front of a quoted line.
pub const QUOTE_BAR: &'static str = "  ┃ ";

/// The text shown for a `**` that is never closed.
pub const OPEN_BOLD: &'static str = "**";

/// The text shown for a backtick that is never closed.
pub const OPEN_CODE: &'static str = "`";

/// The values of a list of spans.
pub open spec fn span_views(spans: Seq<Span>) -> Seq<SpanView> {
    spans.map_values(|s: Span| s@)
}

/// The values of a list of lines.
pub open spec fn line_views(lines: Seq<Vec<Span>>) -> Seq<Seq<SpanView>> {
    lines.map_values(|l: Vec<Span>| span_views(l@))
}

/// A span of this text and kind.
pub open spec fn span(text: Seq<char>, kind: SpanKind) -> SpanView {
    SpanView { text, kind }
}

// ---------------------------------------------------------------------------
// Searching
// ---------------------------------------------------------------------------

/// The first index at or after `from` that holds `c`.
pub open spec fn first_char(s: Seq<char>, c: char, from: int) -> Option<int>
    decreases s.len() - from,
{
    if from < 0 || from >= s.len() {
        None
    } else if s[from] == c {
        Some(from)
    } else {
        first_char(s, c, from + 1)
    }
}

/// The first index at or after `from` that holds `c` twice in a row.
pub open spec fn first_double(s: Seq<char>, c: char, from: int) -> Option<int>
    decreases s.len() - from,
{
    if from < 0 || from + 1 >= s.len() {
        None
    } else if s[from] == c && s[from + 1] == c {
        Some(from)
    } else {
        first_double(s, c, from + 1)
    }
}

/// Where inline code starts at or after `from`: at the first backtick, unless
/// three backticks stand there.
pub open spec fn code_start(s: Seq<char>, from: int) -> Option<int> {
    match first_char(s, '`', from) {
        Some(i) => if i + 2 < s.len() && s[i + 1] == '`' && s[i + 2] == '`' {
            None
        } else {
            Some(i)
        },
        None => None,
    }
}

fn find_char(s: &Vec<char>, c: char, from: usize) -> (r: Option<usize>)
    ensures
        match r {
            Some(i) => first_char(s@, c, from as int) == Some(i as int) && from <= i < s@.len()
                && s@[i as int] == c,
            None => first_char(s@, c, from as int) is None,
        },
{
    let mut i: usize = from;
    while i < s.len()
        invariant
            from <= i,
            first_char(s@, c, from as int) == first_char(s@, c, i as int),
        decreases s@.len() - i,
    {
        if s[i] == c {
            return Some(i);
        }
        i = i + 1;
    }
    None
}

fn find_double(s: &Vec<char>, c: char, from: usize) -> (r: Option<usize>)
    ensures
        match r {
            Some(i) => first_double(s@, c, from as int) == Some(i as int) && from <= i && i + 1
                < s@.len(),
            None => first_double(s@, c, from as int) is None,
        },
{
    let mut i: usize = from;
    while i < s.len() && i + 1 < s.len()
        invariant
            from <= i,
            first_double(s@, c, from as int) == first_double(s@, c, i as int),
        decreases s@.len() - i,
    {
        if s[i] == c && s[i + 1] == c {
            return Some(i);
        }
        i = i + 1;
    }
    None
}

fn find_code_start(s: &Vec<char>, from: usize) -> (r: Option<usize>)
    ensures
        match r {
            Some(i) => code_start(s@, from as int) == Some(i as int) && from <= i < s@.len(),
            None => code_start(s@, from as int) is None,
        },
{
    match find_char(s, '`', from) {
        Some(i) => {
            if s.len() >= 3 && i < s.len() - 2 && s[i + 1] == '`' && s[i + 2] == '`' {
                None
            } else {
                Some(i)
            }
        },
        None => None,
    }
}

/// The characters of a text.
fn chars_of(text: &str) -> (r: Vec<char>)
    ensures
        r@ == text@,
{
    broadcast use vstd::string::group_string_axioms;

    let mut out: Vec<char> = Vec::new();
    for c in it: text.chars()
        invariant
            it.seq() == text@,
            out@ == text@.take(it.index()),
    {
        out.push(c);
        assert(text@.take(it.index() + 1) == text@.take(it.index()).push(c));
    }
    assert(text@.take(text@.len() as int) == text@);
    out
}

/// The characters from `from` up to `to` as a text.
fn text_of(s: &Vec<char>, from: usize, to: usize) -> (r: String)
    requires
        from <= to <= s@.len(),
    ensures
        r@ == s@.subrange(from as int, to as int),
{
    let mut out = String::new();
    let mut i: usize = from;
    while i < to
        invariant
            from <= i <= to <= s@.len(),
            out@ == s@.subrange(from as int, i as int),
        decreases to - i,
    {
        out.push(s[i]);
        assert(s@.subrange(from as int, i + 1) == s@.subrange(from as int, i as int).push(
            s@[i as int],
        ));
        i = i + 1;
    }
    out
}

/// A copy of the characters from `from` up to `to`.
fn slice_of(s: &Vec<char>, from: usize, to: usize) -> (r: Vec<char>)
    requires
        from <= to <= s@.len(),
    ensures
        r@ == s@.subrange(from as int, to as int),
{
    let mut out: Vec<char> = Vec::new();
    let mut i: usize = from;
    while i < to
        invariant
            from <= i <= to <= s@.len(),
            out@ == s@.subrange(from as int, i as int),
        decreases to - i,
    {
        out.push(s[i]);
        assert(s@.subrange(from as int, i + 1) == s@.subrange(from as int, i as int).push(
            s@[i as int],
        ));
        i = i + 1;
    }
    out
}

// ---------------------------------------------------------------------------
// Running text
// ---------------------------------------------------------------------------

/// The spans of running text, from index `from` on.
///
/// Whichever of `**` and a backtick comes first opens a span that its next
/// occurrence closes; the text before it is plain. A mark that is never closed
/// is shown as it is. A backtick that begins three backticks opens nothing.
pub open spec fn inline_from(s: Seq<char>, from: int) -> Seq<SpanView>
    decreases s.len() - from,
{
    if from < 0 || from >= s.len() {
        Seq::empty()
    } else {
        let bold = first_double(s, '*', from);
        let code = code_start(s, from);
        if code is Some && !(bold is Some && bold->0 < code->0) {
            let open = code->0;
            let before = span(s.subrange(from, open), SpanKind::Plain);
            match first_char(s, '`', open + 1) {
                Some(close) => if from < close + 1 <= s.len() {
                    seq![before, span(s.subrange(open + 1, close), SpanKind::InlineCode)]
                        + inline_from(s, close + 1)
                } else {
                    Seq::empty()
                },
                None => if from < open + 1 <= s.len() {
                    seq![before, span(OPEN_CODE@, SpanKind::Plain)] + inline_from(s, open + 1)
                } else {
                    Seq::empty()
                },
            }
        } else if bold is Some {
            let open = bold->0;
            let before = span(s.subrange(from, open), SpanKind::Plain);
            match first_double(s, '*', open + 2) {
                Some(close) => if from < close + 2 <= s.len() {
                    seq![before, span(s.subrange(open + 2, close), SpanKind::Bold)] + inline_from(
                        s,
                        close + 2,
                    )
                } else {
                    Seq::empty()
                },
                None => if from < open + 2 <= s.len() {
                    seq![before, span(OPEN_BOLD@, SpanKind::Plain)] + inline_from(s, open + 2)
                } else {
                    Seq::empty()
                },
            }
        } else {
            seq![span(s.subrange(from, s.len() as int), SpanKind::Plain)]
        }
    }
}

fn plain_text(text: String) -> (r: Span)
    ensures
        r@ == span(text@, SpanKind::Plain),
{
    Span { text, kind: SpanKind::Plain }
}

fn literal(text: &str, kind: SpanKind) -> (r: Span)
    ensures
        r@ == span(text@, kind),
{
    Span { text: text.to_owned(), kind }
}

/// Cuts running text into plain, bold and inline-code spans.
pub fn parse_inline(line: &Vec<char>) -> (r: Vec<Span>)
    ensures
        span_views(r@) == inline_from(line@, 0),
{
    let ghost s = line@;
    let mut out: Vec<Span> = Vec::new();
    let mut pos: usize = 0;
    assert(span_views(out@) == Seq::<SpanView>::empty());
    while pos < line.len()
        invariant
            s == line@,
            span_views(out@) + inline_from(s, pos as int) == inline_from(s, 0),
        decreases s.len() - pos,
    {
        let ghost done = span_views(out@);
        let bold = find_double(line, '*', pos);
        let code = find_code_start(line, pos);
        let code_first = match (bold, code) {
            (Some(b), Some(c)) => !(b < c),
            (None, Some(_)) => true,
            _ => false,
        };
        if code_first {
            let open = code.unwrap();
            out.push(plain_text(text_of(line, pos, open)));
            match find_char(line, '`', open + 1) {
                Some(close) => {
                    out.push(Span { text: text_of(line, open + 1, close), kind: SpanKind::InlineCode });
                    proof {
                        let here = seq![
                            span(s.subrange(pos as int, open as int), SpanKind::Plain),
                            span(s.subrange(open + 1, close as int), SpanKind::InlineCode),
                        ];
                        assert(span_views(out@) == done + here);
                        assert(inline_from(s, pos as int) == here + inline_from(s, close + 1));
                        assert(done + here + inline_from(s, close + 1) == done + (here + inline_from(
                            s,
                            close + 1,
                        )));
                    }
                    pos = close + 1;
                },
                None => {
                    out.push(literal(OPEN_CODE, SpanKind::Plain));
                    proof {
                        let here = seq![
                            span(s.subrange(pos as int, open as int), SpanKind::Plain),
                            span(OPEN_CODE@, SpanKind::Plain),
                        ];
                        assert(span_views(out@) == done + here);
                        assert(inline_from(s, pos as int) == here + inline_from(s, open + 1));
                        assert(done + here + inline_from(s, open + 1) == done + (here + inline_from(
                            s,
                            open + 1,
                        )));
                    }
                    pos = open + 1;
                },
            }
        } else if bold.is_some() {
            let open = bold.unwrap();
            out.push(plain_text(text_of(line, pos, open)));
            match find_double(line, '*', open + 2) {
                Some(close) => {
                    out.push(Span { text: text_of(line, open + 2, close), kind: SpanKind::Bold });
                    proof {
                        let here = seq![
                            span(s.subrange(pos as int, open as int), SpanKind::Plain),
                            span(s.subrange(open + 2, close as int), SpanKind::Bold),
                        ];
                        assert(span_views(out@) == done + here);
                        assert(inline_from(s, pos as int) == here + inline_from(s, close + 2));
                        assert(done + here + inline_from(s, close + 2) == done + (here + inline_from(
                            s,
                            close + 2,
                        )));
                    }
                    pos = close + 2;
                },
                None => {
                    out.push(literal(OPEN_BOLD, SpanKind::Plain));
                    proof {
                        let here = seq![
                            span(s.subrange(pos as int, open as int), SpanKind::Plain),
                            span(OPEN_BOLD@, SpanKind::Plain),
                        ];
                        assert(span_views(out@) == done + here);
                        assert(inline_from(s, pos as int) == here + inline_from(s, open + 2));
                        assert(done + here + inline_from(s, open + 2) == done + (here + inline_from(
                            s,
                            open + 2,
                        )));
                    }
                    pos = open + 2;
                },
            }
        } else {
            out.push(plain_text(text_of(line, pos, line.len())));
            proof {
                let here = seq![span(s.subrange(pos as int, s.len() as int), SpanKind::Plain)];
                assert(span_views(out@) == done + here);
                assert(inline_from(s, pos as int) == here);
                assert(inline_from(s, s.len() as int) == Seq::<SpanView>::empty());
                assert(done + here + Seq::<SpanView>::empty() == done + here);
            }
            pos = line.len();
        }
    }
    assert(inline_from(s, pos as int) == Seq::<SpanView>::empty());
    assert(span_views(out@) + Seq::<SpanView>::empty() == span_views(out@));
    out
}

// ---------------------------------------------------------------------------
// Lines
// ---------------------------------------------------------------------------

/// Whether a line begins with these two characters.
pub open spec fn starts2(s: Seq<char>, a: char, b: char) -> bool {
    s.len() >= 2 && s[0] == a && s[1] == b
}

/// Whether a line begins with these three characters.
pub open spec fn starts3(s: Seq<char>, a: char, b: char, c: char) -> bool {
    s.len() >= 3 && s[0] == a && s[1] == b && s[2] == c
}

/// Whether a line begins with these four characters.
pub open spec fn starts4(s: Seq<char>, a: char, b: char, c: char, d: char) -> bool {
    s.len() >= 4 && s[0] == a && s[1] == b && s[2] == c && s[3] == d
}

/// Whether a line opens or closes a code block: it begins with three backticks.
pub open spec fn is_fence(line: Seq<char>) -> bool {
    starts3(line, '`', '`', '`')
}

/// The spans of one line, inside or outside a code block.
pub open spec fn line_spans(line: Seq<char>, in_code: bool) -> Seq<SpanView> {
    if is_fence(line) {
        seq![span(line, SpanKind::Fence)]
    } else if in_code {
        seq![span(line, SpanKind::CodeBlock)]
    } else if starts2(line, '#', ' ') {
        seq![span(line.skip(2).push(' '), SpanKind::Heading1)]
    } else if starts3(line, '#', '#', ' ') {
        seq![span(line.skip(3), SpanKind::Heading2)]
    } else if starts4(line, '#', '#', '#', ' ') {
        seq![span(line.skip(4), SpanKind::Heading3)]
    } else if starts2(line, '-', ' ') || starts2(line, '*', ' ') {
        seq![span(BULLET_MARK@, SpanKind::Bullet), span(line.skip(2), SpanKind::Plain)]
    } else if starts2(line, '>', ' ') {
        seq![span(QUOTE_BAR@ + line.skip(2), SpanKind::Quote)]
    } else {
        inline_from(line, 0)
    }
}

fn begins2(line: &Vec<char>, a: char, b: char) -> (r: bool)
    ensures
        r == starts2(line@, a, b),
{
    line.len() >= 2 && line[0] == a && line[1] == b
}

fn begins3(line: &Vec<char>, a: char, b: char, c: char) -> (r: bool)
    ensures
        r == starts3(line@, a, b, c),
{
    line.len() >= 3 && line[0] == a && line[1] == b && line[2] == c
}

fn begins4(line: &Vec<char>, a: char, b: char, c: char, d: char) -> (r: bool)
    ensures
        r == starts4(line@, a, b, c, d),
{
    line.len() >= 4 && line[0] == a && line[1] == b && line[2] == c && line[3] == d
}

fn one(first: Span) -> (r: Vec<Span>)
    ensures
        span_views(r@) == seq![first@],
{
    let mut out: Vec<Span> = Vec::new();
    out.push(first);
    assert(span_views(out@) == seq![first@]);
    out
}

fn two(first: Span, second: Span) -> (r: Vec<Span>)
    ensures
        span_views(r@) == seq![first@, second@],
{
    let mut out: Vec<Span> = Vec::new();
    out.push(first);
    out.push(second);
    assert(span_views(out@) == seq![first@, second@]);
    out
}

fn rest_of(line: &Vec<char>, from: usize) -> (r: String)
    requires
        from <= line@.len(),
    ensures
        r@ == line@.skip(from as int),
{
    text_of(line, from, line.len())
}

/// Reads one line: a fence, a line of a code block, a heading, a list item, a
/// quote, or running text.
pub fn parse_line(line: &Vec<char>, in_code: bool) -> (r: Vec<Span>)
    ensures
        span_views(r@) == line_spans(line@, in_code),
{
    assert(line@.skip(0) == line@);
    if begins3(line, '`', '`', '`') {
        one(Span { text: rest_of(line, 0), kind: SpanKind::Fence })
    } else if in_code {
        one(Span { text: rest_of(line, 0), kind: SpanKind::CodeBlock })
    } else if begins2(line, '#', ' ') {
        let mut text = rest_of(line, 2);
        text.push(' ');
        one(Span { text, kind: SpanKind::Heading1 })
    } else if begins3(line, '#', '#', ' ') {
        one(Span { text: rest_of(line, 3), kind: SpanKind::Heading2 })
    } else if begins4(line, '#', '#', '#', ' ') {
        one(Span { text: rest_of(line, 4), kind: SpanKind::Heading3 })
    } else if begins2(line, '-', ' ') || begins2(line, '*', ' ') {
        two(literal(BULLET_MARK, SpanKind::Bullet), plain_text(rest_of(line, 2)))
    } else if begins2(line, '>', ' ') {
        let rest = rest_of(line, 2);
        one(Span { text: QUOTE_BAR.to_owned().concat(rest.as_str()), kind: SpanKind::Quote })
    } else {
        parse_inline(line)
    }
}

/// The lines of a note from index `from` on, each with its spans.
///
/// Lines end at a line feed; a carriage return in front of the line feed
/// belongs to the line ending. A fence switches between text and code block
/// for the lines after it.
pub open spec fn render_from(s: Seq<char>, from: int, in_code: bool) -> Seq<Seq<SpanView>>
    decreases s.len() - from,
{
    if from < 0 || from >= s.len() {
        Seq::empty()
    } else {
        match first_char(s, '\n', from) {
            None => seq![line_spans(s.subrange(from, s.len() as int), in_code)],
            Some(feed) => {
                let end = if feed > from && s[feed - 1] == '\r' {
                    feed - 1
                } else {
                    feed
                };
                let line = s.subrange(from, end);
                if from < feed + 1 <= s.len() {
                    seq![line_spans(line, in_code)] + render_from(
                        s,
                        feed + 1,
                        if is_fence(line) {
                            !in_code
                        } else {
                            in_code
                        },
                    )
                } else {
                    Seq::empty()
                }
            },
        }
    }
}

/// What the reader makes of a note.
pub open spec fn spec_parse_markdown(content: Seq<char>) -> Seq<Seq<SpanView>> {
    render_from(content, 0, false)
}

/// Reads a note: one list of spans for every line.
pub fn parse_markdown(content: &str) -> (r: Vec<Vec<Span>>)
    ensures
        line_views(r@) == spec_parse_markdown(content@),
{
    let chars = chars_of(content);
    let ghost s = chars@;
    let mut out: Vec<Vec<Span>> = Vec::new();
    let mut in_code = false;
    let mut pos: usize = 0;
    assert(line_views(out@) == Seq::<Seq<SpanView>>::empty());
    while pos < chars.len()
        invariant
            s == chars@,
            line_views(out@) + render_from(s, pos as int, in_code) == render_from(s, 0, false),
        decreases s.len() - pos,
    {
        let ghost done = line_views(out@);
        match find_char(&chars, '\n', pos) {
            None => {
                let line = slice_of(&chars, pos, chars.len());
                let spans = parse_line(&line, in_code);
                let ghost here = seq![span_views(spans@)];
                out.push(spans);
                proof {
                    assert(line_views(out@) == done + here);
                    assert(render_from(s, pos as int, in_code) == here);
                    assert(render_from(s, s.len() as int, in_code) == Seq::<Seq<SpanView>>::empty());
                    assert(done + here + Seq::<Seq<SpanView>>::empty() == done + here);
                }
                pos = chars.len();
            },
            Some(feed) => {
                let end = if feed > pos && chars[feed - 1] == '\r' {
                    feed - 1
                } else {
                    feed
                };
                let line = slice_of(&chars, pos, end);
                let spans = parse_line(&line, in_code);
                let next_in_code = if begins3(&line, '`', '`', '`') {
                    !in_code
                } else {
                    in_code
                };
                let ghost here = seq![span_views(spans@)];
                out.push(spans);
                proof {
                    assert(line_views(out@) == done + here);
                    assert(render_from(s, pos as int, in_code) == here + render_from(
                        s,
                        feed + 1,
                        next_in_code,
                    ));
                    assert(done + here + render_from(s, feed + 1, next_in_code) == done + (here
                        + render_from(s, feed + 1, next_in_code)));
                }
                in_code = next_in_code;
                pos = feed + 1;
            },
        }
    }
    assert(render_from(s, pos as int, in_code) == Seq::<Seq<SpanView>>::empty());
    assert(line_views(out@) + Seq::<Seq<SpanView>>::empty() == line_views(out@));
    out
}

} // verus!
