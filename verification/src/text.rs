//! Text as sequences of characters: lines, fields, case folding and decimal
//! numbers. Every function here states its result over `Seq<char>`, the view
//! of a string.

use vstd::prelude::*;
use vstd::string::*;

verus! {

/// `String::push` of the standard library: it appends the character to the
/// end of the string and changes nothing else.
pub assume_specification[ String::push ](s: &mut String, c: char)
    ensures
        final(s)@ == old(s)@.push(c),
;

/// The contents of a list of strings, each as a sequence of characters.
pub open spec fn texts(v: Seq<String>) -> Seq<Seq<char>> {
    Seq::new(v.len(), |i: int| v[i]@)
}

/// Appending a string to a list appends its contents to the list's contents.
pub proof fn lemma_texts_push(v: Seq<String>, s: String)
    ensures
        texts(v.push(s)) == texts(v).push(s@),
{
}

/// The characters of a string, for indexed access.
pub(crate) fn chars_of(s: &str) -> (chars: Vec<char>)
    ensures
        chars@ == s@,
{
    let mut chars: Vec<char> = Vec::new();
    for c in it: s.chars()
        invariant
            chars@ == it.seq().take(it.index() as int),
            it.seq() == s@,
    {
        chars.push(c);
    }
    chars
}

/// The string made of `chars[from..to]`.
fn string_from(chars: &Vec<char>, from: usize, to: usize) -> (s: String)
    requires
        from <= to <= chars.len(),
    ensures
        s@ == chars@.subrange(from as int, to as int),
{
    let mut s = String::new();
    let mut i: usize = from;
    while i < to
        invariant
            from <= i <= to <= chars.len(),
            s@ == chars@.subrange(from as int, i as int),
        decreases to - i,
    {
        s.push(chars[i]);
        i += 1;
    }
    s
}

/// The pieces of `s` between occurrences of `sep`. There is always at least
/// one piece; a separator at the very end leaves an empty last piece.
pub open spec fn split_on(s: Seq<char>, sep: char) -> Seq<Seq<char>>
    decreases s.len(),
{
    if s.len() == 0 {
        seq![Seq::empty()]
    } else {
        let before = split_on(s.drop_last(), sep);
        if s.last() == sep {
            before.push(Seq::empty())
        } else {
            before.update(before.len() - 1, before.last().push(s.last()))
        }
    }
}

/// A line without the carriage return that may precede its line feed.
pub open spec fn without_cr(line: Seq<char>) -> Seq<char> {
    if line.len() > 0 && line.last() == '\r' {
        line.drop_last()
    } else {
        line
    }
}

/// The lines of a text that end with a line feed, each without its ending: the
/// line feed, or a carriage return and the line feed.
pub open spec fn ended_lines(s: Seq<char>) -> Seq<Seq<char>> {
    let pieces = split_on(s, '\n');
    Seq::new((pieces.len() - 1) as nat, |i: int| without_cr(pieces[i]))
}

/// The lines of a text: those that end with a line feed and then, unless it
/// is empty, what follows the last line feed, which keeps a carriage return
/// at its end.
pub open spec fn lines(s: Seq<char>) -> Seq<Seq<char>> {
    let rest = split_on(s, '\n').last();
    if rest.len() > 0 {
        ended_lines(s).push(rest)
    } else {
        ended_lines(s)
    }
}

/// A text has at least one piece.
pub proof fn lemma_split_on_nonempty(s: Seq<char>, sep: char)
    ensures
        split_on(s, sep).len() >= 1,
    decreases s.len(),
{
    if s.len() > 0 {
        lemma_split_on_nonempty(s.drop_last(), sep);
    }
}

/// Splits a text into its lines.
pub fn split_lines(text: &str) -> (out: Vec<String>)
    ensures
        texts(out@) == lines(text@),
{
    let chars = chars_of(text);
    let mut out: Vec<String> = Vec::new();
    let mut start: usize = 0;
    let mut i: usize = 0;
    let ghost mut ended: Seq<Seq<char>> = Seq::empty();
    assert(chars@.subrange(0, 0) =~= Seq::<char>::empty());
    while i < chars.len()
        invariant
            start <= i <= chars.len(),
            chars@ == text@,
            split_on(chars@.take(i as int), '\n') == ended.push(
                chars@.subrange(start as int, i as int),
            ),
            texts(out@) == Seq::new(ended.len(), |k: int| without_cr(ended[k])),
        decreases chars.len() - i,
    {
        let ghost piece = chars@.subrange(start as int, i as int);
        assert(chars@.take(i + 1).drop_last() =~= chars@.take(i as int));
        if chars[i] == '\n' {
            let end: usize = if i > start && chars[i - 1] == '\r' {
                (i - 1) as usize
            } else {
                i
            };
            let line = string_from(&chars, start, end);
            assert(line@ =~= without_cr(piece));
            proof {
                lemma_texts_push(out@, line);
                assert(chars@.subrange(i + 1, i + 1) =~= Seq::<char>::empty());
                ended = ended.push(piece);
            }
            out.push(line);
            start = i + 1;
        } else {
            assert(piece.push(chars@[i as int]) =~= chars@.subrange(start as int, i + 1));
        }
        i += 1;
    }
    assert(chars@.take(i as int) =~= chars@);
    if start < chars.len() {
        let last = string_from(&chars, start, chars.len());
        proof {
            lemma_texts_push(out@, last);
        }
        out.push(last);
    }
    out
}

/// Whether `needle` stands in `hay` at position `at`.
pub open spec fn occurs_at(hay: Seq<char>, needle: Seq<char>, at: int) -> bool {
    0 <= at && at + needle.len() <= hay.len() && hay.subrange(at, at + needle.len()) == needle
}

/// Whether `needle` stands somewhere in `hay`.
pub open spec fn contains(hay: Seq<char>, needle: Seq<char>) -> bool {
    exists|at: int| occurs_at(hay, needle, at)
}

/// Whether `needle[..upto]` equals `hay[at..at + upto]`.
spec fn agrees(hay: Seq<char>, needle: Seq<char>, at: int, upto: int) -> bool {
    forall|k: int| 0 <= k < upto ==> hay[at + k] == needle[k]
}

fn matches_at(hay: &Vec<char>, needle: &Vec<char>, at: usize) -> (found: bool)
    requires
        at + needle.len() <= hay.len(),
    ensures
        found == occurs_at(hay@, needle@, at as int),
{
    let mut k: usize = 0;
    while k < needle.len()
        invariant
            k <= needle.len(),
            at + needle.len() <= hay.len(),
            agrees(hay@, needle@, at as int, k as int),
        decreases needle.len() - k,
    {
        if hay[at + k] != needle[k] {
            return false;
        }
        k += 1;
    }
    assert(hay@.subrange(at as int, at + needle.len()) =~= needle@);
    true
}

/// Whether the text holds `needle` as a substring.
pub fn str_contains(text: &str, needle: &str) -> (found: bool)
    ensures
        found == contains(text@, needle@),
{
    let hay = chars_of(text);
    let pat = chars_of(needle);
    if pat.len() > hay.len() {
        return false;
    }
    let last: usize = hay.len() - pat.len();
    let mut at: usize = 0;
    while at < last
        invariant
            at <= last,
            last + pat.len() == hay.len(),
            hay@ == text@,
            pat@ == needle@,
            forall|j: int| 0 <= j < at ==> !occurs_at(hay@, pat@, j),
        decreases last - at,
    {
        if matches_at(&hay, &pat, at) {
            return true;
        }
        at += 1;
    }
    matches_at(&hay, &pat, last)
}

/// The upper-case form of an ASCII letter; any other character is itself.
pub open spec fn ascii_upper(c: char) -> char {
    if 'a' <= c && c <= 'z' {
        ((c as u8) - 32) as char
    } else {
        c
    }
}

/// The lower-case form of an ASCII letter; any other character is itself.
pub open spec fn ascii_lower(c: char) -> char {
    if 'A' <= c && c <= 'Z' {
        ((c as u8) + 32) as char
    } else {
        c
    }
}

/// A text with each ASCII letter in upper case.
pub open spec fn upper(s: Seq<char>) -> Seq<char> {
    Seq::new(s.len(), |i: int| ascii_upper(s[i]))
}

/// Whether two texts are equal once the case of ASCII letters is set aside.
pub open spec fn eq_ignoring_case(a: Seq<char>, b: Seq<char>) -> bool {
    a.len() == b.len() && forall|i: int| 0 <= i < a.len() ==> ascii_lower(a[i]) == ascii_lower(b[i])
}

fn char_upper(c: char) -> (r: char)
    ensures
        r == ascii_upper(c),
{
    if 'a' <= c && c <= 'z' {
        ((c as u8) - 32) as char
    } else {
        c
    }
}

fn char_lower(c: char) -> (r: char)
    ensures
        r == ascii_lower(c),
{
    if 'A' <= c && c <= 'Z' {
        ((c as u8) + 32) as char
    } else {
        c
    }
}

/// The text with each ASCII letter in upper case.
pub fn to_upper(text: &str) -> (out: String)
    ensures
        out@ == upper(text@),
{
    let chars = chars_of(text);
    let mut out = String::new();
    let mut i: usize = 0;
    while i < chars.len()
        invariant
            i <= chars.len(),
            chars@ == text@,
            out@ == upper(chars@.take(i as int)),
        decreases chars.len() - i,
    {
        out.push(char_upper(chars[i]));
        i += 1;
    }
    out
}

/// Whether two texts are equal once the case of ASCII letters is set aside.
pub fn eq_ignore_ascii_case(a: &str, b: &str) -> (same: bool)
    ensures
        same == eq_ignoring_case(a@, b@),
{
    let x = chars_of(a);
    let y = chars_of(b);
    if x.len() != y.len() {
        return false;
    }
    let mut i: usize = 0;
    while i < x.len()
        invariant
            i <= x.len(),
            x.len() == y.len(),
            x@ == a@,
            y@ == b@,
            forall|k: int| 0 <= k < i ==> ascii_lower(x@[k]) == ascii_lower(y@[k]),
        decreases x.len() - i,
    {
        if char_lower(x[i]) != char_lower(y[i]) {
            return false;
        }
        i += 1;
    }
    true
}

/// A text in upper case is its own upper-case form.
pub proof fn lemma_upper_is_final(s: Seq<char>)
    ensures
        upper(upper(s)) == upper(s),
{
}

/// Two characters have the same lower-case form exactly when they have the
/// same upper-case form.
pub proof fn lemma_case_folding(x: char, y: char)
    ensures
        (ascii_lower(x) == ascii_lower(y)) == (ascii_upper(x) == ascii_upper(y)),
{
}

/// Texts are equal ignoring case exactly when their upper-case forms are equal.
pub proof fn lemma_eq_ignoring_case_upper(a: Seq<char>, b: Seq<char>)
    ensures
        eq_ignoring_case(a, b) == (upper(a) == upper(b)),
{
    if eq_ignoring_case(a, b) {
        assert forall|i: int| 0 <= i < a.len() implies upper(a)[i] == upper(b)[i] by {
            lemma_case_folding(a[i], b[i]);
        }
        assert(upper(a) =~= upper(b));
    }
    if upper(a) == upper(b) {
        assert(upper(a).len() == upper(b).len());
        assert forall|i: int| 0 <= i < a.len() implies ascii_lower(a[i]) == ascii_lower(b[i]) by {
            assert(upper(a)[i] == upper(b)[i]);
            lemma_case_folding(a[i], b[i]);
        }
    }
}

/// Whether a character is white space: the characters with the Unicode
/// property `White_Space`.
pub open spec fn is_space(c: char) -> bool {
    let u = c as u32;
    ||| 0x09 <= u <= 0x0D
    ||| u == 0x20
    ||| u == 0x85
    ||| u == 0xA0
    ||| u == 0x1680
    ||| 0x2000 <= u <= 0x200A
    ||| u == 0x2028
    ||| u == 0x2029
    ||| u == 0x202F
    ||| u == 0x205F
    ||| u == 0x3000
}

/// Whether a text ends inside a field, that is with a character that is not
/// white space.
pub open spec fn in_field(s: Seq<char>) -> bool {
    s.len() > 0 && !is_space(s.last())
}

/// The fields of a text: its maximal runs of characters that are not white
/// space, in order.
pub open spec fn fields(s: Seq<char>) -> Seq<Seq<char>>
    decreases s.len(),
{
    if s.len() == 0 {
        Seq::empty()
    } else {
        let before = fields(s.drop_last());
        if is_space(s.last()) {
            before
        } else if in_field(s.drop_last()) {
            before.update(before.len() - 1, before.last().push(s.last()))
        } else {
            before.push(seq![s.last()])
        }
    }
}

fn char_is_space(c: char) -> (r: bool)
    ensures
        r == is_space(c),
{
    let u: u32 = c as u32;
    (0x09 <= u && u <= 0x0D) || u == 0x20 || u == 0x85 || u == 0xA0 || u == 0x1680 || (0x2000
        <= u && u <= 0x200A) || u == 0x2028 || u == 0x2029 || u == 0x202F || u == 0x205F || u
        == 0x3000
}

/// Splits a text into its fields.
pub fn split_fields(text: &str) -> (out: Vec<String>)
    ensures
        texts(out@) == fields(text@),
{
    let chars = chars_of(text);
    let mut out: Vec<String> = Vec::new();
    let mut start: usize = 0;
    let mut inside = false;
    let mut i: usize = 0;
    while i < chars.len()
        invariant
            start <= i <= chars.len(),
            chars@ == text@,
            inside == in_field(chars@.take(i as int)),
            inside ==> start < i,
            fields(chars@.take(i as int)) == if inside {
                texts(out@).push(chars@.subrange(start as int, i as int))
            } else {
                texts(out@)
            },
        decreases chars.len() - i,
    {
        assert(chars@.take(i + 1).drop_last() =~= chars@.take(i as int));
        if char_is_space(chars[i]) {
            if inside {
                let field = string_from(&chars, start, i);
                proof {
                    lemma_texts_push(out@, field);
                }
                out.push(field);
                inside = false;
            }
        } else {
            if inside {
                assert(chars@.subrange(start as int, i as int).push(chars@[i as int])
                    =~= chars@.subrange(start as int, i + 1));
            } else {
                start = i;
                inside = true;
                assert(chars@.subrange(i as int, i + 1) =~= seq![chars@[i as int]]);
            }
        }
        i += 1;
    }
    assert(chars@.take(i as int) =~= chars@);
    if inside {
        let field = string_from(&chars, start, chars.len());
        proof {
            lemma_texts_push(out@, field);
        }
        out.push(field);
    }
    out
}

/// Whether a character is one of the decimal digits `0` to `9`.
pub open spec fn is_digit(c: char) -> bool {
    '0' <= c && c <= '9'
}

/// The number that a decimal digit stands for; 0 for any other character.
pub open spec fn digit_of(c: char) -> nat {
    if is_digit(c) {
        (c as u32 - 48) as nat
    } else {
        0
    }
}

/// The number that a text of decimal digits stands for.
pub open spec fn decimal_value(s: Seq<char>) -> nat
    decreases s.len(),
{
    if s.len() == 0 {
        0
    } else {
        decimal_value(s.drop_last()) * 10 + digit_of(s.last())
    }
}

/// Whether every character of a text is a decimal digit.
pub open spec fn all_digits(s: Seq<char>) -> bool {
    forall|i: int| 0 <= i < s.len() ==> is_digit(#[trigger] s[i])
}

/// The 32-bit number written as `s`: `s` must be one or more decimal digits
/// whose value fits in 32 bits.
pub open spec fn parse_decimal(s: Seq<char>) -> Option<u32> {
    if s.len() > 0 && all_digits(s) && decimal_value(s) <= u32::MAX {
        Some(decimal_value(s) as u32)
    } else {
        None
    }
}

/// A text stands for at least what any of its beginnings stands for.
pub proof fn lemma_decimal_value_grows(s: Seq<char>, n: int)
    requires
        0 <= n <= s.len(),
    ensures
        decimal_value(s.take(n)) <= decimal_value(s),
    decreases s.len(),
{
    if n == s.len() {
        assert(s.take(n) =~= s);
    } else {
        assert(s.drop_last().take(n) =~= s.take(n));
        lemma_decimal_value_grows(s.drop_last(), n);
    }
}

/// Reads a 32-bit number written in decimal digits.
pub fn parse_u32(text: &str) -> (r: Option<u32>)
    ensures
        r == parse_decimal(text@),
{
    let chars = chars_of(text);
    if chars.len() == 0 {
        return None;
    }
    let mut value: u64 = 0;
    let mut i: usize = 0;
    while i < chars.len()
        invariant
            i <= chars.len(),
            chars@ == text@,
            all_digits(chars@.take(i as int)),
            value == decimal_value(chars@.take(i as int)),
            value <= u32::MAX,
        decreases chars.len() - i,
    {
        let c = chars[i];
        assert(chars@.take(i + 1).drop_last() =~= chars@.take(i as int));
        if !('0' <= c && c <= '9') {
            return None;
        }
        let digit: u64 = (c as u32 - 48) as u64;
        let grown: u64 = value * 10 + digit;
        if grown > 0xFFFF_FFFF {
            proof {
                lemma_decimal_value_grows(chars@, i + 1);
            }
            return None;
        }
        value = grown;
        i += 1;
    }
    assert(chars@.take(i as int) =~= chars@);
    Some(value as u32)
}

/// The character of a decimal digit.
pub open spec fn digit_char(d: nat) -> char {
    ((48 + d) as u8) as char
}

/// A number written in decimal digits, without leading zeros.
pub open spec fn decimal_digits(n: nat) -> Seq<char>
    decreases n,
{
    if n < 10 {
        seq![digit_char(n)]
    } else {
        decimal_digits(n / 10).push(digit_char(n % 10))
    }
}

fn push_decimal(out: &mut String, n: u32)
    ensures
        final(out)@ == old(out)@ + decimal_digits(n as nat),
    decreases n,
{
    if n >= 10 {
        push_decimal(out, n / 10);
    }
    let digit: u8 = (48 + n % 10) as u8;
    out.push(digit as char);
}

/// Writes a number in decimal digits.
pub fn decimal_string(n: u32) -> (out: String)
    ensures
        out@ == decimal_digits(n as nat),
{
    let mut out = String::new();
    push_decimal(&mut out, n);
    out
}

/// The ending after which `line` reads as it is: a line feed, with a
/// carriage return before it where the line ends with one, which would else
/// be taken for part of the ending.
pub open spec fn ending_of(line: Seq<char>) -> Seq<char> {
    if line.len() > 0 && line.last() == '\r' {
        seq!['\r', '\n']
    } else {
        seq!['\n']
    }
}

/// Lines written out, each with its ending.
pub open spec fn written(lines: Seq<Seq<char>>) -> Seq<char>
    decreases lines.len(),
{
    if lines.len() == 0 {
        Seq::empty()
    } else {
        written(lines.drop_last()) + lines.last() + ending_of(lines.last())
    }
}

/// Whether a text is complete: it is empty, or its last line has its ending.
pub open spec fn complete(s: Seq<char>) -> bool {
    s.len() == 0 || s.last() == '\n'
}

/// What completes a text: nothing where it is complete, else the ending after
/// which its last line reads as it is.
pub open spec fn completion(s: Seq<char>) -> Seq<char> {
    if complete(s) {
        Seq::empty()
    } else {
        ending_of(s)
    }
}

fn push_ending(out: &mut String, ends_with_cr: bool)
    ensures
        final(out)@ == old(out)@ + if ends_with_cr {
            seq!['\r', '\n']
        } else {
            seq!['\n']
        },
{
    if ends_with_cr {
        out.push('\r');
    }
    out.push('\n');
    assert(final(out)@ =~= old(out)@ + if ends_with_cr {
        seq!['\r', '\n']
    } else {
        seq!['\n']
    });
}

fn ends_with_cr(chars: &Vec<char>) -> (r: bool)
    ensures
        r == (chars@.len() > 0 && chars@.last() == '\r'),
{
    chars.len() > 0 && chars[chars.len() - 1] == '\r'
}

/// Writes lines out, each with its ending.
pub fn write_lines(lines: &Vec<String>) -> (out: String)
    ensures
        out@ == written(texts(lines@)),
{
    let mut out = String::new();
    let mut i: usize = 0;
    while i < lines.len()
        invariant
            i <= lines.len(),
            out@ == written(texts(lines@).take(i as int)),
        decreases lines.len() - i,
    {
        let ghost next = texts(lines@).take(i + 1);
        assert(next.drop_last() =~= texts(lines@).take(i as int));
        let line = lines[i].as_str();
        out.append(line);
        push_ending(&mut out, ends_with_cr(&chars_of(line)));
        i += 1;
    }
    assert(texts(lines@).take(i as int) =~= texts(lines@));
    out
}

/// Completes a text: it is returned as it is where it is complete, else with
/// the ending after which its last line reads as it is.
pub fn complete_text(text: &str) -> (out: String)
    ensures
        out@ == text@ + completion(text@),
{
    let chars = chars_of(text);
    let mut out = String::from_str(text);
    if chars.len() > 0 && chars[chars.len() - 1] != '\n' {
        push_ending(&mut out, ends_with_cr(&chars));
    } else {
        assert(text@ + completion(text@) =~= text@);
    }
    out
}

/// Whether a text holds no occurrence of `sep`.
pub open spec fn free_of(s: Seq<char>, sep: char) -> bool {
    forall|i: int| 0 <= i < s.len() ==> s[i] != sep
}

/// A text without a separator is a single piece.
pub proof fn lemma_split_on_single(s: Seq<char>, sep: char)
    requires
        free_of(s, sep),
    ensures
        split_on(s, sep) == seq![s],
    decreases s.len(),
{
    if s.len() == 0 {
        assert(s =~= Seq::<char>::empty());
    } else {
        lemma_split_on_single(s.drop_last(), sep);
        assert(s.drop_last().push(s.last()) =~= s);
    }
}

/// The pieces of two texts put together: the last piece of the first and the
/// first piece of the second grow into one.
pub proof fn lemma_split_on_concat(a: Seq<char>, b: Seq<char>, sep: char)
    ensures
        split_on(a + b, sep) == split_on(a, sep).drop_last().push(
            split_on(a, sep).last() + split_on(b, sep)[0],
        ) + split_on(b, sep).drop_first(),
    decreases b.len(),
{
    lemma_split_on_nonempty(a, sep);
    lemma_split_on_nonempty(b, sep);
    if b.len() > 0 {
        let init = b.drop_last();
        lemma_split_on_nonempty(init, sep);
        lemma_split_on_concat(a, init, sep);
        assert((a + b).drop_last() =~= a + init);
    }
}

/// No piece holds the separator.
pub proof fn lemma_pieces_free_of_sep(s: Seq<char>, sep: char)
    ensures
        forall|i: int| 0 <= i < split_on(s, sep).len() ==> free_of(#[trigger] split_on(s, sep)[i], sep),
    decreases s.len(),
{
    if s.len() > 0 {
        lemma_pieces_free_of_sep(s.drop_last(), sep);
        lemma_split_on_nonempty(s.drop_last(), sep);
    }
}

/// No line holds a line feed.
pub proof fn lemma_lines_free_of_line_feed(s: Seq<char>)
    ensures
        forall|i: int| 0 <= i < lines(s).len() ==> free_of(#[trigger] lines(s)[i], '\n'),
{
    lemma_pieces_free_of_sep(s, '\n');
    lemma_split_on_nonempty(s, '\n');
}

/// A text that does not end with the separator ends with a piece that is not
/// empty and ends as the text does.
pub proof fn lemma_last_piece(s: Seq<char>, sep: char)
    requires
        s.len() > 0,
        s.last() != sep,
    ensures
        split_on(s, sep).last().len() > 0,
        split_on(s, sep).last().last() == s.last(),
{
    lemma_split_on_nonempty(s.drop_last(), sep);
}

/// The pieces of a line with its ending: the line, with the carriage return
/// of the ending where there is one, and an empty piece.
proof fn lemma_pieces_of_ended_line(line: Seq<char>)
    requires
        free_of(line, '\n'),
    ensures
        split_on(line + ending_of(line), '\n').len() == 2,
        without_cr(split_on(line + ending_of(line), '\n')[0]) == line,
        split_on(line + ending_of(line), '\n')[1].len() == 0,
{
    let whole = line + ending_of(line);
    let piece = whole.drop_last();
    assert(whole.last() == '\n');
    assert(free_of(piece, '\n'));
    lemma_split_on_single(piece, '\n');
    if line.len() > 0 && line.last() == '\r' {
        assert(piece =~= line.push('\r'));
        assert(piece.drop_last() =~= line);
    } else {
        assert(piece =~= line);
    }
}

/// A line appended with its ending to a complete text is one more line, and
/// the text is complete again.
pub proof fn lemma_lines_push(s: Seq<char>, line: Seq<char>)
    requires
        complete(s),
        free_of(line, '\n'),
    ensures
        lines(s + line + ending_of(line)) == lines(s).push(line),
        complete(s + line + ending_of(line)),
{
    let ended = line + ending_of(line);
    let before = split_on(s, '\n');
    let added = split_on(ended, '\n');
    lemma_split_on_nonempty(s, '\n');
    lemma_pieces_of_ended_line(line);
    lemma_split_on_concat(s, ended, '\n');
    assert(s + line + ending_of(line) =~= s + ended);
    assert(before.last().len() == 0) by {
        if s.len() > 0 {
            lemma_split_on_nonempty(s.drop_last(), '\n');
        }
    }
    assert(before.last() + added[0] =~= added[0]);
    let after = split_on(s + ended, '\n');
    assert(after =~= before.drop_last().push(added[0]).push(added[1]));
    assert(lines(s + ended) =~= lines(s).push(line));
}

/// Lines that hold no line feed are the lines of what they are written to,
/// which is a complete text.
pub proof fn lemma_lines_of_written(list: Seq<Seq<char>>)
    requires
        forall|i: int| 0 <= i < list.len() ==> free_of(#[trigger] list[i], '\n'),
    ensures
        lines(written(list)) == list,
        complete(written(list)),
    decreases list.len(),
{
    if list.len() == 0 {
        assert(lines(written(list)) =~= list);
    } else {
        let init = list.drop_last();
        assert forall|i: int| 0 <= i < init.len() implies free_of(#[trigger] init[i], '\n') by {
            assert(init[i] == list[i]);
        }
        lemma_lines_of_written(init);
        lemma_lines_push(written(init), list.last());
        assert(init.push(list.last()) =~= list);
    }
}

/// A completed text has the lines that it had, and is complete.
pub proof fn lemma_completion(s: Seq<char>)
    ensures
        lines(s + completion(s)) == lines(s),
        complete(s + completion(s)),
{
    if complete(s) {
        assert(s + completion(s) =~= s);
    } else {
        let ending = ending_of(s);
        let before = split_on(s, '\n');
        let added = split_on(ending, '\n');
        lemma_split_on_nonempty(s, '\n');
        lemma_last_piece(s, '\n');
        lemma_split_on_concat(s, ending, '\n');
        assert(ending.drop_last() =~= if s.last() == '\r' {
            seq!['\r']
        } else {
            Seq::<char>::empty()
        });
        lemma_split_on_single(ending.drop_last(), '\n');
        assert(added =~= seq![ending.drop_last(), Seq::<char>::empty()]);
        let after = split_on(s + ending, '\n');
        assert(after =~= before.drop_last().push(before.last() + added[0]).push(
            Seq::<char>::empty(),
        ));
        if s.last() == '\r' {
            assert((before.last() + added[0]).drop_last() =~= before.last());
        } else {
            assert(before.last() + added[0] =~= before.last());
        }
        assert(lines(s + ending) =~= lines(s));
    }
}

} // verus!
