//! Text primitives over sequences of characters: comparison, search,
//! splitting into fields and lines, and trimming of white space.
//!
//! Every executable function here is stated against a specification function
//! on `Seq<char>`, the view of a string.

use vstd::prelude::*;

verus! {

/// Position of the first `c` in `s`, or `s.len()` when `s` holds none.
pub open spec fn first_index(s: Seq<char>, c: char) -> int
    decreases s.len(),
{
    if s.len() == 0 {
        0
    } else if s[0] == c {
        0
    } else {
        1 + first_index(s.drop_first(), c)
    }
}

/// `first_index` is the one position before which no `c` stands and at which
/// one does, or the length.
pub proof fn lemma_first_index_is(s: Seq<char>, c: char, k: int)
    requires
        0 <= k <= s.len(),
        forall|j: int| 0 <= j < k ==> s[j] != c,
        k < s.len() ==> s[k] == c,
    ensures
        first_index(s, c) == k,
    decreases s.len(),
{
    if s.len() != 0 && k != 0 {
        let t = s.drop_first();
        assert forall|j: int| 0 <= j < k - 1 implies t[j] != c by {
            assert(t[j] == s[j + 1]);
        }
        lemma_first_index_is(t, c, k - 1);
    }
}

/// What `first_index` returns: a position within bounds, with no `c` before it.
pub proof fn lemma_first_index_bounds(s: Seq<char>, c: char)
    ensures
        0 <= first_index(s, c) <= s.len(),
        forall|j: int| 0 <= j < first_index(s, c) ==> s[j] != c,
        first_index(s, c) < s.len() ==> s[first_index(s, c)] == c,
        first_index(s, c) == s.len() <==> !s.contains(c),
    decreases s.len(),
{
    if s.len() != 0 && s[0] != c {
        let t = s.drop_first();
        lemma_first_index_bounds(t, c);
        assert forall|j: int| 0 <= j < first_index(s, c) implies s[j] != c by {
            if j > 0 {
                assert(s[j] == t[j - 1]);
            }
        }
        if first_index(s, c) < s.len() {
            assert(s[first_index(s, c)] == t[first_index(t, c)]);
        }
    }
    if first_index(s, c) < s.len() {
        assert(s.contains(c));
    }
}

/// The pieces of `s` between occurrences of `sep`. There is always at least
/// one piece; an empty `s` gives one empty piece.
pub open spec fn fields(s: Seq<char>, sep: char) -> Seq<Seq<char>>
    decreases s.len(),
{
    let i = first_index(s, sep);
    if 0 <= i < s.len() {
        seq![s.take(i)] + fields(s.skip(i + 1), sep)
    } else {
        seq![s]
    }
}

/// A line without the carriage return that may end it.
pub open spec fn without_carriage_return(line: Seq<char>) -> Seq<char> {
    if line.len() > 0 && line.last() == '\r' {
        line.drop_last()
    } else {
        line
    }
}

/// The lines of `s`. A line ends at a line feed, or at a carriage return
/// directly followed by one; neither belongs to the line. The last line
/// needs no ending, and an ending at the very end starts no further line.
pub open spec fn lines(s: Seq<char>) -> Seq<Seq<char>>
    decreases s.len(),
{
    if s.len() == 0 {
        seq![]
    } else {
        let i = first_index(s, '\n');
        if 0 <= i < s.len() {
            seq![without_carriage_return(s.take(i))] + lines(s.skip(i + 1))
        } else {
            seq![s]
        }
    }
}

/// The characters that count as white space: the code points with the Unicode
/// property `White_Space`.
pub open spec fn is_whitespace(c: char) -> bool {
    ('\u{9}' <= c && c <= '\u{D}') || c == ' ' || c == '\u{85}' || c == '\u{A0}' || c
        == '\u{1680}' || ('\u{2000}' <= c && c <= '\u{200A}') || c == '\u{2028}' || c
        == '\u{2029}' || c == '\u{202F}' || c == '\u{205F}' || c == '\u{3000}'
}

/// `s` without its leading white space.
pub open spec fn trim_start(s: Seq<char>) -> Seq<char>
    decreases s.len(),
{
    if s.len() > 0 && is_whitespace(s[0]) {
        trim_start(s.drop_first())
    } else {
        s
    }
}

/// `s` without its trailing white space.
pub open spec fn trim_end(s: Seq<char>) -> Seq<char>
    decreases s.len(),
{
    if s.len() > 0 && is_whitespace(s.last()) {
        trim_end(s.drop_last())
    } else {
        s
    }
}

/// `s` without leading and trailing white space.
pub open spec fn trimmed(s: Seq<char>) -> Seq<char> {
    trim_end(trim_start(s))
}

/// Whether `needle` occurs in `hay` as a contiguous run. The empty run occurs
/// in every sequence.
pub open spec fn occurs_in(needle: Seq<char>, hay: Seq<char>) -> bool {
    exists|i: int| occurs_at(needle, hay, i)
}

/// Whether `needle` stands in `hay` from position `i` on.
pub open spec fn occurs_at(needle: Seq<char>, hay: Seq<char>, i: int) -> bool {
    0 <= i && i + needle.len() <= hay.len() && hay.subrange(i, i + needle.len()) == needle
}

/// No piece of `fields(s, sep)` holds `sep`, and the pieces, with `sep`
/// between each two of them, are `s`.
pub proof fn lemma_fields(s: Seq<char>, sep: char)
    ensures
        fields(s, sep).len() >= 1,
        forall|i: int|
            0 <= i < fields(s, sep).len() ==> !(#[trigger] fields(s, sep)[i]).contains(sep),
        joined(fields(s, sep), sep) == s,
    decreases s.len(),
{
    lemma_first_index_bounds(s, sep);
    let i = first_index(s, sep);
    if 0 <= i < s.len() {
        let head = s.take(i);
        let rest = s.skip(i + 1);
        lemma_fields(rest, sep);
        let pieces = fields(s, sep);
        assert(pieces =~= seq![head] + fields(rest, sep));
        assert(!head.contains(sep)) by {
            if head.contains(sep) {
                let j = choose|j: int| 0 <= j < head.len() && head[j] == sep;
                assert(s[j] == sep);
            }
        }
        assert forall|k: int| 0 <= k < pieces.len() implies !(#[trigger] pieces[k]).contains(
            sep,
        ) by {
            if k > 0 {
                assert(pieces[k] == fields(rest, sep)[k - 1]);
            }
        }
        assert(pieces.drop_first() =~= fields(rest, sep));
        assert(pieces[0] == head);
        assert(head + seq![sep] + rest =~= s);
    } else {
        assert(fields(s, sep) =~= seq![s]);
        assert(fields(s, sep).drop_first() =~= Seq::<Seq<char>>::empty());
        assert(s + Seq::<char>::empty() =~= s);
    }
}

/// The pieces with `sep` between each two of them.
pub open spec fn joined(pieces: Seq<Seq<char>>, sep: char) -> Seq<char>
    decreases pieces.len(),
{
    if pieces.len() == 0 {
        seq![]
    } else if pieces.len() == 1 {
        pieces[0]
    } else {
        pieces[0] + seq![sep] + joined(pieces.drop_first(), sep)
    }
}

/// No line of `lines(s)` holds a line feed.
pub proof fn lemma_lines_hold_no_line_feed(s: Seq<char>)
    ensures
        forall|i: int| 0 <= i < lines(s).len() ==> !(#[trigger] lines(s)[i]).contains('\n'),
    decreases s.len(),
{
    if s.len() > 0 {
        lemma_first_index_bounds(s, '\n');
        let i = first_index(s, '\n');
        if 0 <= i < s.len() {
            let head = s.take(i);
            let line = without_carriage_return(head);
            let rest = s.skip(i + 1);
            lemma_lines_hold_no_line_feed(rest);
            assert(!line.contains('\n')) by {
                if line.contains('\n') {
                    let j = choose|j: int| 0 <= j < line.len() && line[j] == '\n';
                    assert(s[j] == '\n');
                }
            }
            assert forall|k: int| 0 <= k < lines(s).len() implies !(#[trigger] lines(
                s,
            )[k]).contains('\n') by {
                if k > 0 {
                    assert(lines(s)[k] == lines(rest)[k - 1]);
                }
            }
        }
    }
}

/// What trimming leaves is a run of `s`, and white space neither begins nor
/// ends it.
pub proof fn lemma_trimmed(s: Seq<char>)
    ensures
        exists|from: int, to: int|
            0 <= from <= to <= s.len() && #[trigger] s.subrange(from, to) == trimmed(s),
        trimmed(s).len() > 0 ==> !is_whitespace(trimmed(s)[0]) && !is_whitespace(
            trimmed(s).last(),
        ),
        trimmed(trimmed(s)) == trimmed(s),
{
    lemma_trim_start(s);
    let front = trim_start(s);
    lemma_trim_end(front);
    let from = choose|from: int| 0 <= from <= s.len() && s.skip(from) == front;
    let to = choose|to: int| 0 <= to <= front.len() && front.take(to) == trim_end(front);
    assert(s.subrange(from, from + to) =~= trimmed(s));
    let bare = trimmed(s);
    if bare.len() > 0 {
        assert(bare[0] == front[0]);
        assert(trim_start(bare) == bare);
        assert(trim_end(bare) == bare);
    } else {
        assert(trim_start(bare) == bare);
        assert(trim_end(bare) == bare);
    }
}

/// What `trim_start` leaves is the end of `s` from some place on, and no
/// white space begins it.
pub proof fn lemma_trim_start(s: Seq<char>)
    ensures
        exists|from: int| 0 <= from <= s.len() && #[trigger] s.skip(from) == trim_start(s),
        trim_start(s).len() > 0 ==> !is_whitespace(trim_start(s)[0]),
    decreases s.len(),
{
    if s.len() > 0 && is_whitespace(s[0]) {
        let rest = s.drop_first();
        lemma_trim_start(rest);
        let from = choose|from: int| 0 <= from <= rest.len() && rest.skip(from) == trim_start(rest);
        assert(s.skip(from + 1) =~= rest.skip(from));
    } else {
        assert(s.skip(0) =~= s);
    }
}

/// What `trim_end` leaves is the beginning of `s` up to some place, and no
/// white space ends it; where no white space begins `s`, none begins what is
/// left.
pub proof fn lemma_trim_end(s: Seq<char>)
    ensures
        exists|to: int| 0 <= to <= s.len() && #[trigger] s.take(to) == trim_end(s),
        trim_end(s).len() > 0 ==> !is_whitespace(trim_end(s).last()) && trim_end(s)[0] == s[0],
    decreases s.len(),
{
    if s.len() > 0 && is_whitespace(s.last()) {
        let rest = s.drop_last();
        lemma_trim_end(rest);
        let to = choose|to: int| 0 <= to <= rest.len() && rest.take(to) == trim_end(rest);
        assert(s.take(to) =~= rest.take(to));
    } else {
        assert(s.take(s.len() as int) =~= s);
    }
}

/// The lowercase form of a text under the Unicode rules for lower case.
pub uninterp spec fn lowercase(s: Seq<char>) -> Seq<char>;

/// `str::to_lowercase` of the standard library: the text with each character
/// replaced by its lowercase equivalent under the Unicode rules. The result
/// depends on the text alone; the contract gives it its name and says nothing
/// more of it.
#[verifier::external_body]
pub(crate) fn to_lowercase(s: &str) -> (lower: String)
    ensures
        lower@ == lowercase(s@),
{
    s.to_lowercase()
}

/// Whether `c` is one of the digits `0` to `9`.
pub open spec fn is_decimal_digit(c: char) -> bool {
    '0' <= c && c <= '9'
}

/// The number that a sequence of decimal digits writes.
pub open spec fn decimal_value(digits: Seq<char>) -> nat
    decreases digits.len(),
{
    if digits.len() == 0 {
        0
    } else {
        decimal_value(digits.drop_last()) * 10 + (digits.last() as nat - '0' as nat) as nat
    }
}

/// The digits of a number written in decimal: the text without the plus sign
/// that may stand first.
pub open spec fn unsigned_digits(text: Seq<char>) -> Seq<char> {
    if text.len() > 0 && text[0] == '+' {
        text.drop_first()
    } else {
        text
    }
}

/// The number below 65536 that a text writes in decimal, if it writes one:
/// one or more digits, with or without a plus sign before them, and nothing
/// else. Zeros may stand first.
pub open spec fn decimal_u16(text: Seq<char>) -> Option<u16> {
    let digits = unsigned_digits(text);
    if digits.len() > 0 && (forall|i: int| 0 <= i < digits.len() ==> is_decimal_digit(
        #[trigger] digits[i],
    )) && decimal_value(digits) <= 65535 {
        Some(decimal_value(digits) as u16)
    } else {
        None
    }
}

/// The characters of a string, in a vector.
pub fn chars_of(s: &str) -> (v: Vec<char>)
    ensures
        v@ == s@,
{
    let mut v: Vec<char> = Vec::new();
    for c in it: s.chars()
        invariant
            v@ == it.seq().take(it.index() as int),
            it.seq() == s@,
    {
        v.push(c);
    }
    v
}

/// Whether two strings hold the same characters.
pub fn str_eq(a: &str, b: &str) -> (r: bool)
    ensures
        r == (a@ == b@),
{
    let x = a.as_bytes();
    let y = b.as_bytes();
    proof {
        vstd::utf8::encode_utf8_decode_utf8(a@);
        vstd::utf8::encode_utf8_decode_utf8(b@);
    }
    assert((a@ == b@) == (x@ == y@));
    if x.len() != y.len() {
        return false;
    }
    let n = x.len();
    let mut i: usize = 0;
    while i < n
        invariant
            i <= n,
            n == x@.len(),
            n == y@.len(),
            (a@ == b@) == (x@ == y@),
            forall|j: int| 0 <= j < i ==> x@[j] == y@[j],
        decreases n - i,
    {
        if x[i] != y[i] {
            assert(x@[i as int] != y@[i as int]);
            return false;
        }
        i += 1;
    }
    assert(x@ =~= y@);
    true
}

/// Whether `c` counts as white space.
pub fn char_is_whitespace(c: char) -> (r: bool)
    ensures
        r == is_whitespace(c),
{
    ('\u{9}' <= c && c <= '\u{D}') || c == ' ' || c == '\u{85}' || c == '\u{A0}' || c
        == '\u{1680}' || ('\u{2000}' <= c && c <= '\u{200A}') || c == '\u{2028}' || c
        == '\u{2029}' || c == '\u{202F}' || c == '\u{205F}' || c == '\u{3000}'
}

/// The first position at or after `from` where `c` stands, or the length.
pub(crate) fn find_char(v: &Vec<char>, from: usize, c: char) -> (at: usize)
    requires
        from <= v@.len(),
    ensures
        from <= at <= v@.len(),
        at - from == first_index(v@.skip(from as int), c),
{
    let n = v.len();
    let mut at: usize = from;
    while at < n && v[at] != c
        invariant
            from <= at <= n,
            n == v@.len(),
            forall|j: int| from <= j < at ==> v@[j] != c,
        decreases n - at,
    {
        at += 1;
    }
    proof {
        lemma_first_index_is(v@.skip(from as int), c, at - from);
    }
    at
}

/// The pieces of `s` between occurrences of `sep`.
pub fn split_fields(s: &str, sep: char) -> (parts: Vec<String>)
    ensures
        parts.deep_view() == fields(s@, sep),
{
    let chars = chars_of(s);
    let n = chars.len();
    let mut parts: Vec<String> = Vec::new();
    let mut start: usize = 0;
    let mut done = false;
    assert(s@.skip(0) =~= s@);
    while !done
        invariant
            start <= n,
            n == s@.len(),
            chars@ == s@,
            !done ==> fields(s@, sep) == parts.deep_view() + fields(s@.skip(start as int), sep),
            done ==> fields(s@, sep) == parts.deep_view(),
        decreases (if done { 0 } else { n - start + 1 }),
    {
        let end = find_char(&chars, start, sep);
        let piece = String::from_str(s.substring_char(start, end));
        let ghost before = parts.deep_view();
        let ghost rest = s@.skip(start as int);
        parts.push(piece);
        proof {
            assert(piece@ == rest.take(end - start));
            assert(parts.deep_view() =~= before + seq![piece@]);
        }
        if end == n {
            done = true;
            proof {
                assert(rest.take(end - start) =~= rest);
            }
        } else {
            proof {
                assert(rest.skip(end - start + 1) =~= s@.skip(end + 1));
                assert(before + (seq![piece@] + fields(s@.skip(end + 1), sep)) =~= before + seq![
                    piece@,
                ] + fields(s@.skip(end + 1), sep));
            }
            start = end + 1;
        }
    }
    parts
}

/// The lines of `s`, without their endings.
pub fn split_lines(s: &str) -> (out: Vec<String>)
    ensures
        out.deep_view() == lines(s@),
{
    let chars = chars_of(s);
    let n = chars.len();
    let mut out: Vec<String> = Vec::new();
    let mut start: usize = 0;
    assert(s@.skip(0) =~= s@);
    while start < n
        invariant
            start <= n,
            n == s@.len(),
            chars@ == s@,
            lines(s@) == out.deep_view() + lines(s@.skip(start as int)),
        decreases n - start,
    {
        let end = find_char(&chars, start, '\n');
        let ghost before = out.deep_view();
        let ghost rest = s@.skip(start as int);
        if end == n {
            let piece = String::from_str(s.substring_char(start, end));
            out.push(piece);
            proof {
                assert(piece@ =~= rest);
                assert(out.deep_view() =~= before + seq![piece@]);
                assert(lines(s@.skip(n as int)) =~= seq![]);
            }
            start = n;
        } else {
            let stop = if end > start && chars[end - 1] == '\r' {
                end - 1
            } else {
                end
            };
            let piece = String::from_str(s.substring_char(start, stop));
            out.push(piece);
            proof {
                assert(rest.take(end - start).len() == end - start);
                if end > start {
                    assert(rest.take(end - start).last() == chars@[end - 1]);
                }
                assert(piece@ =~= without_carriage_return(rest.take(end - start)));
                assert(out.deep_view() =~= before + seq![piece@]);
                assert(rest.skip(end - start + 1) =~= s@.skip(end + 1));
                assert(before + (seq![piece@] + lines(s@.skip(end + 1))) =~= before + seq![piece@]
                    + lines(s@.skip(end + 1)));
            }
            start = end + 1;
        }
    }
    proof {
        assert(lines(s@.skip(start as int)) =~= seq![]);
        assert(out.deep_view() + Seq::<Seq<char>>::empty() =~= out.deep_view());
    }
    out
}

/// `s` without leading and trailing white space.
pub fn trim(s: &str) -> (t: String)
    ensures
        t@ == trimmed(s@),
{
    let chars = chars_of(s);
    let n = chars.len();
    let mut lo: usize = 0;
    assert(s@.skip(0) =~= s@);
    while lo < n && char_is_whitespace(chars[lo])
        invariant
            lo <= n,
            n == s@.len(),
            chars@ == s@,
            trim_start(s@) == trim_start(s@.skip(lo as int)),
        decreases n - lo,
    {
        proof {
            assert(s@.skip(lo as int).drop_first() =~= s@.skip(lo + 1));
        }
        lo += 1;
    }
    assert(trim_start(s@) == s@.skip(lo as int));
    let mut hi: usize = n;
    while hi > lo && char_is_whitespace(chars[hi - 1])
        invariant
            lo <= hi <= n,
            n == s@.len(),
            chars@ == s@,
            trimmed(s@) == trim_end(s@.subrange(lo as int, hi as int)),
        decreases hi - lo,
    {
        proof {
            assert(s@.subrange(lo as int, hi as int).drop_last() =~= s@.subrange(
                lo as int,
                hi - 1,
            ));
        }
        hi -= 1;
    }
    String::from_str(s.substring_char(lo, hi))
}

/// Whether `needle` stands in `hay` from position `at` on.
fn matches_at(hay: &Vec<char>, needle: &Vec<char>, at: usize) -> (r: bool)
    requires
        at + needle@.len() <= hay@.len(),
    ensures
        r == occurs_at(needle@, hay@, at as int),
{
    let m = needle.len();
    let n = hay.len();
    let mut k: usize = 0;
    while k < m
        invariant
            k <= m,
            m == needle@.len(),
            n == hay@.len(),
            at + m <= n,
            forall|j: int| 0 <= j < k ==> hay@[at + j] == needle@[j],
        decreases m - k,
    {
        if hay[at + k] != needle[k] {
            proof {
                assert(hay@.subrange(at as int, at + m)[k as int] != needle@[k as int]);
            }
            return false;
        }
        k += 1;
    }
    assert(hay@.subrange(at as int, at + m) =~= needle@);
    true
}

/// Whether `needle` occurs in `hay` as a contiguous run of characters.
pub fn contains(hay: &str, needle: &str) -> (r: bool)
    ensures
        r == occurs_in(needle@, hay@),
{
    let h = chars_of(hay);
    let p = chars_of(needle);
    if p.len() > h.len() {
        return false;
    }
    let last = h.len() - p.len();
    let mut at: usize = 0;
    loop
        invariant
            at <= last,
            last == h@.len() - p@.len(),
            h@ == hay@,
            p@ == needle@,
            forall|i: int| 0 <= i < at ==> !occurs_at(needle@, hay@, i),
        decreases last - at,
    {
        if matches_at(&h, &p, at) {
            return true;
        }
        if at == last {
            return false;
        }
        at += 1;
    }
}

/// The number below 65536 that `text` writes in decimal, if it writes one.
pub fn parse_u16(text: &str) -> (r: Option<u16>)
    ensures
        r == decimal_u16(text@),
{
    let chars = chars_of(text);
    let n = chars.len();
    let start: usize = if n > 0 && chars[0] == '+' {
        1
    } else {
        0
    };
    let ghost digits = unsigned_digits(text@);
    assert(digits =~= text@.skip(start as int));
    if start == n {
        return None;
    }
    let mut value: u32 = 0;
    let mut too_large = false;
    let mut i: usize = start;
    assert(digits.take(0) =~= Seq::<char>::empty());
    while i < n
        invariant
            start <= i <= n,
            n == chars@.len(),
            chars@ == text@,
            digits == text@.skip(start as int),
            digits == unsigned_digits(text@),
            forall|j: int| 0 <= j < i - start ==> is_decimal_digit(#[trigger] digits[j]),
            !too_large ==> value == decimal_value(digits.take(i - start)) && value <= 65535,
            too_large ==> decimal_value(digits.take(i - start)) > 65535,
        decreases n - i,
    {
        let c = chars[i];
        assert(digits[i - start] == c);
        if !('0' <= c && c <= '9') {
            assert(!is_decimal_digit(digits[i - start]));
            return None;
        }
        let digit: u32 = c as u32 - '0' as u32;
        proof {
            let next = digits.take(i - start + 1);
            assert(next.drop_last() =~= digits.take(i - start));
            assert(next.last() == c);
        }
        if !too_large {
            value = value * 10 + digit;
            if value > 65535 {
                too_large = true;
            }
        }
        i += 1;
    }
    assert(digits.take(n - start) =~= digits);
    if too_large {
        None
    } else {
        Some(value as u16)
    }
}

} // verus!
