//! Splitting of byte text into lines and fields.
//!
//! The specification functions here say what a line and a field are; the
//! executable functions beside them compute exactly that.

use vstd::prelude::*;
use vstd::slice::slice_subrange;
use vstd::slice::slice_to_vec;
use vstd::string::is_ascii;
use vstd::string::is_ascii_spec_bytes;

verus! {

/// Line feed.
pub const LF: u8 = 10;

/// Carriage return.
pub const CR: u8 = 13;

/// The space that separates the fields of a line.
pub const SPACE: u8 = 32;

/// The slash that separates the parts of a face corner.
pub const SLASH: u8 = 47;

/// The bytes of text that holds ASCII characters only.
pub open spec fn ascii(s: Seq<char>) -> Seq<u8> {
    Seq::new(s.len(), |i: int| s[i] as u8)
}

/// The text of each element of `v`.
pub open spec fn views(v: Seq<Vec<u8>>) -> Seq<Seq<u8>> {
    v.map_values(|t: Vec<u8>| t@)
}

/// Position of the first `b` in `s`, or `s.len()` where `s` holds none.
pub open spec fn first_index(s: Seq<u8>, b: u8) -> int
    decreases s.len(),
{
    if s.len() == 0 || s[0] == b {
        0
    } else {
        1 + first_index(s.skip(1), b)
    }
}

/// `first_index` is in range, points at a `b` unless it is the length,
/// and no `b` stands before it.
pub proof fn lemma_first_index(s: Seq<u8>, b: u8)
    ensures
        0 <= first_index(s, b) <= s.len(),
        first_index(s, b) < s.len() ==> s[first_index(s, b)] == b,
        forall|j: int| 0 <= j < first_index(s, b) ==> s[j] != b,
    decreases s.len(),
{
    if s.len() == 0 || s[0] == b {
    } else {
        let t = s.skip(1);
        lemma_first_index(t, b);
        assert forall|j: int| 0 <= j < first_index(s, b) implies s[j] != b by {
            if j > 0 {
                assert(t[j - 1] == s[j]);
            }
        }
    }
}

/// An index that points at a `b` with none before it is the first index.
pub proof fn lemma_first_index_is(s: Seq<u8>, b: u8, i: int)
    requires
        0 <= i <= s.len(),
        i < s.len() ==> s[i] == b,
        forall|j: int| 0 <= j < i ==> s[j] != b,
    ensures
        first_index(s, b) == i,
{
    lemma_first_index(s, b);
    let f = first_index(s, b);
    if f < i {
        assert(s[f] != b);
    }
}

/// The pieces of `s` between occurrences of `sep`. There is always at least
/// one piece; two separators in a row enclose an empty piece.
pub open spec fn split(s: Seq<u8>, sep: u8) -> Seq<Seq<u8>>
    decreases s.len(),
    via split_decreases
{
    let i = first_index(s, sep);
    if i >= s.len() {
        seq![s]
    } else {
        seq![s.take(i)] + split(s.skip(i + 1), sep)
    }
}

#[via_fn]
proof fn split_decreases(s: Seq<u8>, sep: u8) {
    lemma_first_index(s, sep);
}

/// A split has at least one piece.
pub proof fn lemma_split_nonempty(s: Seq<u8>, sep: u8)
    ensures
        split(s, sep).len() >= 1,
{
    lemma_first_index(s, sep);
}

/// The pieces one after the other, with `sep` between each two.
pub open spec fn join(pieces: Seq<Seq<u8>>, sep: u8) -> Seq<u8>
    decreases pieces.len(),
{
    if pieces.len() == 0 {
        Seq::empty()
    } else if pieces.len() == 1 {
        pieces[0]
    } else {
        pieces[0] + seq![sep] + join(pieces.skip(1), sep)
    }
}

/// No piece of a split holds the separator, and the pieces joined by the
/// separator are the text that was split.
pub proof fn lemma_split_join(s: Seq<u8>, sep: u8)
    ensures
        forall|i: int, j: int|
            0 <= i < split(s, sep).len() && 0 <= j < split(s, sep)[i].len() ==> split(
                s,
                sep,
            )[i][j] != sep,
        join(split(s, sep), sep) == s,
    decreases s.len(),
{
    lemma_first_index(s, sep);
    let at = first_index(s, sep);
    if at >= s.len() {
        assert(split(s, sep) =~= seq![s]);
    } else {
        let rest = s.skip(at + 1);
        let tail = split(rest, sep);
        lemma_split_join(rest, sep);
        lemma_split_nonempty(rest, sep);
        let all = split(s, sep);
        assert(all == seq![s.take(at)] + tail);
        assert(all.skip(1) =~= tail);
        assert(all[0] == s.take(at));
        assert(join(all, sep) == s.take(at) + seq![sep] + join(tail, sep));
        assert(s.take(at) + seq![sep] + rest =~= s);
        assert forall|i: int, j: int| 0 <= i < all.len() && 0 <= j < all[i].len() implies all[i][j]
            != sep by {
            if i > 0 {
                assert(all[i] == tail[i - 1]);
            }
        }
    }
}

/// `s` without one carriage return at its end.
pub open spec fn strip_cr(s: Seq<u8>) -> Seq<u8> {
    if s.len() > 0 && s.last() == CR {
        s.drop_last()
    } else {
        s
    }
}

/// The lines of `text`. A line ends at a line feed, which is dropped
/// together with a carriage return just before it. Text after the last line
/// feed is a line of its own, kept as it stands, unless it is empty.
pub open spec fn lines(text: Seq<u8>) -> Seq<Seq<u8>>
    decreases text.len(),
    via lines_decreases
{
    let i = first_index(text, LF);
    if text.len() == 0 {
        Seq::empty()
    } else if i >= text.len() {
        seq![text]
    } else {
        seq![strip_cr(text.take(i))] + lines(text.skip(i + 1))
    }
}

#[via_fn]
proof fn lines_decreases(text: Seq<u8>) {
    lemma_first_index(text, LF);
}

/// White space of one byte: tab, line feed, vertical tab, form feed,
/// carriage return and space.
pub open spec fn is_blank(b: u8) -> bool {
    (9 <= b && b <= 13) || b == SPACE
}

/// White space of two bytes, as UTF-8 writes it: the next-line control
/// and the no-break space.
pub open spec fn is_blank_pair(a: u8, b: u8) -> bool {
    a == 0xC2 && (b == 0x85 || b == 0xA0)
}

/// White space of three bytes, as UTF-8 writes it: the ogham space mark,
/// the spaces of fixed width, the line and the paragraph separator, the
/// narrow no-break space, the medium mathematical space and the
/// ideographic space.
pub open spec fn is_blank_triple(a: u8, b: u8, c: u8) -> bool {
    ||| a == 0xE1 && b == 0x9A && c == 0x80
    ||| a == 0xE2 && b == 0x80 && ((0x80 <= c && c <= 0x8A) || c == 0xA8 || c == 0xA9 || c == 0xAF)
    ||| a == 0xE2 && b == 0x81 && c == 0x9F
    ||| a == 0xE3 && b == 0x80 && c == 0x80
}

/// How many bytes the white-space character takes that `s` starts with;
/// zero where it starts with none.
pub open spec fn blank_before(s: Seq<u8>) -> int {
    if s.len() >= 1 && is_blank(s[0]) {
        1
    } else if s.len() >= 2 && is_blank_pair(s[0], s[1]) {
        2
    } else if s.len() >= 3 && is_blank_triple(s[0], s[1], s[2]) {
        3
    } else {
        0
    }
}

/// How many bytes the white-space character takes that `s` ends with;
/// zero where it ends with none.
pub open spec fn blank_behind(s: Seq<u8>) -> int {
    let n = s.len() as int;
    if n >= 1 && is_blank(s[n - 1]) {
        1
    } else if n >= 2 && is_blank_pair(s[n - 2], s[n - 1]) {
        2
    } else if n >= 3 && is_blank_triple(s[n - 3], s[n - 2], s[n - 1]) {
        3
    } else {
        0
    }
}

/// `s` without the white space at its start.
pub open spec fn trim_start(s: Seq<u8>) -> Seq<u8>
    decreases s.len(),
{
    if blank_before(s) > 0 {
        trim_start(s.skip(blank_before(s)))
    } else {
        s
    }
}

/// `s` without the white space at its end.
pub open spec fn trim_end(s: Seq<u8>) -> Seq<u8>
    decreases s.len(),
{
    if blank_behind(s) > 0 {
        trim_end(s.take(s.len() - blank_behind(s)))
    } else {
        s
    }
}

/// `s` without the white space at either end.
pub open spec fn trim(s: Seq<u8>) -> Seq<u8> {
    trim_start(trim_end(s))
}

/// Copies `s[lo..hi]`.
pub fn copy_range(s: &[u8], lo: usize, hi: usize) -> (out: Vec<u8>)
    requires
        lo <= hi <= s@.len(),
    ensures
        out@ == s@.subrange(lo as int, hi as int),
{
    slice_to_vec(slice_subrange(s, lo, hi))
}

/// Finds the first `b` at or after `from`.
pub fn find(s: &[u8], from: usize, b: u8) -> (at: usize)
    requires
        from <= s@.len(),
    ensures
        from <= at <= s@.len(),
        at == from + first_index(s@.skip(from as int), b),
{
    let mut at: usize = from;
    while at < s.len() && s[at] != b
        invariant
            from <= at <= s@.len(),
            forall|j: int| from <= j < at ==> s@[j] != b,
        decreases s@.len() - at,
    {
        at = at + 1;
    }
    proof {
        lemma_first_index_is(s@.skip(from as int), b, at - from);
    }
    at
}

/// Splits `s` at every `sep`.
pub fn split_on(s: &[u8], sep: u8) -> (out: Vec<Vec<u8>>)
    ensures
        views(out@) == split(s@, sep),
{
    let mut out: Vec<Vec<u8>> = Vec::new();
    let mut start: usize = 0;
    proof {
        assert(s@.skip(0) == s@);
        assert(views(out@) + split(s@, sep) == split(s@, sep));
    }
    loop
        invariant_except_break
            start <= s@.len(),
            split(s@, sep) == views(out@) + split(s@.skip(start as int), sep),
        ensures
            views(out@) == split(s@, sep),
        decreases s@.len() - start,
    {
        let ghost rest = s@.skip(start as int);
        let ghost before = views(out@);
        let end = find(s, start, sep);
        let piece = copy_range(s, start, end);
        proof {
            lemma_first_index(rest, sep);
            assert(piece@ == rest.take(end - start));
        }
        out.push(piece);
        assert(views(out@) == before + seq![piece@]);
        if end == s.len() {
            assert(rest.take(end - start) == rest);
            break ;
        }
        assert(rest.skip(end - start + 1) == s@.skip(end + 1));
        start = end + 1;
    }
    out
}

/// Splits `text` into its lines.
pub fn split_lines(text: &[u8]) -> (out: Vec<Vec<u8>>)
    ensures
        views(out@) == lines(text@),
{
    let mut out: Vec<Vec<u8>> = Vec::new();
    let mut start: usize = 0;
    proof {
        assert(text@.skip(0) == text@);
        assert(views(out@) + lines(text@) == lines(text@));
    }
    while start < text.len()
        invariant
            start <= text@.len(),
            lines(text@) == views(out@) + lines(text@.skip(start as int)),
        decreases text@.len() - start,
    {
        let ghost rest = text@.skip(start as int);
        let ghost before = views(out@);
        let end = find(text, start, LF);
        proof {
            lemma_first_index(rest, LF);
        }
        if end == text.len() {
            let piece = copy_range(text, start, end);
            assert(piece@ == rest);
            out.push(piece);
            assert(views(out@) == before + seq![rest]);
            start = end;
            assert(lines(text@.skip(start as int)) == Seq::<Seq<u8>>::empty());
        } else {
            let stop = if end > start && text[end - 1] == CR {
                end - 1
            } else {
                end
            };
            let piece = copy_range(text, start, stop);
            assert(piece@ == strip_cr(rest.take(end - start)));
            out.push(piece);
            assert(views(out@) == before + seq![piece@]);
            assert(rest.skip(end - start + 1) == text@.skip(end + 1));
            start = end + 1;
        }
    }
    assert(lines(text@.skip(start as int)) == Seq::<Seq<u8>>::empty());
    out
}

/// Tells whether `b` is white space.
pub fn blank(b: u8) -> (r: bool)
    ensures
        r == is_blank(b),
{
    (9 <= b && b <= 13) || b == SPACE
}

/// Tells whether the two bytes are white space.
fn blank_pair(a: u8, b: u8) -> (r: bool)
    ensures
        r == is_blank_pair(a, b),
{
    a == 0xC2 && (b == 0x85 || b == 0xA0)
}

/// Tells whether the three bytes are white space.
fn blank_triple(a: u8, b: u8, c: u8) -> (r: bool)
    ensures
        r == is_blank_triple(a, b, c),
{
    (a == 0xE1 && b == 0x9A && c == 0x80) || (a == 0xE2 && b == 0x80 && ((0x80 <= c && c <= 0x8A)
        || c == 0xA8 || c == 0xA9 || c == 0xAF)) || (a == 0xE2 && b == 0x81 && c == 0x9F) || (a
        == 0xE3 && b == 0x80 && c == 0x80)
}

/// Measures the white-space character at the start of `s[lo..hi]`.
fn measure_before(s: &[u8], lo: usize, hi: usize) -> (n: usize)
    requires
        lo <= hi <= s@.len(),
    ensures
        n == blank_before(s@.subrange(lo as int, hi as int)),
        lo + n <= hi,
{
    let ghost part = s@.subrange(lo as int, hi as int);
    let left = hi - lo;
    if left >= 1 && blank(s[lo]) {
        1
    } else if left >= 2 && blank_pair(s[lo], s[lo + 1]) {
        2
    } else if left >= 3 && blank_triple(s[lo], s[lo + 1], s[lo + 2]) {
        3
    } else {
        0
    }
}

/// Measures the white-space character at the end of `s[..hi]`.
fn measure_behind(s: &[u8], hi: usize) -> (n: usize)
    requires
        hi <= s@.len(),
    ensures
        n == blank_behind(s@.take(hi as int)),
        n <= hi,
{
    if hi >= 1 && blank(s[hi - 1]) {
        1
    } else if hi >= 2 && blank_pair(s[hi - 2], s[hi - 1]) {
        2
    } else if hi >= 3 && blank_triple(s[hi - 3], s[hi - 2], s[hi - 1]) {
        3
    } else {
        0
    }
}

/// Copies `s` without the white space at either end.
pub fn trimmed(s: &[u8]) -> (out: Vec<u8>)
    ensures
        out@ == trim(s@),
{
    let mut hi: usize = s.len();
    assert(s@.take(hi as int) == s@);
    loop
        invariant_except_break
            hi <= s@.len(),
            trim_end(s@) == trim_end(s@.take(hi as int)),
        ensures
            hi <= s@.len(),
            trim_end(s@) == s@.take(hi as int),
        decreases hi,
    {
        let n = measure_behind(s, hi);
        if n == 0 {
            break ;
        }
        assert(s@.take(hi as int).take(hi - n) == s@.take(hi - n));
        hi = hi - n;
    }
    let mut lo: usize = 0;
    assert(s@.take(hi as int) == s@.subrange(0, hi as int));
    loop
        invariant_except_break
            lo <= hi <= s@.len(),
            trim(s@) == trim_start(s@.subrange(lo as int, hi as int)),
        ensures
            lo <= hi <= s@.len(),
            trim(s@) == s@.subrange(lo as int, hi as int),
        decreases hi - lo,
    {
        let n = measure_before(s, lo, hi);
        if n == 0 {
            break ;
        }
        assert(s@.subrange(lo as int, hi as int).skip(n as int) == s@.subrange(lo + n, hi as int));
        lo = lo + n;
    }
    copy_range(s, lo, hi)
}

/// Tells whether `a` and `b` hold the same bytes.
pub fn same_bytes(a: &[u8], b: &[u8]) -> (r: bool)
    ensures
        r == (a@ == b@),
{
    if a.len() != b.len() {
        return false;
    }
    let mut i: usize = 0;
    while i < a.len()
        invariant
            a@.len() == b@.len(),
            i <= a@.len(),
            forall|j: int| 0 <= j < i ==> a@[j] == b@[j],
        decreases a@.len() - i,
    {
        if a[i] != b[i] {
            return false;
        }
        i = i + 1;
    }
    assert(a@ =~= b@);
    true
}

/// Tells whether `token` spells the ASCII word `word`.
pub fn is_word(token: &[u8], word: &str) -> (r: bool)
    requires
        is_ascii(word),
    ensures
        r == (token@ == ascii(word@)),
{
    proof {
        is_ascii_spec_bytes(word);
    }
    same_bytes(token, word.as_bytes())
}

/// The bytes of `a` followed by those of `b`.
pub fn joined(a: &[u8], b: &[u8]) -> (out: Vec<u8>)
    ensures
        out@ == a@ + b@,
{
    let mut out: Vec<u8> = slice_to_vec(a);
    let mut i: usize = 0;
    while i < b.len()
        invariant
            i <= b@.len(),
            out@ == a@ + b@.take(i as int),
        decreases b@.len() - i,
    {
        out.push(b[i]);
        i = i + 1;
    }
    assert(b@.take(i as int) == b@);
    out
}

} // verus!
