//! Text as sequences of characters: splitting, trimming, joining and ordering.
//!
//! Every function here is stated over `Seq<char>`, the view of `str` and
//! `String`. The executable versions work on `Vec<char>` and convert at
//! their edges.

use vstd::prelude::*;

verus! {

/// The views of a sequence of character vectors.
pub open spec fn texts(parts: Seq<Vec<char>>) -> Seq<Seq<char>> {
    Seq::new(parts.len(), |i: int| parts[i]@)
}

/// The views of a sequence of strings.
pub open spec fn string_views(parts: Seq<String>) -> Seq<Seq<char>> {
    Seq::new(parts.len(), |i: int| parts[i]@)
}

/// The pairs of a list of pairs of strings, as sequences of characters.
pub open spec fn pair_views(pairs: Seq<(String, String)>) -> Seq<(Seq<char>, Seq<char>)> {
    Seq::new(pairs.len(), |i: int| (pairs[i].0@, pairs[i].1@))
}

/// Whether `c` has the Unicode property `White_Space`.
pub open spec fn is_space(c: char) -> bool {
    let n = c as u32;
    ||| 0x09 <= n <= 0x0D
    ||| n == 0x20
    ||| n == 0x85
    ||| n == 0xA0
    ||| n == 0x1680
    ||| 0x2000 <= n <= 0x200A
    ||| n == 0x2028
    ||| n == 0x2029
    ||| n == 0x202F
    ||| n == 0x205F
    ||| n == 0x3000
}

/// The index of the first character at or after `from` that is no white
/// space, or the length of `s` where there is none.
pub open spec fn skip_spaces(s: Seq<char>, from: int) -> int
    decreases s.len() - from,
{
    if 0 <= from < s.len() && is_space(s[from]) {
        skip_spaces(s, from + 1)
    } else {
        from
    }
}

/// The end of the text that is left of `s[..to]` when the white space at its
/// end is dropped.
pub open spec fn drop_spaces(s: Seq<char>, to: int) -> int
    decreases to,
{
    if 0 < to <= s.len() && is_space(s[to - 1]) {
        drop_spaces(s, to - 1)
    } else {
        to
    }
}

/// `s` without the white space at its start and at its end.
pub open spec fn trimmed(s: Seq<char>) -> Seq<char> {
    let from = skip_spaces(s, 0);
    let to = drop_spaces(s, s.len() as int);
    if from < to {
        s.subrange(from, to)
    } else {
        Seq::empty()
    }
}

/// The index of the first `c` at or after `from`, or the length of `s`
/// where there is none.
pub open spec fn find_char(s: Seq<char>, c: char, from: int) -> int
    decreases s.len() - from,
{
    if from < 0 || from >= s.len() {
        s.len() as int
    } else if s[from] == c {
        from
    } else {
        find_char(s, c, from + 1)
    }
}

/// The pieces of `s[start..]` between occurrences of `sep`, where
/// `s[start..pos]` is known to hold no `sep`.
pub open spec fn split_scan(s: Seq<char>, sep: char, start: int, pos: int) -> Seq<Seq<char>>
    decreases s.len() - pos,
{
    if pos < 0 || pos >= s.len() {
        seq![s.subrange(start, s.len() as int)]
    } else if s[pos] == sep {
        seq![s.subrange(start, pos)] + split_scan(s, sep, pos + 1, pos + 1)
    } else {
        split_scan(s, sep, start, pos + 1)
    }
}

/// The pieces of `s` between occurrences of `sep`: one more piece than `s`
/// holds separators, empty pieces included.
pub open spec fn split(s: Seq<char>, sep: char) -> Seq<Seq<char>> {
    split_scan(s, sep, 0, 0)
}

/// `piece` without a carriage return at its end.
pub open spec fn without_cr(piece: Seq<char>) -> Seq<char> {
    if piece.len() > 0 && piece.last() == '\r' {
        piece.drop_last()
    } else {
        piece
    }
}

/// The lines of `s`. A line ends at a line feed, or at a carriage return
/// that a line feed follows; neither belongs to the line. The last line
/// needs no line ending, and no empty line follows a final line ending.
pub open spec fn lines_of(s: Seq<char>) -> Seq<Seq<char>> {
    let pieces = split(s, '\n');
    let ended = pieces.drop_last().map_values(|p: Seq<char>| without_cr(p));
    if pieces.last().len() > 0 {
        ended.push(pieces.last())
    } else {
        ended
    }
}

/// The pieces, with `sep` between each two that follow each other.
pub open spec fn join(parts: Seq<Seq<char>>, sep: Seq<char>) -> Seq<char>
    decreases parts.len(),
{
    if parts.len() == 0 {
        Seq::empty()
    } else if parts.len() == 1 {
        parts[0]
    } else {
        join(parts.drop_last(), sep) + sep + parts.last()
    }
}

/// Whether `a[from..]` comes before `b[from..]` in the order of a
/// dictionary, characters ordered by their code points.
pub open spec fn lex_less_from(a: Seq<char>, b: Seq<char>, from: int) -> bool
    decreases b.len() - from,
{
    if from < 0 || from >= b.len() {
        false
    } else if from >= a.len() {
        true
    } else if a[from] != b[from] {
        (a[from] as u32) < (b[from] as u32)
    } else {
        lex_less_from(a, b, from + 1)
    }
}

/// Whether `a` comes before `b` in the order of a dictionary, characters
/// ordered by their code points. This is the order of `str`.
pub open spec fn lex_less(a: Seq<char>, b: Seq<char>) -> bool {
    lex_less_from(a, b, 0)
}

/// The characters of `s`, in order.
pub fn chars_of(s: &str) -> (v: Vec<char>)
    ensures
        v@ == s@,
{
    let mut v: Vec<char> = Vec::new();
    for c in it: s.chars()
        invariant
            v@ == it.seq().take(it.index() as int),
            it.seq() == s@,
    {
        v.push(c);
    }
    v
}

/// Appends one character to a string, by `String::push`: afterwards the
/// string holds what it held, followed by `c`.
#[verifier::external_body]
fn push_char(s: &mut String, c: char)
    ensures
        final(s)@ == old(s)@.push(c),
{
    s.push(c);
}

/// The string that holds the characters `chars[from..to]`.
pub fn string_of(chars: &Vec<char>, from: usize, to: usize) -> (s: String)
    requires
        from <= to <= chars.len(),
    ensures
        s@ == chars@.subrange(from as int, to as int),
{
    let mut s = String::new();
    let mut i: usize = from;
    while i < to
        invariant
            from <= i <= to <= chars.len(),
            s@ == chars@.subrange(from as int, i as int),
        decreases to - i,
    {
        push_char(&mut s, chars[i]);
        i += 1;
    }
    s
}

/// The string that holds all of `chars`.
pub fn string_from(chars: &Vec<char>) -> (s: String)
    ensures
        s@ == chars@,
{
    let s = string_of(chars, 0, chars.len());
    assert(chars@.subrange(0, chars.len() as int) == chars@);
    s
}

/// Whether two strings hold the same characters.
pub fn same_text(a: &str, b: &str) -> (same: bool)
    ensures
        same == (a@ == b@),
{
    a.to_owned() == b.to_owned()
}

/// Whether `c` is white space.
pub fn char_is_space(c: char) -> (b: bool)
    ensures
        b == is_space(c),
{
    let n: u32 = c as u32;
    (0x09 <= n && n <= 0x0D) || n == 0x20 || n == 0x85 || n == 0xA0 || n == 0x1680 || (0x2000 <= n
        && n <= 0x200A) || n == 0x2028 || n == 0x2029 || n == 0x202F || n == 0x205F || n == 0x3000
}

/// `chars` without the white space at its start and at its end.
pub fn trim_chars(chars: &Vec<char>) -> (out: Vec<char>)
    ensures
        out@ == trimmed(chars@),
{
    let n = chars.len();
    let mut from: usize = 0;
    while from < n && char_is_space(chars[from])
        invariant
            from <= n == chars.len(),
            skip_spaces(chars@, 0) == skip_spaces(chars@, from as int),
        decreases n - from,
    {
        from += 1;
    }
    let mut to: usize = n;
    while to > 0 && char_is_space(chars[to - 1])
        invariant
            to <= n == chars.len(),
            drop_spaces(chars@, n as int) == drop_spaces(chars@, to as int),
        decreases to,
    {
        to -= 1;
    }
    let mut out: Vec<char> = Vec::new();
    if from < to {
        let mut i: usize = from;
        while i < to
            invariant
                from <= i <= to <= chars.len(),
                out@ == chars@.subrange(from as int, i as int),
            decreases to - i,
        {
            out.push(chars[i]);
            i += 1;
        }
    }
    out
}

/// The index of the first `c` in `chars`, or the length of `chars` where
/// there is none.
pub fn find_in_chars(chars: &Vec<char>, c: char) -> (at: usize)
    ensures
        at == find_char(chars@, c, 0),
        at <= chars.len(),
{
    let mut at: usize = 0;
    while at < chars.len() && chars[at] != c
        invariant
            at <= chars.len(),
            find_char(chars@, c, 0) == find_char(chars@, c, at as int),
        decreases chars.len() - at,
    {
        at += 1;
    }
    at
}

/// The characters `chars[from..to]`.
pub fn chars_between(chars: &Vec<char>, from: usize, to: usize) -> (out: Vec<char>)
    requires
        from <= to <= chars.len(),
    ensures
        out@ == chars@.subrange(from as int, to as int),
{
    let mut out: Vec<char> = Vec::new();
    let mut i: usize = from;
    while i < to
        invariant
            from <= i <= to <= chars.len(),
            out@ == chars@.subrange(from as int, i as int),
        decreases to - i,
    {
        out.push(chars[i]);
        i += 1;
    }
    out
}

/// The pieces of `chars` between occurrences of `sep`.
pub fn split_chars(chars: &Vec<char>, sep: char) -> (parts: Vec<Vec<char>>)
    ensures
        texts(parts@) == split(chars@, sep),
{
    let n = chars.len();
    let mut parts: Vec<Vec<char>> = Vec::new();
    let mut piece: Vec<char> = Vec::new();
    let mut start: usize = 0;
    let mut pos: usize = 0;
    while pos < n
        invariant
            start <= pos <= n == chars.len(),
            piece@ == chars@.subrange(start as int, pos as int),
            split(chars@, sep) == texts(parts@) + split_scan(
                chars@,
                sep,
                start as int,
                pos as int,
            ),
        decreases n - pos,
    {
        let c = chars[pos];
        if c == sep {
            let ghost before = texts(parts@);
            parts.push(piece);
            assert(texts(parts@) == before.push(chars@.subrange(start as int, pos as int)));
            piece = Vec::new();
            start = pos + 1;
        } else {
            piece.push(c);
        }
        pos += 1;
    }
    let ghost before = texts(parts@);
    parts.push(piece);
    assert(texts(parts@) == before.push(chars@.subrange(start as int, n as int)));
    parts
}

/// The lines of `chars`.
pub fn lines_of_chars(chars: &Vec<char>) -> (lines: Vec<Vec<char>>)
    ensures
        texts(lines@) == lines_of(chars@),
{
    let mut pieces = split_chars(chars, '\n');
    let ghost all = texts(pieces@);
    assert(pieces.len() > 0) by {
        lemma_split_scan_nonempty(chars@, '\n', 0, 0);
    }
    let last = pieces.pop().unwrap();
    assert(texts(pieces@) == all.drop_last());
    let mut lines: Vec<Vec<char>> = Vec::new();
    let mut i: usize = 0;
    while i < pieces.len()
        invariant
            i <= pieces.len(),
            texts(lines@) == texts(pieces@).map_values(|p: Seq<char>| without_cr(p)).take(
                i as int,
            ),
        decreases pieces.len() - i,
    {
        let piece = &pieces[i];
        let mut line: Vec<char> = Vec::new();
        let keep: usize = if piece.len() > 0 && piece[piece.len() - 1] == '\r' {
            piece.len() - 1
        } else {
            piece.len()
        };
        let mut j: usize = 0;
        while j < keep
            invariant
                j <= keep <= piece.len(),
                line@ == piece@.take(j as int),
            decreases keep - j,
        {
            line.push(piece[j]);
            j += 1;
        }
        assert(line@ == without_cr(piece@)) by {
            assert(piece@.take(piece.len() as int) == piece@);
        }
        let ghost before = texts(lines@);
        lines.push(line);
        assert(texts(lines@) == before.push(without_cr(piece@)));
        i += 1;
    }
    assert(texts(lines@) == all.drop_last().map_values(|p: Seq<char>| without_cr(p)));
    if last.len() > 0 {
        let ghost before = texts(lines@);
        lines.push(last);
        assert(texts(lines@) == before.push(all.last()));
    }
    lines
}

/// The strings of `parts`, with `sep` between each two that follow each other.
pub fn join_strings(parts: &Vec<String>, sep: &str) -> (out: String)
    ensures
        out@ == join(string_views(parts@), sep@),
{
    let mut out = String::new();
    let mut i: usize = 0;
    while i < parts.len()
        invariant
            i <= parts.len(),
            out@ == join(string_views(parts@).take(i as int), sep@),
        decreases parts.len() - i,
    {
        let ghost done = string_views(parts@).take(i as int);
        let ghost next = string_views(parts@).take(i + 1);
        assert(next.drop_last() == done);
        assert(next.last() == parts@[i as int]@);
        if i > 0 {
            out.append(sep);
        }
        out.append(parts[i].as_str());
        assert(out@ == join(next, sep@)) by {
            if i == 0 {
                assert(done.len() == 0);
            }
        }
        i += 1;
    }
    assert(string_views(parts@).take(parts.len() as int) == string_views(parts@));
    out
}

/// Whether `a` comes before `b` in the order of a dictionary.
pub fn chars_less(a: &Vec<char>, b: &Vec<char>) -> (less: bool)
    ensures
        less == lex_less(a@, b@),
{
    let mut i: usize = 0;
    while i < b.len()
        invariant
            i <= b.len(),
            i <= a.len(),
            lex_less(a@, b@) == lex_less_from(a@, b@, i as int),
        decreases b.len() - i,
    {
        if i >= a.len() {
            return true;
        }
        if a[i] != b[i] {
            let x: u32 = a[i] as u32;
            let y: u32 = b[i] as u32;
            return x < y;
        }
        i += 1;
    }
    false
}

/// Whether `a` comes before `b` in the order of a dictionary.
pub fn text_less(a: &str, b: &str) -> (less: bool)
    ensures
        less == lex_less(a@, b@),
{
    let x = chars_of(a);
    let y = chars_of(b);
    chars_less(&x, &y)
}

/// No text comes before itself.
pub proof fn lemma_lex_less_irreflexive(a: Seq<char>, from: int)
    ensures
        !lex_less_from(a, a, from),
    decreases a.len() - from,
{
    if 0 <= from < a.len() {
        lemma_lex_less_irreflexive(a, from + 1);
    }
}

/// Of two texts that agree before `from` and differ, one comes before the
/// other.
pub proof fn lemma_lex_less_total(a: Seq<char>, b: Seq<char>, from: int)
    requires
        0 <= from <= a.len(),
        from <= b.len(),
        a.take(from) == b.take(from),
        a != b,
    ensures
        lex_less_from(a, b, from) || lex_less_from(b, a, from),
    decreases a.len() - from,
{
    if from < a.len() && from < b.len() {
        if a[from] == b[from] {
            assert(a.take(from + 1) == b.take(from + 1)) by {
                assert(a.take(from + 1) == a.take(from).push(a[from]));
                assert(b.take(from + 1) == b.take(from).push(b[from]));
            }
            lemma_lex_less_total(a, b, from + 1);
        } else {
            vstd::utf8::char_u32_cast(a[from], a[from] as u32);
            vstd::utf8::char_u32_cast(b[from], b[from] as u32);
        }
    } else if from == a.len() && from == b.len() {
        assert(a.take(from) == a);
        assert(b.take(from) == b);
    }
}

/// What comes before a text comes before all that the text comes before.
pub proof fn lemma_lex_less_transitive(a: Seq<char>, b: Seq<char>, c: Seq<char>, from: int)
    requires
        0 <= from,
        lex_less_from(a, b, from),
        lex_less_from(b, c, from),
    ensures
        lex_less_from(a, c, from),
    decreases c.len() - from,
{
    if from < a.len() && from < b.len() && from < c.len() {
        if a[from] == b[from] && b[from] == c[from] {
            lemma_lex_less_transitive(a, b, c, from + 1);
        }
    }
}

/// Whether `s` neither starts nor ends with white space.
pub open spec fn is_trimmed(s: Seq<char>) -> bool {
    s.len() == 0 || (!is_space(s[0]) && !is_space(s.last()))
}

/// Whether `c` occurs nowhere in `s`.
pub open spec fn has_no(s: Seq<char>, c: char) -> bool {
    forall|i: int| 0 <= i < s.len() ==> s[i] != c
}

/// A text that neither starts nor ends with white space is left as it is.
pub proof fn lemma_trimmed_of_trimmed(s: Seq<char>)
    requires
        is_trimmed(s),
    ensures
        trimmed(s) == s,
{
    if s.len() > 0 {
        assert(s.subrange(0, s.len() as int) == s);
    }
}

/// A space before a text that neither starts nor ends with white space is
/// trimmed away.
pub proof fn lemma_trimmed_after_space(s: Seq<char>)
    requires
        is_trimmed(s),
    ensures
        trimmed(seq![' '] + s) == s,
{
    let t = seq![' '] + s;
    assert(is_space(' '));
    assert(t[0] == ' ');
    if s.len() > 0 {
        assert(t[1] == s[0]);
        assert(t.last() == s.last());
        assert(skip_spaces(t, 1) == 1);
        assert(skip_spaces(t, 0) == 1);
        assert(t.subrange(1, t.len() as int) == s);
    } else {
        assert(skip_spaces(t, 1) == 1);
        assert(drop_spaces(t, 0) == 0);
        assert(drop_spaces(t, 1) == 0);
    }
}

/// The first `c` of a text stands after all that holds no `c`.
pub proof fn lemma_find_char_after(a: Seq<char>, c: char, b: Seq<char>, from: int)
    requires
        has_no(a, c),
        0 <= from <= a.len(),
    ensures
        find_char(a + seq![c] + b, c, from) == a.len(),
    decreases a.len() - from,
{
    let s = a + seq![c] + b;
    if from < a.len() {
        assert(s[from] == a[from]);
        lemma_find_char_after(a, c, b, from + 1);
    } else {
        assert(s[from] == c);
    }
}

/// A text without the separator is one piece.
pub proof fn lemma_split_scan_whole(s: Seq<char>, sep: char, start: int, pos: int)
    requires
        has_no(s, sep),
    ensures
        split_scan(s, sep, start, pos) == seq![s.subrange(start, s.len() as int)],
    decreases s.len() - pos,
{
    if 0 <= pos < s.len() {
        lemma_split_scan_whole(s, sep, start, pos + 1);
    }
}

/// A text without the separator is one piece.
pub proof fn lemma_split_whole(s: Seq<char>, sep: char)
    requires
        has_no(s, sep),
    ensures
        split(s, sep) == seq![s],
{
    lemma_split_scan_whole(s, sep, 0, 0);
    assert(s.subrange(0, s.len() as int) == s);
}

/// The pieces of a text from `start` on are those of what is left of it
/// when its first `k` characters are dropped.
pub proof fn lemma_split_scan_shift(s: Seq<char>, sep: char, start: int, pos: int, k: int)
    requires
        0 <= k <= start <= pos <= s.len(),
    ensures
        split_scan(s, sep, start, pos) == split_scan(s.skip(k), sep, start - k, pos - k),
    decreases s.len() - pos,
{
    let t = s.skip(k);
    if pos < s.len() {
        assert(t[pos - k] == s[pos]);
        if s[pos] == sep {
            assert(s.subrange(start, pos) == t.subrange(start - k, pos - k));
            lemma_split_scan_shift(s, sep, pos + 1, pos + 1, k);
        } else {
            lemma_split_scan_shift(s, sep, start, pos + 1, k);
        }
    } else {
        assert(s.subrange(start, s.len() as int) == t.subrange(start - k, t.len() as int));
    }
}

/// The pieces of two texts with a separator between them are those of the
/// first from `start` on, then those of the second.
pub proof fn lemma_split_scan_concat(a: Seq<char>, b: Seq<char>, sep: char, start: int, pos: int)
    requires
        0 <= start <= pos <= a.len(),
    ensures
        split_scan(a + seq![sep] + b, sep, start, pos) == split_scan(a, sep, start, pos) + split(
            b,
            sep,
        ),
    decreases a.len() - pos,
{
    let s = a + seq![sep] + b;
    if pos < a.len() {
        assert(s[pos] == a[pos]);
        if a[pos] == sep {
            assert(s.subrange(start, pos) == a.subrange(start, pos));
            lemma_split_scan_concat(a, b, sep, pos + 1, pos + 1);
            assert(seq![a.subrange(start, pos)] + (split_scan(a, sep, pos + 1, pos + 1) + split(
                b,
                sep,
            )) == (seq![a.subrange(start, pos)] + split_scan(a, sep, pos + 1, pos + 1)) + split(
                b,
                sep,
            ));
        } else {
            lemma_split_scan_concat(a, b, sep, start, pos + 1);
        }
    } else {
        assert(s[pos] == sep);
        assert(s.subrange(start, pos) == a.subrange(start, a.len() as int));
        lemma_split_scan_shift(s, sep, pos + 1, pos + 1, pos + 1);
        assert(s.skip(pos + 1) == b);
    }
}

/// The pieces of two texts with a separator between them are those of the
/// first, then those of the second.
pub proof fn lemma_split_concat(a: Seq<char>, b: Seq<char>, sep: char)
    ensures
        split(a + seq![sep] + b, sep) == split(a, sep) + split(b, sep),
{
    lemma_split_scan_concat(a, b, sep, 0, 0);
}

/// A split gives at least one piece.
pub proof fn lemma_split_scan_nonempty(s: Seq<char>, sep: char, start: int, pos: int)
    ensures
        split_scan(s, sep, start, pos).len() > 0,
    decreases s.len() - pos,
{
    if pos < 0 || pos >= s.len() {
    } else if s[pos] == sep {
    } else {
        lemma_split_scan_nonempty(s, sep, start, pos + 1);
    }
}

} // verus!
