//! Character-level text handling: counting, trimming and splitting, and on top
//! of them the delimiter choice and the tokenization of a sampled text.

use vstd::prelude::*;

verus! {

/// At most this many non-blank lines of a sample are tokenized.
pub const MAX_ROWS: usize = 50;

/// Whether `c` has the Unicode property `White_Space`.
pub open spec fn is_space(c: char) -> bool {
    let n = c as u32;
    ||| 0x09 <= n <= 0x0D
    ||| n == 0x20
    ||| n == 0x85
    ||| n == 0xA0
    ||| n == 0x1680
    ||| 0x2000 <= n <= 0x200A
    ||| n == 0x2028
    ||| n == 0x2029
    ||| n == 0x202F
    ||| n == 0x205F
    ||| n == 0x3000
}

/// Number of occurrences of `c` in `s`.
pub open spec fn occurrences(s: Seq<char>, c: char) -> nat
    decreases s.len(),
{
    if s.len() == 0 {
        0
    } else {
        occurrences(s.drop_last(), c) + if s.last() == c {
            1nat
        } else {
            0nat
        }
    }
}

/// The field delimiter of a sample: tab where tabs outnumber commas, else
/// semicolon where semicolons outnumber commas, else comma.
pub open spec fn delimiter_of(s: Seq<char>) -> char {
    if occurrences(s, '\t') > occurrences(s, ',') {
        '\t'
    } else if occurrences(s, ';') > occurrences(s, ',') {
        ';'
    } else {
        ','
    }
}

/// `s` without its leading white space.
pub open spec fn trim_start(s: Seq<char>) -> Seq<char>
    decreases s.len(),
{
    if s.len() > 0 && is_space(s.first()) {
        trim_start(s.drop_first())
    } else {
        s
    }
}

/// `s` without its trailing white space.
pub open spec fn trim_end(s: Seq<char>) -> Seq<char>
    decreases s.len(),
{
    if s.len() > 0 && is_space(s.last()) {
        trim_end(s.drop_last())
    } else {
        s
    }
}

/// `s` without leading and trailing white space.
pub open spec fn trimmed(s: Seq<char>) -> Seq<char> {
    trim_end(trim_start(s))
}

/// The pieces of `s` between occurrences of `sep`. Every occurrence closes one
/// piece and opens the next, so there is always one piece more than there
/// are separators, and pieces may be empty.
pub open spec fn split_on(s: Seq<char>, sep: char) -> Seq<Seq<char>>
    decreases s.len(),
{
    if s.len() == 0 {
        seq![Seq::<char>::empty()]
    } else {
        let before = split_on(s.drop_last(), sep);
        if s.last() == sep {
            before.push(Seq::<char>::empty())
        } else {
            before.drop_last().push(before.last().push(s.last()))
        }
    }
}

/// A line that holds nothing but white space.
pub open spec fn is_blank(line: Seq<char>) -> bool {
    trimmed(line).len() == 0
}

/// The predicate that keeps the lines with content.
pub open spec fn has_content() -> spec_fn(Seq<char>) -> bool {
    |line: Seq<char>| !is_blank(line)
}

/// The trimmed form of each piece.
pub open spec fn trim_each(pieces: Seq<Seq<char>>) -> Seq<Seq<char>> {
    Seq::new(pieces.len(), |i: int| trimmed(pieces[i]))
}

/// The trimmed fields of one line: the line is trimmed, split at `delim`, and
/// each piece trimmed again.
pub open spec fn fields_of(line: Seq<char>, delim: char) -> Seq<Seq<char>> {
    trim_each(split_on(trimmed(line), delim))
}

/// The first `MAX_ROWS` entries of `lines`.
pub open spec fn capped(lines: Seq<Seq<char>>) -> Seq<Seq<char>> {
    if lines.len() > MAX_ROWS {
        lines.take(MAX_ROWS as int)
    } else {
        lines
    }
}

/// The rows that a list of lines gives: blank lines are dropped, the first
/// `MAX_ROWS` of the others are kept, and each is cut into its fields.
pub open spec fn rows_of_lines(lines: Seq<Seq<char>>, delim: char) -> Seq<Seq<Seq<char>>> {
    capped(lines.filter(has_content())).map_values(|l: Seq<char>| fields_of(l, delim))
}

/// The rows of a sample: its lines are the pieces between line feeds.
pub open spec fn rows_of(sample: Seq<char>, delim: char) -> Seq<Seq<Seq<char>>> {
    rows_of_lines(split_on(sample, '\n'), delim)
}

/// The text of each field of a row.
pub open spec fn row_text(row: Seq<String>) -> Seq<Seq<char>> {
    row.map_values(|f: String| f@)
}

/// The text of each field of each row.
pub open spec fn rows_text(rows: Seq<Vec<String>>) -> Seq<Seq<Seq<char>>> {
    rows.map_values(|r: Vec<String>| row_text(r@))
}

/// Splitting a text that ends in a separator.
proof fn lemma_split_push_sep(s: Seq<char>, sep: char)
    ensures
        split_on(s.push(sep), sep) == split_on(s, sep).push(Seq::<char>::empty()),
{
    assert(s.push(sep).drop_last() =~= s);
}

/// Splitting a text that ends in another character than the separator.
proof fn lemma_split_push_other(s: Seq<char>, c: char, sep: char)
    requires
        c != sep,
    ensures
        split_on(s.push(c), sep) == split_on(s, sep).drop_last().push(
            split_on(s, sep).last().push(c),
        ),
{
    assert(s.push(c).drop_last() =~= s);
}

/// What one more line adds to the rows.
proof fn lemma_rows_push(lines: Seq<Seq<char>>, line: Seq<char>, delim: char)
    ensures
        rows_of_lines(lines, delim).len() <= MAX_ROWS,
        rows_of_lines(lines.push(line), delim) == if is_blank(line) || rows_of_lines(
            lines,
            delim,
        ).len() >= MAX_ROWS {
            rows_of_lines(lines, delim)
        } else {
            rows_of_lines(lines, delim).push(fields_of(line, delim))
        },
{
    let kept = lines.filter(has_content());
    lines.lemma_filter_push(line, has_content());
    if !is_blank(line) {
        assert(lines.push(line).filter(has_content()) == kept.push(line));
        if kept.len() >= MAX_ROWS {
            assert(capped(kept.push(line)) =~= capped(kept));
        } else {
            assert(capped(kept.push(line)) =~= capped(kept).push(line));
            assert(rows_of_lines(lines.push(line), delim) =~= rows_of_lines(lines, delim).push(
                fields_of(line, delim),
            ));
        }
    }
}

/// Whether `c` is white space.
pub fn is_whitespace(c: char) -> (b: bool)
    ensures
        b == is_space(c),
{
    let n: u32 = c as u32;
    (0x09 <= n && n <= 0x0D) || n == 0x20 || n == 0x85 || n == 0xA0 || n == 0x1680 || (0x2000 <= n
        && n <= 0x200A) || n == 0x2028 || n == 0x2029 || n == 0x202F || n == 0x205F || n == 0x3000
}

/// The characters of `s`, in order.
pub fn to_chars(s: &str) -> (v: Vec<char>)
    ensures
        v@ == s@,
{
    let mut v: Vec<char> = Vec::new();
    for c in it: s.chars()
        invariant
            v@ == it.seq().take(it.index() as int),
            it.seq() == s@,
    {
        v.push(c);
    }
    v
}

/// Counts the occurrences of `c` in `chars`.
pub fn count_char(chars: &Vec<char>, c: char) -> (n: usize)
    ensures
        n == occurrences(chars@, c),
{
    let mut n: usize = 0;
    let mut i: usize = 0;
    while i < chars.len()
        invariant
            i <= chars.len(),
            n <= i,
            n == occurrences(chars@.take(i as int), c),
        decreases chars.len() - i,
    {
        assert(chars@.take(i + 1).drop_last() =~= chars@.take(i as int));
        if chars[i] == c {
            n += 1;
        }
        i += 1;
    }
    assert(chars@.take(i as int) =~= chars@);
    n
}

/// Chooses the field delimiter of a sample by counting tabs, semicolons and
/// commas in the whole text. Tab is tested first, so where both tab and
/// semicolon outnumber the comma the delimiter is tab.
pub fn detect_delimiter(sample: &str) -> (d: char)
    ensures
        d == delimiter_of(sample@),
        d == '\t' || d == ';' || d == ',',
{
    let chars = to_chars(sample);
    let tabs = count_char(&chars, '\t');
    let semicolons = count_char(&chars, ';');
    let commas = count_char(&chars, ',');
    if tabs > commas {
        '\t'
    } else if semicolons > commas {
        ';'
    } else {
        ','
    }
}

/// Narrows the range `lo..hi` of `chars` to what trimming leaves of it.
fn trim_range(chars: &Vec<char>, lo: usize, hi: usize) -> (r: (usize, usize))
    requires
        lo <= hi <= chars.len(),
    ensures
        lo <= r.0 <= r.1 <= hi,
        chars@.subrange(r.0 as int, r.1 as int) == trimmed(chars@.subrange(lo as int, hi as int)),
{
    let mut a: usize = lo;
    while a < hi && is_whitespace(chars[a])
        invariant
            lo <= a <= hi <= chars.len(),
            trim_start(chars@.subrange(lo as int, hi as int)) == trim_start(
                chars@.subrange(a as int, hi as int),
            ),
        decreases hi - a,
    {
        assert(chars@.subrange(a as int, hi as int).drop_first() =~= chars@.subrange(
            a + 1,
            hi as int,
        ));
        a += 1;
    }
    assert(trim_start(chars@.subrange(a as int, hi as int)) == chars@.subrange(a as int, hi as int));
    let mut b: usize = hi;
    while a < b && is_whitespace(chars[b - 1])
        invariant
            a <= b <= hi <= chars.len(),
            trim_end(chars@.subrange(a as int, hi as int)) == trim_end(
                chars@.subrange(a as int, b as int),
            ),
        decreases b - a,
    {
        assert(chars@.subrange(a as int, b as int).drop_last() =~= chars@.subrange(
            a as int,
            b - 1,
        ));
        b -= 1;
    }
    assert(trim_end(chars@.subrange(a as int, b as int)) == chars@.subrange(a as int, b as int));
    (a, b)
}

/// The trimmed fields of the range `lo..hi` of the sample, which is cut at
/// each `delim`. `chars` holds the characters of `sample`.
fn split_fields(sample: &str, chars: &Vec<char>, lo: usize, hi: usize, delim: char) -> (row: Vec<
    String,
>)
    requires
        chars@ == sample@,
        lo <= hi <= chars.len(),
    ensures
        row_text(row@) == trim_each(split_on(chars@.subrange(lo as int, hi as int), delim)),
{
    let mut row: Vec<String> = Vec::new();
    let ghost line = chars@.subrange(lo as int, hi as int);
    let ghost mut closed: Seq<Seq<char>> = Seq::empty();
    let mut from: usize = lo;
    let mut j: usize = lo;
    assert(line.take(0) =~= Seq::<char>::empty());
    assert(chars@.subrange(lo as int, lo as int) =~= Seq::<char>::empty());
    assert(row_text(row@) =~= trim_each(closed));
    while j < hi
        invariant
            lo <= from <= j <= hi <= chars.len(),
            chars@ == sample@,
            line == chars@.subrange(lo as int, hi as int),
            split_on(line.take(j - lo), delim) == closed.push(
                chars@.subrange(from as int, j as int),
            ),
            row_text(row@) == trim_each(closed),
        decreases hi - j,
    {
        let ghost piece = chars@.subrange(from as int, j as int);
        assert(line.take(j - lo + 1) =~= line.take(j - lo).push(chars@[j as int]));
        if chars[j] == delim {
            let (a, b) = trim_range(chars, from, j);
            let field = sample.substring_char(a, b).to_owned();
            let ghost before = row@;
            row.push(field);
            proof {
                lemma_split_push_sep(line.take(j - lo), delim);
                assert(field@ == trimmed(piece));
                assert(row_text(row@) =~= row_text(before).push(field@));
                assert(row_text(row@) =~= trim_each(closed.push(piece)));
                closed = closed.push(piece);
                assert(chars@.subrange(j + 1, j + 1) =~= Seq::<char>::empty());
            }
            from = j + 1;
        } else {
            proof {
                lemma_split_push_other(line.take(j - lo), chars@[j as int], delim);
                assert(closed.push(piece).drop_last() =~= closed);
                assert(piece.push(chars@[j as int]) =~= chars@.subrange(from as int, j + 1));
            }
        }
        j += 1;
    }
    let ghost piece = chars@.subrange(from as int, hi as int);
    let (a, b) = trim_range(chars, from, hi);
    let field = sample.substring_char(a, b).to_owned();
    let ghost before = row@;
    row.push(field);
    proof {
        assert(line.take(hi - lo) =~= line);
        assert(field@ == trimmed(piece));
        assert(row_text(row@) =~= row_text(before).push(field@));
        assert(row_text(row@) =~= trim_each(closed.push(piece)));
    }
    row
}

/// Adds the row of one line, the range `lo..hi` of the sample, unless the
/// line is blank or `rows` is full.
fn add_row(
    sample: &str,
    chars: &Vec<char>,
    lo: usize,
    hi: usize,
    delim: char,
    rows: &mut Vec<Vec<String>>,
    Ghost(lines): Ghost<Seq<Seq<char>>>,
)
    requires
        chars@ == sample@,
        lo <= hi <= chars.len(),
        rows_text(old(rows)@) == rows_of_lines(lines, delim),
    ensures
        rows_text(final(rows)@) == rows_of_lines(
            lines.push(chars@.subrange(lo as int, hi as int)),
            delim,
        ),
{
    let ghost line = chars@.subrange(lo as int, hi as int);
    proof {
        lemma_rows_push(lines, line, delim);
    }
    let (a, b) = trim_range(chars, lo, hi);
    if a < b && rows.len() < MAX_ROWS {
        let row = split_fields(sample, chars, a, b, delim);
        let ghost before = rows@;
        rows.push(row);
        assert(rows_text(rows@) =~= rows_text(before).push(row_text(row@)));
    }
}

/// Cuts a sample into rows of trimmed fields. Lines end at a line feed; a line
/// that holds only white space is skipped; of the others the first
/// `MAX_ROWS` are taken, trimmed, and split at `delim`.
pub fn tokenize(sample: &str, delim: char) -> (rows: Vec<Vec<String>>)
    ensures
        rows_text(rows@) == rows_of(sample@, delim),
        rows.len() <= MAX_ROWS,
{
    let chars = to_chars(sample);
    let n: usize = chars.len();
    let mut rows: Vec<Vec<String>> = Vec::new();
    let ghost mut lines: Seq<Seq<char>> = Seq::empty();
    let mut from: usize = 0;
    let mut i: usize = 0;
    proof {
        assert(chars@.take(0) =~= Seq::<char>::empty());
        assert(chars@.subrange(0, 0) =~= Seq::<char>::empty());
        assert(lines.filter(has_content()) =~= Seq::<Seq<char>>::empty()) by {
            reveal(Seq::filter);
        }
        assert(rows_text(rows@) =~= rows_of_lines(lines, delim));
    }
    while i < n
        invariant
            from <= i <= n,
            n == chars.len(),
            chars@ == sample@,
            split_on(chars@.take(i as int), '\n') == lines.push(
                chars@.subrange(from as int, i as int),
            ),
            rows_text(rows@) == rows_of_lines(lines, delim),
        decreases n - i,
    {
        let ghost piece = chars@.subrange(from as int, i as int);
        assert(chars@.take(i + 1) =~= chars@.take(i as int).push(chars@[i as int]));
        if chars[i] == '\n' {
            add_row(sample, &chars, from, i, delim, &mut rows, Ghost(lines));
            proof {
                lemma_split_push_sep(chars@.take(i as int), '\n');
                lines = lines.push(piece);
                assert(chars@.subrange(i + 1, i + 1) =~= Seq::<char>::empty());
            }
            from = i + 1;
        } else {
            proof {
                lemma_split_push_other(chars@.take(i as int), chars@[i as int], '\n');
                assert(lines.push(piece).drop_last() =~= lines);
                assert(piece.push(chars@[i as int]) =~= chars@.subrange(from as int, i + 1));
            }
        }
        i += 1;
    }
    add_row(sample, &chars, from, n, delim, &mut rows, Ghost(lines));
    proof {
        assert(chars@.take(n as int) =~= chars@);
        lemma_rows_push(lines.push(chars@.subrange(from as int, n as int)), Seq::empty(), delim);
        assert(rows_text(rows@).len() == rows@.len());
    }
    rows
}

} // verus!
