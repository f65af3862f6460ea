//! Text as sequences of characters: lines, joins and prefixes.

use vstd::prelude::*;
use vstd::string::*;

verus! {

/// The views of a sequence of strings.
pub open spec fn seq_views(v: Seq<String>) -> Seq<Seq<char>> {
    Seq::new(v.len(), |i: int| v[i]@)
}

/// Whether two texts hold the same characters.
pub fn same(a: &str, b: &str) -> (r: bool)
    ensures
        r == (a@ == b@),
{
    String::from_str(a) == String::from_str(b)
}

/// The position at which the line that is open after the first `n` characters began:
/// just behind the last line feed among them.
pub open spec fn line_start(s: Seq<char>, n: int) -> int
    decreases n,
{
    if n <= 0 {
        0
    } else if s[n - 1] == '\n' {
        n
    } else {
        line_start(s, n - 1)
    }
}

/// A line without the carriage return that may end it.
pub open spec fn strip_cr(l: Seq<char>) -> Seq<char> {
    if l.len() > 0 && l.last() == '\r' {
        l.drop_last()
    } else {
        l
    }
}

/// The lines that a line feed closes among the first `n` characters, each without
/// its line feed and without a carriage return just before it.
pub open spec fn closed_lines(s: Seq<char>, n: int) -> Seq<Seq<char>>
    decreases n,
{
    if n <= 0 {
        Seq::empty()
    } else if s[n - 1] == '\n' {
        closed_lines(s, n - 1).push(strip_cr(s.subrange(line_start(s, n - 1), n - 1)))
    } else {
        closed_lines(s, n - 1)
    }
}

/// The lines of a text. A line ends at a line feed, or at a carriage return followed
/// by a line feed; what follows the last line feed is a line too unless it is empty,
/// and is taken as it stands.
pub open spec fn spec_lines(s: Seq<char>) -> Seq<Seq<char>> {
    let n = s.len() as int;
    if line_start(s, n) < n {
        closed_lines(s, n).push(s.subrange(line_start(s, n), n))
    } else {
        closed_lines(s, n)
    }
}

/// Splits a text into its lines.
pub fn lines(s: &str) -> (r: Vec<String>)
    ensures
        seq_views(r@) == spec_lines(s@),
{
    let mut r: Vec<String> = Vec::new();
    let mut start: usize = 0;
    let mut i: usize = 0;
    let mut after_cr = false;
    let n = s.unicode_len();
    for c in it: s.chars()
        invariant
            it.seq() == s@,
            n == s@.len(),
            i == it.index(),
            start == line_start(s@, i as int),
            start <= i,
            after_cr == (i > start && s@[i - 1] == '\r'),
            seq_views(r@) == closed_lines(s@, i as int),
    {
        if c == '\n' {
            let end = if after_cr { i - 1 } else { i };
            let line = String::from_str(s.substring_char(start, end));
            proof {
                assert(line@ == strip_cr(s@.subrange(start as int, i as int)));
                assert(seq_views(r@.push(line)) =~= seq_views(r@).push(line@));
            }
            r.push(line);
            start = i + 1;
            after_cr = false;
        } else {
            after_cr = c == '\r';
        }
        i = i + 1;
    }
    if start < n {
        let line = String::from_str(s.substring_char(start, n));
        proof {
            assert(seq_views(r@.push(line)) =~= seq_views(r@).push(line@));
        }
        r.push(line);
    }
    r
}

/// Texts set one behind the other come to the same however they are grouped.
pub proof fn lemma_concat_assoc(a: Seq<char>, b: Seq<char>, c: Seq<char>)
    ensures
        (a + b) + c == a + (b + c),
{
    assert((a + b) + c =~= a + (b + c));
}

/// What was written since a start, after one more piece was written behind it.
pub proof fn lemma_written(start: Seq<char>, written: Seq<char>, piece: Seq<char>) -> (next: Seq<
    char,
>)
    ensures
        next == written + piece,
        (start + written) + piece == start + next,
{
    lemma_concat_assoc(start, written, piece);
    written + piece
}

/// Appends a piece to a text of which it is known what was written since a start;
/// gives back what is written since then.
pub(crate) fn append_piece(
    out: &mut String,
    piece: &str,
    start: Ghost<Seq<char>>,
    written: Ghost<Seq<char>>,
) -> (next: Ghost<Seq<char>>)
    requires
        old(out)@ == start@ + written@,
    ensures
        final(out)@ == start@ + next@,
        next@ == written@ + piece@,
{
    out.append(piece);
    proof {
        lemma_concat_assoc(start@, written@, piece@);
    }
    Ghost(written@ + piece@)
}

/// The parts of a sequence set one behind the other, with a separator between
/// each two neighbours.
pub open spec fn spec_join(parts: Seq<Seq<char>>, sep: Seq<char>) -> Seq<char>
    decreases parts.len(),
{
    if parts.len() == 0 {
        Seq::empty()
    } else if parts.len() == 1 {
        parts[0]
    } else {
        spec_join(parts.drop_last(), sep) + sep + parts.last()
    }
}

/// Joins strings with a separator.
pub fn join(parts: &Vec<String>, sep: &str) -> (r: String)
    ensures
        r@ == spec_join(seq_views(parts@), sep@),
{
    let mut r = String::new();
    let mut i: usize = 0;
    while i < parts.len()
        invariant
            i <= parts.len(),
            r@ == spec_join(seq_views(parts@).take(i as int), sep@),
        decreases parts.len() - i,
    {
        proof {
            let v = seq_views(parts@);
            assert(v.take(i + 1).drop_last() =~= v.take(i as int));
            assert(v.take(i + 1).last() == parts@[i as int]@);
            if i == 0 {
                assert(v.take(1)[0] == parts@[0]@);
            }
        }
        if i > 0 {
            r.append(sep);
        }
        r.append(parts[i].as_str());
        i = i + 1;
    }
    proof {
        assert(seq_views(parts@).take(parts.len() as int) =~= seq_views(parts@));
    }
    r
}

/// Each line behind a prefix and closed by a line feed, one after the other.
pub open spec fn spec_prefixed(prefix: Seq<char>, lines: Seq<Seq<char>>) -> Seq<char>
    decreases lines.len(),
{
    if lines.len() == 0 {
        Seq::empty()
    } else {
        spec_prefixed(prefix, lines.drop_last()) + prefix + lines.last() + seq!['\n']
    }
}

/// Appends the lines one by one, each behind the prefix and closed by a line feed.
pub fn write_prefixed(out: &mut String, prefix: &str, lines: &Vec<String>)
    ensures
        final(out)@ == old(out)@ + spec_prefixed(prefix@, seq_views(lines@)),
{
    let mut i: usize = 0;
    while i < lines.len()
        invariant
            i <= lines.len(),
            out@ == old(out)@ + spec_prefixed(prefix@, seq_views(lines@).take(i as int)),
        decreases lines.len() - i,
    {
        proof {
            let v = seq_views(lines@);
            assert(v.take(i + 1).drop_last() =~= v.take(i as int));
            assert(v.take(i + 1).last() == lines@[i as int]@);
            reveal_strlit("\n");
            assert("\n"@ =~= seq!['\n']);
        }
        out.append(prefix);
        out.append(lines[i].as_str());
        out.append("\n");
        i = i + 1;
    }
    proof {
        assert(seq_views(lines@).take(lines.len() as int) =~= seq_views(lines@));
    }
}

/// Appends every line of a text behind the prefix, each closed by a line feed.
pub fn write_text_lines(out: &mut String, prefix: &str, text: &str)
    ensures
        final(out)@ == old(out)@ + spec_prefixed(prefix@, spec_lines(text@)),
{
    let ls = lines(text);
    write_prefixed(out, prefix, &ls);
}

} // verus!
