//! Character sequences: strings as vectors of characters, splitting at a
//! separator, lines, and optional quotes around a field.

use vstd::prelude::*;
use vstd::slice::slice_subrange;
use vstd::string::StringExecFns;

verus! {

/// `String::push` appends one character at the end.
pub assume_specification[ String::push ](s: &mut String, ch: char)
    ensures
        final(s)@ == old(s)@.push(ch),
;

/// The views of a vector of character vectors.
pub open spec fn views(parts: Seq<Vec<char>>) -> Seq<Seq<char>> {
    Seq::new(parts.len(), |i: int| parts[i]@)
}

/// The views of a vector of strings.
pub open spec fn string_views(parts: Seq<String>) -> Seq<Seq<char>> {
    Seq::new(parts.len(), |i: int| parts[i]@)
}

/// `parts` written one after the other with one `sep` between each two.
pub open spec fn join(parts: Seq<Seq<char>>, sep: char) -> Seq<char>
    decreases parts.len(),
{
    if parts.len() == 0 {
        Seq::<char>::empty()
    } else if parts.len() == 1 {
        parts[0]
    } else {
        join(parts.drop_last(), sep) + seq![sep] + parts.last()
    }
}

/// The pieces of `s` that lie between the occurrences of `sep`, in order.
/// A sequence with `n` separators has `n + 1` pieces, some of them possibly
/// empty.
pub open spec fn split_on(s: Seq<char>, sep: char) -> Seq<Seq<char>>
    decreases s.len(),
{
    if s.len() == 0 {
        seq![Seq::<char>::empty()]
    } else {
        let before = split_on(s.drop_last(), sep);
        if s.last() == sep {
            before.push(Seq::<char>::empty())
        } else {
            before.drop_last().push(before.last().push(s.last()))
        }
    }
}

/// `s` without one carriage return at its end, if it has one.
pub open spec fn strip_cr(s: Seq<char>) -> Seq<char> {
    if s.len() > 0 && s.last() == '\r' {
        s.drop_last()
    } else {
        s
    }
}

/// The lines of `text`. A line ends at a line feed; a carriage return just
/// before that line feed is not part of the line. What follows the last line
/// feed is a line of its own unless it is empty.
pub open spec fn lines_of(text: Seq<char>) -> Seq<Seq<char>> {
    let parts = split_on(text, '\n');
    let ended = Seq::new((parts.len() - 1) as nat, |i: int| strip_cr(parts[i]));
    if parts.last().len() == 0 {
        ended
    } else {
        ended.push(parts.last())
    }
}

/// `s` without one quote character at its start and one at its end, each
/// removed only if present. The end is looked at after the start was removed,
/// so a lone quote character becomes the empty sequence.
pub open spec fn strip_quotes(s: Seq<char>) -> Seq<char> {
    let t = if s.len() > 0 && s[0] == '"' {
        s.drop_first()
    } else {
        s
    };
    if t.len() > 0 && t.last() == '"' {
        t.drop_last()
    } else {
        t
    }
}

/// `s` between two quote characters.
pub open spec fn quoted(s: Seq<char>) -> Seq<char> {
    seq!['"'] + s + seq!['"']
}

/// Joining one more part puts a separator and the part at the end.
pub proof fn lemma_join_push(parts: Seq<Seq<char>>, part: Seq<char>, sep: char)
    requires
        parts.len() >= 1,
    ensures
        join(parts.push(part), sep) == join(parts, sep) + seq![sep] + part,
{
    let longer = parts.push(part);
    assert(longer.drop_last() == parts);
    assert(longer.last() == part);
}

/// A joined text whose last part is not empty ends as that part does.
pub proof fn lemma_join_last(parts: Seq<Seq<char>>, sep: char)
    requires
        parts.len() >= 1,
        parts.last().len() >= 1,
    ensures
        join(parts, sep).len() >= 1,
        join(parts, sep).last() == parts.last().last(),
{
}

/// Splitting always yields at least one piece.
pub proof fn lemma_split_nonempty(s: Seq<char>, sep: char)
    ensures
        split_on(s, sep).len() >= 1,
    decreases s.len(),
{
    if s.len() > 0 {
        lemma_split_nonempty(s.drop_last(), sep);
    }
}

/// A sequence without the separator is its own single piece.
pub proof fn lemma_split_without_separator(s: Seq<char>, sep: char)
    requires
        !s.contains(sep),
    ensures
        split_on(s, sep) == seq![s],
    decreases s.len(),
{
    if s.len() == 0 {
        assert(s == Seq::<char>::empty());
    } else {
        let front = s.drop_last();
        assert forall|i: int| 0 <= i < front.len() implies front[i] != sep by {
            assert(s[i] == front[i]);
            assert(s.contains(s[i]));
        }
        lemma_split_without_separator(front, sep);
        assert(s.contains(s.last()));
        assert(front.push(s.last()) == s);
        assert(seq![front].drop_last().push(front.push(s.last())) == seq![s]);
    }
}

/// The pieces of two texts joined by one separator are the pieces of the
/// first followed by the pieces of the second.
pub proof fn lemma_split_join(a: Seq<char>, b: Seq<char>, sep: char)
    ensures
        split_on(a + seq![sep] + b, sep) == split_on(a, sep) + split_on(b, sep),
    decreases b.len(),
{
    lemma_split_nonempty(a, sep);
    let pa = split_on(a, sep);
    let whole = a + seq![sep] + b;
    if b.len() == 0 {
        assert(whole.drop_last() == a);
        assert(whole.last() == sep);
        assert(pa.push(Seq::<char>::empty()) == pa + seq![Seq::<char>::empty()]);
    } else {
        let front = b.drop_last();
        lemma_split_join(a, front, sep);
        lemma_split_nonempty(front, sep);
        let pf = split_on(front, sep);
        assert(whole.drop_last() == a + seq![sep] + front);
        assert(whole.last() == b.last());
        let joined = pa + pf;
        if b.last() == sep {
            assert(joined.push(Seq::<char>::empty()) == pa + pf.push(Seq::<char>::empty()));
        } else {
            assert(joined.drop_last() == pa + pf.drop_last());
            assert(joined.last() == pf.last());
            assert(joined.drop_last().push(joined.last().push(b.last())) == pa
                + pf.drop_last().push(pf.last().push(b.last())));
        }
    }
}

/// Parts without a separator in them are the pieces of their joined text.
pub proof fn lemma_split_joined(parts: Seq<Seq<char>>, sep: char)
    requires
        parts.len() >= 1,
        forall|i: int| 0 <= i < parts.len() ==> !(#[trigger] parts[i]).contains(sep),
    ensures
        split_on(join(parts, sep), sep) == parts,
    decreases parts.len(),
{
    if parts.len() == 1 {
        lemma_split_without_separator(parts[0], sep);
        assert(seq![parts[0]] == parts);
    } else {
        let front = parts.drop_last();
        assert forall|i: int| 0 <= i < front.len() implies !(#[trigger] front[i]).contains(
            sep,
        ) by {
            assert(front[i] == parts[i]);
        }
        lemma_split_joined(front, sep);
        lemma_split_without_separator(parts.last(), sep);
        lemma_split_join(join(front, sep), parts.last(), sep);
        assert(front + seq![parts.last()] == parts);
    }
}

/// A character that is neither the separator nor in any part is not in the
/// joined text.
pub proof fn lemma_join_excludes(parts: Seq<Seq<char>>, sep: char, c: char)
    requires
        c != sep,
        forall|i: int| 0 <= i < parts.len() ==> !(#[trigger] parts[i]).contains(c),
    ensures
        !join(parts, sep).contains(c),
    decreases parts.len(),
{
    if parts.len() >= 2 {
        let front = parts.drop_last();
        assert forall|i: int| 0 <= i < front.len() implies !(#[trigger] front[i]).contains(c) by {
            assert(front[i] == parts[i]);
        }
        lemma_join_excludes(front, sep, c);
        let a = join(front, sep);
        let whole = join(parts, sep);
        assert(whole == a + seq![sep] + parts.last());
        if whole.contains(c) {
            let i = choose|i: int| 0 <= i < whole.len() && whole[i] == c;
            if i < a.len() {
                assert(a[i] == c);
            } else if i > a.len() {
                assert(parts.last()[i - a.len() - 1] == c);
            }
        }
    } else if parts.len() == 1 {
        assert(join(parts, sep) == parts[0]);
    }
}

/// A quoted text holds the quote character and what the text holds.
pub proof fn lemma_quoted_contains(s: Seq<char>, c: char)
    ensures
        quoted(s).contains(c) <==> (c == '"' || s.contains(c)),
{
    let q = quoted(s);
    assert(q.len() == s.len() + 2);
    assert(q[0] == '"');
    if s.contains(c) {
        let i = choose|i: int| 0 <= i < s.len() && s[i] == c;
        assert(q[i + 1] == c);
    }
    if q.contains(c) {
        let i = choose|i: int| 0 <= i < q.len() && q[i] == c;
        if 0 < i < q.len() - 1 {
            assert(s[i - 1] == c);
        }
    }
}

/// Quotes put around a field are taken off again by `strip_quotes`, whatever
/// the field holds.
pub proof fn lemma_strip_quoted(s: Seq<char>)
    ensures
        strip_quotes(quoted(s)) == s,
{
    let q = quoted(s);
    assert(q[0] == '"');
    let t = q.drop_first();
    assert(t == s + seq!['"']);
    assert(t.last() == '"');
    assert(t.drop_last() == s);
}

/// The characters of `text`, in order.
pub fn to_chars(text: &str) -> (chars: Vec<char>)
    ensures
        chars@ == text@,
{
    let mut chars: Vec<char> = Vec::new();
    for c in it: text.chars()
        invariant
            it.seq() == text@,
            chars@ == it.seq().take(it.index() as int),
    {
        chars.push(c);
    }
    chars
}

/// Appends the characters of `chars` to `out`.
pub fn push_chars(out: &mut String, chars: &[char])
    ensures
        final(out)@ == old(out)@ + chars@,
{
    let mut i: usize = 0;
    while i < chars.len()
        invariant
            i <= chars@.len(),
            out@ == old(out)@ + chars@.take(i as int),
        decreases chars@.len() - i,
    {
        out.push(chars[i]);
        proof {
            assert(chars@.take(i + 1) == chars@.take(i as int).push(chars@[i as int]));
        }
        i += 1;
    }
    proof {
        assert(chars@.take(i as int) == chars@);
    }
}

/// The string made of the characters of `chars`.
pub fn to_string(chars: &[char]) -> (s: String)
    ensures
        s@ == chars@,
{
    let mut s = String::new();
    push_chars(&mut s, chars);
    s
}

/// The string `s` between two quote characters.
pub fn quote(s: &str) -> (q: String)
    ensures
        q@ == quoted(s@),
{
    let mut q = String::new();
    q.push('"');
    q.append(s);
    q.push('"');
    proof {
        assert(q@ == seq!['"'] + s@ + seq!['"']);
    }
    q
}

/// Appends `parts` to `out`, with one `sep` between each two.
pub fn push_joined(out: &mut String, parts: &Vec<String>, sep: char)
    ensures
        final(out)@ == old(out)@ + join(string_views(parts@), sep),
{
    let ghost all = string_views(parts@);
    let mut i: usize = 0;
    while i < parts.len()
        invariant
            i <= parts@.len(),
            all == string_views(parts@),
            out@ == old(out)@ + join(all.take(i as int), sep),
        decreases parts@.len() - i,
    {
        let ghost done = all.take(i as int);
        proof {
            assert(all.take(i + 1) == done.push(all[i as int]));
        }
        if i > 0 {
            out.push(sep);
            proof {
                lemma_join_push(done, all[i as int], sep);
            }
        }
        out.append(parts[i].as_str());
        proof {
            if i == 0 {
                assert(join(done, sep) == Seq::<char>::empty());
                assert(join(all.take(1), sep) == all[0]);
                assert(out@ == old(out)@ + all[0]);
            } else {
                assert(out@ == old(out)@ + (join(done, sep) + seq![sep] + all[i as int]));
            }
        }
        i += 1;
    }
    proof {
        assert(all.take(i as int) == all);
    }
}

/// Splits `s` at every `sep`.
pub fn split(s: &[char], sep: char) -> (parts: Vec<Vec<char>>)
    ensures
        views(parts@) == split_on(s@, sep),
{
    let mut parts: Vec<Vec<char>> = Vec::new();
    let mut piece: Vec<char> = Vec::new();
    let mut i: usize = 0;
    while i < s.len()
        invariant
            i <= s@.len(),
            split_on(s@.take(i as int), sep) == views(parts@).push(piece@),
        decreases s@.len() - i,
    {
        let c = s[i];
        proof {
            let t = s@.take(i + 1);
            assert(t.drop_last() == s@.take(i as int));
            assert(t.last() == c);
        }
        let ghost before = views(parts@).push(piece@);
        if c == sep {
            parts.push(piece);
            piece = Vec::new();
            proof {
                assert(views(parts@) == before);
            }
        } else {
            piece.push(c);
            proof {
                assert(views(parts@).push(piece@) == before.drop_last().push(
                    before.last().push(c),
                ));
            }
        }
        i += 1;
    }
    proof {
        assert(s@.take(i as int) == s@);
    }
    let ghost before = views(parts@).push(piece@);
    parts.push(piece);
    proof {
        assert(views(parts@) == before);
    }
    parts
}

/// Splits `text` into its lines.
pub fn lines(text: &[char]) -> (result: Vec<Vec<char>>)
    ensures
        views(result@) == lines_of(text@),
{
    let mut result: Vec<Vec<char>> = Vec::new();
    let mut piece: Vec<char> = Vec::new();
    let mut i: usize = 0;
    while i < text.len()
        invariant
            i <= text@.len(),
            split_on(text@.take(i as int), '\n').len() == result@.len() + 1,
            split_on(text@.take(i as int), '\n').last() == piece@,
            forall|k: int|
                0 <= k < result@.len() ==> #[trigger] result@[k]@ == strip_cr(
                    split_on(text@.take(i as int), '\n')[k],
                ),
        decreases text@.len() - i,
    {
        let c = text[i];
        proof {
            let t = text@.take(i + 1);
            assert(t.drop_last() == text@.take(i as int));
            assert(t.last() == c);
        }
        if c == '\n' {
            let n = piece.len();
            if n > 0 && piece[n - 1] == '\r' {
                piece.pop();
            }
            result.push(piece);
            piece = Vec::new();
        } else {
            piece.push(c);
        }
        i += 1;
    }
    proof {
        assert(text@.take(i as int) == text@);
    }
    if piece.len() > 0 {
        result.push(piece);
    }
    proof {
        assert(views(result@) =~= lines_of(text@));
    }
    result
}

/// Takes one quote character off each end of `s`, where there is one.
pub fn unquote(s: &[char]) -> (inner: &[char])
    ensures
        inner@ == strip_quotes(s@),
{
    let mut from: usize = 0;
    let mut to: usize = s.len();
    if from < to && s[from] == '"' {
        from = from + 1;
    }
    if from < to && s[to - 1] == '"' {
        to = to - 1;
    }
    let inner = slice_subrange(s, from, to);
    proof {
        assert(inner@ =~= strip_quotes(s@));
    }
    inner
}

} // verus!
