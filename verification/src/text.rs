//! Character-sequence utilities over the `Seq<char>` view of strings:
//! substring search, trimming, splitting into pieces and joining them.

use vstd::prelude::*;
use vstd::string::StrSliceExecFns;
use vstd::string::StringExecFns;

verus! {

/// `needle` occurs in `hay` starting at index `at`.
pub open spec fn occurs_at(hay: Seq<char>, needle: Seq<char>, at: int) -> bool {
    &&& 0 <= at
    &&& at + needle.len() <= hay.len()
    &&& hay.subrange(at, at + needle.len()) == needle
}

/// `needle` occurs somewhere in `hay`. The empty sequence occurs in every
/// sequence.
pub open spec fn is_substring(needle: Seq<char>, hay: Seq<char>) -> bool {
    exists|at: int| occurs_at(hay, needle, at)
}

/// An occurrence in `hay` is still an occurrence when text follows `hay`.
pub proof fn lemma_occurrence_survives_append(
    hay: Seq<char>,
    tail: Seq<char>,
    needle: Seq<char>,
    at: int,
)
    requires
        occurs_at(hay, needle, at),
    ensures
        occurs_at(hay + tail, needle, at),
{
    assert((hay + tail).subrange(at, at + needle.len()) =~= hay.subrange(at, at + needle.len()));
}

/// Appending text never makes a substring disappear.
pub proof fn lemma_substring_survives_append(hay: Seq<char>, tail: Seq<char>, needle: Seq<char>)
    requires
        is_substring(needle, hay),
    ensures
        is_substring(needle, hay + tail),
{
    let at = choose|at: int| occurs_at(hay, needle, at);
    lemma_occurrence_survives_append(hay, tail, needle, at);
}

/// A sequence that ends with `needle` contains it.
pub proof fn lemma_suffix_is_substring(head: Seq<char>, needle: Seq<char>)
    ensures
        is_substring(needle, head + needle),
{
    let at = head.len() as int;
    assert((head + needle).subrange(at, at + needle.len()) =~= needle);
    assert(occurs_at(head + needle, needle, at));
}

/// The characters of `s`, in order.
pub fn chars_of(s: &str) -> (v: Vec<char>)
    ensures
        v@ == s@,
{
    let mut v: Vec<char> = Vec::new();
    for c in it: s.chars()
        invariant
            v@ == it.seq().take(it.index() as int),
            it.seq() == s@,
    {
        v.push(c);
    }
    v
}

/// Whether `needle` occurs in `hay` at index `at`.
pub fn matches_at(hay: &Vec<char>, needle: &Vec<char>, at: usize) -> (found: bool)
    ensures
        found == occurs_at(hay@, needle@, at as int),
{
    let n = hay.len();
    let m = needle.len();
    if at > n || m > n - at {
        return false;
    }
    let mut k: usize = 0;
    while k < m
        invariant
            k <= m,
            m == needle.len(),
            at + m <= hay.len(),
            forall|j: int| 0 <= j < k ==> hay@[at + j] == needle@[j],
        decreases m - k,
    {
        if hay[at + k] != needle[k] {
            proof {
                let window = hay@.subrange(at as int, at + m);
                assert(window[k as int] == hay@[at + k]);
            }
            return false;
        }
        k += 1;
    }
    assert(hay@.subrange(at as int, at + m) =~= needle@);
    true
}

/// Whether two texts hold the same characters.
pub fn same_text(a: &str, b: &str) -> (same: bool)
    ensures
        same == (a@ == b@),
{
    let left = chars_of(a);
    let right = chars_of(b);
    if left.len() != right.len() {
        return false;
    }
    let found = matches_at(&left, &right, 0);
    proof {
        assert(left@.subrange(0, left@.len() as int) =~= left@);
    }
    found
}

/// Whether `needle` occurs in `hay`.
pub fn contains(hay: &str, needle: &str) -> (found: bool)
    ensures
        found == is_substring(needle@, hay@),
{
    let text = chars_of(hay);
    let pattern = chars_of(needle);
    let n = text.len();
    let m = pattern.len();
    if m == 0 {
        assert(hay@.subrange(0, 0) =~= needle@);
        assert(occurs_at(hay@, needle@, 0));
        return true;
    }
    if m > n {
        assert forall|at: int| !occurs_at(hay@, needle@, at) by {}
        return false;
    }
    let last = n - m;
    let mut at: usize = 0;
    while at <= last
        invariant
            at <= last + 1,
            0 < m <= n,
            last == n - m,
            n == text.len(),
            m == pattern.len(),
            text@ == hay@,
            pattern@ == needle@,
            forall|j: int| 0 <= j < at ==> !occurs_at(hay@, needle@, j),
        decreases last + 1 - at,
    {
        if matches_at(&text, &pattern, at) {
            return true;
        }
        at += 1;
    }
    assert forall|j: int| !occurs_at(hay@, needle@, j) by {}
    false
}

/// Whether `c` is white space: a character that Unicode marks as
/// `White_Space`.
pub open spec fn is_space(c: char) -> bool {
    ||| '\u{9}' <= c <= '\u{d}'
    ||| c == ' '
    ||| c == '\u{85}'
    ||| c == '\u{a0}'
    ||| c == '\u{1680}'
    ||| '\u{2000}' <= c <= '\u{200a}'
    ||| c == '\u{2028}'
    ||| c == '\u{2029}'
    ||| c == '\u{202f}'
    ||| c == '\u{205f}'
    ||| c == '\u{3000}'
}

/// `text` without the white space it begins with.
pub open spec fn trim_start(text: Seq<char>) -> Seq<char>
    decreases text.len(),
{
    if text.len() > 0 && is_space(text[0]) {
        trim_start(text.skip(1))
    } else {
        text
    }
}

/// `text` without the white space it ends with.
pub open spec fn trim_end(text: Seq<char>) -> Seq<char>
    decreases text.len(),
{
    if text.len() > 0 && is_space(text.last()) {
        trim_end(text.drop_last())
    } else {
        text
    }
}

/// `text` without the white space at either end.
pub open spec fn trimmed(text: Seq<char>) -> Seq<char> {
    trim_end(trim_start(text))
}

/// The pieces of `text` between the occurrences of `sep`, in order. There
/// is always one piece more than there are separators: a text without
/// separator is its own single piece, and a separator at either end has an
/// empty piece beside it.
pub open spec fn split_on(text: Seq<char>, sep: char) -> Seq<Seq<char>>
    decreases text.len(),
{
    if text.len() == 0 {
        seq![Seq::<char>::empty()]
    } else {
        let before = split_on(text.drop_last(), sep);
        if text.last() == sep {
            before.push(Seq::<char>::empty())
        } else {
            before.drop_last().push(before.last().push(text.last()))
        }
    }
}

/// A split always yields at least one piece.
pub proof fn lemma_split_is_not_empty(text: Seq<char>, sep: char)
    ensures
        split_on(text, sep).len() >= 1,
    decreases text.len(),
{
    if text.len() > 0 {
        lemma_split_is_not_empty(text.drop_last(), sep);
    }
}

/// A text without the separator is its own single piece.
pub proof fn lemma_split_without_separator(text: Seq<char>, sep: char)
    requires
        forall|i: int| 0 <= i < text.len() ==> text[i] != sep,
    ensures
        split_on(text, sep) == seq![text],
    decreases text.len(),
{
    if text.len() > 0 {
        let front = text.drop_last();
        lemma_split_without_separator(front, sep);
        assert(seq![front].last() == front);
        assert(seq![front].drop_last().push(front.push(text.last())) =~= seq![text]) by {
            assert(front.push(text.last()) =~= text);
        }
    } else {
        assert(text =~= Seq::<char>::empty());
    }
}

/// Splitting two texts joined by a separator gives the pieces of the
/// first followed by the pieces of the second.
pub proof fn lemma_split_joined(left: Seq<char>, right: Seq<char>, sep: char)
    ensures
        split_on(left + seq![sep] + right, sep) == split_on(left, sep) + split_on(right, sep),
    decreases right.len(),
{
    let joined = left + seq![sep] + right;
    if right.len() == 0 {
        assert(joined.drop_last() =~= left);
        assert(split_on(left, sep).push(Seq::<char>::empty()) =~= split_on(left, sep) + seq![
            Seq::<char>::empty(),
        ]);
    } else {
        let front = right.drop_last();
        lemma_split_joined(left, front, sep);
        lemma_split_is_not_empty(front, sep);
        assert(joined.drop_last() =~= left + seq![sep] + front);
        assert(joined.last() == right.last());
        let a = split_on(left, sep);
        let b = split_on(front, sep);
        if right.last() == sep {
            assert((a + b).push(Seq::<char>::empty()) =~= a + b.push(Seq::<char>::empty()));
        } else {
            assert((a + b).drop_last() =~= a + b.drop_last());
            assert((a + b).last() == b.last());
            assert((a + b.drop_last()).push(b.last().push(right.last())) =~= a
                + b.drop_last().push(b.last().push(right.last())));
        }
    }
}

/// A text that neither begins nor ends with white space is left as it is.
pub proof fn lemma_trim_leaves_clean_text(text: Seq<char>)
    requires
        text.len() > 0 ==> !is_space(text[0]) && !is_space(text.last()),
    ensures
        trimmed(text) == text,
{
}

/// A text that ends with a character other than white space still ends
/// with it once trimmed.
pub proof fn lemma_trim_keeps_last(text: Seq<char>)
    requires
        text.len() > 0,
        !is_space(text.last()),
    ensures
        trimmed(text).len() > 0,
        trimmed(text).last() == text.last(),
    decreases text.len(),
{
    if is_space(text[0]) {
        let rest = text.skip(1);
        assert(rest.len() > 0);
        assert(rest.last() == text.last());
        lemma_trim_keeps_last(rest);
    }
}

/// Whether `text` holds no `sep`.
pub open spec fn free_of(text: Seq<char>, sep: char) -> bool {
    forall|i: int| 0 <= i < text.len() ==> text[i] != sep
}

/// The pieces put together again, with `sep` between each two. No pieces
/// make the empty text.
pub open spec fn join_with(pieces: Seq<Seq<char>>, sep: char) -> Seq<char>
    decreases pieces.len(),
{
    if pieces.len() == 0 {
        Seq::empty()
    } else if pieces.len() == 1 {
        pieces[0]
    } else {
        join_with(pieces.drop_last(), sep) + seq![sep] + pieces.last()
    }
}

/// No piece of a split holds the separator.
pub proof fn lemma_pieces_are_free(text: Seq<char>, sep: char)
    ensures
        forall|k: int| 0 <= k < split_on(text, sep).len() ==> free_of(
            #[trigger] split_on(text, sep)[k],
            sep,
        ),
    decreases text.len(),
{
    if text.len() > 0 {
        lemma_pieces_are_free(text.drop_last(), sep);
        lemma_split_is_not_empty(text.drop_last(), sep);
    }
}

/// Joining the pieces of a split gives the text back.
pub proof fn lemma_join_of_split(text: Seq<char>, sep: char)
    ensures
        join_with(split_on(text, sep), sep) == text,
    decreases text.len(),
{
    if text.len() > 0 {
        let front = text.drop_last();
        lemma_join_of_split(front, sep);
        lemma_split_is_not_empty(front, sep);
        let before = split_on(front, sep);
        if text.last() == sep {
            let now = before.push(Seq::<char>::empty());
            assert(now.drop_last() =~= before);
            assert(join_with(now, sep) =~= front + seq![sep]);
            assert(front + seq![sep] =~= text);
        } else {
            let grown = before.last().push(text.last());
            let now = before.drop_last().push(grown);
            assert(now.drop_last() =~= before.drop_last());
            assert(now.last() == grown);
            if before.len() == 1 {
                assert(join_with(now, sep) =~= front.push(text.last()));
            } else {
                assert(join_with(now, sep) =~= (join_with(before.drop_last(), sep) + seq![sep]
                    + before.last()).push(text.last()));
            }
            assert(front.push(text.last()) =~= text);
        }
    }
}

/// Splitting what was joined gives the pieces back, where there is at
/// least one piece and none holds the separator.
pub proof fn lemma_split_of_join(pieces: Seq<Seq<char>>, sep: char)
    requires
        pieces.len() > 0,
        forall|k: int| 0 <= k < pieces.len() ==> free_of(#[trigger] pieces[k], sep),
    ensures
        split_on(join_with(pieces, sep), sep) == pieces,
    decreases pieces.len(),
{
    if pieces.len() == 1 {
        assert(free_of(pieces[0], sep));
        lemma_split_without_separator(pieces[0], sep);
        assert(seq![pieces[0]] =~= pieces);
    } else {
        let front = pieces.drop_last();
        assert forall|k: int| 0 <= k < front.len() implies free_of(#[trigger] front[k], sep) by {
            assert(front[k] == pieces[k]);
        }
        lemma_split_of_join(front, sep);
        assert(free_of(pieces[pieces.len() - 1], sep));
        lemma_split_without_separator(pieces.last(), sep);
        lemma_split_joined(join_with(front, sep), pieces.last(), sep);
        assert(front + seq![pieces.last()] =~= pieces);
    }
}

/// What occurs in a part of a text occurs in the text.
pub proof fn lemma_substring_of_substring(inner: Seq<char>, middle: Seq<char>, outer: Seq<char>)
    requires
        is_substring(inner, middle),
        is_substring(middle, outer),
    ensures
        is_substring(inner, outer),
{
    let a = choose|a: int| occurs_at(middle, inner, a);
    let b = choose|b: int| occurs_at(outer, middle, b);
    assert(outer.subrange(a + b, a + b + inner.len()) =~= outer.subrange(
        b,
        b + middle.len(),
    ).subrange(a, a + inner.len()));
    assert(occurs_at(outer, inner, a + b));
}

/// The last piece of a split is the end of the text, and what stands
/// before it is nothing or ends with the separator.
pub proof fn lemma_last_piece_is_the_end(text: Seq<char>, sep: char)
    ensures
        split_on(text, sep).len() >= 1,
        exists|head: Seq<char>|
            text == head + split_on(text, sep).last() && (head.len() == 0 || head.last() == sep),
    decreases text.len(),
{
    lemma_split_is_not_empty(text, sep);
    if text.len() == 0 {
        assert(text =~= Seq::<char>::empty() + split_on(text, sep).last());
    } else {
        let front = text.drop_last();
        lemma_last_piece_is_the_end(front, sep);
        let before = split_on(front, sep);
        let head = choose|head: Seq<char>|
            front == head + before.last() && (head.len() == 0 || head.last() == sep);
        assert(front.push(text.last()) =~= text);
        if text.last() == sep {
            assert(split_on(text, sep).last() == Seq::<char>::empty());
            assert(text == text + split_on(text, sep).last() && text.last() == sep) by {
                assert(text =~= text + Seq::<char>::empty());
            }
        } else {
            let grown = before.last().push(text.last());
            assert(split_on(text, sep).last() == grown);
            assert(text == head + grown && (head.len() == 0 || head.last() == sep)) by {
                assert(text =~= head + grown);
            }
        }
    }
}

/// A text without the separator that occurs in a text occurs in one of
/// its pieces.
pub proof fn lemma_substring_lies_in_a_piece(text: Seq<char>, needle: Seq<char>, sep: char)
    requires
        free_of(needle, sep),
        is_substring(needle, text),
    ensures
        exists|k: int|
            0 <= k < split_on(text, sep).len() && is_substring(
                needle,
                #[trigger] split_on(text, sep)[k],
            ),
    decreases text.len(),
{
    let at = choose|at: int| occurs_at(text, needle, at);
    let pieces = split_on(text, sep);
    let n = needle.len() as int;
    lemma_split_is_not_empty(text, sep);
    if n == 0 {
        assert(pieces[0].subrange(0, 0) =~= needle);
        assert(occurs_at(pieces[0], needle, 0));
    } else {
        let front = text.drop_last();
        let before = split_on(front, sep);
        lemma_split_is_not_empty(front, sep);
        let last = before.len() - 1;
        let window = text.subrange(at, at + n);
        assert(window == needle);
        if at + n <= front.len() {
            assert(front.subrange(at, at + n) =~= window);
            assert(occurs_at(front, needle, at));
            lemma_substring_lies_in_a_piece(front, needle, sep);
            let k = choose|k: int|
                0 <= k < before.len() && is_substring(needle, #[trigger] before[k]);
            if text.last() == sep || k < last {
                assert(pieces[k] == before[k]);
            } else {
                lemma_substring_survives_append(before[k], seq![text.last()], needle);
                assert(before[k] + seq![text.last()] =~= before[k].push(text.last()));
                assert(pieces[k] == before[k].push(text.last()));
            }
        } else {
            assert(window[n - 1] == text[at + n - 1]);
            assert(needle[n - 1] == text.last());
            assert(text.last() != sep);
            lemma_last_piece_is_the_end(front, sep);
            let head = choose|head: Seq<char>|
                front == head + before.last() && (head.len() == 0 || head.last() == sep);
            let grown = before.last().push(text.last());
            assert(front.push(text.last()) =~= text);
            assert(text =~= head + grown);
            if at < head.len() {
                let gap = head.len() - 1 - at;
                assert(window[gap] == text[head.len() - 1]);
                assert(text[head.len() - 1] == head.last());
                assert(needle[gap] == sep);
            }
            assert(grown.subrange(at - head.len(), at - head.len() + n) =~= window);
            assert(occurs_at(grown, needle, at - head.len()));
            assert(pieces[last] == grown);
        }
    }
}

/// Each piece occurs in what the pieces are joined to.
pub proof fn lemma_piece_is_in_join(pieces: Seq<Seq<char>>, k: int, sep: char)
    requires
        0 <= k < pieces.len(),
    ensures
        is_substring(pieces[k], join_with(pieces, sep)),
    decreases pieces.len(),
{
    if pieces.len() == 1 {
        assert(pieces[0].subrange(0, pieces[0].len() as int) =~= pieces[0]);
        assert(occurs_at(pieces[0], pieces[0], 0));
    } else {
        let front = pieces.drop_last();
        let joined = join_with(front, sep);
        if k == pieces.len() - 1 {
            lemma_suffix_is_substring(joined + seq![sep], pieces.last());
        } else {
            lemma_piece_is_in_join(front, k, sep);
            lemma_substring_survives_append(joined, seq![sep] + pieces.last(), pieces[k]);
            assert(joined + (seq![sep] + pieces.last()) =~= joined + seq![sep] + pieces.last());
        }
    }
}

/// Whether `c` is white space.
pub fn is_white_space(c: char) -> (space: bool)
    ensures
        space == is_space(c),
{
    ('\u{9}' <= c && c <= '\u{d}') || c == ' ' || c == '\u{85}' || c == '\u{a0}' || c
        == '\u{1680}' || ('\u{2000}' <= c && c <= '\u{200a}') || c == '\u{2028}' || c
        == '\u{2029}' || c == '\u{202f}' || c == '\u{205f}' || c == '\u{3000}'
}

/// `text` without the white space at either end.
pub fn trim(text: &str) -> (out: &str)
    ensures
        out@ == trimmed(text@),
{
    let chars = chars_of(text);
    let n = chars.len();
    let mut from: usize = 0;
    assert(text@.skip(0) =~= text@);
    while from < n && is_white_space(chars[from])
        invariant
            from <= n,
            n == chars.len(),
            chars@ == text@,
            trim_start(text@) == trim_start(text@.skip(from as int)),
        decreases n - from,
    {
        proof {
            let rest = text@.skip(from as int);
            assert(rest[0] == text@[from as int]);
            assert(rest.skip(1) =~= text@.skip(from + 1));
        }
        from += 1;
    }
    proof {
        let rest = text@.skip(from as int);
        if from < n {
            assert(rest[0] == text@[from as int]);
        }
        assert(trim_start(text@) == rest);
        assert(rest =~= text@.subrange(from as int, n as int));
    }
    let mut to: usize = n;
    while to > from && is_white_space(chars[to - 1])
        invariant
            from <= to <= n,
            n == chars.len(),
            chars@ == text@,
            trimmed(text@) == trim_end(text@.subrange(from as int, to as int)),
        decreases to,
    {
        proof {
            let part = text@.subrange(from as int, to as int);
            assert(part.last() == text@[to - 1]);
            assert(part.drop_last() =~= text@.subrange(from as int, to - 1));
        }
        to -= 1;
    }
    proof {
        let part = text@.subrange(from as int, to as int);
        if to > from {
            assert(part.last() == text@[to - 1]);
        }
        assert(trim_end(part) == part);
    }
    text.substring_char(from, to)
}

/// The pieces of `text` between the occurrences of `sep`, in order.
pub fn split(text: &str, sep: char) -> (pieces: Vec<String>)
    ensures
        pieces.deep_view() == split_on(text@, sep),
{
    let chars = chars_of(text);
    let n = chars.len();
    let mut pieces: Vec<String> = Vec::new();
    let mut from: usize = 0;
    let mut at: usize = 0;
    proof {
        assert(text@.take(0) =~= Seq::<char>::empty());
        assert(pieces.deep_view().push(text@.subrange(0, 0)) =~= seq![Seq::<char>::empty()]);
    }
    while at < n
        invariant
            from <= at <= n,
            n == chars.len(),
            chars@ == text@,
            split_on(text@.take(at as int), sep) == pieces.deep_view().push(
                text@.subrange(from as int, at as int),
            ),
        decreases n - at,
    {
        let ghost done = pieces.deep_view();
        let ghost open = text@.subrange(from as int, at as int);
        proof {
            let next = text@.take(at + 1);
            assert(next.drop_last() =~= text@.take(at as int));
            assert(next.last() == text@[at as int]);
            assert(done.push(open).drop_last() =~= done);
            assert(done.push(open).last() == open);
            assert(open.push(text@[at as int]) =~= text@.subrange(from as int, at + 1));
        }
        if chars[at] == sep {
            let piece = text.substring_char(from, at).to_owned();
            pieces.push(piece);
            proof {
                assert(pieces.deep_view() =~= done.push(open));
                assert(text@.subrange(at + 1, at + 1) =~= Seq::<char>::empty());
            }
            from = at + 1;
        }
        at += 1;
    }
    let piece = text.substring_char(from, n).to_owned();
    let ghost done = pieces.deep_view();
    pieces.push(piece);
    proof {
        assert(text@.take(n as int) =~= text@);
        assert(pieces.deep_view() =~= done.push(text@.subrange(from as int, n as int)));
    }
    pieces
}

/// The lines put together again, with a line break between each two.
pub fn join_lines(lines: &Vec<String>) -> (out: String)
    ensures
        out@ == join_with(lines.deep_view(), '\n'),
{
    let ghost all = lines.deep_view();
    let mut out = String::new();
    let mut i: usize = 0;
    proof {
        reveal_strlit("\n");
        assert("\n"@ =~= seq!['\n']);
        assert(all.take(0) =~= Seq::<Seq<char>>::empty());
    }
    while i < lines.len()
        invariant
            i <= lines.len(),
            all == lines.deep_view(),
            "\n"@ == seq!['\n'],
            out@ == join_with(all.take(i as int), '\n'),
        decreases lines.len() - i,
    {
        proof {
            let next = all.take(i + 1);
            assert(next.drop_last() =~= all.take(i as int));
            assert(next.last() == lines@[i as int]@);
        }
        if i > 0 {
            out.append("\n");
        }
        out.append(lines[i].as_str());
        proof {
            if i == 0 {
                assert(out@ =~= lines@[0]@);
            }
        }
        i += 1;
    }
    assert(all.take(lines.len() as int) =~= all);
    out
}

} // verus!
