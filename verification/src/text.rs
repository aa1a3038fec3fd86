//! Splitting a line of input into words.

use vstd::prelude::*;
use vstd::string::*;

verus! {

/// The characters that separate words: space, tab, line feed, form feed and
/// carriage return.
pub open spec fn is_separator(c: char) -> bool {
    c == ' ' || c == '\t' || c == '\n' || c == '\x0C' || c == '\r'
}

/// `current` as a list of at most one word: nothing when it is empty.
pub open spec fn closed_word(current: Seq<char>) -> Seq<Seq<char>> {
    if current.len() == 0 {
        Seq::empty()
    } else {
        seq![current]
    }
}

/// The words of `rest`, read from the left, when the characters of `current`
/// have been read since the last separator.
pub open spec fn split_from(rest: Seq<char>, current: Seq<char>) -> Seq<Seq<char>>
    decreases rest.len(),
{
    if rest.len() == 0 {
        closed_word(current)
    } else if is_separator(rest[0]) {
        closed_word(current) + split_from(rest.drop_first(), Seq::empty())
    } else {
        split_from(rest.drop_first(), current.push(rest[0]))
    }
}

/// The words of a line: its maximal runs of characters that are not
/// separators, from left to right.
pub open spec fn split_words(line: Seq<char>) -> Seq<Seq<char>> {
    split_from(line, Seq::empty())
}

/// The texts that a list of strings holds.
pub open spec fn views_of(strings: Seq<String>) -> Seq<Seq<char>> {
    Seq::new(strings.len(), |i: int| strings[i]@)
}

/// A word has no separator in it and is not empty.
pub open spec fn is_word(w: Seq<char>) -> bool {
    w.len() > 0 && forall|i: int| 0 <= i < w.len() ==> !is_separator(#[trigger] w[i])
}

/// Every item that `split_from` yields is a word, provided that what has
/// been read since the last separator holds no separator.
proof fn lemma_split_from_words(rest: Seq<char>, current: Seq<char>)
    requires
        forall|i: int| 0 <= i < current.len() ==> !is_separator(#[trigger] current[i]),
    ensures
        forall|k: int|
            0 <= k < split_from(rest, current).len() ==> is_word(
                #[trigger] split_from(rest, current)[k],
            ),
    decreases rest.len(),
{
    let all = split_from(rest, current);
    if rest.len() == 0 {
        assert forall|k: int| 0 <= k < all.len() implies is_word(#[trigger] all[k]) by {
            assert(all[k] == current);
        }
    } else if is_separator(rest[0]) {
        let tail = split_from(rest.drop_first(), Seq::empty());
        lemma_split_from_words(rest.drop_first(), Seq::empty());
        assert forall|k: int| 0 <= k < all.len() implies is_word(#[trigger] all[k]) by {
            if k < closed_word(current).len() {
                assert(all[k] == current);
            } else {
                assert(all[k] == tail[k - closed_word(current).len()]);
            }
        }
    } else {
        let longer = current.push(rest[0]);
        assert forall|i: int| 0 <= i < longer.len() implies !is_separator(
            #[trigger] longer[i],
        ) by {
            if i < current.len() {
                assert(longer[i] == current[i]);
            }
        }
        lemma_split_from_words(rest.drop_first(), longer);
        assert(all == split_from(rest.drop_first(), longer));
    }
}

/// Every word of a line is non-empty and free of separators.
pub proof fn lemma_split_words_are_words(line: Seq<char>)
    ensures
        forall|k: int|
            0 <= k < split_words(line).len() ==> is_word(#[trigger] split_words(line)[k]),
{
    lemma_split_from_words(line, Seq::empty());
}

/// A line made of separators alone has no words.
pub proof fn lemma_blank_line_has_no_words(line: Seq<char>)
    requires
        forall|i: int| 0 <= i < line.len() ==> is_separator(#[trigger] line[i]),
    ensures
        split_words(line).len() == 0,
    decreases line.len(),
{
    if line.len() > 0 {
        let tail = line.drop_first();
        assert forall|i: int| 0 <= i < tail.len() implies is_separator(#[trigger] tail[i]) by {
            assert(tail[i] == line[i + 1]);
        }
        lemma_blank_line_has_no_words(tail);
        assert(closed_word(Seq::<char>::empty()) + split_from(tail, Seq::empty()) =~= split_from(
            tail,
            Seq::empty(),
        ));
    }
}

/// Separators behind what is still to be read add no word.
proof fn lemma_split_from_ignores_tail(rest: Seq<char>, tail: Seq<char>, current: Seq<char>)
    requires
        forall|i: int| 0 <= i < tail.len() ==> is_separator(#[trigger] tail[i]),
    ensures
        split_from(rest + tail, current) == split_from(rest, current),
    decreases rest.len(), tail.len(),
{
    if rest.len() > 0 {
        assert((rest + tail).drop_first() =~= rest.drop_first() + tail);
        assert((rest + tail)[0] == rest[0]);
        if is_separator(rest[0]) {
            lemma_split_from_ignores_tail(rest.drop_first(), tail, Seq::empty());
        } else {
            lemma_split_from_ignores_tail(rest.drop_first(), tail, current.push(rest[0]));
        }
    } else if tail.len() > 0 {
        assert(rest + tail =~= tail);
        assert(rest + tail.drop_first() =~= tail.drop_first());
        assert forall|i: int| 0 <= i < tail.drop_first().len() implies is_separator(
            #[trigger] tail.drop_first()[i],
        ) by {
            assert(tail.drop_first()[i] == tail[i + 1]);
        }
        lemma_split_from_ignores_tail(rest, tail.drop_first(), Seq::empty());
        assert(closed_word(current) + closed_word(Seq::<char>::empty()) =~= closed_word(current));
    } else {
        assert(rest + tail =~= rest);
    }
}

/// White space at the end of a line, the line's end among it, changes none
/// of its words.
pub proof fn lemma_trailing_separators_are_ignored(line: Seq<char>, tail: Seq<char>)
    requires
        forall|i: int| 0 <= i < tail.len() ==> is_separator(#[trigger] tail[i]),
    ensures
        split_words(line + tail) == split_words(line),
{
    lemma_split_from_ignores_tail(line, tail, Seq::empty());
}

/// Whether `c` separates words.
pub fn separates(c: char) -> (r: bool)
    ensures
        r == is_separator(c),
{
    c == ' ' || c == '\t' || c == '\n' || c == '\x0C' || c == '\r'
}

/// The characters of `s`, in order.
pub fn chars_of(s: &str) -> (out: Vec<char>)
    ensures
        out@ == s@,
{
    let mut out: Vec<char> = Vec::new();
    let n: usize = s.unicode_len();
    let mut i: usize = 0;
    while i < n
        invariant
            n == s@.len(),
            i <= n,
            out@ == s@.take(i as int),
        decreases n - i,
    {
        out.push(s.get_char(i));
        i = i + 1;
    }
    out
}

/// Whether two strings hold the same text.
pub fn same_text(a: &str, b: &str) -> (r: bool)
    ensures
        r == (a@ == b@),
{
    let x = a.to_owned();
    let y = b.to_owned();
    x == y
}

/// Splits a line into its words.
pub fn split_line(line: &str) -> (words: Vec<String>)
    ensures
        views_of(words@) == split_words(line@),
{
    let chars = chars_of(line);
    let n: usize = chars.len();
    let mut words: Vec<String> = Vec::new();
    let mut start: usize = 0;
    let mut i: usize = 0;
    proof {
        assert(line@.skip(0) =~= line@);
        assert(line@.subrange(0, 0) =~= Seq::<char>::empty());
        assert(views_of(words@) =~= Seq::<Seq<char>>::empty());
    }
    while i < n
        invariant
            chars@ == line@,
            n == line@.len(),
            start <= i <= n,
            split_words(line@) == views_of(words@) + split_from(
                line@.skip(i as int),
                line@.subrange(start as int, i as int),
            ),
        decreases n - i,
    {
        let ghost rest = line@.skip(i as int);
        let ghost current = line@.subrange(start as int, i as int);
        let ghost before = views_of(words@);
        proof {
            assert(rest.drop_first() =~= line@.skip(i + 1));
            assert(rest[0] == line@[i as int]);
        }
        if separates(chars[i]) {
            if start < i {
                let word = line.substring_char(start, i).to_owned();
                words.push(word);
                proof {
                    assert(views_of(words@) =~= before + seq![current]);
                }
            }
            proof {
                assert(views_of(words@) =~= before + closed_word(current));
                assert(line@.subrange(i + 1, i + 1) =~= Seq::<char>::empty());
                assert(before + (closed_word(current) + split_from(
                    rest.drop_first(),
                    Seq::empty(),
                )) =~= (before + closed_word(current)) + split_from(
                    rest.drop_first(),
                    Seq::empty(),
                ));
            }
            start = i + 1;
        } else {
            proof {
                assert(current.push(rest[0]) =~= line@.subrange(start as int, i + 1));
            }
        }
        i = i + 1;
    }
    let ghost before = views_of(words@);
    let ghost current = line@.subrange(start as int, n as int);
    if start < n {
        let word = line.substring_char(start, n).to_owned();
        words.push(word);
        proof {
            assert(views_of(words@) =~= before + seq![current]);
        }
    }
    proof {
        assert(line@.skip(n as int).len() == 0);
        assert(views_of(words@) =~= before + closed_word(current));
    }
    words
}

} // verus!
