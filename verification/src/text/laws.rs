//! What the operations on texts give back.

use crate::text::{
    all_digits, decimal, digits_value, ends_with, first_index, is_space, join, less,
    lemma_first_index, lemma_split_nonempty, lines, lower, replaced, split, split_once, starts_with,
    trim_end, trim_start, trimmed, upper, without_cr, word_runs, words,
};
use vstd::prelude::*;

verus! {

// ---------------------------------------------------------------------------
// Characters
// ---------------------------------------------------------------------------

/// Of the ASCII characters, the space, the tabs, the line feed, the form feed and the
/// carriage return are white space.
pub proof fn law_white_space(c: char)
    requires
        (c as u32) < 0x80,
    ensures
        is_space(c) <==> c == ' ' || c == '\t' || c == '\n' || c == '\r' || c as u32 == 0x0b
            || c as u32 == 0x0c,
{
}

/// Small letters stand for capitals, each for its own, and nothing else changes.
pub proof fn law_lower(s: Seq<char>, i: int)
    requires
        0 <= i < s.len(),
    ensures
        lower(s).len() == s.len(),
        'A' <= s[i] && s[i] <= 'Z' ==> 'a' <= lower(s)[i] && lower(s)[i] <= 'z' && lower(s)[i]
            as u32 - 'a' as u32 == s[i] as u32 - 'A' as u32,
        s[i] < 'A' || 'Z' < s[i] ==> lower(s)[i] == s[i],
{
}

/// Capitals stand for small letters, each for its own, and nothing else changes.
pub proof fn law_upper(s: Seq<char>, i: int)
    requires
        0 <= i < s.len(),
    ensures
        upper(s).len() == s.len(),
        'a' <= s[i] && s[i] <= 'z' ==> 'A' <= upper(s)[i] && upper(s)[i] <= 'Z' && upper(s)[i]
            as u32 - 'A' as u32 == s[i] as u32 - 'a' as u32,
        s[i] < 'a' || 'z' < s[i] ==> upper(s)[i] == s[i],
{
}

// ---------------------------------------------------------------------------
// White space
// ---------------------------------------------------------------------------

/// Trimming takes white space away at both ends, all of it, and nothing else.
pub proof fn law_trimmed(s: Seq<char>) -> (r: (int, int))
    ensures
        0 <= r.0 <= r.1 <= s.len(),
        trimmed(s) == s.subrange(r.0, r.1),
        forall|i: int| 0 <= i < r.0 ==> is_space(#[trigger] s[i]),
        forall|i: int| r.1 <= i < s.len() ==> is_space(#[trigger] s[i]),
        trimmed(s).len() > 0 ==> !is_space(trimmed(s).first()) && !is_space(trimmed(s).last()),
{
    let from = lemma_trim_start(s);
    let rest = trim_start(s);
    let to = lemma_trim_end(rest);
    assert(trimmed(s) =~= s.subrange(from, from + to));
    assert forall|i: int| from + to <= i < s.len() implies is_space(#[trigger] s[i]) by {
        assert(rest[i - from] == s[i]);
    }
    (from, from + to)
}

proof fn lemma_trim_start(s: Seq<char>) -> (from: int)
    ensures
        0 <= from <= s.len(),
        trim_start(s) == s.skip(from),
        forall|i: int| 0 <= i < from ==> is_space(#[trigger] s[i]),
        trim_start(s).len() > 0 ==> !is_space(trim_start(s).first()),
    decreases s.len(),
{
    if s.len() > 0 && is_space(s[0]) {
        let rest = s.skip(1);
        let from = lemma_trim_start(rest);
        assert(trim_start(s) =~= s.skip(from + 1));
        assert forall|i: int| 0 <= i < from + 1 implies is_space(#[trigger] s[i]) by {
            if i > 0 {
                assert(rest[i - 1] == s[i]);
            }
        }
        from + 1
    } else {
        assert(s.skip(0) =~= s);
        0
    }
}

proof fn lemma_trim_end(s: Seq<char>) -> (to: int)
    ensures
        0 <= to <= s.len(),
        trim_end(s) == s.take(to),
        forall|i: int| to <= i < s.len() ==> is_space(#[trigger] s[i]),
        trim_end(s).len() > 0 ==> !is_space(trim_end(s).last()) && trim_end(s).first()
            == s.first(),
    decreases s.len(),
{
    if s.len() > 0 && is_space(s.last()) {
        let rest = s.drop_last();
        let to = lemma_trim_end(rest);
        assert(trim_end(s) =~= s.take(to));
        assert forall|i: int| to <= i < s.len() implies is_space(#[trigger] s[i]) by {
            if i < s.len() - 1 {
                assert(rest[i] == s[i]);
            }
        }
        to
    } else {
        assert(s.take(s.len() as int) =~= s);
        s.len() as int
    }
}

/// White space parts the words of a text.
pub proof fn law_words_are_parted(a: Seq<char>, space: char, b: Seq<char>)
    requires
        is_space(space),
    ensures
        words(a.push(space) + b) == words(a) + words(b),
{
    lemma_runs_append(a, space, b);
    let (done, open) = word_runs(b);
    if open.len() > 0 {
        assert(words(a) + done.push(open) =~= (words(a) + done).push(open));
    }
}

proof fn lemma_runs_append(a: Seq<char>, space: char, b: Seq<char>)
    requires
        is_space(space),
    ensures
        word_runs(a.push(space) + b) == (words(a) + word_runs(b).0, word_runs(b).1),
    decreases b.len(),
{
    let s = a.push(space) + b;
    if b.len() == 0 {
        assert(s =~= a.push(space));
        assert(s.drop_last() =~= a);
        let (done, open) = word_runs(a);
        assert(words(a) + Seq::<Seq<char>>::empty() =~= words(a));
        assert(open.len() == 0 ==> open =~= Seq::empty());
    } else {
        lemma_runs_append(a, space, b.drop_last());
        assert(s.drop_last() =~= a.push(space) + b.drop_last());
        let (done, open) = word_runs(b.drop_last());
        if is_space(b.last()) && open.len() > 0 {
            assert((words(a) + done).push(open) =~= words(a) + done.push(open));
        }
    }
}

/// A text without white space is one word, and the empty text has none.
pub proof fn law_one_word(s: Seq<char>)
    requires
        forall|i: int| 0 <= i < s.len() ==> !is_space(#[trigger] s[i]),
    ensures
        words(s) == (if s.len() == 0 {
            Seq::empty()
        } else {
            seq![s]
        }),
{
    lemma_open_word(s);
    assert(Seq::<Seq<char>>::empty().push(s) =~= seq![s]);
}

proof fn lemma_open_word(s: Seq<char>)
    requires
        forall|i: int| 0 <= i < s.len() ==> !is_space(#[trigger] s[i]),
    ensures
        word_runs(s) == (Seq::<Seq<char>>::empty(), s),
    decreases s.len(),
{
    if s.len() > 0 {
        let rest = s.drop_last();
        assert forall|i: int| 0 <= i < rest.len() implies !is_space(#[trigger] rest[i]) by {
            assert(rest[i] == s[i]);
        }
        lemma_open_word(rest);
        assert(rest.push(s.last()) =~= s);
    } else {
        assert(s =~= Seq::empty());
    }
}

// ---------------------------------------------------------------------------
// Parts
// ---------------------------------------------------------------------------

/// A text is cut at the first place where the character stands, and nowhere where it does
/// not occur.
pub proof fn law_split_once(s: Seq<char>, c: char)
    ensures
        split_once(s, c) is Some <==> s.contains(c),
        split_once(s, c) matches Some(parts) ==> s == parts.0.push(c) + parts.1
            && !parts.0.contains(c),
{
    lemma_first_index(s, c);
    if let Some(i) = first_index(s, c) {
        assert(s.contains(s[i]));
        assert(s =~= s.take(i).push(c) + s.skip(i + 1));
        assert forall|j: int| 0 <= j < i implies #[trigger] s.take(i)[j] != c by {
            assert(s[j] != c);
        }
    }
}

/// A text in front of the first place where the character stands, and the rest, are what it
/// is cut into.
pub proof fn law_cut(front: Seq<char>, c: char, rest: Seq<char>)
    requires
        !front.contains(c),
    ensures
        split_once(front.push(c) + rest, c) == Some((front, rest)),
{
    let s = front.push(c) + rest;
    lemma_first_index(s, c);
    assert(s[front.len() as int] == c);
    let i = first_index(s, c)->0;
    if i < front.len() {
        assert(front[i] == s[i]);
        assert(front.contains(front[i]));
    }
    assert(i == front.len());
    assert(s.take(i) =~= front);
    assert(s.skip(i + 1) =~= rest);
}

/// The parts of a text hold no separator, and with separators between them they are the text.
pub proof fn law_split(s: Seq<char>, c: char)
    ensures
        split(s, c).len() >= 1,
        join(split(s, c), seq![c]) == s,
        forall|i: int| 0 <= i < split(s, c).len() ==> !(#[trigger] split(s, c)[i]).contains(c),
    decreases s.len(),
{
    let parts = split(s, c);
    if s.len() == 0 {
        assert(join(parts, seq![c]) =~= s);
    } else {
        let before = split(s.drop_last(), c);
        law_split(s.drop_last(), c);
        assert(s =~= s.drop_last().push(s.last()));
        if s.last() == c {
            assert(parts.drop_last() =~= before);
            assert(join(parts, seq![c]) =~= s);
        } else {
            assert(parts.drop_last() =~= before.drop_last());
            assert(join(parts, seq![c]) =~= join(before, seq![c]).push(s.last()));
            assert forall|i: int| 0 <= i < parts.len() implies !(#[trigger] parts[i]).contains(
                c,
            ) by {
                if i < parts.len() - 1 {
                    assert(parts[i] == before[i]);
                } else {
                    let last = before[before.len() - 1];
                    assert(parts[i] == last.push(s.last()));
                    assert forall|k: int| 0 <= k < parts[i].len() implies parts[i][k] != c by {
                        if k < last.len() {
                            assert(last[k] == parts[i][k]);
                            assert(last.contains(last[k]));
                        }
                    }
                }
            }
        }
    }
}

/// To replace a character is to part the text at it and to put the replacement between the
/// parts.
pub proof fn law_replaced(s: Seq<char>, c: char, by: Seq<char>)
    ensures
        replaced(s, c, by) == join(split(s, c), by),
    decreases s.len(),
{
    let parts = split(s, c);
    if s.len() == 0 {
        assert(join(parts, by) =~= replaced(s, c, by));
    } else {
        let before = split(s.drop_last(), c);
        law_replaced(s.drop_last(), c, by);
        lemma_split_nonempty(s.drop_last(), c);
        if s.last() == c {
            assert(parts.drop_last() =~= before);
            assert(join(parts, by) =~= replaced(s, c, by));
        } else {
            assert(parts.drop_last() =~= before.drop_last());
            assert(join(parts, by) =~= replaced(s, c, by));
        }
    }
}

/// A line that is ended by a line feed comes without it, and without the carriage return
/// before it. What follows the last line feed is a line too, unless it is empty.
pub proof fn law_lines(s: Seq<char>, line: Seq<char>)
    requires
        !line.contains('\n'),
    ensures
        lines(Seq::empty()) == Seq::<Seq<char>>::empty(),
        line.len() > 0 ==> lines(line) == seq![line],
        lines(s.push('\n') + line) == lines(s.push('\n')) + lines(line),
        lines(line.push('\n')) == seq![
            if line.len() > 0 && line.last() == '\r' {
                line.drop_last()
            } else {
                line
            },
        ],
{
    law_one_part(line, '\n');
    law_one_part(Seq::empty(), '\n');
    assert(lines(Seq::empty()) =~= Seq::empty());
    assert(line.len() > 0 ==> lines(line) =~= seq![line]);
    law_last_part(s, '\n', line);
    let before = split(s, '\n');
    lemma_split_nonempty(s, '\n');
    assert(s.push('\n').drop_last() =~= s);
    assert(split(s.push('\n'), '\n') == before.push(Seq::empty()));
    assert(lines(s.push('\n') + line) =~= lines(s.push('\n')) + lines(line));
    assert(line.push('\n').drop_last() =~= line);
    assert(split(line.push('\n'), '\n') =~= seq![line, Seq::empty()]);
    assert(lines(line.push('\n')) =~= seq![without_cr(line)]);
}

/// A text without the separator is one part.
pub proof fn law_one_part(s: Seq<char>, c: char)
    requires
        !s.contains(c),
    ensures
        split(s, c) == seq![s],
    decreases s.len(),
{
    if s.len() > 0 {
        let rest = s.drop_last();
        assert(s.contains(s[s.len() - 1]));
        assert forall|i: int| 0 <= i < rest.len() implies #[trigger] rest[i] != c by {
            assert(s.contains(s[i]));
        }
        law_one_part(rest, c);
        assert(rest.push(s.last()) =~= s);
        assert(split(s, c) =~= seq![s]);
    } else {
        assert(s =~= Seq::empty());
    }
}

/// What follows the last separator is the last part.
pub proof fn law_last_part(s: Seq<char>, c: char, part: Seq<char>)
    requires
        !part.contains(c),
    ensures
        split(s.push(c) + part, c) == split(s, c).push(part),
    decreases part.len(),
{
    let whole = s.push(c) + part;
    if part.len() == 0 {
        assert(whole =~= s.push(c));
        assert(whole.drop_last() =~= s);
        assert(part =~= Seq::empty());
    } else {
        let rest = part.drop_last();
        assert(part.contains(part[part.len() - 1]));
        assert forall|i: int| 0 <= i < rest.len() implies #[trigger] rest[i] != c by {
            assert(part.contains(part[i]));
        }
        law_last_part(s, c, rest);
        assert(whole.drop_last() =~= s.push(c) + rest);
        assert(rest.push(part.last()) =~= part);
        assert(split(whole, c) =~= split(s, c).push(part));
    }
}

/// What a text begins and ends with.
pub proof fn law_ends(a: Seq<char>, b: Seq<char>, s: Seq<char>)
    ensures
        starts_with(a + b, a),
        ends_with(a + b, b),
        starts_with(s, a) ==> s == a + s.skip(a.len() as int),
        ends_with(s, b) ==> s == s.take(s.len() - b.len()) + b,
{
    assert((a + b).take(a.len() as int) =~= a);
    assert((a + b).skip(a.len() as int) =~= b);
    if starts_with(s, a) {
        assert(s =~= s.take(a.len() as int) + s.skip(a.len() as int));
    }
    if ends_with(s, b) {
        assert(s =~= s.take(s.len() - b.len()) + s.skip(s.len() - b.len()));
    }
}

// ---------------------------------------------------------------------------
// Numbers and order
// ---------------------------------------------------------------------------

/// Decimal notation has only digits, denotes the number, and has no zero in front of another
/// digit.
pub proof fn law_decimal(n: nat)
    ensures
        all_digits(decimal(n)),
        decimal(n).len() > 0,
        digits_value(decimal(n)) == n,
        decimal(n).len() > 1 ==> decimal(n)[0] != '0',
        n > 0 ==> decimal(n)[0] != '0',
    decreases n,
{
    if n < 10 {
        assert(decimal(n).drop_last() =~= Seq::empty());
        assert(digits_value(Seq::<char>::empty()) == 0);
    } else {
        law_decimal(n / 10);
        assert(decimal(n).drop_last() =~= decimal(n / 10));
        assert(decimal(n)[0] == decimal(n / 10)[0]);
    }
}

/// Texts are ordered by the first place at which they differ, and a text comes before every
/// longer one that it begins.
pub proof fn law_order(common: Seq<char>, x: char, a: Seq<char>, y: char, b: Seq<char>)
    ensures
        x != y ==> (less(common.push(x) + a, common.push(y) + b) <==> x < y),
        less(common, common.push(x) + a),
        !less(common.push(x) + a, common),
    decreases common.len(),
{
    let left = common.push(x) + a;
    let right = common.push(y) + b;
    if common.len() > 0 {
        let rest = common.skip(1);
        law_order(rest, x, a, y, b);
        assert(left.skip(1) =~= rest.push(x) + a);
        assert(right.skip(1) =~= rest.push(y) + b);
    }
}

} // verus!
