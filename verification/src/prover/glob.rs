//! Glob patterns of hosts, paths and binaries.
//!
//! `*` matches any printable characters but the separator, `**` matches any
//! text, and every other character matches what it stands for in a literal of the
//! solver: itself, where it is plain ASCII.

use crate::prover::solver;
use crate::prover::solver::{
    all_spelled_printably, codes, denoted, in_alphabet, is_plain, is_printable, is_sequence,
    is_spelled_printably, language, languages, without_nul, Codes,
};
use crate::text;
use vstd::prelude::*;
use z3::ast::Regexp;

verus! {

/// What one piece of a pattern matches.
pub enum GlobPiece {
    /// `**`: any text.
    AnyText,
    /// `*`: any printable characters but the separator.
    Segment,
    /// What the character stands for in a literal of the solver.
    Literal(char),
}

/// The pieces of a pattern, from left to right.
pub open spec fn pieces(pattern: Seq<char>) -> Seq<GlobPiece>
    decreases pattern.len(),
{
    if pattern.len() == 0 {
        Seq::empty()
    } else if pattern[0] != '*' {
        seq![GlobPiece::Literal(pattern[0])] + pieces(pattern.skip(1))
    } else if pattern.len() > 1 && pattern[1] == '*' {
        seq![GlobPiece::AnyText] + pieces(pattern.skip(2))
    } else {
        seq![GlobPiece::Segment] + pieces(pattern.skip(1))
    }
}

/// A printable ASCII character other than the separator.
pub open spec fn in_segment(c: u32, separator: char) -> bool {
    ' ' as u32 <= c && c <= '~' as u32 && c != separator as u32
}

/// The text is one that the piece matches.
pub open spec fn piece_accepts(piece: GlobPiece, separator: char, text: Codes) -> bool {
    match piece {
        GlobPiece::AnyText => true,
        GlobPiece::Segment => forall|i: int|
            0 <= i < text.len() ==> in_segment(#[trigger] text[i], separator),
        GlobPiece::Literal(c) => text == denoted(seq![c]),
    }
}

/// The text is a sequence of texts, each of which its piece matches.
pub open spec fn accepts(list: Seq<GlobPiece>, separator: char, text: Codes) -> bool
    decreases list.len(),
{
    if list.len() == 0 {
        text.len() == 0
    } else {
        exists|k: int|
            0 <= k <= text.len() && piece_accepts(list[0], separator, #[trigger] text.take(k))
                && accepts(list.skip(1), separator, text.skip(k))
    }
}

/// The pattern matches the text.
pub open spec fn glob_matches(pattern: Seq<char>, separator: char, text: Codes) -> bool {
    accepts(pieces(pattern), separator, text)
}

proof fn lemma_step(list: Seq<GlobPiece>, n: int, pattern: Seq<char>, piece: GlobPiece, used: int)
    requires
        0 <= n <= list.len(),
        0 <= used <= pattern.len(),
        list == list.take(n) + pieces(pattern),
        pieces(pattern) == seq![piece] + pieces(pattern.skip(used)),
    ensures
        n < list.len(),
        list[n] == piece,
        list == list.take(n + 1) + pieces(pattern.skip(used)),
{
    let tail = pieces(pattern);
    assert(tail.len() == 1 + pieces(pattern.skip(used)).len());
    assert(tail[0] == piece);
    assert(list.len() == n + tail.len());
    assert(list[n] == tail[0]);
    assert(list.take(n + 1) =~= list.take(n) + seq![piece]);
    assert(list =~= list.take(n + 1) + pieces(pattern.skip(used)));
}

/// The language matches the texts over the solver's alphabet that the piece does.
spec fn is_piece(members: Set<Codes>, piece: GlobPiece, separator: char) -> bool {
    forall|t: Codes|
        in_alphabet(t) ==> (#[trigger] members.contains(t) <==> piece_accepts(piece, separator, t))
}

/// `**` matches every text.
pub proof fn law_any_text_matches(separator: char, text: Codes)
    ensures
        glob_matches("**"@, separator, text),
{
    reveal_strlit("**");
    let pattern = "**"@;
    assert(pattern.len() == 2 && pattern[0] == '*' && pattern[1] == '*');
    assert(pattern.skip(2).len() == 0);
    assert(pieces(pattern.skip(2)) =~= Seq::empty());
    let list = pieces(pattern);
    assert(list[0] == GlobPiece::AnyText);
    assert(list.skip(1) =~= Seq::empty());
    let n = text.len() as int;
    assert(piece_accepts(list[0], separator, text.take(n)));
    assert(text.skip(n).len() == 0);
    assert(accepts(list.skip(1), separator, text.skip(n)));
}

/// How often a code occurs in a text.
pub open spec fn occurrences(text: Codes, c: u32) -> nat
    decreases text.len(),
{
    if text.len() == 0 {
        0
    } else {
        (if text[0] == c {
            1nat
        } else {
            0nat
        }) + occurrences(text.skip(1), c)
    }
}

/// What the characters of a pattern stand for, one after the other. A star stands
/// for itself.
pub open spec fn spelled(pattern: Seq<char>) -> Codes
    decreases pattern.len(),
{
    if pattern.len() == 0 {
        Seq::empty()
    } else {
        denoted(seq![pattern[0]]) + spelled(pattern.skip(1))
    }
}

/// How often a code occurs in what some pieces have to match literally.
spec fn literals(list: Seq<GlobPiece>, c: u32) -> nat
    decreases list.len(),
{
    if list.len() == 0 {
        0
    } else {
        (match list[0] {
            GlobPiece::Literal(d) => occurrences(denoted(seq![d]), c),
            _ => 0nat,
        }) + literals(list.skip(1), c)
    }
}

/// The pattern has no `**`.
pub open spec fn within_segments(pattern: Seq<char>) -> bool {
    forall|i: int|
        0 <= i < pieces(pattern).len() ==> !(#[trigger] pieces(pattern)[i] is AnyText)
}

proof fn lemma_occurrences_split(text: Codes, k: int, c: u32)
    requires
        0 <= k <= text.len(),
    ensures
        occurrences(text, c) == occurrences(text.take(k), c) + occurrences(text.skip(k), c),
    decreases k,
{
    if k == 0 {
        assert(text.skip(0) =~= text);
    } else {
        lemma_occurrences_split(text.skip(1), k - 1, c);
        assert(text.skip(1).take(k - 1) =~= text.take(k).skip(1));
        assert(text.skip(1).skip(k - 1) =~= text.skip(k));
        assert(text.take(k)[0] == text[0]);
    }
}

proof fn lemma_occurrences_sum(left: Codes, right: Codes, c: u32)
    ensures
        occurrences(left + right, c) == occurrences(left, c) + occurrences(right, c),
{
    let n = left.len() as int;
    lemma_occurrences_split(left + right, n, c);
    assert((left + right).take(n) =~= left);
    assert((left + right).skip(n) =~= right);
}

proof fn lemma_no_occurrence(text: Codes, c: u32)
    requires
        forall|i: int| 0 <= i < text.len() ==> text[i] != c,
    ensures
        occurrences(text, c) == 0,
    decreases text.len(),
{
    if text.len() > 0 {
        assert forall|i: int| 0 <= i < text.skip(1).len() implies text.skip(1)[i] != c by {
            assert(text.skip(1)[i] == text[i + 1]);
        }
        lemma_no_occurrence(text.skip(1), c);
    }
}

proof fn lemma_separators_match(list: Seq<GlobPiece>, separator: char, text: Codes)
    requires
        accepts(list, separator, text),
        forall|i: int| 0 <= i < list.len() ==> !(#[trigger] list[i] is AnyText),
    ensures
        occurrences(text, separator as u32) == literals(list, separator as u32),
    decreases list.len(),
{
    if list.len() > 0 {
        let k = choose|k: int|
            0 <= k <= text.len() && piece_accepts(list[0], separator, #[trigger] text.take(k))
                && accepts(list.skip(1), separator, text.skip(k));
        let rest = list.skip(1);
        assert forall|i: int| 0 <= i < rest.len() implies !(#[trigger] rest[i] is AnyText) by {
            assert(rest[i] == list[i + 1]);
        }
        lemma_separators_match(rest, separator, text.skip(k));
        lemma_occurrences_split(text, k, separator as u32);
        let part = text.take(k);
        assert(!(list[0] is AnyText));
        match list[0] {
            GlobPiece::Literal(c) => {},
            _ => {
                assert forall|i: int| 0 <= i < part.len() implies part[i] != separator as u32 by {
                    assert(in_segment(part[i], separator));
                }
                lemma_no_occurrence(part, separator as u32);
            },
        }
    }
}

proof fn lemma_literal_first(pattern: Seq<char>, c: char)
    requires
        pattern.len() > 0,
        pattern[0] == c,
        c != '*',
    ensures
        pieces(pattern) == seq![GlobPiece::Literal(c)] + pieces(pattern.skip(1)),
        pieces(pattern).len() > 0,
        pieces(pattern)[0] == GlobPiece::Literal(c),
        pieces(pattern).skip(1) == pieces(pattern.skip(1)),
{
    assert(pattern[0] != '*');
    lemma_head(GlobPiece::Literal(c), pieces(pattern.skip(1)));
}

proof fn lemma_head(piece: GlobPiece, tail: Seq<GlobPiece>)
    ensures
        (seq![piece] + tail)[0] == piece,
        (seq![piece] + tail).skip(1) == tail,
{
    assert((seq![piece] + tail).skip(1) =~= tail);
}

proof fn lemma_first_spelled(pattern: Seq<char>, first: char, c: u32)
    requires
        pattern.len() > 0,
        pattern[0] == first,
    ensures
        spelled(pattern) == denoted(seq![first]) + spelled(pattern.skip(1)),
        occurrences(spelled(pattern), c) == occurrences(denoted(seq![first]), c) + occurrences(
            spelled(pattern.skip(1)),
            c,
        ),
{
    lemma_occurrences_sum(denoted(seq![first]), spelled(pattern.skip(1)), c);
}

proof fn lemma_star_is_itself(c: u32)
    requires
        c != '*' as u32,
    ensures
        occurrences(denoted(seq!['*']), c) == 0,
{
    let star = seq!['*'];
    assert(is_plain(star));
    assert(denoted(star) == codes(star));
    lemma_no_occurrence(codes(star), c);
}

proof fn lemma_literals_of_pattern(pattern: Seq<char>, c: u32)
    requires
        c != '*' as u32,
    ensures
        literals(pieces(pattern), c) == occurrences(spelled(pattern), c),
    decreases pattern.len(),
{
    if pattern.len() > 0 {
        let first: char = pattern[0];
        lemma_first_spelled(pattern, first, c);
        lemma_star_is_itself(c);
        if first != '*' {
            lemma_literals_of_pattern(pattern.skip(1), c);
            lemma_literal_first(pattern, first);
        } else if pattern.len() > 1 && pattern[1] == '*' {
            lemma_literals_of_pattern(pattern.skip(2), c);
            lemma_head(GlobPiece::AnyText, pieces(pattern.skip(2)));
            assert(pattern.skip(1).skip(1) =~= pattern.skip(2));
            lemma_first_spelled(pattern.skip(1), '*', c);
        } else {
            lemma_literals_of_pattern(pattern.skip(1), c);
            lemma_head(GlobPiece::Segment, pieces(pattern.skip(1)));
        }
    }
}

/// `*` does not cross a separator: without `**`, a pattern matches only texts with as
/// many separators as its own characters stand for.
pub proof fn law_star_stays_within_segments(pattern: Seq<char>, separator: char, text: Codes)
    requires
        separator != '*',
        within_segments(pattern),
        glob_matches(pattern, separator, text),
    ensures
        occurrences(text, separator as u32) == occurrences(spelled(pattern), separator as u32),
{
    lemma_separators_match(pieces(pattern), separator, text);
    lemma_literals_of_pattern(pattern, separator as u32);
}

/// A pattern without stars matches the text that its characters stand for, and no
/// other.
pub proof fn law_plain_pattern_matches_itself(pattern: Seq<char>, separator: char, text: Codes)
    requires
        !pattern.contains('*'),
    ensures
        glob_matches(pattern, separator, text) <==> text == spelled(pattern),
    decreases pattern.len(),
{
    if pattern.len() == 0 {
        assert(pattern =~= Seq::empty());
        if text.len() == 0 {
            assert(text =~= spelled(pattern));
        }
    } else {
        let first: char = pattern[0];
        assert(first != '*') by {
            assert(pattern.contains(first));
        }
        let rest = pattern.skip(1);
        assert(!rest.contains('*')) by {
            if rest.contains('*') {
                let i = choose|i: int| 0 <= i < rest.len() && rest[i] == '*';
                assert(pattern[i + 1] == '*');
            }
        }
        let list = pieces(pattern);
        lemma_literal_first(pattern, first);
        lemma_first_spelled(pattern, first, 0);
        let head = denoted(seq![first]);
        if glob_matches(pattern, separator, text) {
            let k = choose|k: int|
                0 <= k <= text.len() && piece_accepts(list[0], separator, #[trigger] text.take(k))
                    && accepts(list.skip(1), separator, text.skip(k));
            law_plain_pattern_matches_itself(rest, separator, text.skip(k));
            assert(text.take(k) == head);
            assert(text =~= text.take(k) + text.skip(k));
        }
        if text == spelled(pattern) {
            let n = head.len() as int;
            assert(text.take(n) =~= head);
            assert(text.skip(n) =~= spelled(rest));
            law_plain_pattern_matches_itself(rest, separator, text.skip(n));
            assert(piece_accepts(list[0], separator, text.take(n)));
        }
    }
}

/// Plain ASCII characters stand for themselves, also one after the other.
pub proof fn law_plain_text_is_spelled(pattern: Seq<char>)
    requires
        is_plain(pattern),
    ensures
        spelled(pattern) == codes(pattern),
    decreases pattern.len(),
{
    if pattern.len() > 0 {
        let first: char = pattern[0];
        let rest = pattern.skip(1);
        assert(solver::is_plain_char(pattern[0]));
        assert(is_plain(seq![first]));
        assert forall|i: int| 0 <= i < rest.len() implies solver::is_plain_char(
            #[trigger] rest[i],
        ) by {
            assert(rest[i] == pattern[i + 1]);
        }
        law_plain_text_is_spelled(rest);
        lemma_first_spelled(pattern, first, 0);
        assert(spelled(pattern) =~= codes(pattern));
    } else {
        assert(spelled(pattern) =~= codes(pattern));
    }
}

proof fn lemma_sequence_is_glob(
    members: Seq<Set<Codes>>,
    list: Seq<GlobPiece>,
    separator: char,
    text: Codes,
)
    requires
        members.len() == list.len(),
        in_alphabet(text),
        forall|i: int|
            0 <= i < list.len() ==> is_piece(#[trigger] members[i], list[i], separator),
    ensures
        is_sequence(members, text) <==> accepts(list, separator, text),
    decreases list.len(),
{
    if list.len() > 0 {
        let rest = members.skip(1);
        let tail = list.skip(1);
        assert forall|i: int| 0 <= i < tail.len() implies is_piece(
            #[trigger] rest[i],
            tail[i],
            separator,
        ) by {
            assert(rest[i] == members[i + 1]);
        }
        assert(is_piece(members[0], list[0], separator));
        assert forall|k: int| 0 <= k <= text.len() implies ((members[0].contains(
            #[trigger] text.take(k),
        ) && is_sequence(rest, text.skip(k))) <==> (piece_accepts(
            list[0],
            separator,
            text.take(k),
        ) && accepts(tail, separator, text.skip(k)))) by {
            assert(in_alphabet(text.take(k)));
            assert(in_alphabet(text.skip(k))) by {
                assert forall|i: int| 0 <= i < text.skip(k).len() implies #[trigger] text.skip(
                    k,
                )[i] <= 0x2ffff by {
                    assert(text.skip(k)[i] == text[k + i]);
                }
            }
            lemma_sequence_is_glob(rest, tail, separator, text.skip(k));
        }
    }
}

proof fn lemma_segment(members: Set<Codes>, separator: char, text: Codes)
    requires
        forall|t: Codes| #[trigger]
            members.contains(t) <==> (t.len() == 1 && in_segment(t[0], separator)),
    ensures
        solver::is_repetition(members, text) <==> piece_accepts(
            GlobPiece::Segment,
            separator,
            text,
        ),
    decreases text.len(),
{
    if text.len() > 0 {
        if solver::is_repetition(members, text) {
            let k = choose|k: int|
                0 < k <= text.len() && members.contains(#[trigger] text.take(k))
                    && solver::is_repetition(members, text.skip(k));
            assert(text.take(k).len() == 1);
            lemma_segment(members, separator, text.skip(1));
            assert forall|i: int| 0 <= i < text.len() implies in_segment(
                #[trigger] text[i],
                separator,
            ) by {
                if i == 0 {
                    assert(text.take(1)[0] == text[0]);
                } else {
                    assert(text.skip(1)[i - 1] == text[i]);
                }
            }
        }
        if piece_accepts(GlobPiece::Segment, separator, text) {
            lemma_segment(members, separator, text.skip(1));
            assert(text.take(1)[0] == text[0]);
            assert(members.contains(text.take(1)));
            assert forall|i: int| 0 <= i < text.skip(1).len() implies in_segment(
                #[trigger] text.skip(1)[i],
                separator,
            ) by {
                assert(text.skip(1)[i] == text[i + 1]);
            }
        }
    }
}

/// The regular expression for the characters that `*` matches.
fn non_separator(separator: char) -> (r: Regexp)
    requires
        separator == '/' || separator == '.',
    ensures
        is_spelled_printably(r),
        forall|t: Codes| #[trigger]
            language(r).contains(t) <==> (t.len() == 1 && in_segment(t[0], separator)),
{
    if separator == '/' {
        let below = solver::one_between(' ', '.');
        let above = solver::one_between('0', '~');
        solver::either(&below, &above)
    } else {
        let below = solver::one_between(' ', '-');
        let above = solver::one_between('/', '~');
        solver::either(&below, &above)
    }
}

/// One expression for a list of expressions that are to match in turn. Pairs at
/// the end of the list are joined until the solver takes its length.
fn joined(expressions: Vec<Regexp>) -> (r: Regexp)
    requires
        expressions.len() > 0,
    ensures
        all_spelled_printably(expressions@) ==> is_spelled_printably(r),
        forall|t: Codes| #[trigger]
            language(r).contains(t) <==> is_sequence(languages(expressions@), t),
{
    let mut parts = expressions;
    while parts.len() > u32::MAX as usize
        invariant
            parts.len() > 0,
            all_spelled_printably(expressions@) ==> all_spelled_printably(parts@),
            forall|t: Codes|
                is_sequence(languages(parts@), t) <==> #[trigger] is_sequence(
                    languages(expressions@),
                    t,
                ),
        decreases parts.len(),
    {
        let ghost before = parts@;
        let last = parts.pop().unwrap();
        let second = parts.pop().unwrap();
        let mut pair: Vec<Regexp> = Vec::new();
        pair.push(second);
        pair.push(last);
        let ghost ends = pair@;
        let both = solver::in_turn(&pair);
        parts.push(both);
        proof {
            let n = before.len() - 2;
            assert(languages(before) =~= languages(before.take(n)) + languages(ends));
            assert(languages(parts@) =~= languages(before.take(n)) + seq![language(both)]);
            assert forall|t: Codes|
                is_sequence(languages(parts@), t) <==> #[trigger] is_sequence(
                    languages(expressions@),
                    t,
                ) by {
                lemma_join_tail(languages(before.take(n)), languages(ends), language(both), t);
                assert(is_sequence(languages(before), t) <==> is_sequence(
                    languages(expressions@),
                    t,
                ));
            }
        }
    }
    let r = solver::in_turn(&parts);
    r
}

proof fn lemma_single(members: Set<Codes>, text: Codes)
    ensures
        is_sequence(seq![members], text) <==> members.contains(text),
{
    let list = seq![members];
    assert(list.skip(1).len() == 0);
    let n = text.len() as int;
    assert(text.take(n) =~= text);
    if members.contains(text) {
        assert(members.contains(text.take(n)));
        assert(is_sequence(list.skip(1), text.skip(n)));
    }
    if is_sequence(list, text) {
        let k = choose|k: int|
            0 <= k <= text.len() && list[0].contains(#[trigger] text.take(k)) && is_sequence(
                list.skip(1),
                text.skip(k),
            );
        assert(text.skip(k).len() == 0);
        assert(text.take(k) =~= text);
    }
}

proof fn lemma_join_tail(
    front: Seq<Set<Codes>>,
    ends: Seq<Set<Codes>>,
    both: Set<Codes>,
    text: Codes,
)
    requires
        forall|t: Codes| #[trigger] both.contains(t) <==> is_sequence(ends, t),
    ensures
        is_sequence(front + seq![both], text) <==> is_sequence(front + ends, text),
    decreases front.len(),
{
    if front.len() == 0 {
        assert(front + seq![both] =~= seq![both]);
        assert(front + ends =~= ends);
        lemma_single(both, text);
    } else {
        let left = front + seq![both];
        let right = front + ends;
        assert(left.skip(1) =~= front.skip(1) + seq![both]);
        assert(right.skip(1) =~= front.skip(1) + ends);
        assert forall|k: int| 0 <= k <= text.len() implies ((left[0].contains(
            #[trigger] text.take(k),
        ) && is_sequence(left.skip(1), text.skip(k))) <==> (right[0].contains(text.take(k))
            && is_sequence(right.skip(1), text.skip(k)))) by {
            lemma_join_tail(front.skip(1), ends, both, text.skip(k));
        }
    }
}

/// The regular expression of a pattern.
pub(crate) fn glob_regex(pattern: &str, separator: char) -> (r: Regexp)
    requires
        separator == '/' || separator == '.',
        without_nul(pattern@),
    ensures
        is_printable(pattern@) ==> is_spelled_printably(r),
        forall|t: Codes|
            in_alphabet(t) ==> (#[trigger] language(r).contains(t) <==> glob_matches(
                pattern@,
                separator,
                t,
            )),
{
    if text::same(pattern, "**") {
        let r = solver::any_text();
        proof {
            assert forall|t: Codes| in_alphabet(t) implies (#[trigger] language(r).contains(
                t,
            ) <==> glob_matches(pattern@, separator, t)) by {
                law_any_text_matches(separator, t);
            }
        }
        return r;
    }
    let chars = text::chars_of(pattern);
    let ghost list = pieces(pattern@);
    let mut parts: Vec<Regexp> = Vec::new();
    let mut i: usize = 0;
    proof {
        assert(pattern@.skip(0) =~= pattern@);
        assert(list.take(0) + pieces(pattern@) =~= list);
    }
    while i < chars.len()
        invariant
            separator == '/' || separator == '.',
            i <= chars.len(),
            chars@ == pattern@,
            without_nul(pattern@),
            list == pieces(pattern@),
            parts.len() <= list.len(),
            is_printable(pattern@) ==> all_spelled_printably(parts@),
            list == list.take(parts.len() as int) + pieces(pattern@.skip(i as int)),
            forall|j: int|
                0 <= j < parts.len() ==> is_piece(
                    #[trigger] language(parts@[j]),
                    list[j],
                    separator,
                ),
        decreases chars.len() - i,
    {
        let c = chars[i];
        let ghost rest = pattern@.skip(i as int);
        let ghost done = parts@;
        let ghost n = parts.len() as int;
        proof {
            assert(rest[0] == c);
            assert(rest.skip(1) =~= pattern@.skip(i + 1));
            assert(rest.len() == chars.len() - i);
        }
        if c == '*' && i + 1 < chars.len() && chars[i + 1] == '*' {
            proof {
                assert(rest[1] == '*');
                assert(rest.skip(2) =~= pattern@.skip(i + 2));
                lemma_step(list, n, rest, GlobPiece::AnyText, 2);
            }
            parts.push(solver::any_text());
            i += 2;
        } else if c == '*' {
            proof {
                lemma_step(list, n, rest, GlobPiece::Segment, 1);
            }
            let one = non_separator(separator);
            let many = solver::repeated(&one);
            proof {
                assert forall|t: Codes| in_alphabet(t) implies (#[trigger] language(
                    many,
                ).contains(t) <==> piece_accepts(GlobPiece::Segment, separator, t)) by {
                    lemma_segment(language(one), separator, t);
                }
                assert(is_piece(language(many), list[n], separator));
            }
            parts.push(many);
            i += 1;
        } else {
            proof {
                lemma_step(list, n, rest, GlobPiece::Literal(c), 1);
                assert(pattern@.contains(c));
            }
            let literal = text::string_of(&chars, i, i + 1);
            proof {
                assert(literal@ =~= seq![c]);
                assert(without_nul(literal@));
                if is_printable(pattern@) {
                    assert(solver::is_printable_char(pattern@[i as int]));
                    assert(is_printable(literal@));
                }
            }
            let one = solver::exactly(literal.as_str());
            proof {
                assert(is_piece(language(one), list[n], separator));
            }
            parts.push(one);
            i += 1;
        }
        proof {
            assert forall|j: int| 0 <= j < parts.len() implies is_piece(
                #[trigger] language(parts@[j]),
                list[j],
                separator,
            ) by {
                if j < n {
                    assert(parts@[j] == done[j]);
                }
            }
        }
    }
    proof {
        assert(pieces(pattern@.skip(i as int)) =~= Seq::empty());
        assert(list =~= list.take(parts.len() as int));
        assert(parts.len() == list.len());
    }
    let ghost members = languages(parts@);
    proof {
        assert forall|t: Codes| in_alphabet(t) implies (#[trigger] is_sequence(members, t)
            <==> accepts(list, separator, t)) by {
            lemma_sequence_is_glob(members, list, separator, t);
        }
    }
    if parts.len() == 0 {
        proof {
            reveal_strlit("");
            assert(members =~= Seq::empty());
        }
        let r = solver::exactly("");
        proof {
            assert forall|t: Codes| in_alphabet(t) implies (#[trigger] language(
                r,
            ).contains(t) <==> glob_matches(pattern@, separator, t)) by {
                assert(is_sequence(members, t) <==> t.len() == 0);
                if t.len() == 0 {
                    assert(t =~= codes(""@));
                }
            }
        }
        r
    } else {
        let r = joined(parts);
        proof {
            assert forall|t: Codes| in_alphabet(t) implies (#[trigger] language(
                r,
            ).contains(t) <==> glob_matches(pattern@, separator, t)) by {
                assert(is_sequence(members, t) <==> accepts(list, separator, t));
            }
        }
        r
    }
}

} // verus!
