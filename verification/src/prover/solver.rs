//! Terms of the Z3 solver and what they mean.
//!
//! A formula is taken as the set of valuations that satisfy it, and a regular
//! expression as the set of texts that it matches. The functions of this module
//! build terms through the `z3` crate and say what each term holds.

use vstd::prelude::*;
use z3::ast::{Bool, Int, Regexp};

verus! {

/// A formula of the `z3` crate.
#[verifier::external_type_specification]
#[verifier::external_body]
pub struct ExBool(z3::ast::Bool);

/// A regular expression of the `z3` crate.
#[verifier::external_type_specification]
#[verifier::external_body]
pub struct ExRegexp(z3::ast::Regexp);

/// A text of the solver: the codes of its characters. Among them are codes that
/// no `char` has.
pub type Codes = Seq<u32>;

/// The codes of a text's characters.
pub open spec fn codes(text: Seq<char>) -> Codes {
    Seq::new(text.len(), |i: int| text[i] as u32)
}

/// Values for the named constants of a formula.
pub struct Valuation {
    pub texts: Map<Seq<char>, Codes>,
    pub numbers: Map<Seq<char>, int>,
}

/// The valuations that satisfy a formula.
pub uninterp spec fn solutions(formula: Bool) -> Set<Valuation>;

/// The texts that a regular expression matches.
pub uninterp spec fn language(expression: Regexp) -> Set<Codes>;

/// Every literal in a formula is printable ASCII.
pub uninterp spec fn has_printable_literals(formula: Bool) -> bool;

/// Every literal in a regular expression is printable ASCII.
pub uninterp spec fn is_spelled_printably(expression: Regexp) -> bool;

/// An answer that the solver may give for a formula and the named constants in it. It
/// may give different ones.
pub uninterp spec fn may_answer(
    formula: Bool,
    texts: Seq<Seq<char>>,
    number: Seq<char>,
    answer: Answer,
) -> bool;

/// The text that a literal stands for where it is more than plain ASCII: the
/// solver reads backslashes in its own way, and characters in an encoding of its own.
pub uninterp spec fn literal_text(literal: Seq<char>) -> Codes;

/// The text that a literal stands for. Plain ASCII stands for itself.
pub open spec fn denoted(literal: Seq<char>) -> Codes {
    if is_plain(literal) {
        codes(literal)
    } else {
        literal_text(literal)
    }
}

/// Every code of the text belongs to the solver's alphabet, which ends with
/// U+2FFFF.
pub open spec fn in_alphabet(text: Codes) -> bool {
    forall|i: int| 0 <= i < text.len() ==> #[trigger] text[i] <= 0x2ffff
}

/// Every text of the valuation is a text over the solver's alphabet.
pub open spec fn over_alphabet(valuation: Valuation) -> bool {
    forall|name: Seq<char>| in_alphabet(#[trigger] valuation.texts[name])
}

/// A printable ASCII character.
pub open spec fn is_printable_char(c: char) -> bool {
    ' ' <= c && c <= '~'
}

/// Every character is printable ASCII.
pub open spec fn is_printable(text: Seq<char>) -> bool {
    forall|i: int| 0 <= i < text.len() ==> is_printable_char(#[trigger] text[i])
}

/// A printable ASCII character other than the backslash, which the solver
/// takes for itself in a literal.
pub open spec fn is_plain_char(c: char) -> bool {
    is_printable_char(c) && c != '\\'
}

/// Every character stands for itself in a literal of the solver.
pub open spec fn is_plain(text: Seq<char>) -> bool {
    forall|i: int| 0 <= i < text.len() ==> is_plain_char(#[trigger] text[i])
}

/// The text holds no NUL, which no literal of the solver can hold.
pub open spec fn without_nul(text: Seq<char>) -> bool {
    !text.contains('\0')
}

/// The text holds no escape of the solver, each of which begins with `\u`.
pub open spec fn without_escapes(text: Seq<char>) -> bool {
    forall|i: int| 0 <= i < text.len() - 1 && #[trigger] text[i] == '\\' ==> text[i + 1] != 'u'
}

/// The text is one that the solver takes for a literal: no NUL ends it, and no escape
/// in it can be for a character that the solver lacks.
pub open spec fn is_literal(text: Seq<char>) -> bool {
    without_nul(text) && without_escapes(text)
}

/// The text is a sequence of texts, one from each of the given languages.
pub open spec fn is_sequence(languages: Seq<Set<Codes>>, text: Codes) -> bool
    decreases languages.len(),
{
    if languages.len() == 0 {
        text.len() == 0
    } else {
        exists|k: int|
            0 <= k <= text.len() && languages[0].contains(#[trigger] text.take(k)) && is_sequence(
                languages.skip(1),
                text.skip(k),
            )
    }
}

/// The text is a sequence of any number of texts from one language.
pub open spec fn is_repetition(members: Set<Codes>, text: Codes) -> bool
    decreases text.len(),
{
    text.len() == 0 || exists|k: int|
        0 < k <= text.len() && members.contains(#[trigger] text.take(k)) && is_repetition(
            members,
            text.skip(k),
        )
}

/// Every formula of the list holds under the valuation.
pub open spec fn all_hold(formulas: Seq<Bool>, valuation: Valuation) -> bool {
    forall|i: int|
        0 <= i < formulas.len() ==> (#[trigger] solutions(formulas[i])).contains(valuation)
}

/// Some formula of the list holds under the valuation.
pub open spec fn some_holds(formulas: Seq<Bool>, valuation: Valuation) -> bool {
    exists|i: int|
        0 <= i < formulas.len() && (#[trigger] solutions(formulas[i])).contains(valuation)
}

/// Every literal in the formulas of the list is printable ASCII.
pub open spec fn all_printable(formulas: Seq<Bool>) -> bool {
    forall|i: int| 0 <= i < formulas.len() ==> has_printable_literals(#[trigger] formulas[i])
}

/// Every literal in the regular expressions of the list is printable ASCII.
pub open spec fn all_spelled_printably(expressions: Seq<Regexp>) -> bool {
    forall|i: int| 0 <= i < expressions.len() ==> is_spelled_printably(#[trigger] expressions[i])
}

/// `Bool::from_bool`: the formula that holds always or never.
#[verifier::external_body]
pub(crate) fn truth(value: bool) -> (r: Bool)
    ensures
        has_printable_literals(r),
        forall|v: Valuation| #[trigger] solutions(r).contains(v) <==> value,
{
    Bool::from_bool(value)
}

/// `Bool::and`: the formula that holds where all of the given ones do. The
/// call refuses more than `u32::MAX` formulas.
#[verifier::external_body]
pub(crate) fn all_of(formulas: &Vec<Bool>) -> (r: Bool)
    requires
        0 < formulas.len() <= u32::MAX,
    ensures
        all_printable(formulas@) ==> has_printable_literals(r),
        forall|v: Valuation| #[trigger] solutions(r).contains(v) <==> all_hold(formulas@, v),
{
    Bool::and(formulas.as_slice())
}

/// `Bool::or`: the formula that holds where at least one of the given ones
/// does. The call refuses more than `u32::MAX` formulas.
#[verifier::external_body]
pub(crate) fn any_of(formulas: &Vec<Bool>) -> (r: Bool)
    requires
        0 < formulas.len() <= u32::MAX,
    ensures
        all_printable(formulas@) ==> has_printable_literals(r),
        forall|v: Valuation| #[trigger] solutions(r).contains(v) <==> some_holds(formulas@, v),
{
    Bool::or(formulas.as_slice())
}

/// `Bool::not`: the formula that holds where the given one does not.
#[verifier::external_body]
pub(crate) fn negation(formula: &Bool) -> (r: Bool)
    ensures
        has_printable_literals(*formula) ==> has_printable_literals(r),
        forall|v: Valuation| #[trigger]
            solutions(r).contains(v) <==> !solutions(*formula).contains(v),
{
    formula.not()
}

/// `String::new_const` and `String::eq` of `z3::ast`: the formula that a named
/// text constant equals a literal. The call refuses a literal with a NUL, and one with
/// an escape for a character that the solver lacks. What a literal beyond plain ASCII
/// stands for is named and not told.
#[verifier::external_body]
pub(crate) fn text_is(constant: &str, value: &str) -> (r: Bool)
    requires
        without_nul(constant@),
        is_literal(value@),
    ensures
        is_printable(value@) ==> has_printable_literals(r),
        forall|v: Valuation| #[trigger]
            solutions(r).contains(v) <==> v.texts[constant@] == (if is_plain(value@) {
                codes(value@)
            } else {
                literal_text(value@)
            }),
{
    z3::ast::String::new_const(constant).eq(value)
}

/// `String::regex_matches` of `z3::ast`: the formula that a named text constant
/// is matched by a regular expression.
#[verifier::external_body]
pub(crate) fn text_in(constant: &str, expression: &Regexp) -> (r: Bool)
    requires
        without_nul(constant@),
    ensures
        is_spelled_printably(*expression) ==> has_printable_literals(r),
        forall|v: Valuation| #[trigger]
            solutions(r).contains(v) <==> language(*expression).contains(v.texts[constant@]),
{
    z3::ast::String::new_const(constant).regex_matches(expression)
}

/// `String::prefix` of `z3::ast`: the formula that a literal is a prefix of a
/// named text constant. The call refuses a literal with a NUL, and one with an escape
/// for a character that the solver lacks.
#[verifier::external_body]
pub(crate) fn text_begins(constant: &str, prefix: &str) -> (r: Bool)
    requires
        without_nul(constant@),
        is_literal(prefix@),
    ensures
        is_printable(prefix@) ==> has_printable_literals(r),
        forall|v: Valuation| #[trigger]
            solutions(r).contains(v) <==> (if is_plain(prefix@) {
                codes(prefix@)
            } else {
                literal_text(prefix@)
            }).is_prefix_of(
                v.texts[constant@],
            ),
{
    z3::ast::String::from(prefix).prefix(&z3::ast::String::new_const(constant))
}

/// `Int::new_const` and `Int::eq`: the formula that a named number constant
/// has a value.
#[verifier::external_body]
pub(crate) fn number_is(constant: &str, value: u64) -> (r: Bool)
    requires
        without_nul(constant@),
    ensures
        has_printable_literals(r),
        forall|v: Valuation| #[trigger]
            solutions(r).contains(v) <==> v.numbers[constant@] == value,
{
    Int::new_const(constant).eq(Int::from_u64(value))
}

/// `Int::le`: the formula that a named number constant is at most a bound.
#[verifier::external_body]
pub(crate) fn number_at_most(constant: &str, bound: u64) -> (r: Bool)
    requires
        without_nul(constant@),
    ensures
        has_printable_literals(r),
        forall|v: Valuation| #[trigger]
            solutions(r).contains(v) <==> v.numbers[constant@] <= bound,
{
    Int::new_const(constant).le(Int::from_u64(bound))
}

/// `Regexp::full`: the regular expression that matches every text.
#[verifier::external_body]
pub(crate) fn any_text() -> (r: Regexp)
    ensures
        is_spelled_printably(r),
        forall|t: Codes| in_alphabet(t) ==> #[trigger] language(r).contains(t),
{
    Regexp::full()
}

/// `Regexp::literal`: the regular expression that matches the one text that a
/// literal stands for. The call refuses a literal with a NUL, and one with an escape
/// for a character that the solver lacks. What a literal beyond plain ASCII stands for
/// is named and not told.
#[verifier::external_body]
pub(crate) fn exactly(text: &str) -> (r: Regexp)
    requires
        is_literal(text@),
    ensures
        is_printable(text@) ==> is_spelled_printably(r),
        forall|t: Codes| #[trigger]
            language(r).contains(t) <==> t == (if is_plain(text@) {
                codes(text@)
            } else {
                literal_text(text@)
            }),
{
    Regexp::literal(text)
}

/// `Regexp::range`: the regular expression that matches one character between
/// two others.
#[verifier::external_body]
pub(crate) fn one_between(low: char, high: char) -> (r: Regexp)
    requires
        is_plain_char(low),
        is_plain_char(high),
    ensures
        is_spelled_printably(r),
        forall|t: Codes| #[trigger]
            language(r).contains(t) <==> (t.len() == 1 && low as u32 <= t[0] && t[0]
                <= high as u32),
{
    Regexp::range(&low, &high)
}

/// `Regexp::union`: the regular expression that matches what one of two does.
#[verifier::external_body]
pub(crate) fn either(left: &Regexp, right: &Regexp) -> (r: Regexp)
    ensures
        is_spelled_printably(*left) && is_spelled_printably(*right) ==> is_spelled_printably(r),
        forall|t: Codes| #[trigger]
            language(r).contains(t) <==> (language(*left).contains(t) || language(
            *right,
        ).contains(t)),
{
    Regexp::union(&[left, right])
}

/// `Regexp::star`: the regular expression that matches any number of matches of
/// the given one.
#[verifier::external_body]
pub(crate) fn repeated(expression: &Regexp) -> (r: Regexp)
    ensures
        is_spelled_printably(*expression) ==> is_spelled_printably(r),
        forall|t: Codes| #[trigger]
            language(r).contains(t) <==> is_repetition(language(*expression), t),
{
    expression.star()
}

/// The languages of a list of regular expressions.
pub open spec fn languages(expressions: Seq<Regexp>) -> Seq<Set<Codes>> {
    Seq::new(expressions.len(), |i: int| language(expressions[i]))
}

/// `Regexp::concat`: the regular expression that matches a match of each of the
/// given ones in turn. The call refuses more than `u32::MAX` of them.
#[verifier::external_body]
pub(crate) fn in_turn(expressions: &Vec<Regexp>) -> (r: Regexp)
    requires
        0 < expressions.len() <= u32::MAX,
    ensures
        all_spelled_printably(expressions@) ==> is_spelled_printably(r),
        forall|t: Codes| #[trigger]
            language(r).contains(t) <==> is_sequence(languages(expressions@), t),
{
    Regexp::concat(expressions.as_slice())
}

/// What the solver answers for a formula.
#[derive(Debug)]
pub enum Answer {
    /// No valuation satisfies the formula.
    Unsatisfiable,
    /// The solver could not tell.
    Unknown,
    /// The formula is satisfiable, but the solver gave no valuation.
    WithoutModel,
    /// The value of each requested constant in a valuation that satisfies the
    /// formula, where the solver could write it down.
    Satisfied { texts: Vec<Option<String>>, number: Option<u64> },
}

/// The number that a hexadecimal digit stands for.
pub open spec fn hex_digit(c: char) -> Option<nat> {
    if '0' <= c && c <= '9' {
        Some((c as u32 - '0' as u32) as nat)
    } else if 'a' <= c && c <= 'f' {
        Some((c as u32 - 'a' as u32 + 10) as nat)
    } else if 'A' <= c && c <= 'F' {
        Some((c as u32 - 'A' as u32 + 10) as nat)
    } else {
        None
    }
}

/// The number that hexadecimal digits stand for, where there is at least one digit and
/// nothing else.
pub open spec fn hex_number(digits: Seq<char>) -> Option<nat>
    decreases digits.len(),
{
    if digits.len() == 0 {
        None
    } else {
        match hex_digit(digits.last()) {
            None => None,
            Some(last) => if digits.len() == 1 {
                Some(last)
            } else {
                match hex_number(digits.drop_last()) {
                    None => None,
                    Some(n) => Some(n * 16 + last),
                }
            },
        }
    }
}

/// The text is the escape for a code: `\u{`, hexadecimal digits and `}`.
pub open spec fn is_escape(text: Seq<char>, code: u32) -> bool {
    &&& text.len() >= 5
    &&& text.take(3) == seq!['\\', 'u', '{']
    &&& text.last() == '}'
    &&& hex_number(text.subrange(3, text.len() - 1)) == Some(code as nat)
}

/// The text is how the solver writes a code: printable ASCII stands for itself, and the
/// rest is escaped. The backslash may be either.
pub open spec fn writes_code(text: Seq<char>, code: u32) -> bool {
    let itself = text.len() == 1 && text[0] as u32 == code;
    if code == '\\' as u32 {
        itself || is_escape(text, code)
    } else if ' ' as u32 <= code && code <= '~' as u32 {
        itself
    } else {
        is_escape(text, code)
    }
}

/// The text is how the solver writes codes, one after the other.
pub open spec fn writes(text: Seq<char>, value: Codes) -> bool
    decreases value.len(),
{
    if value.len() == 0 {
        text.len() == 0
    } else {
        exists|k: int|
            0 <= k <= text.len() && writes_code(#[trigger] text.take(k), value[0]) && writes(
                text.skip(k),
                value.skip(1),
            )
    }
}

/// The decoded text is how the solver writes the text of the valuation.
pub open spec fn decodes(shown: Option<Seq<char>>, value: Codes) -> bool {
    shown matches Some(t) ==> writes(t, value)
}

/// A text without a backslash is written as it is, and so is one whose codes are those
/// of printable ASCII without a backslash.
pub proof fn law_plain_text_is_written_as_it_is(text: Seq<char>, value: Codes)
    requires
        writes(text, value),
        !text.contains('\\') || forall|i: int|
            0 <= i < value.len() ==> ' ' as u32 <= #[trigger] value[i] && value[i] <= '~' as u32
                && value[i] != '\\' as u32,
    ensures
        codes(text) == value,
    decreases value.len(),
{
    if value.len() > 0 {
        let k = choose|k: int|
            0 <= k <= text.len() && writes_code(#[trigger] text.take(k), value[0]) && writes(
                text.skip(k),
                value.skip(1),
            );
        let head = text.take(k);
        let rest = text.skip(k);
        if is_escape(head, value[0]) {
            assert(head[0] == head.take(3)[0]);
            assert(head[0] == text[0]);
            assert(text.contains('\\'));
        }
        assert(head.len() == 1 && head[0] as u32 == value[0]);
        assert(text[0] == head[0]);
        if !text.contains('\\') {
            assert forall|i: int| 0 <= i < rest.len() implies #[trigger] rest[i] != '\\' by {
                assert(rest[i] == text[i + 1]);
            }
        }
        law_plain_text_is_written_as_it_is(rest, value.skip(1));
        assert forall|i: int| 0 <= i < value.len() implies codes(text)[i] == value[i] by {
            if i > 0 {
                assert(codes(rest)[i - 1] == value.skip(1)[i - 1]);
                assert(rest[i - 1] == text[i]);
            }
        }
        assert(codes(text) =~= value);
    } else {
        assert(codes(text) =~= value);
    }
}

/// The values that the solver shows are those of the valuation.
pub open spec fn shows(
    valuation: Valuation,
    texts: Seq<Seq<char>>,
    shown: Seq<Option<Seq<char>>>,
    number: Seq<char>,
    value: Option<u64>,
) -> bool {
    &&& shown.len() == texts.len()
    &&& forall|i: int|
        0 <= i < texts.len() ==> decodes(#[trigger] shown[i], valuation.texts[texts[i]])
    &&& value matches Some(n) ==> valuation.numbers[number] == n
}

/// `Solver::check` and `Solver::get_model` on one formula, and `Model::eval` on
/// the named constants. The answer is one that the solver may give for these. Where
/// every literal is printable ASCII and the solver calls the formula unsatisfiable, no
/// valuation over its alphabet satisfies it, and the values that it gives otherwise are
/// those of a valuation that does. The solver takes a character beyond ASCII for codes
/// beyond its own alphabet, and what it then answers is left open. So is when it gives
/// up.
#[verifier::external_body]
pub(crate) fn solve(formula: &Bool, texts: &Vec<String>, number: &str) -> (r: Answer)
    requires
        forall|i: int| 0 <= i < texts.len() ==> without_nul(#[trigger] texts.deep_view()[i]),
        without_nul(number@),
    ensures
        may_answer(*formula, texts.deep_view(), number@, r),
        has_printable_literals(*formula) && r is Unsatisfiable ==> forall|v: Valuation|
            over_alphabet(v) ==> !#[trigger] solutions(*formula).contains(v),
        r matches Answer::Satisfied { texts: shown, number: value } ==> has_printable_literals(
            *formula,
        ) ==> exists|v: Valuation|
            over_alphabet(v) && #[trigger] solutions(*formula).contains(v) && shows(
                v,
                texts.deep_view(),
                shown.deep_view(),
                number@,
                value,
            ),
{
    let solver = z3::Solver::new();
    solver.assert(formula);
    match solver.check() {
        z3::SatResult::Unsat => Answer::Unsatisfiable,
        z3::SatResult::Unknown => Answer::Unknown,
        z3::SatResult::Sat => match solver.get_model() {
            None => Answer::WithoutModel,
            Some(model) => Answer::Satisfied {
                texts: texts.iter().map(
                    |t| model.eval(&z3::ast::String::new_const(t.as_str()), true)?.as_string(),
                ).collect(),
                number: model.eval(&Int::new_const(number), true).and_then(|n| n.as_u64()),
            },
        },
    }
}

} // verus!
