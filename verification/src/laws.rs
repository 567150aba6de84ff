//! What holds of the library as a whole.

use vstd::prelude::*;
use crate::array::ArrayFault;
use crate::array::ArrayModel;
use crate::array::ValueModel;
use crate::array::integers_cut;
use crate::array::lemma_product_vector;
use crate::evaluator::EvalFault;
use crate::evaluator::add32;
use crate::evaluator::apply_dyadic;
use crate::evaluator::apply_monadic;
use crate::evaluator::eval;
use crate::interpreter::InterpreterFault;
use crate::interpreter::interpret;
use crate::interpreter::read;
use crate::interpreter::value_of;
use crate::node::NodeModel;
use crate::parser::Parsed;
use crate::parser::before;
use crate::parser::between;
use crate::parser::expression_rest;
use crate::parser::operators_rest;
use crate::parser::parse;
use crate::parser::parse_expression;
use crate::parser::parse_j_operators;
use crate::parser::parse_monadic;
use crate::parser::parse_primary;
use crate::semantic_analyzer::resolve;
use crate::semantic_analyzer::SemanticFault;
use crate::text::decimal_text;
use crate::text::digit_char;
use crate::text::join;
use crate::tokenizer::Run;
use crate::tokenizer::TokenFault;
use crate::tokenizer::TokenModel;
use crate::tokenizer::decimal_value;
use crate::tokenizer::digits_end;
use crate::tokenizer::is_digit;
use crate::tokenizer::literal;
use crate::tokenizer::scan_more;
use crate::tokenizer::scan_run;
use crate::tokenizer::spaces_end;
use crate::tokenizer::tokenize;
use crate::tokenizer::tokens_from;
use crate::tokenizer::lemma_digits_end;
use crate::tokenizer::lemma_spaces_end;
use crate::tokenizer::numeral_fits;
use crate::text::is_whitespace;
use crate::tokenizer::is_verb;
use crate::parser::array_verb;
use crate::parser::ParseFault;
use crate::evaluator::all_integers;
use crate::evaluator::plus;
use crate::evaluator::iota;
use crate::evaluator::tally;

verus! {

/// Taking an array out of the box it was put in gives the array back.
pub proof fn law_unbox_box(a: ArrayModel)
    ensures
        a.boxed().unboxed() == Some(a),
{
}

/// Reshaping the ravel of a well-formed array to the array's own shape
/// gives the array back.
pub proof fn law_reshape_ravel(a: ArrayModel)
    requires
        a.wf(),
    ensures
        a.ravel().reshape(a.shape) == Ok::<ArrayModel, ArrayFault>(a),
{
    lemma_product_vector(a.data.len());
}

/// A numeral is made of digits, and writes the number it was made for.
pub proof fn lemma_decimal_text(n: nat)
    ensures
        decimal_text(n).len() >= 1,
        forall|k: int| 0 <= k < decimal_text(n).len() ==> is_digit(#[trigger] decimal_text(n)[k]),
        decimal_value(decimal_text(n)) == n,
    decreases n,
{
    if n < 10 {
        let t = decimal_text(n);
        assert(t.drop_last() =~= Seq::<char>::empty());
        assert(decimal_value(t.drop_last()) == 0);
        assert(t.last() == digit_char(n as int));
    } else {
        lemma_decimal_text(n / 10);
        let t = decimal_text(n);
        assert(t.drop_last() =~= decimal_text(n / 10));
        assert(t.last() == digit_char((n % 10) as int));
        assert(t.last() as int - '0' as int == n % 10);
        assert forall|k: int| 0 <= k < t.len() implies is_digit(#[trigger] t[k]) by {
            if k < t.len() - 1 {
                assert(t[k] == decimal_text(n / 10)[k]);
            }
        }
    }
}

/// Whether the text `text` stands in `s` from position `p` on.
pub open spec fn holds_at(s: Seq<char>, p: int, text: Seq<char>) -> bool {
    &&& 0 <= p
    &&& p + text.len() <= s.len()
    &&& forall|k: int| 0 <= k < text.len() ==> s[p + k] == #[trigger] text[k]
}

/// Digits from `p` up to `e`, and none at `e`: the digits end at `e`.
pub proof fn lemma_digits_run(s: Seq<char>, p: int, e: int)
    requires
        0 <= p <= e <= s.len(),
        forall|k: int| p <= k < e ==> is_digit(#[trigger] s[k]),
        e < s.len() ==> !is_digit(s[e]),
    ensures
        digits_end(s, p) == e,
    decreases e - p,
{
    if p < e {
        assert(is_digit(s[p]));
        lemma_digits_run(s, p + 1, e);
    }
}

/// Where a numeral stands in a text and no digit follows it, the
/// digits from its start on end at its end and write its number.
pub proof fn lemma_numeral_at(s: Seq<char>, p: int, n: nat)
    requires
        holds_at(s, p, decimal_text(n)),
        p + decimal_text(n).len() < s.len() ==> !is_digit(s[p + decimal_text(n).len()]),
    ensures
        digits_end(s, p) == p + decimal_text(n).len(),
        s.subrange(p, digits_end(s, p)) == decimal_text(n),
        decimal_value(s.subrange(p, digits_end(s, p))) == n,
{
    let t = decimal_text(n);
    lemma_decimal_text(n);
    let e = p + t.len();
    assert forall|k: int| p <= k < e implies is_digit(#[trigger] s[k]) by {
        assert(s[p + (k - p)] == t[k - p]);
    }
    lemma_digits_run(s, p, e);
    assert(s.subrange(p, e) =~= t);
}

/// A list of texts with a separator between each two is its first
/// text, the separator, and the rest of the list written the same way.
pub proof fn lemma_join_front(parts: Seq<Seq<char>>, sep: Seq<char>)
    requires
        parts.len() >= 2,
    ensures
        join(parts, sep) == parts[0] + sep + join(parts.skip(1), sep),
    decreases parts.len(),
{
    let rest = parts.skip(1);
    if parts.len() == 2 {
        assert(parts.drop_last() =~= seq![parts[0]]);
        assert(rest =~= seq![parts[1]]);
        assert(join(parts.drop_last(), sep) == parts[0]);
        assert(join(rest, sep) == parts[1]);
    } else {
        let shorter = parts.drop_last();
        lemma_join_front(shorter, sep);
        assert(rest.drop_last() =~= shorter.skip(1));
        assert(rest.last() == parts.last());
        assert(shorter[0] == parts[0]);
        assert(join(parts, sep) =~= parts[0] + sep + (join(shorter.skip(1), sep) + sep
            + parts.last()));
    }
}

/// The numerals of `values`.
pub open spec fn numerals(values: Seq<nat>) -> Seq<Seq<char>> {
    Seq::new(values.len(), |i: int| decimal_text(values[i]))
}

/// The numbers `values` as a text writes them: their numerals with
/// one space between each two.
pub open spec fn numerals_text(values: Seq<nat>) -> Seq<char> {
    join(numerals(values), seq![' '])
}

/// The numbers `values` as 64-bit integers.
pub open spec fn as_i64s(values: Seq<nat>) -> Seq<i64> {
    Seq::new(values.len(), |i: int| values[i] as i64)
}

/// The numbers `values` as integer elements.
pub open spec fn as_elements(values: Seq<nat>) -> Seq<ValueModel> {
    Seq::new(values.len(), |i: int| ValueModel::Integer(values[i] as int))
}

/// The array that a text which writes the numbers `values` stands
/// for: a scalar for one number, else a rank-1 array.
pub open spec fn written(values: Seq<nat>) -> ArrayModel {
    if values.len() == 1 {
        ArrayModel::scalar(ValueModel::Integer(values[0] as int))
    } else {
        ArrayModel::vector(as_elements(values))
    }
}

/// Whether every number fits in 32 bits.
pub open spec fn all_fit(values: Seq<nat>) -> bool {
    forall|i: int| 0 <= i < values.len() ==> #[trigger] values[i] <= i32::MAX
}

/// Whether the text ends at `e`, or goes on with a character that can
/// neither continue a numeral nor a run of numerals.
pub open spec fn run_stops(s: Seq<char>, e: int) -> bool {
    e == s.len() || (0 <= e < s.len() && !is_digit(s[e]) && s[e] != ' ')
}

/// Where the numerals of one or more numbers stand in a text, one
/// space between each two, and the run stops after them, the run that
/// starts there holds those numbers and ends where they end.
pub proof fn lemma_run_at(s: Seq<char>, p: int, values: Seq<nat>)
    requires
        values.len() >= 1,
        all_fit(values),
        holds_at(s, p, numerals_text(values)),
        run_stops(s, p + numerals_text(values).len()),
    ensures
        scan_run(s, p) == Ok::<Run, TokenFault>(
            Run { values: as_i64s(values), end: p + numerals_text(values).len() },
        ),
        literal(as_i64s(values)) == written(values),
    decreases values.len(),
{
    let text = numerals_text(values);
    let first = decimal_text(values[0]);
    let end = p + text.len();
    lemma_decimal_text(values[0]);
    assert(values[0] <= i32::MAX);
    assert(numerals(values)[0] == first);
    if values.len() == 1 {
        assert(text == first);
        lemma_numeral_at(s, p, values[0]);
        assert(as_i64s(values) =~= seq![values[0] as i64] + Seq::<i64>::empty());
    } else {
        let rest = values.skip(1);
        lemma_join_front(numerals(values), seq![' ']);
        assert(numerals(values).skip(1) =~= numerals(rest));
        let tail = numerals_text(rest);
        assert(text == first + seq![' '] + tail);
        let e0 = p + first.len();
        assert forall|k: int| 0 <= k < first.len() implies s[p + k] == #[trigger] first[k] by {
            assert(text[k] == first[k]);
        }
        assert(holds_at(s, p, first));
        assert(s[e0] == ' ') by {
            assert(text[first.len() as int] == ' ');
            assert(s[p + first.len()] == text[first.len() as int]);
        }
        lemma_numeral_at(s, p, values[0]);
        let q = e0 + 1;
        lemma_decimal_text(rest[0]);
        assert(numerals(rest)[0] == decimal_text(rest[0]));
        assert(all_fit(rest)) by {
            assert forall|i: int| 0 <= i < rest.len() implies #[trigger] rest[i]
                <= i32::MAX by {
                assert(rest[i] == values[i + 1]);
            }
        }
        assert forall|k: int| 0 <= k < tail.len() implies s[q + k] == #[trigger] tail[k] by {
            assert(text[first.len() + 1 + k] == tail[k]);
            assert(s[p + (first.len() + 1 + k)] == text[first.len() + 1 + k]);
        }
        assert(holds_at(s, q, tail));
        assert(q + tail.len() == end);
        lemma_run_at(s, q, rest);
        // The first character of the next numeral is a digit, so the
        // single space is all that is passed over.
        if rest.len() == 1 {
            assert(tail == decimal_text(rest[0]));
        } else {
            lemma_join_front(numerals(rest), seq![' ']);
        }
        assert(tail[0] == decimal_text(rest[0])[0]);
        assert(s[q + 0] == tail[0]);
        assert(is_digit(s[q]));
        assert(spaces_end(s, q) == q);
        assert(spaces_end(s, e0) == q);
        assert(scan_more(s, e0) == scan_run(s, q));
        assert(as_i64s(values) =~= seq![values[0] as i64] + as_i64s(rest));
    }
    assert(integers_cut(as_i64s(values)) =~= as_elements(values)) by {
        assert forall|i: int| 0 <= i < values.len() implies integers_cut(as_i64s(values))[i]
            == as_elements(values)[i] by {
            assert(values[i] <= i32::MAX);
        }
    }
}

/// A verb and then the numerals of one or more numbers are two
/// tokens: the verb, and the array that the numerals write.
pub proof fn lemma_tokens_prefix(verb: char, values: Seq<nat>)
    requires
        is_verb(verb),
        values.len() >= 1,
        all_fit(values),
    ensures
        tokenize(seq![verb] + numerals_text(values)) == Ok::<Seq<TokenModel>, TokenFault>(
            seq![TokenModel::Verb(verb), TokenModel::Vector(written(values))],
        ),
{
    let text = numerals_text(values);
    let s = seq![verb] + text;
    lemma_decimal_text(values[0]);
    assert(numerals(values)[0] == decimal_text(values[0]));
    if values.len() >= 2 {
        lemma_join_front(numerals(values), seq![' ']);
    }
    assert(text.len() >= 1 && text[0] == decimal_text(values[0])[0]);
    assert forall|k: int| 0 <= k < text.len() implies s[1 + k] == #[trigger] text[k] by {}
    assert(holds_at(s, 1, text));
    lemma_run_at(s, 1, values);
    assert(is_digit(s[1]));
    let end = s.len() as int;
    assert(tokens_from(s, end) == Ok::<Seq<TokenModel>, TokenFault>(Seq::empty()));
    assert(tokens_from(s, 1) == Ok::<Seq<TokenModel>, TokenFault>(
        seq![TokenModel::Vector(written(values))] + Seq::empty(),
    ));
    assert(s[0] == verb);
    assert(!is_digit(verb));
    assert(seq![TokenModel::Verb(verb)] + (seq![TokenModel::Vector(written(values))]
        + Seq::empty()) =~= seq![TokenModel::Verb(verb), TokenModel::Vector(written(values))]);
}

/// The numerals of one or more numbers, a verb, and the numerals of
/// one or more numbers are three tokens.
pub proof fn lemma_tokens_infix(left: Seq<nat>, verb: char, right: Seq<nat>)
    requires
        is_verb(verb),
        left.len() >= 1,
        right.len() >= 1,
        all_fit(left),
        all_fit(right),
    ensures
        tokenize(numerals_text(left) + seq![verb] + numerals_text(right)) == Ok::<
            Seq<TokenModel>,
            TokenFault,
        >(
            seq![
                TokenModel::Vector(written(left)),
                TokenModel::Verb(verb),
                TokenModel::Vector(written(right)),
            ],
        ),
{
    let a = numerals_text(left);
    let b = numerals_text(right);
    let s = a + seq![verb] + b;
    lemma_decimal_text(left[0]);
    lemma_decimal_text(right[0]);
    assert(numerals(left)[0] == decimal_text(left[0]));
    assert(numerals(right)[0] == decimal_text(right[0]));
    if left.len() >= 2 {
        lemma_join_front(numerals(left), seq![' ']);
    }
    if right.len() >= 2 {
        lemma_join_front(numerals(right), seq![' ']);
    }
    assert(a.len() >= 1 && a[0] == decimal_text(left[0])[0]);
    assert(b.len() >= 1 && b[0] == decimal_text(right[0])[0]);
    let mid = a.len() as int;
    assert forall|k: int| 0 <= k < a.len() implies s[0 + k] == #[trigger] a[k] by {}
    assert forall|k: int| 0 <= k < b.len() implies s[mid + 1 + k] == #[trigger] b[k] by {}
    assert(s[mid] == verb);
    assert(!is_digit(verb) && verb != ' ');
    assert(holds_at(s, 0, a));
    assert(holds_at(s, mid + 1, b));
    lemma_run_at(s, 0, left);
    lemma_run_at(s, mid + 1, right);
    let end = s.len() as int;
    assert(is_digit(s[0]));
    assert(is_digit(s[mid + 1]));
    assert(tokens_from(s, end) == Ok::<Seq<TokenModel>, TokenFault>(Seq::empty()));
    assert(tokens_from(s, mid + 1) == Ok::<Seq<TokenModel>, TokenFault>(
        seq![TokenModel::Vector(written(right))] + Seq::empty(),
    ));
    assert(tokens_from(s, mid) == Ok::<Seq<TokenModel>, TokenFault>(
        seq![TokenModel::Verb(verb)] + (seq![TokenModel::Vector(written(right))]
            + Seq::empty()),
    ));
    assert(seq![TokenModel::Vector(written(left))] + (seq![TokenModel::Verb(verb)] + (
    seq![TokenModel::Vector(written(right))] + Seq::empty())) =~= seq![
        TokenModel::Vector(written(left)),
        TokenModel::Verb(verb),
        TokenModel::Vector(written(right)),
    ]);
}

/// An array verb before a literal parses as that verb with the
/// literal as its one operand.
pub proof fn lemma_parse_prefix(verb: char, a: ArrayModel)
    requires
        array_verb(verb),
    ensures
        parse(seq![TokenModel::Verb(verb), TokenModel::Vector(a)]) == Ok::<NodeModel, ParseFault>(
            before(verb, NodeModel::Literal(a)),
        ),
{
    let ts = seq![TokenModel::Verb(verb), TokenModel::Vector(a)];
    let node = before(verb, NodeModel::Literal(a));
    assert(parse_primary(ts, 1) == Ok::<Parsed, ParseFault>(
        Parsed { node: NodeModel::Literal(a), used: 1 },
    ));
    assert(parse_monadic(ts, 0) == Ok::<Parsed, ParseFault>(Parsed { node, used: 2 }));
    assert(operators_rest(ts, node, 2) == Ok::<Parsed, ParseFault>(Parsed { node, used: 0 }));
    assert(parse_j_operators(ts, 0) == Ok::<Parsed, ParseFault>(Parsed { node, used: 2 }));
    assert(expression_rest(ts, node, 2) == Ok::<Parsed, ParseFault>(Parsed { node, used: 0 }));
    assert(parse_expression(ts, 0) == Ok::<Parsed, ParseFault>(Parsed { node, used: 2 }));
}

/// A literal, a verb that stands between operands, and a literal
/// parse as that verb with the two literals as its operands.
pub proof fn lemma_parse_infix(a: ArrayModel, verb: char, b: ArrayModel)
    requires
        verb == '+' || array_verb(verb),
    ensures
        parse(seq![TokenModel::Vector(a), TokenModel::Verb(verb), TokenModel::Vector(b)]) == Ok::<
            NodeModel,
            ParseFault,
        >(between(verb, NodeModel::Literal(a), NodeModel::Literal(b))),
{
    let ts = seq![TokenModel::Vector(a), TokenModel::Verb(verb), TokenModel::Vector(b)];
    let left = NodeModel::Literal(a);
    let right = NodeModel::Literal(b);
    let node = between(verb, left, right);
    assert(parse_primary(ts, 0) == Ok::<Parsed, ParseFault>(Parsed { node: left, used: 1 }));
    assert(parse_monadic(ts, 0) == Ok::<Parsed, ParseFault>(Parsed { node: left, used: 1 }));
    assert(parse_primary(ts, 2) == Ok::<Parsed, ParseFault>(Parsed { node: right, used: 1 }));
    assert(parse_monadic(ts, 2) == Ok::<Parsed, ParseFault>(Parsed { node: right, used: 1 }));
    if verb == '+' {
        assert(!array_verb(verb));
        assert(operators_rest(ts, left, 1) == Ok::<Parsed, ParseFault>(
            Parsed { node: left, used: 0 },
        ));
        assert(parse_j_operators(ts, 0) == Ok::<Parsed, ParseFault>(
            Parsed { node: left, used: 1 },
        ));
        assert(operators_rest(ts, right, 3) == Ok::<Parsed, ParseFault>(
            Parsed { node: right, used: 0 },
        ));
        assert(parse_j_operators(ts, 2) == Ok::<Parsed, ParseFault>(
            Parsed { node: right, used: 1 },
        ));
        assert(expression_rest(ts, node, 3) == Ok::<Parsed, ParseFault>(
            Parsed { node, used: 0 },
        ));
        assert(expression_rest(ts, left, 1) == Ok::<Parsed, ParseFault>(
            Parsed { node, used: 2 },
        ));
    } else {
        assert(operators_rest(ts, node, 3) == Ok::<Parsed, ParseFault>(
            Parsed { node, used: 0 },
        ));
        assert(operators_rest(ts, left, 1) == Ok::<Parsed, ParseFault>(
            Parsed { node, used: 2 },
        ));
        assert(parse_j_operators(ts, 0) == Ok::<Parsed, ParseFault>(Parsed { node, used: 3 }));
        assert(expression_rest(ts, node, 3) == Ok::<Parsed, ParseFault>(
            Parsed { node, used: 0 },
        ));
    }
    assert(parse_expression(ts, 0) == Ok::<Parsed, ParseFault>(Parsed { node, used: 3 }));
}

/// The integers from 0 up to, and without, `n`.
pub open spec fn count_up(n: nat) -> ArrayModel {
    ArrayModel::vector(Seq::new(n, |i: int| ValueModel::Integer(i)))
}

/// `~` before the numeral of a number that fits in 32 bits evaluates
/// to the integers from 0 up to, and without, that number.
pub proof fn law_iota(n: nat)
    requires
        n <= i32::MAX,
    ensures
        interpret(seq!['~'] + decimal_text(n)) == Ok::<ArrayModel, InterpreterFault>(count_up(n)),
{
    let values = seq![n];
    assert(numerals(values) =~= seq![decimal_text(n)]);
    assert(numerals_text(values) == decimal_text(n));
    lemma_tokens_prefix('~', values);
    let a = written(values);
    lemma_parse_prefix('~', a);
    let tree = before('~', NodeModel::Literal(a));
    assert(read(seq!['~'] + decimal_text(n)) == Ok::<NodeModel, InterpreterFault>(tree));
    assert(resolve(NodeModel::Literal(a)) == Ok::<NodeModel, SemanticFault>(NodeModel::Literal(a)));
    let resolved = NodeModel::MonadicVerb('~', Box::new(NodeModel::Literal(a)));
    assert(resolve(tree) == Ok::<NodeModel, SemanticFault>(resolved));
    assert(eval(NodeModel::Literal(a)) == Ok::<ArrayModel, EvalFault>(a));
    assert(eval(resolved) == apply_monadic('~', a));
    assert(iota(a) == Ok::<ArrayModel, EvalFault>(count_up(n)));
}

/// `~` applied to a negative scalar integer is a domain error.
pub proof fn law_iota_negative(n: int)
    requires
        n < 0,
    ensures
        eval(
            NodeModel::MonadicVerb(
                '~',
                Box::new(NodeModel::Literal(ArrayModel::scalar(ValueModel::Integer(n)))),
            ),
        ) == Err::<ArrayModel, EvalFault>(
            EvalFault::DomainError("iota requires a non-negative argument"@),
        ),
{
    let a = ArrayModel::scalar(ValueModel::Integer(n));
    assert(eval(NodeModel::Literal(a)) == Ok::<ArrayModel, EvalFault>(a));
}

/// The numerals of two numbers that fit in 32 bits with `+` between
/// them evaluate to the scalar that holds their sum, wrapped around at
/// 32 bits: their sum itself where that fits.
pub proof fn law_plus_scalars(a: nat, b: nat)
    requires
        a <= i32::MAX,
        b <= i32::MAX,
    ensures
        interpret(decimal_text(a) + seq!['+'] + decimal_text(b)) == Ok::<
            ArrayModel,
            InterpreterFault,
        >(ArrayModel::scalar(ValueModel::Integer(add32(a as int, b as int)))),
        a + b <= i32::MAX ==> add32(a as int, b as int) == a + b,
{
    let left = seq![a];
    let right = seq![b];
    assert(numerals(left) =~= seq![decimal_text(a)]);
    assert(numerals(right) =~= seq![decimal_text(b)]);
    assert(numerals_text(left) == decimal_text(a));
    assert(numerals_text(right) == decimal_text(b));
    lemma_tokens_infix(left, '+', right);
    lemma_value_of_sum(written(left), written(right));
    lemma_parse_infix(written(left), '+', written(right));
}

/// What a tree that adds two literals evaluates to.
pub proof fn lemma_value_of_sum(x: ArrayModel, y: ArrayModel)
    ensures
        value_of(between('+', NodeModel::Literal(x), NodeModel::Literal(y))) == (match plus(
            x,
            y,
        ) {
            Ok(a) => Ok::<ArrayModel, InterpreterFault>(a),
            Err(f) => Err::<ArrayModel, InterpreterFault>(InterpreterFault::Evaluation(f)),
        }),
{
    let tree = between('+', NodeModel::Literal(x), NodeModel::Literal(y));
    assert(resolve(NodeModel::Literal(x)) == Ok::<NodeModel, SemanticFault>(NodeModel::Literal(x)));
    assert(resolve(NodeModel::Literal(y)) == Ok::<NodeModel, SemanticFault>(NodeModel::Literal(y)));
    let resolved = NodeModel::DyadicVerb(
        '+',
        Box::new(NodeModel::Literal(x)),
        Box::new(NodeModel::Literal(y)),
    );
    assert(resolve(tree) == Ok::<NodeModel, SemanticFault>(resolved));
    assert(eval(NodeModel::Literal(x)) == Ok::<ArrayModel, EvalFault>(x));
    assert(eval(NodeModel::Literal(y)) == Ok::<ArrayModel, EvalFault>(y));
    assert(eval(resolved) == apply_dyadic('+', x, y));
}

/// The sums of the numbers of two lists, position by position, each
/// wrapped around at 32 bits.
pub open spec fn sums(left: Seq<nat>, right: Seq<nat>) -> Seq<ValueModel> {
    Seq::new(left.len(), |i: int| ValueModel::Integer(add32(left[i] as int, right[i] as int)))
}

/// Two lists of two or more numbers each, written with `+` between
/// them, evaluate to the vector of their sums position by position
/// where the lists are equally long, and to a dimension mismatch where
/// they are not.
pub proof fn law_plus_vectors(left: Seq<nat>, right: Seq<nat>)
    requires
        left.len() >= 2,
        right.len() >= 2,
        all_fit(left),
        all_fit(right),
    ensures
        left.len() == right.len() ==> interpret(
            numerals_text(left) + seq!['+'] + numerals_text(right),
        ) == Ok::<ArrayModel, InterpreterFault>(ArrayModel::vector(sums(left, right))),
        left.len() != right.len() ==> interpret(
            numerals_text(left) + seq!['+'] + numerals_text(right),
        ) == Err::<ArrayModel, InterpreterFault>(
            InterpreterFault::Evaluation(
                EvalFault::DimensionMismatch("Arrays must have matching shapes for addition"@),
            ),
        ),
{
    lemma_tokens_infix(left, '+', right);
    let x = written(left);
    let y = written(right);
    lemma_parse_infix(x, '+', y);
    lemma_value_of_sum(x, y);
    if left.len() == right.len() {
        assert(x.shape =~= y.shape);
        assert(all_integers(x.data));
        assert(all_integers(y.data));
        assert(plus(x, y)->Ok_0.data =~= sums(left, right));
        assert(plus(x, y)->Ok_0.shape =~= seq![sums(left, right).len()]);
    } else {
        assert(x.shape[0] != y.shape[0]);
    }
}

/// `#` before the numerals of one or more numbers evaluates to the
/// scalar that holds how many they are.
pub proof fn law_tally(values: Seq<nat>)
    requires
        1 <= values.len() <= i32::MAX,
        all_fit(values),
    ensures
        interpret(seq!['#'] + numerals_text(values)) == Ok::<ArrayModel, InterpreterFault>(
            ArrayModel::scalar(ValueModel::Integer(values.len() as int)),
        ),
{
    lemma_tokens_prefix('#', values);
    let a = written(values);
    lemma_parse_prefix('#', a);
    let tree = before('#', NodeModel::Literal(a));
    assert(resolve(NodeModel::Literal(a)) == Ok::<NodeModel, SemanticFault>(NodeModel::Literal(a)));
    let resolved = NodeModel::MonadicVerb('#', Box::new(NodeModel::Literal(a)));
    assert(resolve(tree) == Ok::<NodeModel, SemanticFault>(resolved));
    assert(eval(NodeModel::Literal(a)) == Ok::<ArrayModel, EvalFault>(a));
    assert(eval(resolved) == apply_monadic('#', a));
    assert(a.tally() == values.len());
}

/// The characters that a text may hold: white space, digits, verbs
/// and the two parentheses.
pub open spec fn known_character(c: char) -> bool {
    is_whitespace(c) || is_digit(c) || is_verb(c) || c == '(' || c == ')'
}

/// Whether the characters of `s` from `p` up to `e` are digits.
pub open spec fn digits_between(s: Seq<char>, p: int, e: int) -> bool {
    0 <= p <= e <= s.len() && forall|k: int| p <= k < e ==> is_digit(#[trigger] s[k])
}

/// Whether every numeral in the text can be held in 64 bits.
pub open spec fn numerals_fit(s: Seq<char>) -> bool {
    forall|p: int, e: int| #[trigger] digits_between(s, p, e) ==> numeral_fits(s.subrange(p, e))
}

/// Where every numeral fits, what continues a run is read without
/// failure, and passes over spaces and digits only.
pub proof fn lemma_scan_more_known(s: Seq<char>, pos: int)
    requires
        0 <= pos <= s.len(),
        numerals_fit(s),
    ensures
        scan_more(s, pos) matches Ok(run) && pos <= run.end <= s.len() && forall|k: int|
            pos <= k < run.end ==> (#[trigger] s[k]) == ' ' || is_digit(s[k]),
    decreases s.len() - pos,
{
    if pos < s.len() && s[pos] == ' ' {
        let q = spaces_end(s, pos);
        lemma_spaces_end(s, pos);
        if q < s.len() && is_digit(s[q]) {
            let e = digits_end(s, q);
            lemma_digits_end(s, q);
            assert(digits_between(s, q, e));
            lemma_scan_more_known(s, e);
        }
    }
}

/// Where every numeral fits, a run that starts with a digit is read
/// without failure, and passes over spaces and digits only.
pub proof fn lemma_scan_run_known(s: Seq<char>, pos: int)
    requires
        0 <= pos < s.len(),
        is_digit(s[pos]),
        numerals_fit(s),
    ensures
        scan_run(s, pos) matches Ok(run) && pos < run.end <= s.len() && forall|k: int|
            pos <= k < run.end ==> (#[trigger] s[k]) == ' ' || is_digit(s[k]),
{
    let e = digits_end(s, pos);
    lemma_digits_end(s, pos);
    assert(digits_between(s, pos, e));
    lemma_scan_more_known(s, e);
}

/// Where every numeral fits and the characters from `pos` up to
/// `bound` may stand in a text, the tokens from `pos` on are read
/// without failure if the text ends at `bound`, and fail with the
/// character at `bound` if that one may not stand in a text.
pub proof fn lemma_tokens_known(s: Seq<char>, pos: int, bound: int)
    requires
        0 <= pos <= bound <= s.len(),
        numerals_fit(s),
        forall|k: int| pos <= k < bound ==> known_character(#[trigger] s[k]),
        bound < s.len() ==> !known_character(s[bound]),
    ensures
        bound == s.len() ==> tokens_from(s, pos) is Ok,
        bound < s.len() ==> tokens_from(s, pos) == Err::<Seq<TokenModel>, TokenFault>(
            TokenFault::UnknownCharacter(s[bound]),
        ),
    decreases s.len() - pos,
{
    if pos < bound {
        assert(known_character(s[pos]));
        if is_digit(s[pos]) {
            lemma_scan_run_known(s, pos);
            let run = scan_run(s, pos)->Ok_0;
            if run.end > bound {
                assert(s[bound] == ' ' || is_digit(s[bound]));
            }
            lemma_tokens_known(s, run.end, bound);
        } else {
            lemma_tokens_known(s, pos + 1, bound);
        }
    }
}

/// Where every numeral of a text fits in 64 bits, the text is split
/// into tokens without failure if and only if each of its characters
/// is white space, a digit, a verb or a parenthesis; otherwise the
/// failure names the first character that is none of these.
pub proof fn law_unknown_character(s: Seq<char>, first: int)
    requires
        numerals_fit(s),
        0 <= first <= s.len(),
        forall|k: int| 0 <= k < first ==> known_character(#[trigger] s[k]),
        first < s.len() ==> !known_character(s[first]),
    ensures
        first == s.len() ==> tokenize(s) is Ok,
        first < s.len() ==> tokenize(s) == Err::<Seq<TokenModel>, TokenFault>(
            TokenFault::UnknownCharacter(s[first]),
        ),
{
    lemma_tokens_known(s, 0, first);
}

/// Where nothing but white space stands from `pos` on, there are no
/// tokens from there on.
pub proof fn lemma_white_space_from(s: Seq<char>, pos: int)
    requires
        0 <= pos,
        forall|k: int| pos <= k < s.len() ==> is_whitespace(#[trigger] s[k]),
    ensures
        tokens_from(s, pos) == Ok::<Seq<TokenModel>, TokenFault>(Seq::empty()),
    decreases s.len() - pos,
{
    if pos < s.len() {
        assert(is_whitespace(s[pos]));
        lemma_white_space_from(s, pos + 1);
    }
}

/// A text of white space only, the empty text too, has no tokens.
pub proof fn law_white_space_alone(s: Seq<char>)
    requires
        forall|k: int| 0 <= k < s.len() ==> is_whitespace(#[trigger] s[k]),
    ensures
        tokenize(s) == Ok::<Seq<TokenModel>, TokenFault>(Seq::empty()),
{
    lemma_white_space_from(s, 0);
}

} // verus!
