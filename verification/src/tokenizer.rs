//! The lexer: text to an ordered sequence of tokens.

use vstd::prelude::*;
use vstd::string::StrSliceExecFns;
use vstd::string::StringExecFns;
use crate::array::ArrayModel;
use crate::array::JArray;
use crate::array::integers_cut;
use crate::text::chars_of;
use crate::text::is_whitespace;
use crate::text::whitespace;

verus! {

/// One lexical unit. A `Vector` holds a whole run of space-separated
/// numerals: a scalar for one numeral, else a rank-1 array.
#[derive(Debug, PartialEq)]
pub enum Token {
    Vector(JArray),
    Verb(char),
    LeftParen,
    RightParen,
}

/// The mathematical content of a [`Token`].
pub enum TokenModel {
    Vector(ArrayModel),
    Verb(char),
    LeftParen,
    RightParen,
}

impl View for Token {
    type V = TokenModel;

    open spec fn view(&self) -> TokenModel {
        match self {
            Token::Vector(a) => TokenModel::Vector(a@),
            Token::Verb(c) => TokenModel::Verb(*c),
            Token::LeftParen => TokenModel::LeftParen,
            Token::RightParen => TokenModel::RightParen,
        }
    }
}

impl Clone for Token {
    fn clone(&self) -> (t: Self)
        ensures
            t@ == self@,
    {
        match self {
            Token::Vector(a) => Token::Vector(a.clone()),
            Token::Verb(c) => Token::Verb(*c),
            Token::LeftParen => Token::LeftParen,
            Token::RightParen => Token::RightParen,
        }
    }
}

/// Why text could not be split into tokens.
#[derive(Debug, Clone, PartialEq)]
pub enum TokenError {
    InvalidNumber(String),
    UnknownCharacter(char),
    InvalidVector(String),
}

/// The mathematical content of a [`TokenError`].
pub enum TokenFault {
    InvalidNumber(Seq<char>),
    UnknownCharacter(char),
    InvalidVector(Seq<char>),
}

impl View for TokenError {
    type V = TokenFault;

    open spec fn view(&self) -> TokenFault {
        match self {
            TokenError::InvalidNumber(s) => TokenFault::InvalidNumber(s@),
            TokenError::UnknownCharacter(c) => TokenFault::UnknownCharacter(*c),
            TokenError::InvalidVector(s) => TokenFault::InvalidVector(s@),
        }
    }
}

/// The ten decimal digits.
pub open spec fn is_digit(c: char) -> bool {
    '0' <= c <= '9'
}

/// The characters that are verbs.
pub open spec fn is_verb(c: char) -> bool {
    c == '+' || c == '~' || c == '#' || c == '<' || c == '{' || c == ','
}

/// The number that the decimal digits `digits` write.
pub open spec fn decimal_value(digits: Seq<char>) -> nat
    decreases digits.len(),
{
    if digits.len() == 0 {
        0
    } else {
        (decimal_value(digits.drop_last()) * 10 + (digits.last() as int - '0' as int)) as nat
    }
}

/// The first position at or after `pos` that holds no digit.
pub open spec fn digits_end(s: Seq<char>, pos: int) -> int
    decreases s.len() - pos,
{
    if 0 <= pos < s.len() && is_digit(s[pos]) {
        digits_end(s, pos + 1)
    } else {
        pos
    }
}

/// The first position at or after `pos` that holds no space.
pub open spec fn spaces_end(s: Seq<char>, pos: int) -> int
    decreases s.len() - pos,
{
    if 0 <= pos < s.len() && s[pos] == ' ' {
        spaces_end(s, pos + 1)
    } else {
        pos
    }
}

/// The digits from `pos` on end within the text, after digits only
/// and before a character that is none.
pub proof fn lemma_digits_end(s: Seq<char>, pos: int)
    requires
        0 <= pos <= s.len(),
    ensures
        pos <= digits_end(s, pos) <= s.len(),
        forall|k: int| pos <= k < digits_end(s, pos) ==> is_digit(#[trigger] s[k]),
        digits_end(s, pos) < s.len() ==> !is_digit(s[digits_end(s, pos)]),
        pos < s.len() && is_digit(s[pos]) ==> pos < digits_end(s, pos),
    decreases s.len() - pos,
{
    if pos < s.len() && is_digit(s[pos]) {
        lemma_digits_end(s, pos + 1);
    }
}

/// The spaces from `pos` on end within the text, after spaces only
/// and before a character that is none.
pub proof fn lemma_spaces_end(s: Seq<char>, pos: int)
    requires
        0 <= pos <= s.len(),
    ensures
        pos <= spaces_end(s, pos) <= s.len(),
        forall|k: int| pos <= k < spaces_end(s, pos) ==> #[trigger] s[k] == ' ',
        spaces_end(s, pos) < s.len() ==> s[spaces_end(s, pos)] != ' ',
        pos < s.len() && s[pos] == ' ' ==> pos < spaces_end(s, pos),
    decreases s.len() - pos,
{
    if pos < s.len() && s[pos] == ' ' {
        lemma_spaces_end(s, pos + 1);
    }
}

/// Whether the numeral `text` can be held as a 64-bit integer.
pub open spec fn numeral_fits(text: Seq<char>) -> bool {
    decimal_value(text) <= i64::MAX
}

/// The numbers of a run of numerals, and the position after the run.
pub struct Run {
    pub values: Seq<i64>,
    pub end: int,
}

/// `first` put before the numbers of a run that was scanned.
pub open spec fn run_after(first: i64, rest: Result<Run, TokenFault>) -> Result<Run, TokenFault> {
    match rest {
        Ok(run) => Ok(Run { values: seq![first] + run.values, end: run.end }),
        Err(f) => Err(f),
    }
}

/// `more` put before the numbers of a run that was scanned.
pub open spec fn run_extend(more: Seq<i64>, rest: Result<Run, TokenFault>) -> Result<
    Run,
    TokenFault,
> {
    match rest {
        Ok(run) => Ok(Run { values: more + run.values, end: run.end }),
        Err(f) => Err(f),
    }
}

/// The numerals that continue a run after a numeral that ended at
/// `pos`: each must follow one or more spaces. Spaces that no numeral
/// follows are passed over.
pub open spec fn scan_more(s: Seq<char>, pos: int) -> Result<Run, TokenFault>
    decreases s.len() - pos,
{
    if 0 <= pos < s.len() && s[pos] == ' ' {
        let q = spaces_end(s, pos);
        if q < s.len() && is_digit(s[q]) {
            let e = digits_end(s, q);
            let text = s.subrange(q, e);
            if !numeral_fits(text) {
                Err(TokenFault::InvalidNumber(text))
            } else {
                proof {
                    lemma_spaces_end(s, pos);
                    lemma_digits_end(s, q);
                }
                run_after(decimal_value(text) as i64, scan_more(s, e))
            }
        } else {
            Ok(Run { values: Seq::empty(), end: q })
        }
    } else {
        Ok(Run { values: Seq::empty(), end: pos })
    }
}

/// The run of numerals that starts with the numeral at `pos`.
pub open spec fn scan_run(s: Seq<char>, pos: int) -> Result<Run, TokenFault> {
    let e = digits_end(s, pos);
    let text = s.subrange(pos, e);
    if !numeral_fits(text) {
        Err(TokenFault::InvalidNumber(text))
    } else {
        run_after(decimal_value(text) as i64, scan_more(s, e))
    }
}

/// The array that a run of numbers stands for: a scalar for one
/// number, else a rank-1 array; each number is cut to 32 bits.
pub open spec fn literal(values: Seq<i64>) -> ArrayModel {
    if values.len() == 1 {
        ArrayModel::scalar(integers_cut(values)[0])
    } else {
        ArrayModel::vector(integers_cut(values))
    }
}

/// `first` put before the tokens of the rest of the text.
pub open spec fn tokens_after(first: Seq<TokenModel>, rest: Result<Seq<TokenModel>, TokenFault>)
    -> Result<Seq<TokenModel>, TokenFault> {
    match rest {
        Ok(tokens) => Ok(first + tokens),
        Err(f) => Err(f),
    }
}

/// What continues a run ends within the text, not before where it
/// started.
pub proof fn lemma_scan_more_end(s: Seq<char>, pos: int)
    requires
        0 <= pos <= s.len(),
    ensures
        scan_more(s, pos) matches Ok(run) ==> pos <= run.end <= s.len(),
    decreases s.len() - pos,
{
    if pos < s.len() && s[pos] == ' ' {
        let q = spaces_end(s, pos);
        lemma_spaces_end(s, pos);
        if q < s.len() && is_digit(s[q]) {
            let e = digits_end(s, q);
            lemma_digits_end(s, q);
            if numeral_fits(s.subrange(q, e)) {
                lemma_scan_more_end(s, e);
            }
        }
    }
}

/// A run that starts with a digit ends within the text, after where
/// it started.
pub proof fn lemma_scan_run_end(s: Seq<char>, pos: int)
    requires
        0 <= pos < s.len(),
        is_digit(s[pos]),
    ensures
        scan_run(s, pos) matches Ok(run) ==> pos < run.end <= s.len(),
{
    lemma_digits_end(s, pos);
    lemma_scan_more_end(s, digits_end(s, pos));
}

/// The tokens of the text from `pos` on. A digit starts a run of
/// numerals, which is one `Vector` token; each verb character and each
/// parenthesis is a token; white space is passed over; any other
/// character fails with `UnknownCharacter`, a numeral too large for 64
/// bits with `InvalidNumber`. Only the space character joins numerals
/// into one run: other white space between two numerals parts them.
pub open spec fn tokens_from(s: Seq<char>, pos: int) -> Result<Seq<TokenModel>, TokenFault>
    decreases s.len() - pos,
{
    if !(0 <= pos < s.len()) {
        Ok(Seq::empty())
    } else if is_digit(s[pos]) {
        match scan_run(s, pos) {
            Err(f) => Err(f),
            Ok(run) => {
                proof {
                    lemma_scan_run_end(s, pos);
                }
                tokens_after(
                    seq![TokenModel::Vector(literal(run.values))],
                    tokens_from(s, run.end),
                )
            },
        }
    } else if is_verb(s[pos]) {
        tokens_after(seq![TokenModel::Verb(s[pos])], tokens_from(s, pos + 1))
    } else if s[pos] == '(' {
        tokens_after(seq![TokenModel::LeftParen], tokens_from(s, pos + 1))
    } else if s[pos] == ')' {
        tokens_after(seq![TokenModel::RightParen], tokens_from(s, pos + 1))
    } else if is_whitespace(s[pos]) {
        tokens_from(s, pos + 1)
    } else {
        Err(TokenFault::UnknownCharacter(s[pos]))
    }
}

/// The tokens of a whole text.
pub open spec fn tokenize(s: Seq<char>) -> Result<Seq<TokenModel>, TokenFault> {
    tokens_from(s, 0)
}

/// The mathematical content of a token list.
pub open spec fn token_models(tokens: Seq<Token>) -> Seq<TokenModel> {
    Seq::new(tokens.len(), |i: int| tokens[i]@)
}

/// A numeral that goes on is worth at least as much.
pub proof fn lemma_decimal_monotone(s: Seq<char>, from: int, mid: int, to: int)
    requires
        0 <= from <= mid <= to <= s.len(),
        forall|k: int| from <= k < to ==> is_digit(#[trigger] s[k]),
    ensures
        decimal_value(s.subrange(from, mid)) <= decimal_value(s.subrange(from, to)),
    decreases to - mid,
{
    if mid < to {
        lemma_decimal_monotone(s, from, mid, to - 1);
        let whole = s.subrange(from, to);
        assert(whole.drop_last() =~= s.subrange(from, to - 1));
        assert(whole.last() == s[to - 1]);
        assert(is_digit(s[to - 1]));
        let shorter = decimal_value(s.subrange(from, to - 1));
        assert(shorter <= shorter * 10 + (s[to - 1] as int - '0' as int)) by (nonlinear_arith)
            requires
                shorter >= 0,
                s[to - 1] as int - '0' as int >= 0,
        ;
    }
}

fn digit_at(chars: &Vec<char>, pos: usize) -> (b: bool)
    ensures
        b == (pos < chars@.len() && is_digit(chars@[pos as int])),
{
    pos < chars.len() && chars[pos] >= '0' && chars[pos] <= '9'
}

fn scan_digits(chars: &Vec<char>, pos: usize) -> (end: usize)
    requires
        pos <= chars@.len(),
    ensures
        end == digits_end(chars@, pos as int),
        pos <= end <= chars@.len(),
{
    let n = chars.len();
    let mut end = pos;
    while digit_at(chars, end)
        invariant
            n == chars@.len(),
            pos <= end <= chars@.len(),
            digits_end(chars@, pos as int) == digits_end(chars@, end as int),
        decreases chars@.len() - end,
    {
        end = end + 1;
    }
    end
}

fn skip_spaces(chars: &Vec<char>, pos: usize) -> (end: usize)
    requires
        pos <= chars@.len(),
    ensures
        end == spaces_end(chars@, pos as int),
        pos <= end <= chars@.len(),
{
    let mut end = pos;
    while end < chars.len() && chars[end] == ' '
        invariant
            pos <= end <= chars@.len(),
            spaces_end(chars@, pos as int) == spaces_end(chars@, end as int),
        decreases chars@.len() - end,
    {
        end = end + 1;
    }
    end
}

/// The number that the digits in `[from, to)` write, unless it is too
/// large for 64 bits.
fn numeral_value(chars: &Vec<char>, from: usize, to: usize) -> (r: Option<i64>)
    requires
        from <= to <= chars@.len(),
        forall|k: int| from <= k < to ==> is_digit(#[trigger] chars@[k]),
    ensures
        r is Some <==> numeral_fits(chars@.subrange(from as int, to as int)),
        r matches Some(v) ==> v == decimal_value(chars@.subrange(from as int, to as int)),
{
    let mut value: i64 = 0;
    let mut i: usize = from;
    assert(chars@.subrange(from as int, from as int) =~= Seq::<char>::empty());
    while i < to
        invariant
            from <= i <= to <= chars@.len(),
            forall|k: int| from <= k < to ==> is_digit(#[trigger] chars@[k]),
            0 <= value,
            value == decimal_value(chars@.subrange(from as int, i as int)),
        decreases to - i,
    {
        let c = chars[i];
        assert(is_digit(chars@[i as int]));
        let digit: i64 = (c as u8 - 48u8) as i64;
        proof {
            let longer = chars@.subrange(from as int, i + 1);
            assert(longer.drop_last() =~= chars@.subrange(from as int, i as int));
            assert(longer.last() == c);
            assert(decimal_value(longer) == value * 10 + digit);
            lemma_decimal_monotone(chars@, from as int, i + 1, to as int);
        }
        if value > (i64::MAX - digit) / 10 {
            return None;
        }
        value = value * 10 + digit;
        i = i + 1;
    }
    Some(value)
}

/// The array that a run of numbers stands for.
fn literal_array(numbers: Vec<i64>) -> (a: JArray)
    requires
        numbers@.len() >= 1,
    ensures
        a@ == literal(numbers@),
        a.wf(),
{
    if numbers.len() == 1 {
        JArray::new_scalar(numbers[0])
    } else {
        let mut shape: Vec<usize> = Vec::new();
        shape.push(numbers.len());
        JArray::new_integer(1, shape, numbers)
    }
}

/// The lexer.
pub struct JTokenizer;

impl JTokenizer {
    /// A lexer. It holds no state.
    pub fn new() -> (t: Self) {
        JTokenizer
    }

    /// The run of numerals that starts with the numeral at `pos`.
    fn scan_numbers(chars: &Vec<char>, input: &str, pos: usize) -> (r: Result<
        (Vec<i64>, usize),
        TokenError,
    >)
        requires
            chars@ == input@,
            pos < chars@.len(),
            is_digit(chars@[pos as int]),
        ensures
            match r {
                Ok((numbers, end)) => scan_run(chars@, pos as int) == Ok::<Run, TokenFault>(
                    Run { values: numbers@, end: end as int },
                ) && pos < end <= chars@.len() && numbers@.len() >= 1,
                Err(e) => scan_run(chars@, pos as int) == Err::<Run, TokenFault>(e@),
            },
    {
        let ghost s = chars@;
        let mut numbers: Vec<i64> = Vec::new();
        let first_end = scan_digits(chars, pos);
        proof {
            lemma_digits_end(s, pos as int);
        }
        match numeral_value(chars, pos, first_end) {
            None => {
                return Err(
                    TokenError::InvalidNumber(
                        String::from_str(input.substring_char(pos, first_end)),
                    ),
                );
            },
            Some(v) => {
                numbers.push(v);
            },
        }
        let ghost first = numbers@[0];
        let mut cur = first_end;
        let ghost mut more: Seq<i64> = Seq::empty();
        proof {
            assert(numbers@ =~= seq![first] + more);
            match scan_more(s, first_end as int) {
                Ok(run) => {
                    assert(more + run.values =~= run.values);
                },
                Err(f) => {},
            }
        }
        loop
            invariant
                s == chars@,
                chars@ == input@,
                pos < cur <= s.len(),
                numbers@ == seq![first] + more,
                scan_run(s, pos as int) == run_after(first, scan_more(s, first_end as int)),
                scan_more(s, first_end as int) == run_extend(more, scan_more(s, cur as int)),
            decreases s.len() - cur,
        {
            if !(cur < chars.len() && chars[cur] == ' ') {
                proof {
                    assert(more + Seq::<i64>::empty() =~= more);
                }
                return Ok((numbers, cur));
            }
            let q = skip_spaces(chars, cur);
            proof {
                lemma_spaces_end(s, cur as int);
            }
            if !digit_at(chars, q) {
                proof {
                    assert(more + Seq::<i64>::empty() =~= more);
                }
                return Ok((numbers, q));
            }
            let e = scan_digits(chars, q);
            proof {
                lemma_digits_end(s, q as int);
            }
            match numeral_value(chars, q, e) {
                None => {
                    return Err(
                        TokenError::InvalidNumber(String::from_str(input.substring_char(q, e))),
                    );
                },
                Some(v) => {
                    proof {
                        let old_more = more;
                        more = more.push(v);
                        assert(scan_more(s, cur as int) == run_after(v, scan_more(s, e as int)));
                        match scan_more(s, e as int) {
                            Ok(run) => {
                                assert(old_more + (seq![v] + run.values) =~= more + run.values);
                            },
                            Err(f) => {},
                        }
                        assert(seq![first] + old_more.push(v) =~= (seq![first] + old_more).push(
                            v,
                        ));
                    }
                    numbers.push(v);
                    cur = e;
                },
            }
        }
    }
}

impl JTokenizer {
    /// Splits `input` into tokens. A run of space-separated numerals
    /// becomes one `Vector` token; each of `+ ~ # < { ,` a `Verb`; the
    /// parentheses their own tokens; white space elsewhere is passed
    /// over. Fails with `UnknownCharacter` at the first character that
    /// is none of these, and with `InvalidNumber` at the first numeral
    /// too large for 64 bits, whichever comes first in the text.
    pub fn tokenize(&self, input: &str) -> (r: Result<Vec<Token>, TokenError>)
        ensures
            match r {
                Ok(tokens) => tokenize(input@) == Ok::<Seq<TokenModel>, TokenFault>(
                    token_models(tokens@),
                ),
                Err(e) => tokenize(input@) == Err::<Seq<TokenModel>, TokenFault>(e@),
            },
            r matches Ok(tokens) ==> forall|i: int|
                0 <= i < tokens@.len() ==> (#[trigger] tokens@[i] matches Token::Vector(a)
                    ==> a.wf()),
    {
        let chars = chars_of(input);
        let ghost s = chars@;
        let n = chars.len();
        let mut tokens: Vec<Token> = Vec::new();
        let mut pos: usize = 0;
        proof {
            assert(token_models(tokens@) =~= Seq::<TokenModel>::empty());
            match tokens_from(s, 0) {
                Ok(rest) => {
                    assert(Seq::<TokenModel>::empty() + rest =~= rest);
                },
                Err(f) => {},
            }
        }
        while pos < n
            invariant
                s == chars@,
                chars@ == input@,
                n == s.len(),
                pos <= n,
                tokenize(s) == tokens_after(token_models(tokens@), tokens_from(s, pos as int)),
                forall|i: int|
                    0 <= i < tokens@.len() ==> (#[trigger] tokens@[i] matches Token::Vector(a)
                        ==> a.wf()),
            decreases n - pos,
        {
            let c = chars[pos];
            let ghost before = token_models(tokens@);
            let ghost here = pos as int;
            if digit_at(&chars, pos) {
                match JTokenizer::scan_numbers(&chars, input, pos) {
                    Err(e) => {
                        return Err(e);
                    },
                    Ok((numbers, end)) => {
                        let ghost values = numbers@;
                        tokens.push(Token::Vector(literal_array(numbers)));
                        pos = end;
                        proof {
                            lemma_tokens_step(
                                before,
                                TokenModel::Vector(literal(values)),
                                tokens_from(s, end as int),
                            );
                            assert(token_models(tokens@) =~= before.push(
                                TokenModel::Vector(literal(values)),
                            ));
                        }
                    },
                }
            } else if c == '+' || c == '~' || c == '#' || c == '<' || c == '{' || c == ',' {
                tokens.push(Token::Verb(c));
                pos = pos + 1;
                proof {
                    lemma_tokens_step(before, TokenModel::Verb(c), tokens_from(s, here + 1));
                    assert(token_models(tokens@) =~= before.push(TokenModel::Verb(c)));
                }
            } else if c == '(' {
                tokens.push(Token::LeftParen);
                pos = pos + 1;
                proof {
                    lemma_tokens_step(before, TokenModel::LeftParen, tokens_from(s, here + 1));
                    assert(token_models(tokens@) =~= before.push(TokenModel::LeftParen));
                }
            } else if c == ')' {
                tokens.push(Token::RightParen);
                pos = pos + 1;
                proof {
                    lemma_tokens_step(before, TokenModel::RightParen, tokens_from(s, here + 1));
                    assert(token_models(tokens@) =~= before.push(TokenModel::RightParen));
                }
            } else if whitespace(c) {
                pos = pos + 1;
            } else {
                return Err(TokenError::UnknownCharacter(c));
            }
        }
        proof {
            assert(token_models(tokens@) + Seq::<TokenModel>::empty() =~= token_models(tokens@));
        }
        Ok(tokens)
    }
}

/// Putting a token before the rest and then the earlier tokens before
/// that is putting the earlier tokens with the new one before the rest.
pub proof fn lemma_tokens_step(
    before: Seq<TokenModel>,
    token: TokenModel,
    rest: Result<Seq<TokenModel>, TokenFault>,
)
    ensures
        tokens_after(before, tokens_after(seq![token], rest)) == tokens_after(
            before.push(token),
            rest,
        ),
{
    match rest {
        Ok(tokens) => {
            assert(before + (seq![token] + tokens) =~= before.push(token) + tokens);
        },
        Err(f) => {},
    }
}

} // verus!
