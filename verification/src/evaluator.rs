//! The evaluator: reduces a resolved expression tree to an array.

use vstd::prelude::*;
use vstd::string::StringExecFns;
use vstd::std_specs::convert::FromSpecImpl;
use crate::array::ArrayError;
use crate::array::ArrayFault;
use crate::array::ArrayModel;
use crate::array::JArray;
use crate::array::ValueModel;
use crate::array::integers;
use crate::array::lemma_integers_wf;
use crate::node::JNode;
use crate::node::NodeModel;
use crate::shape::ArrayShape;
use crate::shape::product;

verus! {

/// Why an expression could not be evaluated. The text says more to a
/// human reader.
#[derive(Debug, Clone, PartialEq)]
pub enum EvaluationError {
    UnsupportedVerb(char, String),
    DimensionMismatch(String),
    DomainError(String),
    RankError(String),
    ArrayError(ArrayError),
}

/// The mathematical content of an [`EvaluationError`].
pub enum EvalFault {
    UnsupportedVerb(char, Seq<char>),
    DimensionMismatch(Seq<char>),
    DomainError(Seq<char>),
    RankError(Seq<char>),
    Array(ArrayFault),
}

impl View for EvaluationError {
    type V = EvalFault;

    open spec fn view(&self) -> EvalFault {
        match self {
            EvaluationError::UnsupportedVerb(v, msg) => EvalFault::UnsupportedVerb(*v, msg@),
            EvaluationError::DimensionMismatch(msg) => EvalFault::DimensionMismatch(msg@),
            EvaluationError::DomainError(msg) => EvalFault::DomainError(msg@),
            EvaluationError::RankError(msg) => EvalFault::RankError(msg@),
            EvaluationError::ArrayError(e) => EvalFault::Array(e@),
        }
    }
}

impl From<ArrayError> for EvaluationError {
    fn from(err: ArrayError) -> (e: Self) {
        EvaluationError::ArrayError(err)
    }
}

impl FromSpecImpl<ArrayError> for EvaluationError {
    open spec fn obeys_from_spec() -> bool {
        true
    }

    open spec fn from_spec(err: ArrayError) -> Self {
        EvaluationError::ArrayError(err)
    }
}

/// The mathematical content of the outcome of an evaluation.
pub open spec fn eval_outcome(r: Result<JArray, EvaluationError>) -> Result<ArrayModel, EvalFault> {
    match r {
        Ok(a) => Ok(a@),
        Err(e) => Err(e@),
    }
}

/// The outcome of an array operation, as the outcome of an evaluation.
pub open spec fn lift(r: Result<ArrayModel, ArrayFault>) -> Result<ArrayModel, EvalFault> {
    match r {
        Ok(a) => Ok(a),
        Err(f) => Err(EvalFault::Array(f)),
    }
}

/// The sum of two 32-bit integers, wrapped around at 32 bits.
pub open spec fn add32(a: int, b: int) -> int {
    if a + b > i32::MAX {
        a + b - 0x1_0000_0000
    } else if a + b < i32::MIN {
        a + b + 0x1_0000_0000
    } else {
        a + b
    }
}

/// 1 when `a` is below `b`, else 0.
pub open spec fn less32(a: int, b: int) -> int {
    if a < b {
        1
    } else {
        0
    }
}

/// Whether every element is an integer.
pub open spec fn all_integers(data: Seq<ValueModel>) -> bool {
    forall|i: int| 0 <= i < data.len() ==> (#[trigger] data[i]) is Integer
}

/// The dimension sizes that the integer elements `data` give: each
/// integer taken as an unsigned machine word.
pub open spec fn dims_of(data: Seq<ValueModel>) -> Seq<nat> {
    Seq::new(data.len(), |i: int| ((data[i]->Integer_0) as usize) as nat)
}

/// Monadic `~`: the integers from 0 up to, and without, the scalar
/// integer argument.
pub open spec fn iota(a: ArrayModel) -> Result<ArrayModel, EvalFault> {
    if a.rank() != 0 {
        Err(EvalFault::DomainError("iota requires a scalar argument"@))
    } else {
        match a.data[0] {
            ValueModel::Integer(n) => if n < 0 {
                Err(EvalFault::DomainError("iota requires a non-negative argument"@))
            } else {
                Ok(ArrayModel::vector(Seq::new(n as nat, |i: int| ValueModel::Integer(i))))
            },
            _ => Err(EvalFault::DomainError("iota requires integer argument"@)),
        }
    }
}

/// Monadic `#`: the tally as a scalar, cut to 32 bits.
pub open spec fn tally(a: ArrayModel) -> ArrayModel {
    ArrayModel::scalar(ValueModel::Integer(((a.tally() as int) as i32) as int))
}

/// Dyadic `+`: element by element, a scalar going with every element
/// of the other side. Elements must be integers; two non-scalars must
/// have the same shape. A scalar with a non-scalar gives a rank-1 array.
pub open spec fn plus(l: ArrayModel, r: ArrayModel) -> Result<ArrayModel, EvalFault> {
    if l.rank() == 0 && r.rank() == 0 {
        if l.data[0] is Integer && r.data[0] is Integer {
            Ok(
                ArrayModel::scalar(
                    ValueModel::Integer(add32(l.data[0]->Integer_0, r.data[0]->Integer_0)),
                ),
            )
        } else {
            Err(EvalFault::DomainError("Addition requires numeric values"@))
        }
    } else if l.rank() == 0 {
        if l.data[0] is Integer && all_integers(r.data) {
            Ok(
                ArrayModel::vector(
                    Seq::new(
                        r.data.len(),
                        |i: int|
                            ValueModel::Integer(
                                add32(l.data[0]->Integer_0, r.data[i]->Integer_0),
                            ),
                    ),
                ),
            )
        } else {
            Err(EvalFault::DomainError("Addition requires numeric values"@))
        }
    } else if r.rank() == 0 {
        if r.data[0] is Integer && all_integers(l.data) {
            Ok(
                ArrayModel::vector(
                    Seq::new(
                        l.data.len(),
                        |i: int|
                            ValueModel::Integer(
                                add32(l.data[i]->Integer_0, r.data[0]->Integer_0),
                            ),
                    ),
                ),
            )
        } else {
            Err(EvalFault::DomainError("Addition requires numeric values"@))
        }
    } else if l.shape != r.shape {
        Err(EvalFault::DimensionMismatch("Arrays must have matching shapes for addition"@))
    } else if all_integers(l.data) && all_integers(r.data) {
        Ok(
            ArrayModel {
                shape: l.shape,
                data: Seq::new(
                    l.data.len(),
                    |i: int| ValueModel::Integer(add32(l.data[i]->Integer_0, r.data[i]->Integer_0)),
                ),
            },
        )
    } else {
        Err(EvalFault::DomainError("Addition requires numeric values"@))
    }
}

/// Dyadic `<`: 1 or 0 element by element. Two scalars give a scalar;
/// otherwise both sides must hold the same number of elements, and the
/// result has the shape of the left side. Elements must be integers.
pub open spec fn less_than(l: ArrayModel, r: ArrayModel) -> Result<ArrayModel, EvalFault> {
    if l.rank() == 0 && r.rank() == 0 {
        if l.data[0] is Integer && r.data[0] is Integer {
            Ok(
                ArrayModel::scalar(
                    ValueModel::Integer(less32(l.data[0]->Integer_0, r.data[0]->Integer_0)),
                ),
            )
        } else {
            Err(EvalFault::DomainError("Comparison requires numeric values"@))
        }
    } else if product(l.shape) != product(r.shape) {
        Err(EvalFault::DimensionMismatch("Arrays must have compatible shapes for comparison"@))
    } else if all_integers(l.data) && all_integers(r.data) {
        Ok(
            ArrayModel {
                shape: l.shape,
                data: Seq::new(
                    l.data.len(),
                    |i: int| ValueModel::Integer(less32(l.data[i]->Integer_0, r.data[i]->Integer_0)),
                ),
            },
        )
    } else {
        Err(EvalFault::DomainError("Comparison requires numeric values"@))
    }
}

/// Dyadic `#`: the elements of `source` under the shape that the
/// integer elements of `shape` give.
pub open spec fn reshape(shape: ArrayModel, source: ArrayModel) -> Result<ArrayModel, EvalFault> {
    if all_integers(shape.data) {
        lift(source.reshape(dims_of(shape.data)))
    } else {
        Err(EvalFault::DomainError("Shape must contain integers"@))
    }
}

/// What a verb gives of one argument.
pub open spec fn apply_monadic(verb: char, x: ArrayModel) -> Result<ArrayModel, EvalFault> {
    if verb == '~' {
        iota(x)
    } else if verb == '+' {
        Ok(x)
    } else if verb == '#' {
        Ok(tally(x))
    } else if verb == ',' {
        Ok(x.ravel())
    } else if verb == '<' {
        Ok(x.boxed())
    } else {
        Err(EvalFault::UnsupportedVerb(verb, "Monadic form not implemented"@))
    }
}

/// What a verb gives of two arguments.
pub open spec fn apply_dyadic(verb: char, x: ArrayModel, y: ArrayModel) -> Result<
    ArrayModel,
    EvalFault,
> {
    if verb == '+' {
        plus(x, y)
    } else if verb == '#' {
        reshape(x, y)
    } else if verb == '{' {
        lift(y.select_from(x))
    } else if verb == ',' {
        Ok(x.concatenate(y))
    } else if verb == '<' {
        less_than(x, y)
    } else {
        Err(EvalFault::UnsupportedVerb(verb, "Dyadic form not implemented"@))
    }
}

/// The value of an expression tree: arguments first, the left before
/// the right, then the verb. The first failure is the outcome. A verb
/// left ambiguous is a `DomainError`.
pub open spec fn eval(node: NodeModel) -> Result<ArrayModel, EvalFault>
    decreases node,
{
    match node {
        NodeModel::Literal(a) => Ok(a),
        NodeModel::MonadicVerb(verb, arg) => match eval(*arg) {
            Ok(x) => apply_monadic(verb, x),
            Err(f) => Err(f),
        },
        NodeModel::DyadicVerb(verb, left, right) => match eval(*left) {
            Ok(x) => match eval(*right) {
                Ok(y) => apply_dyadic(verb, x, y),
                Err(f) => Err(f),
            },
            Err(f) => Err(f),
        },
        NodeModel::AmbiguousVerb(_, _, _) => Err(
            EvalFault::DomainError(
                "Internal error: AmbiguousVerb node should have been resolved before evaluation"@,
            ),
        ),
    }
}

/// The integer elements of `array`, when all its elements are integers.
fn integer_values(array: &JArray) -> (r: Option<Vec<i32>>)
    ensures
        r is Some <==> all_integers(array@.data),
        r matches Some(values) ==> values@.len() == array@.data.len() && forall|i: int|
            0 <= i < values@.len() ==> array@.data[i] == ValueModel::Integer(
                #[trigger] values@[i] as int,
            ),
{
    let mut values: Vec<i32> = Vec::new();
    let mut i: usize = 0;
    while i < array.data.len()
        invariant
            i <= array.data.len(),
            values@.len() == i,
            forall|k: int|
                0 <= k < i ==> array@.data[k] == ValueModel::Integer(#[trigger] values@[k] as int),
        decreases array.data.len() - i,
    {
        assert(array@.data[i as int] == array.data@[i as int]@);
        match array.data[i].to_integer() {
            Some(v) => {
                values.push(v);
            },
            None => {
                assert(!(array@.data[i as int] is Integer));
                return None;
            },
        }
        i = i + 1;
    }
    assert forall|k: int| 0 <= k < array@.data.len() implies (
    #[trigger] array@.data[k]) is Integer by {
        assert(array@.data[k] == ValueModel::Integer(values@[k] as int));
    }
    Some(values)
}

/// The array of the integers `values` under `shape`.
fn integers_array(values: Vec<i32>, shape: ArrayShape) -> (a: JArray)
    requires
        product(shape@) == values@.len(),
    ensures
        a@ == (ArrayModel { shape: shape@, data: integers(values@) }),
        a.wf(),
{
    let flat = JArray::vector(values);
    let a = JArray { data: flat.data, shape };
    proof {
        assert(a@.data =~= integers(values@));
        lemma_integers_wf(values@);
    }
    a
}

/// The evaluator.
pub struct JEvaluator;

impl JEvaluator {
    /// An evaluator. It holds no state.
    pub fn new() -> (e: Self) {
        JEvaluator
    }

    fn domain_error(text: &str) -> (e: EvaluationError)
        ensures
            e@ == EvalFault::DomainError(text@),
    {
        EvaluationError::DomainError(String::from_str(text))
    }

    fn iota(&self, array: &JArray) -> (r: Result<JArray, EvaluationError>)
        requires
            array.wf(),
        ensures
            eval_outcome(r) == iota(array@),
            r matches Ok(a) ==> a.wf(),
    {
        if !array.is_scalar() {
            return Err(JEvaluator::domain_error("iota requires a scalar argument"));
        }
        assert(array@.data.len() == 1);
        assert(array@.data[0] == array.data@[0]@);
        let n = match array.data[0].to_integer() {
            Some(n) => n,
            None => {
                return Err(JEvaluator::domain_error("iota requires integer argument"));
            },
        };
        if n < 0 {
            return Err(JEvaluator::domain_error("iota requires a non-negative argument"));
        }
        let mut data: Vec<i32> = Vec::new();
        let mut i: i32 = 0;
        while i < n
            invariant
                0 <= i <= n,
                data@.len() == i,
                forall|k: int| 0 <= k < i ==> data@[k] == k,
            decreases n - i,
        {
            data.push(i);
            i = i + 1;
        }
        let a = JArray::vector(data);
        assert(a@.data =~= Seq::new(n as nat, |i: int| ValueModel::Integer(i)));
        Ok(a)
    }

    fn plus_monadic(&self, array: &JArray) -> (r: Result<JArray, EvaluationError>)
        ensures
            eval_outcome(r) == Ok::<ArrayModel, EvalFault>(array@),
    {
        Ok(array.clone())
    }

    fn tally(&self, array: &JArray) -> (r: Result<JArray, EvaluationError>)
        ensures
            eval_outcome(r) == Ok::<ArrayModel, EvalFault>(tally(array@)),
            r matches Ok(a) ==> a.wf(),
    {
        let count = #[verifier::truncate] (array.tally() as i32);
        Ok(JArray::scalar(count))
    }

    fn ravel(&self, array: &JArray) -> (r: Result<JArray, EvaluationError>)
        ensures
            eval_outcome(r) == Ok::<ArrayModel, EvalFault>(array@.ravel()),
            r matches Ok(a) ==> (array.wf() ==> a.wf()),
    {
        Ok(array.ravel())
    }

    fn box_verb(&self, array: &JArray) -> (r: Result<JArray, EvaluationError>)
        ensures
            eval_outcome(r) == Ok::<ArrayModel, EvalFault>(array@.boxed()),
            r matches Ok(a) ==> (array.wf() ==> a.wf()),
    {
        Ok(JArray::box_array(array.clone()))
    }

    fn plus_dyadic(&self, left: &JArray, right: &JArray) -> (r: Result<JArray, EvaluationError>)
        requires
            left.wf(),
            right.wf(),
        ensures
            eval_outcome(r) == plus(left@, right@),
            r matches Ok(a) ==> a.wf(),
    {
        let left_values = match integer_values(left) {
            Some(values) => values,
            None => {
                if !left.is_scalar() && !right.is_scalar() && !left.shape.same_as(&right.shape) {
                    return Err(
                        EvaluationError::DimensionMismatch(
                            String::from_str("Arrays must have matching shapes for addition"),
                        ),
                    );
                }
                assert(left@.rank() == 0 ==> left@.data.len() == 1);
                return Err(JEvaluator::domain_error("Addition requires numeric values"));
            },
        };
        let right_values = match integer_values(right) {
            Some(values) => values,
            None => {
                if !left.is_scalar() && !right.is_scalar() && !left.shape.same_as(&right.shape) {
                    return Err(
                        EvaluationError::DimensionMismatch(
                            String::from_str("Arrays must have matching shapes for addition"),
                        ),
                    );
                }
                assert(right@.rank() == 0 ==> right@.data.len() == 1);
                return Err(JEvaluator::domain_error("Addition requires numeric values"));
            },
        };
        let left_scalar = left.is_scalar();
        let right_scalar = right.is_scalar();
        assert(left@.rank() == 0 ==> left@.data.len() == 1);
        assert(right@.rank() == 0 ==> right@.data.len() == 1);
        if left_scalar && right_scalar {
            let sum = left_values[0].wrapping_add(right_values[0]);
            assert(sum == add32(left_values@[0] as int, right_values@[0] as int));
            Ok(JArray::scalar(sum))
        } else if left_scalar {
            let scalar = left_values[0];
            let mut sums: Vec<i32> = Vec::new();
            let mut i: usize = 0;
            while i < right_values.len()
                invariant
                    i <= right_values.len(),
                    sums@.len() == i,
                    forall|k: int|
                        0 <= k < i ==> sums@[k] == add32(scalar as int, right_values@[k] as int),
                decreases right_values.len() - i,
            {
                sums.push(scalar.wrapping_add(right_values[i]));
                i = i + 1;
            }
            let a = JArray::vector(sums);
            assert(a@.data =~= plus(left@, right@)->Ok_0.data);
            Ok(a)
        } else if right_scalar {
            let scalar = right_values[0];
            let mut sums: Vec<i32> = Vec::new();
            let mut i: usize = 0;
            while i < left_values.len()
                invariant
                    i <= left_values.len(),
                    sums@.len() == i,
                    forall|k: int|
                        0 <= k < i ==> sums@[k] == add32(left_values@[k] as int, scalar as int),
                decreases left_values.len() - i,
            {
                sums.push(left_values[i].wrapping_add(scalar));
                i = i + 1;
            }
            let a = JArray::vector(sums);
            assert(a@.data =~= plus(left@, right@)->Ok_0.data);
            Ok(a)
        } else {
            if !left.shape.same_as(&right.shape) {
                return Err(
                    EvaluationError::DimensionMismatch(
                        String::from_str("Arrays must have matching shapes for addition"),
                    ),
                );
            }
            let mut sums: Vec<i32> = Vec::new();
            let mut i: usize = 0;
            while i < left_values.len()
                invariant
                    i <= left_values.len(),
                    left_values.len() == right_values.len(),
                    sums@.len() == i,
                    forall|k: int|
                        0 <= k < i ==> sums@[k] == add32(
                            left_values@[k] as int,
                            right_values@[k] as int,
                        ),
                decreases left_values.len() - i,
            {
                sums.push(left_values[i].wrapping_add(right_values[i]));
                i = i + 1;
            }
            let a = integers_array(sums, left.shape.clone());
            assert(a@.data =~= plus(left@, right@)->Ok_0.data);
            Ok(a)
        }
    }

    fn less_than(&self, left: &JArray, right: &JArray) -> (r: Result<JArray, EvaluationError>)
        requires
            left.wf(),
            right.wf(),
        ensures
            eval_outcome(r) == less_than(left@, right@),
            r matches Ok(a) ==> a.wf(),
    {
        let both_scalar = left.is_scalar() && right.is_scalar();
        assert(left@.rank() == 0 ==> left@.data.len() == 1);
        assert(right@.rank() == 0 ==> right@.data.len() == 1);
        if !both_scalar && left.data.len() != right.data.len() {
            return Err(
                EvaluationError::DimensionMismatch(
                    String::from_str("Arrays must have compatible shapes for comparison"),
                ),
            );
        }
        let left_values = match integer_values(left) {
            Some(values) => values,
            None => {
                return Err(JEvaluator::domain_error("Comparison requires numeric values"));
            },
        };
        let right_values = match integer_values(right) {
            Some(values) => values,
            None => {
                return Err(JEvaluator::domain_error("Comparison requires numeric values"));
            },
        };
        if both_scalar {
            let flag: i32 = if left_values[0] < right_values[0] {
                1
            } else {
                0
            };
            Ok(JArray::scalar(flag))
        } else {
            let mut flags: Vec<i32> = Vec::new();
            let mut i: usize = 0;
            while i < left_values.len()
                invariant
                    i <= left_values.len(),
                    left_values.len() == right_values.len(),
                    flags@.len() == i,
                    forall|k: int|
                        0 <= k < i ==> flags@[k] == less32(
                            left_values@[k] as int,
                            right_values@[k] as int,
                        ),
                decreases left_values.len() - i,
            {
                let flag: i32 = if left_values[i] < right_values[i] {
                    1
                } else {
                    0
                };
                flags.push(flag);
                i = i + 1;
            }
            let a = integers_array(flags, left.shape.clone());
            assert(a@.data =~= less_than(left@, right@)->Ok_0.data);
            Ok(a)
        }
    }

    fn reshape(&self, shape_array: &JArray, data_array: &JArray) -> (r: Result<
        JArray,
        EvaluationError,
    >)
        requires
            data_array.wf(),
        ensures
            eval_outcome(r) == reshape(shape_array@, data_array@),
            r matches Ok(a) ==> a.wf(),
    {
        let values = match integer_values(shape_array) {
            Some(values) => values,
            None => {
                return Err(JEvaluator::domain_error("Shape must contain integers"));
            },
        };
        let mut dimensions: Vec<usize> = Vec::new();
        let mut i: usize = 0;
        while i < values.len()
            invariant
                i <= values.len(),
                dimensions@.len() == i,
                forall|k: int| 0 <= k < i ==> dimensions@[k] == (values@[k] as int) as usize,
            decreases values.len() - i,
        {
            dimensions.push(#[verifier::truncate] (values[i] as usize));
            i = i + 1;
        }
        let new_shape = ArrayShape { dimensions };
        assert(new_shape@ =~= dims_of(shape_array@.data));
        match data_array.reshape(new_shape) {
            Ok(a) => Ok(a),
            Err(e) => Err(EvaluationError::ArrayError(e)),
        }
    }

    fn from_verb(&self, indices: &JArray, source: &JArray) -> (r: Result<JArray, EvaluationError>)
        requires
            indices.wf(),
            source.wf(),
        ensures
            eval_outcome(r) == lift(source@.select_from(indices@)),
            r matches Ok(a) ==> a.wf(),
    {
        match source.select_from(indices) {
            Ok(a) => Ok(a),
            Err(e) => Err(EvaluationError::ArrayError(e)),
        }
    }

    fn concatenate(&self, left: &JArray, right: &JArray) -> (r: Result<JArray, EvaluationError>)
        requires
            left.wf(),
            right.wf(),
        ensures
            eval_outcome(r) == Ok::<ArrayModel, EvalFault>(left@.concatenate(right@)),
            r matches Ok(a) ==> a.wf(),
    {
        match left.concatenate(right) {
            Ok(a) => Ok(a),
            Err(e) => Err(EvaluationError::ArrayError(e)),
        }
    }

    /// The value of the expression tree `ast`: arguments first, the
    /// left before the right, then the verb. The first failure is the
    /// outcome.
    pub fn evaluate(&self, ast: &JNode) -> (r: Result<JArray, EvaluationError>)
        requires
            ast.wf(),
        ensures
            eval_outcome(r) == eval(ast@),
            r matches Ok(a) ==> a.wf(),
        decreases ast,
    {
        match ast {
            JNode::Literal(array) => Ok(array.clone()),
            JNode::MonadicVerb(verb, arg) => {
                let arg_value = match self.evaluate(arg) {
                    Ok(value) => value,
                    Err(e) => {
                        return Err(e);
                    },
                };
                match *verb {
                    '~' => self.iota(&arg_value),
                    '+' => self.plus_monadic(&arg_value),
                    '#' => self.tally(&arg_value),
                    ',' => self.ravel(&arg_value),
                    '<' => self.box_verb(&arg_value),
                    _ => Err(
                        EvaluationError::UnsupportedVerb(
                            *verb,
                            String::from_str("Monadic form not implemented"),
                        ),
                    ),
                }
            },
            JNode::DyadicVerb(verb, left, right) => {
                let left_value = match self.evaluate(left) {
                    Ok(value) => value,
                    Err(e) => {
                        return Err(e);
                    },
                };
                let right_value = match self.evaluate(right) {
                    Ok(value) => value,
                    Err(e) => {
                        return Err(e);
                    },
                };
                match *verb {
                    '+' => self.plus_dyadic(&left_value, &right_value),
                    '#' => self.reshape(&left_value, &right_value),
                    '{' => self.from_verb(&left_value, &right_value),
                    ',' => self.concatenate(&left_value, &right_value),
                    '<' => self.less_than(&left_value, &right_value),
                    _ => Err(
                        EvaluationError::UnsupportedVerb(
                            *verb,
                            String::from_str("Dyadic form not implemented"),
                        ),
                    ),
                }
            },
            JNode::AmbiguousVerb(_, _, _) => Err(
                JEvaluator::domain_error(
                    "Internal error: AmbiguousVerb node should have been resolved before evaluation",
                ),
            ),
        }
    }
}

} // verus!
