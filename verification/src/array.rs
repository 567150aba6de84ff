//! The array value model: values, arrays, and the primitive array operations.

use vstd::prelude::*;
use crate::shape::ArrayShape;
use crate::shape::product;
use crate::shape::lemma_product_prefix;
use vstd::string::StringExecFns;

verus! {

/// The mathematical content of a value.
pub enum ValueModel {
    Integer(int),
    Character(char),
    Boxed(ArrayModel),
}

/// The mathematical content of an array: its dimension sizes and its
/// elements in row-major order.
pub struct ArrayModel {
    pub shape: Seq<nat>,
    pub data: Seq<ValueModel>,
}

/// One element of an array.
#[derive(Debug, PartialEq)]
pub enum JValue {
    Integer(i32),
    Character(char),
    Box(Box<JArray>),
}

/// A multi-dimensional array: a shape and the elements in row-major order.
#[derive(Debug, PartialEq)]
pub struct JArray {
    pub data: Vec<JValue>,
    pub shape: ArrayShape,
}

impl JValue {
    pub open spec fn view(&self) -> ValueModel
        decreases self,
    {
        match self {
            JValue::Integer(i) => ValueModel::Integer(*i as int),
            JValue::Character(c) => ValueModel::Character(*c),
            JValue::Box(b) => ValueModel::Boxed(b.view()),
        }
    }
}

impl JArray {
    pub open spec fn view(&self) -> ArrayModel
        decreases self,
    {
        ArrayModel {
            shape: self.shape@,
            data: Seq::new(
                self.data@.len(),
                |i: int|
                    if 0 <= i < self.data@.len() {
                        self.data@[i].view()
                    } else {
                        ValueModel::Integer(0)
                    },
            ),
        }
    }
}

/// The kinds of elements that older callers tell apart.
#[derive(Debug, Clone, PartialEq)]
pub enum JType {
    Integer,
    Box,
}

/// Why an array operation failed.
#[allow(inconsistent_fields)]
#[derive(Debug, Clone, PartialEq)]
pub enum ArrayError {
    IndexOutOfBounds,
    ShapeMismatch { expected: ArrayShape, actual: ArrayShape },
    TypeMismatch { expected: String, actual: String },
    InvalidReshape { from_shape: ArrayShape, to_shape: ArrayShape },
    DivisionByZero,
    EmptyArray,
    InvalidDimension(usize),
}

/// The mathematical content of an [`ArrayError`].
#[allow(inconsistent_fields)]
pub enum ArrayFault {
    IndexOutOfBounds,
    ShapeMismatch { expected: Seq<nat>, actual: Seq<nat> },
    TypeMismatch { expected: Seq<char>, actual: Seq<char> },
    InvalidReshape { from_shape: Seq<nat>, to_shape: Seq<nat> },
    DivisionByZero,
    EmptyArray,
    InvalidDimension(nat),
}

impl View for ArrayError {
    type V = ArrayFault;

    open spec fn view(&self) -> ArrayFault {
        match self {
            ArrayError::IndexOutOfBounds => ArrayFault::IndexOutOfBounds,
            ArrayError::ShapeMismatch { expected, actual } => ArrayFault::ShapeMismatch {
                expected: expected@,
                actual: actual@,
            },
            ArrayError::TypeMismatch { expected, actual } => ArrayFault::TypeMismatch {
                expected: expected@,
                actual: actual@,
            },
            ArrayError::InvalidReshape { from_shape, to_shape } => ArrayFault::InvalidReshape {
                from_shape: from_shape@,
                to_shape: to_shape@,
            },
            ArrayError::DivisionByZero => ArrayFault::DivisionByZero,
            ArrayError::EmptyArray => ArrayFault::EmptyArray,
            ArrayError::InvalidDimension(d) => ArrayFault::InvalidDimension(*d as nat),
        }
    }
}

/// The mathematical content of the outcome of an array operation.
pub open spec fn outcome(r: Result<JArray, ArrayError>) -> Result<ArrayModel, ArrayFault> {
    match r {
        Ok(a) => Ok(a@),
        Err(e) => Err(e@),
    }
}

/// The integer elements `values`, as values.
pub open spec fn integers(values: Seq<i32>) -> Seq<ValueModel> {
    Seq::new(values.len(), |i: int| ValueModel::Integer(values[i] as int))
}

/// The integers among `data`, in order.
pub open spec fn integers_in(data: Seq<ValueModel>) -> Seq<int>
    decreases data.len(),
{
    if data.len() == 0 {
        Seq::empty()
    } else {
        match data.last() {
            ValueModel::Integer(i) => integers_in(data.drop_last()).push(i),
            _ => integers_in(data.drop_last()),
        }
    }
}

/// The row-major position of the element at `indices` in an array of
/// dimension sizes `dims`: the last dimension varies fastest.
pub open spec fn flat_index(dims: Seq<nat>, indices: Seq<nat>) -> nat
    recommends
        dims.len() == indices.len(),
    decreases dims.len(),
{
    if dims.len() == 0 || indices.len() == 0 {
        0
    } else {
        flat_index(dims.drop_last(), indices.drop_last()) * dims.last() + indices.last()
    }
}

/// Whether `indices` names an element of an array of dimension sizes
/// `dims`: one index per dimension, each below its size.
pub open spec fn indices_in_range(dims: Seq<nat>, indices: Seq<nat>) -> bool {
    &&& dims.len() == indices.len()
    &&& forall|k: int| 0 <= k < dims.len() ==> indices[k] < dims[k]
}

/// An element within range lies at a position below the element count.
pub proof fn lemma_flat_index_bound(dims: Seq<nat>, indices: Seq<nat>)
    requires
        indices_in_range(dims, indices),
    ensures
        dims.len() > 0 ==> flat_index(dims, indices) < product(dims),
        dims.len() == 0 ==> flat_index(dims, indices) == 0,
    decreases dims.len(),
{
    if dims.len() > 0 {
        let d = dims.drop_last();
        let x = indices.drop_last();
        assert(indices_in_range(d, x));
        lemma_flat_index_bound(d, x);
        if d.len() == 0 {
            assert(flat_index(d, x) == 0);
            assert(product(d) == 1);
            assert(0 * dims.last() + indices.last() < 1 * dims.last()) by (nonlinear_arith)
                requires
                    indices.last() < dims.last(),
            ;
        } else {
            assert(flat_index(d, x) * dims.last() + indices.last() < product(d) * dims.last())
                by (nonlinear_arith)
                requires
                    flat_index(d, x) < product(d),
                    indices.last() < dims.last(),
            ;
        }
    }
}

impl ValueModel {
    /// The name of the kind of this value.
    pub open spec fn kind_name(self) -> Seq<char> {
        match self {
            ValueModel::Integer(_) => "integer"@,
            ValueModel::Character(_) => "character"@,
            ValueModel::Boxed(_) => "box"@,
        }
    }

    /// The integer that stands for this value in arithmetic, if any.
    pub open spec fn to_integer(self) -> Option<int> {
        match self {
            ValueModel::Integer(i) => Some(i),
            _ => None,
        }
    }
}

impl ArrayModel {
    /// The rank-0 array that holds `v`.
    pub open spec fn scalar(v: ValueModel) -> ArrayModel {
        ArrayModel { shape: Seq::empty(), data: seq![v] }
    }

    /// The rank-1 array that holds `data`.
    pub open spec fn vector(data: Seq<ValueModel>) -> ArrayModel {
        ArrayModel { shape: seq![data.len()], data }
    }

    /// The rank-2 array of `rows` rows and `cols` columns that holds `data`.
    pub open spec fn matrix(data: Seq<ValueModel>, rows: nat, cols: nat) -> ArrayModel {
        ArrayModel { shape: seq![rows, cols], data }
    }

    /// The number of dimensions.
    pub open spec fn rank(self) -> nat {
        self.shape.len()
    }

    /// 1 for a scalar, else the size of the first dimension.
    pub open spec fn tally(self) -> nat {
        if self.shape.len() == 0 {
            1
        } else {
            self.shape[0]
        }
    }

    /// The same elements in the same order, as a rank-1 array.
    pub open spec fn ravel(self) -> ArrayModel {
        ArrayModel::vector(self.data)
    }

    /// The same elements in the same order under `new_shape`, when that
    /// shape holds exactly as many elements as this array's shape.
    pub open spec fn reshape(self, new_shape: Seq<nat>) -> Result<ArrayModel, ArrayFault> {
        if product(self.shape) == product(new_shape) {
            Ok(ArrayModel { shape: new_shape, data: self.data })
        } else {
            Err(ArrayFault::InvalidReshape { from_shape: self.shape, to_shape: new_shape })
        }
    }

    /// The elements of this array followed by those of `other`, as a
    /// rank-1 array.
    pub open spec fn concatenate(self, other: ArrayModel) -> ArrayModel {
        ArrayModel::vector(self.data + other.data)
    }

    /// The rank-0 array whose one element is this array in a box.
    pub open spec fn boxed(self) -> ArrayModel {
        ArrayModel::scalar(ValueModel::Boxed(self))
    }

    /// The array inside the box, for a rank-0 array that holds a box.
    pub open spec fn unboxed(self) -> Option<ArrayModel> {
        if self.shape.len() == 0 && self.data.len() > 0 {
            match self.data[0] {
                ValueModel::Boxed(a) => Some(a),
                _ => None,
            }
        } else {
            None
        }
    }

    /// What selecting at `indices` from the elements `source` fails
    /// with, if it fails: the first index in order that is no integer,
    /// or that lies outside `source`, decides.
    pub open spec fn select_fault(indices: Seq<ValueModel>, source: Seq<ValueModel>) -> Option<
        ArrayFault,
    >
        decreases indices.len(),
    {
        if indices.len() == 0 {
            None
        } else {
            match indices[0] {
                ValueModel::Integer(i) => if 0 <= i < source.len() {
                    ArrayModel::select_fault(indices.skip(1), source)
                } else {
                    Some(ArrayFault::IndexOutOfBounds)
                },
                v => Some(
                    ArrayFault::TypeMismatch { expected: "integer"@, actual: v.kind_name() },
                ),
            }
        }
    }

    /// The elements of this array at the flat positions that `indices`
    /// holds, under the shape of `indices`.
    pub open spec fn select_from(self, indices: ArrayModel) -> Result<ArrayModel, ArrayFault> {
        match ArrayModel::select_fault(indices.data, self.data) {
            Some(fault) => Err(fault),
            None => Ok(
                ArrayModel {
                    shape: indices.shape,
                    data: Seq::new(
                        indices.data.len(),
                        |k: int| self.data[indices.data[k]->Integer_0],
                    ),
                },
            ),
        }
    }

    /// The element at `indices`, one index per dimension.
    pub open spec fn get_at_index(self, indices: Seq<nat>) -> Option<ValueModel> {
        if indices_in_range(self.shape, indices) && flat_index(self.shape, indices)
            < self.data.len() {
            Some(self.data[flat_index(self.shape, indices) as int])
        } else {
            None
        }
    }
}

impl ValueModel {
    /// Every array boxed inside this value holds as many elements as
    /// its shape says.
    pub open spec fn wf(self) -> bool
        decreases self,
    {
        match self {
            ValueModel::Boxed(a) => a.wf(),
            _ => true,
        }
    }
}

impl ArrayModel {
    /// The array holds as many elements as its shape says, and so does
    /// every array boxed inside it.
    pub open spec fn wf(self) -> bool
        decreases self,
    {
        &&& self.data.len() == product(self.shape)
        &&& forall|i: int| 0 <= i < self.data.len() ==> (#[trigger] self.data[i]).wf()
    }
}

impl Clone for JValue {
    fn clone(&self) -> (v: Self)
        ensures
            v@ == self@,
        decreases self,
    {
        match self {
            JValue::Integer(i) => JValue::Integer(*i),
            JValue::Character(c) => JValue::Character(*c),
            JValue::Box(b) => JValue::Box(Box::new((**b).clone())),
        }
    }
}

impl Clone for JArray {
    fn clone(&self) -> (a: Self)
        ensures
            a@ == self@,
        decreases self,
    {
        let mut data: Vec<JValue> = Vec::new();
        let mut i: usize = 0;
        while i < self.data.len()
            invariant
                i <= self.data.len(),
                data@.len() == i,
                forall|k: int| 0 <= k < i ==> data@[k]@ == self.data@[k]@,
            decreases self.data.len() - i,
        {
            let v = self.data[i].clone();
            data.push(v);
            i = i + 1;
        }
        let a = JArray { data, shape: self.shape.clone() };
        assert(a@.data =~= self@.data);
        assert(a@.shape =~= self@.shape);
        a
    }
}

impl JValue {
    /// The name of the kind of this value.
    pub fn kind_name(&self) -> (name: &'static str)
        ensures
            name@ == self@.kind_name(),
    {
        match self {
            JValue::Integer(_) => "integer",
            JValue::Character(_) => "character",
            JValue::Box(_) => "box",
        }
    }

    /// Whether arithmetic accepts this value.
    pub fn is_numeric(&self) -> (b: bool)
        ensures
            b == (self@ is Integer),
    {
        match self {
            JValue::Integer(_) => true,
            _ => false,
        }
    }

    /// The integer that stands for this value in arithmetic, if any.
    pub fn to_integer(&self) -> (r: Option<i32>)
        ensures
            match r {
                Some(i) => self@.to_integer() == Some(i as int),
                None => self@.to_integer() is None,
            },
    {
        match self {
            JValue::Integer(i) => Some(*i),
            _ => None,
        }
    }
}

/// The element count of a rank-1 shape is its one dimension size.
pub proof fn lemma_product_vector(n: nat)
    ensures
        product(seq![n]) == n,
{
    assert(seq![n].drop_last() =~= Seq::<nat>::empty());
    assert(product(seq![n].drop_last()) == 1);
    assert(seq![n].last() == n);
    assert(1 * n == n) by (nonlinear_arith);
}

/// The element count of a rank-2 shape is rows times columns.
pub proof fn lemma_product_matrix(rows: nat, cols: nat)
    ensures
        product(seq![rows, cols]) == rows * cols,
{
    assert(seq![rows, cols].drop_last() =~= seq![rows]);
    assert(seq![rows, cols].last() == cols);
    lemma_product_vector(rows);
}

/// Values built from integers hold no boxes, so they are well formed.
pub proof fn lemma_integers_wf(values: Seq<i32>)
    ensures
        forall|i: int| 0 <= i < values.len() ==> (#[trigger] integers(values)[i]).wf(),
        integers(values).len() == values.len(),
{
}

impl JArray {
    /// The array holds as many elements as its shape says, and so does
    /// every array boxed inside it.
    pub open spec fn wf(&self) -> bool {
        self@.wf()
    }

    /// The rank-0 array that holds the integer `value`.
    pub fn scalar(value: i32) -> (a: Self)
        ensures
            a@ == ArrayModel::scalar(ValueModel::Integer(value as int)),
            a.wf(),
    {
        let mut data: Vec<JValue> = Vec::new();
        data.push(JValue::Integer(value));
        let a = JArray { data, shape: ArrayShape::scalar() };
        assert(a@.data =~= seq![ValueModel::Integer(value as int)]);
        assert(a@.data[0].wf());
        a
    }

    /// The rank-1 array that holds the integers `values`.
    pub fn vector(values: Vec<i32>) -> (a: Self)
        ensures
            a@ == ArrayModel::vector(integers(values@)),
            a.wf(),
    {
        let len = values.len();
        let data = JArray::values_of(&values);
        let a = JArray { data, shape: ArrayShape::vector(len) };
        proof {
            assert(a@.data =~= integers(values@));
            lemma_product_vector(len as nat);
            lemma_integers_wf(values@);
        }
        a
    }

    /// The rank-2 array of `rows` rows and `cols` columns that holds
    /// the integers `values`, row after row.
    pub fn matrix(values: Vec<i32>, rows: usize, cols: usize) -> (a: Self)
        requires
            values@.len() == rows * cols,
        ensures
            a@ == ArrayModel::matrix(integers(values@), rows as nat, cols as nat),
            a.wf(),
    {
        let data = JArray::values_of(&values);
        let a = JArray { data, shape: ArrayShape::matrix(rows, cols) };
        proof {
            assert(a@.data =~= integers(values@));
            lemma_product_matrix(rows as nat, cols as nat);
            lemma_integers_wf(values@);
        }
        a
    }

    fn values_of(values: &Vec<i32>) -> (data: Vec<JValue>)
        ensures
            data@.len() == values@.len(),
            forall|k: int| 0 <= k < data@.len() ==> data@[k]@ == ValueModel::Integer(values@[k] as int),
    {
        let mut data: Vec<JValue> = Vec::new();
        let mut i: usize = 0;
        while i < values.len()
            invariant
                i <= values.len(),
                data@.len() == i,
                forall|k: int| 0 <= k < i ==> data@[k]@ == ValueModel::Integer(values@[k] as int),
            decreases values.len() - i,
        {
            data.push(JValue::Integer(values[i]));
            i = i + 1;
        }
        data
    }

    /// The array of dimension sizes `shape` that holds the integers
    /// `values` in row-major order. Fails with `ShapeMismatch`, which
    /// names the shape of a list as long as `values`, unless `shape`
    /// holds exactly as many elements as `values` has.
    pub fn shaped(shape: Vec<usize>, values: Vec<i32>) -> (r: Result<JArray, ArrayError>)
        ensures
            match r {
                Ok(a) => product(naturals(shape@)) == values@.len() && a@ == (ArrayModel {
                    shape: naturals(shape@),
                    data: integers(values@),
                }) && a.wf(),
                Err(e) => product(naturals(shape@)) != values@.len() && e@
                    == (ArrayFault::ShapeMismatch {
                    expected: naturals(shape@),
                    actual: seq![values@.len()],
                }),
            },
    {
        let len = values.len();
        let wanted = ArrayShape { dimensions: shape };
        assert(wanted@ =~= naturals(shape@));
        let fits = match wanted.checked_total_elements() {
            Some(n) => n == len,
            None => false,
        };
        if !fits {
            return Err(
                ArrayError::ShapeMismatch { expected: wanted, actual: ArrayShape::vector(len) },
            );
        }
        let data = JArray::values_of(&values);
        let a = JArray { data, shape: wanted };
        proof {
            assert(a@.data =~= integers(values@));
            lemma_integers_wf(values@);
        }
        Ok(a)
    }

    /// The number of dimensions.
    pub fn rank(&self) -> (r: usize)
        ensures
            r == self@.rank(),
    {
        self.shape.rank()
    }

    /// The number of elements.
    pub fn size(&self) -> (n: usize)
        ensures
            n == self@.data.len(),
    {
        self.data.len()
    }

    /// Whether the array holds no element.
    pub fn is_empty(&self) -> (b: bool)
        ensures
            b == (self@.data.len() == 0),
    {
        self.data.len() == 0
    }

    /// Whether the array has rank 0.
    pub fn is_scalar(&self) -> (b: bool)
        ensures
            b == (self@.rank() == 0),
    {
        self.shape.rank() == 0
    }

    /// Whether the array has rank 1.
    pub fn is_vector(&self) -> (b: bool)
        ensures
            b == (self@.rank() == 1),
    {
        self.shape.rank() == 1
    }

    /// Whether the array has rank 2.
    pub fn is_matrix(&self) -> (b: bool)
        ensures
            b == (self@.rank() == 2),
    {
        self.shape.rank() == 2
    }

    /// 1 for a scalar, else the size of the first dimension.
    pub fn tally(&self) -> (n: usize)
        ensures
            n == self@.tally(),
    {
        if self.shape.dimensions.len() == 0 {
            1
        } else {
            self.shape.dimensions[0]
        }
    }

    /// The same elements in the same order, as a rank-1 array.
    pub fn ravel(&self) -> (a: JArray)
        ensures
            a@ == self@.ravel(),
            self.wf() ==> a.wf(),
    {
        let copy = self.clone();
        let len = copy.data.len();
        let a = JArray { data: copy.data, shape: ArrayShape::vector(len) };
        proof {
            assert(a@.data =~= self@.data);
            lemma_product_vector(len as nat);
        }
        a
    }

    /// The same elements in the same order under `new_shape`. Fails
    /// with `InvalidReshape` unless `new_shape` holds exactly as many
    /// elements as this array's shape.
    pub fn reshape(&self, new_shape: ArrayShape) -> (r: Result<JArray, ArrayError>)
        requires
            self.wf(),
        ensures
            outcome(r) == self@.reshape(new_shape@),
            r matches Ok(a) ==> a.wf(),
    {
        let len = self.data.len();
        let fits = match new_shape.checked_total_elements() {
            Some(n) => n == len,
            None => false,
        };
        if !fits {
            let from_shape = self.shape.clone();
            assert(from_shape@ == self@.shape);
            let e = ArrayError::InvalidReshape { from_shape, to_shape: new_shape };
            assert(e@ == (ArrayFault::InvalidReshape { from_shape: self@.shape, to_shape: new_shape@ }));
            return Err(e);
        }
        let copy = self.clone();
        let a = JArray { data: copy.data, shape: new_shape };
        assert(a@.data =~= self@.data);
        Ok(a)
    }

    /// The rank-0 array whose one element is `array` in a box.
    pub fn box_array(array: JArray) -> (a: Self)
        ensures
            a@ == array@.boxed(),
            array.wf() ==> a.wf(),
    {
        let ghost inner = array@;
        let mut data: Vec<JValue> = Vec::new();
        data.push(JValue::Box(Box::new(array)));
        let a = JArray { data, shape: ArrayShape::scalar() };
        assert(a@.data =~= seq![ValueModel::Boxed(inner)]);
        assert(inner.wf() ==> a@.data[0].wf());
        a
    }

    /// The array inside the box, for a rank-0 array that holds a box.
    pub fn unbox(&self) -> (r: Option<&JArray>)
        requires
            self.wf(),
        ensures
            match r {
                Some(a) => self@.unboxed() == Some(a@),
                None => self@.unboxed() is None,
            },
    {
        if self.is_scalar() {
            assert(self@.data.len() == 1);
            match &self.data[0] {
                JValue::Box(boxed) => Some(&**boxed),
                _ => None,
            }
        } else {
            None
        }
    }

    /// Whether this is a rank-0 array that holds a box.
    pub fn is_boxed(&self) -> (b: bool)
        requires
            self.wf(),
        ensures
            b == (self@.unboxed() is Some),
    {
        if self.is_scalar() {
            assert(self@.data.len() == 1);
            match &self.data[0] {
                JValue::Box(_) => true,
                _ => false,
            }
        } else {
            false
        }
    }

    /// The rank-1 array that holds the integers `data`.
    pub fn from_vec(data: Vec<i32>) -> (a: Self)
        ensures
            a@ == ArrayModel::vector(integers(data@)),
            a.wf(),
    {
        JArray::vector(data)
    }

    /// The rank-1 array that holds the integers `data`.
    pub fn new(data: Vec<i32>) -> (a: Self)
        ensures
            a@ == ArrayModel::vector(integers(data@)),
            a.wf(),
    {
        JArray::vector(data)
    }

    /// The rank-0 array that holds `value`, cut to 32 bits.
    pub fn new_scalar(value: i64) -> (a: Self)
        ensures
            a@ == ArrayModel::scalar(ValueModel::Integer((value as i32) as int)),
            a.wf(),
    {
        JArray::scalar(#[verifier::truncate] (value as i32))
    }

    /// The integers among the elements, in order.
    pub fn get_data(&self) -> (values: Vec<i32>)
        ensures
            values@.map_values(|v: i32| v as int) == integers_in(self@.data),
    {
        let mut values: Vec<i32> = Vec::new();
        let mut i: usize = 0;
        assert(self@.data.take(0) =~= Seq::<ValueModel>::empty());
        while i < self.data.len()
            invariant
                i <= self.data.len(),
                values@.map_values(|v: i32| v as int) =~= integers_in(self@.data.take(i as int)),
            decreases self.data.len() - i,
        {
            proof {
                assert(self@.data.take(i + 1).drop_last() =~= self@.data.take(i as int));
                assert(self@.data.take(i + 1).last() == self.data@[i as int]@);
            }
            match self.data[i].to_integer() {
                Some(v) => {
                    values.push(v);
                },
                None => {},
            }
            i = i + 1;
        }
        assert(self@.data.take(i as int) =~= self@.data);
        values
    }
}

/// The index list `indices`, as natural numbers.
pub open spec fn naturals(indices: Seq<usize>) -> Seq<nat> {
    Seq::new(indices.len(), |i: int| indices[i] as nat)
}

/// The 64-bit integers `values`, each cut to 32 bits, as values.
pub open spec fn integers_cut(values: Seq<i64>) -> Seq<ValueModel> {
    Seq::new(values.len(), |i: int| ValueModel::Integer((values[i] as i32) as int))
}

impl JArray {
    /// The row-major position of the element at `indices`, when there
    /// is one index per dimension and each lies below its size.
    pub fn calculate_flat_index(&self, indices: &[usize]) -> (r: Option<usize>)
        requires
            self.wf(),
        ensures
            match r {
                Some(flat) => indices_in_range(self@.shape, naturals(indices@)) && flat
                    == flat_index(self@.shape, naturals(indices@)) && flat < self@.data.len(),
                None => !indices_in_range(self@.shape, naturals(indices@)),
            },
    {
        let n = indices.len();
        if n != self.shape.rank() {
            return None;
        }
        let ghost dims = self@.shape;
        let ghost idx = naturals(indices@);
        let mut k: usize = 0;
        while k < n
            invariant
                k <= n,
                n == indices@.len(),
                n == self.shape.dimensions@.len(),
                dims == self@.shape,
                idx == naturals(indices@),
                forall|j: int| 0 <= j < k ==> idx[j] < dims[j],
            decreases n - k,
        {
            if indices[k] >= self.shape.dimensions[k] {
                assert(!(idx[k as int] < dims[k as int]));
                return None;
            }
            k = k + 1;
        }
        assert(indices_in_range(dims, idx));
        let len = self.data.len();
        let mut flat: usize = 0;
        let mut i: usize = 0;
        proof {
            assert(dims.take(0) =~= Seq::<nat>::empty());
            assert forall|j: int| 0 <= j < dims.len() implies dims[j] > 0 by {
                assert(idx[j] < dims[j]);
            }
        }
        while i < n
            invariant
                i <= n,
                n == indices@.len(),
                n == self.shape.dimensions@.len(),
                dims == self@.shape,
                idx == naturals(indices@),
                indices_in_range(dims, idx),
                forall|j: int| 0 <= j < dims.len() ==> dims[j] > 0,
                product(dims) == len,
                flat == flat_index(dims.take(i as int), idx.take(i as int)),
            decreases n - i,
        {
            proof {
                let d1 = dims.take(i + 1);
                let x1 = idx.take(i + 1);
                assert(d1.drop_last() =~= dims.take(i as int));
                assert(x1.drop_last() =~= idx.take(i as int));
                assert(d1.last() == dims[i as int]);
                assert(x1.last() == idx[i as int]);
                assert(indices_in_range(d1, x1));
                lemma_flat_index_bound(d1, x1);
                lemma_product_prefix(dims, i + 1);
                assert(flat_index(d1, x1) == flat * dims[i as int] + idx[i as int]);
                assert(flat * dims[i as int] <= flat * dims[i as int] + idx[i as int])
                    by (nonlinear_arith);
            }
            flat = flat * self.shape.dimensions[i] + indices[i];
            i = i + 1;
        }
        proof {
            assert(dims.take(n as int) =~= dims);
            assert(idx.take(n as int) =~= idx);
            lemma_flat_index_bound(dims, idx);
        }
        Some(flat)
    }

    /// The element at `indices`, one index per dimension.
    pub fn get_at_index(&self, indices: &[usize]) -> (r: Option<&JValue>)
        requires
            self.wf(),
        ensures
            match r {
                Some(v) => self@.get_at_index(naturals(indices@)) == Some(v@),
                None => self@.get_at_index(naturals(indices@)) is None,
            },
    {
        match self.calculate_flat_index(indices) {
            Some(flat) => Some(&self.data[flat]),
            None => None,
        }
    }

    /// Puts `value` in the place of the element at `indices`. Fails
    /// with `IndexOutOfBounds`, and changes nothing, unless there is
    /// one index per dimension and each lies below its size.
    pub fn set_at_index(&mut self, indices: &[usize], value: JValue) -> (r: Result<(), ArrayError>)
        requires
            old(self).wf(),
        ensures
            match r {
                Ok(_) => indices_in_range(old(self)@.shape, naturals(indices@)) && final(self)@
                    == (ArrayModel {
                    shape: old(self)@.shape,
                    data: old(self)@.data.update(
                        flat_index(old(self)@.shape, naturals(indices@)) as int,
                        value@,
                    ),
                }),
                Err(e) => !indices_in_range(old(self)@.shape, naturals(indices@)) && e@
                    == ArrayFault::IndexOutOfBounds && final(self)@ == old(self)@,
            },
            value@.wf() ==> final(self).wf(),
    {
        match self.calculate_flat_index(indices) {
            Some(flat) => {
                let ghost before = self@;
                self.data.set(flat, value);
                proof {
                    assert(self@.data =~= before.data.update(flat as int, value@));
                    assert(self@.shape == before.shape);
                    if value@.wf() {
                        assert forall|i: int| 0 <= i < self@.data.len() implies (
                        #[trigger] self@.data[i]).wf() by {
                            if i != flat {
                                assert(before.data[i].wf());
                            }
                        }
                    }
                }
                Ok(())
            },
            None => Err(ArrayError::IndexOutOfBounds),
        }
    }

    /// The elements of this array at the flat positions that `indices`
    /// holds, under the shape of `indices`. The first index in order
    /// that is no integer fails with `TypeMismatch`; the first that
    /// lies outside this array's elements, with `IndexOutOfBounds`.
    pub fn select_from(&self, indices: &JArray) -> (r: Result<JArray, ArrayError>)
        ensures
            outcome(r) == self@.select_from(indices@),
            r matches Ok(a) ==> (self.wf() && indices.wf() ==> a.wf()),
    {
        let mut result_data: Vec<JValue> = Vec::new();
        let n = indices.data.len();
        let len = self.data.len();
        let mut i: usize = 0;
        assert(indices@.data.skip(0) =~= indices@.data);
        while i < n
            invariant
                i <= n,
                n == indices.data@.len(),
                len == self.data@.len(),
                result_data@.len() == i,
                ArrayModel::select_fault(indices@.data, self@.data) == ArrayModel::select_fault(
                    indices@.data.skip(i as int),
                    self@.data,
                ),
                forall|k: int|
                    0 <= k < i ==> {
                        &&& (#[trigger] indices@.data[k]) is Integer
                        &&& 0 <= indices@.data[k]->Integer_0 < len
                        &&& result_data@[k]@ == self@.data[indices@.data[k]->Integer_0]
                    },
            decreases n - i,
        {
            let ghost rest = indices@.data.skip(i as int);
            proof {
                assert(rest[0] == indices@.data[i as int]);
                assert(rest.skip(1) =~= indices@.data.skip(i + 1));
                assert(indices@.data[i as int] == indices.data@[i as int]@);
            }
            let index_value = &indices.data[i];
            match index_value.to_integer() {
                None => {
                    let e = ArrayError::TypeMismatch {
                        expected: String::from_str("integer"),
                        actual: String::from_str(index_value.kind_name()),
                    };
                    return Err(e);
                },
                Some(index) => {
                    if index < 0 || index as usize >= len {
                        return Err(ArrayError::IndexOutOfBounds);
                    }
                    result_data.push(self.data[index as usize].clone());
                },
            }
            i = i + 1;
        }
        let a = JArray { data: result_data, shape: indices.shape.clone() };
        proof {
            let expected = Seq::new(
                indices@.data.len(),
                |k: int| self@.data[indices@.data[k]->Integer_0],
            );
            assert(a@.data =~= expected);
            if self.wf() && indices.wf() {
                assert forall|k: int| 0 <= k < a@.data.len() implies (#[trigger] a@.data[k]).wf() by {
                    assert(indices@.data[k] is Integer);
                    assert(self@.data[indices@.data[k]->Integer_0].wf());
                }
            }
        }
        Ok(a)
    }

    /// The elements of this array followed by those of `other`, as a
    /// rank-1 array.
    pub fn concatenate(&self, other: &JArray) -> (r: Result<JArray, ArrayError>)
        requires
            self.wf(),
            other.wf(),
        ensures
            outcome(r) == Ok::<ArrayModel, ArrayFault>(self@.concatenate(other@)),
            r matches Ok(a) && a.wf(),
    {
        let mut data: Vec<JValue> = self.clone().data;
        let ghost first = self@.data;
        let mut i: usize = 0;
        assert(data@.len() == first.len());
        while i < other.data.len()
            invariant
                i <= other.data.len(),
                first == self@.data,
                data@.len() == first.len() + i,
                forall|k: int| 0 <= k < first.len() ==> data@[k]@ == first[k],
                forall|k: int| 0 <= k < i ==> data@[first.len() + k]@ == other@.data[k],
            decreases other.data.len() - i,
        {
            data.push(other.data[i].clone());
            i = i + 1;
        }
        let total = data.len();
        let a = JArray { data, shape: ArrayShape::vector(total) };
        proof {
            assert(a@.data =~= self@.data + other@.data);
            lemma_product_vector(total as nat);
            assert forall|k: int| 0 <= k < a@.data.len() implies (#[trigger] a@.data[k]).wf() by {
                if k < first.len() {
                    assert(self@.data[k].wf());
                } else {
                    assert(other@.data[k - first.len()].wf());
                }
            }
        }
        Ok(a)
    }

    /// The array of the given rank that holds `data`, each cut to 32
    /// bits: a scalar of the first value for rank 0, a matrix of
    /// `shape[0]` rows and `shape[1]` columns for rank 2, else a vector.
    pub fn new_integer(rank: usize, shape: Vec<usize>, data: Vec<i64>) -> (a: Self)
        requires
            rank == 0 ==> data@.len() >= 1,
            rank == 2 ==> shape@.len() >= 2 && data@.len() == shape@[0] * shape@[1],
        ensures
            rank == 0 ==> a@ == ArrayModel::scalar(integers_cut(data@)[0]),
            rank == 2 ==> a@ == ArrayModel::matrix(
                integers_cut(data@),
                shape@[0] as nat,
                shape@[1] as nat,
            ),
            rank != 0 && rank != 2 ==> a@ == ArrayModel::vector(integers_cut(data@)),
            a.wf(),
    {
        let mut values: Vec<i32> = Vec::new();
        let mut i: usize = 0;
        while i < data.len()
            invariant
                i <= data.len(),
                values@.len() == i,
                forall|k: int| 0 <= k < i ==> values@[k] == data@[k] as i32,
            decreases data.len() - i,
        {
            values.push(#[verifier::truncate] (data[i] as i32));
            i = i + 1;
        }
        assert(integers(values@) =~= integers_cut(data@));
        if rank == 0 {
            JArray::scalar(values[0])
        } else if rank == 2 {
            JArray::matrix(values, shape[0], shape[1])
        } else {
            JArray::vector(values)
        }
    }
}

} // verus!
