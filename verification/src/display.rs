//! The text of values and arrays, for display.

use vstd::prelude::*;
use vstd::string::StrSliceExecFns;
use vstd::string::StringExecFns;
use crate::array::ArrayModel;
use crate::array::JArray;
use crate::array::JValue;
use crate::array::ValueModel;
use crate::array::lemma_product_matrix;
use crate::text::integer_text;
use crate::text::join;
use crate::text::pad_left;
use crate::text::push_integer;
use crate::text::push_spaces;

verus! {

/// The length of the longest of `texts`.
pub open spec fn max_width(texts: Seq<Seq<char>>) -> nat
    decreases texts.len(),
{
    if texts.len() == 0 {
        0
    } else if max_width(texts.drop_last()) >= texts.last().len() {
        max_width(texts.drop_last())
    } else {
        texts.last().len()
    }
}

/// The width of a matrix column: that of the longest element text, 1
/// where there is no element.
pub open spec fn column_width(texts: Seq<Seq<char>>) -> nat {
    if texts.len() == 0 {
        1
    } else {
        max_width(texts)
    }
}

/// Row `row` of a matrix of `cols` columns: its element texts, each
/// padded on the left to `width`, with one space between each two.
pub open spec fn row_text(texts: Seq<Seq<char>>, cols: nat, row: int, width: nat) -> Seq<char> {
    join(Seq::new(cols, |c: int| pad_left(texts[row * cols + c], width)), seq![' '])
}

/// The rows of a matrix, one per line, without a line end after the
/// last.
pub open spec fn matrix_text(texts: Seq<Seq<char>>, rows: nat, cols: nat) -> Seq<char> {
    join(Seq::new(rows, |r: int| row_text(texts, cols, r, column_width(texts))), seq!['\n'])
}

/// The text of each element of `a`.
pub open spec fn element_texts(a: ArrayModel) -> Seq<Seq<char>>
    decreases a, 1int,
{
    Seq::new(
        a.data.len(),
        |i: int|
            if 0 <= i < a.data.len() {
                value_text(a.data[i])
            } else {
                Seq::empty()
            },
    )
}

/// The text of a value: the numeral of an integer, a character as it
/// is, a boxed array as its text between `<` and `>`.
pub open spec fn value_text(v: ValueModel) -> Seq<char>
    decreases v, 0int,
{
    match v {
        ValueModel::Integer(i) => integer_text(i),
        ValueModel::Character(c) => seq![c],
        ValueModel::Boxed(a) => seq!['<'] + array_text(a) + seq!['>'],
    }
}

/// The text of an array: a scalar as its one value; a matrix as its
/// rows, one per line, in columns of one width; any other array as its
/// values in row-major order with one space between each two.
pub open spec fn array_text(a: ArrayModel) -> Seq<char>
    decreases a, 2int,
{
    if a.rank() == 0 {
        element_texts(a)[0]
    } else if a.rank() == 2 {
        matrix_text(element_texts(a), a.shape[0], a.shape[1])
    } else {
        join(element_texts(a), seq![' '])
    }
}

/// The texts that `parts` hold.
pub open spec fn texts_of(parts: Seq<String>) -> Seq<Seq<char>> {
    Seq::new(parts.len(), |i: int| parts[i]@)
}

/// The texts `parts` in order, with `sep` between each two.
pub fn join_texts(parts: &Vec<String>, sep: &str) -> (out: String)
    ensures
        out@ == join(texts_of(parts@), sep@),
{
    let mut out = String::new();
    let ghost texts = texts_of(parts@);
    let mut i: usize = 0;
    assert(texts.take(0) =~= Seq::<Seq<char>>::empty());
    while i < parts.len()
        invariant
            i <= parts.len(),
            texts == texts_of(parts@),
            out@ == join(texts.take(i as int), sep@),
        decreases parts.len() - i,
    {
        proof {
            let longer = texts.take(i + 1);
            assert(longer.drop_last() =~= texts.take(i as int));
            assert(longer.last() == parts@[i as int]@);
            if i == 0 {
                assert(longer[0] == parts@[0]@);
                assert(Seq::<char>::empty() + parts@[0]@ =~= parts@[0]@);
            }
        }
        if i > 0 {
            out.append(sep);
        }
        out.append(parts[i].as_str());
        i = i + 1;
    }
    assert(texts.take(parts@.len() as int) =~= texts);
    out
}

/// The length of the longest of `parts`.
fn widest(parts: &Vec<String>) -> (width: usize)
    ensures
        width == max_width(texts_of(parts@)),
{
    let ghost texts = texts_of(parts@);
    let mut width: usize = 0;
    let mut i: usize = 0;
    assert(texts.take(0) =~= Seq::<Seq<char>>::empty());
    while i < parts.len()
        invariant
            i <= parts.len(),
            texts == texts_of(parts@),
            width == max_width(texts.take(i as int)),
        decreases parts.len() - i,
    {
        proof {
            let longer = texts.take(i + 1);
            assert(longer.drop_last() =~= texts.take(i as int));
            assert(longer.last() == parts@[i as int]@);
        }
        let len = parts[i].as_str().unicode_len();
        if len > width {
            width = len;
        }
        i = i + 1;
    }
    assert(texts.take(parts@.len() as int) =~= texts);
    width
}

/// `text` with spaces before it, as many as it is shorter than `width`.
fn padded(text: &String, width: usize) -> (out: String)
    ensures
        out@ == pad_left(text@, width as nat),
{
    let len = text.as_str().unicode_len();
    let mut out = String::new();
    if len < width {
        push_spaces(&mut out, width - len);
    }
    out.append(text.as_str());
    proof {
        if len < width {
            assert(Seq::<char>::empty() + Seq::new((width - len) as nat, |i: int| ' ')
                =~= Seq::new((width - len) as nat, |i: int| ' '));
        } else {
            assert(Seq::<char>::empty() + text@ =~= text@);
        }
    }
    out
}

impl JValue {
    /// The text of this value.
    pub fn to_string(&self) -> (out: String)
        requires
            self@.wf(),
        ensures
            out@ == value_text(self@),
        decreases self, 0int,
    {
        match self {
            JValue::Integer(i) => {
                let mut out = String::new();
                push_integer(&mut out, *i);
                assert(Seq::<char>::empty() + integer_text(*i as int) =~= integer_text(*i as int));
                out
            },
            JValue::Character(c) => {
                let mut out = String::new();
                out.push(*c);
                assert(Seq::<char>::empty().push(*c) =~= seq![*c]);
                out
            },
            JValue::Box(boxed) => {
                let inner = boxed.to_string();
                let mut out = String::new();
                out.push('<');
                out.append(inner.as_str());
                out.push('>');
                assert(out@ =~= seq!['<'] + array_text(boxed@) + seq!['>']);
                out
            },
        }
    }
}

impl JArray {
    /// The text of each element.
    fn element_strings(&self) -> (texts: Vec<String>)
        requires
            self.wf(),
        ensures
            texts_of(texts@) == element_texts(self@),
            texts@.len() == self@.data.len(),
        decreases self, 1int,
    {
        let mut texts: Vec<String> = Vec::new();
        let mut i: usize = 0;
        while i < self.data.len()
            invariant
                i <= self.data.len(),
                self.wf(),
                texts@.len() == i,
                forall|k: int| 0 <= k < i ==> texts@[k]@ == value_text(self@.data[k]),
            decreases self.data.len() - i,
        {
            assert(self@.data[i as int].wf());
            assert(self@.data[i as int] == self.data@[i as int]@);
            let text = self.data[i].to_string();
            texts.push(text);
            i = i + 1;
        }
        assert(texts_of(texts@) =~= element_texts(self@));
        texts
    }

    /// The text of this array: a scalar as its one value; a matrix as
    /// its rows, one per line, each element padded on the left to the
    /// width of the longest; any other array as its values in row-major
    /// order with one space between each two.
    pub fn to_string(&self) -> (out: String)
        requires
            self.wf(),
        ensures
            out@ == array_text(self@),
        decreases self, 2int,
    {
        let texts = self.element_strings();
        let ghost all = element_texts(self@);
        let rank = self.shape.rank();
        if rank == 0 {
            assert(self@.data.len() == 1);
            texts[0].clone()
        } else if rank == 2 {
            let rows = self.shape.dimensions[0];
            let cols = self.shape.dimensions[1];
            proof {
                assert(self@.shape =~= seq![rows as nat, cols as nat]);
                lemma_product_matrix(rows as nat, cols as nat);
            }
            let width = if texts.len() == 0 {
                1
            } else {
                widest(&texts)
            };
            let count = texts.len();
            let mut lines: Vec<String> = Vec::new();
            let mut row: usize = 0;
            while row < rows
                invariant
                    row <= rows,
                    count == texts@.len(),
                    texts@.len() == rows * cols,
                    all == texts_of(texts@),
                    width == column_width(all),
                    lines@.len() == row,
                    forall|r: int|
                        0 <= r < row ==> lines@[r]@ == row_text(
                            all,
                            cols as nat,
                            r,
                            width as nat,
                        ),
                decreases rows - row,
            {
                let mut cells: Vec<String> = Vec::new();
                let mut col: usize = 0;
                while col < cols
                    invariant
                        col <= cols,
                        row < rows,
                        count == texts@.len(),
                        texts@.len() == rows * cols,
                        all == texts_of(texts@),
                        cells@.len() == col,
                        forall|c: int|
                            0 <= c < col ==> cells@[c]@ == pad_left(
                                all[row * cols + c],
                                width as nat,
                            ),
                    decreases cols - col,
                {
                    assert(row * cols + col < rows * cols) by (nonlinear_arith)
                        requires
                            row < rows,
                            col < cols,
                    ;
                    assert(0 <= row * cols <= row * cols + col) by (nonlinear_arith)
                        requires
                            0 <= row,
                            0 <= cols,
                            0 <= col,
                    ;
                    let index = row * cols + col;
                    cells.push(padded(&texts[index], width));
                    col = col + 1;
                }
                let line = join_texts(&cells, " ");
                proof {
                    reveal_strlit(" ");
                    assert(" "@ =~= seq![' ']);
                    assert(texts_of(cells@) =~= Seq::new(
                        cols as nat,
                        |c: int| pad_left(all[row * cols + c], width as nat),
                    ));
                }
                lines.push(line);
                row = row + 1;
            }
            let out = join_texts(&lines, "\n");
            proof {
                reveal_strlit("\n");
                assert("\n"@ =~= seq!['\n']);
                assert(texts_of(lines@) =~= Seq::new(
                    rows as nat,
                    |r: int| row_text(all, cols as nat, r, column_width(all)),
                ));
            }
            out
        } else {
            let out = join_texts(&texts, " ");
            proof {
                reveal_strlit(" ");
                assert(" "@ =~= seq![' ']);
            }
            out
        }
    }
}

} // verus!
