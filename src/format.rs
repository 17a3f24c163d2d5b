use vstd::prelude::*;
use vstd::string::StringExecFns;

use crate::coordinate::{Coordinate, Integral};
use crate::dense::DenseMatrix;
use crate::error::{Error, Result};
use crate::factories::new_matrix;
use crate::iter::{lemma_offset_inside, row_major_cell};
use crate::matrix::{column_total, lemma_address_of, lemma_within, row_total, value_at, Matrix};
use crate::tensor::Tensor;
use crate::text::{chars_of, pieces, split_pieces, text_of};
use vstd::arithmetic::div_mod::lemma_fundamental_div_mod_converse;

verus! {

/// The cells of each row of a text matrix, rows with no cell left out: `rows`
/// are the row texts, cut into cells at `column_delimiter`.
pub open spec fn grid_of(rows: Seq<Seq<char>>, column_delimiter: Seq<char>) -> Seq<Seq<Seq<char>>>
    decreases rows.len(),
{
    if rows.len() == 0 {
        seq![]
    } else {
        let cells = pieces(rows[0], column_delimiter);
        (if cells.len() > 0 {
            seq![cells]
        } else {
            seq![]
        }) + grid_of(rows.drop_first(), column_delimiter)
    }
}

/// The cells of each row of `text`, with rows cut at `row_delimiter` and
/// cells at `column_delimiter`, empty pieces dropped.
pub open spec fn grid(text: Seq<char>, row_delimiter: Seq<char>, column_delimiter: Seq<char>) -> Seq<
    Seq<Seq<char>>,
> {
    grid_of(pieces(text, row_delimiter), column_delimiter)
}

/// The rows of a grid one after the other.
pub open spec fn flat_rows(g: Seq<Seq<Seq<char>>>) -> Seq<Seq<char>>
    decreases g.len(),
{
    if g.len() == 0 {
        seq![]
    } else {
        flat_rows(g.drop_last()) + g.last()
    }
}

/// Why a grid of cells cannot become a matrix whose coordinate type has `max`
/// as its greatest value; nothing when it can.
pub open spec fn parse_refusal(g: Seq<Seq<Seq<char>>>, max: int) -> Option<Seq<char>> {
    if g.len() == 0 {
        Some("empty input cannot be parsed"@)
    } else if exists|i: int| 0 <= i < g.len() && #[trigger] g[i].len() != g[0].len() {
        Some("Row lengths are mismatched"@)
    } else if g.len() > max {
        Some("text input row count overflows index type"@)
    } else if g[0].len() > max {
        Some("cannot convert columns back to I"@)
    } else {
        None
    }
}

/// The text of a matrix of `columns` columns whose cells, in row-major order,
/// read `texts`: cells of a row are separated by the column delimiter, and
/// rows by the row delimiter.
pub open spec fn joined(
    texts: Seq<Seq<char>>,
    columns: int,
    column_delimiter: Seq<char>,
    row_delimiter: Seq<char>,
) -> Seq<char>
    decreases texts.len(),
{
    if texts.len() == 0 {
        seq![]
    } else if texts.len() == 1 {
        texts[0]
    } else {
        let k = texts.len() - 1;
        joined(texts.drop_last(), columns, column_delimiter, row_delimiter) + (if k % columns == 0 {
            row_delimiter
        } else {
            column_delimiter
        }) + texts[k]
    }
}

/// Whether `value` is what `parse_entry` gives for some string reading `text`.
pub open spec fn parsed_from<T, F: Fn(&str) -> T>(parse_entry: F, text: Seq<char>, value: T) -> bool {
    exists|s: &str| s@ == text && #[trigger] parse_entry.ensures((s,), value)
}

/// Whether `format_element` gives a string reading `text` for `value`.
pub open spec fn rendered_as<T, G: Fn(&T) -> String>(format_element: G, value: T, text: Seq<char>) -> bool {
    exists|s: String| s@ == text && #[trigger] format_element.ensures((&value,), s)
}

/// Whether `out` is the text of matrix `m` with each value rendered by
/// `format_element`, laid out with the given delimiters.
pub open spec fn formatted<T, I: Coordinate, M: Matrix<T, I>, G: Fn(&T) -> String>(
    m: &M,
    format_element: G,
    column_delimiter: Seq<char>,
    row_delimiter: Seq<char>,
    out: Seq<char>,
) -> bool {
    let columns = column_total::<T, I, M>(m);
    exists|texts: Seq<Seq<char>>|
        {
            &&& texts.len() == row_total::<T, I, M>(m) * columns
            &&& forall|k: int|
                0 <= k < texts.len() ==> #[trigger] rendered_as(
                    format_element,
                    value_at::<T, I, M>(m, row_major_cell(k, columns).0, row_major_cell(k, columns).1),
                    texts[k],
                )
            &&& #[trigger] joined(texts, columns, column_delimiter, row_delimiter) == out
        }
}

/// A grid whose rows all hold `c` cells holds `c` cells per row in all.
proof fn lemma_flat_len(g: Seq<Seq<Seq<char>>>, c: int)
    requires
        forall|i: int| 0 <= i < g.len() ==> #[trigger] g[i].len() == c,
    ensures
        flat_rows(g).len() == g.len() * c,
    decreases g.len(),
{
    if g.len() > 0 {
        assert forall|i: int| 0 <= i < g.drop_last().len() implies #[trigger] g.drop_last()[i].len()
            == c by {
            assert(g.drop_last()[i] == g[i]);
        }
        lemma_flat_len(g.drop_last(), c);
        assert(g.len() * c == (g.len() - 1) * c + c) by (nonlinear_arith);
    }
}

/// FormatOptions controls how matrices are read from and written to text.
pub struct FormatOptions {
    /// Stands between the cells of a row, not at its ends; may be empty.
    pub column_delimiter: String,
    /// Stands between rows; must not be empty.
    pub row_delimiter: String,
}

impl Default for FormatOptions {
    /// No column delimiter, and rows on lines of their own.
    fn default() -> (r: FormatOptions)
        ensures
            r.column_delimiter@ == ""@,
            r.row_delimiter@ == "\n"@,
    {
        FormatOptions { column_delimiter: "".to_owned(), row_delimiter: "\n".to_owned() }
    }
}

/// The cells of a grid held as vectors, as character sequences.
pub open spec fn grid_view(values: Seq<Vec<Vec<char>>>) -> Seq<Seq<Seq<char>>> {
    values.map_values(|row: Vec<Vec<char>>| row@.map_values(|p: Vec<char>| p@))
}

/// Parses every cell of a grid with `parse_entry`, row after row.
fn parse_cells<T, F: Fn(&str) -> T>(values: &Vec<Vec<Vec<char>>>, parse_entry: &F) -> (flat: Vec<T>)
    requires
        forall|s: &str| #[trigger] parse_entry.requires((s,)),
    ensures
        flat@.len() == flat_rows(grid_view(values@)).len(),
        forall|k: int|
            0 <= k < flat@.len() ==> #[trigger] parsed_from(
                *parse_entry,
                flat_rows(grid_view(values@))[k],
                flat@[k],
            ),
{
    let ghost g = values@.map_values(|row: Vec<Vec<char>>| row@.map_values(|p: Vec<char>| p@));
    let mut flat: Vec<T> = Vec::new();
    let ghost mut flat_texts: Seq<Seq<char>> = seq![];
    let mut x: usize = 0;
    while x < values.len()
        invariant
            x <= values@.len(),
            values@.map_values(|row: Vec<Vec<char>>| row@.map_values(|p: Vec<char>| p@)) == g,
            flat_texts == flat_rows(g.subrange(0, x as int)),
            flat@.len() == flat_texts.len(),
            forall|k: int|
                0 <= k < flat@.len() ==> #[trigger] parsed_from(*parse_entry, flat_texts[k], flat@[k]),
            forall|s: &str| #[trigger] parse_entry.requires((s,)),
        decreases values@.len() - x,
    {
        let ghost row_start = flat@.len();
        let ghost mut texts: Seq<Seq<char>> = flat_texts;
        assert(texts =~= flat_texts + g[x as int].subrange(0, 0));
        let mut y: usize = 0;
        while y < values[x].len()
            invariant
                x < values@.len(),
                y <= values@[x as int]@.len(),
                values@.map_values(|row: Vec<Vec<char>>| row@.map_values(|p: Vec<char>| p@)) == g,
                flat@.len() == row_start + y,
                flat_texts == flat_rows(g.subrange(0, x as int)),
                row_start == flat_texts.len(),
                texts == flat_texts + g[x as int].subrange(0, y as int),
                forall|k: int|
                    0 <= k < flat@.len() ==> #[trigger] parsed_from(*parse_entry, texts[k], flat@[k]),
                forall|s: &str| #[trigger] parse_entry.requires((s,)),
            decreases values@[x as int]@.len() - y,
        {
            let cell_text = text_of(&values[x][y]);
            let cell = cell_text.as_str();
            let value = parse_entry(cell);
            let ghost old_flat = flat@;
            let ghost old_texts = texts;
            flat.push(value);
            proof {
                texts = texts.push(g[x as int][y as int]);
                assert(texts =~= flat_texts + g[x as int].subrange(0, y + 1));
                assert forall|k: int|
                    0 <= k < flat@.len() implies #[trigger] parsed_from(
                    *parse_entry,
                    texts[k],
                    flat@[k],
                ) by {
                    if k < old_flat.len() {
                        assert(flat@[k] == old_flat[k]);
                        assert(texts[k] == old_texts[k]);
                        assert(parsed_from(*parse_entry, old_texts[k], old_flat[k]));
                    } else {
                        assert(cell@ == texts[k]);
                        assert(parse_entry.ensures((cell,), flat@[k]));
                    }
                }
            }
            y += 1;
        }
        proof {
            assert(g[x as int].subrange(0, y as int) =~= g[x as int]);
            assert(g.subrange(0, x + 1).drop_last() =~= g.subrange(0, x as int));
            assert(g.subrange(0, x + 1).last() == g[x as int]);
            flat_texts = texts;
        }
        x += 1;
    }
    assert(g.subrange(0, x as int) =~= g);
    flat
}

impl FormatOptions {
    /// The cells of each row of `text_matrix`, cut as these options say.
    fn read_grid(&self, text_matrix: &str) -> (values: Vec<Vec<Vec<char>>>)
        ensures
            values@.map_values(|row: Vec<Vec<char>>| row@.map_values(|p: Vec<char>| p@)) == grid(
                text_matrix@,
                self.row_delimiter@,
                self.column_delimiter@,
            ),
            forall|v: int| 0 <= v < values@.len() ==> #[trigger] values@[v]@.len() > 0,
    {
        let text = chars_of(text_matrix);
        let row_delimiter = chars_of(self.row_delimiter.as_str());
        let column_delimiter = chars_of(self.column_delimiter.as_str());
        let rows = split_pieces(&text, &row_delimiter);
        let ghost row_texts = rows@.map_values(|p: Vec<char>| p@);
        let ghost g = grid(text_matrix@, self.row_delimiter@, self.column_delimiter@);
        assert(row_texts.subrange(0, row_texts.len() as int) =~= row_texts);
        let mut values: Vec<Vec<Vec<char>>> = Vec::new();
        assert(values@.map_values(|row: Vec<Vec<char>>| row@.map_values(|p: Vec<char>| p@))
            =~= Seq::<Seq<Seq<char>>>::empty());
        let mut i: usize = 0;
        while i < rows.len()
            invariant
                g == grid(text_matrix@, self.row_delimiter@, self.column_delimiter@),
                i <= rows@.len(),
                row_texts == rows@.map_values(|p: Vec<char>| p@),
                g == grid_of(row_texts, column_delimiter@),
                values@.map_values(|row: Vec<Vec<char>>| row@.map_values(|p: Vec<char>| p@))
                    + grid_of(row_texts.subrange(i as int, row_texts.len() as int), column_delimiter@)
                    == g,
                forall|v: int| 0 <= v < values@.len() ==> #[trigger] values@[v]@.len() > 0,
            decreases rows@.len() - i,
        {
            let ghost before = values@.map_values(
                |row: Vec<Vec<char>>| row@.map_values(|p: Vec<char>| p@),
            );
            let cells = split_pieces(&rows[i], &column_delimiter);
            assert(row_texts.subrange(i as int, row_texts.len() as int).drop_first()
                =~= row_texts.subrange(i + 1, row_texts.len() as int));
            if cells.len() > 0 {
                values.push(cells);
                assert(values@.map_values(|row: Vec<Vec<char>>| row@.map_values(|p: Vec<char>| p@))
                    =~= before.push(cells@.map_values(|p: Vec<char>| p@)));
            }
            i += 1;
        }
        assert(row_texts.subrange(i as int, row_texts.len() as int) =~= Seq::<Seq<char>>::empty());
        assert(values@.map_values(|row: Vec<Vec<char>>| row@.map_values(|p: Vec<char>| p@)) =~= g);
        values
    }

    /// parse_matrix reads a matrix from text, turning each cell's text into a
    /// value with `parse_entry`. Every row must have as many cells as the first.
    pub fn parse_matrix<T, I: Coordinate>(
        &self,
        text_matrix: &str,
        parse_entry: impl Fn(&str) -> T,
    ) -> (r: Result<DenseMatrix<T, I>>)
        requires
            forall|s: &str| #[trigger] parse_entry.requires((s,)),
        ensures
            ({
                let g = grid(text_matrix@, self.row_delimiter@, self.column_delimiter@);
                match parse_refusal(g, I::max_int()) {
                    Some(msg) => r is Err && r->Err_0@ == msg,
                    None => {
                        &&& r is Ok
                        &&& r->Ok_0.wf()
                        &&& r->Ok_0.rows_spec() == g.len()
                        &&& r->Ok_0.columns_spec() == g[0].len()
                        &&& r->Ok_0.cells().len() == flat_rows(g).len()
                        &&& forall|k: int|
                            0 <= k < flat_rows(g).len() ==> #[trigger] parsed_from(
                                parse_entry,
                                flat_rows(g)[k],
                                r->Ok_0.cells()[k],
                            )
                    },
                }
            }),
    {
        let values = self.read_grid(text_matrix);
        let ghost g = grid(text_matrix@, self.row_delimiter@, self.column_delimiter@);
        if values.len() == 0 {
            return Err(Error::new("empty input cannot be parsed".to_owned()));
        }
        let columns = values[0].len();
        assert(g[0].len() == columns && columns > 0);
        let mut j: usize = 1;
        while j < values.len()
            invariant
                g == grid(text_matrix@, self.row_delimiter@, self.column_delimiter@),
                1 <= j <= values@.len(),
                columns == values@[0]@.len(),
                values@.map_values(|row: Vec<Vec<char>>| row@.map_values(|p: Vec<char>| p@)) == g,
                forall|x: int| 0 <= x < j ==> #[trigger] g[x].len() == columns,
            decreases values@.len() - j,
        {
            if values[j].len() != columns {
                assert(g[j as int].len() != g[0].len());
                let e = Error::new("Row lengths are mismatched".to_owned());
                assert(parse_refusal(g, I::max_int()) == Some(e@));
                return Err(e);
            }
            j += 1;
        }
        let row_count: I = match I::from_usize(values.len()) {
            Some(v) => v,
            None => {
                return Err(Error::new("text input row count overflows index type".to_owned()));
            },
        };
        let flat = parse_cells(&values, &parse_entry);
        proof {
            lemma_flat_len(g, columns as int);
            lemma_fundamental_div_mod_converse(
                flat@.len() as int,
                g.len() as int,
                columns as int,
                0,
            );
        }
        new_matrix(row_count, flat)
    }

    /// format renders a matrix as text: each value through `format_element`,
    /// the cells of a row separated by the column delimiter and the rows by
    /// the row delimiter, with nothing after the last cell.
    pub fn format<T, I: Coordinate, M: Matrix<T, I>>(
        &self,
        matrix: &M,
        format_element: impl Fn(&T) -> String,
    ) -> (r: String)
        requires
            matrix.wf(),
            forall|v: &T| #[trigger] format_element.requires((v,)),
        ensures
            formatted(
                matrix,
                format_element,
                self.column_delimiter@,
                self.row_delimiter@,
                r@,
            ),
    {
        render(self, matrix, &format_element)
    }
}
/// Renders a matrix as text with the delimiters of `options`.
fn render<T, I: Coordinate, M: Matrix<T, I>, G: Fn(&T) -> String>(
    options: &FormatOptions,
    matrix: &M,
    format_element: &G,
) -> (r: String)
    requires
        matrix.wf(),
        forall|v: &T| #[trigger] format_element.requires((v,)),
    ensures
        formatted(
            matrix,
            *format_element,
            options.column_delimiter@,
            options.row_delimiter@,
            r@,
        ),
{
    let mut out = String::new();
    let mut addresses = matrix.addresses();
    let ghost columns = column_total::<T, I, M>(matrix);
    let ghost mut texts: Seq<Seq<char>> = seq![];
    let mut first = true;
    proof {
        addresses.lemma_position();
    }
    loop
        invariant
            matrix.wf(),
            addresses.wf(),
            addresses.row_bound() == row_total::<T, I, M>(matrix),
            addresses.column_bound() == columns,
            columns == column_total::<T, I, M>(matrix),
            0 <= addresses.position() <= addresses.total(),
            texts.len() == addresses.position(),
            first == (texts.len() == 0),
            forall|k: int|
                0 <= k < texts.len() ==> #[trigger] rendered_as(
                    *format_element,
                    value_at::<T, I, M>(
                        matrix,
                        row_major_cell(k, columns).0,
                        row_major_cell(k, columns).1,
                    ),
                    texts[k],
                ),
            out@ == joined(texts, columns, options.column_delimiter@, options.row_delimiter@),
            forall|v: &T| #[trigger] format_element.requires((v,)),
        decreases addresses.total() - addresses.position(),
    {
        let ghost k = addresses.position();
        match addresses.next() {
            None => {
                assert(texts.len() == row_total::<T, I, M>(matrix) * columns);
                return out;
            },
            Some(a) => {
                proof {
                    addresses.lemma_position();
                    lemma_offset_inside(a, addresses);
                    matrix.lemma_shape();
                    lemma_within(matrix.lower(), matrix.upper(), a);
                    lemma_address_of(a);
                }
                let value = matrix.index(a);
                let text = format_element(value);
                let ghost old_texts = texts;
                if !first {
                    if a.column.equals(&I::zero()) {
                        out.append(options.row_delimiter.as_str());
                    } else {
                        out.append(options.column_delimiter.as_str());
                    }
                }
                out.append(text.as_str());
                first = false;
                proof {
                    texts = texts.push(text@);
                    assert(texts.drop_last() =~= old_texts);
                    assert forall|j: int|
                        0 <= j < texts.len() implies #[trigger] rendered_as(
                        *format_element,
                        value_at::<T, I, M>(
                            matrix,
                            row_major_cell(j, columns).0,
                            row_major_cell(j, columns).1,
                        ),
                        texts[j],
                    ) by {
                        if j < old_texts.len() {
                            assert(texts[j] == old_texts[j]);
                        } else {
                            assert(format_element.ensures((value,), text));
                        }
                    }
                }
            },
        }
    }
}

/// Why a grid of cells cannot become a matrix whose coordinate type has `max`
/// as its greatest value, when both counts must be coordinates; nothing when
/// it can.
pub open spec fn count_refusal(g: Seq<Seq<Seq<char>>>, max: int) -> Option<Seq<char>> {
    if g.len() == 0 {
        Some("empty input cannot be parsed"@)
    } else if exists|i: int| 0 <= i < g.len() && #[trigger] g[i].len() != g[0].len() {
        Some("Row lengths are mismatched"@)
    } else if g.len() > max {
        Some("text input row count overflows index type"@)
    } else if g[0].len() > max {
        Some("text input column count overflows index type"@)
    } else {
        None
    }
}

/// MatrixParseOptions reads matrices from text with a fixed layout and a fixed
/// cell parser.
pub struct MatrixParseOptions<F> {
    pub opts: FormatOptions,
    pub element_parser: F,
}

impl<F> MatrixParseOptions<F> {
    /// parse reads a matrix from text: rows and cells are cut as `opts` says,
    /// and each cell's text becomes a value through `element_parser`. Every
    /// row must have as many cells as the first, and both counts must be
    /// coordinates.
    pub fn parse<T, I: Coordinate>(&self, input: &str) -> (r: Result<DenseMatrix<T, I>>) where
        F: Fn(&str) -> T,

        requires
            forall|s: &str| #[trigger] self.element_parser.requires((s,)),
        ensures
            ({
                let g = grid(input@, self.opts.row_delimiter@, self.opts.column_delimiter@);
                match count_refusal(g, I::max_int()) {
                    Some(msg) => r is Err && r->Err_0@ == msg,
                    None => {
                        &&& r is Ok
                        &&& r->Ok_0.wf()
                        &&& r->Ok_0.rows_spec() == g.len()
                        &&& r->Ok_0.columns_spec() == g[0].len()
                        &&& r->Ok_0.cells().len() == flat_rows(g).len()
                        &&& forall|k: int|
                            0 <= k < flat_rows(g).len() ==> #[trigger] parsed_from(
                                self.element_parser,
                                flat_rows(g)[k],
                                r->Ok_0.cells()[k],
                            )
                    },
                }
            }),
    {
        let values = self.opts.read_grid(input);
        let ghost g = grid(input@, self.opts.row_delimiter@, self.opts.column_delimiter@);
        if values.len() == 0 {
            return Err(Error::new("empty input cannot be parsed".to_owned()));
        }
        let columns = values[0].len();
        assert(g[0].len() == columns && columns > 0);
        let mut j: usize = 1;
        while j < values.len()
            invariant
                g == grid(input@, self.opts.row_delimiter@, self.opts.column_delimiter@),
                1 <= j <= values@.len(),
                columns == values@[0]@.len(),
                grid_view(values@) == g,
                forall|x: int| 0 <= x < j ==> #[trigger] g[x].len() == columns,
            decreases values@.len() - j,
        {
            if values[j].len() != columns {
                assert(g[j as int].len() != g[0].len());
                let e = Error::new("Row lengths are mismatched".to_owned());
                assert(count_refusal(g, I::max_int()) == Some(e@));
                return Err(e);
            }
            j += 1;
        }
        let row_count: I = match I::from_usize(values.len()) {
            Some(v) => v,
            None => {
                return Err(Error::new("text input row count overflows index type".to_owned()));
            },
        };
        let column_count: I = match I::from_usize(columns) {
            Some(v) => v,
            None => {
                return Err(Error::new("text input column count overflows index type".to_owned()));
            },
        };
        let flat = parse_cells(&values, &self.element_parser);
        proof {
            lemma_flat_len(g, columns as int);
        }
        Ok(DenseMatrix::assemble(column_count, row_count, flat))
    }
}

/// MatrixDisplayOptions writes matrices as text with a fixed layout and a
/// fixed cell formatter.
pub struct MatrixDisplayOptions<G> {
    pub opts: FormatOptions,
    pub element_formatter: G,
}

impl<G> MatrixDisplayOptions<G> {
    /// to_string renders a matrix as `FormatOptions::format` does, with this
    /// layout and formatter.
    pub fn to_string<T, I: Coordinate, M: Matrix<T, I>>(&self, matrix: &M) -> (r: String) where
        G: Fn(&T) -> String,

        requires
            matrix.wf(),
            forall|v: &T| #[trigger] self.element_formatter.requires((v,)),
        ensures
            formatted(
                matrix,
                self.element_formatter,
                self.opts.column_delimiter@,
                self.opts.row_delimiter@,
                r@,
            ),
    {
        render(&self.opts, matrix, &self.element_formatter)
    }
}

} // verus!
