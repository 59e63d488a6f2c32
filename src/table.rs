use vstd::prelude::*;

verus! {

/// Display width of one column, in characters.
pub const CELL_WIDTH: usize = 20;

/// The mathematical content of a [`Table`]: column names and rows of cell texts.
pub ghost struct TableModel {
    pub names: Seq<Seq<char>>,
    pub rows: Seq<Seq<Seq<char>>>,
}

/// The result of one query: lower-cased column names and the rows in arrival
/// order. Each cell holds the compact text of the decoded JSON value. A row may
/// have another width than the header; it is kept and rendered as it is.
pub struct Table {
    pub names: Vec<String>,
    pub values: Vec<Vec<String>>,
}

pub open spec fn strings_view(v: Seq<String>) -> Seq<Seq<char>> {
    v.map_values(|s: String| s@)
}

pub open spec fn rows_view(v: Seq<Vec<String>>) -> Seq<Seq<Seq<char>>> {
    v.map_values(|r: Vec<String>| strings_view(r@))
}

impl View for Table {
    type V = TableModel;

    open spec fn view(&self) -> TableModel {
        TableModel { names: strings_view(self.names@), rows: rows_view(self.values@) }
    }
}

/// `n` copies of `c`.
pub open spec fn repeat(c: char, n: nat) -> Seq<char> {
    Seq::new(n, |i: int| c)
}

/// A cell left-aligned in a field of `CELL_WIDTH` characters; a longer text
/// overflows the field unchanged.
pub open spec fn padded(s: Seq<char>) -> Seq<char> {
    if s.len() >= CELL_WIDTH {
        s
    } else {
        s + repeat(' ', (CELL_WIDTH - s.len()) as nat)
    }
}

/// A horizontal rule for a table of `width` columns.
pub open spec fn border_line(width: nat) -> Seq<char> {
    repeat('_', (1 + (CELL_WIDTH + 2) * width) as nat).push('\n')
}

/// The cells of one line, each padded and followed by `" |"`.
pub open spec fn cells_text(cells: Seq<Seq<char>>) -> Seq<char>
    decreases cells.len(),
{
    if cells.len() == 0 {
        Seq::empty()
    } else {
        cells_text(cells.drop_last()) + padded(cells.last()) + seq![' ', '|']
    }
}

/// One line of the grid: the header or a row.
pub open spec fn grid_line(cells: Seq<Seq<char>>) -> Seq<char> {
    seq!['|'] + cells_text(cells) + seq!['\n']
}

/// The lines of all rows, in order.
pub open spec fn rows_text(rows: Seq<Seq<Seq<char>>>) -> Seq<char>
    decreases rows.len(),
{
    if rows.len() == 0 {
        Seq::empty()
    } else {
        rows_text(rows.drop_last()) + grid_line(rows.last())
    }
}

/// The whole grid: a rule, the header, a rule, one line per row, a rule.
pub open spec fn table_text(t: TableModel) -> Seq<char> {
    let rule = border_line(t.names.len());
    rule + grid_line(t.names) + rule + rows_text(t.rows) + rule
}

fn push_char_times(out: &mut String, piece: &str, c: Ghost<char>, n: usize)
    requires
        piece@ == seq![c@],
    ensures
        final(out)@ == old(out)@ + repeat(c@, n as nat),
{
    let mut k: usize = 0;
    while k < n
        invariant
            piece@ == seq![c@],
            k <= n,
            out@ == old(out)@ + repeat(c@, k as nat),
        decreases n - k,
    {
        out.append(piece);
        k = k + 1;
        assert(out@ =~= old(out)@ + repeat(c@, k as nat));
    }
}

fn push_border(out: &mut String, width: usize)
    ensures
        final(out)@ == old(out)@ + border_line(width as nat),
{
    proof {
        reveal_strlit("_");
        reveal_strlit("\n");
        assert("_"@ =~= seq!['_']);
        assert("\n"@ =~= seq!['\n']);
    }
    out.append("_");
    let mut i: usize = 0;
    while i < width
        invariant
            i <= width,
            "_"@ == seq!['_'],
            out@ == old(out)@ + repeat('_', (1 + (CELL_WIDTH + 2) * i) as nat),
        decreases width - i,
    {
        push_char_times(out, "_", Ghost('_'), CELL_WIDTH + 2);
        proof {
            let before = (1 + (CELL_WIDTH + 2) * i) as nat;
            assert(before + (CELL_WIDTH + 2) == 1 + (CELL_WIDTH + 2) * (i + 1)) by (nonlinear_arith)
                requires before == 1 + (CELL_WIDTH + 2) * i;
            assert(repeat('_', before) + repeat('_', (CELL_WIDTH + 2) as nat)
                =~= repeat('_', (before + (CELL_WIDTH + 2)) as nat));
        }
        i = i + 1;
        assert(out@ =~= old(out)@ + repeat('_', (1 + (CELL_WIDTH + 2) * i) as nat));
    }
    out.append("\n");
    assert(out@ =~= old(out)@ + border_line(width as nat));
}

fn push_cell(out: &mut String, cell: &str)
    ensures
        final(out)@ == old(out)@ + padded(cell@),
{
    proof {
        reveal_strlit(" ");
        assert(" "@ =~= seq![' ']);
    }
    let len = cell.unicode_len();
    out.append(cell);
    if len < CELL_WIDTH {
        push_char_times(out, " ", Ghost(' '), CELL_WIDTH - len);
        assert(out@ =~= old(out)@ + padded(cell@));
    } else {
        assert(out@ =~= old(out)@ + padded(cell@));
    }
}

fn push_line(out: &mut String, cells: &Vec<String>)
    ensures
        final(out)@ == old(out)@ + grid_line(strings_view(cells@)),
{
    proof {
        reveal_strlit("|");
        reveal_strlit(" |");
        reveal_strlit("\n");
        assert("|"@ =~= seq!['|']);
        assert(" |"@ =~= seq![' ', '|']);
        assert("\n"@ =~= seq!['\n']);
    }
    out.append("|");
    let ghost start = out@;
    let mut i: usize = 0;
    while i < cells.len()
        invariant
            i <= cells.len(),
            " |"@ == seq![' ', '|'],
            out@ == start + cells_text(strings_view(cells@.subrange(0, i as int))),
        decreases cells.len() - i,
    {
        push_cell(out, cells[i].as_str());
        out.append(" |");
        proof {
            let pre = strings_view(cells@.subrange(0, i as int));
            let cur = strings_view(cells@.subrange(0, i + 1));
            assert(cur.drop_last() =~= pre);
            assert(cur.last() == cells@[i as int]@);
        }
        i = i + 1;
        assert(out@ =~= start + cells_text(strings_view(cells@.subrange(0, i as int))));
    }
    out.append("\n");
    assert(cells@.subrange(0, cells@.len() as int) =~= cells@);
    assert(out@ =~= old(out)@ + grid_line(strings_view(cells@)));
}

impl Table {
    /// The table as a fixed-width text grid. Rendering reads the table only,
    /// so it can be repeated at will.
    pub fn render(&self) -> (r: String)
        ensures
            r@ == table_text(self@),
    {
        let mut out = String::new();
        let width = self.names.len();
        push_border(&mut out, width);
        push_line(&mut out, &self.names);
        push_border(&mut out, width);
        let ghost start = out@;
        let mut i: usize = 0;
        while i < self.values.len()
            invariant
                i <= self.values.len(),
                out@ == start + rows_text(rows_view(self.values@.subrange(0, i as int))),
            decreases self.values.len() - i,
        {
            push_line(&mut out, &self.values[i]);
            proof {
                let pre = rows_view(self.values@.subrange(0, i as int));
                let cur = rows_view(self.values@.subrange(0, i + 1));
                assert(cur.drop_last() =~= pre);
                assert(cur.last() == strings_view(self.values@[i as int]@));
            }
            i = i + 1;
            assert(out@ =~= start + rows_text(rows_view(self.values@.subrange(0, i as int))));
        }
        assert(self.values@.subrange(0, self.values@.len() as int) =~= self.values@);
        push_border(&mut out, width);
        assert(out@ =~= table_text(self@));
        out
    }
}

/// Rendering is a function of the table's content alone: two tables with the
/// same names and rows render to the same text, and so does one table
/// rendered twice.
pub proof fn render_is_deterministic(a: TableModel, b: TableModel)
    requires
        a == b,
    ensures
        table_text(a) == table_text(b),
{
}

/// A table with no rows renders as a rule, the header, and two rules.
pub proof fn empty_table_text(names: Seq<Seq<char>>)
    ensures
        table_text(TableModel { names, rows: Seq::empty() }) == border_line(names.len()) + grid_line(names)
            + border_line(names.len()) + border_line(names.len()),
{
    let rule = border_line(names.len());
    assert(rows_text(Seq::<Seq<Seq<char>>>::empty()) == Seq::<char>::empty());
    assert(rule + grid_line(names) + rule + Seq::<char>::empty() =~= rule + grid_line(names) + rule);
}

proof fn lemma_rows_text_prefix(rows: Seq<Seq<Seq<char>>>, k: int)
    requires
        0 <= k < rows.len(),
    ensures
        rows_text(rows.take(k + 1)) == rows_text(rows.take(k)) + grid_line(rows[k]),
        rows_text(rows.take(k + 1)).len() <= rows_text(rows).len(),
        rows_text(rows).subrange(0, rows_text(rows.take(k + 1)).len() as int) == rows_text(rows.take(k + 1)),
    decreases rows.len() - k,
{
    assert(rows.take(k + 1).drop_last() =~= rows.take(k));
    if k + 1 == rows.len() {
        assert(rows.take(k + 1) =~= rows);
        assert(rows_text(rows).subrange(0, rows_text(rows).len() as int) =~= rows_text(rows));
    } else {
        lemma_rows_text_prefix(rows, k + 1);
        let a = rows_text(rows.take(k + 1));
        let b = rows_text(rows.take(k + 2));
        assert(b == a + grid_line(rows[k + 1]));
        assert(rows_text(rows).subrange(0, a.len() as int) =~= b.subrange(0, a.len() as int));
        assert(b.subrange(0, a.len() as int) =~= a);
    }
}

/// Every row is rendered as one line of exactly its own cells, whatever its
/// width against the header: no cell is added, dropped or cut.
pub proof fn row_rendered_as_is(t: TableModel, i: int)
    requires
        0 <= i < t.rows.len(),
    ensures
        ({
            let rule = border_line(t.names.len());
            let start = rule.len() + grid_line(t.names).len() + rule.len() + rows_text(t.rows.take(i)).len();
            table_text(t).subrange(start as int, (start + grid_line(t.rows[i]).len()) as int) == grid_line(t.rows[i])
        }),
{
    let rule = border_line(t.names.len());
    let head = rule + grid_line(t.names) + rule;
    lemma_rows_text_prefix(t.rows, i);
    let body = rows_text(t.rows);
    let pre = rows_text(t.rows.take(i));
    let line = grid_line(t.rows[i]);
    assert(rows_text(t.rows.take(i + 1)) == pre + line);
    assert((pre + line).len() <= body.len());
    let window = body.subrange(pre.len() as int, (pre.len() + line.len()) as int);
    assert forall|j: int| 0 <= j < line.len() implies #[trigger] window[j] == line[j] by {
        assert(body.subrange(0, (pre + line).len() as int)[pre.len() + j] == (pre + line)[pre.len() + j]);
        assert(window[j] == body[pre.len() + j]);
    }
    assert(window =~= line);
    assert(table_text(t) == head + body + rule);
    let start = head.len() as int;
    assert(table_text(t).subrange(start + pre.len(), start + pre.len() + line.len()) =~= body.subrange(
        pre.len() as int,
        (pre.len() + line.len()) as int,
    ));
}

} // verus!
