//! Decoding of a query-stream response: the first chunk is the schema
//! descriptor, each later chunk one row.
use vstd::prelude::*;
use crate::table::{strings_view, rows_view, Table, TableModel};
use crate::wire::{lower_of, lowercase, parse_row_cells, parse_schema_columns, row_cells, schema_columns};

verus! {

/// Why a query could not be decoded or sent.
#[derive(Debug, Clone, Copy, PartialEq, Eq, Structural)]
pub enum QueryError {
    /// The response ended before the schema descriptor.
    NoSchema,
    /// The schema descriptor is no JSON object with a `columnNames` list of strings.
    MalformedSchema,
    /// The row chunk with this number (counted from 0 after the schema) is no JSON array.
    MalformedRow(usize),
    /// The base URL does not use TLS, so no request may be sent to it.
    InsecureUrl,
}

/// Column names as a table shows them: each one lower-cased, in order.
pub open spec fn lowered(cols: Seq<Seq<char>>) -> Seq<Seq<char>> {
    cols.map_values(|c: Seq<char>| lower_of(c))
}

/// Lower-casing column names keeps their number and their order.
pub proof fn lowered_keeps_count_and_order(cols: Seq<Seq<char>>)
    ensures
        lowered(cols).len() == cols.len(),
        forall|i: int| 0 <= i < cols.len() ==> #[trigger] lowered(cols)[i] == lower_of(cols[i]),
{
}

/// What a decoder has taken in so far: the column names once the schema
/// descriptor has come, and the rows after it.
pub ghost struct DecodeState {
    pub names: Option<Seq<Seq<char>>>,
    pub rows: Seq<Seq<Seq<char>>>,
}

/// Incremental decoder of one response, fed one chunk at a time in arrival order.
pub struct QueryDecoder {
    names: Option<Vec<String>>,
    rows: Vec<Vec<String>>,
}

impl View for QueryDecoder {
    type V = DecodeState;

    closed spec fn view(&self) -> DecodeState {
        DecodeState {
            names: match self.names {
                Some(n) => Some(strings_view(n@)),
                None => None,
            },
            rows: rows_view(self.rows@),
        }
    }
}

fn lower_all(names: &Vec<String>) -> (r: Vec<String>)
    ensures
        strings_view(r@) == lowered(strings_view(names@)),
{
    let mut out: Vec<String> = Vec::new();
    let mut i: usize = 0;
    while i < names.len()
        invariant
            i <= names.len(),
            strings_view(out@) =~= lowered(strings_view(names@.subrange(0, i as int))),
        decreases names.len() - i,
    {
        let ghost prev = out@;
        let low = lowercase(names[i].as_str());
        out.push(low);
        proof {
            assert(strings_view(out@) =~= strings_view(prev).push(lower_of(names@[i as int]@)));
            assert(lowered(strings_view(names@.subrange(0, i + 1))) =~= lowered(
                strings_view(names@.subrange(0, i as int)),
            ).push(lower_of(names@[i as int]@)));
        }
        i = i + 1;
        assert(strings_view(out@) =~= lowered(strings_view(names@.subrange(0, i as int))));
    }
    assert(names@.subrange(0, names@.len() as int) =~= names@);
    out
}

impl QueryDecoder {
    /// A decoder that has seen no chunk.
    pub fn new() -> (r: QueryDecoder)
        ensures
            r@ == (DecodeState { names: None, rows: Seq::empty() }),
    {
        let r = QueryDecoder { names: None, rows: Vec::new() };
        assert(r@.rows =~= Seq::empty());
        r
    }

    /// Whether the schema descriptor has been taken in.
    pub fn has_schema(&self) -> (r: bool)
        ensures
            r == self@.names is Some,
    {
        self.names.is_some()
    }

    /// Takes in the next chunk. The first one must be the schema descriptor,
    /// whose column names are kept lower-cased; every later one is one row,
    /// kept whatever its width. A chunk that does not decode leaves the
    /// decoder as it was.
    pub fn feed(&mut self, chunk: &[u8]) -> (r: Result<(), QueryError>)
        ensures
            old(self)@.names is None ==> match schema_columns(chunk@) {
                None => r == Err::<(), QueryError>(QueryError::MalformedSchema)
                    && final(self)@ == old(self)@,
                Some(cols) => r is Ok && final(self)@ == (DecodeState {
                    names: Some(lowered(cols)),
                    rows: old(self)@.rows,
                }),
            },
            old(self)@.names is Some ==> match row_cells(chunk@) {
                None => r == Err::<(), QueryError>(QueryError::MalformedRow(old(self)@.rows.len() as usize))
                    && final(self)@ == old(self)@,
                Some(cells) => r is Ok && final(self)@ == (DecodeState {
                    names: old(self)@.names,
                    rows: old(self)@.rows.push(cells),
                }),
            },
    {
        if self.names.is_none() {
            match parse_schema_columns(chunk) {
                Ok(cols) => {
                    self.names = Some(lower_all(&cols));
                    Ok(())
                },
                Err(_) => Err(QueryError::MalformedSchema),
            }
        } else {
            match parse_row_cells(chunk) {
                Ok(cells) => {
                    self.rows.push(cells);
                    assert(rows_view(self.rows@) =~= rows_view(old(self).rows@).push(strings_view(cells@)));
                    Ok(())
                },
                Err(_) => Err(QueryError::MalformedRow(self.rows.len())),
            }
        }
    }

    /// The table of everything taken in, once the schema descriptor has come.
    pub fn finish(self) -> (r: Result<Table, QueryError>)
        ensures
            match self@.names {
                None => r == Err::<Table, QueryError>(QueryError::NoSchema),
                Some(names) => r matches Ok(t) && t@ == (TableModel { names, rows: self@.rows }),
            },
    {
        match self.names {
            Some(names) => Ok(Table { names, values: self.rows }),
            None => Err(QueryError::NoSchema),
        }
    }
}

/// Whether every row chunk before position `upto` decodes.
pub open spec fn rows_decode(chunks: Seq<Seq<u8>>, upto: int) -> bool {
    forall|i: int| 1 <= i < upto ==> #[trigger] row_cells(chunks[i]) is Some
}

/// Decodes a whole response given as its chunks in arrival order. The table
/// has the schema's columns, lower-cased and in order, and one row per later
/// chunk, in the order the chunks came. The first chunk that does not decode
/// ends the decoding with an error.
pub fn decode_chunks(chunks: &Vec<Vec<u8>>) -> (r: Result<Table, QueryError>)
    ensures
        r == Err::<Table, QueryError>(QueryError::NoSchema) <==> chunks@.len() == 0,
        r == Err::<Table, QueryError>(QueryError::MalformedSchema) <==> chunks@.len() > 0
            && schema_columns(chunks@[0]@) is None,
        r matches Err(QueryError::MalformedRow(k)) ==> {
            &&& schema_columns(chunks@[0]@) is Some
            &&& k + 1 < chunks@.len()
            &&& row_cells(chunks@[k + 1]@) is None
            &&& rows_decode(chunks@.map_values(|c: Vec<u8>| c@), k + 1)
        },
        !(r matches Err(QueryError::InsecureUrl)),
        r is Ok <==> chunks@.len() > 0 && schema_columns(chunks@[0]@) is Some
            && rows_decode(chunks@.map_values(|c: Vec<u8>| c@), chunks@.len() as int),
        r matches Ok(t) ==> {
            &&& t@.names == lowered(schema_columns(chunks@[0]@).unwrap())
            &&& t@.rows.len() + 1 == chunks@.len()
            &&& forall|i: int| 0 <= i < t@.rows.len() ==> Some(#[trigger] t@.rows[i]) == row_cells(chunks@[i + 1]@)
        },
{
    let ghost bytes = chunks@.map_values(|c: Vec<u8>| c@);
    if chunks.len() == 0 {
        return Err(QueryError::NoSchema);
    }
    let mut decoder = QueryDecoder::new();
    match decoder.feed(chunks[0].as_slice()) {
        Ok(()) => {},
        Err(e) => {
            return Err(e);
        },
    }
    let ghost cols = schema_columns(chunks@[0]@).unwrap();
    let mut i: usize = 1;
    while i < chunks.len()
        invariant
            1 <= i <= chunks.len(),
            bytes == chunks@.map_values(|c: Vec<u8>| c@),
            schema_columns(chunks@[0]@) == Some(cols),
            decoder@.names == Some(lowered(cols)),
            decoder@.rows.len() + 1 == i,
            rows_decode(bytes, i as int),
            forall|j: int| 0 <= j < decoder@.rows.len() ==> Some(#[trigger] decoder@.rows[j]) == row_cells(chunks@[j + 1]@),
        decreases chunks.len() - i,
    {
        let ghost before = decoder@;
        match decoder.feed(chunks[i].as_slice()) {
            Ok(()) => {},
            Err(e) => {
                assert(bytes[i as int] == chunks@[i as int]@);
                return Err(e);
            },
        }
        assert forall|j: int| 1 <= j < i + 1 implies #[trigger] row_cells(bytes[j]) is Some by {
            if j < i {
            } else {
                assert(bytes[j] == chunks@[j]@);
            }
        }
        assert forall|j: int| 0 <= j < decoder@.rows.len() implies Some(#[trigger] decoder@.rows[j]) == row_cells(chunks@[j + 1]@) by {
            if j < before.rows.len() {
                assert(decoder@.rows[j] == before.rows[j]);
            }
        }
        i = i + 1;
    }
    decoder.finish()
}

} // verus!
