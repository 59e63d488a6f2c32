//! Client-side core of a streaming SQL query service: decoding of the
//! newline-delimited JSON response stream into a table, rendering of that
//! table as a fixed-width text grid, the connection settings that every
//! request carries, and the console's command words.

mod command;
mod connection;
mod decode;
mod table;
mod wire;

pub use command::{command_of, command_named, first_word, Command};
pub use connection::{
    basic_authorization, credentials_text, query_body, query_body_text, query_stream_url, uses_tls, KsqlDB,
};
pub use decode::{
    decode_chunks, lowered, lowered_keeps_count_and_order, rows_decode, DecodeState, QueryDecoder, QueryError,
};
pub use table::{
    border_line, empty_table_text, grid_line, row_rendered_as_is, render_is_deterministic, rows_text, table_text,
    Table, TableModel, CELL_WIDTH,
};
pub use wire::{base64_of, json_string_text, lower_of, row_cells, schema_columns};
