use ksqldb::{command_of, decode_chunks, query_body, Command, KsqlDB, QueryDecoder, QueryError, Table};

fn chunks(parts: &[&str]) -> Vec<Vec<u8>> {
    parts.iter().map(|p| p.as_bytes().to_vec()).collect()
}

fn rule(width: usize) -> String {
    format!("_{}\n", "_".repeat(22 * width))
}

fn line(cells: &[&str]) -> String {
    let mut s = String::from("|");
    for c in cells {
        s.push_str(&format!("{:<20} |", c));
    }
    s.push('\n');
    s
}

#[test]
fn schema_columns_are_lowercased_in_order() {
    let t = decode_chunks(&chunks(&[r#"{"queryId":"q1","columnNames":["ID","Name","ÄGE"],"columnTypes":[]}"#]))
        .unwrap();
    assert_eq!(t.names, vec!["id".to_string(), "name".to_string(), "äge".to_string()]);
}

#[test]
fn rows_keep_arrival_order() {
    let t = decode_chunks(&chunks(&[r#"{"columnNames":["N"]}"#, "[3]\n", "[1]\n", "[2]\n"])).unwrap();
    assert_eq!(t.values.len(), 3);
    assert_eq!(t.values, vec![vec!["3".to_string()], vec!["1".to_string()], vec!["2".to_string()]]);
}

#[test]
fn rendering_twice_gives_the_same_text() {
    let t = decode_chunks(&chunks(&[r#"{"columnNames":["A"]}"#, r#"[true]"#])).unwrap();
    let first = t.render();
    let second = t.render();
    assert_eq!(first, second);
    assert_eq!(t.values.len(), 1);
}

#[test]
fn round_trip_two_columns_two_rows() {
    let t = decode_chunks(&chunks(&[r#"{"columnNames":["A","B"]}"#, r#"[1,"x"]"#, r#"[2,"y"]"#])).unwrap();
    assert_eq!(t.names, vec!["a".to_string(), "b".to_string()]);
    let expected = format!(
        "{}{}{}{}{}{}",
        rule(2),
        line(&["a", "b"]),
        rule(2),
        line(&["1", "\"x\""]),
        line(&["2", "\"y\""]),
        rule(2)
    );
    assert_eq!(t.render(), expected);
    let text = t.render();
    let lines: Vec<&str> = text.lines().collect();
    assert_eq!(lines.len(), 6);
    assert_eq!(lines[0], "_".repeat(45));
    assert_eq!(lines[1], "|a                    |b                    |");
    assert_eq!(lines[3], "|1                    |\"x\"                  |");
}

#[test]
fn schema_only_gives_an_empty_table() {
    let t = decode_chunks(&chunks(&[r#"{"columnNames":["A","B"]}"#])).unwrap();
    assert_eq!(t.names.len(), 2);
    assert!(t.values.is_empty());
    assert_eq!(t.render(), format!("{}{}{}{}", rule(2), line(&["a", "b"]), rule(2), rule(2)));
}

#[test]
fn ragged_rows_are_rendered_as_they_are() {
    let t = decode_chunks(&chunks(&[r#"{"columnNames":["A","B"]}"#, "[1]", "[1,2,3]"])).unwrap();
    assert_eq!(t.values[0].len(), 1);
    assert_eq!(t.values[1].len(), 3);
    let expected = format!(
        "{}{}{}{}{}{}",
        rule(2),
        line(&["a", "b"]),
        rule(2),
        line(&["1"]),
        line(&["1", "2", "3"]),
        rule(2)
    );
    assert_eq!(t.render(), expected);
}

#[test]
fn authorization_header_decodes_to_the_credentials() {
    let db = KsqlDB::new("https://db.example:8088".to_string(), "bob".to_string(), "secret".to_string());
    assert_eq!(db.authorization, "Basic Ym9iOnNlY3JldA==");
    let encoded = db.authorization.strip_prefix("Basic ").unwrap();
    let decoded = base64::decode(encoded).unwrap();
    assert_eq!(decoded, b"bob:secret".to_vec());
    assert_eq!(db.url, "https://db.example:8088");
}

#[test]
fn plaintext_url_is_refused() {
    let db = KsqlDB::new("http://db.example:8088".to_string(), "bob".to_string(), "secret".to_string());
    assert!(!db.is_secure());
    assert_eq!(db.endpoint(), Err(QueryError::InsecureUrl));
    let bare = KsqlDB::new("db.example".to_string(), "u".to_string(), "p".to_string());
    assert_eq!(bare.endpoint(), Err(QueryError::InsecureUrl));
}

#[test]
fn tls_url_gives_the_query_stream_endpoint() {
    let db = KsqlDB::new("HTTPS://db.example".to_string(), "u".to_string(), "p".to_string());
    assert!(db.is_secure());
    assert_eq!(db.endpoint(), Ok("HTTPS://db.example/query-stream".to_string()));
}

#[test]
fn empty_response_has_no_schema() {
    assert!(matches!(decode_chunks(&Vec::new()), Err(QueryError::NoSchema)));
}

#[test]
fn schema_that_is_not_json_is_refused() {
    assert!(matches!(decode_chunks(&chunks(&["not json", "[1]"])), Err(QueryError::MalformedSchema)));
}

#[test]
fn schema_without_column_names_is_refused() {
    assert!(matches!(decode_chunks(&chunks(&[r#"{"queryId":"q"}"#])), Err(QueryError::MalformedSchema)));
    assert!(matches!(decode_chunks(&chunks(&[r#"[1,2]"#])), Err(QueryError::MalformedSchema)));
}

#[test]
fn malformed_row_names_its_position() {
    let r = decode_chunks(&chunks(&[r#"{"columnNames":["A"]}"#, "[1]", "[2", "[3]"]));
    assert!(matches!(r, Err(QueryError::MalformedRow(1))));
    let r = decode_chunks(&chunks(&[r#"{"columnNames":["A"]}"#, r#"{"a":1}"#]));
    assert!(matches!(r, Err(QueryError::MalformedRow(0))));
}

#[test]
fn cells_keep_their_json_text() {
    let t = decode_chunks(&chunks(&[
        r#"{"columnNames":["A","B","C","D","E"]}"#,
        r#"[null, "s", 2.5, [1, 2], {"k": false}]"#,
    ]))
    .unwrap();
    assert_eq!(
        t.values[0],
        vec![
            "null".to_string(),
            "\"s\"".to_string(),
            "2.5".to_string(),
            "[1,2]".to_string(),
            "{\"k\":false}".to_string()
        ]
    );
}

#[test]
fn long_cells_overflow_their_field() {
    let long = "abcdefghijklmnopqrstuvwxyz";
    let t = Table { names: vec![long.to_string()], values: Vec::new() };
    assert_eq!(t.render(), format!("{}|{} |\n{}{}", rule(1), long, rule(1), rule(1)));
}

#[test]
fn zero_columns_render_degenerate_rules() {
    let t = Table { names: Vec::new(), values: vec![Vec::new()] };
    assert_eq!(t.render(), "_\n|\n_\n|\n_\n");
}

#[test]
fn decoder_takes_chunks_one_at_a_time() {
    let mut d = QueryDecoder::new();
    assert!(!d.has_schema());
    assert_eq!(d.feed(b"oops"), Err(QueryError::MalformedSchema));
    assert!(!d.has_schema());
    assert_eq!(d.feed(br#"{"columnNames":["X"]}"#), Ok(()));
    assert!(d.has_schema());
    assert_eq!(d.feed(b"[\"v\"]"), Ok(()));
    assert_eq!(d.feed(b"]"), Err(QueryError::MalformedRow(1)));
    let t = d.finish().unwrap();
    assert_eq!(t.names, vec!["x".to_string()]);
    assert_eq!(t.values, vec![vec!["\"v\"".to_string()]]);
}

#[test]
fn decoder_without_chunks_has_no_schema() {
    assert!(matches!(QueryDecoder::new().finish(), Err(QueryError::NoSchema)));
}

#[test]
fn query_body_is_a_json_envelope() {
    assert_eq!(query_body("select * from t;"), r#"{"sql":"select * from t;"}"#);
    assert_eq!(query_body(r#"select "a" from t"#), r#"{"sql":"select \"a\" from t"}"#);
}

#[test]
fn first_word_picks_the_command() {
    assert_eq!(command_of("SELECT * FROM t;"), Command::Select);
    assert_eq!(command_of("  \tselect 1"), Command::Select);
    assert_eq!(command_of("exit"), Command::Exit);
    assert_eq!(command_of("Exit now"), Command::Exit);
    assert_eq!(command_of("selects"), Command::Unknown);
    assert_eq!(command_of("show tables"), Command::Unknown);
    assert_eq!(command_of(""), Command::Unknown);
    assert_eq!(command_of("   "), Command::Unknown);
}
