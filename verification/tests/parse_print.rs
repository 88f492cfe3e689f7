//! The response pipeline: parsing the tabular JSON body and rendering the
//! printed title lines, with the query service mocked as status and body.

use neoquery::{parse_response, process_response, quote_cell, render_titles, QueryError, Table};

fn lines_of(r: Result<Vec<Vec<u8>>, QueryError>) -> Vec<String> {
    r.unwrap().into_iter().map(|l| String::from_utf8(l).unwrap()).collect()
}

#[test]
fn two_titles_print_in_row_order() {
    let body = "{\"columns\":[\"r.title\"],\"data\":[[\"Inception\"],[\"Memento\"]]}";
    let lines = lines_of(process_response(200, body.as_bytes()));
    assert_eq!(lines, vec!["\"Inception\"".to_string(), "\"Memento\"".to_string()]);
}

#[test]
fn empty_table_prints_nothing() {
    let body = "{\"columns\":[],\"data\":[]}";
    let lines = lines_of(process_response(200, body.as_bytes()));
    assert_eq!(lines, Vec::<String>::new());
}

#[test]
fn missing_fields_default_to_empty() {
    let lines = lines_of(process_response(200, b"{}"));
    assert_eq!(lines, Vec::<String>::new());
    let t = parse_response(b"{\"other\": 3}").unwrap();
    assert_eq!(t.columns.len(), 0);
    assert_eq!(t.data.len(), 0);
}

#[test]
fn status_404_is_fatal_and_prints_no_titles() {
    let body = "{\"columns\":[\"r.title\"],\"data\":[[\"Inception\"]]}";
    let r = process_response(404, body.as_bytes());
    assert_eq!(r, Err(QueryError::BadStatus(404)));
}

#[test]
fn unknown_members_are_skipped() {
    let body = "{\"meta\": {\"x\": [1, true, null, -2.5e3, \"s\"], \"y\": {}}, \
                \"data\": [[\"A\", \"extra\"]], \"more\": [[]], \"columns\": [\"c\"]}";
    let lines = lines_of(process_response(200, body.as_bytes()));
    assert_eq!(lines, vec!["\"A\"".to_string()]);
}

#[test]
fn whitespace_is_tolerated() {
    let body = " \t\r\n { \"data\" : [ [ \"A\" ] , [ \"B\" ] ] } \n ";
    let lines = lines_of(process_response(200, body.as_bytes()));
    assert_eq!(lines, vec!["\"A\"".to_string(), "\"B\"".to_string()]);
}

#[test]
fn escapes_match_the_debug_form() {
    // Cell content `a"b\c` with a tab, arriving JSON-escaped.
    let body = "{\"data\":[[\"a\\\"b\\\\c\\td\"]]}";
    let lines = lines_of(process_response(200, body.as_bytes()));
    assert_eq!(lines, vec![format!("{:?}", "a\"b\\c\td")]);
}

#[test]
fn row_without_cells_is_fatal() {
    let body = "{\"data\":[[\"A\"],[]]}";
    let r = process_response(200, body.as_bytes());
    assert_eq!(r, Err(QueryError::EmptyRow));
}

#[test]
fn malformed_bodies_are_fatal() {
    for body in [
        "",
        "[1,2]",
        "{\"data\":[[3]]}",
        "{\"data\":[\"A\"]}",
        "{\"columns\":[\"c\"],\"columns\":[\"c\"]}",
        "{\"data\":[],\"data\":[]}",
        "{} trailing",
        "{\"data\":[[\"A\"]]",
        "{\"data\":[[\"\\ud800 lone high surrogate\"]]}",
        "{\"data\":[[\"\\udc00 lone low surrogate\"]]}",
        "{\"data\":[[\"\\uZZZZ\"]]}",
        "{\"data\":[[\"\\u12\"]]}",
    ] {
        let r = process_response(200, body.as_bytes());
        assert_eq!(r, Err(QueryError::BadBody), "body: {}", body);
    }
}

#[test]
fn malformed_numbers_are_fatal() {
    // The JSON number grammar, held to even inside skipped members.
    for body in [
        "{\"x\": 01}",
        "{\"x\": 1.}",
        "{\"x\": .5}",
        "{\"x\": 1e}",
        "{\"x\": 1e+}",
        "{\"x\": --1}",
        "{\"x\": 1.2.3}",
        "{\"x\": +1}",
    ] {
        assert!(serde_json::from_str::<serde_json::Value>(body).is_err(), "body: {}", body);
        let r = process_response(200, body.as_bytes());
        assert_eq!(r, Err(QueryError::BadBody), "body: {}", body);
    }
    for body in ["{\"x\": -0.5E+10}", "{\"x\": 0}", "{\"x\": [0e1, 12.25e-3]}"] {
        assert!(serde_json::from_str::<serde_json::Value>(body).is_ok(), "body: {}", body);
        assert!(process_response(200, body.as_bytes()).is_ok(), "body: {}", body);
    }
}

#[test]
fn unicode_escapes_are_decoded() {
    let lines = lines_of(process_response(200, b"{\"data\":[[\"\\u0041\"]]}"));
    assert_eq!(lines, vec!["\"A\"".to_string()]);
    let lines = lines_of(process_response(200, b"{\"data\":[[\"Caf\\u00e9\"]]}"));
    assert_eq!(lines, vec![format!("{:?}", "Caf\u{e9}")]);
    let lines = lines_of(process_response(200, b"{\"data\":[[\"\\u4e16\\u754c\"]]}"));
    assert_eq!(lines, vec![format!("{:?}", "\u{4e16}\u{754c}")]);
    // A surrogate pair stands for one scalar beyond the basic plane.
    let lines = lines_of(process_response(200, b"{\"data\":[[\"\\ud83d\\ude00\"]]}"));
    assert_eq!(lines, vec![format!("{:?}", "\u{1f600}")]);
}

#[test]
fn invalid_utf8_body_is_fatal() {
    let mut body = b"{\"data\":[[\"".to_vec();
    body.push(0xff);
    body.extend_from_slice(b"\"]]}");
    let r = process_response(200, &body);
    assert_eq!(r, Err(QueryError::BadUtf8));
    // The status is checked first.
    let r = process_response(404, &body);
    assert_eq!(r, Err(QueryError::BadStatus(404)));
}

#[test]
fn parser_agrees_with_a_reference_reading() {
    let body = "{\"columns\":[\"r.title\"],\"data\":[[\"One\"],[\"Two\",\"2\"]]}";
    let t = parse_response(body.as_bytes()).unwrap();
    let v: serde_json::Value = serde_json::from_str(body).unwrap();
    let cols: Vec<String> = v.get("columns").unwrap().as_array().unwrap().iter().map(|c| {
        c.as_str().unwrap().to_string()
    }).collect();
    let got_cols: Vec<String> = t.columns.iter().map(|c| {
        String::from_utf8(c.clone()).unwrap()
    }).collect();
    assert_eq!(got_cols, cols);
    let rows = v.get("data").unwrap().as_array().unwrap();
    assert_eq!(t.data.len(), rows.len());
    for (row, vrow) in t.data.iter().zip(rows.iter()) {
        let want: Vec<String> = vrow.as_array().unwrap().iter().map(|c| {
            c.as_str().unwrap().to_string()
        }).collect();
        let got: Vec<String> = row.iter().map(|c| String::from_utf8(c.clone()).unwrap()).collect();
        assert_eq!(got, want);
    }
}

#[test]
fn render_uses_only_the_first_cell() {
    let t = Table {
        columns: vec![b"r.title".to_vec()],
        data: vec![vec![b"Inception".to_vec(), b"2010".to_vec()]],
    };
    let lines = lines_of(render_titles(&t));
    assert_eq!(lines, vec!["\"Inception\"".to_string()]);
}

#[test]
fn quoting_wraps_and_escapes() {
    assert_eq!(quote_cell(b"plain"), b"\"plain\"".to_vec());
    assert_eq!(String::from_utf8(quote_cell(b"a\"b\\c")).unwrap(), format!("{:?}", "a\"b\\c"));
    assert_eq!(String::from_utf8(quote_cell(b"\x01\x1f")).unwrap(), format!("{:?}", "\u{1}\u{1f}"));
    assert_eq!(String::from_utf8(quote_cell(b"\x7f")).unwrap(), format!("{:?}", "\u{7f}"));
}

#[test]
fn unicode_titles_pass_through() {
    let body = "{\"data\":[[\"Caf\u{e9} du Cin\u{e9}ma\"]]}";
    let lines = lines_of(process_response(200, body.as_bytes()));
    assert_eq!(lines, vec![format!("{:?}", "Caf\u{e9} du Cin\u{e9}ma")]);
}

#[test]
fn repeated_unknown_members_are_allowed() {
    let body = "{\"x\": 1, \"x\": [\"a\", [2, {\"y\": \"]}\"}]], \"data\": [[\"T\"]]}";
    let lines = lines_of(process_response(200, body.as_bytes()));
    assert_eq!(lines, vec!["\"T\"".to_string()]);
}
