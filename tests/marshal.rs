use rsqlite::{classify, encode_cell, encode_row, encode_rows, marshal, Cell, RowRecord};

fn names(v: &[&str]) -> Vec<String> {
    v.iter().map(|s| s.to_string()).collect()
}

fn real_cell(x: f64) -> Cell {
    Cell::Real(x.to_bits(), serde_json::to_string(&x).unwrap())
}

#[test]
fn row_from_cells_keeps_supported_cells() {
    let cols = names(&["a", "b", "c", "d"]);
    let cells = vec![
        Cell::Integer(1),
        real_cell(2.5),
        Cell::Text(String::from("x")),
        Cell::Null,
    ];
    let row = RowRecord::from_cells(&cols, &cells);
    let got: Vec<(String, Cell)> = row.entries().clone();
    assert_eq!(
        got,
        vec![
            (String::from("a"), Cell::Integer(1)),
            (String::from("b"), real_cell(2.5)),
            (String::from("c"), Cell::Text(String::from("x"))),
            (String::from("d"), Cell::Null),
        ]
    );
    assert_eq!(encode_row(&row), "{\"a\":1,\"b\":2.5,\"c\":\"x\",\"d\":null}");
}

#[test]
fn row_from_cells_drops_blob() {
    let cols = names(&["a", "blob", "c"]);
    let cells = vec![Cell::Integer(4), Cell::Blob(vec![1, 2, 3]), Cell::Text(String::from("z"))];
    let row = RowRecord::from_cells(&cols, &cells);
    assert_eq!(row.entries().len(), 2);
    assert!(row.entries().iter().all(|(k, _)| k != "blob"));
    assert_eq!(encode_row(&row), "{\"a\":4,\"c\":\"z\"}");
}

#[test]
fn only_blob_row_is_empty_object() {
    let row = RowRecord::from_cells(&names(&["b"]), &vec![Cell::Blob(vec![])]);
    assert_eq!(encode_row(&row), "{}");
}

#[test]
fn duplicate_names_take_last_supported_value() {
    let cols = names(&["a", "b", "a", "a"]);
    let cells = vec![Cell::Integer(1), Cell::Integer(2), Cell::Integer(3), Cell::Blob(vec![9])];
    let row = RowRecord::from_cells(&cols, &cells);
    assert_eq!(encode_row(&row), "{\"a\":3,\"b\":2}");
}

#[test]
fn classify_separates_blobs() {
    assert_eq!(classify(&Cell::Blob(vec![0])), None);
    assert_eq!(classify(&Cell::Null), Some(Cell::Null));
    assert_eq!(classify(&Cell::Text(String::from("t"))), Some(Cell::Text(String::from("t"))));
}

#[test]
fn cells_encode_exactly() {
    assert_eq!(encode_cell(&Cell::Integer(0)), "0");
    assert_eq!(encode_cell(&Cell::Integer(-9223372036854775808)), "-9223372036854775808");
    assert_eq!(encode_cell(&Cell::Integer(1234567890)), "1234567890");
    assert_eq!(encode_cell(&Cell::Null), "null");
    assert_eq!(encode_cell(&real_cell(0.1)), "0.1");
    assert_eq!(encode_cell(&Cell::Text(String::from("a\nb\\"))), "\"a\\nb\\\\\"");
    assert_eq!(encode_cell(&Cell::Text(String::from("\u{1}\u{1f}\u{7f}/"))), "\"\\u0001\\u001f\u{7f}/\"");
}

#[test]
fn result_set_round_trips_through_json() {
    let cols = names(&["id", "score", "name", "note"]);
    let rows_cells = vec![
        vec![Cell::Integer(7), real_cell(-1.25), Cell::Text(String::from("é\"q")), Cell::Null],
        vec![Cell::Integer(-3), real_cell(1e300), Cell::Text(String::new()), Cell::Integer(0)],
    ];
    let rows: Vec<RowRecord> = rows_cells.iter().map(|c| RowRecord::from_cells(&cols, c)).collect();
    let text = encode_rows(&rows);
    let parsed: serde_json::Value = serde_json::from_str(&text).unwrap();
    let arr = parsed.as_array().unwrap();
    assert_eq!(arr.len(), rows.len());
    for (row, obj) in rows.iter().zip(arr.iter()) {
        let obj = obj.as_object().unwrap();
        assert_eq!(obj.len(), row.entries().len());
        for (k, v) in row.entries().iter() {
            let j = &obj[k.as_str()];
            match v {
                Cell::Null => assert!(j.is_null()),
                Cell::Integer(i) => assert_eq!(j.as_i64(), Some(*i)),
                Cell::Real(bits, _) => assert_eq!(j.as_f64().map(|f| f.to_bits()), Some(*bits)),
                Cell::Text(s) => assert_eq!(j.as_str(), Some(s.as_str())),
                Cell::Blob(_) => panic!("blob in a row object"),
            }
        }
    }
}

#[test]
fn no_rows_encode_as_empty_array() {
    assert_eq!(encode_rows(&Vec::new()), "[]");
}

#[test]
fn marshal_writes_every_row_in_order() {
    let cols = names(&["a", "b", "c"]);
    let rows = vec![
        vec![Cell::Integer(1), real_cell(2.5), Cell::Text(String::from("x"))],
        vec![Cell::Null, Cell::Blob(vec![7]), Cell::Integer(-4)],
        vec![Cell::Blob(vec![]), Cell::Blob(vec![1]), Cell::Blob(vec![2])],
    ];
    assert_eq!(
        marshal(&cols, &rows),
        "[{\"a\":1,\"b\":2.5,\"c\":\"x\"},{\"a\":null,\"c\":-4},{}]"
    );
    assert_eq!(marshal(&cols, &Vec::new()), "[]");
}
