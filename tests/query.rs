use nodealloc::cell::{calendar_date, Cell, Date, Kind, Moment, Real};
use nodealloc::error::{Expected, QueryError};
use nodealloc::header::{expect_header, validate_header, ColumnBinding};
use nodealloc::report::{build_report, run_query, NodeBinding, Schema};
use nodealloc::row::{date_of_row, number_at, text_at, DateColumns};
use nodealloc::select::select_row;

fn text(s: &str) -> Cell {
    Cell::Text(s.to_string())
}

fn day(year: i32, month: u32, day: u32) -> Date {
    Date { year, month, day }
}

fn stamp(d: Date) -> Cell {
    Cell::DateTime(Moment { date: d, hour: 0, minute: 0, second: 0 })
}

fn binding(t: &str, index: usize) -> ColumnBinding {
    ColumnBinding { text: t.to_string(), index }
}

fn node(name: &str, header: &str, index: usize) -> NodeBinding {
    NodeBinding { name: name.to_string(), column: binding(header, index) }
}

fn header() -> Vec<Cell> {
    vec![text("Date"), text("A"), text("B"), text("C"), text("D:node01"), text("E:node02"), text("F:node03")]
}

fn schema() -> Schema {
    Schema {
        columns: vec![binding("Date", 0)],
        dates: DateColumns::Single { index: 0 },
        nodes: vec![node("node01", "D:node01", 4), node("node02", "E:node02", 5), node("node03", "F:node03", 6)],
    }
}

fn data_row(d: Date, users: [&str; 3]) -> Vec<Cell> {
    let mut row = vec![stamp(d), Cell::Empty, Cell::Empty, Cell::Empty];
    for u in users {
        row.push(if u.is_empty() { Cell::Empty } else { text(u) });
    }
    row
}

fn lines(v: &[(String, String)]) -> Vec<String> {
    v.iter().map(|(n, u)| format!("{n}: {u}")).collect()
}

#[test]
fn scenario_single_row_report() {
    let rows = vec![data_row(day(2024, 3, 1), ["alice", "bob", ""])];
    let r = run_query(&header(), &rows, &schema(), day(2024, 3, 1)).unwrap();
    assert_eq!(lines(&r), vec!["node01: alice", "node02: bob", "node03: unassigned"]);
}

#[test]
fn scenario_two_rows_same_date() {
    let rows = vec![
        data_row(day(2024, 2, 29), ["x", "y", "z"]),
        data_row(day(2024, 3, 1), ["alice", "bob", ""]),
        data_row(day(2024, 3, 1), ["carol", "", "dave"]),
    ];
    let r = run_query(&header(), &rows, &schema(), day(2024, 3, 1));
    assert_eq!(r, Err(QueryError::MultipleMatches { target: day(2024, 3, 1), first: 1, second: 2 }));
}

#[test]
fn scenario_no_row_for_date() {
    let rows = vec![data_row(day(2024, 3, 1), ["alice", "bob", ""])];
    let r = run_query(&header(), &rows, &schema(), day(2024, 3, 2));
    assert_eq!(r, Err(QueryError::NoMatch { target: day(2024, 3, 2) }));
}

#[test]
fn scenario_wrong_node_header() {
    let mut h = header();
    h[4] = text("wrongname");
    // the first data row has no readable date: a scan would fail differently
    let rows = vec![vec![text("not a date")], data_row(day(2024, 3, 1), ["alice", "bob", ""])];
    let r = run_query(&h, &rows, &schema(), day(2024, 3, 1));
    assert_eq!(
        r,
        Err(QueryError::HeaderMismatch {
            index: 4,
            expected: "D:node01".to_string(),
            actual: "wrongname".to_string()
        })
    );
}

#[test]
fn query_twice_gives_same_answer() {
    let rows = vec![data_row(day(2024, 3, 1), ["alice", "bob", ""]), data_row(day(2024, 3, 4), ["bob", "", "alice"])];
    let a = run_query(&header(), &rows, &schema(), day(2024, 3, 4));
    let b = run_query(&header(), &rows, &schema(), day(2024, 3, 4));
    assert_eq!(a, b);
    assert_eq!(lines(&a.unwrap()), vec!["node01: bob", "node02: unassigned", "node03: alice"]);
}

#[test]
fn display_of_every_kind() {
    assert_eq!(Cell::Bool(true).as_display_string(), "true");
    assert_eq!(Cell::Bool(false).as_display_string(), "false");
    assert_eq!(Cell::Int(-42).as_display_string(), "-42");
    assert_eq!(Cell::Int(1234567).as_display_string(), "1234567");
    assert_eq!(Cell::Float(Real { text: "2.5".to_string(), whole: 2 }).as_display_string(), "2.5");
    let m = Moment { date: day(2024, 3, 1), hour: 9, minute: 5, second: 7 };
    assert_eq!(Cell::DateTime(m).as_display_string(), "2024-03-01 09:05:07");
    let early = Moment { date: day(812, 1, 2), hour: 23, minute: 59, second: 0 };
    assert_eq!(Cell::DateTime(early).as_display_string(), "0812-01-02 23:59:00");
    assert_eq!(text("alice").as_display_string(), "alice");
    assert_eq!(Cell::Empty.as_display_string(), "");
    assert_eq!(Cell::Error("#DIV/0!".to_string()).as_display_string(), "#ERROR: #DIV/0!");
}

#[test]
fn display_is_a_function_of_the_cell() {
    let c = Cell::Int(7);
    assert_eq!(c.as_display_string(), c.clone().as_display_string());
}

#[test]
fn integer_coercion() {
    assert_eq!(Cell::Int(12).as_integer(), Ok(12));
    assert_eq!(Cell::Float(Real { text: "-3.9".to_string(), whole: -3 }).as_integer(), Ok(-3));
    assert_eq!(text("12").as_integer(), Err(Kind::Text));
    assert_eq!(Cell::Empty.as_integer(), Err(Kind::Empty));
}

#[test]
fn text_coercion() {
    assert_eq!(text("Date").as_text(), Ok("Date".to_string()));
    assert_eq!(Cell::Int(1).as_text(), Err(Kind::Int));
    assert_eq!(Cell::Bool(true).kind(), Kind::Bool);
}

#[test]
fn date_coercion() {
    assert_eq!(stamp(day(2024, 2, 29)).as_date(), Ok(day(2024, 2, 29)));
    assert_eq!(stamp(day(2023, 2, 29)).as_date(), Err(Kind::DateTime));
    assert_eq!(Cell::Int(45352).as_date(), Err(Kind::Int));
}

#[test]
fn calendar_dates() {
    assert_eq!(calendar_date(2024, 2, 29), Some(day(2024, 2, 29)));
    assert_eq!(calendar_date(2000, 2, 29), Some(day(2000, 2, 29)));
    assert_eq!(calendar_date(1900, 2, 29), None);
    assert_eq!(calendar_date(2024, 4, 31), None);
    assert_eq!(calendar_date(2024, 13, 1), None);
    assert_eq!(calendar_date(2024, 1, 0), None);
    assert_eq!(calendar_date(400000, 1, 1), None);
    assert_eq!(calendar_date(-4, 2, 29), Some(day(-4, 2, 29)));
}

#[test]
fn row_accessors() {
    let row = vec![text("x"), Cell::Int(3)];
    assert_eq!(text_at(&row, 0), Ok("x".to_string()));
    assert_eq!(text_at(&row, 1), Err(QueryError::TypeMismatch { expected: Expected::Text, actual: Kind::Int, index: 1 }));
    assert_eq!(text_at(&row, 2), Err(QueryError::MissingColumn { index: 2 }));
    assert_eq!(number_at(&row, 1), Ok(3));
    assert_eq!(number_at(&row, 0), Err(QueryError::TypeMismatch { expected: Expected::Number, actual: Kind::Text, index: 0 }));
}

#[test]
fn split_date_columns() {
    let cols = DateColumns::Split { day: 0, month: 1, year: 2 };
    let row = vec![Cell::Int(1), Cell::Float(Real { text: "3".to_string(), whole: 3 }), Cell::Int(2024)];
    assert_eq!(date_of_row(&row, cols), Ok(day(2024, 3, 1)));
    let bad = vec![Cell::Int(31), Cell::Int(4), Cell::Int(2024)];
    assert_eq!(date_of_row(&bad, cols), Err(QueryError::TypeMismatch { expected: Expected::Date, actual: Kind::Int, index: 0 }));
    let short = vec![Cell::Int(1), Cell::Int(3)];
    assert_eq!(date_of_row(&short, cols), Err(QueryError::MissingColumn { index: 2 }));
    let rows = vec![bad.clone(), row.clone()];
    assert_eq!(select_row(&rows, cols, day(2024, 3, 1)), Err(QueryError::TypeMismatch { expected: Expected::Date, actual: Kind::Int, index: 0 }));
    assert_eq!(select_row(&vec![row.clone()], cols, day(2024, 3, 1)), Ok(0));
}

#[test]
fn header_validation_errors() {
    let h = header();
    assert_eq!(validate_header(&h, &vec![binding("Date", 0), binding("D:node01", 4)]), Ok(()));
    assert_eq!(
        validate_header(&h, &vec![binding("Date", 0), binding("date", 4), binding("x", 9)]),
        Err(QueryError::HeaderMismatch { index: 4, expected: "date".to_string(), actual: "D:node01".to_string() })
    );
    assert_eq!(validate_header(&h, &vec![binding("Date", 9)]), Err(QueryError::MissingColumn { index: 9 }));
    let numeric = vec![Cell::Int(5)];
    assert_eq!(
        expect_header(&numeric, 0, &"Date".to_string()),
        Err(QueryError::TypeMismatch { expected: Expected::Text, actual: Kind::Int, index: 0 })
    );
    assert_eq!(validate_header(&h, &vec![]), Ok(()));
}

#[test]
fn changed_expected_text_blames_its_column() {
    let h = header();
    let mut b = vec![binding("Date", 0), binding("B", 2), binding("F:node03", 6)];
    assert_eq!(validate_header(&h, &b), Ok(()));
    b[2] = binding("node03", 6);
    assert_eq!(
        validate_header(&h, &b),
        Err(QueryError::HeaderMismatch { index: 6, expected: "node03".to_string(), actual: "F:node03".to_string() })
    );
}

#[test]
fn selection_outcomes() {
    let cols = DateColumns::Single { index: 0 };
    let rows = vec![
        data_row(day(2024, 3, 1), ["a", "b", "c"]),
        data_row(day(2024, 3, 2), ["a", "b", "c"]),
        data_row(day(2024, 3, 3), ["a", "b", "c"]),
    ];
    assert_eq!(select_row(&rows, cols, day(2024, 3, 2)), Ok(1));
    assert_eq!(select_row(&rows, cols, day(2025, 1, 1)), Err(QueryError::NoMatch { target: day(2025, 1, 1) }));
    assert_eq!(select_row(&vec![], cols, day(2025, 1, 1)), Err(QueryError::NoMatch { target: day(2025, 1, 1) }));
    let mut broken = rows.clone();
    broken.push(vec![Cell::Empty]);
    assert_eq!(
        select_row(&broken, cols, day(2024, 3, 2)),
        Err(QueryError::TypeMismatch { expected: Expected::Date, actual: Kind::Empty, index: 0 })
    );
    let mut twice = rows.clone();
    twice.push(data_row(day(2024, 3, 2), ["x", "y", "z"]));
    assert_eq!(
        select_row(&twice, cols, day(2024, 3, 2)),
        Err(QueryError::MultipleMatches { target: day(2024, 3, 2), first: 1, second: 3 })
    );
}

#[test]
fn report_follows_node_order() {
    let h = header();
    let row = data_row(day(2024, 3, 1), ["alice", "bob", "carol"]);
    let nodes = vec![node("node03", "F:node03", 6), node("node01", "D:node01", 4), node("node02", "E:node02", 5)];
    let r = build_report(&row, &nodes, &h).unwrap();
    assert_eq!(lines(&r), vec!["node03: carol", "node01: alice", "node02: bob"]);
    let short = vec![stamp(day(2024, 3, 1))];
    assert_eq!(build_report(&short, &nodes, &h), Err(QueryError::MissingColumn { index: 6 }));
    let other = vec![node("node01", "E:node02", 4)];
    assert_eq!(
        build_report(&row, &other, &h),
        Err(QueryError::HeaderMismatch { index: 4, expected: "E:node02".to_string(), actual: "D:node01".to_string() })
    );
}

#[test]
fn report_renders_non_text_assignees() {
    let h = header();
    let mut row = data_row(day(2024, 3, 1), ["", "", ""]);
    row[4] = Cell::Int(17);
    row[5] = Cell::Bool(false);
    row[6] = Cell::Error("#N/A".to_string());
    let r = build_report(&row, &schema().nodes, &h).unwrap();
    assert_eq!(lines(&r), vec!["node01: 17", "node02: false", "node03: #ERROR: #N/A"]);
}

#[test]
fn moment_padding_after_sign() {
    let m = Moment { date: day(-5, 12, 31), hour: 0, minute: 7, second: 59 };
    assert_eq!(Cell::DateTime(m).as_display_string(), "-005-12-31 00:07:59");
    let wide = Moment { date: day(12345, 10, 11), hour: 12, minute: 30, second: 0 };
    assert_eq!(Cell::DateTime(wide).as_display_string(), "12345-10-11 12:30:00");
}

#[test]
fn only_blank_cells_display_empty() {
    assert_eq!(Cell::Empty.as_display_string(), "");
    assert_eq!(text("").as_display_string(), "");
    assert_eq!(Cell::Int(0).as_display_string(), "0");
    assert_eq!(Cell::Error(String::new()).as_display_string(), "#ERROR: ");
    assert_eq!(Cell::Float(Real { text: "0".to_string(), whole: 0 }).as_display_string(), "0");
}

#[test]
fn selection_ignores_row_order() {
    let cols = DateColumns::Single { index: 0 };
    let rows = vec![
        data_row(day(2024, 3, 1), ["a", "b", "c"]),
        data_row(day(2024, 3, 2), ["d", "e", "f"]),
        data_row(day(2024, 3, 3), ["g", "h", "i"]),
    ];
    let reordered = vec![rows[2].clone(), rows[0].clone(), rows[1].clone()];
    let k = select_row(&rows, cols, day(2024, 3, 2)).unwrap();
    let j = select_row(&reordered, cols, day(2024, 3, 2)).unwrap();
    assert_eq!((k, j), (1, 2));
    assert_eq!(rows[k], reordered[j]);
    assert_eq!(select_row(&reordered, cols, day(2024, 3, 9)), Err(QueryError::NoMatch { target: day(2024, 3, 9) }));
}
