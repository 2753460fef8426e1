use rsheet::cell::Cell;
use rsheet::cell_value::{CellArgument, CellValue};
use rsheet::eval::{parse_scalar_variable_with_deps, parse_variables_with_deps, read_range};
use rsheet::admission::admits;
use rsheet::formula::{evaluate, EvaluationError};
use rsheet::identifier::CellIdentifier;
use rsheet::server::{handle_message, parse_command, Command, Reply};
use rsheet::spreadsheet::Spreadsheet;

fn id(col: u32, row: u32) -> CellIdentifier {
    CellIdentifier { col, row }
}

fn integer(value: &CellValue) -> i64 {
    match value {
        CellValue::Integer(i) => *i,
        other => panic!("not an integer: {:?}", other),
    }
}

fn integers(values: &Vec<CellValue>) -> Vec<i64> {
    let mut out = Vec::new();
    for value in values {
        out.push(integer(value));
    }
    out
}

fn set(sheet: &mut Spreadsheet, name: &str, expr: &str) {
    let cell = CellIdentifier::parse(name).unwrap();
    sheet.set_expression(cell, expr.to_string());
    sheet.update_dependencies(cell);
}

fn get(sheet: &Spreadsheet, name: &str) -> CellValue {
    sheet.get_value(&CellIdentifier::parse(name).unwrap())
}

#[test]
fn identifiers_parse() {
    assert_eq!(CellIdentifier::parse("A1"), Some(id(0, 0)));
    assert_eq!(CellIdentifier::parse("B7"), Some(id(1, 6)));
    assert_eq!(CellIdentifier::parse("Z10"), Some(id(25, 9)));
    assert_eq!(CellIdentifier::parse("AA1"), Some(id(26, 0)));
    assert_eq!(CellIdentifier::parse("AAA3"), Some(id(702, 2)));
    assert_eq!(CellIdentifier::parse("ZZZZZZ1"), Some(id(321272405, 0)));
    assert_eq!(CellIdentifier::parse("AAAAAAA1"), Some(id(321272406, 0)));
    assert_eq!(CellIdentifier::parse("MWLQKWU1"), Some(id(4294967294, 0)));
    assert_eq!(CellIdentifier::parse("A+5"), Some(id(0, 4)));
    assert_eq!(CellIdentifier::parse("A4294967295"), Some(id(0, 4294967294)));
}

#[test]
fn identifiers_that_are_none() {
    assert_eq!(CellIdentifier::parse(""), None);
    assert_eq!(CellIdentifier::parse("A"), None);
    assert_eq!(CellIdentifier::parse("1"), None);
    assert_eq!(CellIdentifier::parse("A0"), None);
    assert_eq!(CellIdentifier::parse("a1"), None);
    assert_eq!(CellIdentifier::parse("A1B"), None);
    assert_eq!(CellIdentifier::parse("A-1"), None);
    assert_eq!(CellIdentifier::parse("A 1"), None);
    assert_eq!(CellIdentifier::parse("A4294967296"), None);
    assert_eq!(CellIdentifier::parse("MWLQKWV1"), None);
    assert_eq!(CellIdentifier::parse("ZZZZZZZ1"), None);
    assert_eq!(CellIdentifier::parse("AAAAAAAA1"), None);
    assert_eq!(CellIdentifier::parse("ZZZZZZZZZZZZ1"), None);
}

#[test]
fn identifiers_are_written_as_letters_and_row() {
    assert_eq!(id(0, 0).to_text(), "A1");
    assert_eq!(id(25, 9).to_text(), "Z10");
    assert_eq!(id(26, 0).to_text(), "AA1");
    assert_eq!(id(702, 41).to_text(), "AAA42");
    assert_eq!(CellIdentifier::parse(&id(18277, 99).to_text()), Some(id(18277, 99)));
}

#[test]
fn keys_tell_cells_apart() {
    assert_eq!(id(0, 0).key(), 0);
    assert_eq!(id(0, 1).key(), 1);
    assert_eq!(id(1, 0).key(), 4294967296);
    assert_eq!(id(u32::MAX, u32::MAX).key(), u64::MAX);
}

#[test]
fn an_absent_cell_reads_as_empty() {
    let sheet = Spreadsheet::new();
    assert!(matches!(sheet.get_value(&id(3, 4)), CellValue::Empty));
    assert!(!sheet.cell_exists(&id(3, 4)));
    assert!(sheet.get(&id(3, 4)).is_none());
}

#[test]
fn a_stored_cell_is_read_back() {
    let mut sheet = Spreadsheet::new();
    sheet.set(id(0, 0), Cell::with_timestamp(None, CellValue::Integer(7), 3));
    assert!(sheet.cell_exists(&id(0, 0)));
    assert_eq!(integer(&sheet.get_value(&id(0, 0))), 7);
    let stored = sheet.get(&id(0, 0)).unwrap();
    assert_eq!(*stored.timestamp(), 3);
    assert!(stored.expr().is_none());
    assert_eq!(integer(stored.value()), 7);
}

#[test]
fn cells_keep_what_they_are_made_of() {
    let literal = Cell::new(&CellValue::Integer(5));
    assert_eq!(integer(literal.value()), 5);
    assert!(literal.expr().is_none());
    let computed = Cell::new_with_expr("A1+1".to_string(), CellValue::Integer(2));
    assert_eq!(integer(computed.value()), 2);
    assert_eq!(computed.expr().unwrap(), "A1+1");
    let copy = computed.duplicate();
    assert_eq!(copy.expr().unwrap(), "A1+1");
    assert_eq!(*copy.timestamp(), *computed.timestamp());
}

#[test]
fn the_concrete_scenario() {
    let mut sheet = Spreadsheet::new();
    set(&mut sheet, "A1", "1");
    assert_eq!(integer(&get(&sheet, "A1")), 1);
    set(&mut sheet, "B1", "A1+1");
    assert_eq!(integer(&get(&sheet, "B1")), 2);
    set(&mut sheet, "A1", "10");
    assert_eq!(integer(&get(&sheet, "B1")), 11);
}

#[test]
fn a_change_runs_down_a_chain() {
    let mut sheet = Spreadsheet::new();
    set(&mut sheet, "A1", "1");
    set(&mut sheet, "B1", "A1 * 2");
    set(&mut sheet, "C1", "B1 + 3");
    assert_eq!(integer(&get(&sheet, "C1")), 5);
    let a1 = id(0, 0);
    sheet.set_expression(a1, "20".to_string());
    let recomputed = sheet.propagate_from(a1);
    assert_eq!(recomputed, vec![id(1, 0), id(2, 0)]);
    assert_eq!(integer(&get(&sheet, "B1")), 40);
    assert_eq!(integer(&get(&sheet, "C1")), 43);
}

#[test]
fn a_diamond_recomputes_its_tip_once_with_both_inputs() {
    let mut sheet = Spreadsheet::new();
    set(&mut sheet, "A1", "1");
    set(&mut sheet, "B1", "A1 + 1");
    set(&mut sheet, "C1", "A1 * 10");
    set(&mut sheet, "D1", "B1 + C1");
    assert_eq!(integer(&get(&sheet, "D1")), 12);
    let a1 = id(0, 0);
    sheet.set_expression(a1, "5".to_string());
    let recomputed = sheet.propagate_from(a1);
    assert_eq!(recomputed, vec![id(1, 0), id(2, 0), id(3, 0)]);
    assert_eq!(integer(&get(&sheet, "B1")), 6);
    assert_eq!(integer(&get(&sheet, "C1")), 50);
    assert_eq!(integer(&get(&sheet, "D1")), 56);
}

#[test]
fn a_cycle_recomputes_each_cell_once() {
    let mut sheet = Spreadsheet::new();
    set(&mut sheet, "A1", "B1 + 1");
    set(&mut sheet, "B1", "A1 + 1");
    let recomputed = sheet.propagate_from(id(0, 0));
    assert_eq!(recomputed, vec![id(1, 0), id(0, 0)]);
}

#[test]
fn errors_are_forwarded_and_lifted() {
    let mut sheet = Spreadsheet::new();
    set(&mut sheet, "A1", "1/0");
    assert!(get(&sheet, "A1").is_error());
    assert!(!get(&sheet, "A1").is_dependency_error());
    set(&mut sheet, "B1", "A1");
    assert!(get(&sheet, "B1").is_error());
    assert!(get(&sheet, "B1").is_dependency_error());
    set(&mut sheet, "A1", "5");
    assert_eq!(integer(&get(&sheet, "B1")), 5);
}

#[test]
fn an_older_result_never_replaces_a_newer_write() {
    let mut sheet = Spreadsheet::new();
    let d = id(3, 0);
    sheet.set(d, Cell::with_timestamp(Some("A1".to_string()), CellValue::Integer(1), 10));
    let stale = Cell::with_timestamp(Some("A1".to_string()), CellValue::Integer(2), 9);
    assert!(!sheet.commit_candidate(d, stale));
    assert_eq!(integer(&sheet.get_value(&d)), 1);
    let same_age = Cell::with_timestamp(Some("A1".to_string()), CellValue::Integer(3), 10);
    assert!(!sheet.commit_candidate(d, same_age));
    assert_eq!(integer(&sheet.get_value(&d)), 1);
    let fresh = Cell::with_timestamp(Some("A1".to_string()), CellValue::Integer(4), 11);
    assert!(sheet.commit_candidate(d, fresh));
    assert_eq!(integer(&sheet.get_value(&d)), 4);
    assert_eq!(*sheet.get(&d).unwrap().timestamp(), 11);
    let first = Cell::with_timestamp(None, CellValue::Integer(5), 0);
    assert!(sheet.commit_candidate(id(9, 9), first));
}

#[test]
fn the_clock_gives_out_later_and_later_timestamps() {
    let mut sheet = Spreadsheet::new();
    assert_eq!(sheet.advance_clock(100), 100);
    assert_eq!(sheet.advance_clock(100), 101);
    assert_eq!(sheet.advance_clock(50), 102);
    assert_eq!(sheet.advance_clock(200), 200);
    assert_eq!(sheet.advance_clock(u64::MAX), u64::MAX);
    assert_eq!(sheet.advance_clock(7), u64::MAX);
    let mut other = Spreadsheet::new();
    let first = other.now();
    let second = other.now();
    assert!(second > first);
}

#[test]
fn ranges_resolve_in_row_and_column_order() {
    let mut sheet = Spreadsheet::new();
    set(&mut sheet, "A1", "1");
    set(&mut sheet, "A2", "2");
    set(&mut sheet, "A3", "3");
    set(&mut sheet, "B1", "4");
    set(&mut sheet, "C1", "5");
    set(&mut sheet, "B2", "6");

    let (variables, cells) = parse_variables_with_deps(&sheet, vec!["A1_A3".to_string()]);
    assert_eq!(variables.len(), 1);
    assert_eq!(variables[0].0, "A1_A3");
    match &variables[0].1 {
        CellArgument::Vector(values) => assert_eq!(integers(values), vec![1, 2, 3]),
        other => panic!("not a vector: {:?}", other),
    }
    assert_eq!(cells, vec![id(0, 0), id(0, 1), id(0, 2)]);

    let (variables, cells) = parse_variables_with_deps(&sheet, vec!["A1_C1".to_string()]);
    match &variables[0].1 {
        CellArgument::Vector(values) => assert_eq!(integers(values), vec![1, 4, 5]),
        other => panic!("not a vector: {:?}", other),
    }
    assert_eq!(cells, vec![id(0, 0), id(1, 0), id(2, 0)]);

    let (variables, cells) = parse_variables_with_deps(&sheet, vec!["A1_B2".to_string()]);
    match &variables[0].1 {
        CellArgument::Matrix(columns) => {
            assert_eq!(columns.len(), 2);
            assert_eq!(integers(&columns[0]), vec![1, 2]);
            assert_eq!(integers(&columns[1]), vec![4, 6]);
        }
        other => panic!("not a matrix: {:?}", other),
    }
    assert_eq!(cells, vec![id(0, 0), id(0, 1), id(1, 0), id(1, 1)]);
}

#[test]
fn a_range_reads_cells_that_hold_nothing() {
    let sheet = Spreadsheet::new();
    let mut cells = Vec::new();
    match read_range(&sheet, id(0, 0), id(0, 1), &mut cells) {
        CellArgument::Vector(values) => {
            assert_eq!(values.len(), 2);
            assert!(matches!(values[0], CellValue::Empty));
            assert!(matches!(values[1], CellValue::Empty));
        }
        other => panic!("not a vector: {:?}", other),
    }
    assert_eq!(cells, vec![id(0, 0), id(0, 1)]);
}

#[test]
fn a_range_that_runs_backwards_is_empty() {
    let sheet = Spreadsheet::new();
    let mut cells = Vec::new();
    match read_range(&sheet, id(0, 5), id(0, 1), &mut cells) {
        CellArgument::Vector(values) => assert!(values.is_empty()),
        other => panic!("not a vector: {:?}", other),
    }
    assert!(cells.is_empty());
}

#[test]
fn names_that_are_no_addresses_are_passed_over() {
    let mut sheet = Spreadsheet::new();
    set(&mut sheet, "A1", "1");
    let names = vec![
        "nonsense".to_string(),
        "A1".to_string(),
        "A0_A3".to_string(),
        "A1_".to_string(),
        "A1".to_string(),
    ];
    let (variables, cells) = parse_variables_with_deps(&sheet, names);
    assert_eq!(variables.len(), 2);
    assert_eq!(variables[0].0, "A1");
    assert_eq!(variables[1].0, "A1");
    assert_eq!(cells, vec![id(0, 0)]);
}

#[test]
fn scalars_and_sums_evaluate() {
    let variables = vec![
        ("A1".to_string(), CellArgument::Scalar(CellValue::Integer(5))),
        ("A2".to_string(), CellArgument::Scalar(CellValue::Integer(10))),
        (
            "A3_A4".to_string(),
            CellArgument::Vector(vec![CellValue::Integer(7), CellValue::Integer(9)]),
        ),
    ];
    match evaluate("A1 + A2 * sum(A3_A4)", &variables) {
        Ok(value) => assert_eq!(integer(&value), 165),
        Err(error) => panic!("refused: {:?}", error),
    }
    let matrix = vec![(
        "A1_B2".to_string(),
        CellArgument::Matrix(vec![
            vec![CellValue::Integer(1), CellValue::Integer(2)],
            vec![CellValue::Integer(3), CellValue::Integer(4)],
        ]),
    )];
    match evaluate("sum(A1_B2)", &matrix) {
        Ok(value) => assert_eq!(integer(&value), 10),
        Err(error) => panic!("refused: {:?}", error),
    }
    match evaluate("\"a\" + \"b\"", &Vec::new()) {
        Ok(CellValue::Text(text)) => assert_eq!(text, "ab"),
        other => panic!("not a text: {:?}", other),
    }
    assert!(matches!(evaluate("()", &Vec::new()), Ok(CellValue::Empty)));
    assert!(matches!(evaluate("asdf", &Vec::new()), Ok(CellValue::Error(_))));
}

#[test]
fn an_argument_in_error_is_refused() {
    let scalar = vec![
        ("A1".to_string(), CellArgument::Scalar(CellValue::Integer(1))),
        ("A2".to_string(), CellArgument::Scalar(CellValue::Error("broken".to_string()))),
    ];
    assert!(evaluate("A1 + A2", &scalar).is_err());
    let vector = vec![(
        "A2_A3".to_string(),
        CellArgument::Vector(vec![CellValue::Integer(10), CellValue::Error("broken".to_string())]),
    )];
    assert!(evaluate("sum(A2_A3)", &vector).is_err());
    let matrix = vec![(
        "A2_B3".to_string(),
        CellArgument::Matrix(vec![
            vec![CellValue::Integer(10), CellValue::Error("broken".to_string())],
            vec![CellValue::Integer(20), CellValue::Integer(50)],
        ]),
    )];
    assert!(evaluate("sum(A2_B3)", &matrix).is_err());
    let replaced = vec![
        ("A1".to_string(), CellArgument::Scalar(CellValue::Error("broken".to_string()))),
        ("A1".to_string(), CellArgument::Scalar(CellValue::Integer(1))),
    ];
    match evaluate("A1", &replaced) {
        Ok(value) => assert_eq!(integer(&value), 1),
        Err(error) => panic!("refused: {:?}", error),
    }
}

#[test]
fn the_indices_mirror_each_other_after_every_set() {
    let mut sheet = Spreadsheet::new();
    let cells = [id(0, 0), id(1, 0), id(2, 0), id(3, 0), id(0, 1), id(0, 2)];
    let steps = [
        ("A1", "1"),
        ("B1", "A1 + 1"),
        ("C1", "A1 + B1"),
        ("D1", "sum(A1_A3) + C1"),
        ("C1", "D1"),
        ("B1", "7"),
        ("A1", "1/0"),
        ("D1", "A1"),
    ];
    for (name, expr) in steps {
        set(&mut sheet, name, expr);
        for a in cells {
            for b in cells {
                let reads = sheet.precedents_of(&a).contains(&b);
                let read_by = sheet.dependents_of(&b).contains(&a);
                assert_eq!(reads, read_by);
            }
        }
    }
    assert_eq!(sheet.precedents_of(&id(3, 0)), vec![id(0, 0)]);
    assert_eq!(sheet.dependents_of(&id(0, 0)), vec![id(3, 0)]);
    assert!(sheet.dependents_of(&id(0, 1)).is_empty());
    assert!(sheet.precedents_of(&id(1, 0)).is_empty());
}

#[test]
fn setting_the_same_formula_again_changes_only_the_timestamp() {
    let mut sheet = Spreadsheet::new();
    set(&mut sheet, "A1", "2");
    set(&mut sheet, "B1", "A1 * 3");
    let b1 = id(1, 0);
    let first = sheet.get(&b1).unwrap().duplicate();
    let precedents = sheet.precedents_of(&b1);
    let dependents = sheet.dependents_of(&id(0, 0));
    set(&mut sheet, "B1", "A1 * 3");
    let second = sheet.get(&b1).unwrap().duplicate();
    assert_eq!(integer(first.value()), 6);
    assert_eq!(integer(second.value()), 6);
    assert_eq!(first.expr(), second.expr());
    assert!(second.timestamp() > first.timestamp());
    assert_eq!(sheet.precedents_of(&b1), precedents);
    assert_eq!(sheet.dependents_of(&id(0, 0)), dependents);
}

#[test]
fn commands_are_read_from_messages() {
    match parse_command("get A1") {
        Some(Command::GetCell { cell_identifier }) => assert_eq!(cell_identifier, id(0, 0)),
        other => panic!("not a get: {:?}", other),
    }
    match parse_command("set B2 A1 + 1") {
        Some(Command::SetCell { cell_identifier, cell_expr }) => {
            assert_eq!(cell_identifier, id(1, 1));
            assert_eq!(cell_expr, "A1 + 1");
        }
        other => panic!("not a set: {:?}", other),
    }
    match parse_command("set B2 ") {
        Some(Command::SetCell { cell_expr, .. }) => assert_eq!(cell_expr, ""),
        other => panic!("not a set: {:?}", other),
    }
    assert!(parse_command("").is_none());
    assert!(parse_command("get").is_none());
    assert!(parse_command("get A1 B2").is_none());
    assert!(parse_command("get  A1").is_none());
    assert!(parse_command("set A1").is_none());
    assert!(parse_command("put A1 3").is_none());
    assert!(parse_command("get a1").is_none());
    assert!(parse_command("get AAAAAAAAAAAA1").is_none());
}

#[test]
fn messages_are_served() {
    let mut sheet = Spreadsheet::new();
    let handled = handle_message(&mut sheet, "set A1 4 + 5");
    assert!(handled.reply.is_none());
    assert_eq!(handled.update.unwrap().cell_id(), id(0, 0));

    let handled = handle_message(&mut sheet, "get A1");
    assert!(handled.update.is_none());
    match handled.reply {
        Some(Reply::Value(name, value)) => {
            assert_eq!(name, "A1");
            assert_eq!(integer(&value), 9);
        }
        other => panic!("not a value: {:?}", other),
    }

    let handled = handle_message(&mut sheet, "get Z9");
    match handled.reply {
        Some(Reply::Value(name, CellValue::Empty)) => assert_eq!(name, "Z9"),
        other => panic!("not empty: {:?}", other),
    }

    let handled = handle_message(&mut sheet, "fetch A1");
    assert!(handled.update.is_none());
    match handled.reply {
        Some(Reply::Error(message)) => {
            assert_eq!(message, "Invalid key provided: \"Error parsing request: fetch A1\"")
        }
        other => panic!("not an error: {:?}", other),
    }
}

#[test]
fn a_get_on_a_dependency_error_is_an_error_reply() {
    let mut sheet = Spreadsheet::new();
    handle_message(&mut sheet, "set A1 1/0");
    handle_message(&mut sheet, "set B1 A1");
    match handle_message(&mut sheet, "get B1").reply {
        Some(Reply::Error(message)) => assert_eq!(message, "CELL_DEPENDENCY_ERROR"),
        other => panic!("not an error reply: {:?}", other),
    }
    match handle_message(&mut sheet, "get A1").reply {
        Some(Reply::Value(name, CellValue::Error(_))) => assert_eq!(name, "A1"),
        other => panic!("not an error value: {:?}", other),
    }
}

fn text(value: &CellValue) -> String {
    match value {
        CellValue::Text(s) => s.clone(),
        other => panic!("not a text: {:?}", other),
    }
}

fn refused(outcome: &Result<CellValue, EvaluationError>) -> bool {
    match outcome {
        Ok(CellValue::Error(message)) => message == "FORMULA_NOT_ADMITTED",
        _ => false,
    }
}

fn vector(name: &str, numbers: &[i64]) -> Vec<(String, CellArgument)> {
    let mut items = Vec::new();
    for n in numbers {
        items.push(CellValue::Integer(*n));
    }
    vec![(name.to_string(), CellArgument::Vector(items))]
}

#[test]
fn a_column_of_seven_letters_is_served() {
    let mut sheet = Spreadsheet::new();
    match handle_message(&mut sheet, "get AAAAAAA1").reply {
        Some(Reply::Value(name, CellValue::Empty)) => assert_eq!(name, "AAAAAAA1"),
        other => panic!("not empty: {:?}", other),
    }
    let handled = handle_message(&mut sheet, "set AAAAAAA1 5");
    assert!(handled.reply.is_none());
    assert_eq!(handled.update.unwrap().cell_id(), id(321272406, 0));
    assert_eq!(integer(&sheet.get_value(&id(321272406, 0))), 5);
    set(&mut sheet, "A1", "AAAAAAA1 + 1");
    assert_eq!(integer(&get(&sheet, "A1")), 6);
    assert_eq!(sheet.precedents_of(&id(0, 0)), vec![id(321272406, 0)]);
    match handle_message(&mut sheet, "get MWLQKWU7").reply {
        Some(Reply::Value(name, CellValue::Empty)) => assert_eq!(name, "MWLQKWU7"),
        other => panic!("not empty: {:?}", other),
    }
}

#[test]
fn a_column_beyond_32_bits_is_no_command() {
    let mut sheet = Spreadsheet::new();
    for message in ["get MWLQKWV1", "set MWLQKWV1 5", "get AAAAAAAA1"] {
        let handled = handle_message(&mut sheet, message);
        assert!(handled.update.is_none());
        match handled.reply {
            Some(Reply::Error(text)) => assert_eq!(
                text,
                format!("Invalid key provided: {:?}", format!("Error parsing request: {}", message))
            ),
            other => panic!("not an error: {:?}", other),
        }
    }
}

#[test]
fn a_sum_that_leaves_64_bits_is_not_admitted() {
    let over = vector("A1_A2", &[i64::MAX, 1]);
    assert!(!admits("sum(A1_A2)", &over));
    assert!(refused(&evaluate("sum(A1_A2)", &over)));
    assert!(refused(&evaluate("1 + sum(A1_A2) * 2", &over)));
    let under = vector("A1_A2", &[i64::MIN, -1]);
    assert!(refused(&evaluate("sum(A1_A2)", &under)));
    let back = vector("A1_A3", &[i64::MAX, 1, -1]);
    assert!(refused(&evaluate("sum(A1_A3)", &back)));

    let fits = vector("A1_A3", &[i64::MAX, -1, 1]);
    assert!(admits("sum(A1_A3)", &fits));
    assert_eq!(integer(&evaluate("sum(A1_A3)", &fits).unwrap()), i64::MAX);
    let edge = vector("A1_A2", &[i64::MIN, 0]);
    assert_eq!(integer(&evaluate("sum(A1_A2)", &edge).unwrap()), i64::MIN);

    assert!(admits("A1_A2", &over));
    assert!(admits("sum(B1_B2)", &over));
    assert!(admits("\"sum(A1_A2)\"", &over));
    assert_eq!(text(&evaluate("\"sum(A1_A2)\"", &over).unwrap()), "sum(A1_A2)");
}

#[test]
fn a_sum_stops_at_what_is_no_number() {
    let mixed = vec![(
        "A1_A3".to_string(),
        CellArgument::Vector(vec![
            CellValue::Integer(i64::MAX),
            CellValue::Text("x".to_string()),
            CellValue::Integer(1),
        ]),
    )];
    assert!(admits("sum(A1_A3)", &mixed));
    let outcome = evaluate("sum(A1_A3)", &mixed);
    assert!(!refused(&outcome));
    assert!(outcome.unwrap().is_error());
}

#[test]
fn the_lists_of_a_block_are_added_one_by_one() {
    let block = |lists: Vec<Vec<i64>>| {
        let mut columns = Vec::new();
        for list in lists {
            let mut column = Vec::new();
            for n in list {
                column.push(CellValue::Integer(n));
            }
            columns.push(column);
        }
        vec![("A1_B2".to_string(), CellArgument::Matrix(columns))]
    };
    assert!(refused(&evaluate("sum(A1_B2)", &block(vec![vec![i64::MAX], vec![1]]))));
    assert!(refused(&evaluate("sum(A1_B2)", &block(vec![vec![-1], vec![i64::MAX, 1]]))));
    let fits = block(vec![vec![i64::MAX], vec![1, -1]]);
    assert_eq!(integer(&evaluate("sum(A1_B2)", &fits).unwrap()), i64::MAX);
    let plain = block(vec![vec![1, 2], vec![3, 4]]);
    assert_eq!(integer(&evaluate("sum(A1_B2)", &plain).unwrap()), 10);
}

#[test]
fn a_sum_is_admitted_on_one_name_only() {
    let none: Vec<(String, CellArgument)> = Vec::new();
    assert!(refused(&evaluate("sum([9223372036854775807, 1])", &none)));
    assert!(refused(&evaluate("sum(A1_A2 + A1_A2)", &vector("A1_A2", &[1, 2]))));
    assert!(refused(&evaluate("sum (A1_A2)", &vector("A1_A2", &[1, 2]))));
    assert!(refused(&evaluate("sum()", &none)));
    assert!(refused(&evaluate("[9223372036854775807, 1].sum()", &none)));
    assert_eq!(integer(&evaluate("sum(A1_A2)", &vector("A1_A2", &[1, 2])).unwrap()), 3);
    assert_eq!(integer(&evaluate("sum(A1_A2)+sum(A1_A2)", &vector("A1_A2", &[1, 2])).unwrap()), 6);
}

#[test]
fn a_pause_is_admitted_where_it_is_short_and_written_out() {
    let none: Vec<(String, CellArgument)> = Vec::new();
    assert!(refused(&evaluate("sleep_then(-1, 0)", &none)));
    assert!(refused(&evaluate("sleep_then(0 - 1, 0)", &none)));
    assert!(refused(&evaluate("sleep_then(1000000, 0)", &none)));
    assert!(refused(&evaluate("sleep_then(A1, 0)", &none)));
    assert!(refused(&evaluate("sleep_then(1)", &none)));
    assert!(refused(&evaluate("(0 - 1).sleep_then(1,)", &none)));
    assert!(admits("sleep_then(999999, 0)", &none));
    assert_eq!(integer(&evaluate("sleep_then(1, 7)", &none).unwrap()), 7);
    assert_eq!(integer(&evaluate("sleep_then(0, sleep_then(1, 3) + 1)", &none).unwrap()), 4);
}

#[test]
fn other_calls_and_quotes_are_not_admitted() {
    let none: Vec<(String, CellArgument)> = Vec::new();
    for formula in [
        "eval(\"1\")",
        "timestamp()",
        "abs(1)",
        "1 // 2",
        "1 /* 2 */",
        "'a'",
        "`a`",
        "\"a\\\"b\"",
        "1.max(2)",
        "1..5",
        "A1.B1",
        "while true { 1 }",
        "x",
    ] {
        assert!(!admits(formula, &none), "{}", formula);
        assert!(refused(&evaluate(formula, &none)), "{}", formula);
    }
    for formula in ["1 + 2", "A1", "(1 + 2) * 3 / 4 % 5", "\"a b\"", "\"\"", "1 / 0", "", "\"open"] {
        assert!(admits(formula, &none), "{}", formula);
        assert!(!refused(&evaluate(formula, &none)), "{}", formula);
    }
    assert_eq!(text(&evaluate("\"it's // here\"", &none).unwrap()), "it's // here");
    assert_eq!(integer(&evaluate("if true { 1 } else { 2 }", &none).unwrap()), 1);
    assert_eq!(integer(&evaluate("if 1.5 > 1.25 && !false { 3 } else { 4 }", &none).unwrap()), 3);
    assert_eq!(integer(&evaluate("switch 2 { 1 => 10, 2 => 20, _ => 30 }", &none).unwrap()), 20);
    assert_eq!(integer(&evaluate("if 2 in [1, 2] { 5 } else { 6 }", &none).unwrap()), 5);
}

#[test]
fn an_argument_in_error_is_refused_before_the_formula_is_looked_at() {
    let error = vec![("A1".to_string(), CellArgument::Scalar(CellValue::Error("e".to_string())))];
    assert!(matches!(evaluate("abs(A1)", &error), Err(EvaluationError::VariableDependsOnError)));
    assert!(matches!(
        evaluate("sleep_then(-1, A1)", &error),
        Err(EvaluationError::VariableDependsOnError)
    ));
    let shadowed = vec![
        ("A1".to_string(), CellArgument::Scalar(CellValue::Error("e".to_string()))),
        ("A1".to_string(), CellArgument::Scalar(CellValue::Integer(2))),
    ];
    assert!(refused(&evaluate("abs(A1)", &shadowed)));
    assert_eq!(integer(&evaluate("A1 + 1", &shadowed).unwrap()), 3);
}

#[test]
fn a_formula_that_is_not_admitted_is_stored_with_its_message() {
    let mut sheet = Spreadsheet::new();
    set(&mut sheet, "A1", "9223372036854775807");
    set(&mut sheet, "A2", "1");
    set(&mut sheet, "B1", "sum(A1_A2)");
    match get(&sheet, "B1") {
        CellValue::Error(message) => assert_eq!(message, "FORMULA_NOT_ADMITTED"),
        other => panic!("not an error: {:?}", other),
    }
    assert_eq!(sheet.get_expr(&id(1, 0)), Some("sum(A1_A2)".to_string()));
    assert_eq!(sheet.precedents_of(&id(1, 0)), vec![id(0, 0), id(0, 1)]);
    set(&mut sheet, "C1", "B1");
    assert!(get(&sheet, "C1").is_dependency_error());
    set(&mut sheet, "A2", "-1");
    assert_eq!(integer(&get(&sheet, "B1")), 9223372036854775806);
    assert_eq!(integer(&get(&sheet, "C1")), 9223372036854775806);
}

#[test]
fn an_error_runs_down_a_chain() {
    let mut sheet = Spreadsheet::new();
    set(&mut sheet, "A1", "1");
    set(&mut sheet, "B1", "A1 + 1");
    set(&mut sheet, "C1", "B1 + 1");
    set(&mut sheet, "D1", "C1 + 1");
    let a1 = id(0, 0);
    sheet.set_expression(a1, "1 / 0".to_string());
    let recomputed = sheet.propagate_from(a1);
    assert_eq!(recomputed, vec![id(1, 0), id(2, 0), id(3, 0)]);
    assert!(get(&sheet, "A1").is_error());
    assert!(!get(&sheet, "A1").is_dependency_error());
    for name in ["B1", "C1", "D1"] {
        assert!(get(&sheet, name).is_dependency_error(), "{}", name);
    }
    assert_eq!(sheet.get_expr(&id(1, 0)), Some("A1 + 1".to_string()));
    assert_eq!(sheet.get_expr(&id(3, 0)), Some("C1 + 1".to_string()));
}

#[test]
fn a_sweep_stamps_every_dependent_later() {
    let mut sheet = Spreadsheet::new();
    set(&mut sheet, "A1", "1");
    set(&mut sheet, "B1", "A1 + 1");
    set(&mut sheet, "C1", "A1 + B1");
    let before_b = *sheet.get(&id(1, 0)).unwrap().timestamp();
    let before_c = *sheet.get(&id(2, 0)).unwrap().timestamp();
    let recomputed = sheet.propagate_from(id(0, 0));
    assert_eq!(recomputed, vec![id(1, 0), id(2, 0)]);
    assert!(*sheet.get(&id(1, 0)).unwrap().timestamp() > before_b);
    assert!(*sheet.get(&id(2, 0)).unwrap().timestamp() > before_c);
}

#[test]
fn a_result_that_is_not_later_is_discarded_and_not_carried_on() {
    let mut sheet = Spreadsheet::new();
    let a = id(0, 0);
    let d = id(3, 0);
    let e = id(4, 0);
    sheet.set(a, Cell::with_timestamp(None, CellValue::Integer(1), 1));
    let last = Cell::with_timestamp(Some("A1 + 1".to_string()), CellValue::Integer(100), u64::MAX);
    sheet.evaluate_cell(d, last, vec![a]);
    let reader = Cell::with_timestamp(Some("D1 + 1".to_string()), CellValue::Integer(200), 5);
    sheet.evaluate_cell(e, reader, vec![d]);
    let recomputed = sheet.propagate_from(a);
    assert_eq!(recomputed, vec![d]);
    assert_eq!(integer(&sheet.get_value(&d)), 100);
    assert_eq!(*sheet.get(&d).unwrap().timestamp(), u64::MAX);
    assert_eq!(integer(&sheet.get_value(&e)), 200);
    assert_eq!(*sheet.get(&e).unwrap().timestamp(), 5);
    assert!(!sheet.recompute(d, "A1 + 1".to_string()));
    assert!(sheet.recompute(e, "D1 + 1".to_string()));
    assert_eq!(integer(&sheet.get_value(&e)), 101);
}

#[test]
fn a_set_in_two_steps_is_a_set() {
    let mut sheet = Spreadsheet::new();
    set(&mut sheet, "A1", "2");
    set(&mut sheet, "A2", "3");
    let b1 = id(1, 0);
    let (variables, cells) = sheet.resolve_formula("sum(A1_A2) * A1");
    assert_eq!(cells, vec![id(0, 0), id(0, 1)]);
    let outcome = evaluate("sum(A1_A2) * A1", &variables);
    sheet.commit_outcome(b1, "sum(A1_A2) * A1".to_string(), outcome, cells);
    assert_eq!(integer(&sheet.get_value(&b1)), 10);
    assert_eq!(sheet.get_expr(&b1), Some("sum(A1_A2) * A1".to_string()));
    assert_eq!(sheet.precedents_of(&b1), vec![id(0, 0), id(0, 1)]);
    assert_eq!(sheet.dependents_of(&id(0, 0)), vec![b1]);
    assert_eq!(sheet.dependents_of(&id(0, 1)), vec![b1]);
    sheet.commit_outcome(b1, "A9".to_string(), Err(EvaluationError::VariableDependsOnError), vec![id(0, 8)]);
    assert!(sheet.get_value(&b1).is_dependency_error());
    assert_eq!(sheet.precedents_of(&b1), vec![id(0, 8)]);
    assert!(sheet.dependents_of(&id(0, 0)).is_empty());
}

#[test]
fn a_cell_is_evaluated_once_at_its_turn() {
    let mut sheet = Spreadsheet::new();
    set(&mut sheet, "A1", "1");
    set(&mut sheet, "B1", "5");
    set(&mut sheet, "D1", "A1 + B1");
    set(&mut sheet, "B1", "A1 + 1");
    assert_eq!(integer(&get(&sheet, "D1")), 3);
    let a1 = id(0, 0);
    assert_eq!(sheet.dependents_of(&a1), vec![id(3, 0), id(1, 0)]);
    sheet.set_expression(a1, "10".to_string());
    let recomputed = sheet.propagate_from(a1);
    assert_eq!(recomputed, vec![id(3, 0), id(1, 0)]);
    assert_eq!(integer(&get(&sheet, "D1")), 12);
    assert_eq!(integer(&get(&sheet, "B1")), 11);
    let again = sheet.propagate_from(id(1, 0));
    assert_eq!(again, vec![id(3, 0)]);
    assert_eq!(integer(&get(&sheet, "D1")), 21);
}

#[test]
fn an_assignment_is_not_admitted() {
    let bound = vec![
        ("A".to_string(), CellArgument::Vector(vec![CellValue::Integer(1), CellValue::Integer(2)])),
        ("B".to_string(), CellArgument::Scalar(CellValue::Integer(i64::MAX))),
    ];
    for formula in [
        "[if true{A=[B,B]},sum(A)]",
        "[if true { A = [B, B] }, sum(A)]",
        "if true { A += [B] }",
        "if true { A[0] = B }",
        "if true { B -= 1 }",
        "if true { B *= 2 }",
        "if true { B /= 2 }",
        "if true { B %= 2 }",
        "if true { B **= 2 }",
        "if true { B <<= 2 }",
        "if true { B >>= 2 }",
        "if true { B &= 2 }",
        "if true { B |= 2 }",
        "if true { B ^= 2 }",
        "B = 1",
        "B =",
        "= B",
        "B === 1",
        "B !== 1",
        "B =>= 1",
        "B ==> 1",
        "B <== 1",
        "B +== 1",
        "B ==- 1",
        "B == 1 = 2",
    ] {
        assert!(!admits(formula, &bound), "{}", formula);
        assert!(refused(&evaluate(formula, &bound)), "{}", formula);
    }
    for formula in ["B == 1", "B != 1", "B <= 1", "B >= 1", "B==1", "(B)!=(1)", "B<=B", "\"=\"", "\"a = b\" == \"a = b\""] {
        assert!(admits(formula, &bound), "{}", formula);
        assert!(!refused(&evaluate(formula, &bound)), "{}", formula);
    }
    assert_eq!(integer(&evaluate("if B >= 1 { sum(A) } else { 0 }", &bound).unwrap()), 3);
    assert_eq!(integer(&evaluate("switch B == 1 { true => 1, false => 2 }", &bound).unwrap()), 2);
}

#[test]
fn an_assignment_in_a_cell_is_stored_as_not_admitted() {
    let mut sheet = Spreadsheet::new();
    set(&mut sheet, "A1", "1");
    set(&mut sheet, "A2", "2");
    set(&mut sheet, "B1", "9223372036854775807");
    set(&mut sheet, "C1", "[if true{A1_A2=[B1,B1]},sum(A1_A2)]");
    match get(&sheet, "C1") {
        CellValue::Error(message) => assert_eq!(message, "FORMULA_NOT_ADMITTED"),
        other => panic!("not an error: {:?}", other),
    }
    assert_eq!(integer(&get(&sheet, "A1")), 1);
    assert_eq!(integer(&get(&sheet, "B1")), 9223372036854775807);
}

#[test]
fn the_name_of_a_range_is_no_name_of_a_cell() {
    let mut sheet = Spreadsheet::new();
    set(&mut sheet, "A1", "1");
    set(&mut sheet, "B2", "2");
    let mut variables = Vec::new();
    let mut cells = Vec::new();
    parse_scalar_variable_with_deps(&sheet, &"A1_B2".to_string(), &mut variables, &mut cells);
    parse_scalar_variable_with_deps(&sheet, &"A1_".to_string(), &mut variables, &mut cells);
    parse_scalar_variable_with_deps(&sheet, &"_A1".to_string(), &mut variables, &mut cells);
    parse_scalar_variable_with_deps(&sheet, &"x".to_string(), &mut variables, &mut cells);
    assert!(variables.is_empty());
    assert!(cells.is_empty());
    parse_scalar_variable_with_deps(&sheet, &"B2".to_string(), &mut variables, &mut cells);
    assert_eq!(cells, vec![id(1, 1)]);
    assert_eq!(variables.len(), 1);
    assert_eq!(variables[0].0, "B2");
    match &variables[0].1 {
        CellArgument::Scalar(value) => assert_eq!(integer(value), 2),
        other => panic!("not a scalar: {:?}", other),
    }
}
