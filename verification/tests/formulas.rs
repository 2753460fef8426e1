use rsheet::admission::admits;
use rsheet::cell_value::{CellArgument, CellValue};
use rsheet::formula::evaluate;

struct Dice {
    state: u64,
}

impl Dice {
    fn new(seed: u64) -> Dice {
        Dice { state: seed.wrapping_mul(0x9E37_79B9_7F4A_7C15).wrapping_add(0x1234_5678_9ABC_DEF1) }
    }

    fn roll(&mut self, sides: usize) -> usize {
        self.state = self.state.wrapping_mul(6364136223846793005).wrapping_add(1442695040888963407);
        ((self.state >> 33) as usize) % sides
    }
}

fn numbers(list: &[i64]) -> Vec<CellValue> {
    let mut out = Vec::new();
    for n in list {
        out.push(CellValue::Integer(*n));
    }
    out
}

fn arguments() -> Vec<(String, CellArgument)> {
    vec![
        ("A".to_string(), CellArgument::Vector(numbers(&[1, 2, 3]))),
        ("B".to_string(), CellArgument::Scalar(CellValue::Integer(i64::MAX))),
        ("C".to_string(), CellArgument::Vector(numbers(&[i64::MAX, -1, 1]))),
        ("D".to_string(), CellArgument::Matrix(vec![numbers(&[1, 2]), numbers(&[3, 4])])),
        ("T".to_string(), CellArgument::Scalar(CellValue::Text("x".to_string()))),
        ("N".to_string(), CellArgument::Scalar(CellValue::Empty)),
        ("G".to_string(), CellArgument::Scalar(CellValue::Integer(i64::MIN))),
        ("H".to_string(), CellArgument::Vector(numbers(&[i64::MIN, 1]))),
        ("A1_A2".to_string(), CellArgument::Vector(numbers(&[i64::MAX, i64::MIN, 5]))),
        (
            "M".to_string(),
            CellArgument::Vector(vec![
                CellValue::Integer(i64::MAX),
                CellValue::Text("y".to_string()),
                CellValue::Integer(1),
            ]),
        ),
    ]
}

const ATOMS: [&str; 30] = [
    "A", "B", "C", "D", "T", "N", "G", "H", "M", "A1_A2", "Z", "0", "1", "2", "63", "64",
    "9223372036854775807", "4294967296", "1.5", "0.0", "\"s\"", "\"\"", "true", "false", "()",
    "sum(A)", "sum(C)", "sum(D)", "sum(M)", "sum(A1_A2)",
];

const SIGNS: [&str; 22] = [
    "+", "-", "*", "/", "%", "**", "<<", ">>", "&", "|", "^", "&&", "||", "==", "!=", "<", ">",
    "<=", ">=", "in", "!in", "??",
];

fn formula(dice: &mut Dice, depth: usize) -> String {
    if depth == 0 {
        return ATOMS[dice.roll(ATOMS.len())].to_string();
    }
    match dice.roll(14) {
        0 | 1 | 2 | 3 => {
            let left = formula(dice, depth - 1);
            let right = formula(dice, depth - 1);
            format!("{} {} {}", left, SIGNS[dice.roll(SIGNS.len())], right)
        }
        4 => format!("({})", formula(dice, depth - 1)),
        5 => format!("-{}", formula(dice, depth - 1)),
        6 => format!("!{}", formula(dice, depth - 1)),
        7 => format!("[{}, {}]", formula(dice, depth - 1), formula(dice, depth - 1)),
        8 => format!("{}[{}]", formula(dice, depth - 1), formula(dice, depth - 1)),
        9 => format!(
            "if {} {{ {} }} else {{ {} }}",
            formula(dice, depth - 1),
            formula(dice, depth - 1),
            formula(dice, depth - 1)
        ),
        10 => format!(
            "switch {} {{ {} => {}, _ => {} }}",
            formula(dice, depth - 1),
            formula(dice, 0),
            formula(dice, depth - 1),
            formula(dice, depth - 1)
        ),
        11 => format!("sleep_then({}, {})", dice.roll(2), formula(dice, depth - 1)),
        12 => format!("|X| {}", formula(dice, depth - 1)),
        _ => format!("{}?[{}]", formula(dice, depth - 1), formula(dice, depth - 1)),
    }
}

const SCRAPS: [&str; 56] = [
    "A", "B", "C", "X", "sum", "sum(", "sum(A)", "sum(C)", "sleep_then(", "sleep_then(0,", "(",
    ")", "[", "]", "{", "}", ",", ";", ":", "::", ".", "..", "=", "==", "=>", "!", "<", ">", "+",
    "-", "*", "/", "%", "&", "|", "^", "?", "~", "@", "$", "#", "'", "`", "\"", "1", "0", " ",
    "if", "if true", "else", "[B,B]", "A=", "A[0]", "true", "switch", "in",
];

fn soup(dice: &mut Dice) -> String {
    let mut text = String::new();
    let count = 1 + dice.roll(9);
    for _ in 0..count {
        text.push_str(SCRAPS[dice.roll(SCRAPS.len())]);
        if dice.roll(3) == 0 {
            text.push(' ');
        }
    }
    text
}

fn try_formula(text: &str, bound: &Vec<(String, CellArgument)>) -> bool {
    let admitted = admits(text, bound);
    println!("{:?} admitted: {}", text, admitted);
    let first = evaluate(text, bound);
    if admitted {
        let second = evaluate(text, bound);
        assert_eq!(format!("{:?}", first), format!("{:?}", second), "{}", text);
    } else {
        match first {
            Ok(CellValue::Error(message)) => assert_eq!(message, "FORMULA_NOT_ADMITTED"),
            other => panic!("{:?} gave {:?}", text, other),
        }
    }
    admitted
}

fn try_grown(seed: u64, count: usize) {
    let bound = arguments();
    let mut dice = Dice::new(seed);
    let mut admitted = 0;
    for _ in 0..count {
        let depth = 1 + dice.roll(3);
        let text = formula(&mut dice, depth);
        if try_formula(&text, &bound) {
            admitted += 1;
        }
    }
    assert!(admitted * 4 > count, "{} of {}", admitted, count);
}

fn try_soup(seed: u64, count: usize) {
    let bound = arguments();
    let mut dice = Dice::new(seed);
    for _ in 0..count {
        let text = soup(&mut dice);
        try_formula(&text, &bound);
    }
}

#[test]
fn grown_formulas_are_evaluated_without_fault_1() {
    try_grown(1, 1500);
}

#[test]
fn grown_formulas_are_evaluated_without_fault_2() {
    try_grown(2, 1500);
}

#[test]
fn grown_formulas_are_evaluated_without_fault_3() {
    try_grown(3, 1500);
}

#[test]
fn grown_formulas_are_evaluated_without_fault_4() {
    try_grown(4, 1500);
}

#[test]
fn scraps_of_formulas_are_evaluated_without_fault_1() {
    try_soup(11, 4000);
}

#[test]
fn scraps_of_formulas_are_evaluated_without_fault_2() {
    try_soup(12, 4000);
}

#[test]
fn scraps_of_formulas_are_evaluated_without_fault_3() {
    try_soup(13, 4000);
}

#[test]
fn scraps_of_formulas_are_evaluated_without_fault_4() {
    try_soup(14, 4000);
}

const TARGETS: [&str; 6] = ["A", "A[0]", "C", "C[2]", "H", "D[0]"];

const ASSIGNMENTS: [&str; 24] = [
    "=", "+=", "-=", "*=", "/=", "%=", "**=", "<<=", ">>=", "&=", "|=", "^=", "??=", ":=", "==",
    "!=", "<=", ">=", "=>", "===", "!==", "=>=", "<==", "=<",
];

const SOURCES: [&str; 6] = ["[B,B]", "B", "[G,G]", "G", "[[B],[B]]", "1"];

const SPACES: [(&str, &str); 4] = [("", ""), (" ", " "), ("", " "), (" ", "")];

#[test]
fn no_formula_that_assigns_reaches_the_sum() {
    let bound = arguments();
    let mut admitted = 0;
    for target in TARGETS.iter() {
        for sign in ASSIGNMENTS.iter() {
            for source in SOURCES.iter() {
                for (before, after) in SPACES.iter() {
                    let step = format!("{}{}{}{}{}", target, before, sign, after, source);
                    for text in [
                        format!("[if true{{{}}},sum(A),sum(C),sum(H),sum(D)]", step),
                        format!("[switch 1 {{ 1 => {{ {} }} }}, sum(A), sum(C)]", step),
                        format!("[{}, sum(A), sum(C), sum(H)]", step),
                        format!("[({}), sum(A), sum(C), sum(H)]", step),
                        format!("if ({}) {{ sum(A) }} else {{ sum(C) }}", step),
                    ] {
                        if try_formula(&text, &bound) {
                            admitted += 1;
                            assert!(
                                *sign == "==" || *sign == "!=" || *sign == "<=" || *sign == ">="
                                    || *sign == "=>",
                                "{}",
                                text
                            );
                        }
                    }
                }
            }
        }
    }
    assert!(admitted > 0);
}
