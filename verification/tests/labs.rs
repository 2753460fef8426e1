use rsheet::average::avg;
use rsheet::buffer::{parse_editor_command, Buffer, BufferEditor, EditorCommand, Key, Screen};
use rsheet::caesar::{abs_modulo, caesar_shift, shift, to_ascii};
use rsheet::channels::{calculate, count_solutions, operate};
use rsheet::drawing::{checker, letter, Colour, Operation};
use rsheet::hooked::{
    Condition, Cpu, Event, Fault, Hook, HookAction, Instruction, InstructionNumber, Step,
};
use rsheet::lights::{
    average_brightness, build_tree, checked_sum_and_count, sum_and_count, Instruction as Walk, Light,
};
use rsheet::pages::{count_request, render, response_head};
use rsheet::pointy::{first, Point};
use rsheet::stations::{
    most_least_used_stations, summarise, Enrolment, Solution, StationRecord, TimeOfDay,
};
use rsheet::tally::Tally;
use rsheet::text::{chars_of, contains, lines, replace, text_contains, text_of, words};

fn strings(list: &[&str]) -> Vec<String> {
    list.iter().map(|s| s.to_string()).collect()
}

fn texts(list: Vec<Vec<char>>) -> Vec<String> {
    list.iter().map(|chars| text_of(chars)).collect()
}

#[test]
fn caesar_shifts_letters_and_keeps_the_rest() {
    assert_eq!(caesar_shift(Some(1), strings(&["a", "ab", "abc"])), strings(&["b", "bc", "bcd"]));
    assert_eq!(caesar_shift(None, strings(&["Hello, World!"])), strings(&["Mjqqt, Btwqi!"]));
    assert_eq!(caesar_shift(Some(-1), strings(&["abc", "ABC"])), strings(&["zab", "ZAB"]));
    assert_eq!(caesar_shift(Some(26), strings(&["xyz"])), strings(&["xyz"]));
    assert_eq!(caesar_shift(Some(27), strings(&["xyz"])), strings(&["yza"]));
    assert_eq!(caesar_shift(Some(i32::MIN), strings(&["a"])), strings(&["c"]));
    assert_eq!(caesar_shift(Some(3), Vec::new()), Vec::<String>::new());
    assert_eq!(shift(13, "Uryyb".to_string()), "Hello");
    assert_eq!(abs_modulo(-7, 26), 7);
    assert_eq!(abs_modulo(30, 26), 4);
    assert_eq!(to_ascii(65), 'A');
}

#[test]
fn the_first_of_a_list_and_the_parts_of_a_point() {
    assert_eq!(&1, first(&[1, 2, 3]));
    assert_eq!(&"a", first(&["a", "b", "c"]));
    let point = Point::new("string", "another");
    assert_eq!("string", point.x);
    assert_eq!("another", point.y);
}

#[test]
fn instruction_numbers_convert() {
    let number = InstructionNumber::from(7);
    assert_eq!(u32::from(number), 7);
    let other: InstructionNumber = 9.into();
    assert_eq!(other, InstructionNumber(9));
}

fn run(program: Vec<Instruction>) -> (Cpu, Step, Vec<Event>) {
    let mut cpu = Cpu::new();
    let mut events = Vec::new();
    let last = cpu.run(&program, 1000, &mut events);
    (cpu, last, events)
}

#[test]
fn the_processor_runs_a_simple_program() {
    let (cpu, last, events) = run(vec![
        Instruction::Nop,
        Instruction::PrintAccumulator,
        Instruction::AddLiteral(1),
        Instruction::PrintAccumulator,
        Instruction::JumpIfCondition(Condition::Always, 6.into()),
        Instruction::Quit,
    ]);
    assert_eq!(last, Step::Quit);
    assert_eq!(cpu.accumulator, 1);
    assert_eq!(
        events,
        vec![
            Event::NoOp,
            Event::Printed(0),
            Event::Adding(1),
            Event::Printed(1),
            Event::ConditionalJump
        ]
    );
}

#[test]
fn a_hook_acts_when_its_count_runs_out() {
    let (cpu, last, events) = run(vec![
        Instruction::Callback(Hook::new(2, HookAction::Add(6991))),
        Instruction::Nop,
        Instruction::Nop,
        Instruction::JumpIfCondition(Condition::Always, 6.into()),
        Instruction::AddLiteral(1),
        Instruction::PrintAccumulator,
        Instruction::Quit,
    ]);
    assert_eq!(last, Step::Quit);
    assert_eq!(cpu.accumulator, 6991);
    assert!(cpu.hooks.is_empty());
    assert_eq!(events.last(), Some(&Event::Printed(6991)));
}

#[test]
fn hooks_and_jumps_work_together() {
    let (cpu, last, events) = run(vec![
        Instruction::Nop,
        Instruction::PrintAccumulator,
        Instruction::AddLiteral(1),
        Instruction::Callback(Hook::new(2, HookAction::Add(6991))),
        Instruction::Nop,
        Instruction::Nop,
        Instruction::JumpIfCondition(Condition::AccumulatorAtMost(6991), 3.into()),
        Instruction::SubLiteral(1),
        Instruction::PrintAccumulator,
        Instruction::Quit,
    ]);
    assert_eq!(last, Step::Quit);
    assert_eq!(cpu.accumulator, 6991);
    assert_eq!(events.last(), Some(&Event::Printed(6991)));
}

#[test]
fn the_processor_reports_faults() {
    assert_eq!(run(vec![Instruction::Nop]).1, Step::Fault(Fault::NoSuchInstruction));
    assert_eq!(run(vec![Instruction::SubLiteral(1)]).1, Step::Fault(Fault::Underflow));
    assert_eq!(
        run(vec![Instruction::AddLiteral(u32::MAX), Instruction::AddLiteral(1)]).1,
        Step::Fault(Fault::Overflow)
    );
    assert_eq!(
        run(vec![Instruction::JumpIfCondition(Condition::Always, 1.into())]).1,
        Step::Fault(Fault::BadJump)
    );
    assert_eq!(
        run(vec![Instruction::Callback(Hook::new(0, HookAction::Clear)), Instruction::Quit]).1,
        Step::Fault(Fault::SpentHook)
    );
    let mut cpu = Cpu::new();
    let mut events = Vec::new();
    let looping = vec![Instruction::JumpIfCondition(Condition::Always, 1u32.saturating_add(0).into())];
    assert_eq!(cpu.run(&looping, 0, &mut events), Step::Ran);
    let forever = vec![Instruction::Nop, Instruction::JumpIfCondition(Condition::Always, 2.into())];
    assert_eq!(cpu.run(&forever, 50, &mut events), Step::Ran);
    let mut other = Cpu::new();
    assert!(Hook::new(1, HookAction::Subtract(1)).call(&mut other).is_err());
    assert!(Hook::new(1, HookAction::Add(5)).call(&mut other).is_ok());
    assert_eq!(other.accumulator, 5);
}

#[test]
fn lights_are_placed_and_counted() {
    let tree = build_tree(&vec![
        Walk::Brightness(4),
        Walk::Left,
        Walk::Brightness(6),
        Walk::Right,
        Walk::Brightness(8),
        Walk::Reset,
        Walk::Right,
        Walk::Right,
        Walk::Brightness(-3),
    ]);
    assert_eq!(tree.brightness, 4);
    assert_eq!(sum_and_count(&tree), (15, 5));
    assert_eq!(checked_sum_and_count(&tree), Some((15, 5)));
    assert_eq!(average_brightness(&tree), 3);
    let lone = build_tree(&Vec::new());
    assert_eq!(sum_and_count(&lone), (0, 1));
    let dark = build_tree(&vec![Walk::Brightness(-7), Walk::Left]);
    assert_eq!(sum_and_count(&dark), (-7, 2));
    assert_eq!(average_brightness(&dark), -3);
    let mut bright = Light::new();
    bright.brightness = i32::MAX;
    bright.left = Some(Box::new(Light { left: None, right: None, brightness: 1 }));
    assert_eq!(checked_sum_and_count(&bright), None);
}

#[test]
fn operators_are_applied_from_left_to_right() {
    assert_eq!(operate(6, 3, '+'), Ok(9));
    assert_eq!(operate(6, 3, '-'), Ok(3));
    assert_eq!(operate(6, 3, '*'), Ok(18));
    assert_eq!(operate(7, 2, '/'), Ok(3));
    assert_eq!(operate(-7, 2, '/'), Ok(-3));
    assert_eq!(operate(7, 0, '/'), Err(()));
    assert_eq!(operate(i32::MIN, -1, '/'), Err(()));
    assert_eq!(calculate(vec![1, 2, 3, 4, 0], vec!['+', '+', '+', '-']), Ok(true));
    assert_eq!(calculate(vec![9, 9, 9, 9, 9], vec!['*', '*', '*', '*']), Ok(false));
    assert_eq!(calculate(vec![1, 0, 3, 4, 5], vec!['/', '+', '+', '-']), Err(()));
    assert_eq!(calculate(vec![5, 5, 2, 2, 3], vec!['*', '/', '-', '+']), Ok(false));
    assert_eq!(calculate(vec![4, 2, 5, 1, 1], vec!['/', '*', '+', '-']), Ok(true));
    let arrangements = vec![
        (vec![1, 2, 3, 4, 0], vec!['+', '+', '+', '-']),
        (vec![1, 0, 3, 4, 5], vec!['/', '+', '+', '-']),
        (vec![4, 2, 5, 1, 1], vec!['/', '*', '+', '-']),
        (vec![1, 1, 1, 1, 1], vec!['+', '-', '*', '/']),
    ];
    assert_eq!(count_solutions(&arrangements), 2);
}

#[test]
fn text_is_searched_cut_and_replaced() {
    assert!(text_contains("hello world", "lo w"));
    assert!(text_contains("hello", ""));
    assert!(text_contains("", ""));
    assert!(!text_contains("hello", "help"));
    assert!(!text_contains("ab", "abc"));
    assert!(contains(&chars_of("aab"), &chars_of("ab")));
    assert_eq!(texts(lines(&chars_of("a\nb\r\n\nc"))), strings(&["a", "b", "", "c"]));
    assert_eq!(texts(lines(&chars_of("a\n"))), strings(&["a"]));
    assert_eq!(texts(lines(&chars_of("\n"))), strings(&[""]));
    assert_eq!(texts(lines(&chars_of("a\r"))), strings(&["a\r"]));
    assert_eq!(texts(lines(&chars_of(""))), Vec::<String>::new());
    assert_eq!(texts(words(&chars_of("  open   my file \n"))), strings(&["open", "my", "file"]));
    assert_eq!(texts(words(&chars_of(" \t"))), Vec::<String>::new());
    assert_eq!(
        text_of(&replace(&chars_of("a--b--"), &chars_of("--"), &chars_of("+"))),
        "a+b+"
    );
    assert_eq!(text_of(&replace(&chars_of("aaa"), &chars_of("aa"), &chars_of("b"))), "ba");
    for text in ["", "a", "a\nb", "x\r\ny\n", "\n\n", "one two\nthree\r"] {
        let expected: Vec<String> = text.lines().map(|line| line.to_string()).collect();
        assert_eq!(texts(lines(&chars_of(text))), expected);
        let expected: Vec<String> = text.split_whitespace().map(|word| word.to_string()).collect();
        assert_eq!(texts(words(&chars_of(text))), expected);
    }
}

#[test]
fn buffers_take_characters_and_are_searched() {
    let mut buffer = Buffer::new();
    for c in "one\ntwo one\nthree".chars() {
        buffer.push_char(c);
    }
    buffer.push_char('!');
    buffer.pop_char();
    assert_eq!(buffer.text(), "one\ntwo one\nthree");
    assert_eq!(
        buffer.search("one"),
        vec![(1, "one".to_string()), (2, "two one".to_string())]
    );
    assert!(buffer.search("four").is_empty());
    let mut empty = Buffer::new();
    empty.pop_char();
    assert_eq!(empty.text(), "");
    let mut small = Buffer::new();
    for c in "ab\nc".chars() {
        small.push_char(c);
    }
    assert_eq!(small.layout(), vec![(0, 0, 'a'), (1, 0, 'b'), (2, 0, '\n'), (0, 1, 'c')]);
}

#[test]
fn the_editor_opens_buffers_and_follows_keys() {
    let mut editor = BufferEditor::new();
    assert_eq!(editor.active_name(), "default");
    assert_eq!(editor.handle_key(Key::Char('h'), 0), Screen::Redraw);
    assert_eq!(editor.handle_key(Key::Char('i'), 0), Screen::Redraw);
    assert_eq!(editor.handle_key(Key::Enter, 0), Screen::Redraw);
    assert_eq!(editor.handle_key(Key::Char('x'), 0), Screen::Redraw);
    assert_eq!(editor.handle_key(Key::Backspace, 0), Screen::Redraw);
    assert_eq!(editor.active_text(), "hi\n");
    assert_eq!(editor.handle_key(Key::Up, 0), Screen::ScrollTo(0));
    assert_eq!(editor.handle_key(Key::Up, 5), Screen::ScrollTo(4));
    assert_eq!(editor.handle_key(Key::Down, 5), Screen::ScrollTo(6));
    assert_eq!(editor.handle_key(Key::Esc, 5), Screen::Leave);
    assert_eq!(editor.handle_key(Key::Other, 5), Screen::Redraw);
    editor.open_buffer("notes");
    assert_eq!(editor.active_name(), "notes");
    assert_eq!(editor.active_text(), "");
    editor.get_active_buffer().push_char('h');
    editor.push_char('i');
    editor.open_buffer("default");
    assert_eq!(editor.active_text(), "hi\n");
    editor.pop_char();
    assert_eq!(
        editor.search_buffer("hi"),
        vec![
            ("default".to_string(), 1, "hi".to_string()),
            ("notes".to_string(), 1, "hi".to_string())
        ]
    );
}

#[test]
fn command_lines_are_read() {
    assert!(matches!(parse_editor_command("   "), EditorCommand::Nothing));
    assert!(matches!(parse_editor_command("open"), EditorCommand::Open(None)));
    match parse_editor_command("open notes now") {
        EditorCommand::Open(Some(name)) => assert_eq!(name, "notes"),
        other => panic!("not an open: {:?}", other),
    }
    match parse_editor_command(" search  two   words ") {
        EditorCommand::Search(Some(term)) => assert_eq!(term, "two words"),
        other => panic!("not a search: {:?}", other),
    }
    assert!(matches!(parse_editor_command("search"), EditorCommand::Search(None)));
    assert!(matches!(parse_editor_command("list"), EditorCommand::Unknown));
}

#[test]
fn totals_are_kept_by_name() {
    let mut tally = Tally::new();
    tally.add("b", 5);
    tally.add("a", 7);
    tally.add("b", 2);
    tally.add("c", -1);
    tally.add("d", 7);
    assert_eq!(tally.len(), 4);
    assert_eq!(tally.total("b"), Some(7));
    assert_eq!(tally.total("z"), None);
    assert_eq!(tally.most(), Some("b".to_string()));
    assert_eq!(tally.least(), Some("c".to_string()));
    assert_eq!(Tally::new().most(), None);
    assert_eq!(Tally::new().least(), None);
}

fn record(station: &str, morning: (Option<i32>, Option<i32>), total: (Option<i32>, Option<i32>)) -> StationRecord {
    StationRecord {
        time_period: "2016".to_string(),
        station: station.to_string(),
        entries_morning: morning.0,
        exits_morning: morning.1,
        entries_midday: None,
        exits_midday: None,
        entries_evening: None,
        exits_evening: None,
        entries_midnight: None,
        exits_midnight: None,
        entries_total: total.0,
        exits_total: total.1,
    }
}

#[test]
fn the_most_and_least_used_stations_are_found() {
    let solution = Solution {
        records: vec![
            record("Central", (Some(10), Some(20)), (Some(100), Some(100))),
            record("Redfern", (Some(5), Some(5)), (Some(300), None)),
            record("Central", (Some(1), Some(1)), (Some(1), Some(1))),
            record("Town Hall", (Some(50), None), (Some(500), Some(1))),
            record("Museum", (Some(16), Some(16)), (Some(2), Some(2))),
        ],
    };
    assert_eq!(
        most_least_used_stations(&solution, TimeOfDay::Morning),
        Some(("Redfern".to_string(), "Central".to_string()))
    );
    assert_eq!(
        most_least_used_stations(&solution, TimeOfDay::Total),
        Some(("Museum".to_string(), "Town Hall".to_string()))
    );
    assert_eq!(most_least_used_stations(&solution, TimeOfDay::Evening), None);
    assert_eq!(most_least_used_stations(&Solution { records: Vec::new() }, TimeOfDay::Total), None);
    assert_eq!(solution.records[0].usage(TimeOfDay::Morning), Some(30));
    assert_eq!(solution.records[1].usage(TimeOfDay::Total), None);
}

#[test]
fn enrolments_are_summed_up() {
    let records = vec![
        Enrolment { course_code: "COMP1".to_string(), student_number: "z1".to_string() },
        Enrolment { course_code: "COMP2".to_string(), student_number: "z1".to_string() },
        Enrolment { course_code: "COMP1".to_string(), student_number: "z2".to_string() },
        Enrolment { course_code: "COMP3".to_string(), student_number: "z3".to_string() },
    ];
    let summary = summarise(&records).unwrap();
    assert_eq!(summary.unique_students, 3);
    assert_eq!(summary.most_common, ("COMP1".to_string(), 2));
    assert_eq!(summary.least_common, ("COMP2".to_string(), 1));
    assert!(summarise(&Vec::new()).is_none());
}

#[test]
fn pixels_get_their_colours() {
    assert_eq!(checker(0, 0), Colour { r: 0, g: 0, b: 200 });
    assert_eq!(checker(40, 7), Colour { r: 255, g: 255, b: 255 });
    assert_eq!(checker(40, 40), Colour { r: 40, g: 40, b: 200 });
    assert_eq!(checker(255, 255), Colour { r: 255, g: 255, b: 200 });
    assert_eq!(letter(Colour { r: 255, g: 0, b: 0 }), Some('R'));
    assert_eq!(letter(Colour { r: 0, g: 255, b: 0 }), Some('G'));
    assert_eq!(letter(Colour { r: 0, g: 0, b: 255 }), Some('B'));
    assert_eq!(letter(Colour { r: 255, g: 255, b: 255 }), Some('W'));
    assert_eq!(letter(Colour { r: 1, g: 2, b: 3 }), None);
    assert_eq!(Operation::named("house"), Some(Operation::House));
    assert_eq!(Operation::named("castle"), None);
    let gold = Some(Colour { r: 218, g: 165, b: 32 });
    assert_eq!(Operation::Pixel.paints(50, 50), Some(Colour { r: 255, g: 255, b: 255 }));
    assert_eq!(Operation::Pixel.paints(50, 51), None);
    assert_eq!(Operation::Single.paints(5, 5), gold);
    assert_eq!(Operation::Diagonal.paints(77, 77), gold);
    assert_eq!(Operation::Diagonal.paints(77, 78), None);
    assert_eq!(Operation::House.paints(49, 49), gold);
    assert_eq!(Operation::House.paints(50, 50), None);
}

#[test]
fn the_page_shows_the_counter() {
    assert_eq!(count_request(4, "POST /counter HTTP/1.1"), 5);
    assert_eq!(count_request(4, "GET / HTTP/1.1"), 4);
    assert_eq!(render("<p>{{{ counter }}}</p>{{{ counter }}}", 12), "<p>12</p>12");
    assert_eq!(render("nothing", 0), "nothing");
    assert_eq!(
        response_head(1024),
        "HTTP/1.1 200 OK\r\nContentType: text/html; charset=utf-8\r\nAccess-Control-Allow-Origin: *\r\nContent-Length: 1024\r\n\r\n"
    );
}

#[test]
fn means_round_towards_zero() {
    assert_eq!(avg(&vec![1, 2, 3, 4, 5]), 3);
    assert_eq!(avg(&vec![3, 10, 20]), 11);
    assert_eq!(avg(&vec![-3, -4]), -3);
    assert_eq!(avg(&vec![7]), 7);
}
