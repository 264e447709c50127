use ddlx::parser::lines::Line;

fn line(start: u32, end: u32, content: &str) -> Line {
    Line { start, end, content: content.to_string() }
}

#[test]
fn test_lines_from_str() {
    let contents = "Create table if not exists Test {\n    Id Varchar(10) {\n        -unique}\n    Price FLOAT(3,8) PRIMARY KEY\n};".to_string();
    let desired_lines = vec![
        line(0, 35, "Create table if not exists Test {"),
        line(36, 57, "    Id Varchar(10) {"),
        line(58, 75, "        -unique}"),
        line(76, 109, "    Price FLOAT(3,8) PRIMARY KEY"),
        line(110, 113, "};"),
    ];

    let lines = Line::from_string(contents);

    assert_eq!(lines, desired_lines);
}

#[test]
fn test_lines_from_string_with_escape() {
    let contents = "Create table if not exists Test \"example \\n\" {\n};".to_string();
    let desired_lines = vec![
        line(0, 48, "Create table if not exists Test \"example \\n\" {"),
        line(49, 52, "};"),
    ];

    let lines = Line::from_string(contents);

    assert_eq!(lines, desired_lines);
}

#[test]
fn test_get_line() {
    let lines = vec![
        Line {
            start: 0,
            end: 33,
            content: "Create table if not exists Test {".to_string(),
        },
        Line {
            start: 34,
            end: 53,
            content: "    Id Varchar(10) {".to_string(),
        },
        Line {
            start: 54,
            end: 69,
            content: "        -unique}".to_string(),
        },
        Line {
            start: 70,
            end: 101,
            content: "    Price FLOAT(3,8) PRIMARY KEY".to_string(),
        },
        Line {
            start: 102,
            end: 103,
            content: "};".to_string(),
        },
    ];

    let line_number = Line::get_line(0, &lines);
    assert_eq!(line_number, 0);
    let line_number = Line::get_line(33, &lines);
    assert_eq!(line_number, 0);
    let line_number = Line::get_line(40, &lines);
    assert_eq!(line_number, 1);
}

#[test]
fn lines_end_with_line_feed_or_carriage_return_and_line_feed() {
    let lines = Line::from_string("ab\r\ncd\n\nef\r".to_string());
    assert_eq!(
        lines,
        vec![line(0, 4, "ab"), line(5, 8, "cd"), line(9, 10, ""), line(11, 15, "ef\r")]
    );
}

#[test]
fn empty_text_has_no_line() {
    assert_eq!(Line::from_string(String::new()), Vec::<Line>::new());
}

#[test]
fn trailing_line_feed_adds_no_line() {
    assert_eq!(Line::from_string("a\n".to_string()), vec![line(0, 3, "a")]);
}

#[test]
fn get_line_finds_last_line_and_reports_gaps() {
    let lines = vec![line(0, 3, "abc"), line(10, 12, "de")];
    assert_eq!(Line::get_line(12, &lines), 1);
    assert_eq!(Line::get_line(5, &lines), 2);
}

#[test]
fn positions_count_bytes() {
    let lines = Line::from_string("h\u{e9}\r\n\u{20ac}".to_string());
    assert_eq!(lines, vec![line(0, 5, "h\u{e9}"), line(6, 10, "\u{20ac}")]);
}
