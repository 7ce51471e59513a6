use gepetto::util::{add, analyze_text, factorial, greet, multiply};

#[test]
fn test_add() {
    assert_eq!(add(2, 2), 4);
    assert_eq!(add(0, 5), 5);
}

#[test]
fn test_multiply() {
    assert_eq!(multiply(2, 3), 6);
    assert_eq!(multiply(0, 5), 0);
}

#[test]
fn test_factorial() {
    assert_eq!(factorial(0), 1);
    assert_eq!(factorial(1), 1);
    assert_eq!(factorial(5), 120);
}

#[test]
fn test_greet() {
    assert_eq!(greet("Alice"), "Hello, Alice! Welcome to Gepetto!");
}

#[test]
fn test_analyze_text() {
    let stats = analyze_text("Hello world\nThis is a test");
    assert_eq!(stats.char_count, 26);
    assert_eq!(stats.word_count, 6);
    assert_eq!(stats.line_count, 2);
}

#[test]
fn test_analyze_text_edge_cases() {
    let empty = analyze_text("");
    assert_eq!(empty.char_count, 0);
    assert_eq!(empty.word_count, 0);
    assert_eq!(empty.line_count, 0);

    let trailing_newline = analyze_text("one two\n");
    assert_eq!(trailing_newline.word_count, 2);
    assert_eq!(trailing_newline.line_count, 1);

    let blank_line = analyze_text("a\n\nb");
    assert_eq!(blank_line.line_count, 3);
    assert_eq!(blank_line.word_count, 2);
}
