use log_roll::parser::{Alignment, Formatter, Parameters, Parser, Piece};
use log_roll::text::{decimal_chars, replace_chars};

fn pieces(pattern: &str) -> Vec<Piece> {
    let mut p = Parser::new(pattern);
    let mut out = Vec::new();
    while let Some(piece) = p.next() {
        out.push(piece);
    }
    out
}

fn text(s: &str) -> Piece {
    Piece::Text(s.to_string())
}

#[test]
fn plain_text_is_one_piece() {
    assert_eq!(pieces("hello world"), vec![text("hello world")]);
    assert!(pieces("").is_empty());
}

#[test]
fn escaped_braces() {
    assert_eq!(pieces("a{{b}}c"), vec![text("a"), text("{"), text("b"), text("}"), text("c")]);
}

#[test]
fn argument_with_parameters() {
    let expected = Piece::Argument {
        formatter: Formatter { name: "d".to_string(), arg: "%Y".to_string() },
        parameters: Parameters { fill: '*', align: Alignment::Right, width: 10, precision: 3 },
    };
    assert_eq!(pieces("x{d(%Y):*>10.3}y"), vec![text("x"), expected, text("y")]);
}

#[test]
fn argument_defaults() {
    let expected = Piece::Argument {
        formatter: Formatter { name: "level".to_string(), arg: String::new() },
        parameters: Parameters {
            fill: ' ',
            align: Alignment::Left,
            width: 0,
            precision: usize::MAX,
        },
    };
    assert_eq!(pieces("{level}"), vec![expected]);
}

#[test]
fn huge_width_saturates() {
    match &pieces("{m:99999999999999999999999}")[0] {
        Piece::Argument { parameters, .. } => assert_eq!(parameters.width, usize::MAX),
        _ => panic!("not an argument"),
    }
}

#[test]
fn malformed_arguments() {
    assert_eq!(pieces("{m"), vec![Piece::Error("expected '}'".to_string())]);
    assert_eq!(pieces("a}b"), vec![text("a"), Piece::Error("unmatched '}'".to_string()), text("b")]);
    assert_eq!(pieces("{m(}x"), vec![Piece::Error("expected '}'".to_string())]);
    assert_eq!(pieces("{m("), vec![Piece::Error("expected '}'".to_string())]);
    assert_eq!(pieces("{m(a)x"), vec![Piece::Error("expected '}'".to_string())]);
}

#[test]
fn decimal_digits() {
    assert_eq!(decimal_chars(0), vec!['0']);
    assert_eq!(decimal_chars(907), vec!['9', '0', '7']);
    assert_eq!(decimal_chars(u64::MAX).len(), 20);
}

#[test]
fn replace_without_overlap() {
    let s: Vec<char> = "aaa".chars().collect();
    let pat: Vec<char> = "aa".chars().collect();
    let rep: Vec<char> = "b".chars().collect();
    assert_eq!(replace_chars(&s, &pat, &rep), vec!['b', 'a']);
}

#[test]
fn lone_close_brace_then_text() {
    let mut p = Parser::new("}x");
    assert_eq!(p.next(), Some(Piece::Error("unmatched '}'".to_string())));
    assert_eq!(p.next(), Some(text("x")));
    assert_eq!(p.next(), None);
}

#[test]
fn unterminated_argument_drains_input() {
    let mut p = Parser::new("{d");
    assert_eq!(p.next(), Some(Piece::Error("expected '}'".to_string())));
    assert_eq!(p.next(), None);
}
