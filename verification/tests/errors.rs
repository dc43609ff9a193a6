use hivm::errors::{context_window, AsmError, Reason, SOURCE_CONTEXT_RADIUS};
use hivm::tokenizer::SourceToken;

#[test]
fn three_lines_are_shown_on_either_side() {
    assert_eq!(SOURCE_CONTEXT_RADIUS, 3);
    assert_eq!(context_window(10, 100), (7, 14));
    assert_eq!(context_window(0, 100), (0, 4));
    assert_eq!(context_window(2, 100), (0, 6));
    assert_eq!(context_window(3, 100), (0, 7));
    assert_eq!(context_window(99, 100), (96, 100));
    assert_eq!(context_window(96, 100), (93, 100));
    assert_eq!(context_window(95, 100), (92, 99));
    assert_eq!(context_window(0, 1), (0, 1));
    assert_eq!(context_window(1, 3), (0, 3));
    assert_eq!(context_window(0, 0), (0, 0));
    assert_eq!(context_window(usize::MAX, usize::MAX), (usize::MAX - 3, usize::MAX));
}

#[test]
fn an_error_points_at_its_token() {
    let token = SourceToken { string: "x", unit_path: "u", line_index: 4, column: 9 };
    let other = SourceToken { string: "x", unit_path: "u", line_index: 1, column: 2 };
    assert_eq!(
        AsmError::at(Reason::InvalidToken, token),
        AsmError { reason: Reason::InvalidToken, token, column: 9, previous: None }
    );
    assert_eq!(
        AsmError::redeclaration(token, other),
        AsmError { reason: Reason::Redeclared, token, column: 9, previous: Some(other) }
    );
    assert_eq!(token.line_number(), 5);
}
