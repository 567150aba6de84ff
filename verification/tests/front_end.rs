use j_interp::lalr_parser::LalrParser;
use j_interp::repl::execute;

#[test]
fn test_basic_expression() {
    assert!(execute("1 2 3").is_ok());
    assert!(execute("1 2 3 + 4 5 6").is_ok());
}

#[test]
fn test_build_succeeds() {
    let _parser = LalrParser::new();
    assert!(true);
}
