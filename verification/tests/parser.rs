use lema::lexer::{Lexer, Token, TypeOfToken};
use lema::parser::{
    ASTNode, BinaryOpNode, NumberNode, ParseError, Parser, PrintNode, StringNode, UnaryOpNode,
    VariableCallNode, VariableNode,
};

fn tokens(source: &str) -> Vec<Token> {
    Lexer::new(source.to_string()).tokenize()
}

fn parser(source: &str) -> Parser {
    Parser::new(Some(tokens(source)))
}

fn parse(source: &str) -> Result<Vec<ASTNode>, ParseError> {
    parser(source).parse()
}

/// What a tree is, without the places of its tokens.
fn outline(node: &ASTNode) -> String {
    match node {
        ASTNode::Number(n) => format!("Number({})", n.value),
        ASTNode::String(n) => format!("String({})", n.value),
        ASTNode::BinaryOp(n) => {
            format!("Binary({}, {}, {})", n.operator.value, outline(&n.left), outline(&n.right))
        }
        ASTNode::UnaryOp(n) => format!("Unary({}, {})", n.operator.value, outline(&n.node)),
        ASTNode::Variable(n) => format!("Bind({}, {})", n.name, outline(&n.value)),
        ASTNode::VariableCall(n) => format!("Call({})", n.name),
        ASTNode::Print(n) => format!("Print({})", outline(&n.node)),
    }
}

fn outlines(source: &str) -> Vec<String> {
    parse(source).unwrap().iter().map(outline).collect()
}

fn number(text: &str) -> ASTNode {
    ASTNode::Number(NumberNode::new(Token::new(TypeOfToken::NUMBER, text.to_string(), 0, 0), false))
}

fn binary(op: &str, left: ASTNode, right: ASTNode) -> ASTNode {
    ASTNode::BinaryOp(BinaryOpNode::new(
        left,
        right,
        Token::new(TypeOfToken::OPERATOR, op.to_string(), 0, 0),
    ))
}

fn text(value: &str) -> ASTNode {
    ASTNode::String(StringNode::new(Token::new(TypeOfToken::STRING, value.to_string(), 0, 0)))
}

fn minus(node: ASTNode) -> ASTNode {
    ASTNode::UnaryOp(UnaryOpNode::new(node, Token::new(TypeOfToken::OPERATOR, "-".to_string(), 0, 0)))
}

#[test]
fn print_of_sum_and_product() {
    let nodes = parse("print 1 + 2 * 3").unwrap();
    assert_eq!(nodes.len(), 1);
    assert_eq!(
        outline(&nodes[0]),
        "Print(Binary(+, Number(1), Binary(*, Number(2), Number(3))))"
    );
    match &nodes[0] {
        ASTNode::Print(print) => match &*print.node {
            ASTNode::BinaryOp(sum) => {
                assert_eq!(sum.operator.value, "+");
                assert_eq!(sum.operator.tot, TypeOfToken::OPERATOR);
                assert!(matches!(&*sum.left, ASTNode::Number(n) if n.value == "1" && !n.is_neg));
                match &*sum.right {
                    ASTNode::BinaryOp(product) => {
                        assert_eq!(product.operator.value, "*");
                        assert!(matches!(&*product.left, ASTNode::Number(n) if n.value == "2"));
                        assert!(matches!(&*product.right, ASTNode::Number(n) if n.value == "3"));
                    }
                    _ => panic!("the right operand is no product"),
                }
            }
            _ => panic!("the argument is no sum"),
        },
        _ => panic!("the statement is no print"),
    }
}

#[test]
fn operators_of_one_tier_group_to_the_left() {
    assert_eq!(
        outlines("1 - 2 - 3"),
        vec!["Binary(-, Binary(-, Number(1), Number(2)), Number(3))"]
    );
    assert_eq!(
        outlines("8 / 4 * 2 / 1"),
        vec!["Binary(/, Binary(*, Binary(/, Number(8), Number(4)), Number(2)), Number(1))"]
    );
    assert_eq!(
        outlines("1 * 2 + 3 * 4 - 5"),
        vec!["Binary(-, Binary(+, Binary(*, Number(1), Number(2)), Binary(*, Number(3), Number(4))), Number(5))"]
    );
}

#[test]
fn parentheses_group_and_leave_no_node() {
    assert_eq!(
        outlines("(1 + 2) * 3"),
        vec!["Binary(*, Binary(+, Number(1), Number(2)), Number(3))"]
    );
    assert_eq!(outlines("((7))"), vec!["Number(7)"]);
}

#[test]
fn the_sign_binds_tighter_than_the_operations() {
    assert_eq!(outlines("-1 + 2"), vec!["Binary(+, Unary(-, Number(1)), Number(2))"]);
    assert_eq!(outlines("- - 1"), vec!["Unary(-, Unary(-, Number(1)))"]);
    assert_eq!(outlines("2 * -x"), vec!["Binary(*, Number(2), Unary(-, Call(x)))"]);
    assert_eq!(outlines("-(1 + 2)"), vec!["Unary(-, Binary(+, Number(1), Number(2)))"]);
}

#[test]
fn literals_and_names() {
    assert_eq!(outlines("42"), vec!["Number(42)"]);
    assert_eq!(outlines("\"hi there\""), vec!["String(hi there)"]);
    assert_eq!(outlines("total"), vec!["Call(total)"]);
}

#[test]
fn bindings_and_prints() {
    assert_eq!(outlines("var x = 5"), vec!["Bind(x, Number(5))"]);
    assert_eq!(
        outlines("var y = x * (2 + 1)"),
        vec!["Bind(y, Binary(*, Call(x), Binary(+, Number(2), Number(1))))"]
    );
    assert_eq!(outlines("print \"a\" + \"b\""), vec!["Print(Binary(+, String(a), String(b)))"]);
    assert_eq!(outlines("print print 1"), vec!["Print(Print(Number(1)))"]);
    assert_eq!(outlines("1 + print 2 + 3"), vec!["Binary(+, Number(1), Print(Binary(+, Number(2), Number(3))))"]);
}

#[test]
fn statements_follow_each_other_on_one_line() {
    assert_eq!(
        outlines("var x = 5 print x"),
        vec!["Bind(x, Number(5))", "Print(Call(x))"]
    );
    assert_eq!(outlines("1 2 3"), vec!["Number(1)", "Number(2)", "Number(3)"]);
    assert_eq!(outlines("x (1)"), vec!["Call(x)", "Number(1)"]);
}

#[test]
fn no_tokens_make_no_statements() {
    assert!(parse("").unwrap().is_empty());
    assert!(parse("# only a comment").unwrap().is_empty());
    let mut nothing = Parser::new(None);
    assert!(nothing.parse().unwrap().is_empty());
    assert_eq!(nothing.index, 0);
}

#[test]
fn parsing_takes_every_token() {
    let mut p = parser("var x = 5 print x");
    assert!(p.parse().is_ok());
    assert_eq!(p.index, 6);
    assert!(p.is_at_end());
}

#[test]
fn a_line_feed_begins_no_factor() {
    match parse("var x = 5\nprint x") {
        Err(ParseError::UnexpectedToken { found }) => {
            assert_eq!(found.tot, TypeOfToken::NEWLINE);
            assert_eq!(found.line, 1);
            assert_eq!(found.column, 10);
        }
        other => panic!("expected a fault, got {:?}", other),
    }
}

#[test]
fn an_operator_begins_no_factor() {
    match parse("* 2") {
        Err(ParseError::UnexpectedToken { found }) => {
            assert_eq!(found.tot, TypeOfToken::OPERATOR);
            assert_eq!(found.value, "*");
        }
        other => panic!("expected a fault, got {:?}", other),
    }
    assert!(matches!(parse("1 + ="), Err(ParseError::UnexpectedToken { found }) if found.value == "="));
    assert!(matches!(parse("1 < 2"), Err(ParseError::UnexpectedToken { found }) if found.value == "<"));
    assert!(matches!(parse(", 1"), Err(ParseError::UnexpectedToken { found }) if found.tot == TypeOfToken::PUNCTUATION));
    assert!(matches!(parse("{"), Err(ParseError::UnexpectedToken { found }) if found.value == "{"));
    assert!(matches!(parse(")"), Err(ParseError::UnexpectedToken { found }) if found.value == ")"));
}

#[test]
fn the_end_of_the_tokens_begins_no_factor() {
    let mut p = parser("1 +");
    match p.parse() {
        Err(ParseError::UnexpectedToken { found }) => {
            assert_eq!(found.tot, TypeOfToken::EOF);
            assert_eq!(found.value, "");
            assert_eq!((found.line, found.column), (0, 0));
        }
        other => panic!("expected a fault, got {:?}", other),
    }
    assert_eq!(p.index, 2);
    assert!(matches!(parse("print"), Err(ParseError::UnexpectedToken { found }) if found.tot == TypeOfToken::EOF));
    assert!(matches!(parse("-"), Err(ParseError::UnexpectedToken { found }) if found.tot == TypeOfToken::EOF));
    assert!(matches!(parse("var x ="), Err(ParseError::UnexpectedToken { found }) if found.tot == TypeOfToken::EOF));
}

#[test]
fn other_keywords_are_refused() {
    for word in ["if", "while", "for", "return", "true", "else", "import"] {
        match parse(word) {
            Err(ParseError::UnexpectedKeyword { found }) => {
                assert_eq!(found.tot, TypeOfToken::KEYWORD);
                assert_eq!(found.value, word);
            }
            other => panic!("expected a fault, got {:?}", other),
        }
    }
    assert!(matches!(parse("1 + if"), Err(ParseError::UnexpectedKeyword { found }) if found.value == "if"));
}

#[test]
fn an_open_parenthesis_must_be_closed() {
    match parse("(1 + 2") {
        Err(ParseError::Expected { kind, text, found }) => {
            assert_eq!(kind, TypeOfToken::BLOCKDELIMITERS);
            assert_eq!(text, ")");
            assert_eq!(found.tot, TypeOfToken::EOF);
        }
        other => panic!("expected a fault, got {:?}", other),
    }
    match parse("(1 + 2 ] 3") {
        Err(ParseError::Expected { kind, text, found }) => {
            assert_eq!(kind, TypeOfToken::BLOCKDELIMITERS);
            assert_eq!(text, ")");
            assert_eq!(found.value, "]");
        }
        other => panic!("expected a fault, got {:?}", other),
    }
    assert!(matches!(parse("(1 2)"), Err(ParseError::Expected { found, .. }) if found.value == "2"));
}

#[test]
fn a_binding_needs_a_name_and_an_equals_sign() {
    match parse("var 5 = 1") {
        Err(ParseError::Expected { kind, text, found }) => {
            assert_eq!(kind, TypeOfToken::IDENTIFIER);
            assert_eq!(text, "");
            assert_eq!(found.tot, TypeOfToken::NUMBER);
            assert_eq!(found.value, "5");
        }
        other => panic!("expected a fault, got {:?}", other),
    }
    assert!(matches!(
        parse("var print = 1"),
        Err(ParseError::Expected { kind: TypeOfToken::IDENTIFIER, found, .. }) if found.value == "print"
    ));
    assert!(matches!(
        parse("var"),
        Err(ParseError::Expected { kind: TypeOfToken::IDENTIFIER, found, .. }) if found.tot == TypeOfToken::EOF
    ));
    match parse("var x 5") {
        Err(ParseError::Expected { kind, text, found }) => {
            assert_eq!(kind, TypeOfToken::OPERATOR);
            assert_eq!(text, "=");
            assert_eq!(found.value, "5");
        }
        other => panic!("expected a fault, got {:?}", other),
    }
    assert!(matches!(
        parse("var x + 5"),
        Err(ParseError::Expected { kind: TypeOfToken::OPERATOR, found, .. }) if found.value == "+"
    ));
}

#[test]
fn parsing_stops_at_the_first_fault() {
    let mut p = parser("1 * * 2 3");
    assert!(matches!(p.parse(), Err(ParseError::UnexpectedToken { found }) if found.value == "*"));
    assert_eq!(p.index, 3);
}

#[test]
fn a_parser_without_tokens_reports_it() {
    let mut p = Parser::new(None);
    assert!(p.tokens.is_none());
    assert!(p.is_at_end());
    assert_eq!(p.next_token(), Err(ParseError::NoTokens));
    assert_eq!(p.peek_next_token(), Err(ParseError::NoTokens));
    assert_eq!(p.parse_factor(), Err(ParseError::NoTokens));
    assert_eq!(p.parse_term(), Err(ParseError::NoTokens));
    assert_eq!(p.parse_expr(), Err(ParseError::NoTokens));
    assert_eq!(p.expect_token(TypeOfToken::OPERATOR, "="), Err(ParseError::NoTokens));
    assert_eq!(p.index, 0);
}

#[test]
fn a_parser_with_an_empty_sequence() {
    let mut p = Parser::new(Some(Vec::new()));
    assert!(p.is_at_end());
    assert_eq!(p.peek_next_token(), Err(ParseError::NoTokens));
    let end = p.next_token().unwrap();
    assert_eq!(end.tot, TypeOfToken::EOF);
    assert_eq!(end.value, "");
    assert_eq!(p.index, 0);
    assert!(matches!(p.parse_expr(), Err(ParseError::UnexpectedToken { found }) if found.tot == TypeOfToken::EOF));
}

#[test]
fn next_token_moves_and_peek_does_not() {
    let mut p = parser("a + 1");
    assert_eq!(p.index, 0);
    assert!(!p.is_at_end());
    assert_eq!(p.peek_next_token().unwrap().value, "a");
    assert_eq!(p.index, 0);
    assert_eq!(p.next_token().unwrap().value, "a");
    assert_eq!(p.index, 1);
    assert_eq!(p.peek_next_token().unwrap().value, "+");
    assert_eq!(p.next_token().unwrap().tot, TypeOfToken::OPERATOR);
    let one = p.next_token().unwrap();
    assert_eq!((one.tot, one.value.as_str(), one.line, one.column), (TypeOfToken::NUMBER, "1", 1, 5));
    assert_eq!(p.index, 3);
    assert!(p.is_at_end());
    assert_eq!(p.peek_next_token().unwrap().value, "1");
    assert_eq!(p.next_token().unwrap().tot, TypeOfToken::EOF);
    assert_eq!(p.next_token().unwrap().tot, TypeOfToken::EOF);
    assert_eq!(p.index, 3);
}

#[test]
fn expect_token_takes_the_token_it_tests() {
    let mut p = parser("= )");
    assert_eq!(p.expect_token(TypeOfToken::OPERATOR, "="), Ok(()));
    assert_eq!(p.index, 1);
    match p.expect_token(TypeOfToken::OPERATOR, ")") {
        Err(ParseError::Expected { kind, text, found }) => {
            assert_eq!(kind, TypeOfToken::OPERATOR);
            assert_eq!(text, ")");
            assert_eq!(found.tot, TypeOfToken::BLOCKDELIMITERS);
            assert_eq!(found.value, ")");
        }
        other => panic!("expected a fault, got {:?}", other),
    }
    assert_eq!(p.index, 2);
    assert!(p.expect_token(TypeOfToken::BLOCKDELIMITERS, ")").is_err());
    assert_eq!(p.index, 2);
}

#[test]
fn the_three_levels_stop_where_their_rule_ends() {
    let mut p = parser("1 * 2 + 3");
    assert_eq!(outline(&p.parse_factor().unwrap()), "Number(1)");
    assert_eq!(p.index, 1);
    let mut p = parser("1 * 2 + 3");
    assert_eq!(outline(&p.parse_term().unwrap()), "Binary(*, Number(1), Number(2))");
    assert_eq!(p.index, 3);
    let mut p = parser("1 * 2 + 3");
    assert_eq!(
        outline(&p.parse_expr().unwrap()),
        "Binary(+, Binary(*, Number(1), Number(2)), Number(3))"
    );
    assert_eq!(p.index, 5);
}

#[test]
fn nodes_keep_what_they_are_built_from() {
    let token = Token::new(TypeOfToken::NUMBER, "12".to_string(), 2, 3);
    let n = NumberNode::new(token.clone(), true);
    assert_eq!(n.token, token);
    assert!(n.is_neg);
    assert_eq!(n.value, "12");
    assert_eq!(n.display(), "12");

    let quoted = Token::new(TypeOfToken::STRING, "hi".to_string(), 1, 1);
    let s = StringNode::new(quoted.clone());
    assert_eq!(s.token, quoted);
    assert_eq!(s.value, "hi");
    assert_eq!(s.display(), "\"hi\"");
    assert_eq!(StringNode::new(Token::new(TypeOfToken::STRING, String::new(), 1, 1)).display(), "\"\"");

    let plus = Token::new(TypeOfToken::OPERATOR, "+".to_string(), 1, 4);
    let b = BinaryOpNode::new(number("1"), number("2"), plus.clone());
    assert_eq!(*b.left, number("1"));
    assert_eq!(*b.right, number("2"));
    assert_eq!(b.operator, plus);
    assert_eq!(b.display(), "(1 + 2)");

    let sign = Token::new(TypeOfToken::OPERATOR, "-".to_string(), 1, 1);
    let u = UnaryOpNode::new(number("7"), sign.clone());
    assert_eq!(*u.node, number("7"));
    assert_eq!(u.operator, sign);
    assert_eq!(u.display(), "-7");

    let v = VariableNode::new("x".to_string(), Box::new(number("5")));
    assert_eq!(v.name, "x");
    assert_eq!(*v.value, number("5"));
    assert_eq!(v.display(), "x = 5");

    let c = VariableCallNode::new("x".to_string());
    assert_eq!(c.name, "x");
    assert_eq!(c.display(), "x");

    let p = PrintNode::new(number("5"));
    assert_eq!(*p.node, number("5"));
    assert_eq!(p.display(), "print(5)");
}

#[test]
fn trees_are_written_out() {
    let nodes = parse("print 1 + 2 * 3").unwrap();
    assert_eq!(nodes[0].display(), "print((1 + (2 * 3)))");
    let nodes = parse("var x = -(4 / 2) - y").unwrap();
    assert_eq!(nodes[0].display(), "x = (-(4 / 2) - y)");
    let nodes = parse("\"a b\"").unwrap();
    assert_eq!(nodes[0].display(), "\"a b\"");
    let nodes = parse("print \"a\" + \"b\"").unwrap();
    assert_eq!(nodes[0].display(), "print((\"a\" + \"b\"))");
}

#[test]
fn a_copy_is_equal_to_the_tree() {
    let nodes = parse("var x = -(4 / 2) - y print \"s\" + x").unwrap();
    for node in &nodes {
        assert_eq!(&node.copy(), node);
        assert_eq!(&node.clone(), node);
    }
}

fn written_and_read_back(tree: &ASTNode) -> Vec<ASTNode> {
    parse(&tree.display()).unwrap()
}

#[test]
fn arithmetic_written_out_reads_back_as_itself() {
    let trees = vec![
        number("1"),
        number("3.25"),
        number("7."),
        minus(number("2")),
        minus(minus(number("2"))),
        binary("+", number("1"), number("2")),
        binary("-", number("1"), binary("-", number("2"), number("3"))),
        binary("*", binary("+", number("1"), number("2")), number("3")),
        binary("/", minus(number("8.5")), binary("*", number("2"), minus(number("0.")))),
        minus(binary("-", minus(number("1")), minus(binary("+", number("2"), number("3"))))),
        binary("+", binary("+", binary("+", number("1"), number("2")), number("3")), number("4")),
        binary("+", number("1"), binary("+", number("2"), binary("+", number("3"), number("4")))),
        text("a"),
        text(""),
        text("1 + 2"),
        text("two words\nand # a second line ) ("),
        binary("+", text("a"), number("1")),
        binary("+", text("a"), text("b")),
        binary("*", minus(text("x")), binary("/", text("("), text(")"))),
    ];
    for tree in &trees {
        let back = written_and_read_back(tree);
        assert_eq!(back.len(), 1);
        assert_eq!(outline(&back[0]), outline(tree));
        assert_eq!(back[0].display(), tree.display());
    }
}

#[test]
fn what_the_parser_builds_reads_back_as_itself() {
    for source in [
        "1 + 2 * 3",
        "(1 + 2) * 3",
        "-(1 - -2) / 4.5",
        "1 - 2 - 3",
        "1 - (2 - 3)",
        "\"a\" + \"b\" * 2",
        "-\"\" - (\"x y\" + 1)",
    ] {
        let first = parse(source).unwrap();
        assert_eq!(first.len(), 1);
        let second = written_and_read_back(&first[0]);
        assert_eq!(second.len(), 1);
        assert_eq!(outline(&second[0]), outline(&first[0]));
    }
}

#[test]
fn a_string_literal_reads_back_as_a_string_literal() {
    let tree = binary("+", text("a"), number("1"));
    assert_eq!(tree.display(), "(\"a\" + 1)");
    let tokens = Lexer::new(tree.display()).tokenize();
    let back = Parser::new(Some(tokens)).parse().unwrap();
    assert_eq!(back.len(), 1);
    assert_eq!(outline(&back[0]), "Binary(+, String(a), Number(1))");
    match &back[0] {
        ASTNode::BinaryOp(sum) => {
            assert!(matches!(&*sum.left, ASTNode::String(s) if s.value == "a"));
            assert!(matches!(&*sum.right, ASTNode::Number(n) if n.value == "1"));
        }
        _ => panic!("the statement is no sum"),
    }
    let alone = written_and_read_back(&text("a"));
    assert_eq!(alone.len(), 1);
    assert!(matches!(&alone[0], ASTNode::String(s) if s.value == "a"));
}
