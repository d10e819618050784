use kern::front::ast::{Declaration, Expression, LiteralValue, Program, Statement, Type};
use kern::front::compiler::KernCompiler;
use kern::front::diagnostics::ErrorCode;
use kern::front::lexer::Lexer;
use kern::front::parser::Parser;
use kern::front::token::{SourceLocation, Token, TokenKind};

fn parse(src: &str) -> (Program, Vec<(ErrorCode, String)>) {
    let mut lexer = Lexer::new(src);
    let tokens = lexer.tokenize();
    let mut parser = Parser::new(tokens);
    let program = parser.parse();
    assert!(parser.state.is_at_end());
    let errors = parser
        .get_diagnostics()
        .diagnostics
        .iter()
        .map(|e| (e.code, e.message.clone()))
        .collect();
    (program, errors)
}

fn variable_name(e: &Expression) -> String {
    match e {
        Expression::Variable(v) => v.name.name.clone(),
        _ => panic!("not a variable"),
    }
}

fn flow_steps(program: &Program) -> Vec<&Expression> {
    match &program.declarations[0] {
        Declaration::Flow(f) => f.steps.iter().map(|s| &s.expression).collect(),
        _ => panic!("not a flow"),
    }
}

#[test]
fn parser_reads_an_entity_and_its_fields() {
    let (program, errors) = parse("entity Person { name: sym age: num friend: Person }");
    assert!(errors.is_empty());
    assert_eq!(program.declarations.len(), 1);
    match &program.declarations[0] {
        Declaration::Entity(e) => {
            assert_eq!(e.name.name, "Person");
            assert_eq!(e.fields.len(), 3);
            assert_eq!(e.fields[0].name.name, "name");
            assert!(matches!(e.fields[0].field_type, Type::Sym));
            assert!(matches!(e.fields[1].field_type, Type::Num));
            match &e.fields[2].field_type {
                Type::Identifier(i) => assert_eq!(i.name, "Person"),
                _ => panic!("expected a named type"),
            }
        },
        _ => panic!("expected an entity"),
    }
    assert_eq!(program.span.start, program.declarations[0].span().start);
}

#[test]
fn parser_reads_a_rule_condition_and_action() {
    let (program, errors) = parse("rule Adult { age >= 18 then { notify(age); } }");
    assert!(errors.is_empty());
    match &program.declarations[0] {
        Declaration::Rule(r) => {
            assert_eq!(r.name.name, "Adult");
            match &r.condition.expression {
                Expression::Binary(b) => {
                    assert_eq!(b.operator, TokenKind::GreaterEqual);
                    assert_eq!(variable_name(&b.left), "age");
                    assert!(matches!(&*b.right, Expression::Literal(l) if matches!(&l.value, LiteralValue::Number(n) if n == "18")));
                },
                _ => panic!("expected a comparison"),
            }
            assert_eq!(r.action.statements.len(), 1);
            match &r.action.statements[0] {
                Statement::Expression(s) => assert!(matches!(s.expression, Expression::Call(_))),
                _ => panic!("expected an expression statement"),
            }
        },
        _ => panic!("expected a rule"),
    }
}

#[test]
fn parser_binds_products_tighter_than_sums() {
    let (program, errors) = parse("flow F { a + b * c }");
    assert!(errors.is_empty());
    let steps = flow_steps(&program);
    assert_eq!(steps.len(), 1);
    match steps[0] {
        Expression::Binary(sum) => {
            assert_eq!(sum.operator, TokenKind::Plus);
            assert_eq!(variable_name(&sum.left), "a");
            match &*sum.right {
                Expression::Binary(product) => {
                    assert_eq!(product.operator, TokenKind::Star);
                    assert_eq!(variable_name(&product.left), "b");
                    assert_eq!(variable_name(&product.right), "c");
                },
                _ => panic!("expected a product"),
            }
        },
        _ => panic!("expected a sum"),
    }
}

#[test]
fn parser_reads_calls_members_and_indexes() {
    let (program, errors) = parse("flow F { log(a, b.c, d[0]) }");
    assert!(errors.is_empty());
    let steps = flow_steps(&program);
    match steps[0] {
        Expression::Call(call) => {
            assert_eq!(variable_name(&call.callee), "log");
            assert_eq!(call.arguments.len(), 3);
            assert!(matches!(&call.arguments[1], Expression::Member(m) if m.property.name == "c"));
            assert!(matches!(&call.arguments[2], Expression::Index(_)));
        },
        _ => panic!("expected a call"),
    }
}

#[test]
fn parser_trims_string_literals_and_keeps_number_text() {
    let one = |src: &str| {
        let (program, errors) = parse(src);
        assert!(errors.is_empty(), "{:?}", errors);
        let steps = flow_steps(&program);
        assert_eq!(steps.len(), 1);
        match &program.declarations[0] {
            Declaration::Flow(f) => format!("{:?}", f.steps[0].expression),
            _ => panic!("not a flow"),
        }
    };
    assert!(one("flow F { \"hello\" }").contains("String(\"ell\")"));
    assert!(one("flow F { 3.25 }").contains("Number(\"3.25\")"));
    assert!(one("flow F { -x }").starts_with("Unary"));
    assert!(one("flow F { !ok }").starts_with("Unary"));
    assert!(one("flow F { (y) }").starts_with("Grouping"));
}

#[test]
fn parser_reads_a_bang_after_an_expression_as_a_missing_operator() {
    let (_, errors) = parse("flow F { a !b }");
    assert_eq!(errors[0], (ErrorCode::ExpectedOperator, "Expected operator, found Bang".to_string()));
}

#[test]
fn parser_reads_control_statements() {
    // `while`, `for`, `return`, `break` and `continue` are no reserved
    // words of the lexer: these tokens are made by hand.
    let kinds = vec![
        TokenKind::Rule, TokenKind::Identifier, TokenKind::LeftBrace, TokenKind::Identifier, TokenKind::Then, TokenKind::LeftBrace,
        TokenKind::If, TokenKind::LeftParen, TokenKind::Identifier, TokenKind::RightParen, TokenKind::Identifier, TokenKind::Semicolon, TokenKind::Else, TokenKind::Identifier, TokenKind::Semicolon,
        TokenKind::While, TokenKind::LeftParen, TokenKind::Identifier, TokenKind::RightParen, TokenKind::Identifier, TokenKind::Semicolon,
        TokenKind::For, TokenKind::LeftParen, TokenKind::Semicolon, TokenKind::Semicolon, TokenKind::RightParen, TokenKind::Identifier, TokenKind::Semicolon,
        TokenKind::For, TokenKind::LeftParen, TokenKind::Identifier, TokenKind::Semicolon, TokenKind::Semicolon, TokenKind::Identifier, TokenKind::Less, TokenKind::NumberLiteral,
        TokenKind::Semicolon, TokenKind::Identifier, TokenKind::Plus, TokenKind::NumberLiteral, TokenKind::RightParen, TokenKind::Identifier, TokenKind::Semicolon,
        TokenKind::Return, TokenKind::NumberLiteral, TokenKind::Semicolon, TokenKind::Break, TokenKind::Continue, TokenKind::RightBrace, TokenKind::RightBrace, TokenKind::Eof,
    ];
    let tokens: Vec<Token> = kinds
        .iter()
        .enumerate()
        .map(|(i, k)| {
            let text = if *k == TokenKind::Identifier { "v" } else if *k == TokenKind::NumberLiteral { "1" } else { "" };
            Token::new(*k, text.to_string(), SourceLocation::new(1, i + 1, i))
        })
        .collect();
    let mut parser = Parser::new(tokens);
    let program = parser.parse();
    let errors: Vec<ErrorCode> = parser.state.diagnostics.diagnostics.iter().map(|e| e.code).collect();
    assert!(errors.is_empty(), "{:?}", errors);
    match &program.declarations[0] {
        Declaration::Rule(r) => {
            let s = &r.action.statements;
            assert_eq!(s.len(), 7);
            assert!(matches!(&s[0], Statement::If(i) if i.else_branch.is_some()));
            assert!(matches!(&s[1], Statement::While(_)));
            match &s[2] {
                Statement::For(f) => {
                    assert!(f.initializer.is_none());
                    assert!(f.increment.is_none());
                    assert!(matches!(&f.condition, Expression::Literal(l) if matches!(l.value, LiteralValue::Boolean(true))));
                },
                _ => panic!("expected a for statement"),
            }
            match &s[3] {
                Statement::For(f) => {
                    assert!(f.initializer.is_some());
                    assert!(f.increment.is_some());
                },
                _ => panic!("expected a for statement"),
            }
            assert!(matches!(&s[4], Statement::Return(ret) if ret.value.is_some()));
            assert!(matches!(&s[5], Statement::Break(_)));
            assert!(matches!(&s[6], Statement::Continue(_)));
        },
        _ => panic!("expected a rule"),
    }
}

#[test]
fn parser_takes_no_assignment_at_the_start_of_a_statement() {
    // An expression read from the loosest binding strength stops before `=`.
    let (program, errors) = parse("rule R { x then { a = 1; } }");
    assert!(program.declarations.is_empty());
    let codes: Vec<ErrorCode> = errors.iter().map(|e| e.0).collect();
    assert_eq!(
        codes,
        vec![ErrorCode::MissingSemicolon, ErrorCode::ExpectedExpression, ErrorCode::MissingRightBrace, ErrorCode::ExpectedRuleAction]
    );
}

#[test]
fn parser_stops_before_an_assignment_inside_parentheses() {
    let (program, errors) = parse("flow F { (a = 1) }");
    let codes: Vec<ErrorCode> = errors.iter().map(|e| e.0).collect();
    assert_eq!(codes, vec![ErrorCode::MissingRightParen, ErrorCode::ExpectedExpression]);
    let steps = flow_steps(&program);
    assert_eq!(steps.len(), 1);
    assert!(matches!(steps[0], Expression::Grouping(g) if matches!(&*g.expression, Expression::Variable(_))));
}

#[test]
fn parser_recovers_at_the_next_declaration() {
    let (program, errors) = parse("entity { } rule R { x then { y; } }");
    assert_eq!(program.declarations.len(), 1);
    assert!(matches!(&program.declarations[0], Declaration::Rule(r) if r.name.name == "R"));
    assert_eq!(errors, vec![(ErrorCode::ExpectedIdentifier, "Expected entity name".to_string())]);
}

#[test]
fn parser_reports_a_stray_token_at_the_top() {
    let (program, errors) = parse("x entity E { }");
    assert_eq!(program.declarations.len(), 1);
    assert_eq!(
        errors,
        vec![(ErrorCode::ExpectedDeclaration, "Expected entity, rule, flow, or constraint declaration, found Identifier".to_string())]
    );
}

#[test]
fn parser_ends_a_block_at_a_statement_that_takes_no_token() {
    let (program, errors) = parse("rule R { x then { ) } }");
    assert!(program.declarations.is_empty());
    let codes: Vec<ErrorCode> = errors.iter().map(|e| e.0).collect();
    assert_eq!(codes, vec![ErrorCode::ExpectedExpression, ErrorCode::MissingRightBrace, ErrorCode::ExpectedRuleAction]);
    assert_eq!(errors[0].1, "Expected expression, found RightParen");
}

#[test]
fn parser_reports_a_missing_type() {
    let (program, errors) = parse("entity E { a: 5 b: bool }");
    assert_eq!(errors[0], (ErrorCode::ExpectedTypeName, "Expected type name, found NumberLiteral".to_string()));
    match &program.declarations[0] {
        Declaration::Entity(e) => {
            assert_eq!(e.fields.len(), 1);
            assert_eq!(e.fields[0].name.name, "b");
        },
        _ => panic!("expected an entity"),
    }
}

#[test]
fn empty_program_spans_from_the_origin() {
    let (program, errors) = parse("");
    assert!(errors.is_empty());
    assert!(program.declarations.is_empty());
    assert_eq!(program.span.start.line, 1);
    assert_eq!(program.span.start.column, 1);
    assert_eq!(program.span.start.offset, 0);
}

#[test]
fn compile_gives_the_program_without_errors() {
    let mut compiler = KernCompiler::new();
    let program = compiler.compile("entity E { a: sym } flow F { go(E) }");
    assert!(program.is_some());
    assert_eq!(program.unwrap().declarations.len(), 2);
    assert!(!compiler.diagnostics.has_errors());
}

#[test]
fn compile_records_lexer_and_parser_errors() {
    let mut compiler = KernCompiler::new();
    let program = compiler.compile("entity E { a: sym } @");
    assert!(program.is_none());
    let d = &compiler.diagnostics.diagnostics;
    assert_eq!(d.len(), 2);
    assert_eq!(d[0].code, ErrorCode::UnexpectedCharacter);
    assert_eq!(d[0].message, "Unexpected character: @");
    assert_eq!(d[1].code, ErrorCode::ExpectedDeclaration);
    assert_eq!(d[1].message, "Expected entity, rule, flow, or constraint declaration, found Error");
}

#[test]
fn compile_keeps_earlier_errors() {
    let mut compiler = KernCompiler::new();
    assert!(compiler.compile("entity").is_none());
    assert!(compiler.compile("entity E { }").is_none());
    assert_eq!(compiler.diagnostics.diagnostics.len(), 1);
}

#[test]
fn parser_associates_operators_of_one_strength_to_the_left() {
    let (program, errors) = parse("flow F { a - b - c }");
    assert!(errors.is_empty());
    let steps = flow_steps(&program);
    match steps[0] {
        Expression::Binary(outer) => {
            assert_eq!(outer.operator, TokenKind::Minus);
            assert_eq!(variable_name(&outer.right), "c");
            match &*outer.left {
                Expression::Binary(inner) => {
                    assert_eq!(variable_name(&inner.left), "a");
                    assert_eq!(variable_name(&inner.right), "b");
                },
                _ => panic!("expected a difference on the left"),
            }
        },
        _ => panic!("expected a difference"),
    }
}

#[test]
fn parser_applies_a_unary_operator_before_a_binary_one() {
    let (program, errors) = parse("flow F { -a * b }");
    assert!(errors.is_empty());
    let steps = flow_steps(&program);
    match steps[0] {
        Expression::Binary(product) => {
            assert_eq!(product.operator, TokenKind::Star);
            assert!(matches!(&*product.left, Expression::Unary(u) if u.operator == TokenKind::Minus));
            assert_eq!(variable_name(&product.right), "b");
        },
        _ => panic!("expected a product"),
    }
}

#[test]
fn compile_asks_for_string_literals_it_can_read() {
    assert!(KernCompiler::can_compile("flow F { \"ab\" }"));
    assert!(KernCompiler::can_compile("flow F { \"a\u{e9}b\" }"));
    assert!(KernCompiler::can_compile("flow F { x }"));
    assert!(!KernCompiler::can_compile("flow F { \"\" }"));
    assert!(!KernCompiler::can_compile("flow F { \"a\" }"));
    assert!(!KernCompiler::can_compile("flow F { \"\u{e9}x\" }"));
}

#[test]
fn parser_is_ready_on_lexed_tokens_with_readable_strings() {
    let ready = |src: &str| Parser::new(Lexer::new(src).tokenize()).is_ready();
    assert!(ready("flow F { x + \"ab\" }"));
    assert!(!ready("flow F { \"\" }"));
    assert!(!Parser::new(Vec::new()).is_ready());
    let eofless = vec![Token::new(TokenKind::Identifier, "x".to_string(), SourceLocation { line: 1, column: 1, offset: 0 })];
    assert!(!Parser::new(eofless).is_ready());
}
