use hrm_compiler::lexer::{lex, Lexeme};
use hrm_compiler::nodes::{
    Add, AnyExpressionType, Assign, Break, Decrement, Deref, ExpressionNode, GreaterOrEqualToZero,
    GreaterThanZero, If, IfElse, Increment, Input, IsZero, LessOrEqualToZero, LessThanZero,
    LogicalNode, Loop, NotZero, Number, Output, Subtract, ValueNode, While,
};
use hrm_compiler::grammar::Grammar;
use hrm_compiler::parser::{parse_tokenized_expression, parse_tokens, AST};
use hrm_compiler::CompileError;

fn literal(n: u8) -> Box<ValueNode> {
    Box::new(ValueNode::Number(Number::new(n)))
}

fn cell_value(n: u8) -> Box<ValueNode> {
    Box::new(ValueNode::Deref(Deref::new(literal(n))))
}

fn cell(n: u8) -> Box<ExpressionNode> {
    Box::new(ExpressionNode::Deref(Deref::new(literal(n))))
}

fn pointed_value(n: u8) -> Box<ValueNode> {
    Box::new(ValueNode::Deref(Deref::new(cell_value(n))))
}

fn pointed(n: u8) -> Box<ExpressionNode> {
    Box::new(ExpressionNode::Deref(Deref::new(cell_value(n))))
}

fn parsed(source: &str) -> Result<AST, CompileError> {
    parse_tokens(lex(source).unwrap())
}

fn program(root: Vec<Box<ExpressionNode>>) -> Result<AST, CompileError> {
    Ok(AST { root })
}

fn condition_of(source: &str) -> Box<LogicalNode> {
    let mut nodes = parse_tokenized_expression(lex(source).unwrap(), &Grammar::new()).unwrap();
    assert_eq!(nodes.len(), 1);
    assert!(nodes[0].is_logical());
    assert!(!nodes[0].is_expression());
    assert!(!nodes[0].is_value());
    nodes.remove(0).logical().unwrap()
}

#[test]
fn no_tokens_are_the_empty_program() {
    assert_eq!(parse_tokens(vec![]), program(vec![]));
    assert_eq!(parsed(""), program(vec![]));
    assert_eq!(
        parse_tokenized_expression(vec![], &Grammar::new()),
        Ok(vec![])
    );
}

#[test]
fn an_assignment_of_a_cell() {
    assert_eq!(
        parsed("*1 = *2;"),
        program(vec![Box::new(ExpressionNode::Assign(Assign::new(
            cell_value(1),
            cell(2)
        )))])
    );
}

#[test]
fn an_assignment_through_a_pointer() {
    assert_eq!(
        parsed("**1 = **2;"),
        program(vec![Box::new(ExpressionNode::Assign(Assign::new(
            pointed_value(1),
            pointed(2)
        )))])
    );
}

#[test]
fn an_assignment_of_a_sum_and_of_a_difference() {
    assert_eq!(
        parsed("*5 = *5 + *6;"),
        program(vec![Box::new(ExpressionNode::Assign(Assign::new(
            cell_value(5),
            Box::new(ExpressionNode::Add(Add::new(cell(5), cell(6))))
        )))])
    );
    assert_eq!(
        parsed("*5 = *7 - **6;"),
        program(vec![Box::new(ExpressionNode::Assign(Assign::new(
            cell_value(5),
            Box::new(ExpressionNode::Subtract(Subtract::new(cell(7), pointed(6))))
        )))])
    );
}

#[test]
fn arithmetic_groups_to_the_right() {
    assert_eq!(
        parsed("*1 = *2 + *3 + *4;"),
        program(vec![Box::new(ExpressionNode::Assign(Assign::new(
            cell_value(1),
            Box::new(ExpressionNode::Add(Add::new(
                cell(2),
                Box::new(ExpressionNode::Add(Add::new(cell(3), cell(4))))
            )))
        )))])
    );
    assert_eq!(
        parsed("*1 = *2 - *3 + *4;"),
        program(vec![Box::new(ExpressionNode::Assign(Assign::new(
            cell_value(1),
            Box::new(ExpressionNode::Add(Add::new(
                Box::new(ExpressionNode::Subtract(Subtract::new(cell(2), cell(3)))),
                cell(4)
            )))
        )))])
    );
}

#[test]
fn a_literal_operand_of_arithmetic_is_an_error() {
    assert_eq!(parsed("*5 = *5 + 1;"), Err(CompileError::Error));
    assert_eq!(parsed("*5 = 1 + *5;"), Err(CompileError::Error));
    assert_eq!(parsed("*1 = *1 - 1;"), Err(CompileError::Error));
    assert_eq!(
        parsed("while (*1 > 0) { *1 = *1 - 1; }"),
        Err(CompileError::Error)
    );
}

#[test]
fn a_literal_as_the_source_of_an_assignment_is_an_error() {
    assert_eq!(parsed("*1 = 5;"), Err(CompileError::Error));
}

#[test]
fn a_literal_as_a_statement_is_an_error() {
    assert_eq!(parsed("5;"), Err(CompileError::Error));
    assert_eq!(parsed("5"), Err(CompileError::Error));
}

#[test]
fn a_cell_alone_is_a_statement() {
    assert_eq!(parsed("*3;"), program(vec![cell(3)]));
    assert_eq!(parsed("*3"), program(vec![cell(3)]));
    assert_eq!(parsed("**3"), program(vec![pointed(3)]));
}

#[test]
fn input_and_output() {
    assert_eq!(
        parsed("input();"),
        program(vec![Box::new(ExpressionNode::Input(Input {}))])
    );
    assert_eq!(
        parsed("output(*2);"),
        program(vec![Box::new(ExpressionNode::Output(Output::new(cell(2))))])
    );
    assert_eq!(
        parsed("*9 = input();"),
        program(vec![Box::new(ExpressionNode::Assign(Assign::new(
            cell_value(9),
            Box::new(ExpressionNode::Input(Input {}))
        )))])
    );
    assert_eq!(
        parsed("output(*1 + *2);"),
        program(vec![Box::new(ExpressionNode::Output(Output::new(Box::new(
            ExpressionNode::Add(Add::new(cell(1), cell(2)))
        ))))])
    );
}

#[test]
fn an_argument_with_parentheses_of_its_own_is_not_matched() {
    assert_eq!(
        parsed("output(input());"),
        Err(CompileError::InvalidCommandError(
            lex("output(input())").unwrap()
        ))
    );
}

#[test]
fn output_of_nothing_or_of_a_literal_is_an_error() {
    assert_eq!(
        parsed("output();"),
        Err(CompileError::InvalidCommandError(vec![
            Lexeme::Output,
            Lexeme::LeftParentheses,
            Lexeme::RightParentheses
        ]))
    );
    assert_eq!(parsed("output(3);"), Err(CompileError::Error));
}

#[test]
fn increment_and_decrement() {
    assert_eq!(
        parsed("*4++;"),
        program(vec![Box::new(ExpressionNode::Increment(Increment::new(
            cell_value(4)
        )))])
    );
    assert_eq!(
        parsed("*4--;"),
        program(vec![Box::new(ExpressionNode::Decrement(Decrement::new(
            cell_value(4)
        )))])
    );
    assert_eq!(
        parsed("4++;"),
        program(vec![Box::new(ExpressionNode::Increment(Increment::new(
            literal(4)
        )))])
    );
    assert_eq!(parsed("input()++;"), Err(CompileError::Error));
}

#[test]
fn statements_keep_their_order() {
    assert_eq!(
        parsed("*1 = input(); output(*1); *1++;"),
        program(vec![
            Box::new(ExpressionNode::Assign(Assign::new(
                cell_value(1),
                Box::new(ExpressionNode::Input(Input {}))
            ))),
            Box::new(ExpressionNode::Output(Output::new(cell(1)))),
            Box::new(ExpressionNode::Increment(Increment::new(cell_value(1)))),
        ])
    );
}

#[test]
fn a_loop_holds_its_statements() {
    assert_eq!(
        parsed("loop { *1 = input(); output(*1); }"),
        program(vec![Box::new(ExpressionNode::Loop(Loop::new(vec![
            Box::new(ExpressionNode::Assign(Assign::new(
                cell_value(1),
                Box::new(ExpressionNode::Input(Input {}))
            ))),
            Box::new(ExpressionNode::Output(Output::new(cell(1)))),
        ])))])
    );
    assert_eq!(
        parsed("loop { }"),
        program(vec![Box::new(ExpressionNode::Loop(Loop::new(vec![])))])
    );
}

#[test]
fn a_block_before_a_statement_and_behind_it() {
    let the_loop = || Box::new(ExpressionNode::Loop(Loop::new(vec![cell(1)])));
    assert_eq!(
        parsed("loop { *1; } *2;"),
        program(vec![the_loop(), cell(2)])
    );
    assert_eq!(
        parsed("*2; loop { *1; }"),
        program(vec![cell(2), the_loop()])
    );
}

#[test]
fn break_is_accepted_by_the_parser() {
    assert_eq!(
        parsed("loop { break; }"),
        program(vec![Box::new(ExpressionNode::Loop(Loop::new(vec![Box::new(
            ExpressionNode::Break(Break {})
        )])))])
    );
}

#[test]
fn an_if_with_a_comparison_against_zero() {
    assert_eq!(
        parsed("if (*1 == 0) { output(*2); }"),
        program(vec![Box::new(ExpressionNode::If(If::new(
            Box::new(LogicalNode::IsZero(IsZero::new(cell(1)))),
            vec![Box::new(ExpressionNode::Output(Output::new(cell(2))))]
        )))])
    );
}

#[test]
fn an_if_with_both_blocks() {
    assert_eq!(
        parsed("if (*1 < *2) { output(*1); } else { output(*2); }"),
        program(vec![Box::new(ExpressionNode::IfElse(IfElse::new(
            Box::new(LogicalNode::LessThanZero(LessThanZero::new(Box::new(
                ExpressionNode::Subtract(Subtract::new(cell(1), cell(2)))
            )))),
            vec![Box::new(ExpressionNode::Output(Output::new(cell(1))))],
            vec![Box::new(ExpressionNode::Output(Output::new(cell(2))))]
        )))])
    );
}

#[test]
fn a_while_holds_its_condition_and_its_statements() {
    assert_eq!(
        parsed("while (*1 > 0) { *1 = *1 - *2; }"),
        program(vec![Box::new(ExpressionNode::While(While::new(
            Box::new(LogicalNode::GreaterThanZero(GreaterThanZero::new(cell(1)))),
            vec![Box::new(ExpressionNode::Assign(Assign::new(
                cell_value(1),
                Box::new(ExpressionNode::Subtract(Subtract::new(cell(1), cell(2))))
            )))]
        )))])
    );
}

#[test]
fn blocks_nest() {
    assert_eq!(
        parsed("loop { if (*1 != 0) { while (*2 >= 0) { *2--; } } }"),
        program(vec![Box::new(ExpressionNode::Loop(Loop::new(vec![Box::new(
            ExpressionNode::If(If::new(
                Box::new(LogicalNode::NotZero(NotZero::new(cell(1)))),
                vec![Box::new(ExpressionNode::While(While::new(
                    Box::new(LogicalNode::GreaterOrEqualToZero(
                        GreaterOrEqualToZero::new(cell(2))
                    )),
                    vec![Box::new(ExpressionNode::Decrement(Decrement::new(
                        cell_value(2)
                    )))]
                )))]
            ))
        )])))])
    );
}

#[test]
fn each_comparison_against_a_literal_zero_on_the_right() {
    assert_eq!(
        condition_of("*1 != 0"),
        Box::new(LogicalNode::NotZero(NotZero::new(cell(1))))
    );
    assert_eq!(
        condition_of("*1 == 0"),
        Box::new(LogicalNode::IsZero(IsZero::new(cell(1))))
    );
    assert_eq!(
        condition_of("*1 <= 0"),
        Box::new(LogicalNode::LessOrEqualToZero(LessOrEqualToZero::new(
            cell(1)
        )))
    );
    assert_eq!(
        condition_of("*1 >= 0"),
        Box::new(LogicalNode::GreaterOrEqualToZero(
            GreaterOrEqualToZero::new(cell(1))
        ))
    );
    assert_eq!(
        condition_of("*1 < 0"),
        Box::new(LogicalNode::LessThanZero(LessThanZero::new(cell(1))))
    );
    assert_eq!(
        condition_of("*1 > 0"),
        Box::new(LogicalNode::GreaterThanZero(GreaterThanZero::new(cell(1))))
    );
}

#[test]
fn each_comparison_of_two_cells_is_one_of_their_difference() {
    let difference = || Box::new(ExpressionNode::Subtract(Subtract::new(cell(1), cell(2))));
    assert_eq!(
        condition_of("*1 != *2"),
        Box::new(LogicalNode::NotZero(NotZero::new(difference())))
    );
    assert_eq!(
        condition_of("*1 == *2"),
        Box::new(LogicalNode::IsZero(IsZero::new(difference())))
    );
    assert_eq!(
        condition_of("*1 <= *2"),
        Box::new(LogicalNode::LessOrEqualToZero(LessOrEqualToZero::new(
            difference()
        )))
    );
    assert_eq!(
        condition_of("*1 >= *2"),
        Box::new(LogicalNode::GreaterOrEqualToZero(
            GreaterOrEqualToZero::new(difference())
        ))
    );
    assert_eq!(
        condition_of("*1 < *2"),
        Box::new(LogicalNode::LessThanZero(LessThanZero::new(difference())))
    );
    assert_eq!(
        condition_of("*1 > *2"),
        Box::new(LogicalNode::GreaterThanZero(GreaterThanZero::new(
            difference()
        )))
    );
}

#[test]
fn a_literal_zero_on_the_left_counts_for_equality_only() {
    assert_eq!(
        condition_of("0 == *1"),
        Box::new(LogicalNode::IsZero(IsZero::new(cell(1))))
    );
    assert_eq!(
        condition_of("0 != *1"),
        Box::new(LogicalNode::NotZero(NotZero::new(cell(1))))
    );
    let grammar = Grammar::new();
    for source in ["0 < *1", "0 > *1", "0 <= *1", "0 >= *1"] {
        assert_eq!(
            parse_tokenized_expression(lex(source).unwrap(), &grammar),
            Err(CompileError::Error)
        );
    }
}

#[test]
fn a_comparison_with_another_literal_is_an_error() {
    let grammar = Grammar::new();
    for source in ["*1 == 3", "3 == *1", "*1 < 1", "0 == 0"] {
        assert_eq!(
            parse_tokenized_expression(lex(source).unwrap(), &grammar),
            Err(CompileError::Error)
        );
    }
}

#[test]
fn a_comparison_is_no_statement() {
    assert_eq!(parsed("*1 == 0;"), Err(CompileError::Error));
}

#[test]
fn an_expression_is_no_condition() {
    assert_eq!(parsed("if (*1) { }"), Err(CompileError::Error));
    assert_eq!(parsed("while (input()) { }"), Err(CompileError::Error));
}

#[test]
fn a_condition_of_no_node_or_of_several_is_an_error() {
    let tokens = lex("if () { }").unwrap();
    assert_eq!(
        parse_tokens(tokens.clone()),
        Err(CompileError::InvalidCommandError(tokens))
    );
    let tokens = lex("while (*1 == 0 ; *2) { }").unwrap();
    assert!(matches!(
        parse_tokens(tokens),
        Err(CompileError::InvalidCommandError(_))
    ));
}

#[test]
fn an_assignment_without_a_right_side_is_an_error() {
    assert_eq!(
        parsed("*1 = ;"),
        Err(CompileError::InvalidCommandError(vec![
            Lexeme::Star,
            Lexeme::Number(1),
            Lexeme::Equals
        ]))
    );
}

#[test]
fn tokens_that_nothing_matches_are_an_error() {
    assert_eq!(
        parsed("="),
        Err(CompileError::InvalidCommandError(vec![Lexeme::Equals]))
    );
    assert_eq!(
        parsed("***1"),
        Err(CompileError::InvalidCommandError(vec![Lexeme::Star]))
    );
    assert_eq!(
        parsed("*1 = *2; )"),
        Err(CompileError::InvalidCommandError(vec![
            Lexeme::RightParentheses
        ]))
    );
}

#[test]
fn a_number_that_does_not_stand_first_is_an_error() {
    let tokens = vec![Lexeme::LeftParentheses, Lexeme::Number(3)];
    assert_eq!(
        parse_tokens(tokens.clone()),
        Err(CompileError::InvalidCommandError(tokens))
    );
}

#[test]
fn fifty_statements_are_within_the_budget_and_one_more_is_not() {
    let fifty = "*1++;".repeat(50);
    assert_eq!(parsed(&fifty).unwrap().root.len(), 50);
    let more = "*1++;".repeat(51);
    assert_eq!(
        parsed(&more),
        Err(CompileError::InvalidCommandError(lex("*1++;").unwrap()))
    );
}

#[test]
fn the_budget_counts_each_block_by_itself() {
    let body = "*1++;".repeat(50);
    let source = format!("loop {{ {} }} loop {{ {} }}", body, body);
    let ast = parsed(&source).unwrap();
    assert_eq!(ast.root.len(), 2);
}

#[test]
fn a_node_tells_its_capabilities() {
    let grammar = Grammar::new();
    let nodes = parse_tokenized_expression(lex("*1").unwrap(), &grammar).unwrap();
    assert_eq!(nodes.len(), 1);
    assert!(nodes[0].is_expression());
    assert!(nodes[0].is_value());
    assert!(!nodes[0].is_logical());
    assert_eq!(nodes[0].expression_ref(), &Some(cell(1)));
    assert_eq!(nodes[0].value_ref(), &Some(cell_value(1)));
    assert_eq!(nodes[0].logical_ref(), &None);
    let nodes = parse_tokenized_expression(lex("0").unwrap(), &grammar).unwrap();
    assert_eq!(nodes, vec![AnyExpressionType::new(None, Some(literal(0)), None)]);
    assert!(nodes[0].is_literal_zero());
    let nodes = parse_tokenized_expression(lex("1").unwrap(), &grammar).unwrap();
    assert!(!nodes[0].is_literal_zero());
    assert!(nodes[0].is_value());
}

#[test]
fn a_node_is_filed_under_the_capability_it_is_made_from() {
    let e = AnyExpressionType::from(cell(1));
    assert_eq!(e, AnyExpressionType::new(Some(cell(1)), None, None));
    assert_eq!(e.expression(), Some(cell(1)));
    let v = AnyExpressionType::from(literal(2));
    assert_eq!(v, AnyExpressionType::new(None, Some(literal(2)), None));
    assert_eq!(v.value(), Some(literal(2)));
    let c = Box::new(LogicalNode::IsZero(IsZero::new(cell(1))));
    let l = AnyExpressionType::from(Box::new(LogicalNode::IsZero(IsZero::new(cell(1)))));
    assert!(l.is_logical());
    assert_eq!(l.logical(), Some(c));
}

#[test]
fn a_program_takes_expressions_only() {
    assert_eq!(
        AST::new(vec![
            AnyExpressionType::from(cell(1)),
            AnyExpressionType::from(cell(2))
        ]),
        program(vec![cell(1), cell(2)])
    );
    assert_eq!(
        AST::new(vec![
            AnyExpressionType::from(cell(1)),
            AnyExpressionType::from(literal(2))
        ]),
        Err(CompileError::Error)
    );
    assert_eq!(AST::new(vec![]), program(vec![]));
}
