use hrm_compiler::compiler::{Command, Label, LabelRef, Reference};
use hrm_compiler::lexer::lex;
use hrm_compiler::nodes::{
    block_label_count, block_to_command, Add, Assign, Break, Decrement, Deref, Expression,
    ExpressionNode, GreaterOrEqualToZero, GreaterThanZero, If, IfElse, Increment, Input, IsZero,
    LessOrEqualToZero, LessThanZero, Logical, LogicalNode, Loop, NotZero, Number, Output,
    Subtract, Value, ValueNode, While,
};
use hrm_compiler::parser::parse_tokens;
use hrm_compiler::CompileError;

fn literal_node(n: u8) -> Box<ValueNode> {
    Box::new(ValueNode::Number(Number::new(n)))
}

fn place(n: u8) -> Box<ValueNode> {
    Box::new(ValueNode::Deref(Deref::new(literal_node(n))))
}

fn read(n: u8) -> Box<ExpressionNode> {
    Box::new(ExpressionNode::Deref(Deref::new(literal_node(n))))
}

fn inbox() -> Box<ExpressionNode> {
    Box::new(ExpressionNode::Input(Input {}))
}

fn label(n: u8) -> Command {
    let mut counter = n;
    Command::Label(Label::new(&mut counter))
}

fn to(n: u8) -> LabelRef {
    let mut counter = n;
    Label::new(&mut counter).reference()
}

fn compiled(source: &str, scratch: u8) -> Result<Vec<Command>, CompileError> {
    let ast = parse_tokens(lex(source).unwrap())?;
    assert!(ast.label_count() <= 255);
    ast.to_commands(scratch)
}

fn generated(node: &ExpressionNode, first_label: u8, scratch: u8) -> (Result<Vec<Command>, CompileError>, u8) {
    assert!(node.label_count() + first_label as usize <= 255);
    let mut counter = first_label;
    let code = node.to_command(&mut counter, scratch);
    (code, counter)
}

/// How control leaves a fragment of code.
#[derive(Debug, PartialEq, Eq)]
enum Exit {
    Through,
    At(LabelRef),
}

/// Runs `code` on a machine whose inbox holds `inbox`, first value first.
fn simulate(code: &[Command], inbox: &[i32]) -> Exit {
    let mut accumulator: Option<i32> = None;
    let mut memory = [0i32; 256];
    let mut next_input = 0;
    let mut at = 0;
    let mut steps = 0;
    while at < code.len() {
        steps += 1;
        assert!(steps < 10_000);
        let mut jump: Option<LabelRef> = None;
        match &code[at] {
            Command::Inbox => {
                accumulator = Some(inbox[next_input]);
                next_input += 1;
            }
            Command::Outbox => accumulator = None,
            Command::CopyTo(Reference::Pointer(n)) => memory[*n as usize] = accumulator.unwrap(),
            Command::CopyFrom(Reference::Pointer(n)) => accumulator = Some(memory[*n as usize]),
            Command::Add(Reference::Pointer(n)) => {
                accumulator = Some(accumulator.unwrap() + memory[*n as usize])
            }
            Command::Subtract(Reference::Pointer(n)) => {
                accumulator = Some(accumulator.unwrap() - memory[*n as usize])
            }
            Command::Jump(target) => jump = Some(*target),
            Command::JumpIfZero(target) => {
                if accumulator.unwrap() == 0 {
                    jump = Some(*target)
                }
            }
            Command::JumpIfNegative(target) => {
                if accumulator.unwrap() < 0 {
                    jump = Some(*target)
                }
            }
            Command::Label(_) => {}
            other => panic!("the simulator does not know {:?}", other),
        }
        match jump {
            None => at += 1,
            Some(target) => {
                let place = code.iter().position(|c| match c {
                    Command::Label(l) => l.reference() == target,
                    _ => false,
                });
                match place {
                    Some(p) => at = p + 1,
                    None => return Exit::At(target),
                }
            }
        }
    }
    Exit::Through
}

#[test]
fn the_empty_program_has_no_code() {
    assert_eq!(compiled("", 0), Ok(vec![]));
    assert_eq!(parse_tokens(vec![]).unwrap().label_count(), 0);
}

#[test]
fn labels_come_from_the_counter_in_order() {
    let mut counter = 0u8;
    let first = Label::new(&mut counter);
    assert_eq!(counter, 1);
    let second = Label::new(&mut counter);
    assert_eq!(counter, 2);
    assert_ne!(first, second);
    assert_eq!(first.reference(), LabelRef::new(&first));
    assert_ne!(first.reference(), second.reference());
    let mut late = 254u8;
    let last = Label::new(&mut late);
    assert_eq!(late, 255);
    assert_eq!(last.to_string(), "po:");
}

#[test]
fn a_value_resolves_to_a_literal_a_cell_or_a_pointed_cell() {
    assert_eq!(Number::new(7).value(), Ok(Reference::Number(7)));
    assert_eq!(literal_node(7).value(), Ok(Reference::Number(7)));
    assert_eq!(Deref::new(literal_node(7)).value(), Ok(Reference::Pointer(7)));
    assert_eq!(
        Deref::new(place(7)).value(),
        Ok(Reference::PointerPointer(7))
    );
    let twice = Box::new(ValueNode::Deref(Deref::new(place(7))));
    assert_eq!(
        Deref::new(twice).value(),
        Err(CompileError::NumberInsertionError)
    );
    let twice = Box::new(ValueNode::Deref(Deref::new(place(7))));
    let thrice = Box::new(ValueNode::Deref(Deref::new(twice)));
    assert_eq!(
        Deref::new(thrice).value(),
        Err(CompileError::NumberInsertionError)
    );
}

#[test]
fn a_copy_of_a_value_equals_it() {
    let v = ValueNode::Deref(Deref::new(place(3)));
    assert_eq!(v.clone(), v);
    assert_eq!(Number::new(4).clone(), Number::new(4));
}

#[test]
fn a_cell_is_read_into_the_accumulator() {
    assert_eq!(
        compiled("*5;", 0),
        Ok(vec![Command::CopyFrom(Reference::Pointer(5))])
    );
    assert_eq!(
        compiled("**5;", 0),
        Ok(vec![Command::CopyFrom(Reference::PointerPointer(5))])
    );
}

#[test]
fn input_and_output_are_one_command_each() {
    assert_eq!(compiled("input();", 0), Ok(vec![Command::Inbox]));
    assert_eq!(
        compiled("output(*3);", 0),
        Ok(vec![
            Command::CopyFrom(Reference::Pointer(3)),
            Command::Outbox
        ])
    );
}

#[test]
fn an_assignment_evaluates_and_then_stores() {
    assert_eq!(
        compiled("*1 = input(); **2 = *1;", 0),
        Ok(vec![
            Command::Inbox,
            Command::CopyTo(Reference::Pointer(1)),
            Command::CopyFrom(Reference::Pointer(1)),
            Command::CopyTo(Reference::PointerPointer(2)),
        ])
    );
}

#[test]
fn an_assignment_to_a_literal_stores_to_the_literal() {
    let node = ExpressionNode::Assign(Assign::new(literal_node(3), read(1)));
    assert_eq!(
        generated(&node, 0, 0).0,
        Ok(vec![
            Command::CopyFrom(Reference::Pointer(1)),
            Command::CopyTo(Reference::Number(3))
        ])
    );
}

#[test]
fn a_sum_keeps_its_left_side_in_the_scratch_cell() {
    assert_eq!(
        compiled("*5 = *5 + *6;", 9),
        Ok(vec![
            Command::CopyFrom(Reference::Pointer(5)),
            Command::CopyTo(Reference::Pointer(9)),
            Command::CopyFrom(Reference::Pointer(6)),
            Command::Add(Reference::Pointer(9)),
            Command::CopyTo(Reference::Pointer(5)),
        ])
    );
}

#[test]
fn a_difference_keeps_its_right_side_in_the_scratch_cell() {
    assert_eq!(
        compiled("*5 = *7 - *6;", 0),
        Ok(vec![
            Command::CopyFrom(Reference::Pointer(6)),
            Command::CopyTo(Reference::Pointer(0)),
            Command::CopyFrom(Reference::Pointer(7)),
            Command::Subtract(Reference::Pointer(0)),
            Command::CopyTo(Reference::Pointer(5)),
        ])
    );
}

#[test]
fn a_difference_is_the_left_side_less_the_right_side() {
    let code = compiled("*1 = input(); *2 = input(); *3 = *1 - *2; output(*3);", 0).unwrap();
    let mut memory_after = Vec::new();
    for (a, b) in [(7, 3), (3, 7), (0, 0), (-4, 5)] {
        let mut accumulator = 0;
        let mut memory = [0i32; 256];
        let mut inbox = vec![a, b].into_iter();
        for command in &code {
            match command {
                Command::Inbox => accumulator = inbox.next().unwrap(),
                Command::CopyTo(Reference::Pointer(n)) => memory[*n as usize] = accumulator,
                Command::CopyFrom(Reference::Pointer(n)) => accumulator = memory[*n as usize],
                Command::Subtract(Reference::Pointer(n)) => accumulator -= memory[*n as usize],
                Command::Outbox => {}
                other => panic!("unexpected {:?}", other),
            }
        }
        memory_after.push(memory[3]);
    }
    assert_eq!(memory_after, vec![4, -4, 0, -9]);
}

#[test]
fn increment_and_decrement_bump_a_cell() {
    assert_eq!(
        compiled("*4++; *5--;", 0),
        Ok(vec![
            Command::Increment(Reference::Pointer(4)),
            Command::Decrement(Reference::Pointer(5))
        ])
    );
}

#[test]
fn increment_and_decrement_of_anything_but_a_cell_fail() {
    assert_eq!(compiled("**4++;", 0), Err(CompileError::NumberInsertionError));
    assert_eq!(compiled("**4--;", 0), Err(CompileError::NumberInsertionError));
    assert_eq!(compiled("4++;", 0), Err(CompileError::NumberInsertionError));
    assert_eq!(compiled("4--;", 0), Err(CompileError::NumberInsertionError));
}

#[test]
fn break_has_no_code() {
    assert_eq!(compiled("break;", 0), Err(CompileError::Error));
    assert_eq!(compiled("loop { break; }", 0), Err(CompileError::Error));
    assert_eq!(
        generated(&ExpressionNode::Break(Break {}), 4, 0),
        (Err(CompileError::Error), 4)
    );
}

#[test]
fn a_loop_jumps_back_to_its_top() {
    assert_eq!(
        compiled("loop { *1 = input(); output(*1); }", 0),
        Ok(vec![
            label(0),
            Command::Inbox,
            Command::CopyTo(Reference::Pointer(1)),
            Command::CopyFrom(Reference::Pointer(1)),
            Command::Outbox,
            Command::Jump(to(0)),
        ])
    );
    assert_eq!(
        compiled("loop { }", 0),
        Ok(vec![label(0), Command::Jump(to(0))])
    );
}

#[test]
fn an_if_takes_the_label_of_its_condition_first() {
    assert_eq!(
        compiled("if (*1 == 0) { output(*2); }", 0),
        Ok(vec![
            Command::CopyFrom(Reference::Pointer(1)),
            Command::JumpIfZero(to(0)),
            Command::Jump(to(1)),
            label(0),
            Command::CopyFrom(Reference::Pointer(2)),
            Command::Outbox,
            label(1),
        ])
    );
}

#[test]
fn an_if_with_both_blocks_jumps_over_the_second() {
    assert_eq!(
        compiled("if (*1 != 0) { output(*1); } else { output(*2); }", 0),
        Ok(vec![
            Command::CopyFrom(Reference::Pointer(1)),
            Command::JumpIfZero(to(0)),
            Command::CopyFrom(Reference::Pointer(1)),
            Command::Outbox,
            Command::Jump(to(1)),
            label(0),
            Command::CopyFrom(Reference::Pointer(2)),
            Command::Outbox,
            label(1),
        ])
    );
}

#[test]
fn a_while_ends_with_its_bottom_label_and_holds_its_body_once() {
    let code = compiled("while (*1 > 0) { *1 = *1 - *2; }", 0).unwrap();
    assert_eq!(
        code,
        vec![
            label(0),
            Command::CopyFrom(Reference::Pointer(1)),
            Command::JumpIfZero(to(1)),
            Command::JumpIfNegative(to(1)),
            Command::CopyFrom(Reference::Pointer(2)),
            Command::CopyTo(Reference::Pointer(0)),
            Command::CopyFrom(Reference::Pointer(1)),
            Command::Subtract(Reference::Pointer(0)),
            Command::CopyTo(Reference::Pointer(1)),
            Command::Jump(to(0)),
            label(1),
        ]
    );
    assert_eq!(code.last(), Some(&label(1)));
    let stores = code
        .iter()
        .filter(|c| **c == Command::CopyTo(Reference::Pointer(1)))
        .count();
    assert_eq!(stores, 1);
}

#[test]
fn labels_are_numbered_in_the_order_of_their_definitions() {
    let code = compiled(
        "while (*1 <= 0) { if (*2 < 0) { *2++; } else { loop { *3--; } } } if (*4 == *5) { }",
        0,
    )
    .unwrap();
    assert_eq!(
        code,
        vec![
            label(0),
            Command::CopyFrom(Reference::Pointer(1)),
            Command::JumpIfNegative(to(1)),
            Command::JumpIfZero(to(1)),
            Command::Jump(to(6)),
            label(1),
            Command::CopyFrom(Reference::Pointer(2)),
            Command::JumpIfNegative(to(2)),
            Command::Jump(to(3)),
            label(2),
            Command::Increment(Reference::Pointer(2)),
            Command::Jump(to(5)),
            label(3),
            label(4),
            Command::Decrement(Reference::Pointer(3)),
            Command::Jump(to(4)),
            label(5),
            Command::Jump(to(0)),
            label(6),
            Command::CopyFrom(Reference::Pointer(5)),
            Command::CopyTo(Reference::Pointer(0)),
            Command::CopyFrom(Reference::Pointer(4)),
            Command::Subtract(Reference::Pointer(0)),
            Command::JumpIfZero(to(7)),
            Command::Jump(to(8)),
            label(7),
            label(8),
        ]
    );
    let defined: Vec<&Command> = code
        .iter()
        .filter(|c| matches!(c, Command::Label(_)))
        .collect();
    let expected: Vec<Command> = (0..9).map(label).collect();
    assert_eq!(defined, expected.iter().collect::<Vec<&Command>>());
}

#[test]
fn the_counter_moves_past_the_labels_of_the_code() {
    let node = ExpressionNode::While(While::new(
        Box::new(LogicalNode::IsZero(IsZero::new(read(1)))),
        vec![Box::new(ExpressionNode::Loop(Loop::new(vec![])))],
    ));
    assert_eq!(node.label_count(), 4);
    let (code, counter) = generated(&node, 10, 0);
    assert_eq!(counter, 14);
    assert_eq!(
        code,
        Ok(vec![
            label(10),
            Command::CopyFrom(Reference::Pointer(1)),
            Command::JumpIfZero(to(11)),
            Command::Jump(to(13)),
            label(11),
            label(12),
            Command::Jump(to(12)),
            Command::Jump(to(10)),
            label(13),
        ])
    );
}

#[test]
fn the_counter_stays_when_there_is_no_code() {
    let node = ExpressionNode::While(While::new(
        Box::new(LogicalNode::IsZero(IsZero::new(read(1)))),
        vec![
            Box::new(ExpressionNode::Loop(Loop::new(vec![]))),
            Box::new(ExpressionNode::Break(Break {})),
        ],
    ));
    assert_eq!(generated(&node, 10, 0), (Err(CompileError::Error), 10));
    let block = vec![
        Box::new(ExpressionNode::Loop(Loop::new(vec![]))),
        Box::new(ExpressionNode::Increment(Increment::new(literal_node(1)))),
    ];
    assert_eq!(block_label_count(&block), 1);
    let mut counter = 3u8;
    assert_eq!(
        block_to_command(&block, &mut counter, 0),
        Err(CompileError::NumberInsertionError)
    );
    assert_eq!(counter, 3);
}

#[test]
fn the_first_failure_in_the_order_of_the_code_comes_out() {
    let bad_cell = || {
        Box::new(ExpressionNode::Decrement(Decrement::new(literal_node(1))))
    };
    let no_code = || Box::new(ExpressionNode::Break(Break {}));
    let node = ExpressionNode::Add(Add::new(bad_cell(), no_code()));
    assert_eq!(generated(&node, 0, 0).0, Err(CompileError::NumberInsertionError));
    let node = ExpressionNode::Add(Add::new(no_code(), bad_cell()));
    assert_eq!(generated(&node, 0, 0).0, Err(CompileError::Error));
    let node = ExpressionNode::Subtract(Subtract::new(bad_cell(), no_code()));
    assert_eq!(generated(&node, 0, 0).0, Err(CompileError::Error));
    let node = ExpressionNode::If(If::new(
        Box::new(LogicalNode::NotZero(NotZero::new(no_code()))),
        vec![bad_cell()],
    ));
    assert_eq!(generated(&node, 0, 0).0, Err(CompileError::Error));
    let node = ExpressionNode::IfElse(IfElse::new(
        Box::new(LogicalNode::NotZero(NotZero::new(read(1)))),
        vec![bad_cell()],
        vec![no_code()],
    ));
    assert_eq!(generated(&node, 0, 0).0, Err(CompileError::NumberInsertionError));
    let twice = Box::new(ValueNode::Deref(Deref::new(place(7))));
    let node = ExpressionNode::Assign(Assign::new(
        Box::new(ValueNode::Deref(Deref::new(twice))),
        no_code(),
    ));
    assert_eq!(generated(&node, 0, 0).0, Err(CompileError::Error));
    let node = ExpressionNode::Output(Output::new(no_code()));
    assert_eq!(generated(&node, 0, 0).0, Err(CompileError::Error));
}

#[test]
fn label_counts_stop_one_beyond_the_limit() {
    let mut block = Vec::new();
    for _ in 0..300 {
        block.push(Box::new(ExpressionNode::Loop(Loop::new(vec![]))));
    }
    assert_eq!(block_label_count(&block), 256);
    let node = ExpressionNode::Loop(Loop::new(block));
    assert_eq!(node.label_count(), 256);
    let mut fits = Vec::new();
    for _ in 0..254 {
        fits.push(Box::new(ExpressionNode::Loop(Loop::new(vec![]))));
    }
    let node = ExpressionNode::Loop(Loop::new(fits));
    assert_eq!(node.label_count(), 255);
    let (code, counter) = generated(&node, 0, 0);
    assert_eq!(counter, 255);
    assert_eq!(code.unwrap().len(), 2 * 255);
}

fn branches(condition: LogicalNode, value: i32) -> bool {
    let mut counter = 0u8;
    let target = Label::new(&mut counter).reference();
    assert!(condition.label_count() <= 1);
    let code = condition.to_commands(target, &mut counter, 0).unwrap();
    match simulate(&code, &[value]) {
        Exit::Through => false,
        Exit::At(label) => {
            assert_eq!(label, target);
            true
        }
    }
}

#[test]
fn the_jumps_of_each_comparison_branch_exactly_when_it_does_not_hold() {
    for value in [-1, 0, 1, -300, 300] {
        assert_eq!(
            branches(LogicalNode::IsZero(IsZero::new(inbox())), value),
            !(value == 0)
        );
        assert_eq!(
            branches(LogicalNode::NotZero(NotZero::new(inbox())), value),
            !(value != 0)
        );
        assert_eq!(
            branches(
                LogicalNode::GreaterThanZero(GreaterThanZero::new(inbox())),
                value
            ),
            !(value > 0)
        );
        assert_eq!(
            branches(LogicalNode::LessThanZero(LessThanZero::new(inbox())), value),
            !(value < 0)
        );
        assert_eq!(
            branches(
                LogicalNode::GreaterOrEqualToZero(GreaterOrEqualToZero::new(inbox())),
                value
            ),
            !(value >= 0)
        );
        assert_eq!(
            branches(
                LogicalNode::LessOrEqualToZero(LessOrEqualToZero::new(inbox())),
                value
            ),
            !(value <= 0)
        );
    }
}

#[test]
fn the_code_of_each_comparison() {
    let code = |condition: LogicalNode| {
        let mut counter = 1u8;
        let code = condition.to_commands(to(0), &mut counter, 0).unwrap();
        (code, counter)
    };
    assert_eq!(
        code(LogicalNode::IsZero(IsZero::new(inbox()))),
        (
            vec![
                Command::Inbox,
                Command::JumpIfZero(to(1)),
                Command::Jump(to(0)),
                label(1)
            ],
            2
        )
    );
    assert_eq!(
        code(LogicalNode::NotZero(NotZero::new(inbox()))),
        (vec![Command::Inbox, Command::JumpIfZero(to(0))], 1)
    );
    assert_eq!(
        code(LogicalNode::LessThanZero(LessThanZero::new(inbox()))),
        (
            vec![
                Command::Inbox,
                Command::JumpIfNegative(to(1)),
                Command::Jump(to(0)),
                label(1)
            ],
            2
        )
    );
    assert_eq!(
        code(LogicalNode::GreaterOrEqualToZero(GreaterOrEqualToZero::new(
            inbox()
        ))),
        (vec![Command::Inbox, Command::JumpIfNegative(to(0))], 1)
    );
    assert_eq!(
        code(LogicalNode::GreaterThanZero(GreaterThanZero::new(inbox()))),
        (
            vec![
                Command::Inbox,
                Command::JumpIfZero(to(0)),
                Command::JumpIfNegative(to(0))
            ],
            1
        )
    );
    assert_eq!(
        code(LogicalNode::LessOrEqualToZero(LessOrEqualToZero::new(
            inbox()
        ))),
        (
            vec![
                Command::Inbox,
                Command::JumpIfNegative(to(1)),
                Command::JumpIfZero(to(1)),
                Command::Jump(to(0)),
                label(1)
            ],
            2
        )
    );
}

#[test]
fn a_compiled_loop_runs_as_its_source_says() {
    let code = compiled(
        "*1 = input(); *2 = input(); *3 = *1 - *1; while (*1 > 0) { *3 = *3 + *2; *1--; } output(*3);",
        0,
    )
    .unwrap();
    let mut memory = [0i32; 256];
    let mut accumulator = 0i32;
    let mut inbox = vec![4, 6].into_iter();
    let mut outbox = Vec::new();
    let mut at = 0;
    let mut steps = 0;
    while at < code.len() {
        steps += 1;
        assert!(steps < 10_000);
        let mut jump = None;
        match &code[at] {
            Command::Inbox => accumulator = inbox.next().unwrap(),
            Command::Outbox => outbox.push(accumulator),
            Command::CopyTo(Reference::Pointer(n)) => memory[*n as usize] = accumulator,
            Command::CopyFrom(Reference::Pointer(n)) => accumulator = memory[*n as usize],
            Command::Add(Reference::Pointer(n)) => accumulator += memory[*n as usize],
            Command::Subtract(Reference::Pointer(n)) => accumulator -= memory[*n as usize],
            Command::Decrement(Reference::Pointer(n)) => {
                memory[*n as usize] -= 1;
                accumulator = memory[*n as usize];
            }
            Command::Jump(l) => jump = Some(*l),
            Command::JumpIfZero(l) => {
                if accumulator == 0 {
                    jump = Some(*l)
                }
            }
            Command::JumpIfNegative(l) => {
                if accumulator < 0 {
                    jump = Some(*l)
                }
            }
            Command::Label(_) => {}
            other => panic!("unexpected {:?}", other),
        }
        at = match jump {
            None => at + 1,
            Some(target) => {
                code.iter()
                    .position(|c| matches!(c, Command::Label(l) if l.reference() == target))
                    .unwrap()
                    + 1
            }
        };
    }
    assert_eq!(outbox, vec![24]);
}
