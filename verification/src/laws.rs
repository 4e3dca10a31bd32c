//! What holds of the compiler as a whole, stated over the functions that
//! the contracts of its parts use.
use crate::compiler::{program_text, Command, Label, LabelRef};
use crate::grammar::Construct;
use crate::lexer::{tokens_of, Lexeme};
use crate::model::{
    block_code, block_labels, code, logical_code, logical_labels, AnyModel, ExpressionModel,
    LogicalModel,
};
use crate::parser::{join_arithmetic, join_assign, program, reduce, without};
use crate::pattern::{ranges_ascend, well_formed_match, Quantity};
use crate::CompileErrorView;
use std::ops::Range;
use vstd::prelude::*;

verus! {

/// A source text without characters has no tokens, no tokens are the program
/// without statements, and that program has no commands: its text is the
/// heading alone.
pub proof fn empty_source_is_empty_program(passes: nat, start: nat, scratch: u8)
    ensures
        tokens_of(Seq::<char>::empty()) == Ok::<Seq<Lexeme>, Seq<char>>(Seq::empty()),
        reduce(Seq::<Lexeme>::empty(), passes) == Ok::<Seq<AnyModel>, CompileErrorView>(
            Seq::empty(),
        ),
        program(Seq::<Lexeme>::empty()) == Ok::<Seq<ExpressionModel>, CompileErrorView>(
            Seq::empty(),
        ),
        block_labels(Seq::<ExpressionModel>::empty()) == 0,
        block_code(Seq::<ExpressionModel>::empty(), start, scratch) == Ok::<
            Seq<Command>,
            CompileErrorView,
        >(Seq::empty()),
        program_text(Seq::<Command>::empty()) == Some(
            "-- HUMAN RESOURCE MACHINE PROGRAM --\n\n"@,
        ),
{
    let nodes = Seq::<AnyModel>::empty();
    assert(Seq::new(nodes.len(), |i: int| nodes[i].expression.unwrap()) =~= Seq::<
        ExpressionModel,
    >::empty());
    assert("-- HUMAN RESOURCE MACHINE PROGRAM --\n\n"@ + Seq::<char>::empty()
        =~= "-- HUMAN RESOURCE MACHINE PROGRAM --\n\n"@);
}

/// The code of a `while` is the definition of its top label, the code of
/// its condition, the code of its body once, the jump to the top, and the
/// definition of its bottom label, behind which nothing stands.
pub proof fn while_code_ends_at_its_bottom(
    condition: LogicalModel,
    contents: Seq<ExpressionModel>,
    start: nat,
    scratch: u8,
)
    requires
        code(ExpressionModel::While(Box::new(condition), contents), start, scratch) is Ok,
    ensures
        ({
            let whole = code(
                ExpressionModel::While(Box::new(condition), contents),
                start,
                scratch,
            )->Ok_0;
            let body_start = start + 1 + logical_labels(condition);
            let bottom = (body_start + block_labels(contents)) as u8;
            let test = logical_code(condition, LabelRef::to(bottom), start + 1, scratch);
            let body = block_code(contents, body_start, scratch);
            &&& test is Ok
            &&& body is Ok
            &&& whole == seq![Command::Label(Label::at(start as u8))] + test->Ok_0 + body->Ok_0
                + seq![
                Command::Jump(LabelRef::to(start as u8)),
                Command::Label(Label::at(bottom)),
            ]
            &&& whole.len() == test->Ok_0.len() + body->Ok_0.len() + 3
            &&& whole.last() == Command::Label(Label::at(bottom))
            &&& whole.subrange(1 + test->Ok_0.len() as int, whole.len() - 2) == body->Ok_0
        }),
{
    let whole = code(ExpressionModel::While(Box::new(condition), contents), start, scratch)->Ok_0;
    let body_start = start + 1 + logical_labels(condition);
    let bottom = (body_start + block_labels(contents)) as u8;
    let test = logical_code(condition, LabelRef::to(bottom), start + 1, scratch);
    let body = block_code(contents, body_start, scratch);
    assert(whole.subrange(1 + test->Ok_0.len() as int, whole.len() - 2) =~= body->Ok_0);
}

/// Arithmetic and assignment have no code for a literal: where an operand of
/// `+` or `-`, or the right side of `=`, is a node that is no expression, no
/// node is built.
pub proof fn literal_operands_are_refused(
    construct: Construct,
    tokens: Seq<Lexeme>,
    left: AnyModel,
    right: AnyModel,
)
    ensures
        left.expression is None || right.expression is None ==> join_arithmetic(
            construct,
            tokens,
            seq![left],
            seq![right],
        ) == Err::<AnyModel, CompileErrorView>(CompileErrorView::Error),
        left.value is None || right.expression is None ==> join_assign(
            tokens,
            seq![left],
            seq![right],
        ) == Err::<AnyModel, CompileErrorView>(CompileErrorView::Error),
{
}

impl Construct {
    /// A step of the pattern that takes a fixed count of at least one token.
    pub open spec fn anchor(self) -> int {
        match self {
            Construct::Statement => 1,
            Construct::NotEquals => 1,
            Construct::Equals => 1,
            Construct::LessOrEqual => 1,
            Construct::GreaterOrEqual => 1,
            Construct::LessThan => 1,
            Construct::GreaterThan => 1,
            Construct::BumpUp => 1,
            Construct::BumpDown => 1,
            Construct::Adding => 1,
            Construct::Subtracting => 1,
            _ => 0,
        }
    }
}

/// Every reduction takes at least one token away, so reducing comes to an
/// end whatever the number of passes is: the pattern of every construct has a
/// step that takes a token, and what a match takes is taken out.
pub proof fn reduction_takes_tokens(
    construct: Construct,
    tokens: Seq<Lexeme>,
    taken: Seq<Range<usize>>,
)
    requires
        well_formed_match(construct.steps(), tokens, taken),
    ensures
        taken.len() > 0,
        taken.first().start < taken.last().end <= tokens.len(),
        without(tokens, taken.first().start as int, taken.last().end as int).len() < tokens.len(),
{
    let steps = construct.steps();
    let anchor = construct.anchor();
    construct.has_steps();
    assert(steps[anchor].1 matches Quantity::Finite(count) && count >= 1);
    ranges_ascend(steps, tokens, taken, 0, anchor);
    ranges_ascend(steps, tokens, taken, anchor, taken.len() - 1);
}

} // verus!
