//! The intermediate representation as mathematical trees, and what code
//! generation yields for each tree.
//!
//! Labels are numbered in the order in which their definitions stand in the
//! generated code, so a construct's own labels come after those of the code
//! that it places before them.
use crate::compiler::{Command, Label, LabelRef, Reference};
use crate::CompileErrorView;
use vstd::prelude::*;

verus! {

/// A node that stands for a place or a literal.
pub enum ValueModel {
    Number(u8),
    Deref(Box<ValueModel>),
}

/// A node that generates code of its own.
pub enum ExpressionModel {
    Output(Box<ExpressionModel>),
    Input,
    /// A dereference of the given operand, read into the accumulator.
    Deref(ValueModel),
    Add(Box<ExpressionModel>, Box<ExpressionModel>),
    Subtract(Box<ExpressionModel>, Box<ExpressionModel>),
    Loop(Seq<ExpressionModel>),
    Assign(ValueModel, Box<ExpressionModel>),
    If(Box<LogicalModel>, Seq<ExpressionModel>),
    IfElse(Box<LogicalModel>, Seq<ExpressionModel>, Seq<ExpressionModel>),
    Increment(ValueModel),
    Decrement(ValueModel),
    While(Box<LogicalModel>, Seq<ExpressionModel>),
    Break,
}

/// A node that compares the value of an expression with zero.
pub enum LogicalModel {
    IsZero(Box<ExpressionModel>),
    NotZero(Box<ExpressionModel>),
    GreaterThanZero(Box<ExpressionModel>),
    LessThanZero(Box<ExpressionModel>),
    GreaterOrEqualToZero(Box<ExpressionModel>),
    LessOrEqualToZero(Box<ExpressionModel>),
}

/// What a reduction yields: a tree for each capability of the node.
pub struct AnyModel {
    pub expression: Option<ExpressionModel>,
    pub value: Option<ValueModel>,
    pub logical: Option<LogicalModel>,
}

impl AnyModel {
    /// Whether this is the literal zero and nothing else.
    pub open spec fn is_literal_zero(self) -> bool {
        self == (AnyModel { expression: None, value: Some(ValueModel::Number(0)), logical: None })
    }
}

/// What code generation yields: the commands, or the first failure.
pub type Generated = Result<Seq<Command>, CompileErrorView>;

/// The commands of `first` followed by those of `second`; the failure of
/// `first` if it failed, else that of `second`.
pub open spec fn then(first: Generated, second: Generated) -> Generated {
    match first {
        Err(e) => Err(e),
        Ok(a) => match second {
            Err(e) => Err(e),
            Ok(b) => Ok(a + b),
        },
    }
}

/// What `value` resolves to. A literal resolves to itself, the dereference
/// of a literal to the cell with that address, the dereference of such a
/// dereference to the cell that this cell points to; nothing deeper resolves.
pub open spec fn resolve(value: ValueModel) -> Result<Reference, CompileErrorView>
    decreases value,
{
    match value {
        ValueModel::Number(n) => Ok(Reference::Number(n)),
        ValueModel::Deref(inner) => match *inner {
            ValueModel::Number(n) => Ok(Reference::Pointer(n)),
            ValueModel::Deref(_) => match resolve(*inner) {
                Ok(Reference::Pointer(n)) => Ok(Reference::PointerPointer(n)),
                _ => Err(CompileErrorView::NumberInsertionError),
            },
        },
    }
}

/// The cell that `value` names directly; incrementing and decrementing
/// work on nothing else.
pub open spec fn resolve_cell(value: ValueModel) -> Result<Reference, CompileErrorView> {
    match resolve(value) {
        Ok(Reference::Pointer(n)) => Ok(Reference::Pointer(n)),
        _ => Err(CompileErrorView::NumberInsertionError),
    }
}

impl LogicalModel {
    /// The expression whose value is compared with zero.
    pub open spec fn operand(self) -> ExpressionModel {
        match self {
            LogicalModel::IsZero(e) => *e,
            LogicalModel::NotZero(e) => *e,
            LogicalModel::GreaterThanZero(e) => *e,
            LogicalModel::LessThanZero(e) => *e,
            LogicalModel::GreaterOrEqualToZero(e) => *e,
            LogicalModel::LessOrEqualToZero(e) => *e,
        }
    }

    /// Whether the comparison holds of the value `accumulator`.
    pub open spec fn holds(self, accumulator: int) -> bool {
        match self {
            LogicalModel::IsZero(_) => accumulator == 0,
            LogicalModel::NotZero(_) => accumulator != 0,
            LogicalModel::GreaterThanZero(_) => accumulator > 0,
            LogicalModel::LessThanZero(_) => accumulator < 0,
            LogicalModel::GreaterOrEqualToZero(_) => accumulator >= 0,
            LogicalModel::LessOrEqualToZero(_) => accumulator <= 0,
        }
    }

    /// Whether the jumps of this comparison need a label of their own to
    /// skip over the jump to the target.
    pub open spec fn skips(self) -> bool {
        match self {
            LogicalModel::IsZero(_) => true,
            LogicalModel::NotZero(_) => false,
            LogicalModel::GreaterThanZero(_) => false,
            LogicalModel::LessThanZero(_) => true,
            LogicalModel::GreaterOrEqualToZero(_) => false,
            LogicalModel::LessOrEqualToZero(_) => true,
        }
    }

    /// The jumps that follow the code of the operand: with the operand's
    /// value in the accumulator they lead to `target` if the comparison does
    /// not hold, and past their end if it does. `skip` is the label of their
    /// own, for those that need one.
    pub open spec fn jumps(self, target: LabelRef, skip: u8) -> Seq<Command> {
        match self {
            LogicalModel::IsZero(_) => seq![
                Command::JumpIfZero(LabelRef::to(skip)),
                Command::Jump(target),
                Command::Label(Label::at(skip)),
            ],
            LogicalModel::NotZero(_) => seq![Command::JumpIfZero(target)],
            LogicalModel::GreaterThanZero(_) => seq![
                Command::JumpIfZero(target),
                Command::JumpIfNegative(target),
            ],
            LogicalModel::LessThanZero(_) => seq![
                Command::JumpIfNegative(LabelRef::to(skip)),
                Command::Jump(target),
                Command::Label(Label::at(skip)),
            ],
            LogicalModel::GreaterOrEqualToZero(_) => seq![Command::JumpIfNegative(target)],
            LogicalModel::LessOrEqualToZero(_) => seq![
                Command::JumpIfNegative(LabelRef::to(skip)),
                Command::JumpIfZero(LabelRef::to(skip)),
                Command::Jump(target),
                Command::Label(Label::at(skip)),
            ],
        }
    }
}

/// How many labels the code of `expression` defines.
pub open spec fn labels(expression: ExpressionModel) -> nat
    decreases expression,
{
    match expression {
        ExpressionModel::Output(argument) => labels(*argument),
        ExpressionModel::Input => 0,
        ExpressionModel::Deref(_) => 0,
        ExpressionModel::Add(left, right) => labels(*left) + labels(*right),
        ExpressionModel::Subtract(left, right) => labels(*left) + labels(*right),
        ExpressionModel::Loop(contents) => 1 + block_labels(contents),
        ExpressionModel::Assign(_, source) => labels(*source),
        ExpressionModel::If(condition, to_run) => logical_labels(*condition) + block_labels(to_run)
            + 1,
        ExpressionModel::IfElse(condition, if_true, if_false) => logical_labels(*condition)
            + block_labels(if_true) + 1 + block_labels(if_false) + 1,
        ExpressionModel::Increment(_) => 0,
        ExpressionModel::Decrement(_) => 0,
        ExpressionModel::While(condition, contents) => 1 + logical_labels(*condition)
            + block_labels(contents) + 1,
        ExpressionModel::Break => 0,
    }
}

/// How many labels the code of `condition` defines.
pub open spec fn logical_labels(condition: LogicalModel) -> nat
    decreases condition,
{
    labels(condition.operand()) + if condition.skips() {
        1nat
    } else {
        0nat
    }
}

/// How many labels the code of the expressions of `block` defines.
pub open spec fn block_labels(block: Seq<ExpressionModel>) -> nat
    decreases block,
{
    if block.len() == 0 {
        0
    } else {
        block_labels(block.drop_last()) + labels(block.last())
    }
}

/// The code of `expression` when the next free label is `start` and
/// arithmetic keeps its first operand in the cell `scratch`.
pub open spec fn code(expression: ExpressionModel, start: nat, scratch: u8) -> Generated
    decreases expression,
{
    match expression {
        ExpressionModel::Output(argument) => then(
            code(*argument, start, scratch),
            Ok(seq![Command::Outbox]),
        ),
        ExpressionModel::Input => Ok(seq![Command::Inbox]),
        ExpressionModel::Deref(operand) => match resolve(ValueModel::Deref(Box::new(operand))) {
            Ok(cell) => Ok(seq![Command::CopyFrom(cell)]),
            Err(e) => Err(e),
        },
        ExpressionModel::Add(left, right) => then(
            then(
                then(
                    code(*left, start, scratch),
                    Ok(seq![Command::CopyTo(Reference::Pointer(scratch))]),
                ),
                code(*right, start + labels(*left), scratch),
            ),
            Ok(seq![Command::Add(Reference::Pointer(scratch))]),
        ),
        ExpressionModel::Subtract(left, right) => then(
            then(
                then(
                    code(*right, start, scratch),
                    Ok(seq![Command::CopyTo(Reference::Pointer(scratch))]),
                ),
                code(*left, start + labels(*right), scratch),
            ),
            Ok(seq![Command::Subtract(Reference::Pointer(scratch))]),
        ),
        ExpressionModel::Loop(contents) => then(
            then(
                Ok(seq![Command::Label(Label::at(start as u8))]),
                block_code(contents, start + 1, scratch),
            ),
            Ok(seq![Command::Jump(LabelRef::to(start as u8))]),
        ),
        ExpressionModel::Assign(target, source) => then(
            code(*source, start, scratch),
            match resolve(target) {
                Ok(cell) => Ok(seq![Command::CopyTo(cell)]),
                Err(e) => Err(e),
            },
        ),
        ExpressionModel::If(condition, to_run) => {
            let body = start + logical_labels(*condition);
            let end = body + block_labels(to_run);
            then(
                then(
                    logical_code(*condition, LabelRef::to(end as u8), start, scratch),
                    block_code(to_run, body, scratch),
                ),
                Ok(seq![Command::Label(Label::at(end as u8))]),
            )
        },
        ExpressionModel::IfElse(condition, if_true, if_false) => {
            let body = start + logical_labels(*condition);
            let first = body + block_labels(if_true);
            let second = first + 1 + block_labels(if_false);
            then(
                then(
                    then(
                        then(
                            logical_code(*condition, LabelRef::to(first as u8), start, scratch),
                            block_code(if_true, body, scratch),
                        ),
                        Ok(
                            seq![
                                Command::Jump(LabelRef::to(second as u8)),
                                Command::Label(Label::at(first as u8)),
                            ],
                        ),
                    ),
                    block_code(if_false, first + 1, scratch),
                ),
                Ok(seq![Command::Label(Label::at(second as u8))]),
            )
        },
        ExpressionModel::Increment(target) => match resolve_cell(target) {
            Ok(cell) => Ok(seq![Command::Increment(cell)]),
            Err(e) => Err(e),
        },
        ExpressionModel::Decrement(target) => match resolve_cell(target) {
            Ok(cell) => Ok(seq![Command::Decrement(cell)]),
            Err(e) => Err(e),
        },
        ExpressionModel::While(condition, contents) => {
            let body = start + 1 + logical_labels(*condition);
            let bottom = body + block_labels(contents);
            then(
                then(
                    then(
                        Ok(seq![Command::Label(Label::at(start as u8))]),
                        logical_code(*condition, LabelRef::to(bottom as u8), start + 1, scratch),
                    ),
                    block_code(contents, body, scratch),
                ),
                Ok(
                    seq![
                        Command::Jump(LabelRef::to(start as u8)),
                        Command::Label(Label::at(bottom as u8)),
                    ],
                ),
            )
        },
        ExpressionModel::Break => Err(CompileErrorView::Error),
    }
}

/// The code of `condition`: that of its operand, then jumps that lead to
/// `target` exactly when the comparison does not hold.
pub open spec fn logical_code(
    condition: LogicalModel,
    target: LabelRef,
    start: nat,
    scratch: u8,
) -> Generated
    decreases condition,
{
    let skip = start + labels(condition.operand());
    then(code(condition.operand(), start, scratch), Ok(condition.jumps(target, skip as u8)))
}

/// The code of the expressions of `block`, one after the other.
pub open spec fn block_code(block: Seq<ExpressionModel>, start: nat, scratch: u8) -> Generated
    decreases block,
{
    if block.len() == 0 {
        Ok(Seq::empty())
    } else {
        then(
            block_code(block.drop_last(), start, scratch),
            code(block.last(), start + block_labels(block.drop_last()), scratch),
        )
    }
}

/// Once an expression of a block has failed, the block has failed with it.
pub proof fn block_failure_stays(
    block: Seq<ExpressionModel>,
    start: nat,
    scratch: u8,
    n: int,
)
    requires
        0 <= n <= block.len(),
        block_code(block.take(n), start, scratch) is Err,
    ensures
        block_code(block, start, scratch) == block_code(block.take(n), start, scratch),
    decreases block.len() - n,
{
    if n < block.len() {
        assert(block.take(n + 1).drop_last() == block.take(n));
        block_failure_stays(block, start, scratch, n + 1);
    } else {
        assert(block.take(n) == block);
    }
}

} // verus!
