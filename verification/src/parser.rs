//! The reducer: turns a token sequence into the nodes of a program by
//! reducing, again and again, the construct that the grammar selects.
use crate::compiler::{Command, LABEL_LIMIT};
use crate::grammar::{selection, Construct, Grammar};
use crate::lexer::Lexeme;
use crate::model::{
    block_code, block_labels, AnyModel, ExpressionModel, LogicalModel, ValueModel,
};
use crate::nodes::{
    block_label_count, block_to_command, capped, generated, models, models_index, models_len, Add, AnyExpressionType, Assign, Break,
    Decrement, Deref, Expression, ExpressionNode, GreaterOrEqualToZero, GreaterThanZero, If,
    IfElse, Increment, Input, IsZero, LessOrEqualToZero, LessThanZero, Logical, LogicalNode,
    Loop, NotZero, Number, Output, Subtract, Value, ValueNode, While,
};
use crate::pattern::{ranges_ascend, span_is_smaller, well_formed_match};
use crate::{CompileError, CompileErrorView};
use std::ops::Range;
use vstd::prelude::*;

verus! {

/// How many reductions one token sequence may take.
pub const PASS_BUDGET: usize = 50;

/// What reducing a token sequence yields: its nodes in the order of their
/// reduction, or the first failure.
pub type Reduced = Result<Seq<AnyModel>, CompileErrorView>;

/// What building one node yields.
pub type Built = Result<AnyModel, CompileErrorView>;

/// `tokens` without those from `from` up to `to`.
pub open spec fn without(tokens: Seq<Lexeme>, from: int, to: int) -> Seq<Lexeme> {
    if 0 <= from <= to <= tokens.len() {
        tokens.subrange(0, from) + tokens.subrange(to, tokens.len() as int)
    } else {
        tokens
    }
}

/// A node that is an expression and nothing else.
pub open spec fn expression_only(e: ExpressionModel) -> AnyModel {
    AnyModel { expression: Some(e), value: None, logical: None }
}

/// A node that is a value and nothing else.
pub open spec fn value_only(v: ValueModel) -> AnyModel {
    AnyModel { expression: None, value: Some(v), logical: None }
}

/// A node that is a comparison and nothing else.
pub open spec fn logical_only(c: LogicalModel) -> AnyModel {
    AnyModel { expression: None, value: None, logical: Some(c) }
}

/// The only node of `nodes`; tokens that reduce to no node or to several
/// form no command.
pub open spec fn exactly_one(nodes: Seq<AnyModel>, tokens: Seq<Lexeme>) -> Built {
    if nodes.len() == 1 {
        Ok(nodes[0])
    } else {
        Err(CompileErrorView::InvalidCommandError(tokens))
    }
}

/// `node` as an expression.
pub open spec fn need_expression(node: AnyModel) -> Result<ExpressionModel, CompileErrorView> {
    match node.expression {
        Some(e) => Ok(e),
        None => Err(CompileErrorView::Error),
    }
}

/// `node` as a value.
pub open spec fn need_value(node: AnyModel) -> Result<ValueModel, CompileErrorView> {
    match node.value {
        Some(v) => Ok(v),
        None => Err(CompileErrorView::Error),
    }
}

/// `node` as a comparison.
pub open spec fn need_logical(node: AnyModel) -> Result<LogicalModel, CompileErrorView> {
    match node.logical {
        Some(c) => Ok(c),
        None => Err(CompileErrorView::Error),
    }
}

/// The nodes of a block as expressions.
pub open spec fn need_expressions(nodes: Seq<AnyModel>) -> Result<
    Seq<ExpressionModel>,
    CompileErrorView,
> {
    if forall|i: int| 0 <= i < nodes.len() ==> (#[trigger] nodes[i]).expression is Some {
        Ok(Seq::new(nodes.len(), |i: int| nodes[i].expression.unwrap()))
    } else {
        Err(CompileErrorView::Error)
    }
}

/// A loop around the nodes of `body`.
pub open spec fn join_loop(body: Seq<AnyModel>) -> Built {
    match need_expressions(body) {
        Err(e) => Err(e),
        Ok(contents) => Ok(expression_only(ExpressionModel::Loop(contents))),
    }
}

/// A `while` or an `if` with the condition `condition` and the block `body`.
pub open spec fn join_guarded(
    construct: Construct,
    tokens: Seq<Lexeme>,
    condition: Seq<AnyModel>,
    body: Seq<AnyModel>,
) -> Built {
    match need_expressions(body) {
        Err(e) => Err(e),
        Ok(contents) => match exactly_one(condition, tokens) {
            Err(e) => Err(e),
            Ok(node) => match need_logical(node) {
                Err(e) => Err(e),
                Ok(c) => Ok(
                    expression_only(
                        if construct == Construct::While {
                            ExpressionModel::While(Box::new(c), contents)
                        } else {
                            ExpressionModel::If(Box::new(c), contents)
                        },
                    ),
                ),
            },
        },
    }
}

/// An `if` with the condition `condition` and both blocks.
pub open spec fn join_if_else(
    tokens: Seq<Lexeme>,
    condition: Seq<AnyModel>,
    if_true: Seq<AnyModel>,
    if_false: Seq<AnyModel>,
) -> Built {
    match need_expressions(if_true) {
        Err(e) => Err(e),
        Ok(first) => match need_expressions(if_false) {
            Err(e) => Err(e),
            Ok(second) => match exactly_one(condition, tokens) {
                Err(e) => Err(e),
                Ok(node) => match need_logical(node) {
                    Err(e) => Err(e),
                    Ok(c) => Ok(
                        expression_only(ExpressionModel::IfElse(Box::new(c), first, second)),
                    ),
                },
            },
        },
    }
}

impl Construct {
    /// Whether this is a comparison that may be turned around.
    pub open spec fn symmetric(self) -> bool {
        self == Construct::NotEquals || self == Construct::Equals
    }

    /// The comparison of `e` with zero that this construct stands for.
    pub open spec fn against_zero(self, e: ExpressionModel) -> LogicalModel {
        match self {
            Construct::NotEquals => LogicalModel::NotZero(Box::new(e)),
            Construct::Equals => LogicalModel::IsZero(Box::new(e)),
            Construct::LessOrEqual => LogicalModel::LessOrEqualToZero(Box::new(e)),
            Construct::GreaterOrEqual => LogicalModel::GreaterOrEqualToZero(Box::new(e)),
            Construct::LessThan => LogicalModel::LessThanZero(Box::new(e)),
            _ => LogicalModel::GreaterThanZero(Box::new(e)),
        }
    }
}

/// The comparison of `left` with `right`: of the other side with zero where
/// one side is the literal zero (the left side only where the comparison may
/// be turned around), else of their difference with zero.
pub open spec fn join_comparison(
    construct: Construct,
    tokens: Seq<Lexeme>,
    left: Seq<AnyModel>,
    right: Seq<AnyModel>,
) -> Built {
    if left.len() != 1 || right.len() != 1 {
        Err(CompileErrorView::InvalidCommandError(tokens))
    } else if right[0].is_literal_zero() {
        match need_expression(left[0]) {
            Err(e) => Err(e),
            Ok(l) => Ok(logical_only(construct.against_zero(l))),
        }
    } else if construct.symmetric() && left[0].is_literal_zero() {
        match need_expression(right[0]) {
            Err(e) => Err(e),
            Ok(r) => Ok(logical_only(construct.against_zero(r))),
        }
    } else {
        match need_expression(left[0]) {
            Err(e) => Err(e),
            Ok(l) => match need_expression(right[0]) {
                Err(e) => Err(e),
                Ok(r) => Ok(
                    logical_only(
                        construct.against_zero(
                            ExpressionModel::Subtract(Box::new(l), Box::new(r)),
                        ),
                    ),
                ),
            },
        }
    }
}

/// `target ++` or `target --`.
pub open spec fn join_bump(construct: Construct, tokens: Seq<Lexeme>, target: Seq<AnyModel>) -> Built {
    match exactly_one(target, tokens) {
        Err(e) => Err(e),
        Ok(node) => match need_value(node) {
            Err(e) => Err(e),
            Ok(v) => Ok(
                expression_only(
                    if construct == Construct::BumpUp {
                        ExpressionModel::Increment(v)
                    } else {
                        ExpressionModel::Decrement(v)
                    },
                ),
            ),
        },
    }
}

/// `left = right`.
pub open spec fn join_assign(tokens: Seq<Lexeme>, left: Seq<AnyModel>, right: Seq<AnyModel>) -> Built {
    if left.len() != 1 || right.len() != 1 {
        Err(CompileErrorView::InvalidCommandError(tokens))
    } else {
        match need_value(left[0]) {
            Err(e) => Err(e),
            Ok(target) => match need_expression(right[0]) {
                Err(e) => Err(e),
                Ok(source) => Ok(
                    expression_only(ExpressionModel::Assign(target, Box::new(source))),
                ),
            },
        }
    }
}

/// `left + right` or `left - right`.
pub open spec fn join_arithmetic(
    construct: Construct,
    tokens: Seq<Lexeme>,
    left: Seq<AnyModel>,
    right: Seq<AnyModel>,
) -> Built {
    if left.len() != 1 || right.len() != 1 {
        Err(CompileErrorView::InvalidCommandError(tokens))
    } else {
        match need_expression(left[0]) {
            Err(e) => Err(e),
            Ok(l) => match need_expression(right[0]) {
                Err(e) => Err(e),
                Ok(r) => Ok(
                    expression_only(
                        if construct == Construct::Adding {
                            ExpressionModel::Add(Box::new(l), Box::new(r))
                        } else {
                            ExpressionModel::Subtract(Box::new(l), Box::new(r))
                        },
                    ),
                ),
            },
        }
    }
}

/// The dereference of `operand`: an expression and a value at once.
pub open spec fn join_deref(tokens: Seq<Lexeme>, operand: Seq<AnyModel>) -> Built {
    match exactly_one(operand, tokens) {
        Err(e) => Err(e),
        Ok(node) => match need_value(node) {
            Err(e) => Err(e),
            Ok(v) => Ok(
                AnyModel {
                    expression: Some(ExpressionModel::Deref(v)),
                    value: Some(ValueModel::Deref(Box::new(v))),
                    logical: None,
                },
            ),
        },
    }
}

/// `output(argument)`.
pub open spec fn join_output(tokens: Seq<Lexeme>, argument: Seq<AnyModel>) -> Built {
    match exactly_one(argument, tokens) {
        Err(e) => Err(e),
        Ok(node) => match need_expression(node) {
            Err(e) => Err(e),
            Ok(e) => Ok(expression_only(ExpressionModel::Output(Box::new(e)))),
        },
    }
}

/// A number that stands first in `tokens`; one that stands elsewhere forms
/// no command.
pub open spec fn join_number(tokens: Seq<Lexeme>, at: int) -> Built {
    if at == 0 && tokens.len() > 0 {
        match tokens[0] {
            Lexeme::Number(n) => Ok(value_only(ValueModel::Number(n))),
            _ => Err(CompileErrorView::InvalidCommandError(tokens)),
        }
    } else {
        Err(CompileErrorView::InvalidCommandError(tokens))
    }
}

/// What reducing the tokens of `tokens` from `from` up to `to` yields. These
/// are always fewer than `tokens`.
pub open spec fn operand(tokens: Seq<Lexeme>, from: int, to: int) -> Reduced
    decreases tokens.len(), 0nat,
{
    if 0 <= from <= to <= tokens.len() && to - from < tokens.len() {
        reduce(tokens.subrange(from, to), PASS_BUDGET as nat)
    } else {
        Err(CompileErrorView::Error)
    }
}

/// The node of the construct that matches `tokens` with the ranges `taken`,
/// one for each step of its pattern: the operands are the reductions of the
/// ranges that the pattern leaves open, and a failure among them, the first
/// in the order of the operands, is the failure of the node.
pub open spec fn build(construct: Construct, taken: Seq<Range<usize>>, tokens: Seq<Lexeme>) -> Built
    decreases tokens.len(), 1nat,
{
    match construct {
        Construct::Loop => match operand(tokens, taken[2].start as int, taken[2].end as int) {
            Err(e) => Err(e),
            Ok(body) => join_loop(body),
        },
        Construct::While | Construct::If => match operand(
            tokens,
            taken[2].start as int,
            taken[2].end as int,
        ) {
            Err(e) => Err(e),
            Ok(condition) => match operand(tokens, taken[5].start as int, taken[5].end as int) {
                Err(e) => Err(e),
                Ok(body) => join_guarded(construct, tokens, condition, body),
            },
        },
        Construct::IfElse => match operand(tokens, taken[2].start as int, taken[2].end as int) {
            Err(e) => Err(e),
            Ok(condition) => match operand(tokens, taken[5].start as int, taken[5].end as int) {
                Err(e) => Err(e),
                Ok(if_true) => match operand(
                    tokens,
                    taken[9].start as int,
                    taken[9].end as int,
                ) {
                    Err(e) => Err(e),
                    Ok(if_false) => join_if_else(tokens, condition, if_true, if_false),
                },
            },
        },
        Construct::Statement => match operand(
            tokens,
            taken[0].start as int,
            taken[0].end as int,
        ) {
            Err(e) => Err(e),
            Ok(command) => exactly_one(command, tokens),
        },
        Construct::NotEquals | Construct::LessOrEqual | Construct::GreaterOrEqual => match operand(
            tokens,
            taken[0].start as int,
            taken[0].end as int,
        ) {
            Err(e) => Err(e),
            Ok(left) => match operand(tokens, taken[3].start as int, taken[3].end as int) {
                Err(e) => Err(e),
                Ok(right) => join_comparison(construct, tokens, left, right),
            },
        },
        Construct::Equals | Construct::LessThan | Construct::GreaterThan => match operand(
            tokens,
            taken[0].start as int,
            taken[0].end as int,
        ) {
            Err(e) => Err(e),
            Ok(left) => match operand(tokens, taken[2].start as int, taken[2].end as int) {
                Err(e) => Err(e),
                Ok(right) => join_comparison(construct, tokens, left, right),
            },
        },
        Construct::BumpUp | Construct::BumpDown => match operand(
            tokens,
            taken[0].start as int,
            taken[0].end as int,
        ) {
            Err(e) => Err(e),
            Ok(target) => join_bump(construct, tokens, target),
        },
        Construct::AssignDoubleDeref | Construct::AssignSingleDeref => match operand(
            tokens,
            taken[0].start as int,
            taken[1].end as int,
        ) {
            Err(e) => Err(e),
            Ok(left) => match operand(tokens, taken[3].start as int, taken[3].end as int) {
                Err(e) => Err(e),
                Ok(right) => join_assign(tokens, left, right),
            },
        },
        Construct::Adding | Construct::Subtracting => match operand(
            tokens,
            taken[0].start as int,
            taken[0].end as int,
        ) {
            Err(e) => Err(e),
            Ok(left) => match operand(tokens, taken[2].start as int, taken[2].end as int) {
                Err(e) => Err(e),
                Ok(right) => join_arithmetic(construct, tokens, left, right),
            },
        },
        Construct::DoubleDeref => match operand(
            tokens,
            taken[1].start as int,
            taken[2].end as int,
        ) {
            Err(e) => Err(e),
            Ok(inner) => join_deref(tokens, inner),
        },
        Construct::SingleDeref => match operand(
            tokens,
            taken[1].start as int,
            taken[1].end as int,
        ) {
            Err(e) => Err(e),
            Ok(inner) => join_deref(tokens, inner),
        },
        Construct::Output => match operand(tokens, taken[2].start as int, taken[2].end as int) {
            Err(e) => Err(e),
            Ok(argument) => join_output(tokens, argument),
        },
        Construct::Input => Ok(expression_only(ExpressionModel::Input)),
        Construct::PlainNumber => join_number(tokens, taken[0].start as int),
        Construct::Break => Ok(expression_only(ExpressionModel::Break)),
    }
}

/// What reducing `tokens` yields when `passes` reductions are left. No
/// tokens reduce to no nodes. Else the construct that the grammar selects is
/// built, its tokens are taken out, and the rest is reduced with one pass
/// less. Tokens that are left when nothing is selected, or when no pass is
/// left, form no command.
pub open spec fn reduce(tokens: Seq<Lexeme>, passes: nat) -> Reduced
    decreases tokens.len(), passes + 2,
{
    if tokens.len() == 0 {
        Ok(Seq::empty())
    } else if passes == 0 {
        Err(CompileErrorView::InvalidCommandError(tokens))
    } else {
        match selection(tokens) {
            None => Err(CompileErrorView::InvalidCommandError(tokens)),
            Some((construct, taken)) => match build(construct, taken, tokens) {
                Err(e) => Err(e),
                Ok(node) => match reduce(
                    without(tokens, taken.first().start as int, taken.last().end as int),
                    (passes - 1) as nat,
                ) {
                    Err(e) => Err(e),
                    Ok(nodes) => Ok(seq![node] + nodes),
                },
            },
        }
    }
}

/// The program that `tokens` stand for: the nodes that they reduce to, each
/// of which must be an expression.
pub open spec fn program(tokens: Seq<Lexeme>) -> Result<Seq<ExpressionModel>, CompileErrorView> {
    match reduce(tokens, PASS_BUDGET as nat) {
        Err(e) => Err(e),
        Ok(nodes) => need_expressions(nodes),
    }
}

/// The trees that the nodes of `nodes` stand for.
pub open spec fn any_models(nodes: Seq<AnyExpressionType>) -> Seq<AnyModel> {
    Seq::new(nodes.len(), |i: int| nodes[i]@)
}

/// The nodes or the failure of a reduction, as trees.
pub open spec fn reduced(result: Result<Vec<AnyExpressionType>, CompileError>) -> Reduced {
    match result {
        Ok(nodes) => Ok(any_models(nodes@)),
        Err(e) => Err(e@),
    }
}

/// The node or the failure of a builder, as a tree.
pub open spec fn built(result: Result<AnyExpressionType, CompileError>) -> Built {
    match result {
        Ok(node) => Ok(node@),
        Err(e) => Err(e@),
    }
}

/// The tokens of `tokens` from `from` up to `to`.
fn copy_range(tokens: &Vec<Lexeme>, from: usize, to: usize) -> (r: Vec<Lexeme>)
    requires
        from <= to <= tokens@.len(),
    ensures
        r@ == tokens@.subrange(from as int, to as int),
{
    let mut r: Vec<Lexeme> = Vec::new();
    let mut i: usize = from;
    while i < to
        invariant
            from <= i <= to <= tokens@.len(),
            r@ == tokens@.subrange(from as int, i as int),
        decreases to - i,
    {
        r.push(tokens[i]);
        assert(r@ == tokens@.subrange(from as int, i + 1));
        i = i + 1;
    }
    r
}

/// `tokens` without those from `from` up to `to`.
fn remove_range(tokens: &Vec<Lexeme>, from: usize, to: usize) -> (r: Vec<Lexeme>)
    requires
        from <= to <= tokens@.len(),
    ensures
        r@ == without(tokens@, from as int, to as int),
{
    let mut r = copy_range(tokens, 0, from);
    let mut tail = copy_range(tokens, to, tokens.len());
    r.append(&mut tail);
    r
}

/// The failure for tokens that form no command.
fn invalid_command(tokens: &Vec<Lexeme>) -> (e: CompileError)
    ensures
        e@ == CompileErrorView::InvalidCommandError(tokens@),
{
    let copy = copy_range(tokens, 0, tokens.len());
    assert(copy@ == tokens@);
    CompileError::InvalidCommandError(copy)
}

/// The only node of `nodes`.
fn take_only(nodes: Vec<AnyExpressionType>, tokens: &Vec<Lexeme>) -> (r: Result<
    AnyExpressionType,
    CompileError,
>)
    ensures
        built(r) == exactly_one(any_models(nodes@), tokens@),
{
    let mut nodes = nodes;
    if nodes.len() == 1 {
        Ok(nodes.remove(0))
    } else {
        Err(invalid_command(tokens))
    }
}

/// `node` as an expression.
fn take_expression(node: AnyExpressionType) -> (r: Result<Box<ExpressionNode>, CompileError>)
    ensures
        match r {
            Ok(e) => need_expression(node@) == Ok::<ExpressionModel, CompileErrorView>(
                e.as_expression(),
            ),
            Err(e) => need_expression(node@) == Err::<ExpressionModel, CompileErrorView>(e@),
        },
{
    match node.expression() {
        Some(e) => Ok(e),
        None => Err(CompileError::Error),
    }
}

/// `node` as a value.
fn take_value(node: AnyExpressionType) -> (r: Result<Box<ValueNode>, CompileError>)
    ensures
        match r {
            Ok(v) => need_value(node@) == Ok::<ValueModel, CompileErrorView>(v.as_value()),
            Err(e) => need_value(node@) == Err::<ValueModel, CompileErrorView>(e@),
        },
{
    match node.value() {
        Some(v) => Ok(v),
        None => Err(CompileError::Error),
    }
}

/// `node` as a comparison.
fn take_logical(node: AnyExpressionType) -> (r: Result<Box<LogicalNode>, CompileError>)
    ensures
        match r {
            Ok(c) => need_logical(node@) == Ok::<LogicalModel, CompileErrorView>(c.as_logical()),
            Err(e) => need_logical(node@) == Err::<LogicalModel, CompileErrorView>(e@),
        },
{
    match node.logical() {
        Some(c) => Ok(c),
        None => Err(CompileError::Error),
    }
}

/// The nodes of a block as expressions.
fn take_expressions(nodes: Vec<AnyExpressionType>) -> (r: Result<
    Vec<Box<ExpressionNode>>,
    CompileError,
>)
    ensures
        match r {
            Ok(block) => need_expressions(any_models(nodes@)) == Ok::<
                Seq<ExpressionModel>,
                CompileErrorView,
            >(models(block@)),
            Err(e) => need_expressions(any_models(nodes@)) == Err::<
                Seq<ExpressionModel>,
                CompileErrorView,
            >(e@),
        },
{
    let ghost all = any_models(nodes@);
    let mut rest = nodes;
    let mut block: Vec<Box<ExpressionNode>> = Vec::new();
    while rest.len() > 0
        invariant
            all == any_models(nodes@),
            block@.len() + rest@.len() == all.len(),
            forall|i: int|
                0 <= i < block@.len() ==> (#[trigger] all[i]).expression == Some(
                    block@[i].as_expression(),
                ),
            forall|i: int| 0 <= i < rest@.len() ==> (#[trigger] rest@[i])@ == all[block@.len() + i],
        decreases rest@.len(),
    {
        let node = rest.remove(0);
        match node.expression() {
            Some(e) => {
                block.push(e);
            },
            None => {
                assert(all[block@.len() as int].expression is None);
                return Err(CompileError::Error);
            },
        }
    }
    proof {
        let wanted = Seq::new(all.len(), |i: int| all[i].expression.unwrap());
        models_len(block@);
        assert forall|i: int| 0 <= i < all.len() implies models(block@)[i] == wanted[i] by {
            models_index(block@, i);
        }
        assert(models(block@) =~= wanted);
    }
    Ok(block)
}

/// A loop around the nodes of `body`.
fn make_loop(body: Vec<AnyExpressionType>) -> (r: Result<AnyExpressionType, CompileError>)
    ensures
        built(r) == join_loop(any_models(body@)),
{
    match take_expressions(body) {
        Err(e) => Err(e),
        Ok(contents) => Ok(
            AnyExpressionType::from(Box::new(ExpressionNode::Loop(Loop::new(contents)))),
        ),
    }
}

/// A `while` or an `if` with the condition `condition` and the block `body`.
fn make_guarded(
    construct: Construct,
    tokens: &Vec<Lexeme>,
    condition: Vec<AnyExpressionType>,
    body: Vec<AnyExpressionType>,
) -> (r: Result<AnyExpressionType, CompileError>)
    ensures
        built(r) == join_guarded(construct, tokens@, any_models(condition@), any_models(body@)),
{
    let contents = match take_expressions(body) {
        Ok(contents) => contents,
        Err(e) => {
            return Err(e);
        },
    };
    let node = match take_only(condition, tokens) {
        Ok(node) => node,
        Err(e) => {
            return Err(e);
        },
    };
    let test = match take_logical(node) {
        Ok(test) => test,
        Err(e) => {
            return Err(e);
        },
    };
    let whole = if construct == Construct::While {
        ExpressionNode::While(While::new(test, contents))
    } else {
        ExpressionNode::If(If::new(test, contents))
    };
    Ok(AnyExpressionType::from(Box::new(whole)))
}

/// An `if` with the condition `condition` and both blocks.
fn make_if_else(
    tokens: &Vec<Lexeme>,
    condition: Vec<AnyExpressionType>,
    if_true: Vec<AnyExpressionType>,
    if_false: Vec<AnyExpressionType>,
) -> (r: Result<AnyExpressionType, CompileError>)
    ensures
        built(r) == join_if_else(
            tokens@,
            any_models(condition@),
            any_models(if_true@),
            any_models(if_false@),
        ),
{
    let first = match take_expressions(if_true) {
        Ok(first) => first,
        Err(e) => {
            return Err(e);
        },
    };
    let second = match take_expressions(if_false) {
        Ok(second) => second,
        Err(e) => {
            return Err(e);
        },
    };
    let node = match take_only(condition, tokens) {
        Ok(node) => node,
        Err(e) => {
            return Err(e);
        },
    };
    let test = match take_logical(node) {
        Ok(test) => test,
        Err(e) => {
            return Err(e);
        },
    };
    Ok(
        AnyExpressionType::from(
            Box::new(ExpressionNode::IfElse(IfElse::new(test, first, second))),
        ),
    )
}

/// The comparison of `operand` with zero that `construct` stands for.
fn compare_with_zero(construct: Construct, operand: Box<ExpressionNode>) -> (r: AnyExpressionType)
    ensures
        r@ == logical_only(construct.against_zero(operand.as_expression())),
{
    let test = match construct {
        Construct::NotEquals => LogicalNode::NotZero(NotZero::new(operand)),
        Construct::Equals => LogicalNode::IsZero(IsZero::new(operand)),
        Construct::LessOrEqual => LogicalNode::LessOrEqualToZero(LessOrEqualToZero::new(operand)),
        Construct::GreaterOrEqual => LogicalNode::GreaterOrEqualToZero(
            GreaterOrEqualToZero::new(operand),
        ),
        Construct::LessThan => LogicalNode::LessThanZero(LessThanZero::new(operand)),
        _ => LogicalNode::GreaterThanZero(GreaterThanZero::new(operand)),
    };
    AnyExpressionType::from(Box::new(test))
}

/// The comparison of `left` with `right`.
fn make_comparison(
    construct: Construct,
    tokens: &Vec<Lexeme>,
    left: Vec<AnyExpressionType>,
    right: Vec<AnyExpressionType>,
) -> (r: Result<AnyExpressionType, CompileError>)
    ensures
        built(r) == join_comparison(construct, tokens@, any_models(left@), any_models(right@)),
{
    let mut left = left;
    let mut right = right;
    if left.len() != 1 || right.len() != 1 {
        return Err(invalid_command(tokens));
    }
    let l = left.remove(0);
    let r = right.remove(0);
    let symmetric = construct == Construct::NotEquals || construct == Construct::Equals;
    if r.is_literal_zero() {
        match take_expression(l) {
            Err(e) => Err(e),
            Ok(operand) => Ok(compare_with_zero(construct, operand)),
        }
    } else if symmetric && l.is_literal_zero() {
        match take_expression(r) {
            Err(e) => Err(e),
            Ok(operand) => Ok(compare_with_zero(construct, operand)),
        }
    } else {
        let first = match take_expression(l) {
            Ok(first) => first,
            Err(e) => {
                return Err(e);
            },
        };
        let second = match take_expression(r) {
            Ok(second) => second,
            Err(e) => {
                return Err(e);
            },
        };
        Ok(
            compare_with_zero(
                construct,
                Box::new(ExpressionNode::Subtract(Subtract::new(first, second))),
            ),
        )
    }
}

/// `target ++` or `target --`.
fn make_bump(construct: Construct, tokens: &Vec<Lexeme>, target: Vec<AnyExpressionType>) -> (r:
    Result<AnyExpressionType, CompileError>)
    ensures
        built(r) == join_bump(construct, tokens@, any_models(target@)),
{
    let node = match take_only(target, tokens) {
        Ok(node) => node,
        Err(e) => {
            return Err(e);
        },
    };
    let place = match take_value(node) {
        Ok(place) => place,
        Err(e) => {
            return Err(e);
        },
    };
    let whole = if construct == Construct::BumpUp {
        ExpressionNode::Increment(Increment::new(place))
    } else {
        ExpressionNode::Decrement(Decrement::new(place))
    };
    Ok(AnyExpressionType::new(Some(Box::new(whole)), None, None))
}

/// `left = right`.
fn make_assign(
    tokens: &Vec<Lexeme>,
    left: Vec<AnyExpressionType>,
    right: Vec<AnyExpressionType>,
) -> (r: Result<AnyExpressionType, CompileError>)
    ensures
        built(r) == join_assign(tokens@, any_models(left@), any_models(right@)),
{
    let mut left = left;
    let mut right = right;
    if left.len() != 1 || right.len() != 1 {
        return Err(invalid_command(tokens));
    }
    let target = match take_value(left.remove(0)) {
        Ok(target) => target,
        Err(e) => {
            return Err(e);
        },
    };
    let source = match take_expression(right.remove(0)) {
        Ok(source) => source,
        Err(e) => {
            return Err(e);
        },
    };
    Ok(
        AnyExpressionType::new(
            Some(Box::new(ExpressionNode::Assign(Assign::new(target, source)))),
            None,
            None,
        ),
    )
}

/// `left + right` or `left - right`.
fn make_arithmetic(
    construct: Construct,
    tokens: &Vec<Lexeme>,
    left: Vec<AnyExpressionType>,
    right: Vec<AnyExpressionType>,
) -> (r: Result<AnyExpressionType, CompileError>)
    ensures
        built(r) == join_arithmetic(construct, tokens@, any_models(left@), any_models(right@)),
{
    let mut left = left;
    let mut right = right;
    if left.len() != 1 || right.len() != 1 {
        return Err(invalid_command(tokens));
    }
    let first = match take_expression(left.remove(0)) {
        Ok(first) => first,
        Err(e) => {
            return Err(e);
        },
    };
    let second = match take_expression(right.remove(0)) {
        Ok(second) => second,
        Err(e) => {
            return Err(e);
        },
    };
    let whole = if construct == Construct::Adding {
        ExpressionNode::Add(Add::new(first, second))
    } else {
        ExpressionNode::Subtract(Subtract::new(first, second))
    };
    Ok(AnyExpressionType::new(Some(Box::new(whole)), None, None))
}

/// The dereference of `operand`.
fn make_deref(tokens: &Vec<Lexeme>, operand: Vec<AnyExpressionType>) -> (r: Result<
    AnyExpressionType,
    CompileError,
>)
    ensures
        built(r) == join_deref(tokens@, any_models(operand@)),
{
    let node = match take_only(operand, tokens) {
        Ok(node) => node,
        Err(e) => {
            return Err(e);
        },
    };
    let inner = match take_value(node) {
        Ok(inner) => inner,
        Err(e) => {
            return Err(e);
        },
    };
    let copy: ValueNode = (*inner).clone();
    Ok(
        AnyExpressionType::new(
            Some(Box::new(ExpressionNode::Deref(Deref::new(Box::new(copy))))),
            Some(Box::new(ValueNode::Deref(Deref::new(inner)))),
            None,
        ),
    )
}

/// `output(argument)`.
fn make_output(tokens: &Vec<Lexeme>, argument: Vec<AnyExpressionType>) -> (r: Result<
    AnyExpressionType,
    CompileError,
>)
    ensures
        built(r) == join_output(tokens@, any_models(argument@)),
{
    let node = match take_only(argument, tokens) {
        Ok(node) => node,
        Err(e) => {
            return Err(e);
        },
    };
    match take_expression(node) {
        Err(e) => Err(e),
        Ok(e) => Ok(
            AnyExpressionType::new(
                Some(Box::new(ExpressionNode::Output(Output::new(e)))),
                None,
                None,
            ),
        ),
    }
}

/// A number that stands first in `tokens`.
fn make_number(tokens: &Vec<Lexeme>, at: usize) -> (r: Result<AnyExpressionType, CompileError>)
    ensures
        built(r) == join_number(tokens@, at as int),
{
    if at == 0 && tokens.len() > 0 {
        match tokens[0] {
            Lexeme::Number(a) => Ok(
                AnyExpressionType::new(None, Some(Box::new(ValueNode::Number(Number::new(a)))), None),
            ),
            _ => Err(invalid_command(tokens)),
        }
    } else {
        Err(invalid_command(tokens))
    }
}

/// Reduces the tokens of `tokens` from `from` up to `to`.
fn reduce_range(tokens: &Vec<Lexeme>, from: usize, to: usize, grammar: &Grammar) -> (r: Result<
    Vec<AnyExpressionType>,
    CompileError,
>)
    requires
        from <= to <= tokens@.len(),
        to - from < tokens@.len(),
    ensures
        reduced(r) == operand(tokens@, from as int, to as int),
    decreases tokens@.len(), 0nat,
{
    parse_tokenized_expression(copy_range(tokens, from, to), grammar)
}

/// Builds the node of the construct that matches `tokens` with the ranges
/// `taken`.
fn build_node(
    construct: Construct,
    taken: &Vec<Range<usize>>,
    tokens: &Vec<Lexeme>,
    grammar: &Grammar,
) -> (r: Result<AnyExpressionType, CompileError>)
    requires
        well_formed_match(construct.steps(), tokens@, taken@),
    ensures
        built(r) == build(construct, taken@, tokens@),
    decreases tokens@.len(), 1nat,
{
    let ghost steps = construct.steps();
    match construct {
        Construct::Loop => {
            proof {
                span_is_smaller(steps, tokens@, taken@, 2, 2, 0);
            }
            match reduce_range(tokens, taken[2].start, taken[2].end, grammar) {
                Err(e) => Err(e),
                Ok(body) => make_loop(body),
            }
        },
        Construct::While | Construct::If => {
            proof {
                span_is_smaller(steps, tokens@, taken@, 2, 2, 0);
                span_is_smaller(steps, tokens@, taken@, 5, 5, 0);
            }
            let condition = match reduce_range(tokens, taken[2].start, taken[2].end, grammar) {
                Ok(condition) => condition,
                Err(e) => {
                    return Err(e);
                },
            };
            match reduce_range(tokens, taken[5].start, taken[5].end, grammar) {
                Err(e) => Err(e),
                Ok(body) => make_guarded(construct, tokens, condition, body),
            }
        },
        Construct::IfElse => {
            proof {
                span_is_smaller(steps, tokens@, taken@, 2, 2, 0);
                span_is_smaller(steps, tokens@, taken@, 5, 5, 0);
                span_is_smaller(steps, tokens@, taken@, 9, 9, 0);
            }
            let condition = match reduce_range(tokens, taken[2].start, taken[2].end, grammar) {
                Ok(condition) => condition,
                Err(e) => {
                    return Err(e);
                },
            };
            let if_true = match reduce_range(tokens, taken[5].start, taken[5].end, grammar) {
                Ok(if_true) => if_true,
                Err(e) => {
                    return Err(e);
                },
            };
            match reduce_range(tokens, taken[9].start, taken[9].end, grammar) {
                Err(e) => Err(e),
                Ok(if_false) => make_if_else(tokens, condition, if_true, if_false),
            }
        },
        Construct::Statement => {
            proof {
                span_is_smaller(steps, tokens@, taken@, 0, 0, 1);
            }
            match reduce_range(tokens, taken[0].start, taken[0].end, grammar) {
                Err(e) => Err(e),
                Ok(command) => take_only(command, tokens),
            }
        },
        Construct::NotEquals | Construct::LessOrEqual | Construct::GreaterOrEqual => {
            proof {
                span_is_smaller(steps, tokens@, taken@, 0, 0, 1);
                span_is_smaller(steps, tokens@, taken@, 3, 3, 1);
            }
            let left = match reduce_range(tokens, taken[0].start, taken[0].end, grammar) {
                Ok(left) => left,
                Err(e) => {
                    return Err(e);
                },
            };
            match reduce_range(tokens, taken[3].start, taken[3].end, grammar) {
                Err(e) => Err(e),
                Ok(right) => make_comparison(construct, tokens, left, right),
            }
        },
        Construct::Equals | Construct::LessThan | Construct::GreaterThan => {
            proof {
                span_is_smaller(steps, tokens@, taken@, 0, 0, 1);
                span_is_smaller(steps, tokens@, taken@, 2, 2, 1);
            }
            let left = match reduce_range(tokens, taken[0].start, taken[0].end, grammar) {
                Ok(left) => left,
                Err(e) => {
                    return Err(e);
                },
            };
            match reduce_range(tokens, taken[2].start, taken[2].end, grammar) {
                Err(e) => Err(e),
                Ok(right) => make_comparison(construct, tokens, left, right),
            }
        },
        Construct::BumpUp | Construct::BumpDown => {
            proof {
                span_is_smaller(steps, tokens@, taken@, 0, 0, 1);
            }
            match reduce_range(tokens, taken[0].start, taken[0].end, grammar) {
                Err(e) => Err(e),
                Ok(target) => make_bump(construct, tokens, target),
            }
        },
        Construct::AssignDoubleDeref | Construct::AssignSingleDeref => {
            proof {
                span_is_smaller(steps, tokens@, taken@, 0, 1, 2);
                span_is_smaller(steps, tokens@, taken@, 3, 3, 2);
            }
            let left = match reduce_range(tokens, taken[0].start, taken[1].end, grammar) {
                Ok(left) => left,
                Err(e) => {
                    return Err(e);
                },
            };
            match reduce_range(tokens, taken[3].start, taken[3].end, grammar) {
                Err(e) => Err(e),
                Ok(right) => make_assign(tokens, left, right),
            }
        },
        Construct::Adding | Construct::Subtracting => {
            proof {
                span_is_smaller(steps, tokens@, taken@, 0, 0, 1);
                span_is_smaller(steps, tokens@, taken@, 2, 2, 1);
            }
            let left = match reduce_range(tokens, taken[0].start, taken[0].end, grammar) {
                Ok(left) => left,
                Err(e) => {
                    return Err(e);
                },
            };
            match reduce_range(tokens, taken[2].start, taken[2].end, grammar) {
                Err(e) => Err(e),
                Ok(right) => make_arithmetic(construct, tokens, left, right),
            }
        },
        Construct::DoubleDeref => {
            proof {
                span_is_smaller(steps, tokens@, taken@, 1, 2, 0);
            }
            match reduce_range(tokens, taken[1].start, taken[2].end, grammar) {
                Err(e) => Err(e),
                Ok(inner) => make_deref(tokens, inner),
            }
        },
        Construct::SingleDeref => {
            proof {
                span_is_smaller(steps, tokens@, taken@, 1, 1, 0);
            }
            match reduce_range(tokens, taken[1].start, taken[1].end, grammar) {
                Err(e) => Err(e),
                Ok(inner) => make_deref(tokens, inner),
            }
        },
        Construct::Output => {
            proof {
                span_is_smaller(steps, tokens@, taken@, 2, 2, 0);
            }
            match reduce_range(tokens, taken[2].start, taken[2].end, grammar) {
                Err(e) => Err(e),
                Ok(argument) => make_output(tokens, argument),
            }
        },
        Construct::Input => {
            Ok(
                AnyExpressionType::new(
                    Some(Box::new(ExpressionNode::Input(Input {  }))),
                    None,
                    None,
                ),
            )
        },
        Construct::PlainNumber => make_number(tokens, taken[0].start),
        Construct::Break => {
            Ok(
                AnyExpressionType::new(
                    Some(Box::new(ExpressionNode::Break(Break {  }))),
                    None,
                    None,
                ),
            )
        },
    }
}

/// `done` before what `more` yields.
pub open spec fn after(done: Seq<AnyModel>, more: Reduced) -> Reduced {
    match more {
        Ok(nodes) => Ok(done + nodes),
        Err(e) => Err(e),
    }
}

/// Reduces `tokens` to the nodes that they stand for.
pub fn parse_tokenized_expression(tokens: Vec<Lexeme>, grammar: &Grammar) -> (r: Result<
    Vec<AnyExpressionType>,
    CompileError,
>)
    ensures
        reduced(r) == reduce(tokens@, PASS_BUDGET as nat),
    decreases tokens@.len(), 2nat,
{
    let ghost all = tokens@;
    let mut out: Vec<AnyExpressionType> = Vec::new();
    let mut current_tokens = tokens;
    let mut pass: usize = 0;
    assert(any_models(out@) + Seq::<AnyModel>::empty() =~= Seq::<AnyModel>::empty());
    while pass < PASS_BUDGET && current_tokens.len() > 0
        invariant
            all == tokens@,
            pass <= PASS_BUDGET,
            current_tokens@.len() <= all.len(),
            reduce(all, PASS_BUDGET as nat) == after(
                any_models(out@),
                reduce(current_tokens@, (PASS_BUDGET - pass) as nat),
            ),
        decreases PASS_BUDGET - pass,
    {
        match grammar.select(current_tokens.as_slice()) {
            None => {
                return Err(invalid_command(&current_tokens));
            },
            Some((construct, taken)) => {
                proof {
                    construct.has_steps();
                    ranges_ascend(
                        construct.steps(),
                        current_tokens@,
                        taken@,
                        0,
                        taken@.len() - 1,
                    );
                }
                let node = match build_node(construct, &taken, &current_tokens, grammar) {
                    Ok(node) => node,
                    Err(e) => {
                        return Err(e);
                    },
                };
                let ghost before = any_models(out@);
                let ghost rest = without(
                    current_tokens@,
                    taken@.first().start as int,
                    taken@.last().end as int,
                );
                out.push(node);
                current_tokens = remove_range(
                    &current_tokens,
                    taken[0].start,
                    taken[taken.len() - 1].end,
                );
                proof {
                    let left = (PASS_BUDGET - pass - 1) as nat;
                    assert(any_models(out@) =~= before + seq![node@]);
                    match reduce(rest, left) {
                        Ok(nodes) => {
                            assert(before + (seq![node@] + nodes) =~= any_models(out@) + nodes);
                        },
                        Err(_) => {},
                    }
                }
            },
        }
        pass = pass + 1;
    }
    if current_tokens.len() > 0 {
        return Err(invalid_command(&current_tokens));
    }
    assert(any_models(out@) + Seq::<AnyModel>::empty() =~= any_models(out@));
    Ok(out)
}

/// A program: the expressions that the source holds, in its order.
#[derive(Debug, PartialEq, Eq)]
pub struct AST {
    pub root: Vec<Box<ExpressionNode>>,
}

impl View for AST {
    type V = Seq<ExpressionModel>;

    /// The trees of the expressions of the program.
    open spec fn view(&self) -> Seq<ExpressionModel> {
        models(self.root@)
    }
}

impl AST {
    /// The program of the nodes `expressions`, each of which must be an
    /// expression.
    pub fn new(expressions: Vec<AnyExpressionType>) -> (r: Result<Self, CompileError>)
        ensures
            match r {
                Ok(ast) => need_expressions(any_models(expressions@)) == Ok::<
                    Seq<ExpressionModel>,
                    CompileErrorView,
                >(ast@),
                Err(e) => need_expressions(any_models(expressions@)) == Err::<
                    Seq<ExpressionModel>,
                    CompileErrorView,
                >(e@),
            },
    {
        match take_expressions(expressions) {
            Ok(root) => Ok(Self { root }),
            Err(e) => Err(e),
        }
    }

    /// How many labels the code of the program defines, counted up to one
    /// beyond the label limit.
    pub fn label_count(&self) -> (n: usize)
        ensures
            n == capped(block_labels(self@)),
    {
        block_label_count(&self.root)
    }

    /// The code of the program, with labels from 0 on; arithmetic keeps its
    /// first operand in the cell `add_addr`.
    pub fn to_commands(&self, add_addr: u8) -> (r: Result<Vec<Command>, CompileError>)
        requires
            block_labels(self@) <= LABEL_LIMIT,
        ensures
            generated(r) == block_code(self@, 0, add_addr),
    {
        let mut label_counter: u8 = 0;
        block_to_command(&self.root, &mut label_counter, add_addr)
    }
}

/// The program that `tokens` stand for.
pub fn parse_tokens(tokens: Vec<Lexeme>) -> (r: Result<AST, CompileError>)
    ensures
        match r {
            Ok(ast) => program(tokens@) == Ok::<Seq<ExpressionModel>, CompileErrorView>(ast@),
            Err(e) => program(tokens@) == Err::<Seq<ExpressionModel>, CompileErrorView>(e@),
        },
{
    let grammar = Grammar::new();
    match parse_tokenized_expression(tokens, &grammar) {
        Ok(nodes) => AST::new(nodes),
        Err(e) => Err(e),
    }
}

} // verus!
