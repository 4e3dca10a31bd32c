//! The nodes of the intermediate representation and their code generation.
//!
//! A node has up to three capabilities. As an `Expression` it generates
//! code of its own, as a `Value` it resolves to an operand, as a `Logical`
//! it generates code that jumps away when a comparison does not hold.
use crate::compiler::{Command, Label, LabelRef, Reference, LABEL_LIMIT};
use crate::model::{
    block_code, block_failure_stays, block_labels, code, labels, logical_code, logical_labels,
    resolve, then, AnyModel, ExpressionModel, Generated, LogicalModel, ValueModel,
};
use crate::{CompileError, CompileErrorView};
use vstd::prelude::*;
use vstd::std_specs::convert::FromSpecImpl;

verus! {

/// `n`, or one more than the label limit if `n` is beyond the limit.
pub open spec fn capped(n: nat) -> nat {
    if n <= LABEL_LIMIT {
        n
    } else {
        (LABEL_LIMIT + 1) as nat
    }
}

/// The commands or the failure of a code generator, as sequences.
pub open spec fn generated(result: Result<Vec<Command>, CompileError>) -> Generated {
    match result {
        Ok(commands) => Ok(commands@),
        Err(e) => Err(e@),
    }
}

/// A node that generates code of its own.
pub trait Expression {
    /// The tree that this node stands for.
    spec fn as_expression(&self) -> ExpressionModel;

    /// How many labels the code of this node defines, counted up to one
    /// beyond the label limit.
    fn label_count(&self) -> (n: usize)
        ensures
            n == capped(labels(self.as_expression())),
    ;

    /// The code of this node. Its labels are taken from `label_counter`,
    /// which moves past them; when there is no code, the counter stays.
    /// Arithmetic keeps its first operand in the cell `add_addr`.
    fn to_command(&self, label_counter: &mut u8, add_addr: u8) -> (r: Result<
        Vec<Command>,
        CompileError,
    >)
        requires
            *old(label_counter) + labels(self.as_expression()) <= LABEL_LIMIT,
        ensures
            generated(r) == code(self.as_expression(), *old(label_counter) as nat, add_addr),
            r is Ok ==> *final(label_counter) == *old(label_counter) + labels(
                self.as_expression(),
            ),
            r is Err ==> *final(label_counter) == *old(label_counter),
    ;
}

/// A node that stands for a place or a literal.
pub trait Value {
    /// The tree that this node stands for.
    spec fn as_value(&self) -> ValueModel;

    /// What this node resolves to.
    fn value(&self) -> (r: Result<Reference, CompileError>)
        ensures
            match r {
                Ok(cell) => resolve(self.as_value()) == Ok::<Reference, CompileErrorView>(cell),
                Err(e) => resolve(self.as_value()) == Err::<Reference, CompileErrorView>(e@),
            },
    ;
}

/// A node that compares the value of an expression with zero.
pub trait Logical {
    /// The tree that this node stands for.
    spec fn as_logical(&self) -> LogicalModel;

    /// How many labels the code of this node defines, counted up to one
    /// beyond the label limit.
    fn label_count(&self) -> (n: usize)
        ensures
            n == capped(logical_labels(self.as_logical())),
    ;

    /// The code of this node: execution goes on behind it when the
    /// comparison holds and at `end_label` when it does not. Labels and
    /// `add_addr` are used as in `Expression::to_command`.
    fn to_commands(&self, end_label: LabelRef, label_counter: &mut u8, add_addr: u8) -> (r: Result<
        Vec<Command>,
        CompileError,
    >)
        requires
            *old(label_counter) + logical_labels(self.as_logical()) <= LABEL_LIMIT,
        ensures
            generated(r) == logical_code(
                self.as_logical(),
                end_label,
                *old(label_counter) as nat,
                add_addr,
            ),
            r is Ok ==> *final(label_counter) == *old(label_counter) + logical_labels(
                self.as_logical(),
            ),
            r is Err ==> *final(label_counter) == *old(label_counter),
    ;
}

/// Any node that is an `Expression`.
#[derive(Debug, PartialEq, Eq)]
pub enum ExpressionNode {
    Output(Output),
    Input(Input),
    Deref(Deref),
    Add(Add),
    Subtract(Subtract),
    Loop(Loop),
    Assign(Assign),
    If(If),
    IfElse(IfElse),
    Increment(Increment),
    Decrement(Decrement),
    While(While),
    Break(Break),
}

/// Any node that is a `Value`.
#[derive(Debug, PartialEq, Eq)]
pub enum ValueNode {
    Number(Number),
    Deref(Deref),
}

/// Any node that is a `Logical`.
#[derive(Debug, PartialEq, Eq)]
pub enum LogicalNode {
    IsZero(IsZero),
    NotZero(NotZero),
    GreaterThanZero(GreaterThanZero),
    LessThanZero(LessThanZero),
    GreaterOrEqualToZero(GreaterOrEqualToZero),
    LessOrEqualToZero(LessOrEqualToZero),
}

/// A literal.
#[derive(Debug, PartialEq, Eq)]
pub struct Number {
    number: u8,
}

/// Sends the value of its argument to the outbox.
#[derive(Debug, PartialEq, Eq)]
pub struct Output {
    argument: Box<ExpressionNode>,
}

/// Takes the next value from the inbox.
#[derive(Debug, PartialEq, Eq)]
pub struct Input {}

/// The memory cell whose address its operand gives.
#[derive(Debug, PartialEq, Eq)]
pub struct Deref {
    to_deref: Box<ValueNode>,
}

/// The sum of two expressions.
#[derive(Debug, PartialEq, Eq)]
pub struct Add {
    left: Box<ExpressionNode>,
    right: Box<ExpressionNode>,
}

/// The difference of two expressions, the left one less the right one.
#[derive(Debug, PartialEq, Eq)]
pub struct Subtract {
    left: Box<ExpressionNode>,
    right: Box<ExpressionNode>,
}

/// Runs its contents again and again.
#[derive(Debug, PartialEq, Eq)]
pub struct Loop {
    contents: Vec<Box<ExpressionNode>>,
}

/// Stores the value of the right side in the place that the left side names.
#[derive(Debug, PartialEq, Eq)]
pub struct Assign {
    left: Box<ValueNode>,
    right: Box<ExpressionNode>,
}

/// Runs its contents if the condition holds.
#[derive(Debug, PartialEq, Eq)]
pub struct If {
    condition: Box<LogicalNode>,
    to_run: Vec<Box<ExpressionNode>>,
}

/// Runs one block if the condition holds and the other if it does not.
#[derive(Debug, PartialEq, Eq)]
pub struct IfElse {
    condition: Box<LogicalNode>,
    if_true: Vec<Box<ExpressionNode>>,
    if_false: Vec<Box<ExpressionNode>>,
}

/// Holds when the expression is zero.
#[derive(Debug, PartialEq, Eq)]
pub struct IsZero {
    expression: Box<ExpressionNode>,
}

/// Holds when the expression is not zero.
#[derive(Debug, PartialEq, Eq)]
pub struct NotZero {
    expression: Box<ExpressionNode>,
}

/// Holds when the expression is greater than zero.
#[derive(Debug, PartialEq, Eq)]
pub struct GreaterThanZero {
    expression: Box<ExpressionNode>,
}

/// Holds when the expression is less than zero.
#[derive(Debug, PartialEq, Eq)]
pub struct LessThanZero {
    expression: Box<ExpressionNode>,
}

/// Holds when the expression is zero or greater.
#[derive(Debug, PartialEq, Eq)]
pub struct GreaterOrEqualToZero {
    expression: Box<ExpressionNode>,
}

/// Holds when the expression is zero or less.
#[derive(Debug, PartialEq, Eq)]
pub struct LessOrEqualToZero {
    expression: Box<ExpressionNode>,
}

/// Adds one to a memory cell and leaves the result in the accumulator.
#[derive(Debug, PartialEq, Eq)]
pub struct Increment {
    to_increment: Box<ValueNode>,
}

/// Takes one from a memory cell and leaves the result in the accumulator.
#[derive(Debug, PartialEq, Eq)]
pub struct Decrement {
    to_decrement: Box<ValueNode>,
}

/// Runs its contents as long as the condition holds.
#[derive(Debug, PartialEq, Eq)]
pub struct While {
    condition: Box<LogicalNode>,
    contents: Vec<Box<ExpressionNode>>,
}

/// Leaves the loop around it. It is accepted in the source and has no code.
#[derive(Debug, PartialEq, Eq)]
pub struct Break {}

/// The trees that the nodes of `block` stand for.
pub open spec fn models(block: Seq<Box<ExpressionNode>>) -> Seq<ExpressionModel>
    decreases block,
{
    if block.len() == 0 {
        Seq::empty()
    } else {
        models(block.drop_last()).push(block.last().as_expression())
    }
}

/// `models` keeps the length and the order.
pub proof fn models_index(block: Seq<Box<ExpressionNode>>, i: int)
    requires
        0 <= i < block.len(),
    ensures
        models(block).len() == block.len(),
        models(block)[i] == block[i].as_expression(),
    decreases block,
{
    models_len(block.drop_last());
    assert(models(block) == models(block.drop_last()).push(block.last().as_expression()));
    if i < block.len() - 1 {
        models_index(block.drop_last(), i);
    }
}

/// `models` keeps the length.
pub proof fn models_len(block: Seq<Box<ExpressionNode>>)
    ensures
        models(block).len() == block.len(),
    decreases block,
{
    if block.len() > 0 {
        models_len(block.drop_last());
        assert(models(block) == models(block.drop_last()).push(block.last().as_expression()));
    }
}

/// The models of a prefix are the prefix of the models.
proof fn models_take(block: Seq<Box<ExpressionNode>>, n: int)
    requires
        0 <= n <= block.len(),
    ensures
        models(block.take(n)) == models(block).take(n),
{
    models_len(block);
    models_len(block.take(n));
    assert forall|i: int| 0 <= i < n implies models(block.take(n))[i] == models(block).take(n)[i] by {
        models_index(block.take(n), i);
        models_index(block, i);
    }
    assert(models(block.take(n)) =~= models(block).take(n));
}

/// The trees and the code of a prefix of a block that is one node longer
/// than another.
proof fn block_step(block: Seq<Box<ExpressionNode>>, i: int, start: nat, scratch: u8)
    requires
        0 <= i < block.len(),
    ensures
        models(block.take(i + 1)) == models(block.take(i)).push(block[i].as_expression()),
        block_labels(models(block.take(i + 1))) == block_labels(models(block.take(i))) + labels(
            block[i].as_expression(),
        ),
        block_labels(models(block.take(i + 1))) <= block_labels(models(block)),
        block_code(models(block.take(i + 1)), start, scratch) == then(
            block_code(models(block.take(i)), start, scratch),
            code(
                block[i].as_expression(),
                start + block_labels(models(block.take(i))),
                scratch,
            ),
        ),
{
    let longer = block.take(i + 1);
    assert(longer.drop_last() == block.take(i));
    assert(longer.last() == block[i]);
    assert(models(longer) == models(longer.drop_last()).push(longer.last().as_expression()));
    let trees = models(longer);
    assert(trees.drop_last() == models(block.take(i)));
    assert(trees.last() == block[i].as_expression());
    models_len(block);
    models_take(block, i + 1);
    block_labels_grow(models(block), i + 1);
}

/// A vector that holds `command` and nothing else.
fn single(command: Command) -> (v: Vec<Command>)
    ensures
        v@ == seq![command],
{
    let mut v = Vec::new();
    v.push(command);
    assert(v@ == seq![command]);
    v
}

/// The sum of two capped counts, capped.
fn add_capped(a: usize, b: usize) -> (n: usize)
    requires
        a <= LABEL_LIMIT + 1,
        b <= LABEL_LIMIT + 1,
    ensures
        n == capped((a + b) as nat),
{
    let n = a + b;
    if n > LABEL_LIMIT {
        LABEL_LIMIT + 1
    } else {
        n
    }
}

/// How many labels the code of `block` defines, counted up to one beyond the
/// label limit.
pub fn block_label_count(block: &Vec<Box<ExpressionNode>>) -> (n: usize)
    ensures
        n == capped(block_labels(models(block@))),
    decreases block,
{
    let mut n: usize = 0;
    let mut i: usize = 0;
    proof {
        assert(block@.take(0) == Seq::<Box<ExpressionNode>>::empty());
    }
    while i < block.len()
        invariant
            i <= block@.len(),
            n == capped(block_labels(models(block@.take(i as int)))),
        decreases block@.len() - i,
    {
        proof {
            block_step(block@, i as int, 0, 0);
        }
        let next = block[i].label_count();
        n = add_capped(n, next);
        i = i + 1;
    }
    proof {
        assert(block@.take(block@.len() as int) == block@);
    }
    n
}

/// The code of the nodes of `block`, one after the other.
pub fn block_to_command(block: &Vec<Box<ExpressionNode>>, label_counter: &mut u8, add_addr: u8) -> (r:
    Result<Vec<Command>, CompileError>)
    requires
        *old(label_counter) + block_labels(models(block@)) <= LABEL_LIMIT,
    ensures
        generated(r) == block_code(models(block@), *old(label_counter) as nat, add_addr),
        r is Ok ==> *final(label_counter) == *old(label_counter) + block_labels(models(block@)),
        r is Err ==> *final(label_counter) == *old(label_counter),
    decreases block,
{
    let start = *label_counter;
    let mut out: Vec<Command> = Vec::new();
    let mut i: usize = 0;
    proof {
        assert(block@.take(0) == Seq::<Box<ExpressionNode>>::empty());
    }
    while i < block.len()
        invariant
            i <= block@.len(),
            start == *old(label_counter),
            start + block_labels(models(block@)) <= LABEL_LIMIT,
            *label_counter == start + block_labels(models(block@.take(i as int))),
            block_code(models(block@.take(i as int)), start as nat, add_addr) == Ok::<
                Seq<Command>,
                CompileErrorView,
            >(out@),
        decreases block@.len() - i,
    {
        proof {
            block_step(block@, i as int, start as nat, add_addr);
        }
        match block[i].to_command(label_counter, add_addr) {
            Ok(mut more) => {
                out.append(&mut more);
            },
            Err(e) => {
                proof {
                    models_len(block@);
                    models_take(block@, i + 1);
                    block_failure_stays(models(block@), start as nat, add_addr, i + 1);
                }
                *label_counter = start;
                return Err(e);
            },
        }
        i = i + 1;
    }
    proof {
        assert(block@.take(block@.len() as int) == block@);
    }
    Ok(out)
}

/// A prefix of a block defines no more labels than the block.
proof fn block_labels_grow(block: Seq<ExpressionModel>, n: int)
    requires
        0 <= n <= block.len(),
    ensures
        block_labels(block.take(n)) <= block_labels(block),
    decreases block.len() - n,
{
    if n < block.len() {
        assert(block.take(n + 1).drop_last() == block.take(n));
        block_labels_grow(block, n + 1);
    } else {
        assert(block.take(n) == block);
    }
}

impl Number {
    /// The literal `number`.
    pub fn new(number: u8) -> (r: Self)
        ensures
            r.as_value() == ValueModel::Number(number),
    {
        Self { number }
    }
}

impl Clone for Number {
    fn clone(&self) -> (r: Self)
        ensures
            r == *self,
    {
        Number { number: self.number }
    }
}

impl Value for Number {
    closed spec fn as_value(&self) -> ValueModel {
        ValueModel::Number(self.number)
    }

    fn value(&self) -> (r: Result<Reference, CompileError>) {
        Ok(Reference::Number(self.number))
    }
}

impl Deref {
    /// The cell whose address `to_deref` gives.
    pub fn new(to_deref: Box<ValueNode>) -> (r: Self)
        ensures
            r.as_value() == ValueModel::Deref(Box::new(to_deref.as_value())),
            r.as_expression() == ExpressionModel::Deref(to_deref.as_value()),
    {
        Self { to_deref }
    }
}

impl Clone for Deref {
    fn clone(&self) -> (r: Self)
        ensures
            r == *self,
        decreases self,
    {
        let inner: ValueNode = (*self.to_deref).clone();
        Deref { to_deref: Box::new(inner) }
    }
}

impl Value for Deref {
    closed spec fn as_value(&self) -> ValueModel
        decreases self,
    {
        ValueModel::Deref(Box::new(self.to_deref.as_value()))
    }

    fn value(&self) -> (r: Result<Reference, CompileError>)
        decreases self,
    {
        match &*self.to_deref {
            ValueNode::Number(t) => Ok(Reference::Pointer(t.number)),
            ValueNode::Deref(t) => {
                match t.value() {
                    Ok(Reference::Pointer(num)) => Ok(Reference::PointerPointer(num)),
                    _ => Err(CompileError::NumberInsertionError),
                }
            },
        }
    }
}

impl Expression for Deref {
    closed spec fn as_expression(&self) -> ExpressionModel {
        ExpressionModel::Deref(self.to_deref.as_value())
    }

    fn label_count(&self) -> (n: usize) {
        0
    }

    fn to_command(&self, label_counter: &mut u8, add_addr: u8) -> (r: Result<
        Vec<Command>,
        CompileError,
    >) {
        match self.value() {
            Ok(cell) => Ok(single(Command::CopyFrom(cell))),
            Err(e) => Err(e),
        }
    }
}

impl Clone for ValueNode {
    fn clone(&self) -> (r: Self)
        ensures
            r == *self,
        decreases self,
    {
        match self {
            ValueNode::Number(n) => ValueNode::Number(n.clone()),
            ValueNode::Deref(d) => ValueNode::Deref(d.clone()),
        }
    }
}

impl Value for ValueNode {
    open spec fn as_value(&self) -> ValueModel
        decreases self,
    {
        match self {
            ValueNode::Number(n) => n.as_value(),
            ValueNode::Deref(d) => d.as_value(),
        }
    }

    fn value(&self) -> (r: Result<Reference, CompileError>)
        decreases self,
    {
        match self {
            ValueNode::Number(n) => n.value(),
            ValueNode::Deref(d) => d.value(),
        }
    }
}

impl Output {
    /// The node that sends the value of `argument` to the outbox.
    pub fn new(argument: Box<ExpressionNode>) -> (r: Self)
        ensures
            r.as_expression() == ExpressionModel::Output(Box::new(argument.as_expression())),
    {
        Self { argument }
    }
}

impl Expression for Output {
    closed spec fn as_expression(&self) -> ExpressionModel
        decreases self,
    {
        ExpressionModel::Output(Box::new(self.argument.as_expression()))
    }

    fn label_count(&self) -> (n: usize)
        decreases self,
    {
        self.argument.label_count()
    }

    fn to_command(&self, label_counter: &mut u8, add_addr: u8) -> (r: Result<
        Vec<Command>,
        CompileError,
    >)
        decreases self,
    {
        match self.argument.to_command(label_counter, add_addr) {
            Ok(mut out) => {
                let ghost before = out@;
                out.push(Command::Outbox);
                assert(out@ == before + seq![Command::Outbox]);
                Ok(out)
            },
            Err(e) => Err(e),
        }
    }
}

impl Expression for Input {
    open spec fn as_expression(&self) -> ExpressionModel {
        ExpressionModel::Input
    }

    fn label_count(&self) -> (n: usize) {
        0
    }

    fn to_command(&self, label_counter: &mut u8, add_addr: u8) -> (r: Result<
        Vec<Command>,
        CompileError,
    >) {
        Ok(single(Command::Inbox))
    }
}

impl Expression for Break {
    open spec fn as_expression(&self) -> ExpressionModel {
        ExpressionModel::Break
    }

    fn label_count(&self) -> (n: usize) {
        0
    }

    fn to_command(&self, label_counter: &mut u8, add_addr: u8) -> (r: Result<
        Vec<Command>,
        CompileError,
    >) {
        Err(CompileError::Error)
    }
}

impl Add {
    /// The sum of `left` and `right`.
    pub fn new(left: Box<ExpressionNode>, right: Box<ExpressionNode>) -> (r: Self)
        ensures
            r.as_expression() == ExpressionModel::Add(
                Box::new(left.as_expression()),
                Box::new(right.as_expression()),
            ),
    {
        Self { left, right }
    }
}

impl Expression for Add {
    closed spec fn as_expression(&self) -> ExpressionModel
        decreases self,
    {
        ExpressionModel::Add(
            Box::new(self.left.as_expression()),
            Box::new(self.right.as_expression()),
        )
    }

    fn label_count(&self) -> (n: usize)
        decreases self,
    {
        add_capped(self.left.label_count(), self.right.label_count())
    }

    fn to_command(&self, label_counter: &mut u8, add_addr: u8) -> (r: Result<
        Vec<Command>,
        CompileError,
    >)
        decreases self,
    {
        let start = *label_counter;
        let mut out = match self.left.to_command(label_counter, add_addr) {
            Ok(out) => out,
            Err(e) => {
                return Err(e);
            },
        };
        let ghost first = out@;
        out.push(Command::CopyTo(Reference::Pointer(add_addr)));
        let mut second = match self.right.to_command(label_counter, add_addr) {
            Ok(second) => second,
            Err(e) => {
                *label_counter = start;
                return Err(e);
            },
        };
        let ghost operand = second@;
        out.append(&mut second);
        out.push(Command::Add(Reference::Pointer(add_addr)));
        assert(out@ == ((first + seq![Command::CopyTo(Reference::Pointer(add_addr))]) + operand)
            + seq![Command::Add(Reference::Pointer(add_addr))]);
        Ok(out)
    }
}

impl Subtract {
    /// The difference of `left` and `right`.
    pub fn new(left: Box<ExpressionNode>, right: Box<ExpressionNode>) -> (r: Self)
        ensures
            r.as_expression() == ExpressionModel::Subtract(
                Box::new(left.as_expression()),
                Box::new(right.as_expression()),
            ),
    {
        Self { left, right }
    }
}

impl Expression for Subtract {
    closed spec fn as_expression(&self) -> ExpressionModel
        decreases self,
    {
        ExpressionModel::Subtract(
            Box::new(self.left.as_expression()),
            Box::new(self.right.as_expression()),
        )
    }

    fn label_count(&self) -> (n: usize)
        decreases self,
    {
        add_capped(self.left.label_count(), self.right.label_count())
    }

    fn to_command(&self, label_counter: &mut u8, add_addr: u8) -> (r: Result<
        Vec<Command>,
        CompileError,
    >)
        decreases self,
    {
        let start = *label_counter;
        let mut out = match self.right.to_command(label_counter, add_addr) {
            Ok(out) => out,
            Err(e) => {
                return Err(e);
            },
        };
        let ghost first = out@;
        out.push(Command::CopyTo(Reference::Pointer(add_addr)));
        let mut second = match self.left.to_command(label_counter, add_addr) {
            Ok(second) => second,
            Err(e) => {
                *label_counter = start;
                return Err(e);
            },
        };
        let ghost operand = second@;
        out.append(&mut second);
        out.push(Command::Subtract(Reference::Pointer(add_addr)));
        assert(out@ == ((first + seq![Command::CopyTo(Reference::Pointer(add_addr))]) + operand)
            + seq![Command::Subtract(Reference::Pointer(add_addr))]);
        Ok(out)
    }
}

impl Loop {
    /// The loop that runs `contents` again and again.
    pub fn new(contents: Vec<Box<ExpressionNode>>) -> (r: Self)
        ensures
            r.as_expression() == ExpressionModel::Loop(models(contents@)),
    {
        Self { contents }
    }
}

impl Expression for Loop {
    closed spec fn as_expression(&self) -> ExpressionModel
        decreases self,
    {
        ExpressionModel::Loop(models(self.contents@))
    }

    fn label_count(&self) -> (n: usize)
        decreases self,
    {
        add_capped(1, block_label_count(&self.contents))
    }

    fn to_command(&self, label_counter: &mut u8, add_addr: u8) -> (r: Result<
        Vec<Command>,
        CompileError,
    >)
        decreases self,
    {
        let start = *label_counter;
        let top_label = Label::new(label_counter);
        let top_label_ref = LabelRef::new(&top_label);
        let mut out = single(Command::Label(top_label));
        let ghost first = out@;
        let mut body = match block_to_command(&self.contents, label_counter, add_addr) {
            Ok(body) => body,
            Err(e) => {
                *label_counter = start;
                return Err(e);
            },
        };
        let ghost middle = body@;
        out.append(&mut body);
        out.push(Command::Jump(top_label_ref));
        proof {
            broadcast use Label::at_number;

            assert(first == seq![Command::Label(Label::at(start))]);
            assert(out@ == (first + middle) + seq![Command::Jump(LabelRef::to(start))]);
        }
        Ok(out)
    }
}

impl Assign {
    /// The node that stores the value of `right` in the place `left`.
    pub fn new(left: Box<ValueNode>, right: Box<ExpressionNode>) -> (r: Self)
        ensures
            r.as_expression() == ExpressionModel::Assign(
                left.as_value(),
                Box::new(right.as_expression()),
            ),
    {
        Self { left, right }
    }
}

impl Expression for Assign {
    closed spec fn as_expression(&self) -> ExpressionModel
        decreases self,
    {
        ExpressionModel::Assign(self.left.as_value(), Box::new(self.right.as_expression()))
    }

    fn label_count(&self) -> (n: usize)
        decreases self,
    {
        self.right.label_count()
    }

    fn to_command(&self, label_counter: &mut u8, add_addr: u8) -> (r: Result<
        Vec<Command>,
        CompileError,
    >)
        decreases self,
    {
        let start = *label_counter;
        let mut out = match self.right.to_command(label_counter, add_addr) {
            Ok(out) => out,
            Err(e) => {
                return Err(e);
            },
        };
        let ghost first = out@;
        match self.left.value() {
            Ok(cell) => {
                out.push(Command::CopyTo(cell));
                assert(out@ == first + seq![Command::CopyTo(cell)]);
                Ok(out)
            },
            Err(e) => {
                *label_counter = start;
                Err(e)
            },
        }
    }
}

impl Increment {
    /// The node that adds one to the cell `to_increment`.
    pub fn new(to_increment: Box<ValueNode>) -> (r: Self)
        ensures
            r.as_expression() == ExpressionModel::Increment(to_increment.as_value()),
    {
        Self { to_increment }
    }
}

impl Expression for Increment {
    closed spec fn as_expression(&self) -> ExpressionModel {
        ExpressionModel::Increment(self.to_increment.as_value())
    }

    fn label_count(&self) -> (n: usize) {
        0
    }

    fn to_command(&self, label_counter: &mut u8, add_addr: u8) -> (r: Result<
        Vec<Command>,
        CompileError,
    >) {
        match self.to_increment.value() {
            Ok(Reference::Pointer(cell)) => Ok(single(Command::Increment(Reference::Pointer(cell)))),
            _ => Err(CompileError::NumberInsertionError),
        }
    }
}

impl Decrement {
    /// The node that takes one from the cell `to_decrement`.
    pub fn new(to_decrement: Box<ValueNode>) -> (r: Self)
        ensures
            r.as_expression() == ExpressionModel::Decrement(to_decrement.as_value()),
    {
        Self { to_decrement }
    }
}

impl Expression for Decrement {
    closed spec fn as_expression(&self) -> ExpressionModel {
        ExpressionModel::Decrement(self.to_decrement.as_value())
    }

    fn label_count(&self) -> (n: usize) {
        0
    }

    fn to_command(&self, label_counter: &mut u8, add_addr: u8) -> (r: Result<
        Vec<Command>,
        CompileError,
    >) {
        match self.to_decrement.value() {
            Ok(Reference::Pointer(cell)) => Ok(single(Command::Decrement(Reference::Pointer(cell)))),
            _ => Err(CompileError::NumberInsertionError),
        }
    }
}

impl IsZero {
    /// The comparison that holds when `expression` is zero.
    pub fn new(expression: Box<ExpressionNode>) -> (r: Self)
        ensures
            r.as_logical() == LogicalModel::IsZero(Box::new(expression.as_expression())),
    {
        Self { expression }
    }
}

impl Logical for IsZero {
    closed spec fn as_logical(&self) -> LogicalModel
        decreases self,
    {
        LogicalModel::IsZero(Box::new(self.expression.as_expression()))
    }

    fn label_count(&self) -> (n: usize)
        decreases self,
    {
        add_capped(self.expression.label_count(), 1)
    }

    fn to_commands(&self, end_label: LabelRef, label_counter: &mut u8, add_addr: u8) -> (r: Result<
        Vec<Command>,
        CompileError,
    >)
        decreases self,
    {
        let mut out = match self.expression.to_command(label_counter, add_addr) {
            Ok(out) => out,
            Err(e) => {
                return Err(e);
            },
        };
        let ghost first = out@;
        let new_label = Label::new(label_counter);
        out.push(Command::JumpIfZero(new_label.reference()));
        out.push(Command::Jump(end_label));
        out.push(Command::Label(new_label));
        proof {
            broadcast use Label::at_number;

            assert(out@ == first + self.as_logical().jumps(
                end_label,
                (*old(label_counter) + labels(self.expression.as_expression())) as u8,
            ));
        }
        Ok(out)
    }
}

impl NotZero {
    /// The comparison that holds when `expression` is not zero.
    pub fn new(expression: Box<ExpressionNode>) -> (r: Self)
        ensures
            r.as_logical() == LogicalModel::NotZero(Box::new(expression.as_expression())),
    {
        Self { expression }
    }
}

impl Logical for NotZero {
    closed spec fn as_logical(&self) -> LogicalModel
        decreases self,
    {
        LogicalModel::NotZero(Box::new(self.expression.as_expression()))
    }

    fn label_count(&self) -> (n: usize)
        decreases self,
    {
        self.expression.label_count()
    }

    fn to_commands(&self, end_label: LabelRef, label_counter: &mut u8, add_addr: u8) -> (r: Result<
        Vec<Command>,
        CompileError,
    >)
        decreases self,
    {
        let mut out = match self.expression.to_command(label_counter, add_addr) {
            Ok(out) => out,
            Err(e) => {
                return Err(e);
            },
        };
        let ghost first = out@;
        out.push(Command::JumpIfZero(end_label));
        proof {
            assert(out@ == first + self.as_logical().jumps(
                end_label,
                (*old(label_counter) + labels(self.expression.as_expression())) as u8,
            ));
        }
        Ok(out)
    }
}

impl GreaterThanZero {
    /// The comparison that holds when `expression` is greater than zero.
    pub fn new(expression: Box<ExpressionNode>) -> (r: Self)
        ensures
            r.as_logical() == LogicalModel::GreaterThanZero(Box::new(expression.as_expression())),
    {
        Self { expression }
    }
}

impl Logical for GreaterThanZero {
    closed spec fn as_logical(&self) -> LogicalModel
        decreases self,
    {
        LogicalModel::GreaterThanZero(Box::new(self.expression.as_expression()))
    }

    fn label_count(&self) -> (n: usize)
        decreases self,
    {
        self.expression.label_count()
    }

    fn to_commands(&self, end_label: LabelRef, label_counter: &mut u8, add_addr: u8) -> (r: Result<
        Vec<Command>,
        CompileError,
    >)
        decreases self,
    {
        let mut out = match self.expression.to_command(label_counter, add_addr) {
            Ok(out) => out,
            Err(e) => {
                return Err(e);
            },
        };
        let ghost first = out@;
        out.push(Command::JumpIfZero(end_label));
        out.push(Command::JumpIfNegative(end_label));
        proof {
            assert(out@ == first + self.as_logical().jumps(
                end_label,
                (*old(label_counter) + labels(self.expression.as_expression())) as u8,
            ));
        }
        Ok(out)
    }
}

impl LessThanZero {
    /// The comparison that holds when `expression` is less than zero.
    pub fn new(expression: Box<ExpressionNode>) -> (r: Self)
        ensures
            r.as_logical() == LogicalModel::LessThanZero(Box::new(expression.as_expression())),
    {
        Self { expression }
    }
}

impl Logical for LessThanZero {
    closed spec fn as_logical(&self) -> LogicalModel
        decreases self,
    {
        LogicalModel::LessThanZero(Box::new(self.expression.as_expression()))
    }

    fn label_count(&self) -> (n: usize)
        decreases self,
    {
        add_capped(self.expression.label_count(), 1)
    }

    fn to_commands(&self, end_label: LabelRef, label_counter: &mut u8, add_addr: u8) -> (r: Result<
        Vec<Command>,
        CompileError,
    >)
        decreases self,
    {
        let mut out = match self.expression.to_command(label_counter, add_addr) {
            Ok(out) => out,
            Err(e) => {
                return Err(e);
            },
        };
        let ghost first = out@;
        let label = Label::new(label_counter);
        out.push(Command::JumpIfNegative(label.reference()));
        out.push(Command::Jump(end_label));
        out.push(Command::Label(label));
        proof {
            broadcast use Label::at_number;

            assert(out@ == first + self.as_logical().jumps(
                end_label,
                (*old(label_counter) + labels(self.expression.as_expression())) as u8,
            ));
        }
        Ok(out)
    }
}

impl GreaterOrEqualToZero {
    /// The comparison that holds when `expression` is zero or greater.
    pub fn new(expression: Box<ExpressionNode>) -> (r: Self)
        ensures
            r.as_logical() == LogicalModel::GreaterOrEqualToZero(Box::new(expression.as_expression())),
    {
        Self { expression }
    }
}

impl Logical for GreaterOrEqualToZero {
    closed spec fn as_logical(&self) -> LogicalModel
        decreases self,
    {
        LogicalModel::GreaterOrEqualToZero(Box::new(self.expression.as_expression()))
    }

    fn label_count(&self) -> (n: usize)
        decreases self,
    {
        self.expression.label_count()
    }

    fn to_commands(&self, end_label: LabelRef, label_counter: &mut u8, add_addr: u8) -> (r: Result<
        Vec<Command>,
        CompileError,
    >)
        decreases self,
    {
        let mut out = match self.expression.to_command(label_counter, add_addr) {
            Ok(out) => out,
            Err(e) => {
                return Err(e);
            },
        };
        let ghost first = out@;
        out.push(Command::JumpIfNegative(end_label));
        proof {
            assert(out@ == first + self.as_logical().jumps(
                end_label,
                (*old(label_counter) + labels(self.expression.as_expression())) as u8,
            ));
        }
        Ok(out)
    }
}

impl LessOrEqualToZero {
    /// The comparison that holds when `expression` is zero or less.
    pub fn new(expression: Box<ExpressionNode>) -> (r: Self)
        ensures
            r.as_logical() == LogicalModel::LessOrEqualToZero(Box::new(expression.as_expression())),
    {
        Self { expression }
    }
}

impl Logical for LessOrEqualToZero {
    closed spec fn as_logical(&self) -> LogicalModel
        decreases self,
    {
        LogicalModel::LessOrEqualToZero(Box::new(self.expression.as_expression()))
    }

    fn label_count(&self) -> (n: usize)
        decreases self,
    {
        add_capped(self.expression.label_count(), 1)
    }

    fn to_commands(&self, end_label: LabelRef, label_counter: &mut u8, add_addr: u8) -> (r: Result<
        Vec<Command>,
        CompileError,
    >)
        decreases self,
    {
        let mut out = match self.expression.to_command(label_counter, add_addr) {
            Ok(out) => out,
            Err(e) => {
                return Err(e);
            },
        };
        let ghost first = out@;
        let label = Label::new(label_counter);
        out.push(Command::JumpIfNegative(label.reference()));
        out.push(Command::JumpIfZero(label.reference()));
        out.push(Command::Jump(end_label));
        out.push(Command::Label(label));
        proof {
            broadcast use Label::at_number;

            assert(out@ == first + self.as_logical().jumps(
                end_label,
                (*old(label_counter) + labels(self.expression.as_expression())) as u8,
            ));
        }
        Ok(out)
    }
}

impl Logical for LogicalNode {
    open spec fn as_logical(&self) -> LogicalModel
        decreases self,
    {
        match self {
            LogicalNode::IsZero(c) => c.as_logical(),
            LogicalNode::NotZero(c) => c.as_logical(),
            LogicalNode::GreaterThanZero(c) => c.as_logical(),
            LogicalNode::LessThanZero(c) => c.as_logical(),
            LogicalNode::GreaterOrEqualToZero(c) => c.as_logical(),
            LogicalNode::LessOrEqualToZero(c) => c.as_logical(),
        }
    }

    fn label_count(&self) -> (n: usize)
        decreases self,
    {
        match self {
            LogicalNode::IsZero(c) => c.label_count(),
            LogicalNode::NotZero(c) => c.label_count(),
            LogicalNode::GreaterThanZero(c) => c.label_count(),
            LogicalNode::LessThanZero(c) => c.label_count(),
            LogicalNode::GreaterOrEqualToZero(c) => c.label_count(),
            LogicalNode::LessOrEqualToZero(c) => c.label_count(),
        }
    }

    fn to_commands(&self, end_label: LabelRef, label_counter: &mut u8, add_addr: u8) -> (r: Result<
        Vec<Command>,
        CompileError,
    >)
        decreases self,
    {
        match self {
            LogicalNode::IsZero(c) => c.to_commands(end_label, label_counter, add_addr),
            LogicalNode::NotZero(c) => c.to_commands(end_label, label_counter, add_addr),
            LogicalNode::GreaterThanZero(c) => c.to_commands(end_label, label_counter, add_addr),
            LogicalNode::LessThanZero(c) => c.to_commands(end_label, label_counter, add_addr),
            LogicalNode::GreaterOrEqualToZero(c) => c.to_commands(
                end_label,
                label_counter,
                add_addr,
            ),
            LogicalNode::LessOrEqualToZero(c) => c.to_commands(end_label, label_counter, add_addr),
        }
    }
}

impl If {
    /// The node that runs `to_run` if `condition` holds.
    pub fn new(condition: Box<LogicalNode>, to_run: Vec<Box<ExpressionNode>>) -> (r: Self)
        ensures
            r.as_expression() == ExpressionModel::If(
                Box::new(condition.as_logical()),
                models(to_run@),
            ),
    {
        Self { condition, to_run }
    }
}

impl Expression for If {
    closed spec fn as_expression(&self) -> ExpressionModel
        decreases self,
    {
        ExpressionModel::If(Box::new(self.condition.as_logical()), models(self.to_run@))
    }

    fn label_count(&self) -> (n: usize)
        decreases self,
    {
        let inner = add_capped(self.condition.label_count(), block_label_count(&self.to_run));
        add_capped(inner, 1)
    }

    fn to_command(&self, label_counter: &mut u8, add_addr: u8) -> (r: Result<
        Vec<Command>,
        CompileError,
    >)
        decreases self,
    {
        let start = *label_counter;
        let condition_labels = self.condition.label_count();
        let body_labels = block_label_count(&self.to_run);
        let end_number: u8 = start + (condition_labels + body_labels) as u8;
        let mut out = match self.condition.to_commands(
            LabelRef::ahead(end_number),
            label_counter,
            add_addr,
        ) {
            Ok(out) => out,
            Err(e) => {
                return Err(e);
            },
        };
        let ghost first = out@;
        let mut body = match block_to_command(&self.to_run, label_counter, add_addr) {
            Ok(body) => body,
            Err(e) => {
                *label_counter = start;
                return Err(e);
            },
        };
        let ghost second = body@;
        out.append(&mut body);
        let end_true_label = Label::new(label_counter);
        out.push(Command::Label(end_true_label));
        assert(out@ == (first + second) + seq![Command::Label(Label::at(end_number))]);
        Ok(out)
    }
}

impl IfElse {
    /// The node that runs `if_true` if `condition` holds and `if_false` if not.
    pub fn new(
        condition: Box<LogicalNode>,
        if_true: Vec<Box<ExpressionNode>>,
        if_false: Vec<Box<ExpressionNode>>,
    ) -> (r: Self)
        ensures
            r.as_expression() == ExpressionModel::IfElse(
                Box::new(condition.as_logical()),
                models(if_true@),
                models(if_false@),
            ),
    {
        Self { condition, if_true, if_false }
    }
}

impl Expression for IfElse {
    closed spec fn as_expression(&self) -> ExpressionModel
        decreases self,
    {
        ExpressionModel::IfElse(
            Box::new(self.condition.as_logical()),
            models(self.if_true@),
            models(self.if_false@),
        )
    }

    fn label_count(&self) -> (n: usize)
        decreases self,
    {
        let first = add_capped(self.condition.label_count(), block_label_count(&self.if_true));
        let second = add_capped(block_label_count(&self.if_false), 2);
        add_capped(first, second)
    }

    fn to_command(&self, label_counter: &mut u8, add_addr: u8) -> (r: Result<
        Vec<Command>,
        CompileError,
    >)
        decreases self,
    {
        let start = *label_counter;
        let condition_labels = self.condition.label_count();
        let true_labels = block_label_count(&self.if_true);
        let false_labels = block_label_count(&self.if_false);
        let first_number: u8 = start + (condition_labels + true_labels) as u8;
        let second_number: u8 = first_number + 1 + false_labels as u8;
        let mut out = match self.condition.to_commands(
            LabelRef::ahead(first_number),
            label_counter,
            add_addr,
        ) {
            Ok(out) => out,
            Err(e) => {
                return Err(e);
            },
        };
        let ghost first = out@;
        let mut when_true = match block_to_command(&self.if_true, label_counter, add_addr) {
            Ok(when_true) => when_true,
            Err(e) => {
                *label_counter = start;
                return Err(e);
            },
        };
        let ghost second = when_true@;
        out.append(&mut when_true);
        let first_label = Label::new(label_counter);
        out.push(Command::Jump(LabelRef::ahead(second_number)));
        out.push(Command::Label(first_label));
        let mut when_false = match block_to_command(&self.if_false, label_counter, add_addr) {
            Ok(when_false) => when_false,
            Err(e) => {
                *label_counter = start;
                return Err(e);
            },
        };
        let ghost third = when_false@;
        out.append(&mut when_false);
        let second_label = Label::new(label_counter);
        out.push(Command::Label(second_label));
        assert(out@ == (((first + second) + seq![
            Command::Jump(LabelRef::to(second_number)),
            Command::Label(Label::at(first_number)),
        ]) + third) + seq![Command::Label(Label::at(second_number))]);
        Ok(out)
    }
}

impl While {
    /// The loop that runs `contents` as long as `condition` holds.
    pub fn new(condition: Box<LogicalNode>, contents: Vec<Box<ExpressionNode>>) -> (r: Self)
        ensures
            r.as_expression() == ExpressionModel::While(
                Box::new(condition.as_logical()),
                models(contents@),
            ),
    {
        Self { condition, contents }
    }
}

impl Expression for While {
    closed spec fn as_expression(&self) -> ExpressionModel
        decreases self,
    {
        ExpressionModel::While(Box::new(self.condition.as_logical()), models(self.contents@))
    }

    fn label_count(&self) -> (n: usize)
        decreases self,
    {
        let inner = add_capped(self.condition.label_count(), block_label_count(&self.contents));
        add_capped(inner, 2)
    }

    fn to_command(&self, label_counter: &mut u8, add_addr: u8) -> (r: Result<
        Vec<Command>,
        CompileError,
    >)
        decreases self,
    {
        let start = *label_counter;
        let condition_labels = self.condition.label_count();
        let body_labels = block_label_count(&self.contents);
        let bottom_number: u8 = start + 1 + (condition_labels + body_labels) as u8;
        let top_label = Label::new(label_counter);
        let top_label_ref = top_label.reference();
        let mut out = single(Command::Label(top_label));
        let ghost first = out@;
        let mut test = match self.condition.to_commands(
            LabelRef::ahead(bottom_number),
            label_counter,
            add_addr,
        ) {
            Ok(test) => test,
            Err(e) => {
                *label_counter = start;
                return Err(e);
            },
        };
        let ghost second = test@;
        out.append(&mut test);
        let mut body = match block_to_command(&self.contents, label_counter, add_addr) {
            Ok(body) => body,
            Err(e) => {
                *label_counter = start;
                return Err(e);
            },
        };
        let ghost third = body@;
        out.append(&mut body);
        let bottom_label = Label::new(label_counter);
        out.push(Command::Jump(top_label_ref));
        out.push(Command::Label(bottom_label));
        proof {
            broadcast use Label::at_number;

            assert(first == seq![Command::Label(Label::at(start))]);
            assert(out@ == ((first + second) + third) + seq![
                Command::Jump(LabelRef::to(start)),
                Command::Label(Label::at(bottom_number)),
            ]);
        }
        Ok(out)
    }
}

impl Expression for ExpressionNode {
    open spec fn as_expression(&self) -> ExpressionModel
        decreases self,
    {
        match self {
            ExpressionNode::Output(e) => e.as_expression(),
            ExpressionNode::Input(e) => e.as_expression(),
            ExpressionNode::Deref(e) => e.as_expression(),
            ExpressionNode::Add(e) => e.as_expression(),
            ExpressionNode::Subtract(e) => e.as_expression(),
            ExpressionNode::Loop(e) => e.as_expression(),
            ExpressionNode::Assign(e) => e.as_expression(),
            ExpressionNode::If(e) => e.as_expression(),
            ExpressionNode::IfElse(e) => e.as_expression(),
            ExpressionNode::Increment(e) => e.as_expression(),
            ExpressionNode::Decrement(e) => e.as_expression(),
            ExpressionNode::While(e) => e.as_expression(),
            ExpressionNode::Break(e) => e.as_expression(),
        }
    }

    fn label_count(&self) -> (n: usize)
        decreases self,
    {
        match self {
            ExpressionNode::Output(e) => e.label_count(),
            ExpressionNode::Input(e) => e.label_count(),
            ExpressionNode::Deref(e) => e.label_count(),
            ExpressionNode::Add(e) => e.label_count(),
            ExpressionNode::Subtract(e) => e.label_count(),
            ExpressionNode::Loop(e) => e.label_count(),
            ExpressionNode::Assign(e) => e.label_count(),
            ExpressionNode::If(e) => e.label_count(),
            ExpressionNode::IfElse(e) => e.label_count(),
            ExpressionNode::Increment(e) => e.label_count(),
            ExpressionNode::Decrement(e) => e.label_count(),
            ExpressionNode::While(e) => e.label_count(),
            ExpressionNode::Break(e) => e.label_count(),
        }
    }

    fn to_command(&self, label_counter: &mut u8, add_addr: u8) -> (r: Result<
        Vec<Command>,
        CompileError,
    >)
        decreases self,
    {
        match self {
            ExpressionNode::Output(e) => e.to_command(label_counter, add_addr),
            ExpressionNode::Input(e) => e.to_command(label_counter, add_addr),
            ExpressionNode::Deref(e) => e.to_command(label_counter, add_addr),
            ExpressionNode::Add(e) => e.to_command(label_counter, add_addr),
            ExpressionNode::Subtract(e) => e.to_command(label_counter, add_addr),
            ExpressionNode::Loop(e) => e.to_command(label_counter, add_addr),
            ExpressionNode::Assign(e) => e.to_command(label_counter, add_addr),
            ExpressionNode::If(e) => e.to_command(label_counter, add_addr),
            ExpressionNode::IfElse(e) => e.to_command(label_counter, add_addr),
            ExpressionNode::Increment(e) => e.to_command(label_counter, add_addr),
            ExpressionNode::Decrement(e) => e.to_command(label_counter, add_addr),
            ExpressionNode::While(e) => e.to_command(label_counter, add_addr),
            ExpressionNode::Break(e) => e.to_command(label_counter, add_addr),
        }
    }
}

/// What a reduction yields: one node, filed under each of its capabilities.
#[derive(Debug, PartialEq, Eq)]
pub struct AnyExpressionType {
    expression: Option<Box<ExpressionNode>>,
    value: Option<Box<ValueNode>>,
    logical: Option<Box<LogicalNode>>,
}

/// The tree of an expression node that may be absent.
pub open spec fn expression_model(node: Option<Box<ExpressionNode>>) -> Option<ExpressionModel> {
    match node {
        Some(e) => Some(e.as_expression()),
        None => None,
    }
}

/// The tree of a value node that may be absent.
pub open spec fn value_model(node: Option<Box<ValueNode>>) -> Option<ValueModel> {
    match node {
        Some(v) => Some(v.as_value()),
        None => None,
    }
}

/// The tree of a logical node that may be absent.
pub open spec fn logical_model(node: Option<Box<LogicalNode>>) -> Option<LogicalModel> {
    match node {
        Some(c) => Some(c.as_logical()),
        None => None,
    }
}

impl View for AnyExpressionType {
    type V = AnyModel;

    closed spec fn view(&self) -> AnyModel {
        AnyModel {
            expression: expression_model(self.expression),
            value: value_model(self.value),
            logical: logical_model(self.logical),
        }
    }
}

impl AnyExpressionType {
    /// The node with the given capabilities.
    pub fn new(
        expression: Option<Box<ExpressionNode>>,
        value: Option<Box<ValueNode>>,
        logical: Option<Box<LogicalNode>>,
    ) -> (r: Self)
        ensures
            r@ == (AnyModel {
                expression: expression_model(expression),
                value: value_model(value),
                logical: logical_model(logical),
            }),
    {
        Self { expression, value, logical }
    }

    /// The node as an expression, if it is one.
    pub fn expression_ref(&self) -> (r: &Option<Box<ExpressionNode>>)
        ensures
            expression_model(*r) == self@.expression,
    {
        &self.expression
    }

    /// The node as a value, if it is one.
    pub fn value_ref(&self) -> (r: &Option<Box<ValueNode>>)
        ensures
            value_model(*r) == self@.value,
    {
        &self.value
    }

    /// The node as a comparison, if it is one.
    pub fn logical_ref(&self) -> (r: &Option<Box<LogicalNode>>)
        ensures
            logical_model(*r) == self@.logical,
    {
        &self.logical
    }

    /// The node as an expression, if it is one.
    pub fn expression(self) -> (r: Option<Box<ExpressionNode>>)
        ensures
            expression_model(r) == self@.expression,
    {
        self.expression
    }

    /// The node as a value, if it is one.
    pub fn value(self) -> (r: Option<Box<ValueNode>>)
        ensures
            value_model(r) == self@.value,
    {
        self.value
    }

    /// The node as a comparison, if it is one.
    pub fn logical(self) -> (r: Option<Box<LogicalNode>>)
        ensures
            logical_model(r) == self@.logical,
    {
        self.logical
    }

    /// Whether the node is an expression.
    pub fn is_expression(&self) -> (b: bool)
        ensures
            b == self@.expression is Some,
    {
        self.expression.is_some()
    }

    /// Whether the node is a value.
    pub fn is_value(&self) -> (b: bool)
        ensures
            b == self@.value is Some,
    {
        self.value.is_some()
    }

    /// Whether the node is a comparison.
    pub fn is_logical(&self) -> (b: bool)
        ensures
            b == self@.logical is Some,
    {
        self.logical.is_some()
    }

    /// Whether this is the literal zero and nothing else.
    pub fn is_literal_zero(&self) -> (b: bool)
        ensures
            b == self@.is_literal_zero(),
    {
        if self.expression.is_some() || self.logical.is_some() {
            return false;
        }
        match &self.value {
            Some(v) => match &**v {
                ValueNode::Number(n) => n.number == 0,
                ValueNode::Deref(_) => false,
            },
            None => false,
        }
    }
}

impl From<Box<ExpressionNode>> for AnyExpressionType {
    fn from(val: Box<ExpressionNode>) -> (r: Self)
        ensures
            r@ == (AnyModel { expression: Some(val.as_expression()), value: None, logical: None }),
    {
        Self { expression: Some(val), value: None, logical: None }
    }
}

impl FromSpecImpl<Box<ExpressionNode>> for AnyExpressionType {
    open spec fn obeys_from_spec() -> bool {
        true
    }

    closed spec fn from_spec(val: Box<ExpressionNode>) -> Self {
        Self { expression: Some(val), value: None, logical: None }
    }
}

impl From<Box<ValueNode>> for AnyExpressionType {
    fn from(val: Box<ValueNode>) -> (r: Self)
        ensures
            r@ == (AnyModel { expression: None, value: Some(val.as_value()), logical: None }),
    {
        Self { expression: None, value: Some(val), logical: None }
    }
}

impl FromSpecImpl<Box<ValueNode>> for AnyExpressionType {
    open spec fn obeys_from_spec() -> bool {
        true
    }

    closed spec fn from_spec(val: Box<ValueNode>) -> Self {
        Self { expression: None, value: Some(val), logical: None }
    }
}

impl From<Box<LogicalNode>> for AnyExpressionType {
    fn from(val: Box<LogicalNode>) -> (r: Self)
        ensures
            r@ == (AnyModel { expression: None, value: None, logical: Some(val.as_logical()) }),
    {
        Self { expression: None, value: None, logical: Some(val) }
    }
}

impl FromSpecImpl<Box<LogicalNode>> for AnyExpressionType {
    open spec fn obeys_from_spec() -> bool {
        true
    }

    closed spec fn from_spec(val: Box<LogicalNode>) -> Self {
        Self { expression: None, value: None, logical: Some(val) }
    }
}

} // verus!
