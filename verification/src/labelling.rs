//! The labels of generated code: they are defined in rising order from the
//! first free label on, and every jump leads to one of them.
use crate::compiler::{Command, Label, LabelRef, Reference};
use crate::model::{
    block_code, block_labels, code, labels, logical_code, logical_labels, resolve, resolve_cell,
    ExpressionModel, LogicalModel, ValueModel,
};
use vstd::prelude::*;

verus! {

/// The numbers of the labels that `commands` define, in the order of their
/// definitions.
pub open spec fn definitions(commands: Seq<Command>) -> Seq<u8>
    decreases commands.len(),
{
    if commands.len() == 0 {
        Seq::empty()
    } else {
        let before = definitions(commands.drop_last());
        match commands.last() {
            Command::Label(label) => before.push(label.number()),
            _ => before,
        }
    }
}

/// The `count` numbers from `start` on.
pub open spec fn numbers_from(start: nat, count: nat) -> Seq<u8> {
    Seq::new(count, |i: int| (start + i) as u8)
}

/// What two pieces of code define together is what the first defines and
/// then what the second defines.
proof fn definitions_add(first: Seq<Command>, second: Seq<Command>)
    ensures
        definitions(first + second) == definitions(first) + definitions(second),
    decreases second.len(),
{
    if second.len() == 0 {
        assert(first + second == first);
        assert(definitions(first) + definitions(second) == definitions(first));
    } else {
        assert((first + second).drop_last() == first + second.drop_last());
        assert((first + second).last() == second.last());
        definitions_add(first, second.drop_last());
        match second.last() {
            Command::Label(label) => {
                assert(definitions(first + second) == (definitions(first) + definitions(
                    second.drop_last(),
                )).push(label.number()));
                assert(definitions(first + second) == definitions(first) + definitions(second));
            },
            _ => {},
        }
    }
}

/// What one command defines.
proof fn definitions_of_one(command: Command)
    ensures
        definitions(seq![command]) == match command {
            Command::Label(label) => seq![label.number()],
            _ => Seq::<u8>::empty(),
        },
{
    let one = seq![command];
    assert(one.drop_last() == Seq::<Command>::empty());
    assert(definitions(one.drop_last()) == Seq::<u8>::empty());
    match command {
        Command::Label(label) => {
            assert(definitions(one) == Seq::<u8>::empty().push(label.number()));
        },
        _ => {},
    }
}

/// Counting on from where a count has come.
proof fn numbers_add(start: nat, first: nat, second: nat)
    ensures
        numbers_from(start, first + second) == numbers_from(start, first) + numbers_from(
            start + first,
            second,
        ),
{
    assert(numbers_from(start, first + second) =~= numbers_from(start, first) + numbers_from(
        start + first,
        second,
    ));
}

/// Code that defines the labels from `start` on, followed by code that
/// defines the labels behind them, defines the labels from `start` on.
proof fn joined(first: Seq<Command>, second: Seq<Command>, start: nat, m: nat, n: nat)
    requires
        definitions(first) == numbers_from(start, m),
        definitions(second) == numbers_from(start + m, n),
    ensures
        definitions(first + second) == numbers_from(start, m + n),
{
    definitions_add(first, second);
    numbers_add(start, m, n);
}

/// A command that is no definition defines no label.
proof fn plain(command: Command, at: nat)
    requires
        !(command is Label),
    ensures
        definitions(seq![command]) == numbers_from(at, 0),
{
    definitions_of_one(command);
    assert(numbers_from(at, 0) =~= Seq::<u8>::empty());
}

/// The definition of a label defines that label.
proof fn defined(at: nat)
    ensures
        definitions(seq![Command::Label(Label::at(at as u8))]) == numbers_from(at, 1),
{
    broadcast use Label::at_number;

    definitions_of_one(Command::Label(Label::at(at as u8)));
    assert(numbers_from(at, 1) =~= seq![at as u8]);
}

/// No code defines no label.
proof fn nothing_defined(at: nat)
    ensures
        definitions(Seq::<Command>::empty()) == numbers_from(at, 0),
{
    assert(numbers_from(at, 0) =~= Seq::<u8>::empty());
}

/// The jumps of a comparison define their own label, if they have one.
proof fn jumps_define_their_label(condition: LogicalModel, target: LabelRef, skip: nat)
    ensures
        definitions(condition.jumps(target, skip as u8)) == numbers_from(
            skip,
            if condition.skips() {
                1nat
            } else {
                0nat
            },
        ),
{
    let to_skip = LabelRef::to(skip as u8);
    let label = seq![Command::Label(Label::at(skip as u8))];
    defined(skip);
    nothing_defined(skip);
    plain(Command::Jump(target), skip);
    plain(Command::JumpIfZero(target), skip);
    plain(Command::JumpIfNegative(target), skip);
    plain(Command::JumpIfZero(to_skip), skip);
    plain(Command::JumpIfNegative(to_skip), skip);
    match condition {
        LogicalModel::IsZero(_) => {
            let a = seq![Command::JumpIfZero(to_skip)];
            let b = seq![Command::Jump(target)];
            joined(a, b, skip, 0, 0);
            joined(a + b, label, skip, 0, 1);
            assert(condition.jumps(target, skip as u8) =~= a + b + label);
        },
        LogicalModel::NotZero(_) => {},
        LogicalModel::GreaterThanZero(_) => {
            let a = seq![Command::JumpIfZero(target)];
            let b = seq![Command::JumpIfNegative(target)];
            joined(a, b, skip, 0, 0);
            assert(condition.jumps(target, skip as u8) =~= a + b);
        },
        LogicalModel::LessThanZero(_) => {
            let a = seq![Command::JumpIfNegative(to_skip)];
            let b = seq![Command::Jump(target)];
            joined(a, b, skip, 0, 0);
            joined(a + b, label, skip, 0, 1);
            assert(condition.jumps(target, skip as u8) =~= a + b + label);
        },
        LogicalModel::GreaterOrEqualToZero(_) => {},
        LogicalModel::LessOrEqualToZero(_) => {
            let a = seq![Command::JumpIfNegative(to_skip)];
            let b = seq![Command::JumpIfZero(to_skip)];
            let c = seq![Command::Jump(target)];
            joined(a, b, skip, 0, 0);
            joined(a + b, c, skip, 0, 0);
            joined(a + b + c, label, skip, 0, 1);
            assert(condition.jumps(target, skip as u8) =~= a + b + c + label);
        },
    }
}

/// Two pieces of code around one command that is no definition.
proof fn around(
    first: Seq<Command>,
    between: Command,
    second: Seq<Command>,
    last: Command,
    start: nat,
    m: nat,
    n: nat,
)
    requires
        definitions(first) == numbers_from(start, m),
        definitions(second) == numbers_from(start + m, n),
        !(between is Label),
        !(last is Label),
    ensures
        definitions(first + seq![between] + second + seq![last]) == numbers_from(start, m + n),
{
    plain(between, start + m);
    plain(last, start + m + n);
    joined(first, seq![between], start, m, 0);
    joined(first + seq![between], second, start, m, n);
    joined(first + seq![between] + second, seq![last], start, m + n, 0);
}

/// The labels of a loop with a body that defines its labels in order.
proof fn loop_case(body: Seq<Command>, start: nat, n: nat)
    requires
        definitions(body) == numbers_from(start + 1, n),
    ensures
        definitions(
            seq![Command::Label(Label::at(start as u8))] + body + seq![
                Command::Jump(LabelRef::to(start as u8)),
            ],
        ) == numbers_from(start, 1 + n),
{
    let top = seq![Command::Label(Label::at(start as u8))];
    defined(start);
    plain(Command::Jump(LabelRef::to(start as u8)), start + 1 + n);
    joined(top, body, start, 1, n);
    joined(top + body, seq![Command::Jump(LabelRef::to(start as u8))], start, 1 + n, 0);
}

/// The labels of an `if` whose parts define their labels in order.
proof fn if_case(test: Seq<Command>, body: Seq<Command>, start: nat, m: nat, n: nat)
    requires
        definitions(test) == numbers_from(start, m),
        definitions(body) == numbers_from(start + m, n),
    ensures
        definitions(test + body + seq![Command::Label(Label::at((start + m + n) as u8))])
            == numbers_from(start, m + n + 1),
{
    defined(start + m + n);
    joined(test, body, start, m, n);
    joined(test + body, seq![Command::Label(Label::at((start + m + n) as u8))], start, m + n, 1);
}

/// The labels of an `if` with two blocks whose parts define their labels
/// in order.
proof fn if_else_case(
    test: Seq<Command>,
    when_true: Seq<Command>,
    when_false: Seq<Command>,
    start: nat,
    m: nat,
    n: nat,
    k: nat,
)
    requires
        definitions(test) == numbers_from(start, m),
        definitions(when_true) == numbers_from(start + m, n),
        definitions(when_false) == numbers_from(start + m + n + 1, k),
    ensures
        definitions(
            test + when_true + seq![
                Command::Jump(LabelRef::to((start + m + n + 1 + k) as u8)),
                Command::Label(Label::at((start + m + n) as u8)),
            ] + when_false + seq![Command::Label(Label::at((start + m + n + 1 + k) as u8))],
        ) == numbers_from(start, m + n + 1 + k + 1),
{
    let first = start + m + n;
    let second = first + 1 + k;
    let jump = seq![Command::Jump(LabelRef::to(second as u8))];
    let middle = seq![Command::Label(Label::at(first as u8))];
    let bottom = seq![Command::Label(Label::at(second as u8))];
    defined(first);
    defined(second);
    plain(jump[0], first);
    joined(test, when_true, start, m, n);
    joined(test + when_true, jump, start, m + n, 0);
    joined(test + when_true + jump, middle, start, m + n, 1);
    joined(test + when_true + jump + middle, when_false, start, m + n + 1, k);
    joined(test + when_true + jump + middle + when_false, bottom, start, m + n + 1 + k, 1);
    assert(test + when_true + jump + middle =~= test + when_true + seq![
        Command::Jump(LabelRef::to(second as u8)),
        Command::Label(Label::at(first as u8)),
    ]);
}

/// The labels of a `while` whose parts define their labels in order.
proof fn while_case(test: Seq<Command>, body: Seq<Command>, start: nat, m: nat, n: nat)
    requires
        definitions(test) == numbers_from(start + 1, m),
        definitions(body) == numbers_from(start + 1 + m, n),
    ensures
        definitions(
            seq![Command::Label(Label::at(start as u8))] + test + body + seq![
                Command::Jump(LabelRef::to(start as u8)),
                Command::Label(Label::at((start + 1 + m + n) as u8)),
            ],
        ) == numbers_from(start, 1 + m + n + 1),
{
    let bottom = start + 1 + m + n;
    let top = seq![Command::Label(Label::at(start as u8))];
    let jump = seq![Command::Jump(LabelRef::to(start as u8))];
    let end = seq![Command::Label(Label::at(bottom as u8))];
    defined(start);
    defined(bottom);
    plain(jump[0], bottom);
    joined(top, test, start, 1, m);
    joined(top + test, body, start, 1 + m, n);
    joined(top + test + body, jump, start, 1 + m + n, 0);
    joined(top + test + body + jump, end, start, 1 + m + n, 1);
    assert(top + test + body + jump + end =~= top + test + body + seq![
        Command::Jump(LabelRef::to(start as u8)),
        Command::Label(Label::at(bottom as u8)),
    ]);
}

/// The labels that the code of an expression defines are those from the
/// first free label on, as many as the expression has, in rising order.
pub proof fn labels_are_defined_in_order(expression: ExpressionModel, start: nat, scratch: u8)
    requires
        code(expression, start, scratch) is Ok,
    ensures
        definitions(code(expression, start, scratch)->Ok_0) == numbers_from(
            start,
            labels(expression),
        ),
    decreases expression,
{
    let whole = code(expression, start, scratch)->Ok_0;
    match expression {
        ExpressionModel::Output(argument) => {
            labels_are_defined_in_order(*argument, start, scratch);
            plain(Command::Outbox, start + labels(*argument));
            joined(
                code(*argument, start, scratch)->Ok_0,
                seq![Command::Outbox],
                start,
                labels(*argument),
                0,
            );
        },
        ExpressionModel::Input => {
            plain(Command::Inbox, start);
        },
        ExpressionModel::Deref(operand) => {
            plain(
                Command::CopyFrom(resolve(ValueModel::Deref(Box::new(operand)))->Ok_0),
                start,
            );
        },
        ExpressionModel::Add(left, right) => {
            labels_are_defined_in_order(*left, start, scratch);
            labels_are_defined_in_order(*right, start + labels(*left), scratch);
            around(
                code(*left, start, scratch)->Ok_0,
                Command::CopyTo(Reference::Pointer(scratch)),
                code(*right, start + labels(*left), scratch)->Ok_0,
                Command::Add(Reference::Pointer(scratch)),
                start,
                labels(*left),
                labels(*right),
            );
        },
        ExpressionModel::Subtract(left, right) => {
            labels_are_defined_in_order(*right, start, scratch);
            labels_are_defined_in_order(*left, start + labels(*right), scratch);
            around(
                code(*right, start, scratch)->Ok_0,
                Command::CopyTo(Reference::Pointer(scratch)),
                code(*left, start + labels(*right), scratch)->Ok_0,
                Command::Subtract(Reference::Pointer(scratch)),
                start,
                labels(*right),
                labels(*left),
            );
        },
        ExpressionModel::Loop(contents) => {
            block_labels_are_defined_in_order(contents, start + 1, scratch);
            loop_case(block_code(contents, start + 1, scratch)->Ok_0, start, block_labels(contents));
        },
        ExpressionModel::Assign(target, source) => {
            labels_are_defined_in_order(*source, start, scratch);
            plain(Command::CopyTo(resolve(target)->Ok_0), start + labels(*source));
            joined(
                code(*source, start, scratch)->Ok_0,
                seq![Command::CopyTo(resolve(target)->Ok_0)],
                start,
                labels(*source),
                0,
            );
        },
        ExpressionModel::If(condition, to_run) => {
            let body_start = start + logical_labels(*condition);
            let end = body_start + block_labels(to_run);
            logical_labels_are_defined_in_order(
                *condition,
                LabelRef::to(end as u8),
                start,
                scratch,
            );
            block_labels_are_defined_in_order(to_run, body_start, scratch);
            if_case(
                logical_code(*condition, LabelRef::to(end as u8), start, scratch)->Ok_0,
                block_code(to_run, body_start, scratch)->Ok_0,
                start,
                logical_labels(*condition),
                block_labels(to_run),
            );
        },
        ExpressionModel::IfElse(condition, if_true, if_false) => {
            let body_start = start + logical_labels(*condition);
            let first = body_start + block_labels(if_true);
            logical_labels_are_defined_in_order(
                *condition,
                LabelRef::to(first as u8),
                start,
                scratch,
            );
            block_labels_are_defined_in_order(if_true, body_start, scratch);
            block_labels_are_defined_in_order(if_false, first + 1, scratch);
            if_else_case(
                logical_code(*condition, LabelRef::to(first as u8), start, scratch)->Ok_0,
                block_code(if_true, body_start, scratch)->Ok_0,
                block_code(if_false, first + 1, scratch)->Ok_0,
                start,
                logical_labels(*condition),
                block_labels(if_true),
                block_labels(if_false),
            );
        },
        ExpressionModel::Increment(target) => {
            plain(Command::Increment(resolve_cell(target)->Ok_0), start);
        },
        ExpressionModel::Decrement(target) => {
            plain(Command::Decrement(resolve_cell(target)->Ok_0), start);
        },
        ExpressionModel::While(condition, contents) => {
            let body_start = start + 1 + logical_labels(*condition);
            let bottom = body_start + block_labels(contents);
            logical_labels_are_defined_in_order(
                *condition,
                LabelRef::to(bottom as u8),
                start + 1,
                scratch,
            );
            block_labels_are_defined_in_order(contents, body_start, scratch);
            while_case(
                logical_code(*condition, LabelRef::to(bottom as u8), start + 1, scratch)->Ok_0,
                block_code(contents, body_start, scratch)->Ok_0,
                start,
                logical_labels(*condition),
                block_labels(contents),
            );
        },
        ExpressionModel::Break => {},
    }
}

/// The labels that the code of a comparison defines: see
/// `labels_are_defined_in_order`.
pub proof fn logical_labels_are_defined_in_order(
    condition: LogicalModel,
    target: LabelRef,
    start: nat,
    scratch: u8,
)
    requires
        logical_code(condition, target, start, scratch) is Ok,
    ensures
        definitions(logical_code(condition, target, start, scratch)->Ok_0) == numbers_from(
            start,
            logical_labels(condition),
        ),
    decreases condition,
{
    let operand = condition.operand();
    let skip = start + labels(operand);
    labels_are_defined_in_order(operand, start, scratch);
    jumps_define_their_label(condition, target, skip);
    joined(
        code(operand, start, scratch)->Ok_0,
        condition.jumps(target, skip as u8),
        start,
        labels(operand),
        if condition.skips() {
            1nat
        } else {
            0nat
        },
    );
}

/// The labels that the code of a block defines: see
/// `labels_are_defined_in_order`.
pub proof fn block_labels_are_defined_in_order(
    block: Seq<ExpressionModel>,
    start: nat,
    scratch: u8,
)
    requires
        block_code(block, start, scratch) is Ok,
    ensures
        definitions(block_code(block, start, scratch)->Ok_0) == numbers_from(
            start,
            block_labels(block),
        ),
    decreases block,
{
    if block.len() == 0 {
        nothing_defined(start);
    } else {
        let before = block.drop_last();
        block_labels_are_defined_in_order(before, start, scratch);
        labels_are_defined_in_order(block.last(), start + block_labels(before), scratch);
        joined(
            block_code(before, start, scratch)->Ok_0,
            code(block.last(), start + block_labels(before), scratch)->Ok_0,
            start,
            block_labels(before),
            labels(block.last()),
        );
    }
}

/// As long as the labels do not run out, no label is defined twice.
pub proof fn numbers_are_distinct(start: nat, count: nat, i: int, j: int)
    requires
        start + count <= 256,
        0 <= i < j < count,
    ensures
        numbers_from(start, count)[i] < numbers_from(start, count)[j],
{
}

/// The label with the place `k` among those from `start` on.
pub open spec fn number(start: nat, k: int) -> u8 {
    (start + k) as u8
}

/// Whether `n` is one of the `count` numbers from `start` on.
pub open spec fn within(n: u8, start: nat, count: nat) -> bool {
    exists|k: int| 0 <= k < count && #[trigger] number(start, k) == n
}

/// The label that `command` jumps to, if it is a jump.
pub open spec fn target_of(command: Command) -> Option<LabelRef> {
    match command {
        Command::Jump(label) => Some(label),
        Command::JumpIfZero(label) => Some(label),
        Command::JumpIfNegative(label) => Some(label),
        _ => None,
    }
}

/// Whether every jump of `commands` leads to one of the `count` labels from
/// `start` on, or to the label `outside`.
pub open spec fn jumps_stay(
    commands: Seq<Command>,
    start: nat,
    count: nat,
    outside: Option<LabelRef>,
) -> bool {
    forall|i: int|
        0 <= i < commands.len() ==> (target_of(#[trigger] commands[i]) matches Some(label)
            ==> within(label.number(), start, count) || outside == Some(label))
}

/// Jumps that stay within some labels stay within more labels.
proof fn stay_in_more(
    commands: Seq<Command>,
    start: nat,
    count: nat,
    outside: Option<LabelRef>,
    lower: nat,
    more: nat,
    still_outside: Option<LabelRef>,
)
    requires
        jumps_stay(commands, start, count, outside),
        lower <= start,
        start + count <= lower + more,
        outside matches Some(label) ==> within(label.number(), lower, more) || still_outside
            == outside,
    ensures
        jumps_stay(commands, lower, more, still_outside),
{
    assert forall|i: int| 0 <= i < commands.len() implies (target_of(
        #[trigger] commands[i],
    ) matches Some(label) ==> within(label.number(), lower, more) || still_outside == Some(
        label,
    )) by {
        if let Some(label) = target_of(commands[i]) {
            if within(label.number(), start, count) {
                let k = choose|k: int| 0 <= k < count && #[trigger] number(start, k) == label.number();
                assert(number(lower, k + start - lower) == label.number());
            }
        }
    }
}

/// Two pieces of code whose jumps stay within the same labels.
proof fn stay_together(
    first: Seq<Command>,
    second: Seq<Command>,
    start: nat,
    count: nat,
    outside: Option<LabelRef>,
)
    requires
        jumps_stay(first, start, count, outside),
        jumps_stay(second, start, count, outside),
    ensures
        jumps_stay(first + second, start, count, outside),
{
    assert forall|i: int| 0 <= i < (first + second).len() implies (target_of(
        #[trigger] (first + second)[i],
    ) matches Some(label) ==> within(label.number(), start, count) || outside == Some(label)) by {
        if i < first.len() {
            assert((first + second)[i] == first[i]);
        } else {
            assert((first + second)[i] == second[i - first.len()]);
        }
    }
}

/// One command that is no jump.
proof fn no_jump(command: Command, start: nat, count: nat, outside: Option<LabelRef>)
    requires
        target_of(command) is None,
    ensures
        jumps_stay(seq![command], start, count, outside),
{
}

/// One jump to the label with the place `k` among those from `start` on.
proof fn jump_inside(command: Command, start: nat, count: nat, k: int, outside: Option<LabelRef>)
    requires
        0 <= k < count,
        target_of(command) == Some(LabelRef::to(number(start, k))),
    ensures
        jumps_stay(seq![command], start, count, outside),
{
    broadcast use LabelRef::to_number;

    assert(number(start, k) == LabelRef::to(number(start, k)).number());
}

/// The jumps of a comparison lead to their own label or to the target.
proof fn jumps_stay_or_leave(condition: LogicalModel, target: LabelRef, start: nat, m: nat)
    ensures
        jumps_stay(
            condition.jumps(target, number(start, m as int)),
            start,
            m + if condition.skips() {
                1nat
            } else {
                0nat
            },
            Some(target),
        ),
{
    broadcast use LabelRef::to_number;

    let jumps = condition.jumps(target, number(start, m as int));
    let count = m + if condition.skips() {
        1nat
    } else {
        0nat
    };
    assert forall|i: int| 0 <= i < jumps.len() implies (target_of(
        #[trigger] jumps[i],
    ) matches Some(label) ==> within(label.number(), start, count) || Some(target) == Some(
        label,
    )) by {
        if let Some(label) = target_of(jumps[i]) {
            if label != target {
                assert(condition.skips());
                assert(label == LabelRef::to(number(start, m as int)));
                assert(number(start, m as int) == label.number());
            }
        }
    }
}

/// Two pieces of code around one command that is no jump, followed by
/// another such command.
proof fn stay_around(
    first: Seq<Command>,
    between: Command,
    second: Seq<Command>,
    last: Command,
    start: nat,
    m: nat,
    n: nat,
)
    requires
        jumps_stay(first, start, m, None),
        jumps_stay(second, start + m, n, None),
        target_of(between) is None,
        target_of(last) is None,
    ensures
        jumps_stay(first + seq![between] + second + seq![last], start, m + n, None),
{
    let count = m + n;
    stay_in_more(first, start, m, None, start, count, None);
    stay_in_more(second, start + m, n, None, start, count, None);
    stay_together(first, seq![between], start, count, None);
    stay_together(first + seq![between], second, start, count, None);
    stay_together(first + seq![between] + second, seq![last], start, count, None);
}

/// The jumps of a loop whose body keeps its jumps.
proof fn loop_stays(body: Seq<Command>, start: nat, n: nat)
    requires
        jumps_stay(body, start + 1, n, None),
    ensures
        jumps_stay(
            seq![Command::Label(Label::at(start as u8))] + body + seq![
                Command::Jump(LabelRef::to(start as u8)),
            ],
            start,
            1 + n,
            None,
        ),
{
    let count = 1 + n;
    let top = seq![Command::Label(Label::at(start as u8))];
    let back = seq![Command::Jump(LabelRef::to(start as u8))];
    stay_in_more(body, start + 1, n, None, start, count, None);
    jump_inside(back[0], start, count, 0, None);
    stay_together(top, body, start, count, None);
    stay_together(top + body, back, start, count, None);
}

/// The jumps of an `if` whose parts keep their jumps.
proof fn if_stays(test: Seq<Command>, body: Seq<Command>, start: nat, m: nat, n: nat)
    requires
        jumps_stay(test, start, m, Some(LabelRef::to((start + m + n) as u8))),
        jumps_stay(body, start + m, n, None),
    ensures
        jumps_stay(
            test + body + seq![Command::Label(Label::at((start + m + n) as u8))],
            start,
            m + n + 1,
            None,
        ),
{
    let count = m + n + 1;
    let end = LabelRef::to(number(start, (m + n) as int));
    let bottom = seq![Command::Label(Label::at((start + m + n) as u8))];
    leads_inside(start, count, (m + n) as int);
    stay_in_more(test, start, m, Some(end), start, count, None);
    stay_in_more(body, start + m, n, None, start, count, None);
    stay_together(test, body, start, count, None);
    stay_together(test + body, bottom, start, count, None);
}

/// The jumps of an `if` with two blocks whose parts keep their jumps.
proof fn if_else_stays(
    test: Seq<Command>,
    when_true: Seq<Command>,
    when_false: Seq<Command>,
    start: nat,
    m: nat,
    n: nat,
    k: nat,
)
    requires
        jumps_stay(test, start, m, Some(LabelRef::to((start + m + n) as u8))),
        jumps_stay(when_true, start + m, n, None),
        jumps_stay(when_false, start + m + n + 1, k, None),
    ensures
        jumps_stay(
            test + when_true + seq![
                Command::Jump(LabelRef::to((start + m + n + 1 + k) as u8)),
                Command::Label(Label::at((start + m + n) as u8)),
            ] + when_false + seq![Command::Label(Label::at((start + m + n + 1 + k) as u8))],
            start,
            m + n + 1 + k + 1,
            None,
        ),
{
    let count = m + n + 1 + k + 1;
    let first = LabelRef::to(number(start, (m + n) as int));
    let jump = seq![Command::Jump(LabelRef::to(number(start, (m + n + 1 + k) as int)))];
    let middle = seq![Command::Label(Label::at((start + m + n) as u8))];
    let bottom = seq![Command::Label(Label::at((start + m + n + 1 + k) as u8))];
    leads_inside(start, count, (m + n) as int);
    jump_inside(jump[0], start, count, (m + n + 1 + k) as int, None);
    stay_in_more(test, start, m, Some(first), start, count, None);
    stay_in_more(when_true, start + m, n, None, start, count, None);
    stay_in_more(when_false, start + m + n + 1, k, None, start, count, None);
    stay_together(test, when_true, start, count, None);
    stay_together(test + when_true, jump, start, count, None);
    stay_together(test + when_true + jump, middle, start, count, None);
    stay_together(test + when_true + jump + middle, when_false, start, count, None);
    stay_together(test + when_true + jump + middle + when_false, bottom, start, count, None);
    assert(test + when_true + jump + middle =~= test + when_true + seq![
        Command::Jump(LabelRef::to((start + m + n + 1 + k) as u8)),
        Command::Label(Label::at((start + m + n) as u8)),
    ]);
}

/// The jumps of a `while` whose parts keep their jumps.
proof fn while_stays(test: Seq<Command>, body: Seq<Command>, start: nat, m: nat, n: nat)
    requires
        jumps_stay(test, start + 1, m, Some(LabelRef::to((start + 1 + m + n) as u8))),
        jumps_stay(body, start + 1 + m, n, None),
    ensures
        jumps_stay(
            seq![Command::Label(Label::at(start as u8))] + test + body + seq![
                Command::Jump(LabelRef::to(start as u8)),
                Command::Label(Label::at((start + 1 + m + n) as u8)),
            ],
            start,
            1 + m + n + 1,
            None,
        ),
{
    let count = 1 + m + n + 1;
    let bottom = LabelRef::to(number(start, (1 + m + n) as int));
    let top = seq![Command::Label(Label::at(start as u8))];
    let jump = seq![Command::Jump(LabelRef::to(start as u8))];
    let end = seq![Command::Label(Label::at((start + 1 + m + n) as u8))];
    leads_inside(start, count, (1 + m + n) as int);
    jump_inside(jump[0], start, count, 0, None);
    stay_in_more(test, start + 1, m, Some(bottom), start, count, None);
    stay_in_more(body, start + 1 + m, n, None, start, count, None);
    stay_together(top, test, start, count, None);
    stay_together(top + test, body, start, count, None);
    stay_together(top + test + body, jump, start, count, None);
    stay_together(top + test + body + jump, end, start, count, None);
    assert(top + test + body + jump + end =~= top + test + body + seq![
        Command::Jump(LabelRef::to(start as u8)),
        Command::Label(Label::at((start + 1 + m + n) as u8)),
    ]);
}

/// Every jump in the code of an expression leads to a label that the code
/// defines: to one of the labels from the first free label on, as many as
/// the expression has.
pub proof fn jumps_stay_in_the_code(expression: ExpressionModel, start: nat, scratch: u8)
    requires
        code(expression, start, scratch) is Ok,
    ensures
        jumps_stay(code(expression, start, scratch)->Ok_0, start, labels(expression), None),
    decreases expression,
{
    match expression {
        ExpressionModel::Output(argument) => {
            jumps_stay_in_the_code(*argument, start, scratch);
            stay_together(
                code(*argument, start, scratch)->Ok_0,
                seq![Command::Outbox],
                start,
                labels(*argument),
                None,
            );
        },
        ExpressionModel::Input => {},
        ExpressionModel::Deref(operand) => {},
        ExpressionModel::Add(left, right) => {
            jumps_stay_in_the_code(*left, start, scratch);
            jumps_stay_in_the_code(*right, start + labels(*left), scratch);
            stay_around(
                code(*left, start, scratch)->Ok_0,
                Command::CopyTo(Reference::Pointer(scratch)),
                code(*right, start + labels(*left), scratch)->Ok_0,
                Command::Add(Reference::Pointer(scratch)),
                start,
                labels(*left),
                labels(*right),
            );
        },
        ExpressionModel::Subtract(left, right) => {
            jumps_stay_in_the_code(*right, start, scratch);
            jumps_stay_in_the_code(*left, start + labels(*right), scratch);
            stay_around(
                code(*right, start, scratch)->Ok_0,
                Command::CopyTo(Reference::Pointer(scratch)),
                code(*left, start + labels(*right), scratch)->Ok_0,
                Command::Subtract(Reference::Pointer(scratch)),
                start,
                labels(*right),
                labels(*left),
            );
        },
        ExpressionModel::Loop(contents) => {
            block_jumps_stay_in_the_code(contents, start + 1, scratch);
            loop_stays(block_code(contents, start + 1, scratch)->Ok_0, start, block_labels(contents));
        },
        ExpressionModel::Assign(target, source) => {
            jumps_stay_in_the_code(*source, start, scratch);
            stay_together(
                code(*source, start, scratch)->Ok_0,
                seq![Command::CopyTo(resolve(target)->Ok_0)],
                start,
                labels(*source),
                None,
            );
        },
        ExpressionModel::If(condition, to_run) => {
            let m = logical_labels(*condition);
            let n = block_labels(to_run);
            let end = LabelRef::to((start + m + n) as u8);
            logical_jumps_stay_in_the_code(*condition, end, start, scratch);
            block_jumps_stay_in_the_code(to_run, start + m, scratch);
            if_stays(
                logical_code(*condition, end, start, scratch)->Ok_0,
                block_code(to_run, start + m, scratch)->Ok_0,
                start,
                m,
                n,
            );
        },
        ExpressionModel::IfElse(condition, if_true, if_false) => {
            let m = logical_labels(*condition);
            let n = block_labels(if_true);
            let k = block_labels(if_false);
            let first = LabelRef::to((start + m + n) as u8);
            logical_jumps_stay_in_the_code(*condition, first, start, scratch);
            block_jumps_stay_in_the_code(if_true, start + m, scratch);
            block_jumps_stay_in_the_code(if_false, start + m + n + 1, scratch);
            if_else_stays(
                logical_code(*condition, first, start, scratch)->Ok_0,
                block_code(if_true, start + m, scratch)->Ok_0,
                block_code(if_false, start + m + n + 1, scratch)->Ok_0,
                start,
                m,
                n,
                k,
            );
        },
        ExpressionModel::Increment(target) => {},
        ExpressionModel::Decrement(target) => {},
        ExpressionModel::While(condition, contents) => {
            let m = logical_labels(*condition);
            let n = block_labels(contents);
            let bottom = LabelRef::to((start + 1 + m + n) as u8);
            logical_jumps_stay_in_the_code(*condition, bottom, start + 1, scratch);
            block_jumps_stay_in_the_code(contents, start + 1 + m, scratch);
            while_stays(
                logical_code(*condition, bottom, start + 1, scratch)->Ok_0,
                block_code(contents, start + 1 + m, scratch)->Ok_0,
                start,
                m,
                n,
            );
        },
        ExpressionModel::Break => {},
    }
}

/// The label with the place `k` is one of the `count` labels from `start`
/// on, if `k` is below `count`.
proof fn leads_inside(start: nat, count: nat, k: int)
    requires
        0 <= k < count,
    ensures
        within(LabelRef::to(number(start, k)).number(), start, count),
{
    broadcast use LabelRef::to_number;

    assert(number(start, k) == LabelRef::to(number(start, k)).number());
}

/// Every jump in the code of a comparison leads to a label that the code
/// defines or to the target.
pub proof fn logical_jumps_stay_in_the_code(
    condition: LogicalModel,
    target: LabelRef,
    start: nat,
    scratch: u8,
)
    requires
        logical_code(condition, target, start, scratch) is Ok,
    ensures
        jumps_stay(
            logical_code(condition, target, start, scratch)->Ok_0,
            start,
            logical_labels(condition),
            Some(target),
        ),
    decreases condition,
{
    let operand = condition.operand();
    let m = labels(operand);
    let first = code(operand, start, scratch)->Ok_0;
    jumps_stay_in_the_code(operand, start, scratch);
    jumps_stay_or_leave(condition, target, start, m);
    stay_in_more(first, start, m, None, start, logical_labels(condition), Some(target));
    stay_together(
        first,
        condition.jumps(target, number(start, m as int)),
        start,
        logical_labels(condition),
        Some(target),
    );
}

/// Every jump in the code of a block leads to a label that the code defines.
pub proof fn block_jumps_stay_in_the_code(block: Seq<ExpressionModel>, start: nat, scratch: u8)
    requires
        block_code(block, start, scratch) is Ok,
    ensures
        jumps_stay(block_code(block, start, scratch)->Ok_0, start, block_labels(block), None),
    decreases block,
{
    if block.len() > 0 {
        let before = block.drop_last();
        let first = block_code(before, start, scratch)->Ok_0;
        let last = code(block.last(), start + block_labels(before), scratch)->Ok_0;
        block_jumps_stay_in_the_code(before, start, scratch);
        jumps_stay_in_the_code(block.last(), start + block_labels(before), scratch);
        stay_in_more(first, start, block_labels(before), None, start, block_labels(block), None);
        stay_in_more(
            last,
            start + block_labels(before),
            labels(block.last()),
            None,
            start,
            block_labels(block),
            None,
        );
        stay_together(first, last, start, block_labels(block), None);
    }
}

} // verus!
