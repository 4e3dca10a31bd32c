//! How the target machine moves through a fragment of jumps and labels, and
//! the proof that the jumps of every comparison decide as the comparison
//! does.
use crate::compiler::{Command, Label, LabelRef};
use crate::model::{labels, logical_labels, LogicalModel};
use vstd::prelude::*;

verus! {

/// How control leaves a fragment.
pub enum Outcome {
    /// Past the end of the fragment: execution goes on behind it.
    Through,
    /// By a jump to a label that the fragment does not define further on.
    Jumped(LabelRef),
    /// At a command that is neither a jump nor a label.
    Stopped(int),
}

/// Where, from `from` on, `code` defines the label with number `number`.
pub open spec fn definition_of(code: Seq<Command>, number: u8, from: int) -> Option<int>
    decreases code.len() - from,
{
    if from < 0 || from >= code.len() {
        None
    } else if code[from] matches Command::Label(label) && label.number() == number {
        Some(from)
    } else {
        definition_of(code, number, from + 1)
    }
}

/// Whether the machine takes the jump `command` with `accumulator` in its
/// register; the label of the jump, if it does.
pub open spec fn taken(command: Command, accumulator: int) -> Option<LabelRef> {
    match command {
        Command::Jump(label) => Some(label),
        Command::JumpIfZero(label) => if accumulator == 0 {
            Some(label)
        } else {
            None
        },
        Command::JumpIfNegative(label) => if accumulator < 0 {
            Some(label)
        } else {
            None
        },
        _ => None,
    }
}

/// Whether `command` is a jump or the definition of a label.
pub open spec fn is_control(command: Command) -> bool {
    command is Jump || command is JumpIfZero || command is JumpIfNegative || command is Label
}

/// How control leaves `code` when the machine stands before the command
/// with index `at`, with `accumulator` in its register. A jump that is taken
/// leads behind the definition of its label further on in `code`; where there
/// is none, it leads out of `code`. Jumps and labels leave the register as it
/// is.
pub open spec fn run(code: Seq<Command>, at: int, accumulator: int) -> Outcome
    decreases code.len() - at,
{
    if at < 0 || at >= code.len() {
        Outcome::Through
    } else if !is_control(code[at]) {
        Outcome::Stopped(at)
    } else {
        match taken(code[at], accumulator) {
            None => run(code, at + 1, accumulator),
            Some(label) => match definition_of(code, label.number(), at + 1) {
                Some(target) => if at < target < code.len() {
                    run(code, target + 1, accumulator)
                } else {
                    Outcome::Jumped(label)
                },
                None => Outcome::Jumped(label),
            },
        }
    }
}

/// With the value of its operand in the register, the jumps of a comparison
/// let execution go on behind them if the comparison holds of that value, and
/// lead to the target if it does not; they never do both and never neither.
/// The label that the jumps define for themselves must not be the target.
pub proof fn jumps_decide(condition: LogicalModel, target: LabelRef, skip: u8, accumulator: int)
    requires
        condition.skips() ==> target.number() != skip,
    ensures
        run(condition.jumps(target, skip), 0, accumulator) == if condition.holds(accumulator) {
            Outcome::Through
        } else {
            Outcome::Jumped(target)
        },
{
    broadcast use {Label::at_number, LabelRef::to_number};

    reveal_with_fuel(run, 6);
    reveal_with_fuel(definition_of, 6);
    let code = condition.jumps(target, skip);
    match condition {
        LogicalModel::IsZero(_) => {
            assert(code.len() == 3);
        },
        LogicalModel::NotZero(_) => {
            assert(code.len() == 1);
        },
        LogicalModel::GreaterThanZero(_) => {
            assert(code.len() == 2);
        },
        LogicalModel::LessThanZero(_) => {
            assert(code.len() == 3);
        },
        LogicalModel::GreaterOrEqualToZero(_) => {
            assert(code.len() == 1);
        },
        LogicalModel::LessOrEqualToZero(_) => {
            assert(code.len() == 4);
        },
    }
}

/// The jumps of a condition decide as the comparison does in all code that
/// is generated: there the target is a label that is defined behind the code
/// of the condition, `further` labels after those of the condition itself,
/// and so it is not the label of the jumps as long as the labels do not run
/// out.
pub proof fn generated_jumps_decide(
    condition: LogicalModel,
    start: nat,
    further: nat,
    accumulator: int,
)
    requires
        start + logical_labels(condition) + further < 256,
    ensures
        ({
            let skip = (start + labels(condition.operand())) as u8;
            let target = LabelRef::to((start + logical_labels(condition) + further) as u8);
            run(condition.jumps(target, skip), 0, accumulator) == if condition.holds(accumulator) {
                Outcome::Through
            } else {
                Outcome::Jumped(target)
            }
        }),
{
    broadcast use LabelRef::to_number;

    let skip = (start + labels(condition.operand())) as u8;
    let target = LabelRef::to((start + logical_labels(condition) + further) as u8);
    jumps_decide(condition, target, skip, accumulator);
}

} // verus!
