//! The instructions of the target machine, their operands and their labels.
use vstd::prelude::*;

verus! {

/// The most labels that one compilation can hand out: the counter of labels
/// is a `u8` and does not count past 255.
pub const LABEL_LIMIT: usize = 255;

/// One line of a program for the target machine.
#[derive(Debug, PartialEq, Eq)]
pub enum Command {
    Inbox,
    Outbox,
    CopyTo(Reference),
    CopyFrom(Reference),
    Add(Reference),
    Subtract(Reference),
    Increment(Reference),
    Decrement(Reference),
    Jump(LabelRef),
    JumpIfZero(LabelRef),
    JumpIfNegative(LabelRef),
    Label(Label),
}

/// What a value resolves to: a literal, a memory cell, or the cell whose
/// address another cell holds.
#[derive(Debug, Clone, Copy, PartialEq, Eq, Structural)]
pub enum Reference {
    Number(u8),
    Pointer(u8),
    PointerPointer(u8),
}

/// The definition of a jump target.
#[derive(Debug, PartialEq, Eq)]
pub struct Label {
    count: u8,
}

/// A use of a jump target.
#[derive(Debug, Clone, Copy, PartialEq, Eq)]
pub struct LabelRef {
    count: u8,
}

impl Label {
    /// The number of this label.
    pub closed spec fn number(&self) -> u8 {
        self.count
    }

    /// The label with number `n`.
    pub closed spec fn at(n: u8) -> Label {
        Label { count: n }
    }

    /// The label with number `n` has the number `n`.
    pub broadcast proof fn at_number(n: u8)
        ensures
            (#[trigger] Label::at(n)).number() == n,
    {
    }

    /// Takes the next label from the counter `count` and advances it.
    pub fn new(count: &mut u8) -> (out: Self)
        requires
            *old(count) < LABEL_LIMIT,
        ensures
            out == Label::at(*old(count)),
            *final(count) == *old(count) + 1,
    {
        let out = Self { count: *count };
        *count += 1;
        out
    }

    /// A reference to this label.
    pub fn reference(&self) -> (r: LabelRef)
        ensures
            r == LabelRef::to(self.number()),
    {
        LabelRef::new(self)
    }
}

impl LabelRef {
    /// The number of the label that this refers to.
    pub closed spec fn number(&self) -> u8 {
        self.count
    }

    /// The reference to the label with number `n`.
    pub closed spec fn to(n: u8) -> LabelRef {
        LabelRef { count: n }
    }

    /// The reference to the label with number `n` has the number `n`.
    pub broadcast proof fn to_number(n: u8)
        ensures
            (#[trigger] LabelRef::to(n)).number() == n,
    {
    }

    /// A reference to `label`.
    pub fn new(label: &Label) -> (r: Self)
        ensures
            r == LabelRef::to(label.number()),
    {
        Self { count: label.count }
    }

    /// A reference to the label that the counter will hand out once it
    /// stands at `number`.
    pub(crate) fn ahead(number: u8) -> (r: Self)
        ensures
            r == LabelRef::to(number),
    {
        Self { count: number }
    }
}

/// Appends `c` to `text`, by `String::push` of the standard library, whose
/// documentation says that it appends the given character to the end of the
/// string.
#[verifier::external_body]
fn push_char(text: &mut String, c: char)
    ensures
        final(text)@ == old(text)@.push(c),
{
    text.push(c);
}

/// The letter for one half of a label's number: `a` for 0 up to `p` for 15.
pub open spec fn letter(half: int) -> char {
    (97 + half) as u8 as char
}

/// The name of the label with number `number`: two letters, the first for
/// the number divided by 16 and the second for the remainder.
pub open spec fn label_text(number: u8) -> Seq<char> {
    seq![letter(number as int / 16), letter(number as int % 16)]
}

/// The digit for a number below ten.
pub open spec fn digit_char(d: int) -> char {
    (48 + d) as u8 as char
}

/// `n` in decimal digits.
pub open spec fn decimal(n: u8) -> Seq<char> {
    if n >= 100 {
        seq![digit_char(n as int / 100), digit_char(n as int / 10 % 10), digit_char(n as int % 10)]
    } else if n >= 10 {
        seq![digit_char(n as int / 10), digit_char(n as int % 10)]
    } else {
        seq![digit_char(n as int)]
    }
}

/// The operand that names `reference`: the address of a cell, or the
/// address in square brackets for the cell that the cell points to. A literal
/// is no operand.
pub open spec fn reference_text(reference: Reference) -> Option<Seq<char>> {
    match reference {
        Reference::Number(_) => None,
        Reference::Pointer(n) => Some(decimal(n)),
        Reference::PointerPointer(n) => Some("["@ + decimal(n) + "]"@),
    }
}

/// A line that holds a tab, `mnemonic`, a tab and the operand for
/// `reference`.
pub open spec fn operand_line(mnemonic: Seq<char>, reference: Reference) -> Option<Seq<char>> {
    match reference_text(reference) {
        None => None,
        Some(operand) => Some("\t"@ + mnemonic + "\t"@ + operand + "\n"@),
    }
}

/// A line that holds a tab, `mnemonic`, a tab and the name of the label.
pub open spec fn jump_line(mnemonic: Seq<char>, label: LabelRef) -> Seq<char> {
    "\t"@ + mnemonic + "\t"@ + label_text(label.number()) + "\n"@
}

/// The line of text for `command`; none for a command whose operand is a
/// literal.
pub open spec fn command_text(command: Command) -> Option<Seq<char>> {
    match command {
        Command::Inbox => Some("\t"@ + "INBOX"@ + "\t"@ + "\n"@),
        Command::Outbox => Some("\t"@ + "OUTBOX"@ + "\t"@ + "\n"@),
        Command::CopyTo(ptr) => operand_line("COPYTO"@, ptr),
        Command::CopyFrom(ptr) => operand_line("COPYFROM"@, ptr),
        Command::Add(ptr) => operand_line("ADD"@, ptr),
        Command::Subtract(ptr) => operand_line("SUB"@, ptr),
        Command::Increment(ptr) => operand_line("BUMPUP"@, ptr),
        Command::Decrement(ptr) => operand_line("BUMPDN"@, ptr),
        Command::Jump(label) => Some(jump_line("JUMP"@, label)),
        Command::JumpIfZero(label) => Some(jump_line("JUMPZ"@, label)),
        Command::JumpIfNegative(label) => Some(jump_line("JUMPN"@, label)),
        Command::Label(label) => Some(label_text(label.number()) + ":"@ + "\n"@),
    }
}

/// The lines of the first `n` commands of `commands`, one after the other;
/// none if one of them has no line.
pub open spec fn lines(commands: Seq<Command>, n: int) -> Option<Seq<char>>
    decreases n,
{
    if n <= 0 || n > commands.len() {
        Some(Seq::empty())
    } else {
        match lines(commands, n - 1) {
            None => None,
            Some(before) => match command_text(commands[n - 1]) {
                None => None,
                Some(line) => Some(before + line),
            },
        }
    }
}

/// The text of the program `commands`: the heading, an empty line, and the
/// line of each command.
pub open spec fn program_text(commands: Seq<Command>) -> Option<Seq<char>> {
    match lines(commands, commands.len() as int) {
        None => None,
        Some(body) => Some("-- HUMAN RESOURCE MACHINE PROGRAM --\n\n"@ + body),
    }
}

/// Once a command has no line, the program has no text.
proof fn no_line_stays(commands: Seq<Command>, n: int, later: int)
    requires
        0 <= n <= later <= commands.len(),
        lines(commands, n) is None,
    ensures
        lines(commands, later) is None,
    decreases later - n,
{
    if n < later {
        no_line_stays(commands, n, later - 1);
    }
}

/// The name of the label with number `number`.
fn number_to_chars(number: &u8) -> (name: String)
    ensures
        name@ == label_text(*number),
{
    let small = *number % 16;
    let big = *number / 16;
    let mut name = String::new();
    push_char(&mut name, (big + 97) as char);
    push_char(&mut name, (small + 97) as char);
    assert(name@ == label_text(*number));
    name
}

/// Appends `n` in decimal digits to `text`.
fn push_decimal(text: &mut String, n: u8)
    ensures
        final(text)@ == old(text)@ + decimal(n),
{
    if n >= 100 {
        push_char(text, (n / 100 + 48) as char);
    }
    if n >= 10 {
        push_char(text, (n / 10 % 10 + 48) as char);
    }
    push_char(text, (n % 10 + 48) as char);
    assert(text@ == old(text)@ + decimal(n));
}

impl Reference {
    /// The operand that names this reference; none for a literal.
    pub fn render(&self) -> (r: Option<String>)
        ensures
            match r {
                Some(text) => reference_text(*self) == Some(text@),
                None => reference_text(*self) is None,
            },
    {
        match self {
            Reference::Pointer(num) => {
                let mut text = String::new();
                push_decimal(&mut text, *num);
                assert(text@ == decimal(*num));
                Some(text)
            },
            Reference::Number(_) => None,
            Reference::PointerPointer(num) => {
                let mut text = String::from_str("[");
                push_decimal(&mut text, *num);
                text.append("]");
                Some(text)
            },
        }
    }
}

impl Label {
    /// The line that defines this label, without its line break: the name
    /// and a colon.
    pub fn to_string(&self) -> (text: String)
        ensures
            text@ == label_text(self.number()) + ":"@,
    {
        let mut text = number_to_chars(&self.count);
        text.append(":");
        text
    }
}

impl LabelRef {
    /// The name of the label that this refers to.
    pub fn to_string(&self) -> (text: String)
        ensures
            text@ == label_text(self.number()),
    {
        number_to_chars(&self.count)
    }
}

/// A line that holds a tab, `mnemonic`, a tab and the operand for
/// `reference`.
fn render_operand(mnemonic: &str, reference: &Reference) -> (r: Option<String>)
    ensures
        match r {
            Some(text) => operand_line(mnemonic@, *reference) == Some(text@),
            None => operand_line(mnemonic@, *reference) is None,
        },
{
    match reference.render() {
        None => None,
        Some(operand) => {
            let mut text = String::from_str("\t");
            text.append(mnemonic);
            text.append("\t");
            text.append(operand.as_str());
            text.append("\n");
            Some(text)
        },
    }
}

/// A line that holds a tab, `mnemonic`, a tab and the name of the label.
fn render_jump(mnemonic: &str, label: &LabelRef) -> (text: String)
    ensures
        text@ == jump_line(mnemonic@, *label),
{
    let mut text = String::from_str("\t");
    text.append(mnemonic);
    text.append("\t");
    text.append(label.to_string().as_str());
    text.append("\n");
    text
}

impl Command {
    /// The line of text for this command, with its line break; none for a
    /// command whose operand is a literal.
    pub fn render(&self) -> (r: Option<String>)
        ensures
            match r {
                Some(text) => command_text(*self) == Some(text@),
                None => command_text(*self) is None,
            },
    {
        match self {
            Command::Inbox => {
                let mut text = String::from_str("\t");
                text.append("INBOX");
                text.append("\t");
                text.append("\n");
                Some(text)
            },
            Command::Outbox => {
                let mut text = String::from_str("\t");
                text.append("OUTBOX");
                text.append("\t");
                text.append("\n");
                Some(text)
            },
            Command::CopyTo(ptr) => render_operand("COPYTO", ptr),
            Command::CopyFrom(ptr) => render_operand("COPYFROM", ptr),
            Command::Add(ptr) => render_operand("ADD", ptr),
            Command::Subtract(ptr) => render_operand("SUB", ptr),
            Command::Increment(ptr) => render_operand("BUMPUP", ptr),
            Command::Decrement(ptr) => render_operand("BUMPDN", ptr),
            Command::Jump(label) => Some(render_jump("JUMP", label)),
            Command::JumpIfZero(label) => Some(render_jump("JUMPZ", label)),
            Command::JumpIfNegative(label) => Some(render_jump("JUMPN", label)),
            Command::Label(label) => {
                let mut text = label.to_string();
                text.append("\n");
                Some(text)
            },
        }
    }
}

/// The text of the program `commands`; none if one of the commands has a
/// literal for its operand.
pub fn render_program(commands: &Vec<Command>) -> (r: Option<String>)
    ensures
        match r {
            Some(text) => program_text(commands@) == Some(text@),
            None => program_text(commands@) is None,
        },
{
    let mut output = String::from_str("-- HUMAN RESOURCE MACHINE PROGRAM --\n\n");
    let ghost heading = output@;
    let mut i: usize = 0;
    assert(heading + Seq::<char>::empty() =~= heading);
    while i < commands.len()
        invariant
            i <= commands@.len(),
            heading == "-- HUMAN RESOURCE MACHINE PROGRAM --\n\n"@,
            lines(commands@, i as int) is Some,
            output@ == heading + lines(commands@, i as int).unwrap(),
        decreases commands@.len() - i,
    {
        match commands[i].render() {
            None => {
                proof {
                    no_line_stays(commands@, i + 1, commands@.len() as int);
                }
                return None;
            },
            Some(line) => {
                let ghost before = lines(commands@, i as int).unwrap();
                output.append(line.as_str());
                assert(output@ =~= heading + (before + line@));
            },
        }
        i = i + 1;
    }
    Some(output)
}

/// Labels with different numbers have different names, and every name is two
/// of the letters `a` to `p`; the label with number 0 is `aa`.
pub proof fn label_names_are_distinct(first: u8, second: u8)
    ensures
        label_text(first).len() == 2,
        97 <= label_text(first)[0] as int <= 112,
        97 <= label_text(first)[1] as int <= 112,
        label_text(first) == label_text(second) ==> first == second,
        label_text(0) == "aa"@,
{
    reveal_strlit("aa");
    assert(label_text(0) =~= "aa"@);
    if label_text(first) == label_text(second) {
        assert(label_text(first)[0] == label_text(second)[0]);
        assert(label_text(first)[1] == label_text(second)[1]);
        assert(first as int / 16 == second as int / 16);
        assert(first as int % 16 == second as int % 16);
    }
}

} // verus!
