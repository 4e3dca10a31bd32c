//! The grammar of the source language: one pattern for each construct, in
//! classes of falling precedence, and the choice of the construct to reduce
//! next.
use crate::lexer::{Lexeme, LexemeType};
use crate::pattern::{
    all_matches, contents, listed_matches_are_well_formed, matches_are_ordered, well_formed_match,
    DepthCriteria, DepthType, LexemeMatcher, LexemePattern, LexemeTest, Quantity, Step,
};
use std::ops::Range;
use vstd::prelude::*;

verus! {

/// The constructs of the source language.
#[derive(Debug, Clone, Copy, PartialEq, Eq, Structural)]
pub enum Construct {
    /// `loop { .. }`
    Loop,
    /// `while ( .. ) { .. }`
    While,
    /// `if ( .. ) { .. } else { .. }`
    IfElse,
    /// `if ( .. ) { .. }`
    If,
    /// Everything up to a `;` outside all brackets.
    Statement,
    /// `.. != ..`
    NotEquals,
    /// `.. == ..`
    Equals,
    /// `.. <= ..`
    LessOrEqual,
    /// `.. >= ..`
    GreaterOrEqual,
    /// `.. < ..`
    LessThan,
    /// `.. > ..`
    GreaterThan,
    /// `.. ++`
    BumpUp,
    /// `.. --`
    BumpDown,
    /// `**N = ..`
    AssignDoubleDeref,
    /// `*N = ..`
    AssignSingleDeref,
    /// `.. + ..`
    Adding,
    /// `.. - ..`
    Subtracting,
    /// `**N`
    DoubleDeref,
    /// `*N`
    SingleDeref,
    /// `output( .. )`
    Output,
    /// `input()`
    Input,
    /// A number.
    PlainNumber,
    /// `break`
    Break,
}

/// One token of kind `kind`, outside all brackets.
pub open spec fn one(kind: LexemeType) -> Step {
    (
        LexemeMatcher(LexemeTest::Is(kind), (DepthCriteria::Zero, DepthType::Both)),
        Quantity::Finite(1),
    )
}

/// Two tokens of kind `kind`, outside all brackets.
pub open spec fn two(kind: LexemeType) -> Step {
    (
        LexemeMatcher(LexemeTest::Is(kind), (DepthCriteria::Zero, DepthType::Both)),
        Quantity::Finite(2),
    )
}

/// The tokens outside all brackets up to the next one of kind `kind`.
pub open spec fn until(kind: LexemeType) -> Step {
    (
        LexemeMatcher(LexemeTest::IsNot(kind), (DepthCriteria::Zero, DepthType::Both)),
        Quantity::Infinite,
    )
}

/// The tokens outside all brackets that follow.
pub open spec fn rest() -> Step {
    (LexemeMatcher(LexemeTest::Any, (DepthCriteria::Zero, DepthType::Both)), Quantity::Infinite)
}

/// The tokens that follow inside a bracket of the given kind.
pub open spec fn inside(brackets: DepthType) -> Step {
    (LexemeMatcher(LexemeTest::Any, (DepthCriteria::OneOrMore, brackets)), Quantity::Infinite)
}

/// The tokens up to the next `;`, whatever brackets they stand in.
pub open spec fn up_to_semicolon() -> Step {
    (
        LexemeMatcher(
            LexemeTest::IsNot(LexemeType::Semicolon),
            (DepthCriteria::Any, DepthType::Both),
        ),
        Quantity::Infinite,
    )
}

/// The tokens inside parentheses up to the next `)`.
pub open spec fn argument() -> Step {
    (
        LexemeMatcher(
            LexemeTest::IsNot(LexemeType::RightParentheses),
            (DepthCriteria::OneOrMore, DepthType::Parentheses),
        ),
        Quantity::Infinite,
    )
}

/// No steps.
pub open spec fn nothing() -> Seq<Step> {
    Seq::empty()
}

impl Construct {
    /// The pattern of this construct.
    pub open spec fn steps(self) -> Seq<Step> {
        match self {
            Construct::Loop => nothing().push(one(LexemeType::Loop)).push(
                one(LexemeType::LeftCurlyBracket),
            ).push(inside(DepthType::CurlyBrackets)).push(one(LexemeType::RightCurlyBracket)),
            Construct::While => nothing().push(one(LexemeType::While)).push(
                one(LexemeType::LeftParentheses),
            ).push(inside(DepthType::Parentheses)).push(one(LexemeType::RightParentheses)).push(
                one(LexemeType::LeftCurlyBracket),
            ).push(inside(DepthType::CurlyBrackets)).push(one(LexemeType::RightCurlyBracket)),
            Construct::IfElse => nothing().push(one(LexemeType::If)).push(
                one(LexemeType::LeftParentheses),
            ).push(inside(DepthType::Parentheses)).push(one(LexemeType::RightParentheses)).push(
                one(LexemeType::LeftCurlyBracket),
            ).push(inside(DepthType::CurlyBrackets)).push(one(LexemeType::RightCurlyBracket)).push(
                one(LexemeType::Else),
            ).push(one(LexemeType::LeftCurlyBracket)).push(inside(DepthType::CurlyBrackets)).push(
                one(LexemeType::RightCurlyBracket),
            ),
            Construct::If => nothing().push(one(LexemeType::If)).push(
                one(LexemeType::LeftParentheses),
            ).push(inside(DepthType::Parentheses)).push(one(LexemeType::RightParentheses)).push(
                one(LexemeType::LeftCurlyBracket),
            ).push(inside(DepthType::CurlyBrackets)).push(one(LexemeType::RightCurlyBracket)),
            Construct::Statement => nothing().push(up_to_semicolon()).push(
                one(LexemeType::Semicolon),
            ),
            Construct::NotEquals => nothing().push(until(LexemeType::ExclamationMark)).push(
                one(LexemeType::ExclamationMark),
            ).push(one(LexemeType::Equals)).push(rest()),
            Construct::Equals => nothing().push(until(LexemeType::Equals)).push(
                two(LexemeType::Equals),
            ).push(rest()),
            Construct::LessOrEqual => nothing().push(until(LexemeType::LeftArrow)).push(
                one(LexemeType::LeftArrow),
            ).push(one(LexemeType::Equals)).push(rest()),
            Construct::GreaterOrEqual => nothing().push(until(LexemeType::RightArrow)).push(
                one(LexemeType::RightArrow),
            ).push(one(LexemeType::Equals)).push(rest()),
            Construct::LessThan => nothing().push(until(LexemeType::LeftArrow)).push(
                one(LexemeType::LeftArrow),
            ).push(rest()),
            Construct::GreaterThan => nothing().push(until(LexemeType::RightArrow)).push(
                one(LexemeType::RightArrow),
            ).push(rest()),
            Construct::BumpUp => nothing().push(until(LexemeType::Plus)).push(
                two(LexemeType::Plus),
            ),
            Construct::BumpDown => nothing().push(until(LexemeType::Minus)).push(
                two(LexemeType::Minus),
            ),
            Construct::AssignDoubleDeref => nothing().push(two(LexemeType::Star)).push(
                one(LexemeType::Number),
            ).push(one(LexemeType::Equals)).push(rest()),
            Construct::AssignSingleDeref => nothing().push(one(LexemeType::Star)).push(
                one(LexemeType::Number),
            ).push(one(LexemeType::Equals)).push(rest()),
            Construct::Adding => nothing().push(until(LexemeType::Plus)).push(
                one(LexemeType::Plus),
            ).push(rest()),
            Construct::Subtracting => nothing().push(until(LexemeType::Minus)).push(
                one(LexemeType::Minus),
            ).push(rest()),
            Construct::DoubleDeref => nothing().push(one(LexemeType::Star)).push(
                one(LexemeType::Star),
            ).push(one(LexemeType::Number)),
            Construct::SingleDeref => nothing().push(one(LexemeType::Star)).push(
                one(LexemeType::Number),
            ),
            Construct::Output => nothing().push(one(LexemeType::Output)).push(
                one(LexemeType::LeftParentheses),
            ).push(argument()).push(one(LexemeType::RightParentheses)),
            Construct::Input => nothing().push(one(LexemeType::Input)).push(
                one(LexemeType::LeftParentheses),
            ).push(one(LexemeType::RightParentheses)),
            Construct::PlainNumber => nothing().push(one(LexemeType::Number)),
            Construct::Break => nothing().push(one(LexemeType::Break)),
        }
    }
}

/// No constructs.
pub open spec fn no_constructs() -> Seq<Construct> {
    Seq::empty()
}

/// How many classes of precedence there are.
pub const CLASS_COUNT: usize = 9;

/// The constructs of the class with number `class`, in the order in which
/// they win a tie; the class with number 0 is tried first.
pub open spec fn precedence(class: int) -> Seq<Construct> {
    if class == 0 {
        no_constructs().push(Construct::Loop).push(Construct::While).push(Construct::IfElse).push(
            Construct::If,
        ).push(Construct::Statement)
    } else if class == 1 {
        no_constructs().push(Construct::NotEquals).push(Construct::Equals).push(
            Construct::LessOrEqual,
        ).push(Construct::GreaterOrEqual).push(Construct::LessThan).push(Construct::GreaterThan)
    } else if class == 2 {
        no_constructs().push(Construct::BumpUp).push(Construct::BumpDown)
    } else if class == 3 {
        no_constructs().push(Construct::AssignDoubleDeref).push(Construct::AssignSingleDeref)
    } else if class == 4 {
        no_constructs().push(Construct::Adding).push(Construct::Subtracting)
    } else if class == 5 {
        no_constructs().push(Construct::DoubleDeref).push(Construct::SingleDeref)
    } else if class == 6 {
        no_constructs().push(Construct::Output)
    } else if class == 7 {
        no_constructs().push(Construct::Input)
    } else if class == 8 {
        no_constructs().push(Construct::PlainNumber).push(Construct::Break)
    } else {
        no_constructs()
    }
}

/// A construct together with the ranges of its leftmost match.
pub type Selected = (Construct, Seq<Range<usize>>);

/// The leftmost match of the pattern in `tokens`.
pub open spec fn first_match(steps: Seq<Step>, tokens: Seq<Lexeme>) -> Option<Seq<Range<usize>>> {
    let all = all_matches(steps, tokens);
    if all.len() > 0 {
        Some(all[0])
    } else {
        None
    }
}

/// Among the first `n` constructs of `class`, the one whose leftmost match
/// starts first; of two that start at the same token, the earlier one.
pub open spec fn choice_among(class: Seq<Construct>, tokens: Seq<Lexeme>, n: int) -> Option<
    Selected,
>
    decreases n,
{
    if n <= 0 || n > class.len() {
        None
    } else {
        let earlier = choice_among(class, tokens, n - 1);
        match first_match(class[n - 1].steps(), tokens) {
            None => earlier,
            Some(taken) => match earlier {
                None => Some((class[n - 1], taken)),
                Some((_, prior)) => if taken[0].start < prior[0].start {
                    Some((class[n - 1], taken))
                } else {
                    earlier
                },
            },
        }
    }
}

/// The choice of the first of the first `n` classes that has one.
pub open spec fn selection_among(tokens: Seq<Lexeme>, n: int) -> Option<Selected>
    decreases n,
{
    if n <= 0 || n > CLASS_COUNT {
        None
    } else {
        match selection_among(tokens, n - 1) {
            Some(selected) => Some(selected),
            None => choice_among(precedence(n - 1), tokens, precedence(n - 1).len() as int),
        }
    }
}

/// The construct to reduce next in `tokens`, with the ranges of its match:
/// the choice of the first class that has one.
pub open spec fn selection(tokens: Seq<Lexeme>) -> Option<Selected> {
    selection_among(tokens, CLASS_COUNT as int)
}

/// What is chosen among the constructs of a class has well-formed ranges.
pub proof fn choice_is_well_formed(class: Seq<Construct>, tokens: Seq<Lexeme>, n: int)
    requires
        tokens.len() <= usize::MAX,
        choice_among(class, tokens, n) is Some,
    ensures
        ({
            let (construct, taken) = choice_among(class, tokens, n).unwrap();
            well_formed_match(construct.steps(), tokens, taken)
        }),
    decreases n,
{
    if 0 < n <= class.len() {
        let earlier = choice_among(class, tokens, n - 1);
        if earlier is Some {
            choice_is_well_formed(class, tokens, n - 1);
        }
        let steps = class[n - 1].steps();
        if first_match(steps, tokens) is Some {
            listed_matches_are_well_formed(steps, tokens, tokens.len() as int, 0);
        }
    }
}

/// What is selected has well-formed ranges.
pub proof fn selection_is_well_formed(tokens: Seq<Lexeme>, n: int)
    requires
        tokens.len() <= usize::MAX,
        selection_among(tokens, n) is Some,
    ensures
        ({
            let (construct, taken) = selection_among(tokens, n).unwrap();
            well_formed_match(construct.steps(), tokens, taken)
        }),
    decreases n,
{
    if 0 < n <= CLASS_COUNT {
        if selection_among(tokens, n - 1) is Some {
            selection_is_well_formed(tokens, n - 1);
        } else {
            choice_is_well_formed(precedence(n - 1), tokens, precedence(n - 1).len() as int);
        }
    }
}

/// Once a class has had a choice, later classes do not change the selection.
proof fn selection_stays(tokens: Seq<Lexeme>, n: int, later: int)
    requires
        0 <= n <= later <= CLASS_COUNT,
        selection_among(tokens, n) is Some,
    ensures
        selection_among(tokens, later) == selection_among(tokens, n),
    decreases later - n,
{
    if n < later {
        selection_stays(tokens, n, later - 1);
    }
}

/// One token of kind `kind`, outside all brackets.
fn step_one(kind: LexemeType) -> (s: (LexemeMatcher, Quantity))
    ensures
        s == one(kind),
{
    (LexemeMatcher::new(LexemeTest::Is(kind), None), Quantity::Finite(1))
}

/// Two tokens of kind `kind`, outside all brackets.
fn step_two(kind: LexemeType) -> (s: (LexemeMatcher, Quantity))
    ensures
        s == two(kind),
{
    (LexemeMatcher::new(LexemeTest::Is(kind), None), Quantity::Finite(2))
}

/// The tokens outside all brackets up to the next one of kind `kind`.
fn step_until(kind: LexemeType) -> (s: (LexemeMatcher, Quantity))
    ensures
        s == until(kind),
{
    (LexemeMatcher::new(LexemeTest::IsNot(kind), None), Quantity::Infinite)
}

/// The tokens outside all brackets that follow.
fn step_rest() -> (s: (LexemeMatcher, Quantity))
    ensures
        s == rest(),
{
    (LexemeMatcher::new(LexemeTest::Any, None), Quantity::Infinite)
}

/// The tokens that follow inside a bracket of the given kind.
fn step_inside(brackets: DepthType) -> (s: (LexemeMatcher, Quantity))
    ensures
        s == inside(brackets),
{
    (
        LexemeMatcher::new(LexemeTest::Any, Some((DepthCriteria::OneOrMore, brackets))),
        Quantity::Infinite,
    )
}

/// The tokens up to the next `;`, whatever brackets they stand in.
fn step_up_to_semicolon() -> (s: (LexemeMatcher, Quantity))
    ensures
        s == up_to_semicolon(),
{
    (
        LexemeMatcher::new(
            LexemeTest::IsNot(LexemeType::Semicolon),
            Some((DepthCriteria::Any, DepthType::Both)),
        ),
        Quantity::Infinite,
    )
}

/// The tokens inside parentheses up to the next `)`.
fn step_argument() -> (s: (LexemeMatcher, Quantity))
    ensures
        s == argument(),
{
    (
        LexemeMatcher::new(
            LexemeTest::IsNot(LexemeType::RightParentheses),
            Some((DepthCriteria::OneOrMore, DepthType::Parentheses)),
        ),
        Quantity::Infinite,
    )
}

/// The steps of `if ( .. ) { .. }` behind the first token, which `while`
/// shares.
fn condition_and_block(steps: &mut Vec<(LexemeMatcher, Quantity)>)
    ensures
        final(steps)@ == old(steps)@.push(one(LexemeType::LeftParentheses)).push(
            inside(DepthType::Parentheses),
        ).push(one(LexemeType::RightParentheses)).push(one(LexemeType::LeftCurlyBracket)).push(
            inside(DepthType::CurlyBrackets),
        ).push(one(LexemeType::RightCurlyBracket)),
{
    steps.push(step_one(LexemeType::LeftParentheses));
    steps.push(step_inside(DepthType::Parentheses));
    steps.push(step_one(LexemeType::RightParentheses));
    steps.push(step_one(LexemeType::LeftCurlyBracket));
    steps.push(step_inside(DepthType::CurlyBrackets));
    steps.push(step_one(LexemeType::RightCurlyBracket));
}

/// The steps of a comparison whose operator is one token of kind
/// `operator`, followed by `=` if `or_equal` says so.
fn comparison(operator: LexemeType, or_equal: bool) -> (steps: Vec<(LexemeMatcher, Quantity)>)
    ensures
        steps@ == if or_equal {
            nothing().push(until(operator)).push(one(operator)).push(
                one(LexemeType::Equals),
            ).push(rest())
        } else {
            nothing().push(until(operator)).push(one(operator)).push(rest())
        },
{
    let mut steps = Vec::new();
    steps.push(step_until(operator));
    steps.push(step_one(operator));
    if or_equal {
        steps.push(step_one(LexemeType::Equals));
    }
    steps.push(step_rest());
    steps
}

impl Construct {
    /// The pattern of this construct.
    pub fn pattern(self) -> (p: LexemePattern)
        ensures
            p@ == self.steps(),
    {
        let mut steps: Vec<(LexemeMatcher, Quantity)> = Vec::new();
        match self {
            Construct::Loop => {
                steps.push(step_one(LexemeType::Loop));
                steps.push(step_one(LexemeType::LeftCurlyBracket));
                steps.push(step_inside(DepthType::CurlyBrackets));
                steps.push(step_one(LexemeType::RightCurlyBracket));
            },
            Construct::While => {
                steps.push(step_one(LexemeType::While));
                condition_and_block(&mut steps);
            },
            Construct::IfElse => {
                steps.push(step_one(LexemeType::If));
                condition_and_block(&mut steps);
                steps.push(step_one(LexemeType::Else));
                steps.push(step_one(LexemeType::LeftCurlyBracket));
                steps.push(step_inside(DepthType::CurlyBrackets));
                steps.push(step_one(LexemeType::RightCurlyBracket));
            },
            Construct::If => {
                steps.push(step_one(LexemeType::If));
                condition_and_block(&mut steps);
            },
            Construct::Statement => {
                steps.push(step_up_to_semicolon());
                steps.push(step_one(LexemeType::Semicolon));
            },
            Construct::NotEquals => {
                steps = comparison(LexemeType::ExclamationMark, true);
            },
            Construct::Equals => {
                steps.push(step_until(LexemeType::Equals));
                steps.push(step_two(LexemeType::Equals));
                steps.push(step_rest());
            },
            Construct::LessOrEqual => {
                steps = comparison(LexemeType::LeftArrow, true);
            },
            Construct::GreaterOrEqual => {
                steps = comparison(LexemeType::RightArrow, true);
            },
            Construct::LessThan => {
                steps = comparison(LexemeType::LeftArrow, false);
            },
            Construct::GreaterThan => {
                steps = comparison(LexemeType::RightArrow, false);
            },
            Construct::BumpUp => {
                steps.push(step_until(LexemeType::Plus));
                steps.push(step_two(LexemeType::Plus));
            },
            Construct::BumpDown => {
                steps.push(step_until(LexemeType::Minus));
                steps.push(step_two(LexemeType::Minus));
            },
            Construct::AssignDoubleDeref => {
                steps.push(step_two(LexemeType::Star));
                steps.push(step_one(LexemeType::Number));
                steps.push(step_one(LexemeType::Equals));
                steps.push(step_rest());
            },
            Construct::AssignSingleDeref => {
                steps.push(step_one(LexemeType::Star));
                steps.push(step_one(LexemeType::Number));
                steps.push(step_one(LexemeType::Equals));
                steps.push(step_rest());
            },
            Construct::Adding => {
                steps = comparison(LexemeType::Plus, false);
            },
            Construct::Subtracting => {
                steps = comparison(LexemeType::Minus, false);
            },
            Construct::DoubleDeref => {
                steps.push(step_one(LexemeType::Star));
                steps.push(step_one(LexemeType::Star));
                steps.push(step_one(LexemeType::Number));
            },
            Construct::SingleDeref => {
                steps.push(step_one(LexemeType::Star));
                steps.push(step_one(LexemeType::Number));
            },
            Construct::Output => {
                steps.push(step_one(LexemeType::Output));
                steps.push(step_one(LexemeType::LeftParentheses));
                steps.push(step_argument());
                steps.push(step_one(LexemeType::RightParentheses));
            },
            Construct::Input => {
                steps.push(step_one(LexemeType::Input));
                steps.push(step_one(LexemeType::LeftParentheses));
                steps.push(step_one(LexemeType::RightParentheses));
            },
            Construct::PlainNumber => {
                steps.push(step_one(LexemeType::Number));
            },
            Construct::Break => {
                steps.push(step_one(LexemeType::Break));
            },
        }
        LexemePattern::new(steps)
    }

    /// Every pattern has a step.
    pub proof fn has_steps(self)
        ensures
            self.steps().len() > 0,
    {
    }
}

/// The constructs of the class with number `class`.
fn constructs_of(class: usize) -> (r: Vec<Construct>)
    ensures
        r@ == precedence(class as int),
{
    let mut r: Vec<Construct> = Vec::new();
    if class == 0 {
        r.push(Construct::Loop);
        r.push(Construct::While);
        r.push(Construct::IfElse);
        r.push(Construct::If);
        r.push(Construct::Statement);
    } else if class == 1 {
        r.push(Construct::NotEquals);
        r.push(Construct::Equals);
        r.push(Construct::LessOrEqual);
        r.push(Construct::GreaterOrEqual);
        r.push(Construct::LessThan);
        r.push(Construct::GreaterThan);
    } else if class == 2 {
        r.push(Construct::BumpUp);
        r.push(Construct::BumpDown);
    } else if class == 3 {
        r.push(Construct::AssignDoubleDeref);
        r.push(Construct::AssignSingleDeref);
    } else if class == 4 {
        r.push(Construct::Adding);
        r.push(Construct::Subtracting);
    } else if class == 5 {
        r.push(Construct::DoubleDeref);
        r.push(Construct::SingleDeref);
    } else if class == 6 {
        r.push(Construct::Output);
    } else if class == 7 {
        r.push(Construct::Input);
    } else if class == 8 {
        r.push(Construct::PlainNumber);
        r.push(Construct::Break);
    }
    r
}

/// The patterns of all constructs, built once and then only read.
pub struct Grammar {
    classes: Vec<Vec<(LexemePattern, Construct)>>,
}

impl Grammar {
    /// The grammar holds the pattern of each construct, class by class in
    /// the order of `precedence`.
    #[verifier::type_invariant]
    spec fn wf(&self) -> bool {
        &&& self.classes@.len() == CLASS_COUNT
        &&& forall|c: int|
            0 <= c < CLASS_COUNT ==> (#[trigger] self.classes@[c])@.len() == precedence(c).len()
        &&& forall|c: int, k: int|
            0 <= c < CLASS_COUNT && 0 <= k < precedence(c).len() ==> {
                let entry = #[trigger] self.classes@[c]@[k];
                entry.1 == precedence(c)[k] && entry.0@ == precedence(c)[k].steps()
            }
    }

    /// The grammar of the language: see `language`.
    pub fn new() -> (g: Self)
        ensures
            g@ == language(),
    {
        let mut classes: Vec<Vec<(LexemePattern, Construct)>> = Vec::new();
        let mut c: usize = 0;
        while c < CLASS_COUNT
            invariant
                c <= CLASS_COUNT,
                classes@.len() == c,
                forall|d: int| 0 <= d < c ==> (#[trigger] classes@[d])@.len() == precedence(d).len(),
                forall|d: int, k: int|
                    0 <= d < c && 0 <= k < precedence(d).len() ==> {
                        let entry = #[trigger] classes@[d]@[k];
                        entry.1 == precedence(d)[k] && entry.0@ == precedence(d)[k].steps()
                    },
            decreases CLASS_COUNT - c,
        {
            let constructs = constructs_of(c);
            let mut entries: Vec<(LexemePattern, Construct)> = Vec::new();
            let mut k: usize = 0;
            while k < constructs.len()
                invariant
                    k <= constructs@.len(),
                    entries@.len() == k,
                    forall|j: int|
                        0 <= j < k ==> {
                            let entry = #[trigger] entries@[j];
                            entry.1 == constructs@[j] && entry.0@ == constructs@[j].steps()
                        },
                decreases constructs@.len() - k,
            {
                let construct = constructs[k];
                entries.push((construct.pattern(), construct));
                k = k + 1;
            }
            classes.push(entries);
            c = c + 1;
        }
        let g = Grammar { classes };
        proof {
            assert forall|d: int| 0 <= d < CLASS_COUNT implies #[trigger] g@[d] == language()[d] by {
                assert(g.classes@[d]@.len() == precedence(d).len());
                assert forall|k: int| 0 <= k < precedence(d).len() implies #[trigger] g@[d][k]
                    == language()[d][k] by {
                    let entry = g.classes@[d]@[k];
                    assert(entry.1 == precedence(d)[k] && entry.0@ == precedence(d)[k].steps());
                }
                assert(g@[d] =~= language()[d]);
            }
            assert(g@ =~= language());
        }
        g
    }

    /// Among the constructs of the class with number `c`, the one whose
    /// leftmost match in `tokens` starts first.
    fn choice(&self, c: usize, tokens: &[Lexeme]) -> (best: Option<(Construct, Vec<Range<usize>>)>)
        requires
            c < CLASS_COUNT,
        ensures
            match best {
                Some((construct, taken)) => choice_among(
                    precedence(c as int),
                    tokens@,
                    precedence(c as int).len() as int,
                ) == Some((construct, taken@)),
                None => choice_among(
                    precedence(c as int),
                    tokens@,
                    precedence(c as int).len() as int,
                ) is None,
            },
    {
        proof {
            use_type_invariant(self);
        }
        let class = &self.classes[c];
        let mut best: Option<(Construct, Vec<Range<usize>>)> = None;
        let mut k: usize = 0;
        let count = tokens.len();
        while k < class.len()
            invariant
                self.wf(),
                tokens@.len() == count,
                c < CLASS_COUNT,
                class == &self.classes@[c as int],
                k <= class@.len(),
                class@.len() == precedence(c as int).len(),
                match best {
                    Some((construct, taken)) => choice_among(
                        precedence(c as int),
                        tokens@,
                        k as int,
                    ) == Some((construct, taken@)) && taken@.len() > 0,
                    None => choice_among(precedence(c as int), tokens@, k as int) is None,
                },
            decreases class@.len() - k,
        {
            let construct = class[k].1;
            let mut found = class[k].0.matches(tokens);
            proof {
                assert(class@[k as int] == self.classes@[c as int]@[k as int]);
                construct.has_steps();
            }
            if found.len() > 0 {
                let ghost all = found@;
                let first = found.swap_remove(0);
                proof {
                    assert(first@ == contents(all)[0]);
                    matches_are_ordered(construct.steps(), tokens@, tokens@.len() as int, 0, 0);
                }
                let replace = match &best {
                    None => true,
                    Some((_, prior)) => first[0].start < prior[0].start,
                };
                if replace {
                    best = Some((construct, first));
                }
            }
            k = k + 1;
        }
        best
    }

    /// The construct to reduce next in `tokens`, with the ranges that the
    /// steps of its pattern take.
    pub fn select(&self, tokens: &[Lexeme]) -> (r: Option<(Construct, Vec<Range<usize>>)>)
        ensures
            match r {
                Some((construct, taken)) => selection(tokens@) == Some((construct, taken@))
                    && well_formed_match(construct.steps(), tokens@, taken@),
                None => selection(tokens@) is None,
            },
    {
        let mut c: usize = 0;
        let count = tokens.len();
        while c < CLASS_COUNT
            invariant
                tokens@.len() == count,
                c <= CLASS_COUNT,
                selection_among(tokens@, c as int) is None,
            decreases CLASS_COUNT - c,
        {
            let best = self.choice(c, tokens);
            if best.is_some() {
                proof {
                    selection_stays(tokens@, c + 1, CLASS_COUNT as int);
                    selection_is_well_formed(tokens@, CLASS_COUNT as int);
                }
                return best;
            }
            c = c + 1;
        }
        None
    }
}

/// One entry of a grammar: the steps of a pattern and the construct that the
/// pattern stands for.
pub type Entry = (Seq<Step>, Construct);

/// The grammar of the language as sequences: its classes in the order of
/// their precedence, each with the pattern of every construct of the class in
/// the order in which the constructs win a tie.
pub open spec fn language() -> Seq<Seq<Entry>> {
    Seq::new(
        CLASS_COUNT as nat,
        |c: int| Seq::new(precedence(c).len(), |k: int| (precedence(c)[k].steps(), precedence(c)[k])),
    )
}

impl View for Grammar {
    type V = Seq<Seq<Entry>>;

    /// The classes of the grammar, each with the steps of its patterns and
    /// their constructs, in their order.
    closed spec fn view(&self) -> Seq<Seq<Entry>> {
        Seq::new(
            self.classes@.len(),
            |c: int|
                Seq::new(
                    self.classes@[c]@.len(),
                    |k: int| (self.classes@[c]@[k].0@, self.classes@[c]@[k].1),
                ),
        )
    }
}

} // verus!
