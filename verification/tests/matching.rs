use hrm_compiler::grammar::{Construct, Grammar};
use hrm_compiler::lexer::{lex, Lexeme, LexemeType};
use hrm_compiler::pattern::{
    DepthCriteria, DepthType, LexemeMatcher, LexemePattern, LexemeTest, Quantity,
};

fn is(kind: LexemeType) -> LexemeMatcher {
    LexemeMatcher::new(LexemeTest::Is(kind), None)
}

#[test]
fn a_matcher_without_depth_asks_for_depth_zero_of_both() {
    assert_eq!(
        LexemeMatcher::new(LexemeTest::Any, None),
        LexemeMatcher(LexemeTest::Any, (DepthCriteria::Zero, DepthType::Both))
    );
    assert_eq!(
        LexemeMatcher::new(
            LexemeTest::Any,
            Some((DepthCriteria::Any, DepthType::Parentheses))
        ),
        LexemeMatcher(LexemeTest::Any, (DepthCriteria::Any, DepthType::Parentheses))
    );
}

#[test]
fn a_test_looks_at_the_kind_only() {
    assert!(LexemeTest::Any.test(&Lexeme::Comma));
    assert!(LexemeTest::Is(LexemeType::Number).test(&Lexeme::Number(17)));
    assert!(!LexemeTest::Is(LexemeType::Number).test(&Lexeme::Star));
    assert!(LexemeTest::IsNot(LexemeType::Plus).test(&Lexeme::Minus));
    assert!(!LexemeTest::IsNot(LexemeType::Plus).test(&Lexeme::Plus));
}

#[test]
fn a_pattern_is_found_at_every_place() {
    let pattern = LexemePattern::new(vec![
        (is(LexemeType::Star), Quantity::Finite(1)),
        (is(LexemeType::Number), Quantity::Finite(1)),
    ]);
    let tokens = lex("*1 + *2 - 3 * *4").unwrap();
    assert_eq!(
        pattern.matches(&tokens),
        vec![vec![0..1, 1..2], vec![3..4, 4..5], vec![8..9, 9..10]]
    );
}

#[test]
fn no_tokens_hold_no_match() {
    let pattern = LexemePattern::new(vec![(
        LexemeMatcher::new(LexemeTest::Any, None),
        Quantity::Infinite,
    )]);
    assert_eq!(pattern.matches(&[]), Vec::<Vec<std::ops::Range<usize>>>::new());
}

#[test]
fn a_run_may_be_empty_and_is_as_long_as_it_can_be() {
    let pattern = LexemePattern::new(vec![
        (
            LexemeMatcher::new(LexemeTest::IsNot(LexemeType::Plus), None),
            Quantity::Infinite,
        ),
        (is(LexemeType::Plus), Quantity::Finite(1)),
    ]);
    let tokens = lex("1 2 + +").unwrap();
    assert_eq!(
        pattern.matches(&tokens),
        vec![vec![0..2, 2..3], vec![1..2, 2..3], vec![2..2, 2..3], vec![3..3, 3..4]]
    );
}

#[test]
fn a_fixed_count_must_fit_and_must_begin_at_a_token() {
    let two_stars = LexemePattern::new(vec![(is(LexemeType::Star), Quantity::Finite(2))]);
    assert_eq!(
        two_stars.matches(&lex("***").unwrap()),
        vec![vec![0..2], vec![1..3]]
    );
    let run_then_none = LexemePattern::new(vec![
        (is(LexemeType::Star), Quantity::Infinite),
        (is(LexemeType::Star), Quantity::Finite(0)),
    ]);
    assert_eq!(
        run_then_none.matches(&lex("**1").unwrap()),
        vec![vec![0..2, 2..2], vec![1..2, 2..2], vec![2..2, 2..2]]
    );
    assert_eq!(
        run_then_none.matches(&lex("**").unwrap()),
        Vec::<Vec<std::ops::Range<usize>>>::new()
    );
}

#[test]
fn depth_counts_a_closing_bracket_as_outside() {
    let inside = LexemePattern::new(vec![
        (is(LexemeType::LeftParentheses), Quantity::Finite(1)),
        (
            LexemeMatcher::new(
                LexemeTest::Any,
                Some((DepthCriteria::OneOrMore, DepthType::Parentheses)),
            ),
            Quantity::Infinite,
        ),
        (is(LexemeType::RightParentheses), Quantity::Finite(1)),
    ]);
    let tokens = lex("(1 (2) 3) (4)").unwrap();
    assert_eq!(
        inside.matches(&tokens),
        vec![vec![0..1, 1..6, 6..7], vec![7..8, 8..9, 9..10]]
    );
}

#[test]
fn depth_of_both_adds_the_two_kinds_of_bracket() {
    let top = LexemePattern::new(vec![(is(LexemeType::Number), Quantity::Finite(1))]);
    let tokens = lex("1 ( 2 { 3 } 4 ) { 5 } 6").unwrap();
    assert_eq!(top.matches(&tokens), vec![vec![0..1], vec![11..12]]);
    let in_curly = LexemePattern::new(vec![(
        LexemeMatcher::new(
            LexemeTest::Is(LexemeType::Number),
            Some((DepthCriteria::OneOrMore, DepthType::CurlyBrackets)),
        ),
        Quantity::Finite(1),
    )]);
    assert_eq!(in_curly.matches(&tokens), vec![vec![4..5], vec![9..10]]);
    let out_of_parentheses = LexemePattern::new(vec![(
        LexemeMatcher::new(
            LexemeTest::Is(LexemeType::Number),
            Some((DepthCriteria::Zero, DepthType::Parentheses)),
        ),
        Quantity::Finite(1),
    )]);
    assert_eq!(
        out_of_parentheses.matches(&tokens),
        vec![vec![0..1], vec![9..10], vec![11..12]]
    );
    let anywhere = LexemePattern::new(vec![(
        LexemeMatcher::new(
            LexemeTest::Is(LexemeType::Number),
            Some((DepthCriteria::Any, DepthType::Both)),
        ),
        Quantity::Finite(1),
    )]);
    assert_eq!(anywhere.matches(&tokens).len(), 6);
}

#[test]
fn the_pattern_of_a_construct_matches_its_source() {
    let tokens = lex("if (*1 == 0) { output(*2); } else { *1++; }").unwrap();
    assert_eq!(
        Construct::IfElse.pattern().matches(&tokens),
        vec![vec![
            0..1,
            1..2,
            2..7,
            7..8,
            8..9,
            9..15,
            15..16,
            16..17,
            17..18,
            18..23,
            23..24
        ]]
    );
    assert_eq!(
        Construct::If.pattern().matches(&tokens),
        vec![vec![0..1, 1..2, 2..7, 7..8, 8..9, 9..15, 15..16]]
    );
}

#[test]
fn selection_prefers_the_earlier_class_and_then_the_leftmost_match() {
    let grammar = Grammar::new();
    let tokens = lex("*1 = *2 + *3").unwrap();
    assert_eq!(
        grammar.select(&tokens),
        Some((Construct::AssignSingleDeref, vec![0..1, 1..2, 2..3, 3..8]))
    );
    let tokens = lex("*2 + *3").unwrap();
    assert_eq!(
        grammar.select(&tokens),
        Some((Construct::Adding, vec![0..2, 2..3, 3..5]))
    );
    let tokens = lex("*1 = 0; loop { }").unwrap();
    assert_eq!(
        grammar.select(&tokens),
        Some((Construct::Statement, vec![0..4, 4..5]))
    );
    let tokens = lex("loop { } *1 = 0;").unwrap();
    assert_eq!(
        grammar.select(&tokens),
        Some((Construct::Loop, vec![0..1, 1..2, 2..2, 2..3]))
    );
}

#[test]
fn selection_gives_a_tie_to_the_construct_that_stands_first() {
    let grammar = Grammar::new();
    let tokens = lex("if (*1 == 0) { } else { }").unwrap();
    assert_eq!(grammar.select(&tokens).unwrap().0, Construct::IfElse);
    let tokens = lex("*1 <= *2").unwrap();
    assert_eq!(grammar.select(&tokens).unwrap().0, Construct::LessOrEqual);
    let tokens = lex("**1").unwrap();
    assert_eq!(grammar.select(&tokens).unwrap().0, Construct::DoubleDeref);
}

#[test]
fn selection_finds_nothing_in_brackets_alone() {
    let grammar = Grammar::new();
    assert_eq!(grammar.select(&lex("=").unwrap()), None);
    assert_eq!(grammar.select(&lex("( )").unwrap()), None);
    assert_eq!(grammar.select(&[]), None);
}
