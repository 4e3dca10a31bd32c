use hrm_compiler::lexer::{lex, LexError, Lexeme, LexemeType};

#[test]
fn empty_source_has_no_tokens() {
    assert_eq!(lex(""), Ok(vec![]));
}

#[test]
fn every_fixed_token_is_recognised() {
    assert_eq!(
        lex("input output ( ) + = loop { } * ; if ! - < > else while break"),
        Ok(vec![
            Lexeme::Input,
            Lexeme::Output,
            Lexeme::LeftParentheses,
            Lexeme::RightParentheses,
            Lexeme::Plus,
            Lexeme::Equals,
            Lexeme::Loop,
            Lexeme::LeftCurlyBracket,
            Lexeme::RightCurlyBracket,
            Lexeme::Star,
            Lexeme::Semicolon,
            Lexeme::If,
            Lexeme::ExclamationMark,
            Lexeme::Minus,
            Lexeme::LeftArrow,
            Lexeme::RightArrow,
            Lexeme::Else,
            Lexeme::While,
            Lexeme::Break,
        ])
    );
}

#[test]
fn tokens_need_no_space_between_them() {
    assert_eq!(
        lex("*5=*5+1;"),
        Ok(vec![
            Lexeme::Star,
            Lexeme::Number(5),
            Lexeme::Equals,
            Lexeme::Star,
            Lexeme::Number(5),
            Lexeme::Plus,
            Lexeme::Number(1),
            Lexeme::Semicolon,
        ])
    );
}

#[test]
fn keywords_may_touch() {
    assert_eq!(
        lex("ifinputelsewhile"),
        Ok(vec![Lexeme::If, Lexeme::Input, Lexeme::Else, Lexeme::While])
    );
}

#[test]
fn comparison_operators_are_two_tokens() {
    assert_eq!(
        lex("<= >= == !="),
        Ok(vec![
            Lexeme::LeftArrow,
            Lexeme::Equals,
            Lexeme::RightArrow,
            Lexeme::Equals,
            Lexeme::Equals,
            Lexeme::Equals,
            Lexeme::ExclamationMark,
            Lexeme::Equals,
        ])
    );
}

#[test]
fn numbers_take_all_their_digits() {
    assert_eq!(lex("0"), Ok(vec![Lexeme::Number(0)]));
    assert_eq!(lex("7"), Ok(vec![Lexeme::Number(7)]));
    assert_eq!(lex("42"), Ok(vec![Lexeme::Number(42)]));
    assert_eq!(lex("255"), Ok(vec![Lexeme::Number(255)]));
    assert_eq!(lex("12 34"), Ok(vec![Lexeme::Number(12), Lexeme::Number(34)]));
}

#[test]
fn leading_zeros_do_not_count() {
    assert_eq!(lex("007"), Ok(vec![Lexeme::Number(7)]));
    assert_eq!(lex("000000000255"), Ok(vec![Lexeme::Number(255)]));
}

#[test]
fn a_number_above_255_is_no_token() {
    assert_eq!(
        lex("256"),
        Err(LexError::InvalidTokenError("256".to_string()))
    );
    assert_eq!(
        lex("*1 = 1000;"),
        Err(LexError::InvalidTokenError("1000;".to_string()))
    );
    assert_eq!(
        lex("99999999999999999999999999"),
        Err(LexError::InvalidTokenError(
            "99999999999999999999999999".to_string()
        ))
    );
}

#[test]
fn white_space_between_tokens_is_passed_over() {
    assert_eq!(
        lex("  loop\t{\n\r\n}"),
        Ok(vec![
            Lexeme::Loop,
            Lexeme::LeftCurlyBracket,
            Lexeme::RightCurlyBracket
        ])
    );
    assert_eq!(
        lex("\u{a0}*\u{2003}1\u{3000};"),
        Ok(vec![Lexeme::Star, Lexeme::Number(1), Lexeme::Semicolon])
    );
}

#[test]
fn white_space_at_the_end_is_an_error_with_nothing_left() {
    assert_eq!(
        lex("input() "),
        Err(LexError::InvalidTokenError(String::new()))
    );
    assert_eq!(lex(" "), Err(LexError::InvalidTokenError(String::new())));
}

#[test]
fn an_unknown_character_gives_the_rest() {
    assert_eq!(
        lex("*1 = x + 2;"),
        Err(LexError::InvalidTokenError("x + 2;".to_string()))
    );
    assert_eq!(
        lex("input, output"),
        Err(LexError::InvalidTokenError(", output".to_string()))
    );
    assert_eq!(
        lex("*1 = \u{663}"),
        Err(LexError::InvalidTokenError("\u{663}".to_string()))
    );
}

#[test]
fn a_broken_keyword_gives_the_rest() {
    assert_eq!(
        lex("whale"),
        Err(LexError::InvalidTokenError("whale".to_string()))
    );
    assert_eq!(
        lex("loo"),
        Err(LexError::InvalidTokenError("loo".to_string()))
    );
}

#[test]
fn kinds_and_tokens_convert_into_each_other() {
    assert_eq!(LexemeType::from(Lexeme::Number(9)), LexemeType::Number);
    assert_eq!(Lexeme::from(LexemeType::Number), Lexeme::Number(0));
    assert_eq!(LexemeType::from(Lexeme::While), LexemeType::While);
    assert_eq!(Lexeme::from(LexemeType::While), Lexeme::While);
    assert_eq!(LexemeType::from(Lexeme::Comma), LexemeType::Comma);
    assert_eq!(Lexeme::from(LexemeType::Comma), Lexeme::Comma);
    let all = [
        LexemeType::Input,
        LexemeType::Output,
        LexemeType::LeftParentheses,
        LexemeType::RightParentheses,
        LexemeType::Plus,
        LexemeType::Equals,
        LexemeType::Loop,
        LexemeType::LeftCurlyBracket,
        LexemeType::RightCurlyBracket,
        LexemeType::Star,
        LexemeType::Comma,
        LexemeType::Semicolon,
        LexemeType::Number,
        LexemeType::If,
        LexemeType::ExclamationMark,
        LexemeType::Minus,
        LexemeType::LeftArrow,
        LexemeType::RightArrow,
        LexemeType::Else,
        LexemeType::While,
        LexemeType::Break,
    ];
    for kind in all {
        assert_eq!(LexemeType::from(Lexeme::from(kind)), kind);
    }
}

/// The rules of the tokenizer as regular expressions, in their order.
fn rules() -> Vec<(regex::Regex, Option<Lexeme>)> {
    [
        ("input", Some(Lexeme::Input)),
        ("output", Some(Lexeme::Output)),
        ("\\(", Some(Lexeme::LeftParentheses)),
        ("\\)", Some(Lexeme::RightParentheses)),
        ("\\+", Some(Lexeme::Plus)),
        ("=", Some(Lexeme::Equals)),
        ("loop", Some(Lexeme::Loop)),
        ("\\{", Some(Lexeme::LeftCurlyBracket)),
        ("\\}", Some(Lexeme::RightCurlyBracket)),
        ("\\*", Some(Lexeme::Star)),
        ("\\d+", None),
        (";", Some(Lexeme::Semicolon)),
        ("if", Some(Lexeme::If)),
        ("!", Some(Lexeme::ExclamationMark)),
        ("-", Some(Lexeme::Minus)),
        ("<", Some(Lexeme::LeftArrow)),
        (">", Some(Lexeme::RightArrow)),
        ("else", Some(Lexeme::Else)),
        ("while", Some(Lexeme::While)),
        ("break", Some(Lexeme::Break)),
    ]
    .into_iter()
    .map(|(pattern, lexeme)| (regex::Regex::new(pattern).unwrap(), lexeme))
    .collect()
}

/// Tokenizes `source` by the regular expressions of `rules`: at each place,
/// behind white space, the first rule whose leftmost match begins there gives
/// the token.
fn lex_by_rules(
    rules: &[(regex::Regex, Option<Lexeme>)],
    source: &str,
) -> Result<Vec<Lexeme>, String> {
    let mut out = Vec::new();
    let mut rest = source;
    while !rest.is_empty() {
        rest = rest.trim_start();
        let mut taken = None;
        for (rule, lexeme) in rules {
            if let Some(found) = rule.find(rest) {
                if found.start() == 0 {
                    let token = match lexeme {
                        Some(l) => Some(*l),
                        None => found.as_str().parse::<u8>().ok().map(Lexeme::Number),
                    };
                    if let Some(token) = token {
                        taken = Some((token, found.end()));
                    }
                    break;
                }
            }
        }
        match taken {
            Some((token, end)) => {
                out.push(token);
                rest = &rest[end..];
            }
            None => return Err(rest.to_string()),
        }
    }
    Ok(out)
}

fn lexed(source: &str) -> Result<Vec<Lexeme>, String> {
    match lex(source) {
        Ok(tokens) => Ok(tokens),
        Err(LexError::InvalidTokenError(rest)) => Err(rest),
    }
}

#[test]
fn the_tokenizer_agrees_with_its_rules_as_regular_expressions_on_short_texts() {
    let rules = rules();
    let alphabet = ['i', 'f', 'n', '(', '*', '1', '2', '5', '6', ' ', '=', 'x'];
    let mut texts = vec![String::new()];
    let mut from = 0;
    for _ in 0..5 {
        let until = texts.len();
        for i in from..until {
            for c in alphabet {
                let mut longer = texts[i].clone();
                longer.push(c);
                texts.push(longer);
            }
        }
        from = until;
    }
    assert_eq!(texts.len(), 1 + 12 + 144 + 1728 + 20736 + 248832);
    for text in &texts {
        assert_eq!(lexed(text), lex_by_rules(&rules, text), "on {:?}", text);
    }
}

#[test]
fn the_tokenizer_agrees_with_its_rules_as_regular_expressions_on_programs() {
    let rules = rules();
    for text in [
        "loop { *1 = input(); if (*1 < 0) { *1 = *0 - *1; } output(*1); }",
        "while (*1 >= *2) { **3 = *1 - *2; *1--; *2++; } break;",
        "if(*1!=0){output(*255);}else{output(*256);}",
        "input output loop if else while break inputoutputloopifelsewhilebreak",
        "iff elsee whilee 0012 1234 12a -><=!;{}()*+",
        "*1 =\t*2;\n\n*3 =\r\n*4 ;",
        "\u{2003}*1\u{a0}=\u{85}*2\u{1680};",
        "*1 = *2 ",
        "breakk",
        "brea",
    ] {
        assert_eq!(lexed(text), lex_by_rules(&rules, text), "on {:?}", text);
    }
}

#[test]
fn white_space_is_what_the_standard_library_calls_white_space() {
    for code in 0..=0x10FFFFu32 {
        if let Some(c) = char::from_u32(code) {
            let mut text = String::new();
            text.push(c);
            text.push('*');
            let passed_over = lex(&text) == Ok(vec![Lexeme::Star]);
            assert_eq!(passed_over, c.is_whitespace(), "on {:?}", c);
        }
    }
}
