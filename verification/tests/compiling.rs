use hrm_compiler::compiler::{render_program, Command, Reference};
use hrm_compiler::lexer::{lex, LexError};
use hrm_compiler::{compile, CompileError, Failure};

fn text_of(source: &str, scratch: u8) -> Option<String> {
    render_program(&compile(source, scratch).unwrap())
}

#[test]
fn the_empty_source_compiles_to_the_heading() {
    assert_eq!(compile("", 0), Ok(vec![]));
    assert_eq!(
        text_of("", 0),
        Some("-- HUMAN RESOURCE MACHINE PROGRAM --\n\n".to_string())
    );
}

#[test]
fn a_source_compiles_to_the_text_of_its_program() {
    assert_eq!(
        text_of(
            "loop {\n    *1 = input();\n    if (*1 < 0) { *1 = *0 - *1; }\n    output(*1);\n}",
            24
        ),
        Some(concat_lines(&[
            "-- HUMAN RESOURCE MACHINE PROGRAM --",
            "",
            "aa:",
            "\tINBOX\t",
            "\tCOPYTO\t1",
            "\tCOPYFROM\t1",
            "\tJUMPN\tab",
            "\tJUMP\tac",
            "ab:",
            "\tCOPYFROM\t1",
            "\tCOPYTO\t24",
            "\tCOPYFROM\t0",
            "\tSUB\t24",
            "\tCOPYTO\t1",
            "ac:",
            "\tCOPYFROM\t1",
            "\tOUTBOX\t",
            "\tJUMP\taa",
        ]))
    );
}

fn concat_lines(lines: &[&str]) -> String {
    let mut text = String::new();
    for line in lines {
        text.push_str(line);
        text.push('\n');
    }
    text
}

#[test]
fn a_source_compiles_to_its_commands() {
    assert_eq!(
        compile("*2 = *1;", 0),
        Ok(vec![
            Command::CopyFrom(Reference::Pointer(1)),
            Command::CopyTo(Reference::Pointer(2))
        ])
    );
}

#[test]
fn each_step_gives_its_failure() {
    assert_eq!(
        compile("*1 = ?;", 0),
        Err(Failure::Tokens(LexError::InvalidTokenError(
            "?;".to_string()
        )))
    );
    assert_eq!(
        compile("*1 = ;", 0),
        Err(Failure::Program(CompileError::InvalidCommandError(
            lex("*1 =").unwrap()
        )))
    );
    assert_eq!(
        compile("*5 = *5 + 1;", 0),
        Err(Failure::Program(CompileError::Error))
    );
    assert_eq!(
        compile("loop { break; }", 0),
        Err(Failure::Program(CompileError::Error))
    );
    assert_eq!(
        compile("**1++;", 0),
        Err(Failure::Program(CompileError::NumberInsertionError))
    );
}

#[test]
fn a_program_with_more_labels_than_there_are_is_refused() {
    let mut source = String::new();
    for _ in 0..6 {
        source.push_str("loop {");
        for _ in 0..50 {
            source.push_str("loop { }");
        }
        source.push_str("}");
    }
    assert_eq!(compile(&source, 0), Err(Failure::Labels));
    let mut source = String::new();
    for _ in 0..5 {
        source.push_str("loop {");
        for _ in 0..50 {
            source.push_str("loop { }");
        }
        source.push_str("}");
    }
    assert_eq!(compile(&source, 0).unwrap().len(), 2 * 255);
    assert_eq!(text_of(&source, 0).unwrap().lines().count(), 2 + 2 * 255);
}
