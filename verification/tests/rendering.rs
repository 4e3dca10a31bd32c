use hrm_compiler::compiler::{render_program, Command, Label, LabelRef, Reference};
use hrm_compiler::lexer::lex;
use hrm_compiler::parser::parse_tokens;

fn label_numbered(n: u8) -> Label {
    let mut counter = n;
    Label::new(&mut counter)
}

fn name_of(n: u8) -> String {
    label_numbered(n).reference().to_string()
}

#[test]
fn the_first_label_is_aa() {
    assert_eq!(label_numbered(0).reference().to_string(), "aa");
    assert_eq!(label_numbered(0).to_string(), "aa:");
}

#[test]
fn label_names_count_in_sixteens() {
    assert_eq!(name_of(1), "ab");
    assert_eq!(name_of(15), "ap");
    assert_eq!(name_of(16), "ba");
    assert_eq!(name_of(17), "bb");
    assert_eq!(name_of(254), "po");
    assert_eq!(LabelRef::new(&label_numbered(100)).to_string(), "ge");
}

#[test]
fn label_names_are_two_small_letters_and_all_different() {
    let mut seen = std::collections::HashSet::new();
    for n in 0..255u8 {
        let name = name_of(n);
        assert_eq!(name.len(), 2);
        assert!(name.chars().all(|c| ('a'..='p').contains(&c)));
        let letters: Vec<char> = name.chars().collect();
        assert_eq!(letters[0] as u8, b'a' + n / 16);
        assert_eq!(letters[1] as u8, b'a' + n % 16);
        assert!(seen.insert(name));
    }
    assert_eq!(seen.len(), 255);
}

#[test]
fn an_operand_is_an_address_or_an_address_in_brackets() {
    assert_eq!(Reference::Pointer(0).render(), Some("0".to_string()));
    assert_eq!(Reference::Pointer(7).render(), Some("7".to_string()));
    assert_eq!(Reference::Pointer(10).render(), Some("10".to_string()));
    assert_eq!(Reference::Pointer(99).render(), Some("99".to_string()));
    assert_eq!(Reference::Pointer(100).render(), Some("100".to_string()));
    assert_eq!(Reference::Pointer(205).render(), Some("205".to_string()));
    assert_eq!(Reference::Pointer(255).render(), Some("255".to_string()));
    assert_eq!(
        Reference::PointerPointer(42).render(),
        Some("[42]".to_string())
    );
    assert_eq!(Reference::Number(42).render(), None);
}

#[test]
fn every_address_is_written_as_rust_writes_it() {
    for n in 0..=255u8 {
        assert_eq!(Reference::Pointer(n).render(), Some(format!("{}", n)));
        assert_eq!(
            Reference::PointerPointer(n).render(),
            Some(format!("[{}]", n))
        );
    }
}

#[test]
fn the_line_of_each_command() {
    let target = label_numbered(18).reference();
    assert_eq!(Command::Inbox.render(), Some("\tINBOX\t\n".to_string()));
    assert_eq!(Command::Outbox.render(), Some("\tOUTBOX\t\n".to_string()));
    assert_eq!(
        Command::CopyTo(Reference::Pointer(3)).render(),
        Some("\tCOPYTO\t3\n".to_string())
    );
    assert_eq!(
        Command::CopyFrom(Reference::PointerPointer(3)).render(),
        Some("\tCOPYFROM\t[3]\n".to_string())
    );
    assert_eq!(
        Command::Add(Reference::Pointer(12)).render(),
        Some("\tADD\t12\n".to_string())
    );
    assert_eq!(
        Command::Subtract(Reference::Pointer(12)).render(),
        Some("\tSUB\t12\n".to_string())
    );
    assert_eq!(
        Command::Increment(Reference::Pointer(200)).render(),
        Some("\tBUMPUP\t200\n".to_string())
    );
    assert_eq!(
        Command::Decrement(Reference::Pointer(200)).render(),
        Some("\tBUMPDN\t200\n".to_string())
    );
    assert_eq!(
        Command::Jump(target).render(),
        Some("\tJUMP\tbc\n".to_string())
    );
    assert_eq!(
        Command::JumpIfZero(target).render(),
        Some("\tJUMPZ\tbc\n".to_string())
    );
    assert_eq!(
        Command::JumpIfNegative(target).render(),
        Some("\tJUMPN\tbc\n".to_string())
    );
    assert_eq!(
        Command::Label(label_numbered(18)).render(),
        Some("bc:\n".to_string())
    );
}

#[test]
fn a_command_with_a_literal_operand_has_no_line() {
    assert_eq!(Command::CopyTo(Reference::Number(3)).render(), None);
    assert_eq!(Command::CopyFrom(Reference::Number(3)).render(), None);
    assert_eq!(Command::Add(Reference::Number(3)).render(), None);
    assert_eq!(Command::Subtract(Reference::Number(3)).render(), None);
    assert_eq!(Command::Increment(Reference::Number(3)).render(), None);
    assert_eq!(Command::Decrement(Reference::Number(3)).render(), None);
}

#[test]
fn the_text_of_the_empty_program_is_the_heading() {
    assert_eq!(
        render_program(&vec![]),
        Some("-- HUMAN RESOURCE MACHINE PROGRAM --\n\n".to_string())
    );
}

#[test]
fn the_text_of_a_program() {
    let ast = parse_tokens(lex("if (*1 == 0) { output(*2); }").unwrap()).unwrap();
    let code = ast.to_commands(0).unwrap();
    assert_eq!(
        render_program(&code),
        Some(
            "-- HUMAN RESOURCE MACHINE PROGRAM --\n\n\tCOPYFROM\t1\n\tJUMPZ\taa\n\tJUMP\tab\naa:\n\tCOPYFROM\t2\n\tOUTBOX\t\nab:\n"
                .to_string()
        )
    );
}

#[test]
fn a_program_with_a_literal_operand_has_no_text() {
    let code = vec![
        Command::Inbox,
        Command::CopyTo(Reference::Number(1)),
        Command::Outbox,
    ];
    assert_eq!(render_program(&code), None);
}
