use furukawa::dockerfile::{parse_dockerfile, shell_split, BuildError, Instruction};

#[test]
fn copy_with_one_space_is_accepted() {
    let parsed = parse_dockerfile("COPY a b").unwrap();
    assert_eq!(parsed.len(), 1);
    match &parsed[0] {
        Instruction::Copy { src, dest } => {
            assert_eq!(src, "a");
            assert_eq!(dest, "b");
        }
        other => panic!("unexpected instruction {:?}", other),
    }
}

#[test]
fn copy_without_operands_is_rejected() {
    assert_eq!(parse_dockerfile("COPY").unwrap_err(), BuildError::CopyMissingOperands);
    assert_eq!(parse_dockerfile("COPY onlyone").unwrap_err(), BuildError::CopyMissingOperands);
}

#[test]
fn expose_with_protocol_parses_port() {
    let parsed = parse_dockerfile("EXPOSE 80/tcp").unwrap();
    assert_eq!(parsed.len(), 1);
    assert!(matches!(parsed[0], Instruction::Expose(80)));
}

#[test]
fn expose_bogus_is_skipped() {
    let parsed = parse_dockerfile("FROM alpine\nEXPOSE bogus\nWORKDIR /app").unwrap();
    assert_eq!(parsed.len(), 2);
    assert!(matches!(&parsed[0], Instruction::From { image, tag } if image == "alpine" && tag == "latest"));
    assert!(matches!(&parsed[1], Instruction::Workdir(d) if d == "/app"));
}

#[test]
fn keywords_are_case_insensitive() {
    let parsed = parse_dockerfile("from ubuntu:22.04\n  # comment\n\nrun echo 'a b'  c\r\nenv A=\"x y\"\nlabel k = \"v\"").unwrap();
    assert_eq!(parsed.len(), 4);
    assert!(matches!(&parsed[0], Instruction::From { image, tag } if image == "ubuntu" && tag == "22.04"));
    assert!(matches!(&parsed[1], Instruction::Run(w) if w == &vec!["echo".to_string(), "a b".to_string(), "c".to_string()]));
    assert!(matches!(&parsed[2], Instruction::Env { key, value } if key == "A" && value == "x y"));
    assert!(matches!(&parsed[3], Instruction::Label { key, value } if key == "k" && value == "v"));
}

#[test]
fn shell_split_respects_quotes() {
    assert_eq!(shell_split("a  b\t'c d' \"e f\"g"), vec!["a", "b", "c d", "e fg"]);
    assert_eq!(shell_split(""), Vec::<String>::new());
    assert_eq!(shell_split("\"\""), Vec::<String>::new());
}
