use synacore::parse::{
    decompile, parse_16_bit_little_endian, Token, ADD, EQ, HALT, JMP, OUT, RET, SET,
};

#[test]
fn decodes_each_shape() {
    assert_eq!(Token::parse(&[SET, 1, 2]), Some(Token::SetRegister(1, 2)));
    assert_eq!(Token::parse(&[ADD, 1, 2, 3, 9]), Some(Token::Add(1, 2, 3)));
    assert_eq!(Token::parse(&[HALT]), Some(Token::Halt));
    assert_eq!(Token::parse(&[RET]), Some(Token::Ret()));
    assert_eq!(Token::parse(&[99, 1]), Some(Token::Unknown(99)));
}

#[test]
fn short_windows_do_not_decode() {
    assert_eq!(Token::parse(&[]), None);
    assert_eq!(Token::parse(&[SET, 1]), None);
    assert_eq!(Token::parse(&[EQ, 1, 2]), None);
}

#[test]
fn pc_deltas_match_encoded_lengths() {
    assert_eq!(Token::Halt.pc_delta(), 1);
    assert_eq!(Token::SetRegister(0, 0).pc_delta(), 3);
    assert_eq!(Token::Jmp(0).pc_delta(), 2);
    assert_eq!(Token::Eq(0, 0, 0).pc_delta(), 4);
    assert_eq!(Token::Ret().pc_delta(), 1);
    for op in 0..23u16 {
        let window = [op, 0, 0, 0];
        let token = Token::parse(&window).unwrap();
        let arity = match op {
            1 | 7 | 8 | 14 | 15 | 16 => 2,
            2 | 3 | 6 | 17 | 19 | 20 => 1,
            4 | 5 | 9 | 10 | 11 | 12 | 13 => 3,
            _ => 0,
        };
        assert_eq!(token.pc_delta(), arity + 1);
    }
}

#[test]
fn reads_little_endian_words() {
    assert_eq!(parse_16_bit_little_endian(&[0x01, 0x02, 0x34, 0x12]), vec![0x0201, 0x1234]);
    assert_eq!(parse_16_bit_little_endian(&[0xff, 0x01, 0x07]), vec![0x01ff, 0x0007]);
    assert_eq!(parse_16_bit_little_endian(&[]), Vec::<u16>::new());
}

#[test]
fn disassembles_a_program() {
    let program = [ADD, 32768, 32769, 4, OUT, 32768, HALT];
    assert_eq!(decompile(&program), "Add(32768, 32769, 4)\nOut(32768)\nHalt\n");
}

#[test]
fn disassembly_stops_at_a_truncated_instruction() {
    assert_eq!(decompile(&[JMP, 3, ADD, 1]), "Jmp(3)\nError: unable to parse 9 at 2");
    assert_eq!(decompile(&[]), "");
}

#[test]
fn lists_unknown_words_and_stops_at_a_truncated_set() {
    assert_eq!(decompile(&[HALT, 21, 22]), "Halt\nNoop\nUnknown(22)\n");
    assert_eq!(decompile(&[OUT, 72, SET, 32768]), "Out(72)\nError: unable to parse 1 at 2");
    assert_eq!(Token::SetRegister(32768, 61).describe(), "Set(32768, 61)\n");
    assert_eq!(Token::Ret().describe(), "Ret\n");
}

#[test]
fn describes_an_unknown_word() {
    assert_eq!(Token::Unknown(300).describe(), "Unknown(300)\n");
}
