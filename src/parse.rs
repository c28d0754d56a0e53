use vstd::prelude::*;
use vstd::string::StringExecFns;

use crate::text::{decimal, push_decimal};

verus! {

pub const HALT: u16 = 0;
pub const SET: u16 = 1;
pub const PUSH: u16 = 2;
pub const POP: u16 = 3;
pub const EQ: u16 = 4;
pub const GT: u16 = 5;
pub const JMP: u16 = 6;
pub const JT: u16 = 7;
pub const JF: u16 = 8;
pub const ADD: u16 = 9;
pub const MULT: u16 = 10;
pub const MOD: u16 = 11;
pub const AND: u16 = 12;
pub const OR: u16 = 13;
pub const NOT: u16 = 14;
pub const RMEM: u16 = 15;
pub const WMEM: u16 = 16;
pub const CALL: u16 = 17;
pub const RET: u16 = 18;
pub const OUT: u16 = 19;
pub const IN: u16 = 20;
pub const NOOP: u16 = 21;

/// One decoded instruction with its raw operand words.
#[derive(Clone, Copy, Debug, PartialEq, Eq, Structural)]
pub enum Token {
    /// halt: stop execution.
    Halt,
    /// set a b: register `a` gets the value of `b`.
    SetRegister(u16, u16),
    /// push a: push the value of `a`.
    Push(u16),
    /// pop a: pop the top of the stack into `a`; an empty stack is an error.
    Pop(u16),
    /// eq a b c: `a` gets 1 if `b` equals `c`, else 0.
    Eq(u16, u16, u16),
    /// gt a b c: `a` gets 1 if `b` is greater than `c`, else 0.
    Gt(u16, u16, u16),
    /// jmp a: jump to `a`.
    Jmp(u16),
    /// jt a b: jump to `b` if `a` is nonzero.
    Jt(u16, u16),
    /// jf a b: jump to `b` if `a` is zero.
    Jf(u16, u16),
    /// add a b c: `a` gets `b + c` modulo 32768.
    Add(u16, u16, u16),
    /// mult a b c: `a` gets `b * c` modulo 32768.
    Mult(u16, u16, u16),
    /// mod a b c: `a` gets the remainder of `b` divided by `c`.
    Mod(u16, u16, u16),
    /// and a b c: `a` gets the bitwise and of `b` and `c`.
    And(u16, u16, u16),
    /// or a b c: `a` gets the bitwise or of `b` and `c`.
    Or(u16, u16, u16),
    /// not a b: `a` gets the 15-bit bitwise inverse of `b`.
    Not(u16, u16),
    /// rmem a b: `a` gets the memory word at address `b`.
    Rmem(u16, u16),
    /// wmem a b: the memory word at address `a` gets the value of `b`.
    Wmem(u16, u16),
    /// call a: push the address of the next instruction and jump to `a`.
    Call(u16),
    /// ret: pop an address and jump to it; an empty stack halts.
    Ret(),
    /// out a: write the character with code `a`.
    Out(u16),
    /// in a: read one character of input into `a`.
    In(u16),
    /// noop: do nothing.
    Noop,
    /// A word that is no opcode; executing it is an error.
    Unknown(u16),
}

/// Number of operand words that follow the given opcode.
pub open spec fn arity(op: u16) -> nat {
    if op == SET || op == JT || op == JF || op == NOT || op == RMEM || op == WMEM {
        2
    } else if op == PUSH || op == POP || op == JMP || op == CALL || op == OUT || op == IN {
        1
    } else if op == EQ || op == GT || op == ADD || op == MULT || op == MOD || op == AND || op == OR {
        3
    } else {
        0
    }
}

/// The instruction at the start of `w`, or `None` when `w` is empty or too
/// short for the operands that its opcode takes.
pub open spec fn decode(w: Seq<u16>) -> Option<Token> {
    if w.len() == 0 || w.len() < arity(w[0]) + 1 {
        None
    } else {
        let op = w[0];
        Some(
            if op == HALT { Token::Halt }
            else if op == SET { Token::SetRegister(w[1], w[2]) }
            else if op == PUSH { Token::Push(w[1]) }
            else if op == POP { Token::Pop(w[1]) }
            else if op == EQ { Token::Eq(w[1], w[2], w[3]) }
            else if op == GT { Token::Gt(w[1], w[2], w[3]) }
            else if op == JMP { Token::Jmp(w[1]) }
            else if op == JT { Token::Jt(w[1], w[2]) }
            else if op == JF { Token::Jf(w[1], w[2]) }
            else if op == ADD { Token::Add(w[1], w[2], w[3]) }
            else if op == MULT { Token::Mult(w[1], w[2], w[3]) }
            else if op == MOD { Token::Mod(w[1], w[2], w[3]) }
            else if op == AND { Token::And(w[1], w[2], w[3]) }
            else if op == OR { Token::Or(w[1], w[2], w[3]) }
            else if op == NOT { Token::Not(w[1], w[2]) }
            else if op == RMEM { Token::Rmem(w[1], w[2]) }
            else if op == WMEM { Token::Wmem(w[1], w[2]) }
            else if op == CALL { Token::Call(w[1]) }
            else if op == RET { Token::Ret() }
            else if op == OUT { Token::Out(w[1]) }
            else if op == IN { Token::In(w[1]) }
            else if op == NOOP { Token::Noop }
            else { Token::Unknown(op) }
        )
    }
}

impl Token {
    /// Length in words of the encoded instruction.
    pub open spec fn spec_pc_delta(self) -> nat {
        match self {
            Token::Halt | Token::Ret() | Token::Noop | Token::Unknown(_) => 1,
            Token::Push(_) | Token::Pop(_) | Token::Jmp(_) | Token::Call(_)
            | Token::Out(_) | Token::In(_) => 2,
            Token::SetRegister(_, _) | Token::Jt(_, _) | Token::Jf(_, _) | Token::Not(_, _)
            | Token::Rmem(_, _) | Token::Wmem(_, _) => 3,
            Token::Eq(_, _, _) | Token::Gt(_, _, _) | Token::Add(_, _, _)
            | Token::Mult(_, _, _) | Token::Mod(_, _, _) | Token::And(_, _, _)
            | Token::Or(_, _, _) => 4,
        }
    }

    /// Decodes the instruction at the start of `input`.
    pub fn parse(input: &[u16]) -> (r: Option<Self>)
        ensures
            r == decode(input@),
    {
        if input.len() == 0 {
            return None;
        }
        let op = input[0];
        let n = input.len();
        if op == HALT {
            Some(Self::Halt)
        } else if op == SET {
            if n < 3 { None } else { Some(Self::SetRegister(input[1], input[2])) }
        } else if op == PUSH {
            if n < 2 { None } else { Some(Self::Push(input[1])) }
        } else if op == POP {
            if n < 2 { None } else { Some(Self::Pop(input[1])) }
        } else if op == EQ {
            if n < 4 { None } else { Some(Self::Eq(input[1], input[2], input[3])) }
        } else if op == GT {
            if n < 4 { None } else { Some(Self::Gt(input[1], input[2], input[3])) }
        } else if op == JMP {
            if n < 2 { None } else { Some(Self::Jmp(input[1])) }
        } else if op == JT {
            if n < 3 { None } else { Some(Self::Jt(input[1], input[2])) }
        } else if op == JF {
            if n < 3 { None } else { Some(Self::Jf(input[1], input[2])) }
        } else if op == ADD {
            if n < 4 { None } else { Some(Self::Add(input[1], input[2], input[3])) }
        } else if op == MULT {
            if n < 4 { None } else { Some(Self::Mult(input[1], input[2], input[3])) }
        } else if op == MOD {
            if n < 4 { None } else { Some(Self::Mod(input[1], input[2], input[3])) }
        } else if op == AND {
            if n < 4 { None } else { Some(Self::And(input[1], input[2], input[3])) }
        } else if op == OR {
            if n < 4 { None } else { Some(Self::Or(input[1], input[2], input[3])) }
        } else if op == NOT {
            if n < 3 { None } else { Some(Self::Not(input[1], input[2])) }
        } else if op == RMEM {
            if n < 3 { None } else { Some(Self::Rmem(input[1], input[2])) }
        } else if op == WMEM {
            if n < 3 { None } else { Some(Self::Wmem(input[1], input[2])) }
        } else if op == CALL {
            if n < 2 { None } else { Some(Self::Call(input[1])) }
        } else if op == RET {
            Some(Self::Ret())
        } else if op == OUT {
            if n < 2 { None } else { Some(Self::Out(input[1])) }
        } else if op == IN {
            if n < 2 { None } else { Some(Self::In(input[1])) }
        } else if op == NOOP {
            Some(Self::Noop)
        } else {
            Some(Self::Unknown(op))
        }
    }

    /// Number of words to advance the program counter by to move past this
    /// instruction.
    pub fn pc_delta(&self) -> (r: usize)
        ensures
            r == self.spec_pc_delta(),
    {
        match *self {
            Self::Halt => 1,
            Self::SetRegister(_, _) => 3,
            Self::Push(_) => 2,
            Self::Pop(_) => 2,
            Self::Eq(_, _, _) => 4,
            Self::Gt(_, _, _) => 4,
            Self::Jmp(_) => 2,
            Self::Jt(_, _) => 3,
            Self::Jf(_, _) => 3,
            Self::Add(_, _, _) => 4,
            Self::Mult(_, _, _) => 4,
            Self::Mod(_, _, _) => 4,
            Self::And(_, _, _) => 4,
            Self::Or(_, _, _) => 4,
            Self::Not(_, _) => 3,
            Self::Rmem(_, _) => 3,
            Self::Wmem(_, _) => 3,
            Self::Call(_) => 2,
            Self::Ret() => 1,
            Self::Out(_) => 2,
            Self::In(_) => 2,
            Self::Noop => 1,
            Self::Unknown(_) => 1,
        }
    }
}

/// The words of a program image: each pair of bytes, low byte first, makes
/// one word; an odd final byte makes a word of its own, with a zero high byte.
pub open spec fn words_le(bytes: Seq<u8>) -> Seq<u16> {
    Seq::new(
        ((bytes.len() + 1) / 2) as nat,
        |i: int|
            (bytes[2 * i] + 256 * (if 2 * i + 1 < bytes.len() { bytes[2 * i + 1] as int } else { 0 })) as u16,
    )
}

/// Reads a program image into words, low byte first; an odd final byte is
/// taken as the low byte of a last word whose high byte is zero.
pub fn parse_16_bit_little_endian(input: &[u8]) -> (r: Vec<u16>)
    ensures
        r@ == words_le(input@),
{
    let mut words: Vec<u16> = Vec::new();
    let n = input.len();
    let pairs = n / 2;
    let mut k: usize = 0;
    while k < pairs
        invariant
            n == input@.len(),
            pairs == n / 2,
            k <= pairs,
            words@.len() == k,
            forall|j: int| 0 <= j < k ==> words@[j] == #[trigger] words_le(input@)[j],
        decreases pairs - k,
    {
        assert(2 * k + 1 < n) by (nonlinear_arith)
            requires k < pairs, pairs == n / 2;
        let low = input[2 * k] as u16;
        let high = input[2 * k + 1] as u16;
        words.push(low + high * 256);
        k = k + 1;
    }
    if input.len() % 2 == 1 {
        words.push(input[input.len() - 1] as u16);
    }
    assert(words@ =~= words_le(input@));
    words
}

/// The name of an instruction's kind.
pub open spec fn mnemonic(t: Token) -> Seq<char> {
    match t {
        Token::Halt => "Halt"@,
        Token::SetRegister(_, _) => "Set"@,
        Token::Push(_) => "Push"@,
        Token::Pop(_) => "Pop"@,
        Token::Eq(_, _, _) => "Eq"@,
        Token::Gt(_, _, _) => "Gt"@,
        Token::Jmp(_) => "Jmp"@,
        Token::Jt(_, _) => "Jt"@,
        Token::Jf(_, _) => "Jf"@,
        Token::Add(_, _, _) => "Add"@,
        Token::Mult(_, _, _) => "Mult"@,
        Token::Mod(_, _, _) => "Mod"@,
        Token::And(_, _, _) => "And"@,
        Token::Or(_, _, _) => "Or"@,
        Token::Not(_, _) => "Not"@,
        Token::Rmem(_, _) => "Rmem"@,
        Token::Wmem(_, _) => "Wmem"@,
        Token::Call(_) => "Call"@,
        Token::Ret() => "Ret"@,
        Token::Out(_) => "Out"@,
        Token::In(_) => "In"@,
        Token::Noop => "Noop"@,
        Token::Unknown(_) => "Unknown"@,
    }
}

/// The operand words of an instruction, in order; the raw word for an
/// unknown one.
pub open spec fn operands(t: Token) -> Seq<u16> {
    match t {
        Token::Halt | Token::Ret() | Token::Noop => seq![],
        Token::Push(a) | Token::Pop(a) | Token::Jmp(a) | Token::Call(a) | Token::Out(a)
        | Token::In(a) | Token::Unknown(a) => seq![a],
        Token::SetRegister(a, b) | Token::Jt(a, b) | Token::Jf(a, b) | Token::Not(a, b)
        | Token::Rmem(a, b) | Token::Wmem(a, b) => seq![a, b],
        Token::Eq(a, b, c) | Token::Gt(a, b, c) | Token::Add(a, b, c) | Token::Mult(a, b, c)
        | Token::Mod(a, b, c) | Token::And(a, b, c) | Token::Or(a, b, c) => seq![a, b, c],
    }
}

/// The words of `ops` in decimal, separated by a comma and a space.
pub open spec fn operand_text(ops: Seq<u16>) -> Seq<char>
    decreases ops.len(),
{
    if ops.len() == 0 {
        Seq::empty()
    } else if ops.len() == 1 {
        decimal(ops[0] as nat)
    } else {
        operand_text(ops.drop_last()) + ", "@ + decimal(ops.last() as nat)
    }
}

/// One line of the disassembly: the instruction's name, then its operands
/// in parentheses where it has any.
pub open spec fn describe(t: Token) -> Seq<char> {
    if operands(t).len() == 0 {
        mnemonic(t) + seq!['\n']
    } else {
        mnemonic(t) + seq!['('] + operand_text(operands(t)) + seq![')', '\n']
    }
}

/// The line that ends a disassembly at a word that does not decode.
pub open spec fn decode_failure(word: u16, pc: nat) -> Seq<char> {
    "Error: unable to parse "@ + decimal(word as nat) + " at "@ + decimal(pc)
}

/// The disassembly of `program` from address `pc` to its end.
pub open spec fn disassembly(program: Seq<u16>, pc: nat) -> Seq<char>
    decreases program.len() - pc,
{
    if pc >= program.len() {
        Seq::empty()
    } else {
        match decode(program.subrange(pc as int, program.len() as int)) {
            Some(t) => describe(t) + disassembly(program, pc + t.spec_pc_delta()),
            None => decode_failure(program[pc as int], pc),
        }
    }
}

/// A decoded instruction is exactly as long as its opcode's operands say,
/// and lies within the words it was decoded from.
pub proof fn lemma_pc_delta_is_encoded_length(w: Seq<u16>)
    requires
        decode(w) is Some,
    ensures
        decode(w)->0.spec_pc_delta() == arity(w[0]) + 1,
        decode(w)->0.spec_pc_delta() <= w.len(),
{
}

impl Token {
    /// The name of this instruction's kind.
    fn mnemonic(&self) -> (r: &'static str)
        ensures
            r@ == mnemonic(*self),
    {
        match *self {
            Self::Halt => "Halt",
            Self::SetRegister(_, _) => "Set",
            Self::Push(_) => "Push",
            Self::Pop(_) => "Pop",
            Self::Eq(_, _, _) => "Eq",
            Self::Gt(_, _, _) => "Gt",
            Self::Jmp(_) => "Jmp",
            Self::Jt(_, _) => "Jt",
            Self::Jf(_, _) => "Jf",
            Self::Add(_, _, _) => "Add",
            Self::Mult(_, _, _) => "Mult",
            Self::Mod(_, _, _) => "Mod",
            Self::And(_, _, _) => "And",
            Self::Or(_, _, _) => "Or",
            Self::Not(_, _) => "Not",
            Self::Rmem(_, _) => "Rmem",
            Self::Wmem(_, _) => "Wmem",
            Self::Call(_) => "Call",
            Self::Ret() => "Ret",
            Self::Out(_) => "Out",
            Self::In(_) => "In",
            Self::Noop => "Noop",
            Self::Unknown(_) => "Unknown",
        }
    }

    /// The operand words of this instruction.
    fn operands(&self) -> (r: Vec<u16>)
        ensures
            r@ == operands(*self),
    {
        let r = match *self {
            Self::Halt | Self::Ret() | Self::Noop => vec![],
            Self::Push(a) | Self::Pop(a) | Self::Jmp(a) | Self::Call(a) | Self::Out(a)
            | Self::In(a) | Self::Unknown(a) => vec![a],
            Self::SetRegister(a, b) | Self::Jt(a, b) | Self::Jf(a, b) | Self::Not(a, b)
            | Self::Rmem(a, b) | Self::Wmem(a, b) => vec![a, b],
            Self::Eq(a, b, c) | Self::Gt(a, b, c) | Self::Add(a, b, c) | Self::Mult(a, b, c)
            | Self::Mod(a, b, c) | Self::And(a, b, c) | Self::Or(a, b, c) => vec![a, b, c],
        };
        assert(r@ =~= operands(*self));
        r
    }

    /// One line of disassembly for this instruction, newline included.
    pub fn describe(&self) -> (r: String)
        ensures
            r@ == describe(*self),
    {
        let mut line = String::from_str(self.mnemonic());
        let ops = self.operands();
        if ops.len() > 0 {
            line.append("(");
            let ghost head = line@;
            let mut i: usize = 0;
            while i < ops.len()
                invariant
                    i <= ops@.len(),
                    ops@ == operands(*self),
                    line@ == head + operand_text(ops@.subrange(0, i as int)),
                decreases ops@.len() - i,
            {
                if i > 0 {
                    line.append(", ");
                }
                push_decimal(&mut line, ops[i] as u64);
                proof {
                    reveal_strlit(", ");
                    let next = ops@.subrange(0, i + 1);
                    assert(next.drop_last() =~= ops@.subrange(0, i as int));
                    if i == 0 {
                        assert(operand_text(ops@.subrange(0, i as int)) =~= Seq::<char>::empty());
                    }
                }
                i = i + 1;
                assert(line@ =~= head + operand_text(ops@.subrange(0, i as int)));
            }
            assert(ops@.subrange(0, i as int) =~= ops@);
            line.append(")\n");
            proof {
                reveal_strlit("(");
                reveal_strlit(")\n");
            }
        } else {
            line.append("\n");
            proof {
                reveal_strlit("\n");
            }
        }
        assert(line@ =~= describe(*self));
        line
    }
}

/// A listing of `program`: one line per instruction from address 0 to the
/// end, stopping with a diagnostic line at a word that does not decode.
pub fn decompile(program: &[u16]) -> (r: String)
    ensures
        r@ == disassembly(program@, 0),
{
    let mut output = String::new();
    let mut pc: usize = 0;
    while pc < program.len()
        invariant
            pc <= program@.len(),
            output@ + disassembly(program@, pc as nat) == disassembly(program@, 0),
        decreases program@.len() - pc,
    {
        let window = vstd::slice::slice_subrange(program, pc, program.len());
        match Token::parse(window) {
            Some(token) => {
                proof {
                    lemma_pc_delta_is_encoded_length(window@);
                }
                let line = token.describe();
                output.append(line.as_str());
                assert(output@ + disassembly(program@, (pc + token.spec_pc_delta()) as nat)
                    =~= disassembly(program@, 0));
                pc = pc + token.pc_delta();
            },
            None => {
                let mut line = String::from_str("Error: unable to parse ");
                push_decimal(&mut line, program[pc] as u64);
                line.append(" at ");
                push_decimal(&mut line, pc as u64);
                output.append(line.as_str());
                assert(output@ =~= disassembly(program@, 0));
                return output;
            },
        }
    }
    assert(output@ =~= disassembly(program@, 0));
    output
}

} // verus!
