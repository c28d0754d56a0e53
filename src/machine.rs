use std::collections::VecDeque;
use vstd::prelude::*;
use vstd::string::StringExecFns;

use crate::parse::{decode, Token};
use crate::text::{decimal, is_scalar_value, push_decimal};

verus! {

/// Exclusive upper bound of a word's value; arithmetic is taken modulo it.
pub const U15_MAX: u16 = 32768;
/// Address of the first register: registers sit just above general memory.
pub const REGISTER_OFFSET: u16 = 32768;
/// Number of registers.
pub const NUM_REGISTERS: u16 = 8;
/// Number of memory cells, registers included.
pub const MEMORY_SIZE: usize = 32776;

/// What a step of the machine reports to its driver.
#[derive(Debug, PartialEq, Eq)]
pub enum RunState {
    /// Mid-execution: step again.
    Continue,
    /// Text that consecutive `out` instructions produced, ready for display.
    BufferedOutput(String),
    /// Blocked on an `in` instruction until input is supplied.
    InputNeeded,
    /// Terminated abnormally, with a diagnostic.
    Error(String),
    /// Terminated normally.
    Halt,
}

impl RunState {
    /// The diagnostic of an `Error`; empty for the other states.
    pub open spec fn message(&self) -> Seq<char> {
        match self {
            RunState::Error(m) => m@,
            _ => Seq::empty(),
        }
    }
}

/// The abstract phase of the machine: a `RunState` without its diagnostic.
pub enum Phase {
    /// Mid-execution.
    Continue,
    /// Output handed over to the driver.
    BufferedOutput(Seq<char>),
    /// Waiting for input.
    InputNeeded,
    /// Terminated by a fault.
    Error,
    /// Terminated normally.
    Halt,
}

impl View for RunState {
    type V = Phase;

    open spec fn view(&self) -> Phase {
        match self {
            RunState::Continue => Phase::Continue,
            RunState::BufferedOutput(s) => Phase::BufferedOutput(s@),
            RunState::InputNeeded => Phase::InputNeeded,
            RunState::Error(_) => Phase::Error,
            RunState::Halt => Phase::Halt,
        }
    }
}

/// The abstract state of a machine: its phase, program counter, stack,
/// memory (registers included), pending input and pending output.
pub struct MachineView {
    pub phase: Phase,
    pub pc: nat,
    pub stack: Seq<u16>,
    pub memory: Seq<u16>,
    pub input: Seq<char>,
    pub output: Seq<char>,
}

/// Whether `addr` is the address of a register.
pub open spec fn is_register(addr: u16) -> bool {
    REGISTER_OFFSET <= addr && addr < REGISTER_OFFSET + NUM_REGISTERS
}

/// The value of an operand: a literal below 32768 stands for itself, any
/// other word for the memory cell it addresses, if there is one.
pub open spec fn resolve(memory: Seq<u16>, arg: u16) -> Option<u16> {
    if arg < REGISTER_OFFSET {
        Some(arg)
    } else if (arg as int) < memory.len() {
        Some(memory[arg as int])
    } else {
        None
    }
}

/// The words of memory from address `pc` on.
pub open spec fn window(memory: Seq<u16>, pc: nat) -> Seq<u16> {
    if pc <= memory.len() {
        memory.subrange(pc as int, memory.len() as int)
    } else {
        Seq::empty()
    }
}

/// The character with code `x`, if `x` is a scalar value.
pub open spec fn char_of(x: u16) -> Option<char> {
    if is_scalar_value(x as u32) {
        Some((x as u32) as char)
    } else {
        None
    }
}

/// The word that the `in` instruction stores for a character: its code,
/// truncated to 16 bits.
pub open spec fn char_code(c: char) -> u16 {
    (c as u32 % 65536) as u16
}

/// The result of a two-operand computing instruction on operand values `x`
/// and `y`; `None` for a division by zero.
pub open spec fn combine(t: Token, x: u16, y: u16) -> Option<u16> {
    match t {
        Token::Eq(_, _, _) => Some(if x == y { 1u16 } else { 0u16 }),
        Token::Gt(_, _, _) => Some(if x > y { 1u16 } else { 0u16 }),
        Token::Add(_, _, _) => Some(((x + y) % 32768) as u16),
        Token::Mult(_, _, _) => Some(((x * y) % 32768) as u16),
        Token::Mod(_, _, _) => if y == 0 { None } else { Some((x % y) as u16) },
        Token::And(_, _, _) => Some(((x & y) % 32768) as u16),
        Token::Or(_, _, _) => Some(((x | y) % 32768) as u16),
        _ => None,
    }
}

/// The 15-bit bitwise inverse as the `not` instruction computes it.
pub open spec fn invert(x: u16) -> u16 {
    ((!x) % 32768) as u16
}

/// The state after `n` steps from `s`.
pub open spec fn steps(s: MachineView, n: nat) -> MachineView
    decreases n,
{
    if n == 0 {
        s
    } else {
        step(steps(s, (n - 1) as nat))
    }
}

impl MachineView {
    /// The same state, terminated by a fault.
    pub open spec fn fault(self) -> MachineView {
        MachineView { phase: Phase::Error, ..self }
    }

    /// The same state with the program counter moved past `t`.
    pub open spec fn advance(self, t: Token) -> MachineView {
        MachineView { pc: self.pc + t.spec_pc_delta(), ..self }
    }

    /// Writes `v` to address `dst` and moves past `t`; a fault where `dst`
    /// lies outside memory.
    pub open spec fn store(self, dst: u16, v: u16, t: Token) -> MachineView {
        if (dst as int) < self.memory.len() {
            MachineView { memory: self.memory.update(dst as int, v), ..self }.advance(t)
        } else {
            self.fault()
        }
    }

    /// The eight registers, in order.
    pub open spec fn registers(self) -> Seq<u16> {
        self.memory.subrange(REGISTER_OFFSET as int, MEMORY_SIZE as int)
    }
}

/// Executes a computing instruction `t` with destination `d` and operands
/// `a` and `b`.
pub open spec fn execute_binary(s: MachineView, t: Token, d: u16, a: u16, b: u16) -> MachineView {
    match (resolve(s.memory, a), resolve(s.memory, b)) {
        (Some(x), Some(y)) => match combine(t, x, y) {
            Some(v) => s.store(d, v, t),
            None => s.fault(),
        },
        _ => s.fault(),
    }
}

/// Executes a conditional jump to `a`, taken when the value of `c` is zero
/// exactly if `on_zero` holds.
pub open spec fn execute_branch(s: MachineView, t: Token, c: u16, a: u16, on_zero: bool) -> MachineView {
    match resolve(s.memory, c) {
        None => s.fault(),
        Some(x) => if (x == 0) == on_zero {
            match resolve(s.memory, a) {
                Some(y) => MachineView { pc: y as nat, ..s },
                None => s.fault(),
            }
        } else {
            s.advance(t)
        },
    }
}

/// The effect of executing instruction `t` in state `s`.
pub open spec fn execute(s: MachineView, t: Token) -> MachineView {
    match t {
        Token::Halt => MachineView { phase: Phase::Halt, ..s },
        Token::SetRegister(r, v) => if is_register(r) {
            match resolve(s.memory, v) {
                Some(x) => s.store(r, x, t),
                None => s.fault(),
            }
        } else {
            s.fault()
        },
        Token::Push(v) => match resolve(s.memory, v) {
            Some(x) => MachineView { stack: s.stack.push(x), ..s }.advance(t),
            None => s.fault(),
        },
        Token::Pop(d) => if s.stack.len() == 0 || (d as int) >= s.memory.len() {
            s.fault()
        } else {
            MachineView { stack: s.stack.drop_last(), ..s }.store(d, s.stack.last(), t)
        },
        Token::Eq(d, a, b) => execute_binary(s, t, d, a, b),
        Token::Gt(d, a, b) => execute_binary(s, t, d, a, b),
        Token::Jmp(a) => match resolve(s.memory, a) {
            Some(x) => MachineView { pc: x as nat, ..s },
            None => s.fault(),
        },
        Token::Jt(c, a) => execute_branch(s, t, c, a, false),
        Token::Jf(c, a) => execute_branch(s, t, c, a, true),
        Token::Add(d, a, b) => execute_binary(s, t, d, a, b),
        Token::Mult(d, a, b) => execute_binary(s, t, d, a, b),
        Token::Mod(d, a, b) => execute_binary(s, t, d, a, b),
        Token::And(d, a, b) => execute_binary(s, t, d, a, b),
        Token::Or(d, a, b) => execute_binary(s, t, d, a, b),
        Token::Not(d, v) => match resolve(s.memory, v) {
            Some(x) => s.store(d, invert(x), t),
            None => s.fault(),
        },
        Token::Rmem(d, a) => match resolve(s.memory, a) {
            Some(x) => if (x as int) < s.memory.len() {
                s.store(d, s.memory[x as int], t)
            } else {
                s.fault()
            },
            None => s.fault(),
        },
        Token::Wmem(a, v) => match (resolve(s.memory, a), resolve(s.memory, v)) {
            (Some(x), Some(y)) => s.store(x, y, t),
            _ => s.fault(),
        },
        Token::Call(a) => match resolve(s.memory, a) {
            Some(x) => MachineView {
                stack: s.stack.push((s.pc + t.spec_pc_delta()) as u16),
                pc: x as nat,
                ..s
            },
            None => s.fault(),
        },
        Token::Ret() => if s.stack.len() == 0 {
            MachineView { phase: Phase::Halt, ..s }
        } else {
            MachineView { stack: s.stack.drop_last(), pc: s.stack.last() as nat, ..s }
        },
        Token::Out(v) => match resolve(s.memory, v) {
            Some(x) => match char_of(x) {
                Some(c) => MachineView { output: s.output.push(c), ..s }.advance(t),
                None => s.fault(),
            },
            None => s.fault(),
        },
        Token::In(d) => if s.input.len() == 0 {
            MachineView { phase: Phase::InputNeeded, ..s }
        } else if (d as int) >= s.memory.len() {
            s.fault()
        } else {
            MachineView { input: s.input.drop_first(), ..s }.store(d, char_code(s.input[0]), t)
        },
        Token::Noop => s.advance(t),
        Token::Unknown(_) => s.fault(),
    }
}

/// One step of the machine: terminal phases absorb, a machine waiting for
/// input waits until there is some, pending output is handed over before any
/// instruction other than `out` runs, and otherwise the instruction at the
/// program counter is executed.
pub open spec fn step(s: MachineView) -> MachineView {
    match s.phase {
        Phase::Halt | Phase::Error => s,
        Phase::InputNeeded if s.input.len() == 0 => s,
        _ => {
            let s1 = MachineView { phase: Phase::Continue, ..s };
            match decode(window(s.memory, s.pc)) {
                None => s1.fault(),
                Some(t) => if !(t is Out) && s.output.len() > 0 {
                    MachineView { phase: Phase::BufferedOutput(s.output), output: Seq::empty(), ..s1 }
                } else {
                    execute(s1, t)
                },
            }
        },
    }
}

/// The virtual machine: memory with the registers at its top, the stack,
/// the program counter, and the console buffers it shares with its driver.
pub struct Machine {
    run_state: RunState,
    pc: usize,
    stack: Vec<u16>,
    memory: Vec<u16>,
    input_buffer: VecDeque<char>,
    output_buffer: Vec<char>,
}

impl View for Machine {
    type V = MachineView;

    closed spec fn view(&self) -> MachineView {
        MachineView {
            phase: self.run_state@,
            pc: self.pc as nat,
            stack: self.stack@,
            memory: self.memory@,
            input: self.input_buffer@,
            output: self.output_buffer@,
        }
    }
}

/// The state of a machine freshly loaded with `program`: the program at the
/// low addresses, zeros above it up to and including the registers.
pub open spec fn initial(program: Seq<u16>) -> MachineView {
    MachineView {
        phase: Phase::Continue,
        pc: 0,
        stack: Seq::empty(),
        memory: program + Seq::new((MEMORY_SIZE - program.len()) as nat, |i: int| 0u16),
        input: Seq::empty(),
        output: Seq::empty(),
    }
}

/// Whether a step from `s` fails to decode an instruction: the machine is
/// not stopped or waiting, and the words at the program counter do not form
/// one.
pub open spec fn fails_to_decode(s: MachineView) -> bool {
    &&& !(s.phase is Halt)
    &&& !(s.phase is Error)
    &&& !(s.phase is InputNeeded && s.input.len() == 0)
    &&& decode(window(s.memory, s.pc)) is None
}

/// The diagnostic for words at `pc` that do not form an instruction: the
/// position, and the word found there if there is one.
pub open spec fn undecodable_message(memory: Seq<u16>, pc: nat) -> Seq<char> {
    "could not parse instruction at "@ + decimal(pc) + if pc < memory.len() {
        ": "@ + decimal(memory[pc as int] as nat)
    } else {
        Seq::empty()
    }
}

impl Machine {
    /// The diagnostic of a machine stopped by a fault; empty otherwise.
    pub closed spec fn error_message(&self) -> Seq<char> {
        self.run_state.message()
    }

    /// Memory keeps its fixed size.
    pub open spec fn wf(&self) -> bool {
        self@.memory.len() == MEMORY_SIZE
    }

    /// A machine loaded with `program`, ready to run from address 0.
    pub fn new(program: Vec<u16>) -> (r: Self)
        requires
            program@.len() <= MEMORY_SIZE,
        ensures
            r.wf(),
            r@ == initial(program@),
    {
        let mut memory = program.clone();
        while memory.len() < MEMORY_SIZE
            invariant
                program@.len() <= memory@.len() <= MEMORY_SIZE,
                memory@ == program@ + Seq::new((memory@.len() - program@.len()) as nat, |i: int| 0u16),
            decreases MEMORY_SIZE - memory@.len(),
        {
            memory.push(0);
            assert(memory@ =~= program@ + Seq::new((memory@.len() - program@.len()) as nat, |i: int| 0u16));
        }
        let r = Self {
            run_state: RunState::Continue,
            pc: 0,
            stack: Vec::new(),
            memory,
            input_buffer: VecDeque::with_capacity(256),
            output_buffer: Vec::with_capacity(512),
        };
        assert(r@.memory =~= initial(program@).memory);
        r
    }

    /// Steps until the machine reports anything but `Continue`, and reports
    /// that state. After `u64::MAX` steps that all reported `Continue` it
    /// gives up and reports `Continue`.
    pub fn run(&mut self) -> (r: &RunState)
        requires
            old(self).wf(),
        ensures
            final(self).wf(),
            r@ == final(self)@.phase,
            r.message() == final(self).error_message(),
            exists|n: nat|
                1 <= n <= u64::MAX && final(self)@ == steps(old(self)@, n) && (forall|k: nat|
                    1 <= k < n ==> (#[trigger] steps(old(self)@, k)).phase is Continue) && (
                final(self)@.phase is Continue ==> n == u64::MAX),
    {
        let mut count: u64 = 0;
        loop
            invariant_except_break
                count >= 1 ==> self@.phase is Continue,
            invariant
                self.wf(),
                self@ == steps(old(self)@, count as nat),
                forall|k: nat| 1 <= k < count ==> (#[trigger] steps(old(self)@, k)).phase is Continue,
            ensures
                1 <= count,
                self@.phase is Continue ==> count == u64::MAX,
            decreases u64::MAX - count,
        {
            if count == u64::MAX {
                break;
            }
            let state = self.run_once();
            count = count + 1;
            if !matches!(state, RunState::Continue) {
                break;
            }
        }
        &self.run_state
    }

    /// Performs one step: see `step` for what it does.
    pub fn run_once(&mut self) -> (r: &RunState)
        requires
            old(self).wf(),
        ensures
            final(self).wf(),
            final(self)@ == step(old(self)@),
            r@ == final(self)@.phase,
            r.message() == final(self).error_message(),
            old(self)@.phase is Halt || old(self)@.phase is Error ==> final(self).error_message()
                == old(self).error_message(),
            fails_to_decode(old(self)@) ==> final(self).error_message() == undecodable_message(
                old(self)@.memory,
                old(self)@.pc,
            ),
    {
        match &self.run_state {
            RunState::Halt | RunState::Error(_) => {
                return &self.run_state;
            },
            RunState::InputNeeded => {
                if self.input_buffer.len() == 0 {
                    return &self.run_state;
                }
                self.run_state = RunState::Continue;
            },
            RunState::BufferedOutput(_) => {
                self.run_state = RunState::Continue;
            },
            RunState::Continue => {},
        }
        let decoded = if self.pc <= self.memory.len() {
            Token::parse(vstd::slice::slice_subrange(self.memory.as_slice(), self.pc, self.memory.len()))
        } else {
            None
        };
        match decoded {
            None => {
                let mut message = String::from_str("could not parse instruction at ");
                push_decimal(&mut message, self.pc as u64);
                if self.pc < self.memory.len() {
                    message.append(": ");
                    push_decimal(&mut message, self.memory[self.pc] as u64);
                }
                proof {
                    reveal_strlit(": ");
                }
                assert(message@ =~= undecodable_message(self@.memory, self@.pc));
                self.run_state = RunState::Error(message);
            },
            Some(token) => {
                if !matches!(token, Token::Out(_)) && self.output_buffer.len() > 0 {
                    let text = self.flush_output_buffer();
                    self.run_state = RunState::BufferedOutput(text);
                    return &self.run_state;
                }
                match self.process_token(token) {
                    Ok(()) => {},
                    Err(e) => {
                        let mut message = e;
                        message.append(" at ");
                        push_decimal(&mut message, self.pc as u64);
                        self.run_state = RunState::Error(message);
                    },
                }
            },
        }
        &self.run_state
    }

    /// Appends the characters of `input` to the queue that `in` reads from.
    pub fn push_input(&mut self, input: &str)
        ensures
            final(self)@ == (MachineView { input: old(self)@.input + input@, ..old(self)@ }),
            final(self).error_message() == old(self).error_message(),
    {
        let n = input.unicode_len();
        let mut i: usize = 0;
        while i < n
            invariant
                n == input@.len(),
                i <= n,
                self@ == (MachineView { input: old(self)@.input + input@.subrange(0, i as int), ..old(self)@ }),
                self.run_state == old(self).run_state,
            decreases n - i,
        {
            self.input_buffer.push_back(input.get_char(i));
            i += 1;
            assert(self@.input =~= old(self)@.input + input@.subrange(0, i as int));
        }
        assert(input@.subrange(0, n as int) =~= input@);
    }

    /// Hands over the pending output and empties the buffer.
    pub fn flush_output_buffer(&mut self) -> (r: String)
        ensures
            r@ == old(self)@.output,
            final(self)@ == (MachineView { output: Seq::empty(), ..old(self)@ }),
            final(self).error_message() == old(self).error_message(),
    {
        let mut text = String::new();
        let mut i: usize = 0;
        while i < self.output_buffer.len()
            invariant
                *self == *old(self),
                i <= self.output_buffer@.len(),
                text@ == self.output_buffer@.subrange(0, i as int),
            decreases self.output_buffer@.len() - i,
        {
            text.push(self.output_buffer[i]);
            i += 1;
            assert(text@ =~= self.output_buffer@.subrange(0, i as int));
        }
        assert(text@ =~= self.output_buffer@);
        self.output_buffer.clear();
        text
    }

    /// The eight registers, in order.
    pub fn registers(&self) -> (r: &[u16])
        requires
            self.wf(),
        ensures
            r@ == self@.registers(),
    {
        vstd::slice::slice_subrange(self.memory.as_slice(), REGISTER_OFFSET as usize, MEMORY_SIZE)
    }

    /// The whole memory, registers included.
    pub fn memory(&self) -> (r: &[u16])
        ensures
            r@ == self@.memory,
    {
        self.memory.as_slice()
    }

    /// The value of operand `arg`: the literal itself, or the contents of the
    /// cell it addresses.
    fn fetch_val(&self, arg: u16) -> (r: Option<u16>)
        ensures
            r == resolve(self@.memory, arg),
    {
        if arg < REGISTER_OFFSET {
            Some(arg)
        } else if (arg as usize) < self.memory.len() {
            Some(self.memory[arg as usize])
        } else {
            None
        }
    }

    /// Writes `v` to address `dst` and moves past `t`; an error, with
    /// nothing changed, where `dst` lies outside memory.
    fn store(&mut self, dst: u16, v: u16, t: Token) -> (r: Result<(), String>)
        requires
            old(self).wf(),
            old(self)@.pc < MEMORY_SIZE,
        ensures
            final(self).wf(),
            r is Ok <==> (dst as int) < old(self)@.memory.len(),
            r is Ok ==> final(self)@ == old(self)@.store(dst, v, t),
            r is Err ==> final(self)@ == old(self)@,
    {
        if (dst as usize) < self.memory.len() {
            self.memory.set(dst as usize, v);
            self.pc = self.pc + t.pc_delta();
            Ok(())
        } else {
            Err(String::from_str("write outside memory"))
        }
    }

    /// The result of computing instruction `t` on operand values `x` and `y`.
    fn combine_values(t: Token, x: u16, y: u16) -> (r: Option<u16>)
        ensures
            r == combine(t, x, y),
    {
        match t {
            Token::Eq(_, _, _) => Some(if x == y { 1 } else { 0 }),
            Token::Gt(_, _, _) => Some(if x > y { 1 } else { 0 }),
            Token::Add(_, _, _) => Some(Self::arithmetic_mod_u15(x as u32 + y as u32)),
            Token::Mult(_, _, _) => {
                assert(x as u32 * y as u32 <= 65535 * 65535) by (nonlinear_arith)
                    requires x <= 65535, y <= 65535;
                Some(Self::arithmetic_mod_u15(x as u32 * y as u32))
            },
            Token::Mod(_, _, _) => if y == 0 { None } else { Some(x % y) },
            Token::And(_, _, _) => Some((x & y) % U15_MAX),
            Token::Or(_, _, _) => Some((x | y) % U15_MAX),
            _ => None,
        }
    }

    /// Executes computing instruction `t` with destination `d` and operands
    /// `a` and `b`.
    fn process_binary(&mut self, t: Token, d: u16, a: u16, b: u16) -> (r: Result<(), String>)
        requires
            old(self).wf(),
            old(self)@.pc < MEMORY_SIZE,
        ensures
            final(self).wf(),
            r is Ok ==> final(self)@ == execute_binary(old(self)@, t, d, a, b),
            r is Err ==> final(self)@ == old(self)@ && execute_binary(old(self)@, t, d, a, b)
                == old(self)@.fault(),
    {
        let x = match self.fetch_val(a) {
            Some(x) => x,
            None => return Err(String::from_str("operand out of range")),
        };
        let y = match self.fetch_val(b) {
            Some(y) => y,
            None => return Err(String::from_str("operand out of range")),
        };
        match Self::combine_values(t, x, y) {
            Some(v) => self.store(d, v, t),
            None => Err(String::from_str("division by zero")),
        }
    }

    /// Executes a conditional jump to `a`, taken when the value of `c` is
    /// zero exactly if `on_zero` holds.
    fn process_branch(&mut self, t: Token, c: u16, a: u16, on_zero: bool) -> (r: Result<(), String>)
        requires
            old(self).wf(),
            old(self)@.pc < MEMORY_SIZE,
        ensures
            final(self).wf(),
            r is Ok ==> final(self)@ == execute_branch(old(self)@, t, c, a, on_zero),
            r is Err ==> final(self)@ == old(self)@ && execute_branch(old(self)@, t, c, a, on_zero)
                == old(self)@.fault(),
    {
        let x = match self.fetch_val(c) {
            Some(x) => x,
            None => return Err(String::from_str("operand out of range")),
        };
        if (x == 0) == on_zero {
            match self.fetch_val(a) {
                Some(y) => {
                    self.pc = y as usize;
                    Ok(())
                },
                None => Err(String::from_str("operand out of range")),
            }
        } else {
            self.pc = self.pc + t.pc_delta();
            Ok(())
        }
    }

    /// Executes one decoded instruction.
    fn process_token(&mut self, token: Token) -> (r: Result<(), String>)
        requires
            old(self).wf(),
            old(self)@.pc < MEMORY_SIZE,
            old(self)@.phase is Continue,
        ensures
            final(self).wf(),
            r is Ok ==> final(self)@ == execute(old(self)@, token),
            r is Err ==> final(self)@ == old(self)@ && execute(old(self)@, token) == old(self)@.fault(),
    {
        match token {
            Token::Halt => {
                self.run_state = RunState::Halt;
                Ok(())
            },
            Token::SetRegister(register, value) => {
                if REGISTER_OFFSET <= register && register < REGISTER_OFFSET + NUM_REGISTERS {
                    match self.fetch_val(value) {
                        Some(x) => self.store(register, x, token),
                        None => Err(String::from_str("set: operand out of range")),
                    }
                } else {
                    Err(String::from_str("set: destination is not a register"))
                }
            },
            Token::Push(value) => match self.fetch_val(value) {
                Some(x) => {
                    self.stack.push(x);
                    self.pc = self.pc + token.pc_delta();
                    Ok(())
                },
                None => Err(String::from_str("push: operand out of range")),
            },
            Token::Pop(destination) => {
                if self.stack.len() == 0 {
                    Err(String::from_str("pop: the stack is empty"))
                } else if (destination as usize) >= self.memory.len() {
                    Err(String::from_str("pop: destination outside memory"))
                } else {
                    let ghost before = self@;
                    let value = self.stack.pop().unwrap();
                    assert(self@ == (MachineView { stack: before.stack.drop_last(), ..before }));
                    self.store(destination, value, token)
                }
            },
            Token::Eq(d, a, b) => self.process_binary(token, d, a, b),
            Token::Gt(d, a, b) => self.process_binary(token, d, a, b),
            Token::Jmp(destination) => match self.fetch_val(destination) {
                Some(x) => {
                    self.pc = x as usize;
                    Ok(())
                },
                None => Err(String::from_str("jmp: operand out of range")),
            },
            Token::Jt(c, a) => self.process_branch(token, c, a, false),
            Token::Jf(c, a) => self.process_branch(token, c, a, true),
            Token::Add(d, a, b) => self.process_binary(token, d, a, b),
            Token::Mult(d, a, b) => self.process_binary(token, d, a, b),
            Token::Mod(d, a, b) => self.process_binary(token, d, a, b),
            Token::And(d, a, b) => self.process_binary(token, d, a, b),
            Token::Or(d, a, b) => self.process_binary(token, d, a, b),
            Token::Not(destination, value) => match self.fetch_val(value) {
                Some(x) => {
                    let inverse = (!x) % U15_MAX;
                    self.store(destination, inverse, token)
                },
                None => Err(String::from_str("not: operand out of range")),
            },
            Token::Rmem(destination, source) => match self.fetch_val(source) {
                Some(x) => {
                    if (x as usize) < self.memory.len() {
                        let value = self.memory[x as usize];
                        self.store(destination, value, token)
                    } else {
                        Err(String::from_str("rmem: source outside memory"))
                    }
                },
                None => Err(String::from_str("rmem: operand out of range")),
            },
            Token::Wmem(destination, value) => {
                match (self.fetch_val(destination), self.fetch_val(value)) {
                    (Some(x), Some(y)) => self.store(x, y, token),
                    _ => Err(String::from_str("wmem: operand out of range")),
                }
            },
            Token::Call(destination) => match self.fetch_val(destination) {
                Some(x) => {
                    self.stack.push((self.pc + token.pc_delta()) as u16);
                    self.pc = x as usize;
                    Ok(())
                },
                None => Err(String::from_str("call: operand out of range")),
            },
            Token::Ret() => {
                match self.stack.pop() {
                    Some(destination) => {
                        self.pc = destination as usize;
                    },
                    None => {
                        self.run_state = RunState::Halt;
                    },
                }
                Ok(())
            },
            Token::Out(arg) => match self.fetch_val(arg) {
                Some(x) => match core::char::from_u32(x as u32) {
                    Some(c) => {
                        self.output_buffer.push(c);
                        self.pc = self.pc + token.pc_delta();
                        Ok(())
                    },
                    None => Err(String::from_str("out: value is no character")),
                },
                None => Err(String::from_str("out: operand out of range")),
            },
            Token::In(destination) => {
                if self.input_buffer.len() == 0 {
                    self.run_state = RunState::InputNeeded;
                    Ok(())
                } else if (destination as usize) >= self.memory.len() {
                    Err(String::from_str("in: destination outside memory"))
                } else {
                    let ghost before = self@;
                    let ch = self.input_buffer.pop_front().unwrap();
                    assert(self@ == (MachineView { input: before.input.drop_first(), ..before }));
                    self.store(destination, (ch as u32 % 65536) as u16, token)
                }
            },
            Token::Noop => {
                self.pc = self.pc + token.pc_delta();
                Ok(())
            },
            Token::Unknown(_) => Err(String::from_str("unknown opcode")),
        }
    }

    /// Reduces an intermediate result modulo 32768.
    fn arithmetic_mod_u15(value: u32) -> (r: u16)
        ensures
            r == value % 32768,
    {
        (value % (U15_MAX as u32)) as u16
    }
}

} // verus!
