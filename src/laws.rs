//! Laws of the machine, stated over the abstract state that `Machine::run_once`
//! is specified by.
use vstd::prelude::*;

use crate::machine::{
    execute, invert, is_register, resolve, step, window, MachineView, Phase, MEMORY_SIZE,
    REGISTER_OFFSET, U15_MAX,
};
use crate::parse::{decode, Token};

verus! {

/// A state that is about to execute `t` right away: running, with no output
/// pending, and `t` at the program counter.
pub open spec fn about_to_execute(s: MachineView, t: Token) -> bool {
    &&& s.memory.len() == MEMORY_SIZE
    &&& s.phase is Continue
    &&& s.output.len() == 0
    &&& decode(window(s.memory, s.pc)) == Some(t)
}

/// Setting register `r` to a literal `v` makes `r` hold `v`, and only `r`
/// changes among the registers; a `set` whose destination is no register
/// faults and leaves memory, registers included, unchanged.
pub proof fn law_set_register(s: MachineView, r: u16, v: u16)
    requires
        about_to_execute(s, Token::SetRegister(r, v)),
        v < U15_MAX,
    ensures
        is_register(r) ==> step(s).registers()[r - REGISTER_OFFSET] == v,
        is_register(r) ==> forall|i: int|
            0 <= i < 8 && i != r - REGISTER_OFFSET ==> #[trigger] step(s).registers()[i]
                == s.registers()[i],
        is_register(r) ==> step(s).phase is Continue,
        !is_register(r) ==> step(s).phase is Error,
        !is_register(r) ==> step(s).memory == s.memory,
{
}

/// Arithmetic stores its result modulo 32768 and moves past the
/// instruction, whatever the operands resolve to (a literal, or a register's
/// contents): sum and product reduced, bitwise and / or reduced (which
/// changes nothing for 15-bit values), and for a 15-bit value the 15-bit
/// complement under `not`.
pub proof fn law_arithmetic(s: MachineView, d: u16, a: u16, b: u16)
    requires
        s.memory.len() == MEMORY_SIZE,
        s.phase is Continue,
        (d as int) < MEMORY_SIZE,
        resolve(s.memory, a) is Some,
        resolve(s.memory, b) is Some,
    ensures
        ({
            let x = resolve(s.memory, a)->0;
            let y = resolve(s.memory, b)->0;
            &&& execute(s, Token::Add(d, a, b)) == (MachineView {
                memory: s.memory.update(d as int, ((x + y) % 32768) as u16),
                pc: s.pc + 4,
                ..s
            })
            &&& execute(s, Token::Mult(d, a, b)) == (MachineView {
                memory: s.memory.update(d as int, ((x * y) % 32768) as u16),
                pc: s.pc + 4,
                ..s
            })
            &&& execute(s, Token::And(d, a, b)) == (MachineView {
                memory: s.memory.update(d as int, ((x & y) % 32768) as u16),
                pc: s.pc + 4,
                ..s
            })
            &&& execute(s, Token::Or(d, a, b)) == (MachineView {
                memory: s.memory.update(d as int, ((x | y) % 32768) as u16),
                pc: s.pc + 4,
                ..s
            })
            &&& (x < U15_MAX && y < U15_MAX ==> (x & y) % 32768 == x & y && (x | y) % 32768 == x | y)
            &&& (x < U15_MAX ==> execute(s, Token::Not(d, a)) == (MachineView {
                memory: s.memory.update(d as int, (32767 - x) as u16),
                pc: s.pc + 3,
                ..s
            }))
            &&& (x < U15_MAX ==> 32767 - x == x ^ 0x7fff)
        }),
{
    let x = resolve(s.memory, a)->0;
    let y = resolve(s.memory, b)->0;
    if x < U15_MAX {
        assert(!x == 0xffff - x) by (bit_vector);
        assert(x ^ 0x7fff == 0x7fff - x) by (bit_vector)
            requires x < 0x8000;
        assert(invert(x) == 32767 - x);
        if y < U15_MAX {
            assert(x & y < 0x8000 && x | y < 0x8000) by (bit_vector)
                requires x < 0x8000, y < 0x8000;
        }
    }
}

/// `ret` on an empty stack halts the machine; `pop` on an empty stack is an
/// error.
pub proof fn law_empty_stack(s: MachineView, d: u16)
    requires
        s.stack.len() == 0,
    ensures
        about_to_execute(s, Token::Ret()) ==> step(s).phase is Halt,
        about_to_execute(s, Token::Pop(d)) ==> step(s).phase is Error,
{
}

/// Output is batched: an `out` adds its character to the pending output and
/// the machine goes on; before any other instruction runs, the pending
/// output is handed over as one `BufferedOutput` with nothing else changed,
/// and the next step runs that instruction as if no output had been pending.
pub proof fn law_output_batching(s: MachineView, t: Token)
    requires
        s.memory.len() == MEMORY_SIZE,
        s.phase is Continue,
        decode(window(s.memory, s.pc)) == Some(t),
    ensures
        t is Out && !(step(s).phase is Error) ==> step(s).phase is Continue
            && step(s).output.len() == s.output.len() + 1
            && step(s).output.subrange(0, s.output.len() as int) == s.output,
        !(t is Out) && s.output.len() > 0 ==> step(s) == (MachineView {
            phase: Phase::BufferedOutput(s.output),
            output: Seq::empty(),
            ..s
        }),
        !(t is Out) && s.output.len() > 0 ==> step(step(s)) == execute(
            MachineView { output: Seq::empty(), ..s },
            t,
        ),
{
    if t is Out && !(step(s).phase is Error) {
        assert(step(s).output.subrange(0, s.output.len() as int) =~= s.output);
    }
}

/// `in` with no input waits without moving the program counter, and keeps
/// waiting while no input comes; once input is supplied, the next step
/// completes that same instruction with the first character.
pub proof fn law_input_wait(s: MachineView, d: u16, input: Seq<char>)
    requires
        about_to_execute(s, Token::In(d)),
        s.input.len() == 0,
        (d as int) < MEMORY_SIZE,
        input.len() > 0,
    ensures
        step(s).phase is InputNeeded,
        step(s).pc == s.pc,
        step(step(s)) == step(s),
        step(MachineView { input, ..step(s) }).phase is Continue,
        step(MachineView { input, ..step(s) }).memory[d as int] == (input[0] as u32 % 65536) as u16,
        step(MachineView { input, ..step(s) }).input == input.drop_first(),
        step(MachineView { input, ..step(s) }).pc == s.pc + 2,
{
}

} // verus!
