//! Processor state and the fetch-decode-execute interpreter.
//!
//! `MachineState` is the mathematical model of a `Chip8`: every public
//! operation is specified as a function from the model before the call to the
//! model after it.

use crate::display::{blank, drawn, DisplayBuffer, PIXELS};
use crate::entropy::random_byte;
use crate::instruction::{
    decode,
    decode_spec,
    lemma_decoded_operands_in_range,
    operands_in_range,
    Instruction,
};
use crate::keypad::{all_up, key_down, with_key, KeyState, KEYS};
use vstd::prelude::*;

verus! {

/// Bytes of addressable memory.
pub const MEMORY_SIZE: usize = 4096;

/// Number of general-purpose registers.
pub const REGISTERS: usize = 16;

/// The register that instructions overwrite with a carry, borrow or
/// collision flag.
pub const FLAG_REGISTER: u8 = 0xF;

/// Address at which a program image is loaded and execution starts.
pub const PROGRAM_START: u16 = 0x200;

/// Largest program image that fits between `PROGRAM_START` and the end of memory.
pub const MAX_PROGRAM_LEN: usize = 3584;

/// Bytes per font glyph.
pub const GLYPH_BYTES: u16 = 5;

/// Instructions executed per cycle unless configured otherwise.
pub const DEFAULT_SPEED: u32 = 10;

/// The built-in hexadecimal font: sixteen glyphs `0`..`F`, five rows each,
/// stored from address 0.
pub open spec fn font() -> Seq<u8> {
    seq![
        0xF0u8, 0x90, 0x90, 0x90, 0xF0,
        0x20, 0x60, 0x20, 0x20, 0x70,
        0xF0, 0x10, 0xF0, 0x80, 0xF0,
        0xF0, 0x10, 0xF0, 0x10, 0xF0,
        0x90, 0x90, 0xF0, 0x10, 0x10,
        0xF0, 0x80, 0xF0, 0x10, 0xF0,
        0xF0, 0x80, 0xF0, 0x90, 0xF0,
        0xF0, 0x10, 0x20, 0x40, 0x40,
        0xF0, 0x90, 0xF0, 0x90, 0xF0,
        0xF0, 0x90, 0xF0, 0x10, 0xF0,
        0xF0, 0x90, 0xF0, 0x90, 0x90,
        0xE0, 0x90, 0xE0, 0x90, 0xE0,
        0xF0, 0x80, 0x80, 0x80, 0xF0,
        0xE0, 0x90, 0x90, 0x90, 0xE0,
        0xF0, 0x80, 0xF0, 0x80, 0xF0,
        0xF0, 0x80, 0xF0, 0x80, 0x80,
    ]
}

/// A condition that stops the interpreter for good.
#[derive(Debug, Clone, Copy, PartialEq, Eq, Structural)]
pub enum Fault {
    /// The word at `pc` is not an instruction.
    UnknownOpcode { opcode: u16, pc: u16 },
    /// The return instruction at `pc` found the call stack empty.
    StackUnderflow { pc: u16 },
    /// A program image of `len` bytes does not fit in memory.
    ProgramTooLarge { len: usize },
}

/// The abstract state of the machine.
pub struct MachineState {
    pub memory: Seq<u8>,
    pub registers: Seq<u8>,
    pub index_register: u16,
    pub pc: u16,
    pub call_stack: Seq<u16>,
    pub delay_timer: u8,
    pub sound_timer: u8,
    /// Blocked until a key is pressed.
    pub paused: bool,
    /// The register that the next key press is stored in, while paused.
    pub awaiting_key: Option<u8>,
    pub display: Seq<bool>,
    pub keys: Seq<bool>,
    /// Instructions per cycle.
    pub speed: u32,
}

impl MachineState {
    /// Fixed sizes hold, and the machine is paused exactly while a key is
    /// awaited for a valid register.
    pub open spec fn wf(self) -> bool {
        &&& self.memory.len() == MEMORY_SIZE
        &&& self.registers.len() == REGISTERS
        &&& self.display.len() == PIXELS
        &&& self.keys.len() == KEYS
        &&& self.paused == self.awaiting_key.is_some()
        &&& (self.awaiting_key matches Some(x) ==> x < REGISTERS)
    }
}

/// `v` reduced to a byte.
pub open spec fn byte(v: int) -> u8 {
    (v % 0x100) as u8
}

/// `v` reduced to sixteen bits.
pub open spec fn word(v: int) -> u16 {
    (v % 0x10000) as u16
}

/// The memory address `offset` bytes after `base`, wrapping at the end of memory.
pub open spec fn address(base: int, offset: int) -> int {
    (base + offset) % (MEMORY_SIZE as int)
}

/// How many bytes after `base` address `a` lies, counting around the end of memory.
pub open spec fn offset_from(base: int, a: int) -> int {
    (a - base) % (MEMORY_SIZE as int)
}

/// `s` with the program counter moved past one instruction.
pub open spec fn advanced(s: MachineState) -> MachineState {
    MachineState { pc: word(s.pc + 2), ..s }
}

/// `s`, skipping the next instruction when `c` holds.
pub open spec fn skip_if(s: MachineState, c: bool) -> MachineState {
    if c {
        advanced(s)
    } else {
        s
    }
}

/// `s` with register `x` set to `v`.
pub open spec fn with_register(s: MachineState, x: u8, v: u8) -> MachineState {
    MachineState { registers: s.registers.update(x as int, v), ..s }
}

/// The flag value `1` or `0`.
pub open spec fn flag(c: bool) -> u8 {
    if c {
        1
    } else {
        0
    }
}

/// The registers after one of the register-to-register operations `8xy_`.
/// Effects apply in the order given, so where `x` or `y` is the flag
/// register a later step reads what an earlier one wrote.
pub open spec fn alu(regs: Seq<u8>, ins: Instruction) -> Seq<u8> {
    match ins {
        Instruction::Assign { x, y } => regs.update(x as int, regs[y as int]),
        Instruction::Or { x, y } => regs.update(x as int, regs[x as int] | regs[y as int]),
        Instruction::And { x, y } => regs.update(x as int, regs[x as int] & regs[y as int]),
        Instruction::Xor { x, y } => regs.update(x as int, regs[x as int] ^ regs[y as int]),
        Instruction::AddWithCarry { x, y } => {
            // The flag tests the wrapped result plus Vy against 0xFF.
            let r = regs.update(x as int, byte(regs[x as int] + regs[y as int]));
            r.update(FLAG_REGISTER as int, flag(r[x as int] + r[y as int] < 0xFF))
        },
        Instruction::SubWithBorrow { x, y } => {
            let r = regs.update(FLAG_REGISTER as int, 0);
            let r = r.update(FLAG_REGISTER as int, flag(r[x as int] > r[y as int]));
            r.update(x as int, byte(r[x as int] - r[y as int]))
        },
        Instruction::ShiftRight { x, y } => {
            let r = regs.update(FLAG_REGISTER as int, (regs[x as int] % 2) as u8);
            r.update(x as int, (r[x as int] / 2) as u8)
        },
        Instruction::ReverseSub { x, y } => {
            let r = regs.update(FLAG_REGISTER as int, 0);
            let r = r.update(FLAG_REGISTER as int, flag(r[y as int] > r[x as int]));
            r.update(x as int, byte(r[y as int] - r[x as int]))
        },
        Instruction::ShiftLeft { x, y } => {
            // The flag is the raw masked top bit: 0x80 or 0.
            let r = regs.update(
                FLAG_REGISTER as int,
                if regs[x as int] >= 0x80 {
                    0x80u8
                } else {
                    0u8
                },
            );
            r.update(x as int, byte(r[x as int] * 2))
        },
        _ => regs,
    }
}

/// The `n` sprite rows stored from address `index` on.
pub open spec fn sprite_rows(memory: Seq<u8>, index: u16, n: u8) -> Seq<u8> {
    Seq::new(n as nat, |r: int| memory[address(index as int, r)])
}

/// Memory after storing the decimal digits of `v` at `index`, `index + 1`, `index + 2`.
pub open spec fn bcd_stored(memory: Seq<u8>, index: u16, v: u8) -> Seq<u8> {
    memory.update(address(index as int, 0), v / 100).update(
        address(index as int, 1),
        (v % 100) / 10,
    ).update(address(index as int, 2), v % 10)
}

/// Memory after storing registers `0 .. x` (not `x` itself) from `index` on:
/// the byte at offset `k < x` from `index` holds register `k`.
pub open spec fn registers_stored(memory: Seq<u8>, regs: Seq<u8>, index: u16, x: u8) -> Seq<u8> {
    Seq::new(
        memory.len(),
        |a: int|
            {
                let k = offset_from(index as int, a);
                if k < x {
                    regs[k]
                } else {
                    memory[a]
                }
            },
    )
}

/// Registers after loading registers `0 .. x` (not `x` itself) from `index` on.
pub open spec fn registers_loaded(memory: Seq<u8>, regs: Seq<u8>, index: u16, x: u8) -> Seq<u8> {
    Seq::new(
        regs.len(),
        |k: int|
            if k < x {
                memory[address(index as int, k)]
            } else {
                regs[k]
            },
    )
}

/// The effect of `ins` on `s`, whose program counter already points past
/// the instruction; `rnd` is the random byte that `RandomAnd` uses.
pub open spec fn apply(s: MachineState, ins: Instruction, rnd: u8) -> MachineState {
    let regs = s.registers;
    match ins {
        Instruction::ClearScreen => MachineState { display: blank(), ..s },
        Instruction::Return => MachineState {
            pc: s.call_stack.last(),
            call_stack: s.call_stack.drop_last(),
            ..s
        },
        Instruction::Jump { nnn } => MachineState { pc: nnn, ..s },
        Instruction::Call { nnn } => MachineState {
            call_stack: s.call_stack.push(s.pc),
            pc: nnn,
            ..s
        },
        Instruction::SkipIfEqual { x, nn } => skip_if(s, regs[x as int] == nn),
        Instruction::SkipIfNotEqual { x, nn } => skip_if(s, regs[x as int] != nn),
        Instruction::SkipIfRegistersEqual { x, y } => skip_if(s, regs[x as int] == regs[y as int]),
        Instruction::LoadImmediate { x, nn } => with_register(s, x, nn),
        Instruction::AddImmediate { x, nn } => with_register(s, x, byte(regs[x as int] + nn)),
        Instruction::Assign { .. } | Instruction::Or { .. } | Instruction::And { .. }
        | Instruction::Xor { .. } | Instruction::AddWithCarry { .. }
        | Instruction::SubWithBorrow { .. } | Instruction::ShiftRight { .. }
        | Instruction::ReverseSub { .. } | Instruction::ShiftLeft { .. } => MachineState {
            registers: alu(regs, ins),
            ..s
        },
        Instruction::SkipIfRegistersNotEqual { x, y } => skip_if(
            s,
            regs[x as int] != regs[y as int],
        ),
        Instruction::LoadIndex { nnn } => MachineState { index_register: nnn, ..s },
        Instruction::JumpWithOffset { nnn } => MachineState { pc: (nnn + regs[0]) as u16, ..s },
        Instruction::RandomAnd { x, nn } => with_register(s, x, rnd & nn),
        Instruction::Draw { x, y, n } => {
            let rows = sprite_rows(s.memory, s.index_register, n);
            let (pixels, hit) = drawn(s.display, rows, regs[x as int] as int, regs[y as int] as int);
            MachineState {
                display: pixels,
                registers: regs.update(FLAG_REGISTER as int, flag(hit)),
                ..s
            }
        },
        Instruction::SkipIfKey { x } => skip_if(s, key_down(s.keys, regs[x as int] as int)),
        Instruction::SkipIfNotKey { x } => skip_if(s, !key_down(s.keys, regs[x as int] as int)),
        Instruction::ReadDelayTimer { x } => with_register(s, x, s.delay_timer),
        Instruction::AwaitKey { x } => MachineState { paused: true, awaiting_key: Some(x), ..s },
        Instruction::SetDelayTimer { x } => MachineState { delay_timer: regs[x as int], ..s },
        Instruction::SetSoundTimer { x } => MachineState { sound_timer: regs[x as int], ..s },
        Instruction::AddToIndex { x } => MachineState {
            index_register: word(s.index_register + regs[x as int]),
            ..s
        },
        Instruction::SpriteAddress { x } => MachineState {
            index_register: (regs[x as int] * GLYPH_BYTES) as u16,
            ..s
        },
        Instruction::StoreBcd { x } => MachineState {
            memory: bcd_stored(s.memory, s.index_register, regs[x as int]),
            ..s
        },
        Instruction::StoreRegisters { x } => MachineState {
            memory: registers_stored(s.memory, regs, s.index_register, x),
            ..s
        },
        Instruction::LoadRegisters { x } => MachineState {
            registers: registers_loaded(s.memory, regs, s.index_register, x),
            ..s
        },
    }
}

/// Executing the instruction word `opcode` on `s`: the state after it, or
/// the fault that stops the machine. The program counter moves past the
/// instruction before its effect, so jumps overwrite that move.
#[verifier::opaque]
pub open spec fn step_outcome(s: MachineState, opcode: u16, rnd: u8) -> Result<MachineState, Fault> {
    match decode_spec(opcode) {
        None => Err(Fault::UnknownOpcode { opcode, pc: s.pc }),
        Some(ins) => if ins == Instruction::Return && s.call_stack.len() == 0 {
            Err(Fault::StackUnderflow { pc: s.pc })
        } else {
            Ok(apply(advanced(s), ins, rnd))
        },
    }
}

/// The big-endian instruction word at the program counter.
pub open spec fn fetch_spec(s: MachineState) -> u16 {
    (s.memory[address(s.pc as int, 0)] * 0x100 + s.memory[address(s.pc as int, 1)]) as u16
}

/// Both timers one tick closer to zero, never below it.
pub open spec fn timers_ticked(s: MachineState) -> MachineState {
    MachineState {
        delay_timer: if s.delay_timer > 0 {
            (s.delay_timer - 1) as u8
        } else {
            0
        },
        sound_timer: if s.sound_timer > 0 {
            (s.sound_timer - 1) as u8
        } else {
            0
        },
        ..s
    }
}

/// The state, and the fault if one stopped it, after `k` fetch-execute
/// slots of a cycle, the slot `j` using random byte `rnds[j]`. A paused
/// machine skips its slots; a fault ends the run.
pub open spec fn run_slots(s: MachineState, rnds: Seq<u8>, k: nat) -> (MachineState, Option<Fault>)
    decreases k,
{
    if k == 0 {
        (s, None)
    } else {
        let (t, f) = run_slots(s, rnds, (k - 1) as nat);
        if f.is_some() || t.paused {
            (t, f)
        } else {
            match step_outcome(t, fetch_spec(t), rnds[k - 1]) {
                Ok(u) => (u, None),
                Err(e) => (t, Some(e)),
            }
        }
    }
}

/// One cycle: `s.speed` slots, then, unless paused or stopped, a timer tick.
pub open spec fn cycle_outcome(s: MachineState, rnds: Seq<u8>) -> (MachineState, Option<Fault>) {
    let (t, f) = run_slots(s, rnds, s.speed as nat);
    if f.is_none() && !t.paused {
        (timers_ticked(t), None)
    } else {
        (t, f)
    }
}

/// The state after key `k` goes down: it is marked pressed, and if a key was
/// awaited it lands in the awaiting register and the machine resumes. Codes
/// outside `0..KEYS` change nothing.
pub open spec fn key_pressed(s: MachineState, k: u8) -> MachineState {
    if k < KEYS {
        let t = MachineState { keys: with_key(s.keys, k as int, true), ..s };
        match s.awaiting_key {
            Some(x) => MachineState {
                registers: t.registers.update(x as int, k),
                paused: false,
                awaiting_key: None,
                ..t
            },
            None => t,
        }
    } else {
        s
    }
}

/// The state after key `k` goes up.
pub open spec fn key_released(s: MachineState, k: u8) -> MachineState {
    MachineState { keys: with_key(s.keys, k as int, false), ..s }
}

/// `Ok(s)` for a success, the fault otherwise.
pub open spec fn settled(r: Result<(), Fault>, s: MachineState) -> Result<MachineState, Fault> {
    match r {
        Ok(_) => Ok(s),
        Err(e) => Err(e),
    }
}

/// Memory holding the font from address 0, the rest as it was.
pub open spec fn font_loaded(memory: Seq<u8>) -> Seq<u8> {
    Seq::new(memory.len(), |a: int| if a < font().len() { font()[a] } else { memory[a] })
}

/// Memory holding `program` from `PROGRAM_START` on, the rest as it was.
pub open spec fn program_loaded(memory: Seq<u8>, program: Seq<u8>) -> Seq<u8> {
    Seq::new(
        memory.len(),
        |a: int|
            if PROGRAM_START <= a < PROGRAM_START + program.len() {
                program[a - PROGRAM_START]
            } else {
                memory[a]
            },
    )
}

/// The state of a machine just built around `display`: memory and
/// registers zero, execution at `PROGRAM_START`, all keys up.
pub open spec fn initial(display: Seq<bool>) -> MachineState {
    MachineState {
        memory: Seq::new(MEMORY_SIZE as nat, |a: int| 0u8),
        registers: Seq::new(REGISTERS as nat, |k: int| 0u8),
        index_register: 0,
        pc: PROGRAM_START,
        call_stack: Seq::empty(),
        delay_timer: 0,
        sound_timer: 0,
        paused: false,
        awaiting_key: None,
        display,
        keys: all_up(),
        speed: DEFAULT_SPEED,
    }
}

/// The address `offset` bytes after `base` is `a` exactly when `a` lies
/// `offset` bytes after `base`, counting around the end of memory.
proof fn lemma_address_offset(base: int, offset: int, a: int)
    requires
        0 <= base,
        0 <= offset < MEMORY_SIZE,
        0 <= a < MEMORY_SIZE,
    ensures
        (a == address(base, offset)) <==> (offset_from(base, a) == offset),
{
    let m = MEMORY_SIZE as int;
    vstd::arithmetic::div_mod::lemma_fundamental_div_mod(base + offset, m);
    vstd::arithmetic::div_mod::lemma_fundamental_div_mod(a - base, m);
    if a == address(base, offset) {
        vstd::arithmetic::div_mod::lemma_fundamental_div_mod_converse(
            a - base,
            m,
            -((base + offset) / m),
            offset,
        );
    }
    if (a - base) % m == offset {
        vstd::arithmetic::div_mod::lemma_fundamental_div_mod_converse(
            base + offset,
            m,
            -((a - base) / m),
            a,
        );
    }
}

/// The fault carried by `r`, if any.
pub open spec fn fault_of(r: Result<(), Fault>) -> Option<Fault> {
    match r {
        Ok(_) => None,
        Err(e) => Some(e),
    }
}

/// A run of slots depends only on the random bytes of the slots it covers.
proof fn lemma_run_slots_prefix(s: MachineState, a: Seq<u8>, b: Seq<u8>, k: nat)
    requires
        k <= a.len(),
        k <= b.len(),
        a.subrange(0, k as int) == b.subrange(0, k as int),
    ensures
        run_slots(s, a, k) == run_slots(s, b, k),
    decreases k,
{
    if k > 0 {
        assert(a.subrange(0, k - 1) == a.subrange(0, k as int).subrange(0, k - 1));
        assert(b.subrange(0, k - 1) == b.subrange(0, k as int).subrange(0, k - 1));
        assert(a[k - 1] == a.subrange(0, k as int)[k - 1]);
        assert(b[k - 1] == b.subrange(0, k as int)[k - 1]);
        lemma_run_slots_prefix(s, a, b, (k - 1) as nat);
    }
}

/// Once a fault stops a run, later slots change nothing.
proof fn lemma_run_slots_stopped(s: MachineState, rnds: Seq<u8>, j: nat, k: nat)
    requires
        j <= k,
        run_slots(s, rnds, j).1.is_some(),
    ensures
        run_slots(s, rnds, k) == run_slots(s, rnds, j),
    decreases k,
{
    if k > j {
        lemma_run_slots_stopped(s, rnds, j, (k - 1) as nat);
    }
}

/// One more slot of a run that has not stopped: skipped while paused,
/// otherwise the outcome of the instruction at the program counter.
proof fn lemma_run_slots_next(s: MachineState, prev: Seq<u8>, rnd: u8, k: nat)
    requires
        prev.len() == k,
        run_slots(s, prev, k).1.is_none(),
    ensures
        run_slots(s, prev.push(rnd), k + 1) == ({
            let t = run_slots(s, prev, k).0;
            if t.paused {
                (t, None)
            } else {
                match step_outcome(t, fetch_spec(t), rnd) {
                    Ok(u) => (u, None),
                    Err(e) => (t, Some(e)),
                }
            }
        }),
{
    let rnds = prev.push(rnd);
    assert(prev.subrange(0, k as int) =~= rnds.subrange(0, k as int));
    lemma_run_slots_prefix(s, prev, rnds, k);
    assert(rnds[k as int] == rnd);
}

/// A paused machine runs no instruction and ticks no timer in a cycle: the
/// whole cycle leaves it exactly as it was.
pub proof fn lemma_paused_cycle_is_idle(s: MachineState, rnds: Seq<u8>)
    requires
        s.paused,
    ensures
        cycle_outcome(s, rnds) == (s, None::<Fault>),
{
    lemma_paused_slots_idle(s, rnds, s.speed as nat);
}

proof fn lemma_paused_slots_idle(s: MachineState, rnds: Seq<u8>, k: nat)
    requires
        s.paused,
    ensures
        run_slots(s, rnds, k) == (s, None::<Fault>),
    decreases k,
{
    if k > 0 {
        lemma_paused_slots_idle(s, rnds, (k - 1) as nat);
    }
}

/// The await-key instruction `Fx0A` only moves past itself and pauses the
/// machine, with register `x` waiting for the key.
pub proof fn lemma_await_key_pauses(s: MachineState, x: u8, rnd: u8)
    requires
        x < REGISTERS,
    ensures
        step_outcome(s, (0xF00A + 0x100 * x) as u16, rnd) == Ok::<MachineState, Fault>(
            MachineState { pc: word(s.pc + 2), paused: true, awaiting_key: Some(x), ..s },
        ),
{
    reveal(step_outcome);
}

/// A key press while a key is awaited stores that key in the awaiting
/// register and resumes the machine, whichever key it is.
pub proof fn lemma_key_press_resumes(s: MachineState, k: u8)
    requires
        s.wf(),
        s.paused,
        k < KEYS,
    ensures
        key_pressed(s, k).registers[s.awaiting_key.unwrap() as int] == k,
        !key_pressed(s, k).paused,
        key_pressed(s, k).awaiting_key.is_none(),
        key_pressed(s, k).pc == s.pc,
{
}

/// A jump `1nnn` sets the program counter to exactly `nnn`, whatever the
/// state, and changes nothing else.
pub proof fn lemma_jump_is_exact(s: MachineState, nnn: u16, rnd: u8)
    requires
        nnn < 0x1000,
    ensures
        step_outcome(s, (0x1000 + nnn) as u16, rnd) == Ok::<MachineState, Fault>(
            MachineState { pc: nnn, ..s },
        ),
{
    reveal(step_outcome);
}

/// A CHIP-8 processor with its memory, display and keypad.
pub struct Chip8 {
    display: DisplayBuffer,
    memory: Vec<u8>,
    registers: Vec<u8>,
    index_register: u16,
    pc: u16,
    call_stack: Vec<u16>,
    delay_timer: u8,
    sound_timer: u8,
    paused: bool,
    awaiting_key: Option<u8>,
    keys: KeyState,
    speed: u32,
}

impl View for Chip8 {
    type V = MachineState;

    closed spec fn view(&self) -> MachineState {
        MachineState {
            memory: self.memory@,
            registers: self.registers@,
            index_register: self.index_register,
            pc: self.pc,
            call_stack: self.call_stack@,
            delay_timer: self.delay_timer,
            sound_timer: self.sound_timer,
            paused: self.paused,
            awaiting_key: self.awaiting_key,
            display: self.display@,
            keys: self.keys@,
            speed: self.speed,
        }
    }
}

impl Chip8 {
    pub open spec fn wf(&self) -> bool {
        self@.wf()
    }

    /// A machine that draws on `display`, with zeroed memory and registers,
    /// execution at `PROGRAM_START` and `DEFAULT_SPEED` instructions per cycle.
    pub fn new(display: DisplayBuffer) -> (r: Chip8)
        requires
            display.wf(),
        ensures
            r.wf(),
            r@ == initial(display@),
    {
        let r = Chip8 {
            display,
            memory: vec![0u8; MEMORY_SIZE],
            registers: vec![0u8; REGISTERS],
            index_register: 0,
            pc: PROGRAM_START,
            call_stack: Vec::new(),
            delay_timer: 0,
            sound_timer: 0,
            paused: false,
            awaiting_key: None,
            keys: KeyState::new(),
            speed: DEFAULT_SPEED,
        };
        assert(r@.memory =~= initial(display@).memory);
        assert(r@.registers =~= initial(display@).registers);
        r
    }

    /// Copies the built-in font to addresses `0 .. 80`.
    pub fn load_sprites_into_memory(&mut self)
        requires
            old(self).wf(),
        ensures
            final(self).wf(),
            final(self)@ == (MachineState { memory: font_loaded(old(self)@.memory), ..old(self)@ }),
    {
        let glyphs: [u8; 80] = [
            0xF0, 0x90, 0x90, 0x90, 0xF0, // 0
            0x20, 0x60, 0x20, 0x20, 0x70, // 1
            0xF0, 0x10, 0xF0, 0x80, 0xF0, // 2
            0xF0, 0x10, 0xF0, 0x10, 0xF0, // 3
            0x90, 0x90, 0xF0, 0x10, 0x10, // 4
            0xF0, 0x80, 0xF0, 0x10, 0xF0, // 5
            0xF0, 0x80, 0xF0, 0x90, 0xF0, // 6
            0xF0, 0x10, 0x20, 0x40, 0x40, // 7
            0xF0, 0x90, 0xF0, 0x90, 0xF0, // 8
            0xF0, 0x90, 0xF0, 0x10, 0xF0, // 9
            0xF0, 0x90, 0xF0, 0x90, 0x90, // A
            0xE0, 0x90, 0xE0, 0x90, 0xE0, // B
            0xF0, 0x80, 0x80, 0x80, 0xF0, // C
            0xE0, 0x90, 0x90, 0x90, 0xE0, // D
            0xF0, 0x80, 0xF0, 0x80, 0xF0, // E
            0xF0, 0x80, 0xF0, 0x80, 0x80, // F
        ];
        assert(glyphs@ =~= font());
        let mut a: usize = 0;
        while a < 80
            invariant
                a <= 80,
                glyphs@ == font(),
                self.memory@.len() == MEMORY_SIZE,
                self.memory@ == Seq::new(
                    MEMORY_SIZE as nat,
                    |b: int| if b < a { font()[b] } else { old(self)@.memory[b] },
                ),
                self.registers == old(self).registers,
                self.index_register == old(self).index_register,
                self.pc == old(self).pc,
                self.call_stack == old(self).call_stack,
                self.delay_timer == old(self).delay_timer,
                self.sound_timer == old(self).sound_timer,
                self.paused == old(self).paused,
                self.awaiting_key == old(self).awaiting_key,
                self.display == old(self).display,
                self.keys == old(self).keys,
                self.speed == old(self).speed,
            decreases 80 - a,
        {
            self.memory.set(a, glyphs[a]);
            a = a + 1;
            assert(self.memory@ =~= Seq::new(
                MEMORY_SIZE as nat,
                |b: int| if b < a { font()[b] } else { old(self)@.memory[b] },
            ));
        }
        assert(self.memory@ =~= font_loaded(old(self)@.memory));
    }

    /// Copies `program` to memory from `PROGRAM_START` on; fails, changing
    /// nothing, when it is longer than `MAX_PROGRAM_LEN` bytes.
    pub fn load_program_into_memory(&mut self, program: &[u8]) -> (r: Result<(), Fault>)
        requires
            old(self).wf(),
        ensures
            final(self).wf(),
            program@.len() <= MAX_PROGRAM_LEN ==> r == Ok::<(), Fault>(()) && final(self)@ == (
            MachineState { memory: program_loaded(old(self)@.memory, program@), ..old(self)@ }),
            program@.len() > MAX_PROGRAM_LEN ==> r == Err::<(), Fault>(
                Fault::ProgramTooLarge { len: program@.len() as usize },
            ) && final(self)@ == old(self)@,
    {
        if program.len() > MAX_PROGRAM_LEN {
            return Err(Fault::ProgramTooLarge { len: program.len() });
        }
        let mut k: usize = 0;
        while k < program.len()
            invariant
                k <= program@.len() <= MAX_PROGRAM_LEN,
                self.memory@.len() == MEMORY_SIZE,
                self.memory@ == Seq::new(
                    MEMORY_SIZE as nat,
                    |b: int|
                        if PROGRAM_START <= b < PROGRAM_START + k {
                            program@[b - PROGRAM_START]
                        } else {
                            old(self)@.memory[b]
                        },
                ),
                self.registers == old(self).registers,
                self.index_register == old(self).index_register,
                self.pc == old(self).pc,
                self.call_stack == old(self).call_stack,
                self.delay_timer == old(self).delay_timer,
                self.sound_timer == old(self).sound_timer,
                self.paused == old(self).paused,
                self.awaiting_key == old(self).awaiting_key,
                self.display == old(self).display,
                self.keys == old(self).keys,
                self.speed == old(self).speed,
            decreases program@.len() - k,
        {
            self.memory.set(PROGRAM_START as usize + k, program[k]);
            k = k + 1;
            assert(self.memory@ =~= Seq::new(
                MEMORY_SIZE as nat,
                |b: int|
                    if PROGRAM_START <= b < PROGRAM_START + k {
                        program@[b - PROGRAM_START]
                    } else {
                        old(self)@.memory[b]
                    },
            ));
        }
        assert(self.memory@ =~= program_loaded(old(self)@.memory, program@));
        Ok(())
    }

    /// The value of register `x`.
    pub fn register(&self, x: u8) -> (r: u8)
        requires
            self.wf(),
            x < REGISTERS,
        ensures
            r == self@.registers[x as int],
    {
        self.registers[x as usize]
    }

    fn set_reg(&mut self, x: u8, v: u8)
        requires
            old(self).wf(),
            x < REGISTERS,
        ensures
            final(self).wf(),
            final(self)@ == with_register(old(self)@, x, v),
    {
        self.registers.set(x as usize, v);
    }

    fn skip(&mut self)
        requires
            old(self).wf(),
        ensures
            final(self).wf(),
            final(self)@ == advanced(old(self)@),
    {
        self.pc = self.pc.wrapping_add(2);
    }

    /// Runs one of the register-to-register operations `8xy_`.
    fn execute_alu(&mut self, ins: Instruction)
        requires
            old(self).wf(),
            operands_in_range(ins),
        ensures
            final(self).wf(),
            final(self)@ == (MachineState { registers: alu(old(self)@.registers, ins), ..old(self)@ }),
    {
        match ins {
            Instruction::Assign { x, y } => {
                let vy = self.register(y);
                self.set_reg(x, vy);
            },
            Instruction::Or { x, y } => {
                let v = self.register(x) | self.register(y);
                self.set_reg(x, v);
            },
            Instruction::And { x, y } => {
                let v = self.register(x) & self.register(y);
                self.set_reg(x, v);
            },
            Instruction::Xor { x, y } => {
                let v = self.register(x) ^ self.register(y);
                self.set_reg(x, v);
            },
            Instruction::AddWithCarry { .. } | Instruction::SubWithBorrow { .. }
            | Instruction::ShiftRight { .. } | Instruction::ReverseSub { .. }
            | Instruction::ShiftLeft { .. } => {
                self.execute_arithmetic(ins);
            },
            _ => {},
        }
    }

    /// Runs one of the arithmetic and shift operations `8xy4` to `8xyE`.
    fn execute_arithmetic(&mut self, ins: Instruction)
        requires
            old(self).wf(),
            operands_in_range(ins),
            Self::is_arithmetic(ins),
        ensures
            final(self).wf(),
            final(self)@ == (MachineState { registers: alu(old(self)@.registers, ins), ..old(self)@ }),
    {
        match ins {
            Instruction::AddWithCarry { x, y } => {
                let v = self.register(x).wrapping_add(self.register(y));
                self.set_reg(x, v);
                let sum: u16 = self.register(x) as u16 + self.register(y) as u16;
                self.set_reg(FLAG_REGISTER, if sum < 0xFF { 1 } else { 0 });
            },
            Instruction::SubWithBorrow { x, y } => {
                self.set_reg(FLAG_REGISTER, 0);
                let borrow = self.register(x) > self.register(y);
                self.set_reg(FLAG_REGISTER, if borrow { 1 } else { 0 });
                let v = self.register(x).wrapping_sub(self.register(y));
                self.set_reg(x, v);
            },
            Instruction::ShiftRight { x, y } => {
                let vx = self.register(x);
                assert(vx & 1 == vx % 2) by (bit_vector);
                self.set_reg(FLAG_REGISTER, vx & 1);
                let vx = self.register(x);
                assert(vx >> 1 == vx / 2) by (bit_vector);
                self.set_reg(x, vx >> 1);
            },
            Instruction::ReverseSub { x, y } => {
                self.set_reg(FLAG_REGISTER, 0);
                let borrow = self.register(y) > self.register(x);
                self.set_reg(FLAG_REGISTER, if borrow { 1 } else { 0 });
                let v = self.register(y).wrapping_sub(self.register(x));
                self.set_reg(x, v);
            },
            Instruction::ShiftLeft { x, y } => {
                let vx = self.register(x);
                assert(vx & 0x80 == if vx >= 0x80 { 0x80u8 } else { 0u8 }) by (bit_vector);
                self.set_reg(FLAG_REGISTER, vx & 0x80);
                let vx = self.register(x);
                assert(vx << 1 == ((vx * 2) % 0x100) as u8) by (bit_vector);
                self.set_reg(x, vx << 1);
            },
            _ => {},
        }
    }

    /// `Fx33`: the decimal digits of `v` at `I`, `I + 1`, `I + 2`.
    fn store_bcd(&mut self, v: u8)
        requires
            old(self).wf(),
        ensures
            final(self).wf(),
            final(self)@ == (MachineState {
                memory: bcd_stored(old(self)@.memory, old(self)@.index_register, v),
                ..old(self)@
            }),
    {
        let base = self.index_register as usize;
        self.memory.set(base % MEMORY_SIZE, v / 100);
        self.memory.set((base + 1) % MEMORY_SIZE, (v % 100) / 10);
        self.memory.set((base + 2) % MEMORY_SIZE, v % 10);
    }

    /// `Fx55`: registers `0 .. x` to memory from `I` on.
    fn store_registers(&mut self, x: u8)
        requires
            old(self).wf(),
            x < REGISTERS,
        ensures
            final(self).wf(),
            final(self)@ == (MachineState {
                memory: registers_stored(
                    old(self)@.memory,
                    old(self)@.registers,
                    old(self)@.index_register,
                    x,
                ),
                ..old(self)@
            }),
    {
        let base = self.index_register as usize;
        let ghost mem0 = old(self)@.memory;
        let ghost regs = old(self)@.registers;
        let mut k: u8 = 0;
        while k < x
            invariant
                self.wf(),
                k <= x < REGISTERS,
                base == self.index_register,
                self@ == (MachineState { memory: self@.memory, ..old(self)@ }),
                self.registers@ == regs,
                forall|a: int|
                    0 <= a < MEMORY_SIZE ==> #[trigger] self@.memory[a] == if offset_from(
                        base as int,
                        a,
                    ) < k {
                        regs[offset_from(base as int, a)]
                    } else {
                        mem0[a]
                    },
            decreases x - k,
        {
            let v = self.registers[k as usize];
            let target = (base + k as usize) % MEMORY_SIZE;
            let ghost before = self@.memory;
            self.memory.set(target, v);
            proof {
                assert forall|a: int| 0 <= a < MEMORY_SIZE implies #[trigger] self@.memory[a] == if offset_from(
                    base as int,
                    a,
                ) < k + 1 {
                    regs[offset_from(base as int, a)]
                } else {
                    mem0[a]
                } by {
                    lemma_address_offset(base as int, k as int, a);
                    assert(before[a] == if offset_from(base as int, a) < k {
                        regs[offset_from(base as int, a)]
                    } else {
                        mem0[a]
                    });
                }
            }
            k = k + 1;
        }
        assert(self@.memory =~= registers_stored(mem0, regs, base as u16, x));
    }

    /// `Fx65`: registers `0 .. x` from memory from `I` on.
    fn load_registers(&mut self, x: u8)
        requires
            old(self).wf(),
            x < REGISTERS,
        ensures
            final(self).wf(),
            final(self)@ == (MachineState {
                registers: registers_loaded(
                    old(self)@.memory,
                    old(self)@.registers,
                    old(self)@.index_register,
                    x,
                ),
                ..old(self)@
            }),
    {
        let base = self.index_register as usize;
        let ghost regs = old(self)@.registers;
        let mut k: u8 = 0;
        while k < x
            invariant
                self.wf(),
                k <= x < REGISTERS,
                base == self.index_register,
                self@ == (MachineState { registers: self@.registers, ..old(self)@ }),
                forall|j: int|
                    0 <= j < REGISTERS ==> #[trigger] self@.registers[j] == if j < k {
                        old(self)@.memory[address(base as int, j)]
                    } else {
                        regs[j]
                    },
            decreases x - k,
        {
            let v = self.memory[(base + k as usize) % MEMORY_SIZE];
            self.registers.set(k as usize, v);
            k = k + 1;
        }
        assert(self@.registers =~= registers_loaded(old(self)@.memory, regs, base as u16, x));
    }

    /// `Dxyn`: the `n`-row sprite at `I`, drawn at `(Vx, Vy)`; the flag
    /// register then tells whether a lit pixel was turned off.
    fn draw(&mut self, x: u8, y: u8, n: u8)
        requires
            old(self).wf(),
            x < REGISTERS,
            y < REGISTERS,
            n < 16,
        ensures
            final(self).wf(),
            final(self)@ == apply(old(self)@, Instruction::Draw { x, y, n }, 0),
    {
        let base = self.index_register as usize;
        let mut rows: Vec<u8> = Vec::new();
        let mut k: u8 = 0;
        while k < n
            invariant
                self.wf(),
                self@ == old(self)@,
                k <= n < 16,
                base == self.index_register,
                rows@ == sprite_rows(self@.memory, self.index_register, k),
            decreases n - k,
        {
            rows.push(self.memory[(base + k as usize) % MEMORY_SIZE]);
            k = k + 1;
            assert(rows@ =~= sprite_rows(self@.memory, self.index_register, k));
        }
        let vx = self.register(x);
        let vy = self.register(y);
        let hit = self.display.draw_sprite(&rows, vx, vy);
        self.set_reg(FLAG_REGISTER, if hit { 1 } else { 0 });
    }

    /// The register operations that compute a flag.
    spec fn is_arithmetic(ins: Instruction) -> bool {
        match ins {
            Instruction::AddWithCarry { .. } | Instruction::SubWithBorrow { .. }
            | Instruction::ShiftRight { .. } | Instruction::ReverseSub { .. }
            | Instruction::ShiftLeft { .. } => true,
            _ => false,
        }
    }

    /// Instructions that move the program counter or pause the machine.
    spec fn is_control(ins: Instruction) -> bool {
        match ins {
            Instruction::ClearScreen | Instruction::Return | Instruction::Jump { .. }
            | Instruction::Call { .. } | Instruction::SkipIfEqual { .. }
            | Instruction::SkipIfNotEqual { .. } | Instruction::SkipIfRegistersEqual { .. }
            | Instruction::SkipIfRegistersNotEqual { .. } | Instruction::JumpWithOffset { .. }
            | Instruction::SkipIfKey { .. } | Instruction::SkipIfNotKey { .. }
            | Instruction::AwaitKey { .. } => true,
            _ => false,
        }
    }

    /// Instructions that write registers only.
    spec fn is_register_write(ins: Instruction) -> bool {
        match ins {
            Instruction::LoadImmediate { .. } | Instruction::AddImmediate { .. }
            | Instruction::Assign { .. } | Instruction::Or { .. } | Instruction::And { .. }
            | Instruction::Xor { .. } | Instruction::AddWithCarry { .. }
            | Instruction::SubWithBorrow { .. } | Instruction::ShiftRight { .. }
            | Instruction::ReverseSub { .. } | Instruction::ShiftLeft { .. }
            | Instruction::RandomAnd { .. } | Instruction::ReadDelayTimer { .. } => true,
            _ => false,
        }
    }

    fn execute_control(&mut self, ins: Instruction)
        requires
            old(self).wf(),
            operands_in_range(ins),
            Self::is_control(ins),
            ins == Instruction::Return ==> old(self)@.call_stack.len() > 0,
        ensures
            final(self).wf(),
            final(self)@ == apply(old(self)@, ins, 0),
    {
        match ins {
                Instruction::ClearScreen => {
                    self.display.clear();
                },
                Instruction::Return => {
                    let top = self.call_stack.pop();
                    if let Some(a) = top {
                        self.pc = a;
                    }
                },
                Instruction::Jump { nnn } => {
                    self.pc = nnn;
                },
                Instruction::Call { nnn } => {
                    self.call_stack.push(self.pc);
                    self.pc = nnn;
                },
                Instruction::SkipIfEqual { x, nn } => {
                    if self.register(x) == nn {
                        self.skip();
                    }
                },
                Instruction::SkipIfNotEqual { x, nn } => {
                    if self.register(x) != nn {
                        self.skip();
                    }
                },
                Instruction::SkipIfRegistersEqual { x, y } => {
                    if self.register(x) == self.register(y) {
                        self.skip();
                    }
                },
                Instruction::SkipIfRegistersNotEqual { x, y } => {
                    if self.register(x) != self.register(y) {
                        self.skip();
                    }
                },
                Instruction::JumpWithOffset { nnn } => {
                    self.pc = nnn + self.register(0) as u16;
                },
                Instruction::SkipIfKey { x } => {
                    if self.keys.is_pressed(self.register(x)) {
                        self.skip();
                    }
                },
                Instruction::SkipIfNotKey { x } => {
                    if !self.keys.is_pressed(self.register(x)) {
                        self.skip();
                    }
                },
                Instruction::AwaitKey { x } => {
                    self.paused = true;
                    self.awaiting_key = Some(x);
                },
            _ => {},
        }
    }

    fn execute_register_write(&mut self, ins: Instruction, rnd: u8)
        requires
            old(self).wf(),
            operands_in_range(ins),
            Self::is_register_write(ins),
        ensures
            final(self).wf(),
            final(self)@ == apply(old(self)@, ins, rnd),
    {
        match ins {
                Instruction::LoadImmediate { x, nn } => {
                    self.set_reg(x, nn);
                },
                Instruction::AddImmediate { x, nn } => {
                    let v = self.register(x).wrapping_add(nn);
                    self.set_reg(x, v);
                },
                Instruction::Assign { .. } | Instruction::Or { .. } | Instruction::And { .. }
                | Instruction::Xor { .. } | Instruction::AddWithCarry { .. }
                | Instruction::SubWithBorrow { .. } | Instruction::ShiftRight { .. }
                | Instruction::ReverseSub { .. } | Instruction::ShiftLeft { .. } => {
                    self.execute_alu(ins);
                },
                Instruction::RandomAnd { x, nn } => {
                    self.set_reg(x, rnd & nn);
                },
                Instruction::ReadDelayTimer { x } => {
                    let v = self.delay_timer;
                    self.set_reg(x, v);
                },
            _ => {},
        }
    }

    fn execute_other(&mut self, ins: Instruction)
        requires
            old(self).wf(),
            operands_in_range(ins),
            !Self::is_control(ins),
            !Self::is_register_write(ins),
        ensures
            final(self).wf(),
            final(self)@ == apply(old(self)@, ins, 0),
    {
        match ins {
                Instruction::LoadIndex { nnn } => {
                    self.index_register = nnn;
                },
                Instruction::Draw { x, y, n } => {
                    self.draw(x, y, n);
                },
                Instruction::SetDelayTimer { x } => {
                    self.delay_timer = self.register(x);
                },
                Instruction::SetSoundTimer { x } => {
                    self.sound_timer = self.register(x);
                },
                Instruction::AddToIndex { x } => {
                    self.index_register = self.index_register.wrapping_add(self.register(x) as u16);
                },
                Instruction::SpriteAddress { x } => {
                    self.index_register = self.register(x) as u16 * GLYPH_BYTES;
                },
                Instruction::StoreBcd { x } => {
                    let v = self.register(x);
                    self.store_bcd(v);
                },
                Instruction::StoreRegisters { x } => {
                    self.store_registers(x);
                },
                Instruction::LoadRegisters { x } => {
                    self.load_registers(x);
                },
            _ => {},
        }
    }

    /// Executes the instruction word `opcode`, using `rnd` as the random
    /// byte should it be `Cxnn`. On a fault nothing changes.
    pub fn execute_with(&mut self, opcode: u16, rnd: u8) -> (r: Result<(), Fault>)
        requires
            old(self).wf(),
        ensures
            final(self).wf(),
            step_outcome(old(self)@, opcode, rnd) == settled(r, final(self)@),
            r is Err ==> final(self)@ == old(self)@,
    {
        proof {
            lemma_decoded_operands_in_range(opcode);
            reveal(step_outcome);
        }
        let ins = match decode(opcode) {
            Some(ins) => ins,
            None => {
                return Err(Fault::UnknownOpcode { opcode, pc: self.pc });
            },
        };
        if ins == Instruction::Return && self.call_stack.len() == 0 {
            return Err(Fault::StackUnderflow { pc: self.pc });
        }
        self.pc = self.pc.wrapping_add(2);
        match ins {
            Instruction::ClearScreen | Instruction::Return | Instruction::Jump { .. }
            | Instruction::Call { .. } | Instruction::SkipIfEqual { .. }
            | Instruction::SkipIfNotEqual { .. } | Instruction::SkipIfRegistersEqual { .. }
            | Instruction::SkipIfRegistersNotEqual { .. } | Instruction::JumpWithOffset { .. }
            | Instruction::SkipIfKey { .. } | Instruction::SkipIfNotKey { .. }
            | Instruction::AwaitKey { .. } => {
                self.execute_control(ins);
            },
            Instruction::LoadImmediate { .. } | Instruction::AddImmediate { .. }
            | Instruction::Assign { .. } | Instruction::Or { .. } | Instruction::And { .. }
            | Instruction::Xor { .. } | Instruction::AddWithCarry { .. }
            | Instruction::SubWithBorrow { .. } | Instruction::ShiftRight { .. }
            | Instruction::ReverseSub { .. } | Instruction::ShiftLeft { .. }
            | Instruction::RandomAnd { .. } | Instruction::ReadDelayTimer { .. } => {
                self.execute_register_write(ins, rnd);
            },
            _ => {
                self.execute_other(ins);
            },
        }
        Ok(())
    }

    /// Executes the instruction word `opcode`. A `Cxnn` draws a fresh random
    /// byte; every other instruction is fully determined.
    pub fn execute_instruction(&mut self, opcode: u16) -> (r: Result<(), Fault>)
        requires
            old(self).wf(),
        ensures
            final(self).wf(),
            exists|rnd: u8| step_outcome(old(self)@, opcode, rnd) == settled(r, final(self)@),
            !(decode_spec(opcode) matches Some(Instruction::RandomAnd { .. })) ==> step_outcome(
                old(self)@,
                opcode,
                0,
            ) == settled(r, final(self)@),
            r is Err ==> final(self)@ == old(self)@,
    {
        let rnd = if opcode / 0x1000 == 0xC {
            random_byte()
        } else {
            0
        };
        self.execute_with(opcode, rnd)
    }

    /// The big-endian instruction word at the program counter.
    pub fn fetch(&self) -> (r: u16)
        requires
            self.wf(),
        ensures
            r == fetch_spec(self@),
    {
        let hi = self.memory[self.pc as usize % MEMORY_SIZE] as u16;
        let lo = self.memory[(self.pc as usize + 1) % MEMORY_SIZE] as u16;
        hi * 0x100 + lo
    }

    /// Moves each non-zero timer one step toward zero.
    pub fn update_timers(&mut self)
        requires
            old(self).wf(),
        ensures
            final(self).wf(),
            final(self)@ == timers_ticked(old(self)@),
    {
        if self.delay_timer > 0 {
            self.delay_timer = self.delay_timer - 1;
        }
        if self.sound_timer > 0 {
            self.sound_timer = self.sound_timer - 1;
        }
    }

    /// One tick of the machine: up to `speed` fetch-execute steps, each
    /// skipped while paused, then a timer tick unless paused. Stops at the
    /// first fault and returns it, the state being the one in which the
    /// faulting instruction was fetched.
    pub fn cycle(&mut self) -> (r: Result<(), Fault>)
        requires
            old(self).wf(),
        ensures
            final(self).wf(),
            exists|rnds: Seq<u8>|
                cycle_outcome(old(self)@, rnds) == (final(self)@, fault_of(r)),
            old(self)@.paused ==> final(self)@ == old(self)@ && r is Ok,
    {
        let ghost start = self@;
        let ghost mut rnds: Seq<u8> = Seq::empty();
        let speed = self.speed;
        let mut slot: u32 = 0;
        while slot < speed
            invariant
                self.wf(),
                start == old(self)@,
                slot <= speed == start.speed,
                rnds.len() == slot,
                run_slots(start, rnds, slot as nat) == (self@, None::<Fault>),
                start.paused ==> self@ == start,
            decreases start.speed - slot,
        {
            let mut rnd: u8 = 0;
            let mut r: Result<(), Fault> = Ok(());
            if !self.paused {
                let opcode = self.fetch();
                if opcode / 0x1000 == 0xC {
                    rnd = random_byte();
                }
                r = self.execute_with(opcode, rnd);
            }
            proof {
                lemma_run_slots_next(start, rnds, rnd, slot as nat);
                rnds = rnds.push(rnd);
            }
            if let Err(e) = r {
                proof {
                    lemma_run_slots_stopped(start, rnds, (slot + 1) as nat, start.speed as nat);
                    assert(cycle_outcome(start, rnds) == (self@, Some(e)));
                }
                return Err(e);
            }
            slot = slot + 1;
        }
        if !self.paused {
            self.update_timers();
        }
        assert(cycle_outcome(start, rnds) == (self@, fault_of(Ok(()))));
        Ok(())
    }

    /// Delivers a key press: the key is marked down and, if the machine is
    /// waiting for a key, the code lands in the awaiting register and the
    /// machine resumes at once. Codes outside `0..KEYS` are ignored.
    pub fn set_key_press(&mut self, key: u8)
        requires
            old(self).wf(),
        ensures
            final(self).wf(),
            final(self)@ == key_pressed(old(self)@, key),
    {
        if key < KEYS {
            self.keys.press(key);
            if let Some(x) = self.awaiting_key {
                self.registers.set(x as usize, key);
                self.paused = false;
                self.awaiting_key = None;
            }
        }
    }

    /// Delivers a key release; codes outside `0..KEYS` are ignored.
    pub fn unset_key_press(&mut self, key: u8)
        requires
            old(self).wf(),
        ensures
            final(self).wf(),
            final(self)@ == key_released(old(self)@, key),
    {
        self.keys.release(key);
    }

    /// The frame buffer, for presentation.
    pub fn display(&self) -> (r: &DisplayBuffer)
        requires
            self.wf(),
        ensures
            r.wf(),
            r@ == self@.display,
    {
        &self.display
    }

    /// The keypad state.
    pub fn keys(&self) -> (r: &KeyState)
        requires
            self.wf(),
        ensures
            r.wf(),
            r@ == self@.keys,
    {
        &self.keys
    }

    /// The byte at `addr`, wrapping at the end of memory.
    pub fn read_memory(&self, addr: u16) -> (r: u8)
        requires
            self.wf(),
        ensures
            r == self@.memory[address(addr as int, 0)],
    {
        self.memory[addr as usize % MEMORY_SIZE]
    }

    /// The address of the next instruction.
    pub fn pc(&self) -> (r: u16)
        ensures
            r == self@.pc,
    {
        self.pc
    }

    /// The index register `I`.
    pub fn index_register(&self) -> (r: u16)
        ensures
            r == self@.index_register,
    {
        self.index_register
    }

    pub fn delay_timer(&self) -> (r: u8)
        ensures
            r == self@.delay_timer,
    {
        self.delay_timer
    }

    /// While non-zero, a tone should sound.
    pub fn sound_timer(&self) -> (r: u8)
        ensures
            r == self@.sound_timer,
    {
        self.sound_timer
    }

    /// Whether the machine waits for a key press.
    pub fn is_paused(&self) -> (r: bool)
        ensures
            r == self@.paused,
    {
        self.paused
    }

    /// Number of return addresses on the call stack.
    pub fn stack_depth(&self) -> (r: usize)
        ensures
            r == self@.call_stack.len(),
    {
        self.call_stack.len()
    }

    /// Instructions executed per cycle.
    pub fn speed(&self) -> (r: u32)
        ensures
            r == self@.speed,
    {
        self.speed
    }

    /// Sets the number of instructions executed per cycle.
    pub fn set_speed(&mut self, speed: u32)
        requires
            old(self).wf(),
        ensures
            final(self).wf(),
            final(self)@ == (MachineState { speed, ..old(self)@ }),
    {
        self.speed = speed;
    }
}

} // verus!
