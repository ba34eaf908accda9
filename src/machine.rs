//! The execution engine: eight registers, the segment store and the finger,
//! advanced one instruction at a time.
use vstd::prelude::*;
use crate::decode::{decode, decoded, Instruction};
use crate::fault::Fault;
use crate::store::{
    abandoned, allocated, amended, can_allocate, is_live, loaded, next_id, words, SegmentStore,
    StoreView,
};

verus! {

/// What the control unit asks of its surroundings after one instruction.
#[derive(PartialEq, Eq, Structural, Clone, Copy, Debug)]
pub enum Action {
    /// Nothing; fetch the next instruction.
    Continue,
    /// Write this Unicode scalar value to the output stream, then continue.
    Output(u32),
    /// Read one byte for register `c` (see `Machine::provide_input`), then
    /// continue.
    Input(usize),
    /// The machine has halted.
    Halt,
}

/// The abstract state of a machine.
pub struct MachineView {
    pub regs: Seq<u32>,
    pub store: StoreView,
    pub finger: int,
}

/// Addition modulo 2^32.
pub open spec fn wrap_add(x: u32, y: u32) -> u32 {
    ((x + y) % 0x1_0000_0000) as u32
}

/// Multiplication modulo 2^32.
pub open spec fn wrap_mul(x: u32, y: u32) -> u32 {
    ((x * y) % 0x1_0000_0000) as u32
}

/// Bitwise NOT of the bitwise AND.
pub open spec fn nand(x: u32, y: u32) -> u32 {
    !(x & y)
}

/// `v` is a Unicode scalar value (a code point that is not a surrogate).
pub open spec fn is_scalar_value(v: u32) -> bool {
    v < 0xd800 || (0xe000 <= v && v <= 0x10_ffff)
}

/// The register value that input of `b` gives: the byte zero-extended, or all
/// ones at the end of the stream.
pub open spec fn input_value(b: Option<u8>) -> u32 {
    match b {
        Some(x) => x as u32,
        None => 0xffff_ffff,
    }
}

/// The state with new registers and store and the finger on the next word.
pub open spec fn advanced(m: MachineView, regs: Seq<u32>, store: StoreView) -> MachineView {
    MachineView { regs, store, finger: m.finger + 1 }
}

/// The effect of one instruction: the next state and the action asked for, or
/// the fault it raises.
pub open spec fn execute(m: MachineView, ins: Instruction) -> Result<(MachineView, Action), Fault> {
    let r = m.regs;
    let s = m.store;
    match ins {
        Instruction::ConditionalMove { a, b, c } => Ok(
            (
                advanced(
                    m,
                    if r[c as int] != 0 {
                        r.update(a as int, r[b as int])
                    } else {
                        r
                    },
                    s,
                ),
                Action::Continue,
            ),
        ),
        Instruction::ArrayIndex { a, b, c } => {
            let id = r[b as int] as int;
            let off = r[c as int] as int;
            if !is_live(s, id) {
                Err(Fault::InvalidSegmentAccess)
            } else if off >= words(s, id).len() {
                Err(Fault::SegmentBoundsViolation)
            } else {
                Ok((advanced(m, r.update(a as int, words(s, id)[off]), s), Action::Continue))
            }
        },
        Instruction::ArrayAmendment { a, b, c } => {
            let id = r[a as int] as int;
            let off = r[b as int] as int;
            if !is_live(s, id) {
                Err(Fault::InvalidSegmentAccess)
            } else if off >= words(s, id).len() {
                Err(Fault::SegmentBoundsViolation)
            } else {
                Ok((advanced(m, r, amended(s, id, off, r[c as int])), Action::Continue))
            }
        },
        Instruction::Addition { a, b, c } => Ok(
            (advanced(m, r.update(a as int, wrap_add(r[b as int], r[c as int])), s), Action::Continue),
        ),
        Instruction::Multiplication { a, b, c } => Ok(
            (advanced(m, r.update(a as int, wrap_mul(r[b as int], r[c as int])), s), Action::Continue),
        ),
        Instruction::Division { a, b, c } => if r[c as int] == 0 {
            Err(Fault::DivisionByZero)
        } else {
            Ok(
                (
                    advanced(m, r.update(a as int, (r[b as int] / r[c as int]) as u32), s),
                    Action::Continue,
                ),
            )
        },
        Instruction::Nand { a, b, c } => Ok(
            (advanced(m, r.update(a as int, nand(r[b as int], r[c as int])), s), Action::Continue),
        ),
        Instruction::Halt => Ok((m, Action::Halt)),
        Instruction::Allocation { b, c } => if !can_allocate(s) {
            Err(Fault::SegmentTableFull)
        } else {
            Ok(
                (
                    advanced(m, r.update(b as int, next_id(s) as u32), allocated(s, r[c as int] as nat)),
                    Action::Continue,
                ),
            )
        },
        Instruction::Abandonment { c } => if r[c as int] == 0 || !is_live(s, r[c as int] as int) {
            Err(Fault::InvalidSegmentAccess)
        } else {
            Ok((advanced(m, r, abandoned(s, r[c as int])), Action::Continue))
        },
        Instruction::Output { c } => if !is_scalar_value(r[c as int]) {
            Err(Fault::InvalidOutputValue)
        } else {
            Ok((advanced(m, r, s), Action::Output(r[c as int])))
        },
        Instruction::Input { c } => Ok((advanced(m, r, s), Action::Input(c))),
        Instruction::LoadProgram { b, c } => {
            let id = r[b as int] as int;
            if id != 0 && !is_live(s, id) {
                Err(Fault::InvalidSegmentAccess)
            } else {
                Ok(
                    (
                        MachineView {
                            regs: r,
                            store: if id == 0 {
                                s
                            } else {
                                loaded(s, id)
                            },
                            finger: r[c as int] as int,
                        },
                        Action::Continue,
                    ),
                )
            }
        },
        Instruction::Orthography { dest, value } => Ok(
            (advanced(m, r.update(dest as int, value), s), Action::Continue),
        ),
        Instruction::Unsupported { opcode } => Err(Fault::UnsupportedOpcode),
    }
}

/// One fetch-decode-execute step: the word under the finger of segment 0 is
/// decoded and executed.
pub open spec fn step_result(m: MachineView) -> Result<(MachineView, Action), Fault> {
    if m.finger < 0 || m.finger >= words(m.store, 0).len() {
        Err(Fault::SegmentBoundsViolation)
    } else {
        execute(m, decoded(words(m.store, 0)[m.finger]))
    }
}

/// How a bounded run ended.
#[derive(PartialEq, Eq, Structural, Clone, Copy, Debug)]
pub enum RunStatus {
    /// A Halt instruction was executed.
    Halted,
    /// Execution stopped on a fault.
    Faulted(Fault),
    /// The step budget was used up first.
    OutOfSteps,
}

/// The state after input `b` is stored in register `c`.
pub open spec fn with_input(m: MachineView, c: usize, b: Option<u8>) -> MachineView {
    MachineView { regs: m.regs.update(c as int, input_value(b)), ..m }
}

/// The next byte of an in-memory input stream, `None` at its end.
pub open spec fn next_byte(input: Seq<u8>) -> Option<u8> {
    if input.len() > 0 {
        Some(input[0])
    } else {
        None
    }
}

/// The input stream after one read.
pub open spec fn rest_of(input: Seq<u8>) -> Seq<u8> {
    if input.len() > 0 {
        input.drop_first()
    } else {
        input
    }
}

/// Running at most `fuel` steps from `m` with the in-memory input stream
/// `input`, after `out` has been written: the final state, how the run ended,
/// and everything written.
pub open spec fn run_model(m: MachineView, input: Seq<u8>, fuel: nat, out: Seq<u32>) -> (
    MachineView,
    RunStatus,
    Seq<u32>,
)
    decreases fuel,
{
    if fuel == 0 {
        (m, RunStatus::OutOfSteps, out)
    } else {
        match step_result(m) {
            Err(f) => (m, RunStatus::Faulted(f), out),
            Ok((m2, act)) => match act {
                Action::Halt => (m2, RunStatus::Halted, out),
                Action::Continue => run_model(m2, input, (fuel - 1) as nat, out),
                Action::Output(v) => run_model(m2, input, (fuel - 1) as nat, out.push(v)),
                Action::Input(c) => run_model(
                    with_input(m2, c, next_byte(input)),
                    rest_of(input),
                    (fuel - 1) as nat,
                    out,
                ),
            },
        }
    }
}

/// What a bounded run produced.
pub struct RunReport {
    pub status: RunStatus,
    pub output: Vec<u32>,
}

/// A machine state of the shape every `Machine` has.
pub open spec fn machine_ok(m: MachineView) -> bool {
    m.regs.len() == 8 && crate::store::well_formed(m.store) && m.finger >= 0
}

/// The instruction under the finger of `m`, which must be in bounds.
pub open spec fn current(m: MachineView) -> Instruction {
    decoded(words(m.store, 0)[m.finger])
}

/// Addition wraps at 2^32, and subtracting `b` as an addition of its two's
/// complement (the Nand of `b` with itself, plus one) undoes adding `b`.
pub proof fn lemma_add_then_subtract(a: u32, b: u32)
    ensures
        wrap_add(wrap_add(a, b), wrap_add(nand(b, b), 1)) == a,
        wrap_add(0xffff_ffff, 1) == 0,
{
    assert(!(b & b) == 0xffff_ffffu32 - b) by (bit_vector);
    let m: int = 0x1_0000_0000;
    let s = (a + b) % m;
    let t = ((0xffff_ffff - b) + 1) % m;
    assert((s + t) % m == a as int) by {
        vstd::arithmetic::div_mod::lemma_add_mod_noop(a + b, m - b, m);
        vstd::arithmetic::div_mod::lemma_mod_self_0(m);
        assert((a + b) + (m - b) == a + m);
        vstd::arithmetic::div_mod::lemma_mod_add_multiples_vanish(a as int, m);
        vstd::arithmetic::div_mod::lemma_small_mod(a as nat, m as nat);
    }
}

/// Executing the immediate-load form writes the immediate value into the
/// destination register, leaves every other register and the store alone, and
/// moves the finger on.
pub proof fn lemma_orthography_step(m: MachineView)
    requires
        machine_ok(m),
        0 <= m.finger < words(m.store, 0).len(),
        crate::decode::opcode_of(words(m.store, 0)[m.finger]) == 13,
    ensures
        ({
            let p = words(m.store, 0)[m.finger];
            step_result(m) == Ok::<(MachineView, Action), Fault>(
                (
                    advanced(
                        m,
                        m.regs.update(
                            crate::decode::field_dest(p),
                            crate::decode::field_imm(p) as u32,
                        ),
                        m.store,
                    ),
                    Action::Continue,
                ),
            )
        }),
{
}

/// Division by zero faults with `DivisionByZero`; `Machine::step` then leaves
/// the machine (every register included) as it was.
pub proof fn lemma_division_by_zero(m: MachineView)
    requires
        machine_ok(m),
        0 <= m.finger < words(m.store, 0).len(),
        current(m) is Division,
        m.regs[current(m)->Division_c as int] == 0,
    ensures
        step_result(m) == Err::<(MachineView, Action), Fault>(Fault::DivisionByZero),
{
}

/// Abandoning segment 0 or an identifier that is not live, and indexing or
/// amending a segment that is not live, fault with `InvalidSegmentAccess`.
pub proof fn lemma_dead_segment_refused(m: MachineView)
    requires
        machine_ok(m),
        0 <= m.finger < words(m.store, 0).len(),
    ensures
        current(m) is Abandonment && (m.regs[current(m)->Abandonment_c as int] == 0 || !is_live(
            m.store,
            m.regs[current(m)->Abandonment_c as int] as int,
        )) ==> step_result(m) == Err::<(MachineView, Action), Fault>(Fault::InvalidSegmentAccess),
        current(m) is ArrayIndex && !is_live(m.store, m.regs[current(m)->ArrayIndex_b as int] as int)
            ==> step_result(m) == Err::<(MachineView, Action), Fault>(Fault::InvalidSegmentAccess),
        current(m) is ArrayAmendment && !is_live(
            m.store,
            m.regs[current(m)->ArrayAmendment_a as int] as int,
        ) ==> step_result(m) == Err::<(MachineView, Action), Fault>(Fault::InvalidSegmentAccess),
{
}

/// Load Program from segment 0 copies nothing: the store and registers stay
/// as they are, and the finger is set to register C with no increment.
pub proof fn lemma_load_program_from_zero(m: MachineView)
    requires
        machine_ok(m),
        0 <= m.finger < words(m.store, 0).len(),
        current(m) is LoadProgram,
        m.regs[current(m)->LoadProgram_b as int] == 0,
    ensures
        step_result(m) == Ok::<(MachineView, Action), Fault>(
            (
                MachineView { finger: m.regs[current(m)->LoadProgram_c as int] as int, ..m },
                Action::Continue,
            ),
        ),
{
}

/// A machine: registers, segment store and finger.
pub struct Machine {
    registers: [u32; 8],
    store: SegmentStore,
    finger: usize,
}

impl View for Machine {
    type V = MachineView;

    closed spec fn view(&self) -> MachineView {
        MachineView { regs: self.registers@, store: self.store@, finger: self.finger as int }
    }
}

impl Machine {
    /// The invariant every operation preserves.
    pub closed spec fn inv(&self) -> bool {
        self.store.inv()
    }

    /// A machine whose segment 0 holds `program`, with all registers zero and
    /// the finger at 0.
    pub fn new(program: Vec<u32>) -> (m: Self)
        ensures
            m.inv(),
            m@.regs == Seq::new(8, |i: int| 0u32),
            m@.store.slots == seq![Some(program@)],
            m@.store.free == Seq::<u32>::empty(),
            m@.finger == 0,
    {
        let m = Machine { registers: [0u32; 8], store: SegmentStore::new(program), finger: 0 };
        assert(m@.regs =~= Seq::new(8, |i: int| 0u32));
        m
    }

    /// The register values.
    pub fn registers(&self) -> (r: [u32; 8])
        ensures
            r@ == self@.regs,
    {
        self.registers
    }

    /// The finger: the offset in segment 0 of the next instruction.
    pub fn finger(&self) -> (r: usize)
        ensures
            r == self@.finger,
    {
        self.finger
    }

    /// The segment store.
    pub fn store(&self) -> (r: &SegmentStore)
        ensures
            r@ == self@.store,
            self.inv() ==> r.inv(),
    {
        &self.store
    }

    /// The abstract state of a machine that keeps its invariant has the shape
    /// the laws about `step_result` assume.
    pub proof fn lemma_inv(&self)
        requires
            self.inv(),
        ensures
            machine_ok(self@),
    {
    }

    /// Stores the result of an input action in register `c`.
    pub fn provide_input(&mut self, c: usize, byte: Option<u8>)
        requires
            old(self).inv(),
            c < 8,
        ensures
            final(self).inv(),
            final(self)@ == (MachineView {
                regs: old(self)@.regs.update(c as int, input_value(byte)),
                ..old(self)@
            }),
    {
        let v = match byte {
            Some(x) => x as u32,
            None => 0xffff_ffffu32,
        };
        self.registers[c] = v;
    }
    /// Executes the instruction under the finger. On success the machine is in
    /// the state `step_result` gives and the action is returned; on a fault
    /// nothing changes (every check comes before any mutation).
    pub fn step(&mut self) -> (r: Result<Action, Fault>)
        requires
            old(self).inv(),
        ensures
            final(self).inv(),
            match step_result(old(self)@) {
                Ok((m, a)) => r == Ok::<Action, Fault>(a) && final(self)@ == m,
                Err(f) => r == Err::<Action, Fault>(f) && final(self)@ == old(self)@,
            },
    {
        let word = match self.store.fetch(self.finger) {
            Ok(w) => w,
            Err(f) => return Err(f),
        };
        let ins = decode(word);
        match ins {
            Instruction::ConditionalMove { a, b, c } => {
                if self.registers[c] != 0 {
                    let v = self.registers[b];
                    self.registers[a] = v;
                }
            },
            Instruction::ArrayIndex { a, b, c } => {
                match self.store.get(self.registers[b], self.registers[c]) {
                    Ok(v) => self.registers[a] = v,
                    Err(f) => return Err(f),
                }
            },
            Instruction::ArrayAmendment { a, b, c } => {
                let id = self.registers[a];
                let off = self.registers[b];
                let v = self.registers[c];
                match self.store.set(id, off, v) {
                    Ok(()) => {},
                    Err(f) => return Err(f),
                }
            },
            Instruction::Addition { a, b, c } => {
                let x = self.registers[b];
                let y = self.registers[c];
                let v = ((x as u64 + y as u64) % 0x1_0000_0000u64) as u32;
                self.registers[a] = v;
            },
            Instruction::Multiplication { a, b, c } => {
                let x = self.registers[b];
                let y = self.registers[c];
                assert(x as int * y as int <= 0xffff_ffff * 0xffff_ffff) by (nonlinear_arith)
                    requires
                        x <= 0xffff_ffff,
                        y <= 0xffff_ffff,
                ;
                let v = ((x as u64 * y as u64) % 0x1_0000_0000u64) as u32;
                self.registers[a] = v;
            },
            Instruction::Division { a, b, c } => {
                let y = self.registers[c];
                if y == 0 {
                    return Err(Fault::DivisionByZero);
                }
                let v = self.registers[b] / y;
                self.registers[a] = v;
            },
            Instruction::Nand { a, b, c } => {
                let v = !(self.registers[b] & self.registers[c]);
                self.registers[a] = v;
            },
            Instruction::Halt => {
                return Ok(Action::Halt);
            },
            Instruction::Allocation { b, c } => {
                match self.store.allocate(self.registers[c]) {
                    Ok(id) => self.registers[b] = id,
                    Err(f) => return Err(f),
                }
            },
            Instruction::Abandonment { c } => {
                match self.store.abandon(self.registers[c]) {
                    Ok(()) => {},
                    Err(f) => return Err(f),
                }
            },
            Instruction::Output { c } => {
                let v = self.registers[c];
                if !(v < 0xd800 || (0xe000 <= v && v <= 0x10_ffff)) {
                    return Err(Fault::InvalidOutputValue);
                }
                self.finger = self.finger + 1;
                return Ok(Action::Output(v));
            },
            Instruction::Input { c } => {
                self.finger = self.finger + 1;
                return Ok(Action::Input(c));
            },
            Instruction::LoadProgram { b, c } => {
                match self.store.load_program(self.registers[b]) {
                    Ok(()) => {},
                    Err(f) => return Err(f),
                }
                self.finger = self.registers[c] as usize;
                return Ok(Action::Continue);
            },
            Instruction::Orthography { dest, value } => {
                self.registers[dest] = value;
            },
            Instruction::Unsupported { opcode } => {
                return Err(Fault::UnsupportedOpcode);
            },
        }
        self.finger = self.finger + 1;
        Ok(Action::Continue)
    }
    /// Runs at most `max_steps` steps against an in-memory input stream,
    /// collecting the output values.
    pub fn run(&mut self, input: &Vec<u8>, max_steps: u64) -> (r: RunReport)
        requires
            old(self).inv(),
        ensures
            final(self).inv(),
            run_model(old(self)@, input@, max_steps as nat, Seq::empty()) == (
                final(self)@,
                r.status,
                r.output@,
            ),
    {
        let ghost goal = run_model(self@, input@, max_steps as nat, Seq::empty());
        let mut pos: usize = 0;
        let mut output: Vec<u32> = Vec::new();
        let mut fuel: u64 = max_steps;
        assert(input@.subrange(0, input@.len() as int) =~= input@);
        assert(output@ =~= Seq::<u32>::empty());
        while fuel > 0
            invariant
                self.inv(),
                pos <= input.len(),
                goal == run_model(old(self)@, input@, max_steps as nat, Seq::empty()),
                run_model(self@, input@.subrange(pos as int, input@.len() as int), fuel as nat, output@)
                    == goal,
            decreases fuel,
        {
            let ghost rest = input@.subrange(pos as int, input@.len() as int);
            let res = self.step();
            match res {
                Err(f) => {
                    return RunReport { status: RunStatus::Faulted(f), output };
                },
                Ok(Action::Halt) => {
                    return RunReport { status: RunStatus::Halted, output };
                },
                Ok(Action::Continue) => {},
                Ok(Action::Output(v)) => {
                    output.push(v);
                },
                Ok(Action::Input(c)) => {
                    let b = if pos < input.len() {
                        let x = input[pos];
                        pos = pos + 1;
                        assert(rest_of(rest) =~= input@.subrange(pos as int, input@.len() as int));
                        Some(x)
                    } else {
                        None
                    };
                    self.provide_input(c, b);
                },
            }
            fuel = fuel - 1;
        }
        RunReport { status: RunStatus::OutOfSteps, output }
    }
}

} // verus!
