//! The execution layer: a small register machine with gas metering, a trace
//! hash chained over every executed instruction, and state changes recorded by
//! `STORE`.
use vstd::prelude::*;

use crate::bytes::{be_u64_prefix, be_value};
use crate::hashing::{is_digest_text, push_str_bytes, sha256_digest, sha256_hex, sha256_hex_text, sha256_of};
use crate::text::{decimal, push_decimal, push_str};

verus! {

/// The instruction set of the machine.
#[derive(Debug, Clone, Copy, PartialEq, Eq, Structural)]
pub enum OpCode {
    LOAD(u32, u32),
    STORE(u32, u32),
    ADD(u32, u32, u32),
    SUB(u32, u32, u32),
    HASH(u32, u32),
    CMP(u32, u32),
    JZ(u32, u32),
    JNZ(u32, u32),
    RETURN,
    REVERT,
}

/// A change to one key of the state.
#[derive(Debug)]
pub struct StateChange {
    pub key: String,
    pub old_value: Option<String>,
    pub new_value: Option<String>,
}

pub struct StateChangeView {
    pub key: Seq<char>,
    pub old_value: Option<Seq<char>>,
    pub new_value: Option<Seq<char>>,
}

pub open spec fn opt_string_view(o: Option<String>) -> Option<Seq<char>> {
    match o {
        Some(s) => Some(s@),
        None => None,
    }
}

pub fn clone_opt_string(o: &Option<String>) -> (r: Option<String>)
    ensures
        r == *o,
{
    match o {
        Some(s) => Some(s.clone()),
        None => None,
    }
}

impl View for StateChange {
    type V = StateChangeView;

    open spec fn view(&self) -> StateChangeView {
        StateChangeView {
            key: self.key@,
            old_value: opt_string_view(self.old_value),
            new_value: opt_string_view(self.new_value),
        }
    }
}

impl Clone for StateChange {
    fn clone(&self) -> (r: Self)
        ensures
            r == *self,
    {
        StateChange {
            key: self.key.clone(),
            old_value: clone_opt_string(&self.old_value),
            new_value: clone_opt_string(&self.new_value),
        }
    }
}

/// The views of a sequence of state changes.
pub open spec fn changes_view(s: Seq<StateChange>) -> Seq<StateChangeView> {
    s.map_values(|c: StateChange| c@)
}

/// Clones a list of state changes.
pub fn clone_changes(v: &Vec<StateChange>) -> (r: Vec<StateChange>)
    ensures
        r@ == v@,
{
    let r = v.clone();
    assert(r@ =~= v@);
    r
}

/// The register file, program counter, gas meter, recorded changes and trace
/// hash of a running program.
#[derive(Debug)]
pub struct ExecutionContext {
    pub registers: [u64; 16],
    pub pc: u32,
    pub gas_used: u64,
    pub gas_limit: u64,
    pub state_diffs: Vec<StateChange>,
    pub trace_hash: String,
    pub halted: bool,
}

pub struct ContextView {
    pub registers: Seq<u64>,
    pub pc: u32,
    pub gas_used: u64,
    pub gas_limit: u64,
    pub state_diffs: Seq<StateChangeView>,
    pub trace_hash: Seq<char>,
    pub halted: bool,
}

impl View for ExecutionContext {
    type V = ContextView;

    open spec fn view(&self) -> ContextView {
        ContextView {
            registers: self.registers@,
            pc: self.pc,
            gas_used: self.gas_used,
            gas_limit: self.gas_limit,
            state_diffs: changes_view(self.state_diffs@),
            trace_hash: self.trace_hash@,
            halted: self.halted,
        }
    }
}

impl Clone for ExecutionContext {
    fn clone(&self) -> (r: Self)
        ensures
            r@ == self@,
    {
        ExecutionContext {
            registers: self.registers,
            pc: self.pc,
            gas_used: self.gas_used,
            gas_limit: self.gas_limit,
            state_diffs: clone_changes(&self.state_diffs),
            trace_hash: self.trace_hash.clone(),
            halted: self.halted,
        }
    }
}

impl ExecutionContext {
    /// A fresh context: all registers zero, nothing used, nothing recorded.
    pub fn new(gas_limit: u64) -> (c: Self)
        ensures
            c@ == initial_context(gas_limit),
    {
        let c = ExecutionContext {
            registers: [0; 16],
            pc: 0,
            gas_used: 0,
            gas_limit,
            state_diffs: Vec::new(),
            trace_hash: String::new(),
            halted: false,
        };
        assert(c@.registers =~= Seq::new(16, |i: int| 0u64));
        assert(c@.state_diffs =~= Seq::<StateChangeView>::empty());
        c
    }
}

pub open spec fn initial_context(gas_limit: u64) -> ContextView {
    ContextView {
        registers: Seq::new(16, |i: int| 0u64),
        pc: 0,
        gas_used: 0,
        gas_limit,
        state_diffs: Seq::empty(),
        trace_hash: Seq::empty(),
        halted: false,
    }
}

/// A decision together with the trace that justifies it and the party that
/// answers for it.
#[derive(Debug, PartialEq)]
pub struct AtomicDecisionUnit {
    pub input_state_hash: String,
    pub rule_id: String,
    pub execution_trace: Vec<OpCode>,
    pub output_proof: String,
    pub accountability_anchor: String,
    pub risk_stake: u64,
}

impl Clone for AtomicDecisionUnit {
    fn clone(&self) -> (r: Self)
        ensures
            r.input_state_hash == self.input_state_hash,
            r.rule_id == self.rule_id,
            r.execution_trace@ == self.execution_trace@,
            r.output_proof == self.output_proof,
            r.accountability_anchor == self.accountability_anchor,
            r.risk_stake == self.risk_stake,
    {
        let t = self.execution_trace.clone();
        assert(t@ =~= self.execution_trace@);
        AtomicDecisionUnit {
            input_state_hash: self.input_state_hash.clone(),
            rule_id: self.rule_id.clone(),
            execution_trace: t,
            output_proof: self.output_proof.clone(),
            accountability_anchor: self.accountability_anchor.clone(),
            risk_stake: self.risk_stake,
        }
    }
}

/// What a finished run reports.
#[derive(Debug)]
pub struct ExecutionResult {
    pub state_diffs: Vec<StateChange>,
    pub trace_hash: String,
    pub gas_used: u64,
    pub success: bool,
}

pub struct ExecutionResultView {
    pub state_diffs: Seq<StateChangeView>,
    pub trace_hash: Seq<char>,
    pub gas_used: u64,
    pub success: bool,
}

impl View for ExecutionResult {
    type V = ExecutionResultView;

    open spec fn view(&self) -> ExecutionResultView {
        ExecutionResultView {
            state_diffs: changes_view(self.state_diffs@),
            trace_hash: self.trace_hash@,
            gas_used: self.gas_used,
            success: self.success,
        }
    }
}

impl Clone for ExecutionResult {
    fn clone(&self) -> (r: Self)
        ensures
            r@ == self@,
    {
        ExecutionResult {
            state_diffs: clone_changes(&self.state_diffs),
            trace_hash: self.trace_hash.clone(),
            gas_used: self.gas_used,
            success: self.success,
        }
    }
}

/// Why a run stopped early.
#[derive(Debug, Clone, Copy, PartialEq, Eq, Structural)]
pub enum ExecutionError {
    InvalidRegister,
    OutOfGas,
    ExecutionReverted,
    UnknownInstruction,
}

// ---------------------------------------------------------------------------
// The machine's semantics.
// ---------------------------------------------------------------------------

/// The text of an instruction as its `Debug` rendering spells it.
pub open spec fn opcode_text(op: OpCode) -> Seq<char> {
    let sep = seq![',', ' '];
    match op {
        OpCode::LOAD(a, b) => seq!['L', 'O', 'A', 'D', '('] + decimal(a as nat) + sep + decimal(b as nat) + seq![')'],
        OpCode::STORE(a, b) => seq!['S', 'T', 'O', 'R', 'E', '('] + decimal(a as nat) + sep + decimal(b as nat) + seq![')'],
        OpCode::ADD(a, b, c) => seq!['A', 'D', 'D', '('] + decimal(a as nat) + sep + decimal(b as nat) + sep + decimal(c as nat) + seq![')'],
        OpCode::SUB(a, b, c) => seq!['S', 'U', 'B', '('] + decimal(a as nat) + sep + decimal(b as nat) + sep + decimal(c as nat) + seq![')'],
        OpCode::HASH(a, b) => seq!['H', 'A', 'S', 'H', '('] + decimal(a as nat) + sep + decimal(b as nat) + seq![')'],
        OpCode::CMP(a, b) => seq!['C', 'M', 'P', '('] + decimal(a as nat) + sep + decimal(b as nat) + seq![')'],
        OpCode::JZ(a, b) => seq!['J', 'Z', '('] + decimal(a as nat) + sep + decimal(b as nat) + seq![')'],
        OpCode::JNZ(a, b) => seq!['J', 'N', 'Z', '('] + decimal(a as nat) + sep + decimal(b as nat) + seq![')'],
        OpCode::RETURN => seq!['R', 'E', 'T', 'U', 'R', 'N'],
        OpCode::REVERT => seq!['R', 'E', 'V', 'E', 'R', 'T'],
    }
}

/// The trace hash after executing `op`: the hexadecimal SHA-256 of the old
/// trace hash followed by the instruction's text.
pub open spec fn next_trace(trace: Seq<char>, op: OpCode) -> Seq<char> {
    sha256_hex_text(vstd::utf8::encode_utf8(trace) + vstd::utf8::encode_utf8(opcode_text(op)))
}

/// The key under which `STORE` records a memory cell.
pub open spec fn mem_key(addr: u32) -> Seq<char> {
    seq!['m', 'e', 'm', '_'] + decimal(addr as nat)
}

/// What `HASH` writes: the first eight bytes of the SHA-256 digest of the
/// value's decimal text, read big-endian.
pub open spec fn hash_register_value(v: u64) -> u64 {
    be_value(sha256_of(vstd::utf8::encode_utf8(decimal(v as nat))).take(8)) as u64
}

pub open spec fn wrap64(x: int) -> u64 {
    (x % 0x1_0000_0000_0000_0000) as u64
}

/// One instruction applied to a context: the context afterwards (before gas
/// and trace are charged) and the error it stops with, if any.
pub open spec fn step(c: ContextView, op: OpCode) -> (ContextView, Option<ExecutionError>) {
    let next = (c.pc + 1) as u32;
    let regs = c.registers;
    match op {
        OpCode::LOAD(r, addr) => if r >= 16 {
            (c, Some(ExecutionError::InvalidRegister))
        } else {
            (ContextView { registers: regs.update(r as int, addr as u64), pc: next, ..c }, None)
        },
        OpCode::STORE(addr, r) => if r >= 16 {
            (c, Some(ExecutionError::InvalidRegister))
        } else {
            let change = StateChangeView {
                key: mem_key(addr),
                old_value: None,
                new_value: Some(decimal(regs[r as int] as nat)),
            };
            (ContextView { state_diffs: c.state_diffs.push(change), pc: next, ..c }, None)
        },
        OpCode::ADD(d, a, b) => if d >= 16 || a >= 16 || b >= 16 {
            (c, Some(ExecutionError::InvalidRegister))
        } else {
            (ContextView {
                registers: regs.update(d as int, wrap64(regs[a as int] + regs[b as int])),
                pc: next,
                ..c
            }, None)
        },
        OpCode::SUB(d, a, b) => if d >= 16 || a >= 16 || b >= 16 {
            (c, Some(ExecutionError::InvalidRegister))
        } else {
            (ContextView {
                registers: regs.update(d as int, wrap64(regs[a as int] - regs[b as int])),
                pc: next,
                ..c
            }, None)
        },
        OpCode::HASH(d, s) => if d >= 16 || s >= 16 {
            (c, Some(ExecutionError::InvalidRegister))
        } else {
            (ContextView {
                registers: regs.update(d as int, hash_register_value(regs[s as int])),
                pc: next,
                ..c
            }, None)
        },
        OpCode::CMP(a, b) => if a >= 16 || b >= 16 {
            (c, Some(ExecutionError::InvalidRegister))
        } else {
            let flag: u64 = if regs[a as int] == regs[b as int] { 1 } else { 0 };
            (ContextView { registers: regs.update(0, flag), pc: next, ..c }, None)
        },
        OpCode::JZ(r, addr) => if r >= 16 {
            (c, Some(ExecutionError::InvalidRegister))
        } else if regs[r as int] == 0 {
            (ContextView { pc: addr, ..c }, None)
        } else {
            (ContextView { pc: next, ..c }, None)
        },
        OpCode::JNZ(r, addr) => if r >= 16 {
            (c, Some(ExecutionError::InvalidRegister))
        } else if regs[r as int] != 0 {
            (ContextView { pc: addr, ..c }, None)
        } else {
            (ContextView { pc: next, ..c }, None)
        },
        OpCode::RETURN => (ContextView { halted: true, pc: next, ..c }, None),
        OpCode::REVERT => (ContextView { halted: true, ..c }, Some(ExecutionError::ExecutionReverted)),
    }
}

/// Whether executing `op` moves the program counter one step forward (rather
/// than failing, reverting or taking a jump).
pub open spec fn step_advances_pc(c: ContextView, op: OpCode) -> bool {
    match op {
        OpCode::LOAD(r, _) => r < 16,
        OpCode::STORE(_, r) => r < 16,
        OpCode::ADD(d, a, b) => d < 16 && a < 16 && b < 16,
        OpCode::SUB(d, a, b) => d < 16 && a < 16 && b < 16,
        OpCode::HASH(d, s) => d < 16 && s < 16,
        OpCode::CMP(a, b) => a < 16 && b < 16,
        OpCode::JZ(r, _) => r < 16 && c.registers[r as int] != 0,
        OpCode::JNZ(r, _) => r < 16 && c.registers[r as int] == 0,
        OpCode::RETURN => true,
        OpCode::REVERT => false,
    }
}

/// Gas and trace charged for an instruction that completed.
pub open spec fn charge(c: ContextView, op: OpCode) -> ContextView {
    ContextView { gas_used: (c.gas_used + 1) as u64, trace_hash: next_trace(c.trace_hash, op), ..c }
}

/// Running a program from a context: instructions are taken in order until
/// the program ends, the machine halts, gas runs out or an instruction fails.
/// The context afterwards, and the error if the run failed.
pub open spec fn run(c: ContextView, prog: Seq<OpCode>) -> (ContextView, Option<ExecutionError>)
    decreases prog.len(),
{
    if prog.len() == 0 || c.halted {
        (c, None)
    } else if c.gas_used >= c.gas_limit {
        (c, Some(ExecutionError::OutOfGas))
    } else {
        let (c2, e) = step(c, prog[0]);
        match e {
            Some(err) => (c2, Some(err)),
            None => run(charge(c2, prog[0]), prog.drop_first()),
        }
    }
}

/// Whether no instruction of the run moves the program counter past
/// `u32::MAX` (the one way a run could overflow).
pub open spec fn run_keeps_pc_in_range(c: ContextView, prog: Seq<OpCode>) -> bool
    decreases prog.len(),
{
    if prog.len() == 0 || c.halted || c.gas_used >= c.gas_limit {
        true
    } else {
        let (c2, e) = step(c, prog[0]);
        &&& !(step_advances_pc(c, prog[0]) && c.pc == u32::MAX)
        &&& match e {
            Some(_) => true,
            None => run_keeps_pc_in_range(charge(c2, prog[0]), prog.drop_first()),
        }
    }
}

/// The report of a run from `start` that finished in `c`: the recorded
/// changes, the trace hash and the gas used; it succeeded unless the machine
/// had halted before the run (then nothing ran). A run that ends on RETURN
/// succeeds.
pub open spec fn result_of(start: ContextView, c: ContextView) -> ExecutionResultView {
    ExecutionResultView {
        state_diffs: c.state_diffs,
        trace_hash: c.trace_hash,
        gas_used: c.gas_used,
        success: !start.halted,
    }
}

// ---------------------------------------------------------------------------
// Laws of the machine.
// ---------------------------------------------------------------------------

/// Execution is deterministic: the same program run from equal contexts ends
/// in equal contexts with the same outcome.
pub proof fn lemma_execution_deterministic(c1: ContextView, c2: ContextView, prog: Seq<OpCode>)
    requires
        c1 == c2,
    ensures
        run(c1, prog) == run(c2, prog),
{
}

/// A run never uses more gas than its limit, and never changes the limit.
pub proof fn lemma_gas_stays_within_limit(c: ContextView, prog: Seq<OpCode>)
    requires
        c.gas_used <= c.gas_limit,
    ensures
        run(c, prog).0.gas_used <= c.gas_limit,
        run(c, prog).0.gas_limit == c.gas_limit,
        run(c, prog).0.gas_used >= c.gas_used,
    decreases prog.len(),
{
    if prog.len() > 0 && !c.halted && c.gas_used < c.gas_limit {
        let (c2, e) = step(c, prog[0]);
        if e is None {
            lemma_gas_stays_within_limit(charge(c2, prog[0]), prog.drop_first());
        }
    }
}

/// A run only appends to the recorded state changes; what was recorded before
/// stays, in order.
pub proof fn lemma_changes_only_grow(c: ContextView, prog: Seq<OpCode>)
    ensures
        run(c, prog).0.state_diffs.len() >= c.state_diffs.len(),
        run(c, prog).0.state_diffs.subrange(0, c.state_diffs.len() as int) == c.state_diffs,
    decreases prog.len(),
{
    if prog.len() > 0 && !c.halted && c.gas_used < c.gas_limit {
        let (c2, e) = step(c, prog[0]);
        if e is None {
            let c3 = charge(c2, prog[0]);
            lemma_changes_only_grow(c3, prog.drop_first());
            assert(c3.state_diffs.subrange(0, c.state_diffs.len() as int) =~= c.state_diffs);
            let r = run(c3, prog.drop_first()).0.state_diffs;
            assert(r.subrange(0, c.state_diffs.len() as int) =~= r.subrange(0, c3.state_diffs.len() as int).subrange(0, c.state_diffs.len() as int));
        } else {
            assert(c2.state_diffs.subrange(0, c.state_diffs.len() as int) =~= c.state_diffs);
        }
    } else {
        assert(c.state_diffs.subrange(0, c.state_diffs.len() as int) =~= c.state_diffs);
    }
}

/// A halted machine executes nothing: the context is left as it was.
pub proof fn lemma_halted_runs_nothing(c: ContextView, prog: Seq<OpCode>)
    requires
        c.halted,
    ensures
        run(c, prog) == (c, None::<ExecutionError>),
{
}

/// `SUB(d, a, b)` on valid registers, run on a live machine with gas left,
/// succeeds and leaves in register `d` the value of register `a` minus the
/// value of register `b`, wrapping around modulo 2^64; the other registers
/// keep their values and the machine moves to the next instruction.
pub proof fn lemma_sub_subtracts(c: ContextView, d: u32, a: u32, b: u32)
    requires
        c.registers.len() == 16,
        d < 16,
        a < 16,
        b < 16,
        !c.halted,
        c.gas_used < c.gas_limit,
    ensures
        ({
            let (c2, e) = run(c, seq![OpCode::SUB(d, a, b)]);
            let x = c.registers[a as int];
            let y = c.registers[b as int];
            &&& e is None
            &&& c2.registers.len() == 16
            &&& x >= y ==> c2.registers[d as int] == x - y
            &&& x < y ==> c2.registers[d as int] == x - y + 0x1_0000_0000_0000_0000
            &&& (c2.registers[d as int] + y) % 0x1_0000_0000_0000_0000 == x
            &&& forall|k: int| 0 <= k < 16 && k != d ==> c2.registers[k] == c.registers[k]
            &&& c2.pc == c.pc + 1 || c.pc == u32::MAX
        }),
{
    reveal_with_fuel(run, 2);
    let x = c.registers[a as int];
    let y = c.registers[b as int];
    assert(seq![OpCode::SUB(d, a, b)].drop_first() =~= Seq::<OpCode>::empty());
    let v = wrap64(x - y);
    if x >= y {
        assert(v == x - y);
    } else {
        assert(v == x - y + 0x1_0000_0000_0000_0000);
    }
}

/// `ADD(d, a, b)` on valid registers, run on a live machine with gas left,
/// succeeds and leaves in register `d` the sum of registers `a` and `b`,
/// wrapping around modulo 2^64; the other registers keep their values.
pub proof fn lemma_add_adds(c: ContextView, d: u32, a: u32, b: u32)
    requires
        c.registers.len() == 16,
        d < 16,
        a < 16,
        b < 16,
        !c.halted,
        c.gas_used < c.gas_limit,
    ensures
        ({
            let (c2, e) = run(c, seq![OpCode::ADD(d, a, b)]);
            let x = c.registers[a as int];
            let y = c.registers[b as int];
            &&& e is None
            &&& c2.registers.len() == 16
            &&& x + y < 0x1_0000_0000_0000_0000 ==> c2.registers[d as int] == x + y
            &&& x + y >= 0x1_0000_0000_0000_0000 ==> c2.registers[d as int] == x + y - 0x1_0000_0000_0000_0000
            &&& forall|k: int| 0 <= k < 16 && k != d ==> c2.registers[k] == c.registers[k]
        }),
{
    reveal_with_fuel(run, 2);
    let x = c.registers[a as int];
    let y = c.registers[b as int];
    assert(seq![OpCode::ADD(d, a, b)].drop_first() =~= Seq::<OpCode>::empty());
    let v = wrap64(x + y);
    if x + y < 0x1_0000_0000_0000_0000 {
        assert(v == x + y);
    } else {
        assert(v == x + y - 0x1_0000_0000_0000_0000);
    }
}

/// The other instructions, each run alone on a live machine with gas left
/// and valid registers: `LOAD(r, x)` puts `x` in register `r`; `STORE(x, r)`
/// records the decimal text of register `r` as the new value of memory cell
/// "mem_" followed by `x` in decimal; `CMP(a, b)`
/// puts 1 in register 0 when registers `a` and `b` are equal and 0 when they
/// differ; `JZ(r, t)` jumps to `t` exactly when register `r` is 0 and
/// `JNZ(r, t)` exactly when it is not; `RETURN` halts without error;
/// `REVERT` fails with `ExecutionReverted`; a register number of 16 or more
/// fails with `InvalidRegister`.
pub proof fn lemma_instruction_effects(c: ContextView, r: u32, a: u32, b: u32, x: u32, t: u32)
    requires
        c.registers.len() == 16,
        !c.halted,
        c.gas_used < c.gas_limit,
    ensures
        r < 16 ==> ({
            let (c2, e) = run(c, seq![OpCode::LOAD(r, x)]);
            e is None && c2.registers[r as int] == x
                && forall|k: int| 0 <= k < 16 && k != r ==> c2.registers[k] == c.registers[k]
        }),
        a < 16 && b < 16 ==> ({
            let (c2, e) = run(c, seq![OpCode::CMP(a, b)]);
            &&& e is None
            &&& c.registers[a as int] == c.registers[b as int] ==> c2.registers[0] == 1
            &&& c.registers[a as int] != c.registers[b as int] ==> c2.registers[0] == 0
        }),
        r < 16 ==> ({
            let (c2, e) = run(c, seq![OpCode::JZ(r, t)]);
            &&& e is None
            &&& c.registers[r as int] == 0 ==> c2.pc == t
            &&& c.registers[r as int] != 0 && c.pc < u32::MAX ==> c2.pc == c.pc + 1
            &&& c2.registers == c.registers
        }),
        r < 16 ==> ({
            let (c2, e) = run(c, seq![OpCode::JNZ(r, t)]);
            &&& e is None
            &&& c.registers[r as int] != 0 ==> c2.pc == t
            &&& c.registers[r as int] == 0 && c.pc < u32::MAX ==> c2.pc == c.pc + 1
            &&& c2.registers == c.registers
        }),
        ({
            let (c2, e) = run(c, seq![OpCode::RETURN]);
            e is None && c2.halted && c2.registers == c.registers
        }),
        r < 16 ==> ({
            let (c2, e) = run(c, seq![OpCode::STORE(x, r)]);
            &&& e is None
            &&& c2.registers == c.registers
            &&& c2.state_diffs == c.state_diffs.push(StateChangeView {
                key: seq!['m', 'e', 'm', '_'] + decimal(x as nat),
                old_value: None,
                new_value: Some(decimal(c.registers[r as int] as nat)),
            })
        }),
        run(c, seq![OpCode::REVERT]).1 == Some(ExecutionError::ExecutionReverted),
        r >= 16 ==> run(c, seq![OpCode::LOAD(r, x)]).1 == Some(ExecutionError::InvalidRegister),
        a >= 16 || b >= 16 ==> run(c, seq![OpCode::CMP(a, b)]).1 == Some(ExecutionError::InvalidRegister),
{
    reveal_with_fuel(run, 2);
    assert(seq![OpCode::LOAD(r, x)].drop_first() =~= Seq::<OpCode>::empty());
    assert(seq![OpCode::CMP(a, b)].drop_first() =~= Seq::<OpCode>::empty());
    assert(seq![OpCode::JZ(r, t)].drop_first() =~= Seq::<OpCode>::empty());
    assert(seq![OpCode::JNZ(r, t)].drop_first() =~= Seq::<OpCode>::empty());
    assert(seq![OpCode::RETURN].drop_first() =~= Seq::<OpCode>::empty());
    assert(seq![OpCode::STORE(x, r)].drop_first() =~= Seq::<OpCode>::empty());
}

// ---------------------------------------------------------------------------
// The engine.
// ---------------------------------------------------------------------------

/// The execution engine: a context that programs run in.
#[derive(Debug)]
pub struct ExecutionEngine {
    pub context: ExecutionContext,
}

fn opcode_string(op: OpCode) -> (s: String)
    ensures
        s@ == opcode_text(op),
{
    let mut s = String::new();
    match op {
        OpCode::LOAD(a, b) => {
            push_str(&mut s, "LOAD(");
            push_decimal(&mut s, a as u64);
            push_str(&mut s, ", ");
            push_decimal(&mut s, b as u64);
            push_str(&mut s, ")");
        },
        OpCode::STORE(a, b) => {
            push_str(&mut s, "STORE(");
            push_decimal(&mut s, a as u64);
            push_str(&mut s, ", ");
            push_decimal(&mut s, b as u64);
            push_str(&mut s, ")");
        },
        OpCode::ADD(a, b, c) => {
            push_str(&mut s, "ADD(");
            push_decimal(&mut s, a as u64);
            push_str(&mut s, ", ");
            push_decimal(&mut s, b as u64);
            push_str(&mut s, ", ");
            push_decimal(&mut s, c as u64);
            push_str(&mut s, ")");
        },
        OpCode::SUB(a, b, c) => {
            push_str(&mut s, "SUB(");
            push_decimal(&mut s, a as u64);
            push_str(&mut s, ", ");
            push_decimal(&mut s, b as u64);
            push_str(&mut s, ", ");
            push_decimal(&mut s, c as u64);
            push_str(&mut s, ")");
        },
        OpCode::HASH(a, b) => {
            push_str(&mut s, "HASH(");
            push_decimal(&mut s, a as u64);
            push_str(&mut s, ", ");
            push_decimal(&mut s, b as u64);
            push_str(&mut s, ")");
        },
        OpCode::CMP(a, b) => {
            push_str(&mut s, "CMP(");
            push_decimal(&mut s, a as u64);
            push_str(&mut s, ", ");
            push_decimal(&mut s, b as u64);
            push_str(&mut s, ")");
        },
        OpCode::JZ(a, b) => {
            push_str(&mut s, "JZ(");
            push_decimal(&mut s, a as u64);
            push_str(&mut s, ", ");
            push_decimal(&mut s, b as u64);
            push_str(&mut s, ")");
        },
        OpCode::JNZ(a, b) => {
            push_str(&mut s, "JNZ(");
            push_decimal(&mut s, a as u64);
            push_str(&mut s, ", ");
            push_decimal(&mut s, b as u64);
            push_str(&mut s, ")");
        },
        OpCode::RETURN => {
            push_str(&mut s, "RETURN");
        },
        OpCode::REVERT => {
            push_str(&mut s, "REVERT");
        },
    }
    proof {
        reveal_strlit("LOAD(");
        reveal_strlit("STORE(");
        reveal_strlit("ADD(");
        reveal_strlit("SUB(");
        reveal_strlit("HASH(");
        reveal_strlit("CMP(");
        reveal_strlit("JZ(");
        reveal_strlit("JNZ(");
        reveal_strlit(", ");
        reveal_strlit(")");
        reveal_strlit("RETURN");
        reveal_strlit("REVERT");
    }
    assert(s@ =~= opcode_text(op));
    s
}

fn hash_register(v: u64) -> (r: u64)
    ensures
        r == hash_register_value(v),
{
    let mut text = String::new();
    push_decimal(&mut text, v);
    assert(Seq::<char>::empty() + decimal(v as nat) =~= decimal(v as nat));
    let mut bytes: Vec<u8> = Vec::new();
    push_str_bytes(&mut bytes, text.as_str());
    assert(Seq::<u8>::empty() + vstd::utf8::encode_utf8(text@) =~= vstd::utf8::encode_utf8(text@));
    let d = sha256_digest(bytes.as_slice());
    be_u64_prefix(d.as_slice(), 8)
}

impl ExecutionEngine {
    /// An engine with a fresh context and the given gas limit.
    pub fn new(gas_limit: u64) -> (e: Self)
        ensures
            e.context@ == initial_context(gas_limit),
    {
        ExecutionEngine { context: ExecutionContext::new(gas_limit) }
    }

    /// Executes one instruction against the context (without charging gas or
    /// extending the trace).
    fn execute_instruction(ctx: &mut ExecutionContext, op: OpCode) -> (r: Result<(), ExecutionError>)
        requires
            !(step_advances_pc(old(ctx)@, op) && old(ctx).pc == u32::MAX),
        ensures
            final(ctx)@ == step(old(ctx)@, op).0,
            match r {
                Ok(()) => step(old(ctx)@, op).1 is None,
                Err(e) => step(old(ctx)@, op).1 == Some(e),
            },
    {
        match op {
            OpCode::LOAD(r, addr) => {
                if r >= 16 {
                    return Err(ExecutionError::InvalidRegister);
                }
                ctx.registers[r as usize] = addr as u64;
            },
            OpCode::STORE(addr, r) => {
                if r >= 16 {
                    return Err(ExecutionError::InvalidRegister);
                }
                let value = ctx.registers[r as usize];
                let mut key = String::new();
                push_str(&mut key, "mem_");
                push_decimal(&mut key, addr as u64);
                proof {
                    reveal_strlit("mem_");
                    assert(key@ =~= mem_key(addr));
                }
                let v = crate::text::decimal_string(value);
                let change = StateChange { key, old_value: None, new_value: Some(v) };
                ctx.state_diffs.push(change);
                assert(changes_view(ctx.state_diffs@) =~= step(old(ctx)@, op).0.state_diffs);
            },
            OpCode::ADD(d, a, b) => {
                if d >= 16 || a >= 16 || b >= 16 {
                    return Err(ExecutionError::InvalidRegister);
                }
                let v1 = ctx.registers[a as usize];
                let v2 = ctx.registers[b as usize];
                ctx.registers[d as usize] = v1.wrapping_add(v2);
            },
            OpCode::SUB(d, a, b) => {
                if d >= 16 || a >= 16 || b >= 16 {
                    return Err(ExecutionError::InvalidRegister);
                }
                let v1 = ctx.registers[a as usize];
                let v2 = ctx.registers[b as usize];
                ctx.registers[d as usize] = v1.wrapping_sub(v2);
            },
            OpCode::HASH(d, s) => {
                if d >= 16 || s >= 16 {
                    return Err(ExecutionError::InvalidRegister);
                }
                let v = ctx.registers[s as usize];
                ctx.registers[d as usize] = hash_register(v);
            },
            OpCode::CMP(a, b) => {
                if a >= 16 || b >= 16 {
                    return Err(ExecutionError::InvalidRegister);
                }
                if ctx.registers[a as usize] == ctx.registers[b as usize] {
                    ctx.registers[0] = 1;
                } else {
                    ctx.registers[0] = 0;
                }
            },
            OpCode::JZ(r, addr) => {
                if r >= 16 {
                    return Err(ExecutionError::InvalidRegister);
                }
                if ctx.registers[r as usize] == 0 {
                    ctx.pc = addr;
                    return Ok(());
                }
            },
            OpCode::JNZ(r, addr) => {
                if r >= 16 {
                    return Err(ExecutionError::InvalidRegister);
                }
                if ctx.registers[r as usize] != 0 {
                    ctx.pc = addr;
                    return Ok(());
                }
            },
            OpCode::RETURN => {
                ctx.halted = true;
            },
            OpCode::REVERT => {
                ctx.halted = true;
                return Err(ExecutionError::ExecutionReverted);
            },
        }
        ctx.pc = ctx.pc + 1;
        assert(ctx@.registers =~= step(old(ctx)@, op).0.registers);
        assert(ctx@.state_diffs =~= step(old(ctx)@, op).0.state_diffs);
        Ok(())
    }

    /// Runs `program` against `ctx`, stopping (with `None`) before an
    /// instruction whose completion would move the program counter past
    /// `u32::MAX`.
    fn run_program(ctx: &mut ExecutionContext, program: &Vec<OpCode>) -> (r: Option<Result<(), ExecutionError>>)
        ensures
            run_keeps_pc_in_range(old(ctx)@, program@) ==> {
                &&& final(ctx)@ == run(old(ctx)@, program@).0
                &&& r == Some(match run(old(ctx)@, program@).1 {
                    Some(e) => Err::<(), ExecutionError>(e),
                    None => Ok(()),
                })
            },
            !run_keeps_pc_in_range(old(ctx)@, program@) ==> r is None,
            final(ctx)@.gas_used != old(ctx)@.gas_used ==> is_digest_text(final(ctx)@.trace_hash),
    {
        let mut i: usize = 0;
        assert(program@.skip(0) =~= program@);
        while i < program.len()
            invariant
                i <= program@.len(),
                ctx@.gas_used != old(ctx)@.gas_used ==> is_digest_text(ctx@.trace_hash),
                run(old(ctx)@, program@) == run(ctx@, program@.skip(i as int)),
                run_keeps_pc_in_range(old(ctx)@, program@) == run_keeps_pc_in_range(ctx@, program@.skip(i as int)),
            decreases program@.len() - i,
        {
            let ghost before = ctx@;
            let ghost rest = program@.skip(i as int);
            if ctx.halted {
                return Some(Ok(()));
            }
            if ctx.gas_used >= ctx.gas_limit {
                return Some(Err(ExecutionError::OutOfGas));
            }
            let op = program[i];
            assert(rest[0] == op);
            assert(rest.drop_first() =~= program@.skip(i + 1));
            let advances = match op {
                OpCode::LOAD(r, _) => r < 16,
                OpCode::STORE(_, r) => r < 16,
                OpCode::ADD(d, a, b) => d < 16 && a < 16 && b < 16,
                OpCode::SUB(d, a, b) => d < 16 && a < 16 && b < 16,
                OpCode::HASH(d, s) => d < 16 && s < 16,
                OpCode::CMP(a, b) => a < 16 && b < 16,
                OpCode::JZ(r, _) => r < 16 && ctx.registers[r as usize] != 0,
                OpCode::JNZ(r, _) => r < 16 && ctx.registers[r as usize] == 0,
                OpCode::RETURN => true,
                OpCode::REVERT => false,
            };
            if advances && ctx.pc == u32::MAX {
                return None;
            }
            let res = Self::execute_instruction(ctx, op);
            if let Err(e) = res {
                return Some(Err(e));
            }
            ctx.gas_used = ctx.gas_used + 1;
            let mut bytes: Vec<u8> = Vec::new();
            push_str_bytes(&mut bytes, ctx.trace_hash.as_str());
            let text = opcode_string(op);
            push_str_bytes(&mut bytes, text.as_str());
            assert(bytes@ =~= vstd::utf8::encode_utf8(before.trace_hash) + vstd::utf8::encode_utf8(opcode_text(op)));
            ctx.trace_hash = sha256_hex(bytes.as_slice());
            assert(ctx@ == charge(step(before, op).0, op));
            i = i + 1;
        }
        assert(program@.skip(i as int) =~= Seq::<OpCode>::empty());
        Some(Ok(()))
    }

    /// Executes `program` instruction by instruction, charging one unit of gas
    /// and extending the trace hash for each instruction that completes. The
    /// engine's context afterwards is the one the machine's semantics give;
    /// on success the result reports the recorded changes, the trace hash, the
    /// gas used and whether the machine is still running.
    pub fn execute_program(&mut self, program: Vec<OpCode>) -> (r: Result<ExecutionResult, ExecutionError>)
        requires
            run_keeps_pc_in_range(old(self).context@, program@),
        ensures
            final(self).context@ == run(old(self).context@, program@).0,
            match r {
                Ok(res) => run(old(self).context@, program@).1 is None
                    && res@ == result_of(old(self).context@, final(self).context@),
                Err(e) => run(old(self).context@, program@).1 == Some(e),
            },
            final(self).context@.gas_used != old(self).context@.gas_used ==> is_digest_text(final(self).context@.trace_hash),
    {
        let was_halted = self.context.halted;
        let out = Self::run_program(&mut self.context, &program);
        match out {
            Some(Ok(())) => Ok(ExecutionResult {
                state_diffs: clone_changes(&self.context.state_diffs),
                trace_hash: self.context.trace_hash.clone(),
                gas_used: self.context.gas_used,
                success: !was_halted,
            }),
            Some(Err(e)) => Err(e),
            None => {
                assert(false);
                Err(ExecutionError::UnknownInstruction)
            },
        }
    }

    /// Like `execute_program`, for any program: where running it would move
    /// the program counter past `u32::MAX`, nothing is executed, the engine is
    /// left unchanged and the answer is `None`.
    pub fn execute_program_checked(&mut self, program: Vec<OpCode>) -> (r: Option<Result<ExecutionResult, ExecutionError>>)
        ensures
            run_keeps_pc_in_range(old(self).context@, program@) ==> {
                &&& final(self).context@ == run(old(self).context@, program@).0
                &&& match r {
                    Some(Ok(res)) => run(old(self).context@, program@).1 is None
                        && res@ == result_of(old(self).context@, final(self).context@),
                    Some(Err(e)) => run(old(self).context@, program@).1 == Some(e),
                    None => false,
                }
            },
            !run_keeps_pc_in_range(old(self).context@, program@) ==> r is None
                && final(self).context@ == old(self).context@,
            final(self).context@.gas_used != old(self).context@.gas_used ==> is_digest_text(final(self).context@.trace_hash),
    {
        let was_halted = self.context.halted;
        let mut scratch = self.context.clone();
        let out = Self::run_program(&mut scratch, &program);
        match out {
            None => None,
            Some(Ok(())) => {
                self.context = scratch;
                Some(Ok(ExecutionResult {
                    state_diffs: clone_changes(&self.context.state_diffs),
                    trace_hash: self.context.trace_hash.clone(),
                    gas_used: self.context.gas_used,
                    success: !was_halted,
                }))
            },
            Some(Err(e)) => {
                self.context = scratch;
                Some(Err(e))
            },
        }
    }
}

} // verus!
