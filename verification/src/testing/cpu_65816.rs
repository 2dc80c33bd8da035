//! 65816 single-step compliance vectors and their evaluation against the in-tree core.
use vstd::prelude::*;

use crate::bus::{AccessKind, Address};
use crate::cpu_65816::Cpu65816;
use crate::cpu_65816::registers::Registers;
use crate::cpu_65816::semantics::pc_plus;
use crate::error::{Error, Result};
use crate::text::{chars_of, decimal, ends_with, ends_with_chars, hex_padded, lower_hex, push_decimal, push_hex};
use super::{push_lower_hex_byte, quoted_message, reports, RunSummary, Tally};

verus! {

/// Execution mode encoded in the 65816 test corpus.
#[derive(Debug, Clone, Copy, PartialEq, Eq, Structural)]
pub enum Mode {
    /// Emulation mode vectors.
    Emulation,
    /// Native mode vectors.
    Native,
}

impl Mode {
    /// The mode's name as written in diagnostics.
    pub open spec fn spec_name(self) -> Seq<char> {
        match self {
            Mode::Emulation => "Emulation"@,
            Mode::Native => "Native"@,
        }
    }

    /// Suffix used by the common vector corpus file naming.
    pub fn suffix(self) -> (s: &'static str)
        ensures
            s@ == match self {
                Mode::Emulation => "e"@,
                Mode::Native => "n"@,
            },
    {
        match self {
            Mode::Emulation => "e",
            Mode::Native => "n",
        }
    }

    /// Append the mode's name.
    fn push_name(self, s: &mut String)
        ensures
            final(s)@ == old(s)@ + self.spec_name(),
    {
        match self {
            Mode::Emulation => s.append("Emulation"),
            Mode::Native => s.append("Native"),
        }
    }
}

/// A memory write/read expectation encoded by the suite.
#[derive(Debug, Clone, Copy, PartialEq, Eq, Structural)]
pub struct MemoryByte {
    /// Address touched by the vector.
    pub address: Address,
    /// Value at the address.
    pub value: u8,
}

/// Initial/final 65816 state encoded by the suite.
#[derive(Debug, Clone, PartialEq, Eq)]
pub struct CpuState {
    /// Register file snapshot.
    pub registers: Registers,
    /// Sparse RAM bytes relevant to the vector.
    pub ram: Vec<MemoryByte>,
}

/// A bus-cycle expectation from the vector corpus.
#[derive(Debug, Clone, PartialEq, Eq)]
pub struct CycleExpectation {
    /// Address on the bus.
    pub address: Address,
    /// Optional bus value.
    pub value: Option<u8>,
    /// Access direction.
    pub access: AccessKind,
    /// Opaque status text from the source corpus.
    pub status: String,
}

/// One 65816 single-step vector.
#[derive(Debug, Clone, PartialEq, Eq)]
pub struct TestVector {
    /// Corpus-provided name if any.
    pub name: Option<String>,
    /// Opcode file this vector came from.
    pub opcode: u8,
    /// Execution mode.
    pub mode: Mode,
    /// Initial machine state.
    pub initial: CpuState,
    /// Expected post-step machine state.
    pub final_state: CpuState,
    /// Expected bus cycles.
    pub cycles: Vec<CycleExpectation>,
}

/// `true` or `false`.
pub open spec fn bool_text(b: bool) -> Seq<char> {
    if b { "true"@ } else { "false"@ }
}

/// A register file written as its derived debug form does.
pub open spec fn registers_text(r: Registers) -> Seq<char> {
    "Registers { a: "@ + decimal(r.a as nat) + ", x: "@ + decimal(r.x as nat) + ", y: "@ + decimal(r.y as nat)
        + ", s: "@ + decimal(r.s as nat) + ", d: "@ + decimal(r.d as nat) + ", pc: "@ + decimal(r.pc as nat)
        + ", pbr: "@ + decimal(r.pbr as nat) + ", dbr: "@ + decimal(r.dbr as nat) + ", p: "@
        + decimal(r.p as nat) + ", emulation: "@ + bool_text(r.emulation) + " }"@
}

/// The label a vector is reported under.
pub open spec fn vector_label(v: TestVector) -> Seq<char> {
    match v.name {
        Some(name) if name@.len() > 0 => name@ + " (opcode 0x"@ + hex_padded(v.opcode as nat, 2) + ", "@
            + v.mode.spec_name() + ")"@,
        _ => "opcode 0x"@ + hex_padded(v.opcode as nat, 2) + " "@ + v.mode.spec_name(),
    }
}

/// The mismatches found when the core steps once from the vector's initial registers: the
/// core advances the program counter by one byte in one cycle.
pub open spec fn vector_reasons(v: TestVector) -> Seq<Seq<char>> {
    let after = pc_plus(v.initial.registers, 1);
    let registers = if after != v.final_state.registers {
        seq!["register mismatch: expected "@ + registers_text(v.final_state.registers) + ", saw "@ + registers_text(after)]
    } else {
        seq![]
    };
    let cycles = if v.cycles@.len() != 1 {
        seq!["cycle mismatch: expected "@ + decimal(v.cycles@.len()) + ", saw "@ + decimal(1)]
    } else {
        seq![]
    };
    registers + cycles
}

fn push_bool(s: &mut String, b: bool)
    ensures
        final(s)@ == old(s)@ + bool_text(b),
{
    if b {
        s.append("true");
    } else {
        s.append("false");
    }
}

fn push_registers(s: &mut String, r: &Registers)
    ensures
        final(s)@ == old(s)@ + registers_text(*r),
{
    s.append("Registers { a: ");
    push_decimal(s, r.a as u64);
    s.append(", x: ");
    push_decimal(s, r.x as u64);
    s.append(", y: ");
    push_decimal(s, r.y as u64);
    s.append(", s: ");
    push_decimal(s, r.s as u64);
    s.append(", d: ");
    push_decimal(s, r.d as u64);
    s.append(", pc: ");
    push_decimal(s, r.pc as u64);
    s.append(", pbr: ");
    push_decimal(s, r.pbr as u64);
    s.append(", dbr: ");
    push_decimal(s, r.dbr as u64);
    s.append(", p: ");
    push_decimal(s, r.p as u64);
    s.append(", emulation: ");
    push_bool(s, r.emulation);
    s.append(" }");
    assert(final(s)@ =~= old(s)@ + registers_text(*r));
}

/// The label a vector is reported under.
pub fn label_of(vector: &TestVector) -> (s: String)
    ensures
        s@ == vector_label(*vector),
{
    let mut s = String::new();
    let named = match &vector.name {
        Some(name) => name.as_str().unicode_len() > 0,
        None => false,
    };
    if named {
        let name = vector.name.as_ref().unwrap();
        s.append(name.as_str());
        s.append(" (opcode 0x");
        push_hex(&mut s, vector.opcode as u64, 2);
        s.append(", ");
        vector.mode.push_name(&mut s);
        s.append(")");
    } else {
        s.append("opcode 0x");
        push_hex(&mut s, vector.opcode as u64, 2);
        s.append(" ");
        vector.mode.push_name(&mut s);
    }
    assert(s@ =~= vector_label(*vector));
    s
}

/// Load the vector's initial registers, step once and list the mismatches.
pub fn evaluate_vector(cpu: &mut Cpu65816, vector: &TestVector) -> (reasons: Vec<String>)
    ensures
        reasons.deep_view() == vector_reasons(*vector),
{
    cpu.load_registers(vector.initial.registers);
    cpu.step();
    let mut reasons: Vec<String> = Vec::new();
    let seen: Registers = *cpu.registers();
    if seen != vector.final_state.registers {
        let mut m = String::new();
        m.append("register mismatch: expected ");
        push_registers(&mut m, &vector.final_state.registers);
        m.append(", saw ");
        push_registers(&mut m, &seen);
        reasons.push(m);
    }
    let expected_cycles = vector.cycles.len() as u64;
    if cpu.cycles() != expected_cycles {
        let mut m = String::new();
        m.append("cycle mismatch: expected ");
        push_decimal(&mut m, expected_cycles);
        m.append(", saw ");
        push_decimal(&mut m, cpu.cycles());
        reasons.push(m);
    }
    assert(reasons.deep_view() =~= vector_reasons(*vector));
    reasons
}

/// Execute vectors against the current in-tree 65816 core implementation.
pub fn run_with_current_core(vectors: &[TestVector], max_failures: usize) -> (summary: RunSummary)
    ensures
        summary.suite_name@ == "65816"@,
        super::consistent_counts(summary, max_failures as nat),
        reports(
            summary,
            vectors@.map_values(|v: TestVector| vector_label(v)),
            vectors@.map_values(|v: TestVector| vector_reasons(v)),
            max_failures as nat,
        ),
{
    let ghost labels = vectors@.map_values(|v: TestVector| vector_label(v));
    let ghost outcomes = vectors@.map_values(|v: TestVector| vector_reasons(v));
    let mut cpu = Cpu65816::default();
    let mut tally = Tally::new();
    let mut i: usize = 0;
    assert(outcomes.subrange(0, 0) =~= Seq::<Seq<Seq<char>>>::empty());
    while i < vectors.len()
        invariant
            i <= vectors@.len(),
            labels == vectors@.map_values(|v: TestVector| vector_label(v)),
            outcomes == vectors@.map_values(|v: TestVector| vector_reasons(v)),
            tally.passed == super::passed_count(outcomes.subrange(0, i as int)),
            super::failures_text(tally.failures@) == super::retained(labels, outcomes.subrange(0, i as int), max_failures as nat),
        decreases vectors@.len() - i,
    {
        let label = label_of(&vectors[i]);
        let reasons = evaluate_vector(&mut cpu, &vectors[i]);
        tally.record(label, reasons, max_failures, Ghost(labels), Ghost(outcomes.subrange(0, i as int)));
        assert(outcomes.subrange(0, i as int).push(outcomes[i as int]) =~= outcomes.subrange(0, i + 1));
        i = i + 1;
    }
    assert(outcomes.subrange(0, i as int) =~= outcomes);
    let summary = tally.finish("65816".to_owned(), vectors.len(), Ghost(labels), Ghost(outcomes), max_failures);
    proof {
        super::lemma_report_counts(summary, labels, outcomes, max_failures as nat);
    }
    summary
}

/// The name of the corpus file that holds the vectors of `opcode` in `mode`: its two
/// lower-case hexadecimal digits, the mode's suffix and `.json` (`ea.n.json`).
pub fn opcode_file_name(opcode: u8, mode: Mode) -> (name: String)
    ensures
        name@ == lower_hex(seq![opcode]) + "."@ + (match mode {
            Mode::Emulation => "e"@,
            Mode::Native => "n"@,
        }) + ".json"@,
{
    let mut name = String::new();
    push_lower_hex_byte(&mut name, opcode);
    name.append(".");
    name.append(mode.suffix());
    name.append(".json");
    name
}

/// Whether a file of a corpus directory holds vectors: its name ends in `.e.json` or `.n.json`.
pub fn is_vector_file_name(name: &str) -> (r: bool)
    ensures
        r == (ends_with(name@, ".e.json"@) || ends_with(name@, ".n.json"@)),
{
    let chars = chars_of(name);
    ends_with_chars(&chars, ".e.json") || ends_with_chars(&chars, ".n.json")
}

/// The access a corpus cycle status describes: its fourth character is `r` for a read and `w`
/// for a write; any other status is refused.
pub fn cycle_access(status: &str) -> (r: Result<AccessKind>)
    ensures
        match r {
            Ok(k) => status@.len() > 3 && ((status@[3] == 'r' && k == AccessKind::Read)
                || (status@[3] == 'w' && k == AccessKind::Write)),
            Err(e) => !(status@.len() > 3 && (status@[3] == 'r' || status@[3] == 'w'))
                && (e matches Error::InvalidRom(m) && m@ == "unsupported 65816 cycle status `"@ + status@ + "`"@),
        },
{
    let chars = chars_of(status);
    if chars.len() > 3 {
        if chars[3] == 'r' {
            return Ok(AccessKind::Read);
        } else if chars[3] == 'w' {
            return Ok(AccessKind::Write);
        }
    }
    Err(Error::InvalidRom(quoted_message("unsupported 65816 cycle status `", status)))
}

} // verus!
