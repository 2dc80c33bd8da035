//! SPC700 single-step compliance vectors and their evaluation against the in-tree core.
use vstd::prelude::*;

use crate::apu::spc700::{zero_memory, Spc700, Spc700Regs, SpcMemory};
use crate::bus::{read_event, AccessKind, BusEvent};
use crate::error::{Error, Result};
use crate::text::{decimal, hex_padded, lower_hex, push_decimal, push_hex, text_equal};
use super::{failures_text, passed_count, push_lower_hex_byte, quoted_message, reports, retained, RunSummary, Tally};

verus! {

/// Sparse RAM byte used by SPC700 vectors.
#[derive(Debug, Clone, Copy, PartialEq, Eq, Structural)]
pub struct MemoryByte {
    /// 16-bit SPC700 address space.
    pub address: u16,
    /// Value at the address.
    pub value: u8,
}

/// Initial/final SPC700 state encoded by the suite.
#[derive(Debug, Clone, PartialEq, Eq)]
pub struct CpuState {
    /// Program counter.
    pub pc: u16,
    /// Accumulator.
    pub a: u8,
    /// X register.
    pub x: u8,
    /// Y register.
    pub y: u8,
    /// Stack pointer.
    pub sp: u8,
    /// Processor status.
    pub psw: u8,
    /// Sparse RAM bytes touched by the vector.
    pub ram: Vec<MemoryByte>,
}

/// A bus-cycle expectation from the SPC700 corpus.
#[derive(Debug, Clone, Copy, PartialEq, Eq)]
pub struct CycleExpectation {
    /// Address on the bus.
    pub address: Option<u16>,
    /// Optional bus value.
    pub value: Option<u8>,
    /// Access direction.
    pub access: AccessKind,
}

/// One SPC700 single-step vector.
#[derive(Debug, Clone, PartialEq, Eq)]
pub struct TestVector {
    /// Corpus-provided name if any.
    pub name: Option<String>,
    /// Opcode file this vector came from.
    pub opcode: u8,
    /// Initial machine state.
    pub initial: CpuState,
    /// Expected post-step machine state.
    pub final_state: CpuState,
    /// Expected bus cycles.
    pub cycles: Vec<CycleExpectation>,
}

/// The address space after storing the sparse bytes, in order, into zeroed memory.
pub open spec fn memory_of(ram: Seq<MemoryByte>) -> Seq<u8>
    decreases ram.len(),
{
    if ram.len() == 0 {
        zero_memory()
    } else {
        memory_of(ram.drop_last()).update(ram.last().address as int, ram.last().value)
    }
}

/// Storing bytes keeps the whole address space.
proof fn lemma_memory_len(ram: Seq<MemoryByte>)
    ensures
        memory_of(ram).len() == 0x10000,
    decreases ram.len(),
{
    if ram.len() > 0 {
        lemma_memory_len(ram.drop_last());
    }
}

/// A register state written as the derived debug form of a state without RAM bytes.
pub open spec fn state_text(pc: u16, a: u8, x: u8, y: u8, sp: u8, psw: u8) -> Seq<char> {
    "CpuState { pc: "@ + decimal(pc as nat) + ", a: "@ + decimal(a as nat) + ", x: "@ + decimal(x as nat)
        + ", y: "@ + decimal(y as nat) + ", sp: "@ + decimal(sp as nat) + ", psw: "@ + decimal(psw as nat)
        + ", ram: [] }"@
}

/// An access kind written as its derived debug form.
pub open spec fn access_text(k: AccessKind) -> Seq<char> {
    match k {
        AccessKind::Read => "Read"@,
        AccessKind::Write => "Write"@,
        AccessKind::Wait => "Wait"@,
    }
}

/// The first trace mismatch from position `i` on, if any.
pub open spec fn trace_reasons(actual: Seq<BusEvent>, expected: Seq<CycleExpectation>, i: nat) -> Seq<Seq<char>>
    decreases expected.len() - i,
{
    if i >= expected.len() || i >= actual.len() {
        seq![]
    } else {
        let a = actual[i as int];
        let e = expected[i as int];
        if a.access != e.access {
            seq!["trace mismatch at cycle "@ + decimal(a.cycle as nat) + ": expected "@ + access_text(e.access)
                + ", saw "@ + access_text(a.access)]
        } else if e.access != AccessKind::Wait && (e.address is None || e.address->0 as u32 != a.address) {
            let shown: u16 = match e.address { Some(ad) => ad, None => 0 };
            seq!["trace address mismatch at cycle "@ + decimal(a.cycle as nat) + ": expected 0x"@
                + hex_padded(shown as nat, 4) + ", saw 0x"@ + hex_padded(a.address as nat, 4)]
        } else if e.value is Some && a.value != e.value->0 {
            seq!["trace value mismatch at cycle "@ + decimal(a.cycle as nat) + ": expected "@
                + hex_padded(e.value->0 as nat, 2) + ", saw "@ + hex_padded(a.value as nat, 2)]
        } else {
            trace_reasons(actual, expected, i + 1)
        }
    }
}

/// One mismatch per expected RAM byte that `memory` does not hold.
pub open spec fn ram_reasons(expected: Seq<MemoryByte>, memory: Seq<u8>) -> Seq<Seq<char>>
    decreases expected.len(),
{
    if expected.len() == 0 {
        seq![]
    } else {
        let b = expected.last();
        let earlier = ram_reasons(expected.drop_last(), memory);
        if memory[b.address as int] != b.value {
            earlier.push("RAM mismatch at 0x"@ + hex_padded(b.address as nat, 4) + ": expected "@
                + hex_padded(b.value as nat, 2) + ", saw "@ + hex_padded(memory[b.address as int] as nat, 2))
        } else {
            earlier
        }
    }
}

/// The mismatches found when the core steps once from the vector's initial state.
pub open spec fn vector_reasons(v: TestVector) -> Seq<Seq<char>> {
    let memory = memory_of(v.initial.ram@);
    let pc = v.initial.pc;
    if memory[pc as int] != 0 {
        seq!["unsupported opcode for "@ + "SPC700"@ + ": 0x"@ + hex_padded(memory[pc as int] as nat, 2)]
    } else {
        let next = ((pc + 1) % 0x10000) as u16;
        let trace = seq![read_event(pc as u32, 0, 0), read_event(next as u32, memory[next as int], 1)];
        let i = v.initial;
        let f = v.final_state;
        let registers = if next != f.pc || i.a != f.a || i.x != f.x || i.y != f.y || i.sp != f.sp || i.psw != f.psw {
            seq!["register mismatch: expected "@ + state_text(f.pc, f.a, f.x, f.y, f.sp, f.psw) + ", saw "@
                + state_text(next, i.a, i.x, i.y, i.sp, i.psw)]
        } else {
            seq![]
        };
        let cycles = if v.cycles@.len() != 2 {
            seq!["cycle mismatch: expected "@ + decimal(v.cycles@.len()) + ", saw "@ + decimal(2)]
        } else {
            trace_reasons(trace, v.cycles@, 0)
        };
        registers + ram_reasons(f.ram@, memory) + cycles
    }
}

/// The label a vector is reported under.
pub open spec fn vector_label(v: TestVector) -> Seq<char> {
    match v.name {
        Some(name) if name@.len() > 0 => name@ + " (opcode 0x"@ + hex_padded(v.opcode as nat, 2) + ")"@,
        _ => "opcode 0x"@ + hex_padded(v.opcode as nat, 2),
    }
}

fn push_state(s: &mut String, pc: u16, a: u8, x: u8, y: u8, sp: u8, psw: u8)
    ensures
        final(s)@ == old(s)@ + state_text(pc, a, x, y, sp, psw),
{
    s.append("CpuState { pc: ");
    push_decimal(s, pc as u64);
    s.append(", a: ");
    push_decimal(s, a as u64);
    s.append(", x: ");
    push_decimal(s, x as u64);
    s.append(", y: ");
    push_decimal(s, y as u64);
    s.append(", sp: ");
    push_decimal(s, sp as u64);
    s.append(", psw: ");
    push_decimal(s, psw as u64);
    s.append(", ram: [] }");
    assert(final(s)@ =~= old(s)@ + state_text(pc, a, x, y, sp, psw));
}

fn push_access(s: &mut String, k: AccessKind)
    ensures
        final(s)@ == old(s)@ + access_text(k),
{
    match k {
        AccessKind::Read => s.append("Read"),
        AccessKind::Write => s.append("Write"),
        AccessKind::Wait => s.append("Wait"),
    }
}

/// The address space after storing the sparse bytes, in order, into zeroed memory.
pub fn memory_from(ram: &Vec<MemoryByte>) -> (m: SpcMemory)
    ensures
        m@ == memory_of(ram@),
{
    let mut m = SpcMemory::new();
    let mut i: usize = 0;
    assert(ram@.subrange(0, 0) =~= Seq::<MemoryByte>::empty());
    while i < ram.len()
        invariant
            i <= ram@.len(),
            m@ == memory_of(ram@.subrange(0, i as int)),
        decreases ram@.len() - i,
    {
        m.write(ram[i].address, ram[i].value);
        assert(ram@.subrange(0, i + 1).drop_last() =~= ram@.subrange(0, i as int));
        i = i + 1;
    }
    assert(ram@.subrange(0, i as int) =~= ram@);
    m
}

/// The mismatch at cycle `i` of the trace, if any.
fn trace_step(actual: &BusEvent, expected: &CycleExpectation) -> (r: Option<String>)
    ensures
        match r {
            None => {
                &&& actual.access == expected.access
                &&& !(expected.access != AccessKind::Wait && (expected.address is None || expected.address->0 as u32 != actual.address))
                &&& !(expected.value is Some && actual.value != expected.value->0)
            },
            Some(m) => trace_reasons(seq![*actual], seq![*expected], 0) == seq![m@],
        },
{
    if actual.access != expected.access {
        let mut m = String::new();
        m.append("trace mismatch at cycle ");
        push_decimal(&mut m, actual.cycle);
        m.append(": expected ");
        push_access(&mut m, expected.access);
        m.append(", saw ");
        push_access(&mut m, actual.access);
        assert(trace_reasons(seq![*actual], seq![*expected], 0) =~= seq![m@]);
        return Some(m);
    }
    let address_differs = match expected.address {
        Some(ad) => ad as u32 != actual.address,
        None => true,
    };
    if expected.access != AccessKind::Wait && address_differs {
        let shown: u16 = match expected.address {
            Some(ad) => ad,
            None => 0,
        };
        let mut m = String::new();
        m.append("trace address mismatch at cycle ");
        push_decimal(&mut m, actual.cycle);
        m.append(": expected 0x");
        push_hex(&mut m, shown as u64, 4);
        m.append(", saw 0x");
        push_hex(&mut m, actual.address as u64, 4);
        assert(trace_reasons(seq![*actual], seq![*expected], 0) =~= seq![m@]);
        return Some(m);
    }
    match expected.value {
        Some(v) => {
            if actual.value != v {
                let mut m = String::new();
                m.append("trace value mismatch at cycle ");
                push_decimal(&mut m, actual.cycle);
                m.append(": expected ");
                push_hex(&mut m, v as u64, 2);
                m.append(", saw ");
                push_hex(&mut m, actual.value as u64, 2);
                assert(trace_reasons(seq![*actual], seq![*expected], 0) =~= seq![m@]);
                return Some(m);
            }
        },
        None => {},
    }
    None
}

/// `trace_reasons` from position `i` depends only on the entries at `i` and later.
proof fn lemma_trace_reasons_at(actual: Seq<BusEvent>, expected: Seq<CycleExpectation>, i: nat)
    requires
        i < expected.len(),
        i < actual.len(),
    ensures
        trace_reasons(seq![actual[i as int]], seq![expected[i as int]], 0).len() > 0 ==>
            trace_reasons(actual, expected, i) == trace_reasons(seq![actual[i as int]], seq![expected[i as int]], 0),
        trace_reasons(seq![actual[i as int]], seq![expected[i as int]], 0).len() == 0 ==>
            trace_reasons(actual, expected, i) == trace_reasons(actual, expected, i + 1),
{
    assert(trace_reasons(seq![actual[i as int]], seq![expected[i as int]], 1) == Seq::<Seq<char>>::empty());
}

/// Load the vector's initial state, step once against its memory and list the mismatches.
pub fn evaluate_vector(cpu: &mut Spc700, vector: &TestVector) -> (reasons: Vec<String>)
    ensures
        reasons.deep_view() == vector_reasons(*vector),
{
    let mut memory = memory_from(&vector.initial.ram);
    let ghost mem = memory@;
    proof { lemma_memory_len(vector.initial.ram@); }
    let init = &vector.initial;
    cpu.load_state(init.pc, init.a, init.x, init.y, init.sp, init.psw);
    let trace = match cpu.step_with_memory(&mut memory) {
        Ok(t) => t,
        Err(e) => {
            let mut reasons: Vec<String> = Vec::new();
            reasons.push(e.message());
            assert(reasons.deep_view() =~= vector_reasons(*vector));
            return reasons;
        },
    };
    let seen: Spc700Regs = cpu.registers();
    let fin = &vector.final_state;
    let mut reasons: Vec<String> = Vec::new();
    if seen.pc != fin.pc || seen.a != fin.a || seen.x != fin.x || seen.y != fin.y || seen.sp != fin.sp || seen.psw != fin.psw {
        let mut m = String::new();
        m.append("register mismatch: expected ");
        push_state(&mut m, fin.pc, fin.a, fin.x, fin.y, fin.sp, fin.psw);
        m.append(", saw ");
        push_state(&mut m, seen.pc, seen.a, seen.x, seen.y, seen.sp, seen.psw);
        reasons.push(m);
    }
    let ghost base = reasons.deep_view();
    let mut j: usize = 0;
    assert(fin.ram@.subrange(0, 0) =~= Seq::<MemoryByte>::empty());
    while j < fin.ram.len()
        invariant
            j <= fin.ram@.len(),
            memory@ == mem,
            mem.len() == 0x10000,
            reasons.deep_view() == base + ram_reasons(fin.ram@.subrange(0, j as int), mem),
        decreases fin.ram@.len() - j,
    {
        let expected = fin.ram[j];
        let actual = memory.read(expected.address);
        assert(fin.ram@.subrange(0, j + 1).drop_last() =~= fin.ram@.subrange(0, j as int));
        assert(fin.ram@.subrange(0, j + 1).last() == expected);
        let ghost earlier = ram_reasons(fin.ram@.subrange(0, j as int), mem);
        if actual != expected.value {
            let mut m = String::new();
            m.append("RAM mismatch at 0x");
            push_hex(&mut m, expected.address as u64, 4);
            m.append(": expected ");
            push_hex(&mut m, expected.value as u64, 2);
            m.append(", saw ");
            push_hex(&mut m, actual as u64, 2);
            let ghost before = reasons.deep_view();
            reasons.push(m);
            assert(reasons.deep_view() =~= before.push(m@));
            assert(base + earlier.push(m@) =~= (base + earlier).push(m@));
            assert(ram_reasons(fin.ram@.subrange(0, j + 1), mem) == earlier.push(m@));
        } else {
            assert(ram_reasons(fin.ram@.subrange(0, j + 1), mem) == earlier);
        }
        assert(reasons.deep_view() =~= base + ram_reasons(fin.ram@.subrange(0, j + 1), mem));
        j = j + 1;
    }
    assert(fin.ram@.subrange(0, j as int) =~= fin.ram@);
    let ghost base2 = reasons.deep_view();
    if trace.len() != vector.cycles.len() {
        let mut m = String::new();
        m.append("cycle mismatch: expected ");
        push_decimal(&mut m, vector.cycles.len() as u64);
        m.append(", saw ");
        push_decimal(&mut m, trace.len() as u64);
        reasons.push(m);
        assert(reasons.deep_view() =~= base2 + seq![m@]);
    } else {
        let n = trace.len();
        let mut k: usize = 0;
        let mut done = false;
        while k < n && !done
            invariant
                k <= n,
                n == trace@.len(),
                n == vector.cycles@.len(),
                !done ==> trace_reasons(trace@, vector.cycles@, 0) == trace_reasons(trace@, vector.cycles@, k as nat),
                !done ==> reasons.deep_view() == base2,
                done ==> reasons.deep_view() == base2 + trace_reasons(trace@, vector.cycles@, 0),
            decreases n - k + if done { 0int } else { 1int },
        {
            proof { lemma_trace_reasons_at(trace@, vector.cycles@, k as nat); }
            match trace_step(&trace[k], &vector.cycles[k]) {
                Some(m) => {
                    reasons.push(m);
                    done = true;
                    assert(reasons.deep_view() =~= base2 + trace_reasons(trace@, vector.cycles@, 0));
                },
                None => {
                    assert(trace_reasons(seq![trace@[k as int]], seq![vector.cycles@[k as int]], 1) =~= Seq::<Seq<char>>::empty());
                    assert(trace_reasons(seq![trace@[k as int]], seq![vector.cycles@[k as int]], 0) =~= Seq::<Seq<char>>::empty());
                    k = k + 1;
                },
            }
        }
        if !done {
            assert(trace_reasons(trace@, vector.cycles@, k as nat) == Seq::<Seq<char>>::empty());
            assert(reasons.deep_view() =~= base2 + trace_reasons(trace@, vector.cycles@, 0));
        }
    }
    assert(reasons.deep_view() =~= vector_reasons(*vector));
    reasons
}

/// The label a vector is reported under.
pub fn label_of(vector: &TestVector) -> (s: String)
    ensures
        s@ == vector_label(*vector),
{
    let mut s = String::new();
    let named = match &vector.name {
        Some(name) => name.as_str().unicode_len() > 0,
        None => false,
    };
    if named {
        let name = vector.name.as_ref().unwrap();
        s.append(name.as_str());
        s.append(" (opcode 0x");
        push_hex(&mut s, vector.opcode as u64, 2);
        s.append(")");
    } else {
        s.append("opcode 0x");
        push_hex(&mut s, vector.opcode as u64, 2);
    }
    assert(s@ =~= vector_label(*vector));
    s
}

/// Execute vectors against the current in-tree SPC700 core implementation.
pub fn run_with_current_core(vectors: &[TestVector], max_failures: usize) -> (summary: RunSummary)
    ensures
        summary.suite_name@ == "SPC700"@,
        super::consistent_counts(summary, max_failures as nat),
        reports(
            summary,
            vectors@.map_values(|v: TestVector| vector_label(v)),
            vectors@.map_values(|v: TestVector| vector_reasons(v)),
            max_failures as nat,
        ),
{
    let ghost labels = vectors@.map_values(|v: TestVector| vector_label(v));
    let ghost outcomes = vectors@.map_values(|v: TestVector| vector_reasons(v));
    let mut cpu = Spc700::default();
    let mut tally = Tally::new();
    let mut i: usize = 0;
    assert(outcomes.subrange(0, 0) =~= Seq::<Seq<Seq<char>>>::empty());
    while i < vectors.len()
        invariant
            i <= vectors@.len(),
            labels == vectors@.map_values(|v: TestVector| vector_label(v)),
            outcomes == vectors@.map_values(|v: TestVector| vector_reasons(v)),
            tally.passed == passed_count(outcomes.subrange(0, i as int)),
            failures_text(tally.failures@) == retained(labels, outcomes.subrange(0, i as int), max_failures as nat),
        decreases vectors@.len() - i,
    {
        let label = label_of(&vectors[i]);
        let reasons = evaluate_vector(&mut cpu, &vectors[i]);
        tally.record(label, reasons, max_failures, Ghost(labels), Ghost(outcomes.subrange(0, i as int)));
        assert(outcomes.subrange(0, i as int).push(outcomes[i as int]) =~= outcomes.subrange(0, i + 1));
        i = i + 1;
    }
    assert(outcomes.subrange(0, i as int) =~= outcomes);
    let summary = tally.finish("SPC700".to_owned(), vectors.len(), Ghost(labels), Ghost(outcomes), max_failures);
    proof {
        super::lemma_report_counts(summary, labels, outcomes, max_failures as nat);
    }
    summary
}

/// The name of the corpus file that holds the vectors of `opcode`: its two lower-case
/// hexadecimal digits and `.json` (`00.json`).
pub fn opcode_file_name(opcode: u8) -> (name: String)
    ensures
        name@ == lower_hex(seq![opcode]) + ".json"@,
{
    let mut name = String::new();
    push_lower_hex_byte(&mut name, opcode);
    name.append(".json");
    name
}

/// The access a corpus cycle names: `read`, `write` or `wait`; any other name is refused.
pub fn cycle_access(access: &str) -> (r: Result<AccessKind>)
    ensures
        match r {
            Ok(k) => (access@ == "read"@ && k == AccessKind::Read) || (access@ == "write"@ && k == AccessKind::Write)
                || (access@ == "wait"@ && k == AccessKind::Wait),
            Err(e) => access@ != "read"@ && access@ != "write"@ && access@ != "wait"@
                && (e matches Error::InvalidRom(m) && m@ == "unsupported SPC700 cycle access `"@ + access@ + "`"@),
        },
{
    if text_equal(access, "read") {
        Ok(AccessKind::Read)
    } else if text_equal(access, "write") {
        Ok(AccessKind::Write)
    } else if text_equal(access, "wait") {
        Ok(AccessKind::Wait)
    } else {
        Err(Error::InvalidRom(quoted_message("unsupported SPC700 cycle access `", access)))
    }
}

} // verus!
