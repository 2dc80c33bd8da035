//! Instruction semantics of the 65816 core, stated over register files and bus traces.
//!
//! Every instruction is described by a predicate relating the register file before the
//! instruction (`r`), the register file after it (`r2`), the bus trace before it (`t0`) and the
//! bus trace after it (`t1`). Values that came from the bus are read back from the trace.
use vstd::prelude::*;

use crate::bus::{AccessKind, BusEvent};
use super::registers::Registers;

verus! {

/// The accumulator is 8 bits wide (emulation mode or the M flag).
pub open spec fn acc8(r: Registers) -> bool {
    r.emulation || (r.p & 0x20) != 0
}

/// The index registers are 8 bits wide (emulation mode or the X flag).
pub open spec fn idx8(r: Registers) -> bool {
    r.emulation || (r.p & 0x10) != 0
}

/// Status byte after setting N and Z from an 8-bit result.
pub open spec fn nz8(p: u8, v: u8) -> u8 {
    let q = p & !(0x80u8 | 0x02u8);
    let q2 = if v & 0x80 != 0 { q | 0x80 } else { q };
    if v == 0 { q2 | 0x02 } else { q2 }
}

/// Status byte after setting N and Z from a 16-bit result.
pub open spec fn nz16(p: u8, v: u16) -> u8 {
    let q = p & !(0x80u8 | 0x02u8);
    let q2 = if v & 0x8000 != 0 { q | 0x80 } else { q };
    if v == 0 { q2 | 0x02 } else { q2 }
}

/// Status byte with the bits of `mask` set when `on` holds and cleared otherwise.
pub open spec fn with_flag(p: u8, mask: u8, on: bool) -> u8 {
    if on { p | mask } else { p & !mask }
}

/// The carry flag.
pub open spec fn carry(r: Registers) -> bool {
    r.p & 0x01 != 0
}

/// A 24-bit address from a bank byte and a 16-bit offset.
pub open spec fn bank_addr(bank: u8, offset: u16) -> u32 {
    ((bank as u32) << 16u32) | (offset as u32)
}

/// Address of the instruction byte `k` bytes after the opcode.
pub open spec fn fetch_addr(r: Registers, k: u16) -> u32 {
    bank_addr(r.pbr, r.pc.wrapping_add(k))
}

/// Direct-page address of an 8-bit operand.
pub open spec fn dp_addr(r: Registers, operand: u8) -> u32 {
    r.d.wrapping_add(operand as u16) as u32
}

/// Data-bank address of a 16-bit operand.
pub open spec fn abs_addr(r: Registers, operand: u16) -> u32 {
    bank_addr(r.dbr, operand)
}

/// Stack address for a given stack pointer (page one in emulation mode).
pub open spec fn stack_addr_of(emulation: bool, s: u16) -> u16 {
    if emulation { 0x0100u16 | (s & 0x00FF) } else { s }
}

/// Little-endian 16-bit word.
pub open spec fn le16(lo: u8, hi: u8) -> u16 {
    (lo as u16) | ((hi as u16) << 8u16)
}

/// Little-endian 24-bit address.
pub open spec fn le24(lo: u8, hi: u8, bank: u8) -> u32 {
    (lo as u32) | ((hi as u32) << 8u32) | ((bank as u32) << 16u32)
}

/// Register file with the program counter advanced by `k`.
pub open spec fn pc_plus(r: Registers, k: u16) -> Registers {
    Registers { pc: r.pc.wrapping_add(k), ..r }
}

/// `t1` is `t0` followed by exactly `k` more events.
pub open spec fn extends(t0: Seq<BusEvent>, t1: Seq<BusEvent>, k: int) -> bool {
    &&& t1.len() == t0.len() + k
    &&& forall|i: int| 0 <= i < t0.len() ==> #[trigger] t1[i] == t0[i]
}

/// Event `i` of `t` is an access of kind `access` at `address`, stamped with its position.
pub open spec fn ev(t: Seq<BusEvent>, i: int, address: u32, access: AccessKind) -> bool {
    &&& 0 <= i < t.len()
    &&& t[i].address == address
    &&& t[i].access == access
    &&& t[i].cycle == i as u64
}

/// Event `i` of `t` is a read at `address`.
pub open spec fn rd(t: Seq<BusEvent>, i: int, address: u32) -> bool {
    ev(t, i, address, AccessKind::Read)
}

/// Event `i` of `t` is a write of `value` at `address`.
pub open spec fn wr(t: Seq<BusEvent>, i: int, address: u32, value: u8) -> bool {
    ev(t, i, address, AccessKind::Write) && t[i].value == value
}

/// The value observed by event `i` of `t`.
pub open spec fn val(t: Seq<BusEvent>, i: int) -> u8 {
    t[i].value
}

/// The 16-bit little-endian word observed by events `i` and `i + 1` of `t`.
pub open spec fn val16(t: Seq<BusEvent>, i: int) -> u16 {
    le16(t[i].value, t[i + 1].value)
}

/// Stack address of the `k`-th push (counting from zero) starting at `r`.
pub open spec fn push_addr(r: Registers, k: u16) -> u32 {
    stack_addr_of(r.emulation, r.s.wrapping_sub(k)) as u32
}

/// Stack address of the `k`-th pull (counting from one) starting at `r`.
pub open spec fn pull_addr(r: Registers, k: u16) -> u32 {
    stack_addr_of(r.emulation, r.s.wrapping_add(k)) as u32
}

/// A one-byte instruction: one dummy read of the following byte, then `expected`.
pub open spec fn sem_implied(r: Registers, r2: Registers, t0: Seq<BusEvent>, t1: Seq<BusEvent>, expected: Registers) -> bool {
    &&& extends(t0, t1, 1)
    &&& rd(t1, t0.len() as int, fetch_addr(r, 1))
    &&& r2 == expected
}

} // verus!

verus! {

/// NOP.
pub open spec fn sem_nop(r: Registers, r2: Registers, t0: Seq<BusEvent>, t1: Seq<BusEvent>) -> bool {
    sem_implied(r, r2, t0, t1, pc_plus(r, 1))
}

/// Flag set/clear instructions (CLC, SEC, CLI, SEI, CLD, SED, CLV).
pub open spec fn sem_flag_op(r: Registers, r2: Registers, t0: Seq<BusEvent>, t1: Seq<BusEvent>, mask: u8, on: bool) -> bool {
    sem_implied(r, r2, t0, t1, pc_plus(Registers { p: with_flag(r.p, mask, on), ..r }, 1))
}

} // verus!

verus! {

/// Width in bytes of accumulator data transfers.
pub open spec fn acc_width(r: Registers) -> int {
    if acc8(r) { 1 } else { 2 }
}

/// Width in bytes of index register data transfers.
pub open spec fn idx_width(r: Registers) -> int {
    if idx8(r) { 1 } else { 2 }
}

/// Events `n..` of `t` are the data reads of a value of `width` bytes at `address`.
pub open spec fn data_reads(t: Seq<BusEvent>, n: int, address: u32, width: int) -> bool {
    &&& rd(t, n, address)
    &&& width == 2 ==> rd(t, n + 1, address.wrapping_add(1))
}

/// Events `n..` of `t` are the data writes of `value` (low byte, then high byte when wide).
pub open spec fn data_writes(t: Seq<BusEvent>, n: int, address: u32, value: u16, wide: bool) -> bool {
    &&& wr(t, n, address, value as u8)
    &&& wide ==> wr(t, n + 1, address.wrapping_add(1), (value >> 8u16) as u8)
}

/// The value of a data read of `width` bytes observed at events `n..` of `t`.
pub open spec fn data_value(t: Seq<BusEvent>, n: int, width: int) -> u16 {
    if width == 1 { t[n].value as u16 } else { val16(t, n) }
}

/// Register file after loading the accumulator from data observed at events `n..` of `t`.
pub open spec fn loaded_acc(r: Registers, t: Seq<BusEvent>, n: int) -> Registers {
    if acc8(r) {
        Registers { a: (r.a & 0xFF00) | (t[n].value as u16), p: nz8(r.p, t[n].value), ..r }
    } else {
        Registers { a: val16(t, n), p: nz16(r.p, val16(t, n)), ..r }
    }
}

/// LDA from an effective `address` computed after `k` operand bytes, advancing the pc by `len`.
pub open spec fn sem_load_acc(r: Registers, r2: Registers, t0: Seq<BusEvent>, t1: Seq<BusEvent>, k: int, address: u32, len: u16) -> bool {
    let n = t0.len() as int;
    &&& extends(t0, t1, k + acc_width(r))
    &&& data_reads(t1, n + k, address, acc_width(r))
    &&& r2 == pc_plus(loaded_acc(r, t1, n + k), len)
}

/// STA/STX/STY/STZ of `value` to an effective `address` computed after `k` operand bytes.
pub open spec fn sem_store(r: Registers, r2: Registers, t0: Seq<BusEvent>, t1: Seq<BusEvent>, k: int, address: u32, value: u16, wide: bool, len: u16) -> bool {
    let n = t0.len() as int;
    &&& extends(t0, t1, k + if wide { 2int } else { 1int })
    &&& data_writes(t1, n + k, address, value, wide)
    &&& r2 == pc_plus(r, len)
}

/// Operand reads: event `n` is the byte after the opcode.
pub open spec fn operand8(r: Registers, t: Seq<BusEvent>, n: int) -> bool {
    rd(t, n, fetch_addr(r, 1))
}

/// Operand reads: events `n`, `n + 1` are the two bytes after the opcode.
pub open spec fn operand16(r: Registers, t: Seq<BusEvent>, n: int) -> bool {
    rd(t, n, fetch_addr(r, 1)) && rd(t, n + 1, fetch_addr(r, 2))
}

/// Operand reads: events `n..n + 3` are the three bytes after the opcode.
pub open spec fn operand24(r: Registers, t: Seq<BusEvent>, n: int) -> bool {
    rd(t, n, fetch_addr(r, 1)) && rd(t, n + 1, fetch_addr(r, 2)) && rd(t, n + 2, fetch_addr(r, 3))
}

/// The 24-bit operand observed at events `n..n + 3`.
pub open spec fn val24(t: Seq<BusEvent>, n: int) -> u32 {
    le24(t[n].value, t[n + 1].value, t[n + 2].value)
}

/// LDA #imm.
pub open spec fn sem_lda_immediate(r: Registers, r2: Registers, t0: Seq<BusEvent>, t1: Seq<BusEvent>) -> bool {
    let n = t0.len() as int;
    &&& extends(t0, t1, acc_width(r))
    &&& operand8(r, t1, n)
    &&& (!acc8(r) ==> rd(t1, n + 1, fetch_addr(r, 2)))
    &&& r2 == pc_plus(loaded_acc(r, t1, n), if acc8(r) { 2u16 } else { 3u16 })
}

/// LDX #imm / LDY #imm: the loaded value.
pub open spec fn loaded_index_value(r: Registers, t: Seq<BusEvent>, n: int) -> u16 {
    if idx8(r) { t[n].value as u16 } else { val16(t, n) }
}

/// Status after loading an index register.
pub open spec fn loaded_index_p(r: Registers, t: Seq<BusEvent>, n: int) -> u8 {
    if idx8(r) { nz8(r.p, t[n].value) } else { nz16(r.p, val16(t, n)) }
}

/// Shape of an index-width immediate operand.
pub open spec fn index_immediate_reads(r: Registers, t0: Seq<BusEvent>, t1: Seq<BusEvent>) -> bool {
    let n = t0.len() as int;
    &&& extends(t0, t1, idx_width(r))
    &&& operand8(r, t1, n)
    &&& (!idx8(r) ==> rd(t1, n + 1, fetch_addr(r, 2)))
}

/// LDX #imm.
pub open spec fn sem_ldx_immediate(r: Registers, r2: Registers, t0: Seq<BusEvent>, t1: Seq<BusEvent>) -> bool {
    let n = t0.len() as int;
    &&& index_immediate_reads(r, t0, t1)
    &&& r2 == pc_plus(Registers { x: loaded_index_value(r, t1, n), p: loaded_index_p(r, t1, n), ..r },
        if idx8(r) { 2u16 } else { 3u16 })
}

/// LDY #imm.
pub open spec fn sem_ldy_immediate(r: Registers, r2: Registers, t0: Seq<BusEvent>, t1: Seq<BusEvent>) -> bool {
    let n = t0.len() as int;
    &&& index_immediate_reads(r, t0, t1)
    &&& r2 == pc_plus(Registers { y: loaded_index_value(r, t1, n), p: loaded_index_p(r, t1, n), ..r },
        if idx8(r) { 2u16 } else { 3u16 })
}

/// LDA dp.
pub open spec fn sem_lda_direct_page(r: Registers, r2: Registers, t0: Seq<BusEvent>, t1: Seq<BusEvent>) -> bool {
    let n = t0.len() as int;
    operand8(r, t1, n) && sem_load_acc(r, r2, t0, t1, 1, dp_addr(r, val(t1, n)), 2)
}

/// LDA dp,X (the index contributes its low byte).
pub open spec fn sem_lda_direct_page_x(r: Registers, r2: Registers, t0: Seq<BusEvent>, t1: Seq<BusEvent>) -> bool {
    let n = t0.len() as int;
    operand8(r, t1, n) && sem_load_acc(r, r2, t0, t1, 1,
        dp_addr(r, val(t1, n)).wrapping_add((r.x & 0x00FF) as u32), 2)
}

/// LDA abs.
pub open spec fn sem_lda_absolute(r: Registers, r2: Registers, t0: Seq<BusEvent>, t1: Seq<BusEvent>) -> bool {
    let n = t0.len() as int;
    operand16(r, t1, n) && sem_load_acc(r, r2, t0, t1, 2, abs_addr(r, val16(t1, n)), 3)
}

/// LDA abs,X.
pub open spec fn sem_lda_absolute_x(r: Registers, r2: Registers, t0: Seq<BusEvent>, t1: Seq<BusEvent>) -> bool {
    let n = t0.len() as int;
    operand16(r, t1, n) && sem_load_acc(r, r2, t0, t1, 2, abs_addr(r, val16(t1, n).wrapping_add(r.x)), 3)
}

/// LDA abs,Y.
pub open spec fn sem_lda_absolute_y(r: Registers, r2: Registers, t0: Seq<BusEvent>, t1: Seq<BusEvent>) -> bool {
    let n = t0.len() as int;
    operand16(r, t1, n) && sem_load_acc(r, r2, t0, t1, 2, abs_addr(r, val16(t1, n).wrapping_add(r.y)), 3)
}

/// LDA [dp],Y: a 24-bit pointer read from the direct page, indexed by Y.
pub open spec fn sem_lda_indirect_long_y(r: Registers, r2: Registers, t0: Seq<BusEvent>, t1: Seq<BusEvent>) -> bool {
    let n = t0.len() as int;
    let base = dp_addr(r, val(t1, n));
    &&& operand8(r, t1, n)
    &&& rd(t1, n + 1, base)
    &&& rd(t1, n + 2, base.wrapping_add(1))
    &&& rd(t1, n + 3, base.wrapping_add(2))
    &&& sem_load_acc(r, r2, t0, t1, 4, val24(t1, n + 1).wrapping_add(r.y as u32), 2)
}

/// STA dp.
pub open spec fn sem_sta_direct_page(r: Registers, r2: Registers, t0: Seq<BusEvent>, t1: Seq<BusEvent>) -> bool {
    let n = t0.len() as int;
    operand8(r, t1, n) && sem_store(r, r2, t0, t1, 1, dp_addr(r, val(t1, n)), r.a, !acc8(r), 2)
}

/// STX dp.
pub open spec fn sem_stx_direct_page(r: Registers, r2: Registers, t0: Seq<BusEvent>, t1: Seq<BusEvent>) -> bool {
    let n = t0.len() as int;
    operand8(r, t1, n) && sem_store(r, r2, t0, t1, 1, dp_addr(r, val(t1, n)), r.x, !idx8(r), 2)
}

/// STY dp.
pub open spec fn sem_sty_direct_page(r: Registers, r2: Registers, t0: Seq<BusEvent>, t1: Seq<BusEvent>) -> bool {
    let n = t0.len() as int;
    operand8(r, t1, n) && sem_store(r, r2, t0, t1, 1, dp_addr(r, val(t1, n)), r.y, !idx8(r), 2)
}

/// STA abs.
pub open spec fn sem_sta_absolute(r: Registers, r2: Registers, t0: Seq<BusEvent>, t1: Seq<BusEvent>) -> bool {
    let n = t0.len() as int;
    operand16(r, t1, n) && sem_store(r, r2, t0, t1, 2, abs_addr(r, val16(t1, n)), r.a, !acc8(r), 3)
}

/// STX abs.
pub open spec fn sem_stx_absolute(r: Registers, r2: Registers, t0: Seq<BusEvent>, t1: Seq<BusEvent>) -> bool {
    let n = t0.len() as int;
    operand16(r, t1, n) && sem_store(r, r2, t0, t1, 2, abs_addr(r, val16(t1, n)), r.x, !idx8(r), 3)
}

/// STA abs,Y.
pub open spec fn sem_sta_absolute_y(r: Registers, r2: Registers, t0: Seq<BusEvent>, t1: Seq<BusEvent>) -> bool {
    let n = t0.len() as int;
    operand16(r, t1, n) && sem_store(r, r2, t0, t1, 2, abs_addr(r, val16(t1, n).wrapping_add(r.y)), r.a, !acc8(r), 3)
}

/// STA long.
pub open spec fn sem_sta_long(r: Registers, r2: Registers, t0: Seq<BusEvent>, t1: Seq<BusEvent>) -> bool {
    let n = t0.len() as int;
    operand24(r, t1, n) && sem_store(r, r2, t0, t1, 3, val24(t1, n), r.a, !acc8(r), 4)
}

/// STA long,X.
pub open spec fn sem_sta_long_x(r: Registers, r2: Registers, t0: Seq<BusEvent>, t1: Seq<BusEvent>) -> bool {
    let n = t0.len() as int;
    operand24(r, t1, n) && sem_store(r, r2, t0, t1, 3, val24(t1, n).wrapping_add(r.x as u32), r.a, !acc8(r), 4)
}

/// STZ abs.
pub open spec fn sem_stz_absolute(r: Registers, r2: Registers, t0: Seq<BusEvent>, t1: Seq<BusEvent>) -> bool {
    let n = t0.len() as int;
    operand16(r, t1, n) && sem_store(r, r2, t0, t1, 2, abs_addr(r, val16(t1, n)), 0, !acc8(r), 3)
}

/// STZ dp,X.
pub open spec fn sem_stz_direct_page_x(r: Registers, r2: Registers, t0: Seq<BusEvent>, t1: Seq<BusEvent>) -> bool {
    let n = t0.len() as int;
    operand8(r, t1, n) && sem_store(r, r2, t0, t1, 1, dp_addr(r, val(t1, n)).wrapping_add(r.x as u32), 0, !acc8(r), 2)
}

/// STZ abs,X.
pub open spec fn sem_stz_absolute_x(r: Registers, r2: Registers, t0: Seq<BusEvent>, t1: Seq<BusEvent>) -> bool {
    let n = t0.len() as int;
    operand16(r, t1, n) && sem_store(r, r2, t0, t1, 2, abs_addr(r, val16(t1, n).wrapping_add(r.x)), 0, !acc8(r), 3)
}

} // verus!

verus! {

/// Register file after moving `v` into an index register of the current width:
/// returns the stored value.
pub open spec fn index_store(r: Registers, v: u16) -> u16 {
    if idx8(r) { v & 0x00FF } else { v }
}

/// Status after moving `v` into an index register of the current width.
pub open spec fn index_store_p(r: Registers, v: u16) -> u8 {
    if idx8(r) { nz8(r.p, (v & 0x00FF) as u8) } else { nz16(r.p, v) }
}

/// TAY.
pub open spec fn sem_tay(r: Registers, r2: Registers, t0: Seq<BusEvent>, t1: Seq<BusEvent>) -> bool {
    sem_implied(r, r2, t0, t1, pc_plus(Registers { y: index_store(r, r.a), p: index_store_p(r, r.a), ..r }, 1))
}

/// TAX.
pub open spec fn sem_tax(r: Registers, r2: Registers, t0: Seq<BusEvent>, t1: Seq<BusEvent>) -> bool {
    sem_implied(r, r2, t0, t1, pc_plus(Registers { x: index_store(r, r.a), p: index_store_p(r, r.a), ..r }, 1))
}

/// TXY.
pub open spec fn sem_txy(r: Registers, r2: Registers, t0: Seq<BusEvent>, t1: Seq<BusEvent>) -> bool {
    sem_implied(r, r2, t0, t1, pc_plus(Registers { y: index_store(r, r.x), p: index_store_p(r, r.x), ..r }, 1))
}

/// TYX.
pub open spec fn sem_tyx(r: Registers, r2: Registers, t0: Seq<BusEvent>, t1: Seq<BusEvent>) -> bool {
    sem_implied(r, r2, t0, t1, pc_plus(Registers { x: index_store(r, r.y), p: index_store_p(r, r.y), ..r }, 1))
}

/// TSX.
pub open spec fn sem_tsx(r: Registers, r2: Registers, t0: Seq<BusEvent>, t1: Seq<BusEvent>) -> bool {
    sem_implied(r, r2, t0, t1, pc_plus(Registers { x: index_store(r, r.s), p: index_store_p(r, r.s), ..r }, 1))
}

/// Register file after moving the index value `v` into the accumulator (TXA, TYA).
pub open spec fn index_to_acc(r: Registers, v: u16) -> Registers {
    if acc8(r) {
        let a = (r.a & 0xFF00) | (v & 0x00FF);
        Registers { a, p: nz8(r.p, a as u8), ..r }
    } else if idx8(r) {
        let a = v & 0x00FF;
        Registers { a, p: nz16(r.p, a), ..r }
    } else {
        Registers { a: v, p: nz16(r.p, v), ..r }
    }
}

/// TXA.
pub open spec fn sem_txa(r: Registers, r2: Registers, t0: Seq<BusEvent>, t1: Seq<BusEvent>) -> bool {
    sem_implied(r, r2, t0, t1, pc_plus(index_to_acc(r, r.x), 1))
}

/// TYA.
pub open spec fn sem_tya(r: Registers, r2: Registers, t0: Seq<BusEvent>, t1: Seq<BusEvent>) -> bool {
    sem_implied(r, r2, t0, t1, pc_plus(index_to_acc(r, r.y), 1))
}

/// TXS.
pub open spec fn sem_txs(r: Registers, r2: Registers, t0: Seq<BusEvent>, t1: Seq<BusEvent>) -> bool {
    sem_implied(r, r2, t0, t1, pc_plus(Registers { s: index_store(r, r.x), ..r }, 1))
}

/// TCS.
pub open spec fn sem_tcs(r: Registers, r2: Registers, t0: Seq<BusEvent>, t1: Seq<BusEvent>) -> bool {
    sem_implied(r, r2, t0, t1, pc_plus(Registers { s: r.a, ..r }, 1))
}

/// TSC.
pub open spec fn sem_tsc(r: Registers, r2: Registers, t0: Seq<BusEvent>, t1: Seq<BusEvent>) -> bool {
    sem_implied(r, r2, t0, t1, pc_plus(Registers { a: r.s, p: nz16(r.p, r.s), ..r }, 1))
}

/// TCD.
pub open spec fn sem_tcd(r: Registers, r2: Registers, t0: Seq<BusEvent>, t1: Seq<BusEvent>) -> bool {
    sem_implied(r, r2, t0, t1, pc_plus(Registers { d: r.a, p: nz16(r.p, r.a), ..r }, 1))
}

/// TDC.
pub open spec fn sem_tdc(r: Registers, r2: Registers, t0: Seq<BusEvent>, t1: Seq<BusEvent>) -> bool {
    sem_implied(r, r2, t0, t1, pc_plus(Registers { a: r.d, p: nz16(r.p, r.d), ..r }, 1))
}

/// Index value after adding `delta` (1 or -1) at the current index width.
pub open spec fn index_step(r: Registers, v: u16, up: bool) -> u16 {
    if idx8(r) {
        (if up { (v as u8).wrapping_add(1) } else { (v as u8).wrapping_sub(1) }) as u16
    } else {
        if up { v.wrapping_add(1) } else { v.wrapping_sub(1) }
    }
}

/// Status after an index increment/decrement.
pub open spec fn index_step_p(r: Registers, v: u16, up: bool) -> u8 {
    if idx8(r) {
        nz8(r.p, if up { (v as u8).wrapping_add(1) } else { (v as u8).wrapping_sub(1) })
    } else {
        nz16(r.p, if up { v.wrapping_add(1) } else { v.wrapping_sub(1) })
    }
}

/// INX / DEX.
pub open spec fn sem_step_x(r: Registers, r2: Registers, t0: Seq<BusEvent>, t1: Seq<BusEvent>, up: bool) -> bool {
    sem_implied(r, r2, t0, t1, pc_plus(Registers { x: index_step(r, r.x, up), p: index_step_p(r, r.x, up), ..r }, 1))
}

/// INY / DEY.
pub open spec fn sem_step_y(r: Registers, r2: Registers, t0: Seq<BusEvent>, t1: Seq<BusEvent>, up: bool) -> bool {
    sem_implied(r, r2, t0, t1, pc_plus(Registers { y: index_step(r, r.y, up), p: index_step_p(r, r.y, up), ..r }, 1))
}

/// INC A.
pub open spec fn sem_inc_a(r: Registers, r2: Registers, t0: Seq<BusEvent>, t1: Seq<BusEvent>) -> bool {
    sem_implied(r, r2, t0, t1, pc_plus(
        if acc8(r) {
            let v = (r.a as u8).wrapping_add(1);
            Registers { a: (r.a & 0xFF00) | (v as u16), p: nz8(r.p, v), ..r }
        } else {
            let v = r.a.wrapping_add(1);
            Registers { a: v, p: nz16(r.p, v), ..r }
        }, 1))
}

/// XCE: exchange carry and emulation flags; entering emulation forces 8-bit registers and
/// page-one stack.
pub open spec fn sem_xce(r: Registers, r2: Registers, t0: Seq<BusEvent>, t1: Seq<BusEvent>) -> bool {
    let p = with_flag(r.p, 0x01, r.emulation);
    let swapped = Registers { p, emulation: carry(r), ..r };
    sem_implied(r, r2, t0, t1, pc_plus(
        if carry(r) {
            Registers { p: p | 0x30, x: r.x & 0x00FF, y: r.y & 0x00FF, s: 0x0100u16 | (r.s & 0x00FF), ..swapped }
        } else {
            swapped
        }, 1))
}

/// ROL A.
pub open spec fn sem_rol_a(r: Registers, r2: Registers, t0: Seq<BusEvent>, t1: Seq<BusEvent>) -> bool {
    sem_implied(r, r2, t0, t1, pc_plus(
        if acc8(r) {
            let value = r.a as u8;
            let result = ((value as int * 2 + if carry(r) { 1int } else { 0int }) % 256) as u8;
            Registers {
                a: (r.a & 0xFF00) | (result as u16),
                p: nz8(with_flag(r.p, 0x01, value >= 0x80), result),
                ..r
            }
        } else {
            let value = r.a;
            let result = ((value as int * 2 + if carry(r) { 1int } else { 0int }) % 65536) as u16;
            Registers { a: result, p: nz16(with_flag(r.p, 0x01, value >= 0x8000), result), ..r }
        }, 1))
}

/// REP #imm: the operand byte is read twice.
pub open spec fn sem_rep(r: Registers, r2: Registers, t0: Seq<BusEvent>, t1: Seq<BusEvent>) -> bool {
    let n = t0.len() as int;
    &&& extends(t0, t1, 2)
    &&& rd(t1, n, fetch_addr(r, 1))
    &&& rd(t1, n + 1, fetch_addr(r, 1))
    &&& r2 == pc_plus(Registers { p: r.p & !val(t1, n), ..r }, 2)
}

/// SEP #imm: the operand byte is read twice; setting X truncates the index registers.
pub open spec fn sem_sep(r: Registers, r2: Registers, t0: Seq<BusEvent>, t1: Seq<BusEvent>) -> bool {
    let n = t0.len() as int;
    let operand = val(t1, n);
    let set = Registers { p: r.p | operand, ..r };
    &&& extends(t0, t1, 2)
    &&& rd(t1, n, fetch_addr(r, 1))
    &&& rd(t1, n + 1, fetch_addr(r, 1))
    &&& r2 == pc_plus(
        if operand & 0x10 != 0 { Registers { x: r.x & 0x00FF, y: r.y & 0x00FF, ..set } } else { set }, 2)
}

/// Program counter after a relative branch with an 8-bit signed offset.
pub open spec fn branch_target(r: Registers, offset: u8, taken: bool) -> u16 {
    let next = r.pc.wrapping_add(2);
    if taken { next.wrapping_add_signed((offset as i8) as i16) } else { next }
}

/// Relative branches: the offset byte is read; the branch is taken when `taken` holds.
pub open spec fn sem_branch(r: Registers, r2: Registers, t0: Seq<BusEvent>, t1: Seq<BusEvent>, taken: bool) -> bool {
    let n = t0.len() as int;
    &&& extends(t0, t1, 1)
    &&& rd(t1, n, fetch_addr(r, 1))
    &&& r2 == (Registers { pc: branch_target(r, val(t1, n), taken), ..r })
}

} // verus!

verus! {

/// Register file after `k` pushes.
pub open spec fn pushed(r: Registers, k: u16) -> Registers {
    Registers { s: r.s.wrapping_sub(k), ..r }
}

/// Register file after `k` pulls.
pub open spec fn pulled(r: Registers, k: u16) -> Registers {
    Registers { s: r.s.wrapping_add(k), ..r }
}

/// A dummy read of the next byte followed by one push of `value` (PHP, PHB, PHK).
pub open spec fn sem_push8(r: Registers, r2: Registers, t0: Seq<BusEvent>, t1: Seq<BusEvent>, value: u8) -> bool {
    let n = t0.len() as int;
    &&& extends(t0, t1, 2)
    &&& rd(t1, n, fetch_addr(r, 1))
    &&& wr(t1, n + 1, push_addr(r, 0), value)
    &&& r2 == pc_plus(pushed(r, 1), 1)
}

/// PHA: pushes the high byte first when the accumulator is 16 bits wide.
pub open spec fn sem_pha(r: Registers, r2: Registers, t0: Seq<BusEvent>, t1: Seq<BusEvent>) -> bool {
    let n = t0.len() as int;
    &&& rd(t1, n, fetch_addr(r, 1))
    &&& if acc8(r) {
        &&& extends(t0, t1, 2)
        &&& wr(t1, n + 1, push_addr(r, 0), r.a as u8)
        &&& r2 == pc_plus(pushed(r, 1), 1)
    } else {
        &&& extends(t0, t1, 3)
        &&& wr(t1, n + 1, push_addr(r, 0), (r.a >> 8u16) as u8)
        &&& wr(t1, n + 2, push_addr(r, 1), r.a as u8)
        &&& r2 == pc_plus(pushed(r, 2), 1)
    }
}

/// PLB.
pub open spec fn sem_plb(r: Registers, r2: Registers, t0: Seq<BusEvent>, t1: Seq<BusEvent>) -> bool {
    let n = t0.len() as int;
    let v = val(t1, n + 1);
    &&& extends(t0, t1, 2)
    &&& rd(t1, n, fetch_addr(r, 1))
    &&& rd(t1, n + 1, pull_addr(r, 1))
    &&& r2 == pc_plus(Registers { dbr: v, p: nz8(r.p, v), ..pulled(r, 1) }, 1)
}

/// PLP: emulation mode forces M and X; 8-bit index mode truncates X and Y.
pub open spec fn sem_plp(r: Registers, r2: Registers, t0: Seq<BusEvent>, t1: Seq<BusEvent>) -> bool {
    let n = t0.len() as int;
    let v = if r.emulation { val(t1, n + 1) | 0x30 } else { val(t1, n + 1) };
    let loaded = Registers { p: v, ..pulled(r, 1) };
    &&& extends(t0, t1, 2)
    &&& rd(t1, n, fetch_addr(r, 1))
    &&& rd(t1, n + 1, pull_addr(r, 1))
    &&& r2 == pc_plus(
        if idx8(loaded) { Registers { x: r.x & 0x00FF, y: r.y & 0x00FF, ..loaded } } else { loaded }, 1)
}

/// PLA.
pub open spec fn sem_pla(r: Registers, r2: Registers, t0: Seq<BusEvent>, t1: Seq<BusEvent>) -> bool {
    let n = t0.len() as int;
    &&& rd(t1, n, fetch_addr(r, 1))
    &&& if acc8(r) {
        let v = val(t1, n + 1);
        &&& extends(t0, t1, 2)
        &&& rd(t1, n + 1, pull_addr(r, 1))
        &&& r2 == pc_plus(Registers { a: (r.a & 0xFF00) | (v as u16), p: nz8(r.p, v), ..pulled(r, 1) }, 1)
    } else {
        let v = val16(t1, n + 1);
        &&& extends(t0, t1, 3)
        &&& rd(t1, n + 1, pull_addr(r, 1))
        &&& rd(t1, n + 2, pull_addr(r, 2))
        &&& r2 == pc_plus(Registers { a: v, p: nz16(r.p, v), ..pulled(r, 2) }, 1)
    }
}

/// JSR abs: pushes the address of the last operand byte (high byte first).
pub open spec fn sem_jsr_absolute(r: Registers, r2: Registers, t0: Seq<BusEvent>, t1: Seq<BusEvent>) -> bool {
    let n = t0.len() as int;
    let ret = r.pc.wrapping_add(2);
    &&& extends(t0, t1, 4)
    &&& operand16(r, t1, n)
    &&& wr(t1, n + 2, push_addr(r, 0), (ret >> 8u16) as u8)
    &&& wr(t1, n + 3, push_addr(r, 1), (ret & 0x00FF) as u8)
    &&& r2 == (Registers { pc: val16(t1, n), ..pushed(r, 2) })
}

/// JSL long: pushes the program bank, then the return address (high byte first).
pub open spec fn sem_jsl_long(r: Registers, r2: Registers, t0: Seq<BusEvent>, t1: Seq<BusEvent>) -> bool {
    let n = t0.len() as int;
    let ret = r.pc.wrapping_add(3);
    let target = val24(t1, n);
    &&& extends(t0, t1, 6)
    &&& operand24(r, t1, n)
    &&& wr(t1, n + 3, push_addr(r, 0), r.pbr)
    &&& wr(t1, n + 4, push_addr(r, 1), (ret >> 8u16) as u8)
    &&& wr(t1, n + 5, push_addr(r, 2), (ret & 0x00FF) as u8)
    &&& r2 == (Registers { pc: target as u16, pbr: (target >> 16u32) as u8, ..pushed(r, 3) })
}

/// RTS.
pub open spec fn sem_rts(r: Registers, r2: Registers, t0: Seq<BusEvent>, t1: Seq<BusEvent>) -> bool {
    let n = t0.len() as int;
    &&& extends(t0, t1, 3)
    &&& rd(t1, n, fetch_addr(r, 1))
    &&& rd(t1, n + 1, pull_addr(r, 1))
    &&& rd(t1, n + 2, pull_addr(r, 2))
    &&& r2 == (Registers { pc: val16(t1, n + 1).wrapping_add(1), ..pulled(r, 2) })
}

/// RTL.
pub open spec fn sem_rtl(r: Registers, r2: Registers, t0: Seq<BusEvent>, t1: Seq<BusEvent>) -> bool {
    let n = t0.len() as int;
    &&& extends(t0, t1, 4)
    &&& rd(t1, n, fetch_addr(r, 1))
    &&& rd(t1, n + 1, pull_addr(r, 1))
    &&& rd(t1, n + 2, pull_addr(r, 2))
    &&& rd(t1, n + 3, pull_addr(r, 3))
    &&& r2 == (Registers { pc: val16(t1, n + 1).wrapping_add(1), pbr: val(t1, n + 3), ..pulled(r, 3) })
}

} // verus!

verus! {

/// 1 when the carry flag is set, else 0.
pub open spec fn carry_in(r: Registers) -> int {
    if carry(r) { 1 } else { 0 }
}

/// Register file after ADC with an operand `value` of the current accumulator width.
pub open spec fn adc_result(r: Registers, value: u16) -> Registers {
    if acc8(r) {
        let sum = (r.a as u8) as int + (value as u8) as int + carry_in(r);
        let result = (sum % 256) as u8;
        Registers { a: (r.a & 0xFF00) | (result as u16), p: nz8(with_flag(r.p, 0x01, sum > 0xFF), result), ..r }
    } else {
        let sum = r.a as int + value as int + carry_in(r);
        let result = (sum % 65536) as u16;
        Registers { a: result, p: nz16(with_flag(r.p, 0x01, sum > 0xFFFF), result), ..r }
    }
}

/// Register file after SBC with an operand `value` of the current accumulator width.
pub open spec fn sbc_result(r: Registers, value: u16) -> Registers {
    if acc8(r) {
        let diff = (r.a as u8) as int - (value as u8) as int - (1 - carry_in(r));
        let result = (diff % 256) as u8;
        Registers { a: (r.a & 0xFF00) | (result as u16), p: nz8(with_flag(r.p, 0x01, diff >= 0), result), ..r }
    } else {
        let diff = r.a as int - value as int - (1 - carry_in(r));
        let result = (diff % 65536) as u16;
        Registers { a: result, p: nz16(with_flag(r.p, 0x01, diff >= 0), result), ..r }
    }
}

/// Status after comparing `lhs` with `rhs` at 8 bits (`wide` false) or 16 bits.
pub open spec fn compare_p(p: u8, lhs: u16, rhs: u16, wide: bool) -> u8 {
    if wide {
        nz16(with_flag(p, 0x01, lhs >= rhs), lhs.wrapping_sub(rhs))
    } else {
        nz8(with_flag(p, 0x01, lhs as u8 >= rhs as u8), (lhs as u8).wrapping_sub(rhs as u8))
    }
}

/// An immediate operand of `width` bytes read at events `n..`.
pub open spec fn immediate(r: Registers, t: Seq<BusEvent>, n: int, width: int) -> bool {
    &&& operand8(r, t, n)
    &&& width == 2 ==> rd(t, n + 1, fetch_addr(r, 2))
}

/// ORA dp.
pub open spec fn sem_ora_direct_page(r: Registers, r2: Registers, t0: Seq<BusEvent>, t1: Seq<BusEvent>) -> bool {
    let n = t0.len() as int;
    let w = acc_width(r);
    let value = data_value(t1, n + 1, w);
    &&& extends(t0, t1, 1 + w)
    &&& operand8(r, t1, n)
    &&& data_reads(t1, n + 1, dp_addr(r, val(t1, n)), w)
    &&& r2 == pc_plus(
        if acc8(r) {
            let result = (r.a as u8) | (value as u8);
            Registers { a: (r.a & 0xFF00) | (result as u16), p: nz8(r.p, result), ..r }
        } else {
            Registers { a: r.a | value, p: nz16(r.p, r.a | value), ..r }
        }, 2)
}

/// AND #imm (`and` false) or EOR #imm (`and` true selects AND, false selects EOR).
pub open spec fn sem_logic_immediate(r: Registers, r2: Registers, t0: Seq<BusEvent>, t1: Seq<BusEvent>, and: bool) -> bool {
    let n = t0.len() as int;
    let w = acc_width(r);
    let value = data_value(t1, n, w);
    &&& extends(t0, t1, w)
    &&& immediate(r, t1, n, w)
    &&& r2 == pc_plus(
        if acc8(r) {
            let result = if and { (r.a as u8) & (value as u8) } else { (r.a as u8) ^ (value as u8) };
            Registers { a: (r.a & 0xFF00) | (result as u16), p: nz8(r.p, result), ..r }
        } else {
            let result = if and { r.a & value } else { r.a ^ value };
            Registers { a: result, p: nz16(r.p, result), ..r }
        }, if acc8(r) { 2u16 } else { 3u16 })
}

/// ADC dp.
pub open spec fn sem_adc_direct_page(r: Registers, r2: Registers, t0: Seq<BusEvent>, t1: Seq<BusEvent>) -> bool {
    let n = t0.len() as int;
    let w = acc_width(r);
    &&& extends(t0, t1, 1 + w)
    &&& operand8(r, t1, n)
    &&& data_reads(t1, n + 1, dp_addr(r, val(t1, n)), w)
    &&& r2 == pc_plus(adc_result(r, data_value(t1, n + 1, w)), 2)
}

/// ADC #imm.
pub open spec fn sem_adc_immediate(r: Registers, r2: Registers, t0: Seq<BusEvent>, t1: Seq<BusEvent>) -> bool {
    let n = t0.len() as int;
    let w = acc_width(r);
    &&& extends(t0, t1, w)
    &&& immediate(r, t1, n, w)
    &&& r2 == pc_plus(adc_result(r, data_value(t1, n, w)), if acc8(r) { 2u16 } else { 3u16 })
}

/// SBC #imm.
pub open spec fn sem_sbc_immediate(r: Registers, r2: Registers, t0: Seq<BusEvent>, t1: Seq<BusEvent>) -> bool {
    let n = t0.len() as int;
    let w = acc_width(r);
    &&& extends(t0, t1, w)
    &&& immediate(r, t1, n, w)
    &&& r2 == pc_plus(sbc_result(r, data_value(t1, n, w)), if acc8(r) { 2u16 } else { 3u16 })
}

/// CPX #imm.
pub open spec fn sem_cpx_immediate(r: Registers, r2: Registers, t0: Seq<BusEvent>, t1: Seq<BusEvent>) -> bool {
    let n = t0.len() as int;
    let w = idx_width(r);
    &&& extends(t0, t1, w)
    &&& immediate(r, t1, n, w)
    &&& r2 == pc_plus(Registers { p: compare_p(r.p, r.x, data_value(t1, n, w), !idx8(r)), ..r },
        if idx8(r) { 2u16 } else { 3u16 })
}

/// CMP abs.
pub open spec fn sem_compare_absolute(r: Registers, r2: Registers, t0: Seq<BusEvent>, t1: Seq<BusEvent>) -> bool {
    let n = t0.len() as int;
    let w = acc_width(r);
    &&& extends(t0, t1, 2 + w)
    &&& operand16(r, t1, n)
    &&& data_reads(t1, n + 2, abs_addr(r, val16(t1, n)), w)
    &&& r2 == pc_plus(Registers { p: compare_p(r.p, r.a, data_value(t1, n + 2, w), !acc8(r)), ..r }, 3)
}

/// BIT abs.
pub open spec fn sem_bit_absolute(r: Registers, r2: Registers, t0: Seq<BusEvent>, t1: Seq<BusEvent>) -> bool {
    let n = t0.len() as int;
    let w = acc_width(r);
    let value = data_value(t1, n + 2, w);
    &&& extends(t0, t1, 2 + w)
    &&& operand16(r, t1, n)
    &&& data_reads(t1, n + 2, abs_addr(r, val16(t1, n)), w)
    &&& r2 == pc_plus(Registers {
        p: if acc8(r) {
            with_flag(with_flag(with_flag(r.p, 0x02, ((value as u8) & (r.a as u8)) == 0),
                0x80, (value as u8) & 0x80 != 0), 0x40, (value as u8) & 0x40 != 0)
        } else {
            with_flag(with_flag(with_flag(r.p, 0x02, (value & r.a) == 0),
                0x80, value & 0x8000 != 0), 0x40, value & 0x4000 != 0)
        },
        ..r
    }, 3)
}

/// TSB dp: test the bits against A, then set them in memory.
pub open spec fn sem_tsb_direct_page(r: Registers, r2: Registers, t0: Seq<BusEvent>, t1: Seq<BusEvent>) -> bool {
    let n = t0.len() as int;
    let w = acc_width(r);
    let address = dp_addr(r, val(t1, n));
    let value = data_value(t1, n + 1, w);
    &&& extends(t0, t1, 1 + 2 * w)
    &&& operand8(r, t1, n)
    &&& data_reads(t1, n + 1, address, w)
    &&& if acc8(r) {
        &&& data_writes(t1, n + 2, address, ((value as u8) | (r.a as u8)) as u16, false)
        &&& r2 == pc_plus(Registers { p: with_flag(r.p, 0x02, ((value as u8) & (r.a as u8)) == 0), ..r }, 2)
    } else {
        &&& data_writes(t1, n + 3, address, value | r.a, true)
        &&& r2 == pc_plus(Registers { p: with_flag(r.p, 0x02, (value & r.a) == 0), ..r }, 2)
    }
}

/// BRK: pushes (program bank in native mode,) return address and status, then jumps through
/// the break vector with interrupts disabled and decimal mode cleared.
pub open spec fn sem_brk(r: Registers, r2: Registers, t0: Seq<BusEvent>, t1: Seq<BusEvent>) -> bool {
    let n = t0.len() as int;
    let ret = r.pc.wrapping_add(2);
    let k: int = if r.emulation { 0 } else { 1 };
    let base: u32 = if r.emulation { 0x00FFFE } else { 0x00FFE6 };
    &&& extends(t0, t1, 6 + k)
    &&& rd(t1, n, fetch_addr(r, 1))
    &&& (!r.emulation ==> wr(t1, n + 1, push_addr(r, 0), r.pbr))
    &&& wr(t1, n + 1 + k, push_addr(r, k as u16), (ret >> 8u16) as u8)
    &&& wr(t1, n + 2 + k, push_addr(r, (k + 1) as u16), (ret & 0x00FF) as u8)
    &&& wr(t1, n + 3 + k, push_addr(r, (k + 2) as u16), if r.emulation { r.p | 0x10 } else { r.p })
    &&& rd(t1, n + 4 + k, base)
    &&& rd(t1, n + 5 + k, (base + 1) as u32)
    &&& r2 == (Registers {
        pc: val16(t1, n + 4 + k),
        pbr: if r.emulation { r.pbr } else { 0 },
        p: (r.p | 0x04) & !0x08u8,
        ..pushed(r, (3 + k) as u16)
    })
}

} // verus!

verus! {

/// Whether the core implements `opcode`.
pub open spec fn supported_opcode(opcode: u8) -> bool {
    opcode == 0x00
        || opcode == 0x04
        || opcode == 0x05
        || opcode == 0x08
        || opcode == 0x10
        || opcode == 0x18
        || opcode == 0x1A
        || opcode == 0x1B
        || opcode == 0x20
        || opcode == 0x22
        || opcode == 0x28
        || opcode == 0x29
        || opcode == 0x2A
        || opcode == 0x2C
        || opcode == 0x30
        || opcode == 0x38
        || opcode == 0x3B
        || opcode == 0x48
        || opcode == 0x49
        || opcode == 0x4B
        || opcode == 0x58
        || opcode == 0x5B
        || opcode == 0x60
        || opcode == 0x65
        || opcode == 0x68
        || opcode == 0x69
        || opcode == 0x6B
        || opcode == 0x70
        || opcode == 0x74
        || opcode == 0x78
        || opcode == 0x7B
        || opcode == 0x80
        || opcode == 0x84
        || opcode == 0x85
        || opcode == 0x86
        || opcode == 0x88
        || opcode == 0x8A
        || opcode == 0x8B
        || opcode == 0x8D
        || opcode == 0x8E
        || opcode == 0x8F
        || opcode == 0x98
        || opcode == 0x99
        || opcode == 0x9A
        || opcode == 0x9B
        || opcode == 0x9C
        || opcode == 0x9E
        || opcode == 0x9F
        || opcode == 0xA0
        || opcode == 0xA2
        || opcode == 0xA5
        || opcode == 0xA8
        || opcode == 0xA9
        || opcode == 0xAA
        || opcode == 0xAB
        || opcode == 0xAD
        || opcode == 0xB5
        || opcode == 0xB7
        || opcode == 0xB8
        || opcode == 0xB9
        || opcode == 0xBA
        || opcode == 0xBB
        || opcode == 0xBD
        || opcode == 0xC2
        || opcode == 0xC8
        || opcode == 0xCA
        || opcode == 0xCD
        || opcode == 0xD0
        || opcode == 0xD8
        || opcode == 0xE0
        || opcode == 0xE2
        || opcode == 0xE8
        || opcode == 0xE9
        || opcode == 0xEA
        || opcode == 0xF0
        || opcode == 0xF8
        || opcode == 0xFB
}

/// The semantics of the instruction `opcode`.
pub open spec fn instruction_sem(opcode: u8, r: Registers, r2: Registers, t0: Seq<BusEvent>, t1: Seq<BusEvent>) -> bool {
    match opcode {
        0x00 => sem_brk(r, r2, t0, t1),
        0x04 => sem_tsb_direct_page(r, r2, t0, t1),
        0x05 => sem_ora_direct_page(r, r2, t0, t1),
        0x08 => sem_push8(r, r2, t0, t1, r.p),
        0x10 => sem_branch(r, r2, t0, t1, r.p & 0x80 == 0),
        0x18 => sem_flag_op(r, r2, t0, t1, 0x01, false),
        0x1A => sem_inc_a(r, r2, t0, t1),
        0x1B => sem_tcs(r, r2, t0, t1),
        0x20 => sem_jsr_absolute(r, r2, t0, t1),
        0x22 => sem_jsl_long(r, r2, t0, t1),
        0x28 => sem_plp(r, r2, t0, t1),
        0x29 => sem_logic_immediate(r, r2, t0, t1, true),
        0x2A => sem_rol_a(r, r2, t0, t1),
        0x2C => sem_bit_absolute(r, r2, t0, t1),
        0x30 => sem_branch(r, r2, t0, t1, r.p & 0x80 != 0),
        0x38 => sem_flag_op(r, r2, t0, t1, 0x01, true),
        0x3B => sem_tsc(r, r2, t0, t1),
        0x48 => sem_pha(r, r2, t0, t1),
        0x49 => sem_logic_immediate(r, r2, t0, t1, false),
        0x4B => sem_push8(r, r2, t0, t1, r.pbr),
        0x58 => sem_flag_op(r, r2, t0, t1, 0x04, false),
        0x5B => sem_tcd(r, r2, t0, t1),
        0x60 => sem_rts(r, r2, t0, t1),
        0x65 => sem_adc_direct_page(r, r2, t0, t1),
        0x68 => sem_pla(r, r2, t0, t1),
        0x69 => sem_adc_immediate(r, r2, t0, t1),
        0x6B => sem_rtl(r, r2, t0, t1),
        0x70 => sem_branch(r, r2, t0, t1, r.p & 0x40 != 0),
        0x74 => sem_stz_direct_page_x(r, r2, t0, t1),
        0x78 => sem_flag_op(r, r2, t0, t1, 0x04, true),
        0x7B => sem_tdc(r, r2, t0, t1),
        0x80 => sem_branch(r, r2, t0, t1, true),
        0x84 => sem_sty_direct_page(r, r2, t0, t1),
        0x85 => sem_sta_direct_page(r, r2, t0, t1),
        0x86 => sem_stx_direct_page(r, r2, t0, t1),
        0x88 => sem_step_y(r, r2, t0, t1, false),
        0x8A => sem_txa(r, r2, t0, t1),
        0x8B => sem_push8(r, r2, t0, t1, r.dbr),
        0x8D => sem_sta_absolute(r, r2, t0, t1),
        0x8E => sem_stx_absolute(r, r2, t0, t1),
        0x8F => sem_sta_long(r, r2, t0, t1),
        0x98 => sem_tya(r, r2, t0, t1),
        0x99 => sem_sta_absolute_y(r, r2, t0, t1),
        0x9A => sem_txs(r, r2, t0, t1),
        0x9B => sem_txy(r, r2, t0, t1),
        0x9C => sem_stz_absolute(r, r2, t0, t1),
        0x9E => sem_stz_absolute_x(r, r2, t0, t1),
        0x9F => sem_sta_long_x(r, r2, t0, t1),
        0xA0 => sem_ldy_immediate(r, r2, t0, t1),
        0xA2 => sem_ldx_immediate(r, r2, t0, t1),
        0xA5 => sem_lda_direct_page(r, r2, t0, t1),
        0xA8 => sem_tay(r, r2, t0, t1),
        0xA9 => sem_lda_immediate(r, r2, t0, t1),
        0xAA => sem_tax(r, r2, t0, t1),
        0xAB => sem_plb(r, r2, t0, t1),
        0xAD => sem_lda_absolute(r, r2, t0, t1),
        0xB5 => sem_lda_direct_page_x(r, r2, t0, t1),
        0xB7 => sem_lda_indirect_long_y(r, r2, t0, t1),
        0xB8 => sem_flag_op(r, r2, t0, t1, 0x40, false),
        0xB9 => sem_lda_absolute_y(r, r2, t0, t1),
        0xBA => sem_tsx(r, r2, t0, t1),
        0xBB => sem_tyx(r, r2, t0, t1),
        0xBD => sem_lda_absolute_x(r, r2, t0, t1),
        0xC2 => sem_rep(r, r2, t0, t1),
        0xC8 => sem_step_y(r, r2, t0, t1, true),
        0xCA => sem_step_x(r, r2, t0, t1, false),
        0xCD => sem_compare_absolute(r, r2, t0, t1),
        0xD0 => sem_branch(r, r2, t0, t1, r.p & 0x02 == 0),
        0xD8 => sem_flag_op(r, r2, t0, t1, 0x08, false),
        0xE0 => sem_cpx_immediate(r, r2, t0, t1),
        0xE2 => sem_sep(r, r2, t0, t1),
        0xE8 => sem_step_x(r, r2, t0, t1, true),
        0xE9 => sem_sbc_immediate(r, r2, t0, t1),
        0xEA => sem_nop(r, r2, t0, t1),
        0xF0 => sem_branch(r, r2, t0, t1, r.p & 0x02 != 0),
        0xF8 => sem_flag_op(r, r2, t0, t1, 0x08, true),
        0xFB => sem_xce(r, r2, t0, t1),
        _ => false,
    }
}

} // verus!

verus! {

/// Every supported instruction takes at least one and at most sixteen bus events beyond the
/// opcode fetch.
#[verifier::rlimit(100)]
pub proof fn lemma_instruction_length(opcode: u8, r: Registers, r2: Registers, t0: Seq<BusEvent>, t1: Seq<BusEvent>)
    requires
        instruction_sem(opcode, r, r2, t0, t1),
    ensures
        t0.len() + 1 <= t1.len() <= t0.len() + 16,
{
}

} // verus!
