//! 65816 CPU core.
pub mod registers;
pub mod semantics;

use vstd::prelude::*;

use crate::bus::{bus_steps, lemma_steps_empty, lemma_steps_push, read_event, steps_continue, write_event, AccessKind, Address, Bus, BusEvent};
use crate::error::{Error, Result};
use self::registers::Registers;
use self::semantics::{
    acc8, idx8, nz8, nz16, with_flag, carry, bank_addr, fetch_addr, dp_addr, abs_addr, stack_addr_of, le16, le24, pc_plus, extends, ev, rd, wr, val, val16, push_addr, pull_addr, sem_implied, sem_nop, sem_flag_op, acc_width, idx_width, data_reads, data_writes, data_value, loaded_acc, sem_load_acc, sem_store, operand8, operand16, operand24, val24, sem_lda_immediate, loaded_index_value, loaded_index_p, index_immediate_reads, sem_ldx_immediate, sem_ldy_immediate, sem_lda_direct_page, sem_lda_direct_page_x, sem_lda_absolute, sem_lda_absolute_x, sem_lda_absolute_y, sem_lda_indirect_long_y, sem_sta_direct_page, sem_stx_direct_page, sem_sty_direct_page, sem_sta_absolute, sem_stx_absolute, sem_sta_absolute_y, sem_sta_long, sem_sta_long_x, sem_stz_absolute, sem_stz_direct_page_x, sem_stz_absolute_x, index_store, index_store_p, sem_tay, sem_tax, sem_txy, sem_tyx, sem_tsx, index_to_acc, sem_txa, sem_tya, sem_txs, sem_tcs, sem_tsc, sem_tcd, sem_tdc, index_step, index_step_p, sem_step_x, sem_step_y, sem_inc_a, sem_xce, sem_rol_a, sem_rep, sem_sep, branch_target, sem_branch, pushed, pulled, sem_push8, sem_pha, sem_plb, sem_plp, sem_pla, sem_jsr_absolute, sem_jsl_long, sem_rts, sem_rtl, carry_in, adc_result, sbc_result, compare_p, immediate, sem_ora_direct_page, sem_logic_immediate, sem_adc_direct_page, sem_adc_immediate, sem_sbc_immediate, sem_cpx_immediate, sem_compare_absolute, sem_bit_absolute, sem_tsb_direct_page, sem_brk, supported_opcode, instruction_sem, lemma_instruction_length,
};

verus! {

/// 65816 CPU core state.
#[derive(Debug, Clone, PartialEq, Eq)]
pub struct Cpu65816 {
    /// Architectural register file.
    pub registers: Registers,
    cycles: u64,
}

impl Default for Cpu65816 {
    fn default() -> (c: Self)
        ensures
            c.regs() == registers::zero_registers(),
            c.spec_cycles() == 0,
    {
        Cpu65816 { registers: Registers::default(), cycles: 0 }
    }
}

/// The register file right after power-on reset.
pub open spec fn reset_registers() -> Registers {
    Registers { a: 0, x: 0, y: 0, s: 0x01FF, d: 0, pc: 0, pbr: 0, dbr: 0, p: 0x34, emulation: true }
}

impl Cpu65816 {
    /// The architectural register file.
    pub closed spec fn regs(&self) -> Registers {
        self.registers
    }

    /// Cycles accounted to the last executed step.
    pub closed spec fn spec_cycles(&self) -> u64 {
        self.cycles
    }

    /// Reset to a known power-on-like state.
    pub fn reset(&mut self)
        ensures
            final(self).regs() == reset_registers(),
            final(self).spec_cycles() == 0,
    {
        self.registers = Registers {
            a: 0,
            x: 0,
            y: 0,
            s: 0x01FF,
            d: 0,
            pc: 0,
            pbr: 0,
            dbr: 0,
            p: 0x34,
            emulation: true,
        };
        self.cycles = 0;
    }

    /// Load a register snapshot and reset cycle accounting for compliance work.
    pub fn load_registers(&mut self, registers: Registers)
        ensures
            final(self).regs() == registers,
            final(self).spec_cycles() == 0,
    {
        self.registers = registers;
        self.cycles = 0;
    }

    /// Execute one placeholder step: advance the program counter by one byte.
    pub fn step(&mut self)
        ensures
            final(self).regs() == pc_plus(old(self).regs(), 1),
            final(self).spec_cycles() == old(self).spec_cycles().saturating_add(1),
    {
        self.registers.pc = self.registers.pc.wrapping_add(1);
        self.cycles = self.cycles.saturating_add(1);
    }

    /// Point the program counter at `pc`.
    pub fn set_pc(&mut self, pc: u16)
        ensures
            final(self).regs() == (Registers { pc, ..old(self).regs() }),
            final(self).spec_cycles() == old(self).spec_cycles(),
    {
        self.registers.pc = pc;
    }

    /// The architectural register file.
    pub fn registers(&self) -> (r: &Registers)
        ensures
            *r == self.regs(),
    {
        &self.registers
    }

    /// Current program counter expressed as a bus address.
    pub fn program_address(&self) -> (address: Address)
        ensures
            address == bank_addr(self.regs().pbr, self.regs().pc),
    {
        ((self.registers.pbr as u32) << 16u32) | (self.registers.pc as u32)
    }

    /// Total cycles accounted to the last executed step.
    pub fn cycles(&self) -> (c: u64)
        ensures
            c == self.spec_cycles(),
    {
        self.cycles
    }

    /// Execute one instruction against a bus and return the captured bus trace.
    pub fn step_with_bus<B: Bus>(&mut self, bus: &mut B) -> (res: Result<Vec<BusEvent>>)
        ensures
            final(bus).kept() == old(bus).kept(),
            match res {
                Ok(trace) => {
                    &&& trace@.len() >= 2
                    &&& rd(trace@, 0, bank_addr(old(self).regs().pbr, old(self).regs().pc))
                    &&& supported_opcode(trace@[0].value)
                    &&& instruction_sem(trace@[0].value, old(self).regs(), final(self).regs(), seq![trace@[0]], trace@)
                    &&& final(self).spec_cycles() == trace@.len()
                    &&& exists|fetched: B| old(bus).read_gives(trace@[0].address, trace@[0].value, &fetched)
                    &&& bus_steps(*old(bus), trace@, *final(bus))
                },
                Err(e) => {
                    &&& e matches Error::UnsupportedOpcode { cpu, opcode, address }
                    &&& cpu@ == "65816"@
                    &&& address == bank_addr(old(self).regs().pbr, old(self).regs().pc)
                    &&& !supported_opcode(opcode)
                    &&& old(bus).read_gives(address, opcode, final(bus))
                    &&& final(self).regs() == old(self).regs()
                    &&& final(self).spec_cycles() == old(self).spec_cycles()
                },
            },
    {
        let opcode_address = self.program_address();
        let ghost start = *bus;
        let opcode = bus.read(opcode_address);
        let ghost fetched = *bus;
        let mut trace: Vec<BusEvent> = Vec::new();
        trace.push(BusEvent { address: opcode_address, value: opcode, access: AccessKind::Read, cycle: 0 });
        let ghost t0 = trace@;
        match self.dispatch(opcode, bus, &mut trace) {
            Ok(()) => {},
            Err(error) => {
                return Err(error);
            },
        }
        assert(t0 =~= seq![trace@[0]]);
        proof { lemma_instruction_length(opcode, old(self).regs(), self.regs(), t0, trace@); }
        assert(start.read_gives(trace@[0].address, trace@[0].value, &fetched));
        proof {
            lemma_steps_empty(start);
            lemma_steps_push(start, Seq::<BusEvent>::empty(), start, t0[0], fetched);
            assert(Seq::<BusEvent>::empty().push(t0[0]) =~= t0);
            assert(bus_steps(start, t0, fetched));
        }
        self.cycles = trace.len() as u64;
        Ok(trace)
    }

    /// Execute the instruction whose opcode byte was just fetched (the one event of `trace`):
    /// a supported opcode runs to completion with the semantics `instruction_sem` gives; any
    /// other is refused with an unsupported-opcode error naming the 65816, the byte and the
    /// address it was fetched from, and nothing changes.
    pub fn dispatch<B: Bus>(&mut self, opcode: u8, bus: &mut B, trace: &mut Vec<BusEvent>) -> (r: Result<()>)
        requires
            old(trace)@ == seq![read_event(bank_addr(old(self).regs().pbr, old(self).regs().pc), opcode, 0)],
        ensures
            final(bus).kept() == old(bus).kept(),
            steps_continue(*old(bus), old(trace)@, *final(bus), final(trace)@),
            supported_opcode(opcode) <==> r is Ok,
            r is Ok ==> instruction_sem(opcode, old(self).regs(), final(self).regs(), old(trace)@, final(trace)@),
            r matches Err(e) ==> {
                &&& e matches Error::UnsupportedOpcode { cpu, opcode: o, address }
                &&& cpu@ == "65816"@
                &&& o == opcode
                &&& address == bank_addr(old(self).regs().pbr, old(self).regs().pc)
            },
            r is Err ==> final(self).regs() == old(self).regs() && final(trace)@ == old(trace)@
                && *final(bus) == *old(bus),
            final(self).spec_cycles() == old(self).spec_cycles(),
    {
        proof { reveal_strlit("65816"); }
        match opcode {
            0x04 => self.execute_tsb_direct_page(bus, trace),
            0x05 => self.execute_ora_direct_page(bus, trace),
            0x08 => self.execute_php(bus, trace),
            0x10 => self.execute_bpl(bus, trace),
            0xEA => self.execute_nop(bus, trace),
            0x00 => self.execute_brk(bus, trace),
            0x1B => self.execute_tcs(bus, trace),
            0x18 => self.execute_clc(bus, trace),
            0x1A => self.execute_inc_a(bus, trace),
            0x20 => self.execute_jsr_absolute(bus, trace),
            0x22 => self.execute_jsl_long(bus, trace),
            0x28 => self.execute_plp(bus, trace),
            0x29 => self.execute_and_immediate(bus, trace),
            0x2A => self.execute_rol_a(bus, trace),
            0x2C => self.execute_bit_absolute(bus, trace),
            0x30 => self.execute_bmi(bus, trace),
            0x38 => self.execute_sec(bus, trace),
            0x3B => self.execute_tsc(bus, trace),
            0x48 => self.execute_pha(bus, trace),
            0x49 => self.execute_eor_immediate(bus, trace),
            0x4B => self.execute_phk(bus, trace),
            0x58 => self.execute_cli(bus, trace),
            0x60 => self.execute_rts(bus, trace),
            0x65 => self.execute_adc_direct_page(bus, trace),
            0x68 => self.execute_pla(bus, trace),
            0x69 => self.execute_adc_immediate(bus, trace),
            0x70 => self.execute_bvs(bus, trace),
            0x74 => self.execute_stz_direct_page_x(bus, trace),
            0x6B => self.execute_rtl(bus, trace),
            0x5B => self.execute_tcd(bus, trace),
            0x78 => self.execute_sei(bus, trace),
            0x80 => self.execute_bra(bus, trace),
            0x7B => self.execute_tdc(bus, trace),
            0x84 => self.execute_sty_direct_page(bus, trace),
            0x85 => self.execute_sta_direct_page(bus, trace),
            0x86 => self.execute_stx_direct_page(bus, trace),
            0x88 => self.execute_dey(bus, trace),
            0x8B => self.execute_phb(bus, trace),
            0xA8 => self.execute_tay(bus, trace),
            0x8A => self.execute_txa(bus, trace),
            0x8D => self.execute_sta_absolute(bus, trace),
            0x8E => self.execute_stx_absolute(bus, trace),
            0x8F => self.execute_sta_long(bus, trace),
            0x9B => self.execute_txy(bus, trace),
            0x99 => self.execute_sta_absolute_y(bus, trace),
            0x9C => self.execute_stz_absolute(bus, trace),
            0x9E => self.execute_stz_absolute_x(bus, trace),
            0x9F => self.execute_sta_long_x(bus, trace),
            0xAA => self.execute_tax(bus, trace),
            0xA0 => self.execute_ldy_immediate(bus, trace),
            0xA2 => self.execute_ldx_immediate(bus, trace),
            0xA5 => self.execute_lda_direct_page(bus, trace),
            0xA9 => self.execute_lda_immediate(bus, trace),
            0xAB => self.execute_plb(bus, trace),
            0x98 => self.execute_tya(bus, trace),
            0xAD => self.execute_lda_absolute(bus, trace),
            0x9A => self.execute_txs(bus, trace),
            0xB8 => self.execute_clv(bus, trace),
            0xB5 => self.execute_lda_direct_page_x(bus, trace),
            0xB7 => self.execute_lda_indirect_long_y(bus, trace),
            0xB9 => self.execute_lda_absolute_y(bus, trace),
            0xBD => self.execute_lda_absolute_x(bus, trace),
            0xBB => self.execute_tyx(bus, trace),
            0xC8 => self.execute_iny(bus, trace),
            0xCA => self.execute_dex(bus, trace),
            0xCD => self.execute_compare_absolute(bus, trace),
            0xBA => self.execute_tsx(bus, trace),
            0xC2 => self.execute_rep(bus, trace),
            0xD0 => self.execute_bne(bus, trace),
            0xD8 => self.execute_cld(bus, trace),
            0xE0 => self.execute_cpx_immediate(bus, trace),
            0xE8 => self.execute_inx(bus, trace),
            0xE9 => self.execute_sbc_immediate(bus, trace),
            0xE2 => self.execute_sep(bus, trace),
            0xF0 => self.execute_beq(bus, trace),
            0xFB => self.execute_xce(bus, trace),
            0xF8 => self.execute_sed(bus, trace),
            _ => Err(Error::UnsupportedOpcode { cpu: "65816".to_owned(), opcode, address: self.program_address() }),
        }
    }

    fn push_read_trace<B: Bus>(&self, bus: &mut B, trace: &mut Vec<BusEvent>, address: Address) -> (value: u8)
        ensures
            final(bus).kept() == old(bus).kept(),
            steps_continue(*old(bus), old(trace)@, *final(bus), final(trace)@),
            final(trace)@ == old(trace)@.push(read_event(address, value, old(trace)@.len() as int)),
    {
        let ghost before = *bus;
        let value = bus.read(address);
        let cycle = trace.len() as u64;
        let ghost t0 = trace@;
        trace.push(BusEvent { address, value, access: AccessKind::Read, cycle });
        proof {
            assert forall|s: B| #[trigger] bus_steps(s, t0, before) implies bus_steps(s, trace@, *bus) by {
                lemma_steps_push(s, t0, before, BusEvent { address, value, access: AccessKind::Read, cycle }, *bus);
            }
        }
        value
    }

    fn write_u8_trace<B: Bus>(&self, bus: &mut B, trace: &mut Vec<BusEvent>, address: Address, value: u8)
        ensures
            final(bus).kept() == old(bus).kept(),
            steps_continue(*old(bus), old(trace)@, *final(bus), final(trace)@),
            final(trace)@ == old(trace)@.push(write_event(address, value, old(trace)@.len() as int)),
    {
        let ghost before = *bus;
        bus.write(address, value);
        let cycle = trace.len() as u64;
        let ghost t0 = trace@;
        trace.push(BusEvent { address, value, access: AccessKind::Write, cycle });
        proof {
            assert forall|s: B| #[trigger] bus_steps(s, t0, before) implies bus_steps(s, trace@, *bus) by {
                lemma_steps_push(s, t0, before, BusEvent { address, value, access: AccessKind::Write, cycle }, *bus);
            }
        }
    }

    fn fetch_address(&self, offset: u16) -> (address: Address)
        ensures
            address == fetch_addr(self.registers, offset),
    {
        ((self.registers.pbr as u32) << 16u32) | (self.registers.pc.wrapping_add(offset) as u32)
    }

    fn accumulator_is_8_bit(&self) -> (r: bool)
        ensures
            r == acc8(self.registers),
    {
        self.registers.emulation || (self.registers.p & 0x20) != 0
    }

    fn index_registers_are_8_bit(&self) -> (r: bool)
        ensures
            r == idx8(self.registers),
    {
        self.registers.emulation || (self.registers.p & 0x10) != 0
    }

    fn update_nz_8(&mut self, value: u8)
        ensures
            final(self).registers == (Registers { p: nz8(old(self).registers.p, value), ..old(self).registers }),
            final(self).cycles == old(self).cycles,
    {
        self.registers.p = self.registers.p & !(0x80u8 | 0x02u8);
        if value & 0x80 != 0 {
            self.registers.p = self.registers.p | 0x80;
        }
        if value == 0 {
            self.registers.p = self.registers.p | 0x02;
        }
    }

    fn update_nz_16(&mut self, value: u16)
        ensures
            final(self).registers == (Registers { p: nz16(old(self).registers.p, value), ..old(self).registers }),
            final(self).cycles == old(self).cycles,
    {
        self.registers.p = self.registers.p & !(0x80u8 | 0x02u8);
        if value & 0x8000 != 0 {
            self.registers.p = self.registers.p | 0x80;
        }
        if value == 0 {
            self.registers.p = self.registers.p | 0x02;
        }
    }

    fn set_flag(&mut self, mask: u8, enabled: bool)
        ensures
            final(self).registers == (Registers { p: with_flag(old(self).registers.p, mask, enabled), ..old(self).registers }),
            final(self).cycles == old(self).cycles,
    {
        if enabled {
            self.registers.p = self.registers.p | mask;
        } else {
            self.registers.p = self.registers.p & !mask;
        }
    }

    fn set_carry(&mut self, enabled: bool)
        ensures
            final(self).registers == (Registers { p: with_flag(old(self).registers.p, 0x01, enabled), ..old(self).registers }),
            final(self).cycles == old(self).cycles,
    {
        self.set_flag(0x01, enabled);
    }

    fn set_zero(&mut self, enabled: bool)
        ensures
            final(self).registers == (Registers { p: with_flag(old(self).registers.p, 0x02, enabled), ..old(self).registers }),
            final(self).cycles == old(self).cycles,
    {
        self.set_flag(0x02, enabled);
    }

    fn set_overflow(&mut self, enabled: bool)
        ensures
            final(self).registers == (Registers { p: with_flag(old(self).registers.p, 0x40, enabled), ..old(self).registers }),
            final(self).cycles == old(self).cycles,
    {
        self.set_flag(0x40, enabled);
    }

    fn set_negative(&mut self, enabled: bool)
        ensures
            final(self).registers == (Registers { p: with_flag(old(self).registers.p, 0x80, enabled), ..old(self).registers }),
            final(self).cycles == old(self).cycles,
    {
        self.set_flag(0x80, enabled);
    }

    fn advance_pc(&mut self, k: u16)
        ensures
            final(self).registers == pc_plus(old(self).registers, k),
            final(self).cycles == old(self).cycles,
    {
        self.registers.pc = self.registers.pc.wrapping_add(k);
    }

    fn execute_nop<B: Bus>(&mut self, bus: &mut B, trace: &mut Vec<BusEvent>) -> (res: Result<()>)
        ensures
            final(bus).kept() == old(bus).kept(),
            steps_continue(*old(bus), old(trace)@, *final(bus), final(trace)@),
            res is Ok,
            final(self).cycles == old(self).cycles,
            sem_nop(old(self).registers, final(self).registers, old(trace)@, final(trace)@),
    {
        let address = self.fetch_address(1);
        self.push_read_trace(bus, trace, address);
        self.advance_pc(1);
        Ok(())
    }

    fn execute_clc<B: Bus>(&mut self, bus: &mut B, trace: &mut Vec<BusEvent>) -> (res: Result<()>)
        ensures
            final(bus).kept() == old(bus).kept(),
            steps_continue(*old(bus), old(trace)@, *final(bus), final(trace)@),
            res is Ok,
            final(self).cycles == old(self).cycles,
            sem_flag_op(old(self).registers, final(self).registers, old(trace)@, final(trace)@, 0x01, false),
    {
        let address = self.fetch_address(1);
        self.push_read_trace(bus, trace, address);
        self.set_flag(0x01, false);
        self.advance_pc(1);
        Ok(())
    }

    fn fetch_operand_u16<B: Bus>(&self, bus: &mut B, trace: &mut Vec<BusEvent>) -> (v: u16)
        ensures
            final(bus).kept() == old(bus).kept(),
            steps_continue(*old(bus), old(trace)@, *final(bus), final(trace)@),
            final(trace)@.len() == old(trace)@.len() + 2,
            extends(old(trace)@, final(trace)@, 2),
            operand16(self.registers, final(trace)@, old(trace)@.len() as int),
            v == val16(final(trace)@, old(trace)@.len() as int),
    {
        let a1 = self.fetch_address(1);
        let low = self.push_read_trace(bus, trace, a1);
        let a2 = self.fetch_address(2);
        let high = self.push_read_trace(bus, trace, a2);
        (low as u16) | ((high as u16) << 8u16)
    }

    fn fetch_operand_u24<B: Bus>(&self, bus: &mut B, trace: &mut Vec<BusEvent>) -> (v: u32)
        ensures
            final(bus).kept() == old(bus).kept(),
            steps_continue(*old(bus), old(trace)@, *final(bus), final(trace)@),
            extends(old(trace)@, final(trace)@, 3),
            operand24(self.registers, final(trace)@, old(trace)@.len() as int),
            v == val24(final(trace)@, old(trace)@.len() as int),
    {
        let a1 = self.fetch_address(1);
        let low = self.push_read_trace(bus, trace, a1);
        let a2 = self.fetch_address(2);
        let high = self.push_read_trace(bus, trace, a2);
        let a3 = self.fetch_address(3);
        let bank = self.push_read_trace(bus, trace, a3);
        (low as u32) | ((high as u32) << 8u32) | ((bank as u32) << 16u32)
    }

    fn fetch_operand_u8<B: Bus>(&self, bus: &mut B, trace: &mut Vec<BusEvent>) -> (v: u8)
        ensures
            final(bus).kept() == old(bus).kept(),
            steps_continue(*old(bus), old(trace)@, *final(bus), final(trace)@),
            extends(old(trace)@, final(trace)@, 1),
            operand8(self.registers, final(trace)@, old(trace)@.len() as int),
            v == val(final(trace)@, old(trace)@.len() as int),
    {
        let a1 = self.fetch_address(1);
        self.push_read_trace(bus, trace, a1)
    }

    fn direct_page_address(&self, operand: u8) -> (address: Address)
        ensures
            address == dp_addr(self.registers, operand),
    {
        self.registers.d.wrapping_add(operand as u16) as u32
    }

    fn absolute_address(&self, operand: u16) -> (address: Address)
        ensures
            address == abs_addr(self.registers, operand),
    {
        ((self.registers.dbr as u32) << 16u32) | (operand as u32)
    }

    fn read_u16_trace<B: Bus>(&self, bus: &mut B, trace: &mut Vec<BusEvent>, address: Address) -> (v: u16)
        ensures
            final(bus).kept() == old(bus).kept(),
            steps_continue(*old(bus), old(trace)@, *final(bus), final(trace)@),
            extends(old(trace)@, final(trace)@, 2),
            data_reads(final(trace)@, old(trace)@.len() as int, address, 2),
            v == val16(final(trace)@, old(trace)@.len() as int),
    {
        let low = self.push_read_trace(bus, trace, address);
        let high = self.push_read_trace(bus, trace, address.wrapping_add(1));
        (low as u16) | ((high as u16) << 8u16)
    }

    fn write_u16_trace<B: Bus>(&self, bus: &mut B, trace: &mut Vec<BusEvent>, address: Address, value: u16)
        ensures
            final(bus).kept() == old(bus).kept(),
            steps_continue(*old(bus), old(trace)@, *final(bus), final(trace)@),
            extends(old(trace)@, final(trace)@, 2),
            data_writes(final(trace)@, old(trace)@.len() as int, address, value, true),
    {
        self.write_u8_trace(bus, trace, address, value as u8);
        self.write_u8_trace(bus, trace, address.wrapping_add(1), (value >> 8u16) as u8);
    }

    fn load_accumulator_from_address<B: Bus>(&mut self, bus: &mut B, trace: &mut Vec<BusEvent>, address: Address)
        ensures
            final(bus).kept() == old(bus).kept(),
            steps_continue(*old(bus), old(trace)@, *final(bus), final(trace)@),
            extends(old(trace)@, final(trace)@, acc_width(old(self).registers)),
            data_reads(final(trace)@, old(trace)@.len() as int, address, acc_width(old(self).registers)),
            final(self).registers == loaded_acc(old(self).registers, final(trace)@, old(trace)@.len() as int),
            final(self).cycles == old(self).cycles,
    {
        if self.accumulator_is_8_bit() {
            let value = self.push_read_trace(bus, trace, address);
            self.registers.a = (self.registers.a & 0xFF00) | (value as u16);
            self.update_nz_8(value);
        } else {
            let value = self.read_u16_trace(bus, trace, address);
            self.registers.a = value;
            self.update_nz_16(value);
        }
    }

    fn store_value_to_address<B: Bus>(&self, bus: &mut B, trace: &mut Vec<BusEvent>, address: Address, value: u16, wide: bool)
        ensures
            final(bus).kept() == old(bus).kept(),
            steps_continue(*old(bus), old(trace)@, *final(bus), final(trace)@),
            extends(old(trace)@, final(trace)@, if wide { 2int } else { 1int }),
            data_writes(final(trace)@, old(trace)@.len() as int, address, value, wide),
    {
        if wide {
            self.write_u16_trace(bus, trace, address, value);
        } else {
            self.write_u8_trace(bus, trace, address, value as u8);
        }
    }

    fn store_accumulator_to_address<B: Bus>(&self, bus: &mut B, trace: &mut Vec<BusEvent>, address: Address)
        ensures
            final(bus).kept() == old(bus).kept(),
            steps_continue(*old(bus), old(trace)@, *final(bus), final(trace)@),
            extends(old(trace)@, final(trace)@, acc_width(self.registers)),
            data_writes(final(trace)@, old(trace)@.len() as int, address, self.registers.a, !acc8(self.registers)),
    {
        let wide = !self.accumulator_is_8_bit();
        self.store_value_to_address(bus, trace, address, self.registers.a, wide);
    }

    fn store_index_x_to_address<B: Bus>(&self, bus: &mut B, trace: &mut Vec<BusEvent>, address: Address)
        ensures
            final(bus).kept() == old(bus).kept(),
            steps_continue(*old(bus), old(trace)@, *final(bus), final(trace)@),
            extends(old(trace)@, final(trace)@, idx_width(self.registers)),
            data_writes(final(trace)@, old(trace)@.len() as int, address, self.registers.x, !idx8(self.registers)),
    {
        let wide = !self.index_registers_are_8_bit();
        self.store_value_to_address(bus, trace, address, self.registers.x, wide);
    }

    fn store_index_y_to_address<B: Bus>(&self, bus: &mut B, trace: &mut Vec<BusEvent>, address: Address)
        ensures
            final(bus).kept() == old(bus).kept(),
            steps_continue(*old(bus), old(trace)@, *final(bus), final(trace)@),
            extends(old(trace)@, final(trace)@, idx_width(self.registers)),
            data_writes(final(trace)@, old(trace)@.len() as int, address, self.registers.y, !idx8(self.registers)),
    {
        let wide = !self.index_registers_are_8_bit();
        self.store_value_to_address(bus, trace, address, self.registers.y, wide);
    }

    fn store_zero_to_address<B: Bus>(&self, bus: &mut B, trace: &mut Vec<BusEvent>, address: Address)
        ensures
            final(bus).kept() == old(bus).kept(),
            steps_continue(*old(bus), old(trace)@, *final(bus), final(trace)@),
            extends(old(trace)@, final(trace)@, acc_width(self.registers)),
            data_writes(final(trace)@, old(trace)@.len() as int, address, 0, !acc8(self.registers)),
    {
        let wide = !self.accumulator_is_8_bit();
        self.store_value_to_address(bus, trace, address, 0, wide);
    }

    fn execute_lda_immediate<B: Bus>(&mut self, bus: &mut B, trace: &mut Vec<BusEvent>) -> (res: Result<()>)
        ensures
            final(bus).kept() == old(bus).kept(),
            steps_continue(*old(bus), old(trace)@, *final(bus), final(trace)@),
            res is Ok,
            final(self).cycles == old(self).cycles,
            sem_lda_immediate(old(self).registers, final(self).registers, old(trace)@, final(trace)@),
    {
        if self.accumulator_is_8_bit() {
            let value = self.fetch_operand_u8(bus, trace);
            self.registers.a = (self.registers.a & 0xFF00) | (value as u16);
            self.update_nz_8(value);
            self.advance_pc(2);
        } else {
            let value = self.fetch_operand_u16(bus, trace);
            self.registers.a = value;
            self.update_nz_16(value);
            self.advance_pc(3);
        }
        Ok(())
    }

    fn execute_ldx_immediate<B: Bus>(&mut self, bus: &mut B, trace: &mut Vec<BusEvent>) -> (res: Result<()>)
        ensures
            final(bus).kept() == old(bus).kept(),
            steps_continue(*old(bus), old(trace)@, *final(bus), final(trace)@),
            res is Ok,
            final(self).cycles == old(self).cycles,
            sem_ldx_immediate(old(self).registers, final(self).registers, old(trace)@, final(trace)@),
    {
        if self.index_registers_are_8_bit() {
            let value = self.fetch_operand_u8(bus, trace);
            self.registers.x = value as u16;
            self.update_nz_8(value);
            self.advance_pc(2);
        } else {
            let value = self.fetch_operand_u16(bus, trace);
            self.registers.x = value;
            self.update_nz_16(value);
            self.advance_pc(3);
        }
        Ok(())
    }

    fn execute_ldy_immediate<B: Bus>(&mut self, bus: &mut B, trace: &mut Vec<BusEvent>) -> (res: Result<()>)
        ensures
            final(bus).kept() == old(bus).kept(),
            steps_continue(*old(bus), old(trace)@, *final(bus), final(trace)@),
            res is Ok,
            final(self).cycles == old(self).cycles,
            sem_ldy_immediate(old(self).registers, final(self).registers, old(trace)@, final(trace)@),
    {
        if self.index_registers_are_8_bit() {
            let value = self.fetch_operand_u8(bus, trace);
            self.registers.y = value as u16;
            self.update_nz_8(value);
            self.advance_pc(2);
        } else {
            let value = self.fetch_operand_u16(bus, trace);
            self.registers.y = value;
            self.update_nz_16(value);
            self.advance_pc(3);
        }
        Ok(())
    }

    fn execute_lda_direct_page<B: Bus>(&mut self, bus: &mut B, trace: &mut Vec<BusEvent>) -> (res: Result<()>)
        ensures
            final(bus).kept() == old(bus).kept(),
            steps_continue(*old(bus), old(trace)@, *final(bus), final(trace)@),
            res is Ok,
            final(self).cycles == old(self).cycles,
            sem_lda_direct_page(old(self).registers, final(self).registers, old(trace)@, final(trace)@),
    {
        let operand = self.fetch_operand_u8(bus, trace);
        let address = self.direct_page_address(operand);
        self.load_accumulator_from_address(bus, trace, address);
        self.advance_pc(2);
        Ok(())
    }

    fn execute_lda_direct_page_x<B: Bus>(&mut self, bus: &mut B, trace: &mut Vec<BusEvent>) -> (res: Result<()>)
        ensures
            final(bus).kept() == old(bus).kept(),
            steps_continue(*old(bus), old(trace)@, *final(bus), final(trace)@),
            res is Ok,
            final(self).cycles == old(self).cycles,
            sem_lda_direct_page_x(old(self).registers, final(self).registers, old(trace)@, final(trace)@),
    {
        let operand = self.fetch_operand_u8(bus, trace);
        let address = self.direct_page_address(operand).wrapping_add((self.registers.x & 0x00FF) as u32);
        self.load_accumulator_from_address(bus, trace, address);
        self.advance_pc(2);
        Ok(())
    }

    fn execute_lda_absolute<B: Bus>(&mut self, bus: &mut B, trace: &mut Vec<BusEvent>) -> (res: Result<()>)
        ensures
            final(bus).kept() == old(bus).kept(),
            steps_continue(*old(bus), old(trace)@, *final(bus), final(trace)@),
            res is Ok,
            final(self).cycles == old(self).cycles,
            sem_lda_absolute(old(self).registers, final(self).registers, old(trace)@, final(trace)@),
    {
        let operand = self.fetch_operand_u16(bus, trace);
        let address = self.absolute_address(operand);
        self.load_accumulator_from_address(bus, trace, address);
        self.advance_pc(3);
        Ok(())
    }

    fn execute_lda_absolute_x<B: Bus>(&mut self, bus: &mut B, trace: &mut Vec<BusEvent>) -> (res: Result<()>)
        ensures
            final(bus).kept() == old(bus).kept(),
            steps_continue(*old(bus), old(trace)@, *final(bus), final(trace)@),
            res is Ok,
            final(self).cycles == old(self).cycles,
            sem_lda_absolute_x(old(self).registers, final(self).registers, old(trace)@, final(trace)@),
    {
        let base = self.fetch_operand_u16(bus, trace);
        let address = self.absolute_address(base.wrapping_add(self.registers.x));
        self.load_accumulator_from_address(bus, trace, address);
        self.advance_pc(3);
        Ok(())
    }

    fn execute_lda_absolute_y<B: Bus>(&mut self, bus: &mut B, trace: &mut Vec<BusEvent>) -> (res: Result<()>)
        ensures
            final(bus).kept() == old(bus).kept(),
            steps_continue(*old(bus), old(trace)@, *final(bus), final(trace)@),
            res is Ok,
            final(self).cycles == old(self).cycles,
            sem_lda_absolute_y(old(self).registers, final(self).registers, old(trace)@, final(trace)@),
    {
        let base = self.fetch_operand_u16(bus, trace);
        let address = self.absolute_address(base.wrapping_add(self.registers.y));
        self.load_accumulator_from_address(bus, trace, address);
        self.advance_pc(3);
        Ok(())
    }

    fn execute_lda_indirect_long_y<B: Bus>(&mut self, bus: &mut B, trace: &mut Vec<BusEvent>) -> (res: Result<()>)
        ensures
            final(bus).kept() == old(bus).kept(),
            steps_continue(*old(bus), old(trace)@, *final(bus), final(trace)@),
            res is Ok,
            final(self).cycles == old(self).cycles,
            sem_lda_indirect_long_y(old(self).registers, final(self).registers, old(trace)@, final(trace)@),
    {
        let operand = self.fetch_operand_u8(bus, trace);
        let base = self.direct_page_address(operand);
        let low = self.push_read_trace(bus, trace, base);
        let high = self.push_read_trace(bus, trace, base.wrapping_add(1));
        let bank = self.push_read_trace(bus, trace, base.wrapping_add(2));
        let pointer = (low as u32) | ((high as u32) << 8u32) | ((bank as u32) << 16u32);
        let address = pointer.wrapping_add(self.registers.y as u32);
        self.load_accumulator_from_address(bus, trace, address);
        self.advance_pc(2);
        Ok(())
    }

    fn execute_sta_direct_page<B: Bus>(&mut self, bus: &mut B, trace: &mut Vec<BusEvent>) -> (res: Result<()>)
        ensures
            final(bus).kept() == old(bus).kept(),
            steps_continue(*old(bus), old(trace)@, *final(bus), final(trace)@),
            res is Ok,
            final(self).cycles == old(self).cycles,
            sem_sta_direct_page(old(self).registers, final(self).registers, old(trace)@, final(trace)@),
    {
        let operand = self.fetch_operand_u8(bus, trace);
        let address = self.direct_page_address(operand);
        self.store_accumulator_to_address(bus, trace, address);
        self.advance_pc(2);
        Ok(())
    }

    fn execute_stx_direct_page<B: Bus>(&mut self, bus: &mut B, trace: &mut Vec<BusEvent>) -> (res: Result<()>)
        ensures
            final(bus).kept() == old(bus).kept(),
            steps_continue(*old(bus), old(trace)@, *final(bus), final(trace)@),
            res is Ok,
            final(self).cycles == old(self).cycles,
            sem_stx_direct_page(old(self).registers, final(self).registers, old(trace)@, final(trace)@),
    {
        let operand = self.fetch_operand_u8(bus, trace);
        let address = self.direct_page_address(operand);
        self.store_index_x_to_address(bus, trace, address);
        self.advance_pc(2);
        Ok(())
    }

    fn execute_sty_direct_page<B: Bus>(&mut self, bus: &mut B, trace: &mut Vec<BusEvent>) -> (res: Result<()>)
        ensures
            final(bus).kept() == old(bus).kept(),
            steps_continue(*old(bus), old(trace)@, *final(bus), final(trace)@),
            res is Ok,
            final(self).cycles == old(self).cycles,
            sem_sty_direct_page(old(self).registers, final(self).registers, old(trace)@, final(trace)@),
    {
        let operand = self.fetch_operand_u8(bus, trace);
        let address = self.direct_page_address(operand);
        self.store_index_y_to_address(bus, trace, address);
        self.advance_pc(2);
        Ok(())
    }

    fn execute_sta_absolute<B: Bus>(&mut self, bus: &mut B, trace: &mut Vec<BusEvent>) -> (res: Result<()>)
        ensures
            final(bus).kept() == old(bus).kept(),
            steps_continue(*old(bus), old(trace)@, *final(bus), final(trace)@),
            res is Ok,
            final(self).cycles == old(self).cycles,
            sem_sta_absolute(old(self).registers, final(self).registers, old(trace)@, final(trace)@),
    {
        let operand = self.fetch_operand_u16(bus, trace);
        let address = self.absolute_address(operand);
        self.store_accumulator_to_address(bus, trace, address);
        self.advance_pc(3);
        Ok(())
    }

    fn execute_stx_absolute<B: Bus>(&mut self, bus: &mut B, trace: &mut Vec<BusEvent>) -> (res: Result<()>)
        ensures
            final(bus).kept() == old(bus).kept(),
            steps_continue(*old(bus), old(trace)@, *final(bus), final(trace)@),
            res is Ok,
            final(self).cycles == old(self).cycles,
            sem_stx_absolute(old(self).registers, final(self).registers, old(trace)@, final(trace)@),
    {
        let operand = self.fetch_operand_u16(bus, trace);
        let address = self.absolute_address(operand);
        self.store_index_x_to_address(bus, trace, address);
        self.advance_pc(3);
        Ok(())
    }

    fn execute_sta_absolute_y<B: Bus>(&mut self, bus: &mut B, trace: &mut Vec<BusEvent>) -> (res: Result<()>)
        ensures
            final(bus).kept() == old(bus).kept(),
            steps_continue(*old(bus), old(trace)@, *final(bus), final(trace)@),
            res is Ok,
            final(self).cycles == old(self).cycles,
            sem_sta_absolute_y(old(self).registers, final(self).registers, old(trace)@, final(trace)@),
    {
        let base = self.fetch_operand_u16(bus, trace);
        let address = self.absolute_address(base.wrapping_add(self.registers.y));
        self.store_accumulator_to_address(bus, trace, address);
        self.advance_pc(3);
        Ok(())
    }

    fn execute_sta_long<B: Bus>(&mut self, bus: &mut B, trace: &mut Vec<BusEvent>) -> (res: Result<()>)
        ensures
            final(bus).kept() == old(bus).kept(),
            steps_continue(*old(bus), old(trace)@, *final(bus), final(trace)@),
            res is Ok,
            final(self).cycles == old(self).cycles,
            sem_sta_long(old(self).registers, final(self).registers, old(trace)@, final(trace)@),
    {
        let address = self.fetch_operand_u24(bus, trace);
        self.store_accumulator_to_address(bus, trace, address);
        self.advance_pc(4);
        Ok(())
    }

    fn execute_sta_long_x<B: Bus>(&mut self, bus: &mut B, trace: &mut Vec<BusEvent>) -> (res: Result<()>)
        ensures
            final(bus).kept() == old(bus).kept(),
            steps_continue(*old(bus), old(trace)@, *final(bus), final(trace)@),
            res is Ok,
            final(self).cycles == old(self).cycles,
            sem_sta_long_x(old(self).registers, final(self).registers, old(trace)@, final(trace)@),
    {
        let address = self.fetch_operand_u24(bus, trace).wrapping_add(self.registers.x as u32);
        self.store_accumulator_to_address(bus, trace, address);
        self.advance_pc(4);
        Ok(())
    }

    fn execute_stz_absolute<B: Bus>(&mut self, bus: &mut B, trace: &mut Vec<BusEvent>) -> (res: Result<()>)
        ensures
            final(bus).kept() == old(bus).kept(),
            steps_continue(*old(bus), old(trace)@, *final(bus), final(trace)@),
            res is Ok,
            final(self).cycles == old(self).cycles,
            sem_stz_absolute(old(self).registers, final(self).registers, old(trace)@, final(trace)@),
    {
        let operand = self.fetch_operand_u16(bus, trace);
        let address = self.absolute_address(operand);
        self.store_zero_to_address(bus, trace, address);
        self.advance_pc(3);
        Ok(())
    }

    fn execute_stz_direct_page_x<B: Bus>(&mut self, bus: &mut B, trace: &mut Vec<BusEvent>) -> (res: Result<()>)
        ensures
            final(bus).kept() == old(bus).kept(),
            steps_continue(*old(bus), old(trace)@, *final(bus), final(trace)@),
            res is Ok,
            final(self).cycles == old(self).cycles,
            sem_stz_direct_page_x(old(self).registers, final(self).registers, old(trace)@, final(trace)@),
    {
        let operand = self.fetch_operand_u8(bus, trace);
        let address = self.direct_page_address(operand).wrapping_add(self.registers.x as u32);
        self.store_zero_to_address(bus, trace, address);
        self.advance_pc(2);
        Ok(())
    }

    fn execute_stz_absolute_x<B: Bus>(&mut self, bus: &mut B, trace: &mut Vec<BusEvent>) -> (res: Result<()>)
        ensures
            final(bus).kept() == old(bus).kept(),
            steps_continue(*old(bus), old(trace)@, *final(bus), final(trace)@),
            res is Ok,
            final(self).cycles == old(self).cycles,
            sem_stz_absolute_x(old(self).registers, final(self).registers, old(trace)@, final(trace)@),
    {
        let base = self.fetch_operand_u16(bus, trace);
        let address = self.absolute_address(base.wrapping_add(self.registers.x));
        self.store_zero_to_address(bus, trace, address);
        self.advance_pc(3);
        Ok(())
    }

    fn execute_branch_relative<B: Bus>(&mut self, bus: &mut B, trace: &mut Vec<BusEvent>, condition: bool) -> (res: Result<()>)
        ensures
            final(bus).kept() == old(bus).kept(),
            steps_continue(*old(bus), old(trace)@, *final(bus), final(trace)@),
            res is Ok,
            final(self).cycles == old(self).cycles,
            sem_branch(old(self).registers, final(self).registers, old(trace)@, final(trace)@, condition),
    {
        let byte = self.fetch_operand_u8(bus, trace);
        let offset = byte as i8;
        let next = self.registers.pc.wrapping_add(2);
        self.registers.pc = if condition { next.wrapping_add_signed(offset as i16) } else { next };
        Ok(())
    }

    fn execute_tay<B: Bus>(&mut self, bus: &mut B, trace: &mut Vec<BusEvent>) -> (res: Result<()>)
        ensures
            final(bus).kept() == old(bus).kept(),
            steps_continue(*old(bus), old(trace)@, *final(bus), final(trace)@),
            res is Ok,
            final(self).cycles == old(self).cycles,
            sem_tay(old(self).registers, final(self).registers, old(trace)@, final(trace)@),
    {
        let address = self.fetch_address(1);
        self.push_read_trace(bus, trace, address);
        if self.index_registers_are_8_bit() {
            self.registers.y = self.registers.a & 0x00FF;
            self.update_nz_8(self.registers.y as u8);
        } else {
            self.registers.y = self.registers.a;
            self.update_nz_16(self.registers.y);
        }
        self.advance_pc(1);
        Ok(())
    }

    fn execute_tax<B: Bus>(&mut self, bus: &mut B, trace: &mut Vec<BusEvent>) -> (res: Result<()>)
        ensures
            final(bus).kept() == old(bus).kept(),
            steps_continue(*old(bus), old(trace)@, *final(bus), final(trace)@),
            res is Ok,
            final(self).cycles == old(self).cycles,
            sem_tax(old(self).registers, final(self).registers, old(trace)@, final(trace)@),
    {
        let address = self.fetch_address(1);
        self.push_read_trace(bus, trace, address);
        if self.index_registers_are_8_bit() {
            self.registers.x = self.registers.a & 0x00FF;
            self.update_nz_8(self.registers.x as u8);
        } else {
            self.registers.x = self.registers.a;
            self.update_nz_16(self.registers.x);
        }
        self.advance_pc(1);
        Ok(())
    }

    fn execute_txy<B: Bus>(&mut self, bus: &mut B, trace: &mut Vec<BusEvent>) -> (res: Result<()>)
        ensures
            final(bus).kept() == old(bus).kept(),
            steps_continue(*old(bus), old(trace)@, *final(bus), final(trace)@),
            res is Ok,
            final(self).cycles == old(self).cycles,
            sem_txy(old(self).registers, final(self).registers, old(trace)@, final(trace)@),
    {
        let address = self.fetch_address(1);
        self.push_read_trace(bus, trace, address);
        if self.index_registers_are_8_bit() {
            self.registers.y = self.registers.x & 0x00FF;
            self.update_nz_8(self.registers.y as u8);
        } else {
            self.registers.y = self.registers.x;
            self.update_nz_16(self.registers.y);
        }
        self.advance_pc(1);
        Ok(())
    }

    fn execute_tyx<B: Bus>(&mut self, bus: &mut B, trace: &mut Vec<BusEvent>) -> (res: Result<()>)
        ensures
            final(bus).kept() == old(bus).kept(),
            steps_continue(*old(bus), old(trace)@, *final(bus), final(trace)@),
            res is Ok,
            final(self).cycles == old(self).cycles,
            sem_tyx(old(self).registers, final(self).registers, old(trace)@, final(trace)@),
    {
        let address = self.fetch_address(1);
        self.push_read_trace(bus, trace, address);
        if self.index_registers_are_8_bit() {
            self.registers.x = self.registers.y & 0x00FF;
            self.update_nz_8(self.registers.x as u8);
        } else {
            self.registers.x = self.registers.y;
            self.update_nz_16(self.registers.x);
        }
        self.advance_pc(1);
        Ok(())
    }

    fn execute_tsx<B: Bus>(&mut self, bus: &mut B, trace: &mut Vec<BusEvent>) -> (res: Result<()>)
        ensures
            final(bus).kept() == old(bus).kept(),
            steps_continue(*old(bus), old(trace)@, *final(bus), final(trace)@),
            res is Ok,
            final(self).cycles == old(self).cycles,
            sem_tsx(old(self).registers, final(self).registers, old(trace)@, final(trace)@),
    {
        let address = self.fetch_address(1);
        self.push_read_trace(bus, trace, address);
        if self.index_registers_are_8_bit() {
            self.registers.x = self.registers.s & 0x00FF;
            self.update_nz_8(self.registers.x as u8);
        } else {
            self.registers.x = self.registers.s;
            self.update_nz_16(self.registers.x);
        }
        self.advance_pc(1);
        Ok(())
    }

    fn execute_txa<B: Bus>(&mut self, bus: &mut B, trace: &mut Vec<BusEvent>) -> (res: Result<()>)
        ensures
            final(bus).kept() == old(bus).kept(),
            steps_continue(*old(bus), old(trace)@, *final(bus), final(trace)@),
            res is Ok,
            final(self).cycles == old(self).cycles,
            sem_txa(old(self).registers, final(self).registers, old(trace)@, final(trace)@),
    {
        let address = self.fetch_address(1);
        self.push_read_trace(bus, trace, address);
        if self.accumulator_is_8_bit() {
            self.registers.a = (self.registers.a & 0xFF00) | (self.registers.x & 0x00FF);
            self.update_nz_8(self.registers.a as u8);
        } else if self.index_registers_are_8_bit() {
            self.registers.a = self.registers.x & 0x00FF;
            self.update_nz_16(self.registers.a);
        } else {
            self.registers.a = self.registers.x;
            self.update_nz_16(self.registers.a);
        }
        self.advance_pc(1);
        Ok(())
    }

    fn execute_tya<B: Bus>(&mut self, bus: &mut B, trace: &mut Vec<BusEvent>) -> (res: Result<()>)
        ensures
            final(bus).kept() == old(bus).kept(),
            steps_continue(*old(bus), old(trace)@, *final(bus), final(trace)@),
            res is Ok,
            final(self).cycles == old(self).cycles,
            sem_tya(old(self).registers, final(self).registers, old(trace)@, final(trace)@),
    {
        let address = self.fetch_address(1);
        self.push_read_trace(bus, trace, address);
        if self.accumulator_is_8_bit() {
            self.registers.a = (self.registers.a & 0xFF00) | (self.registers.y & 0x00FF);
            self.update_nz_8(self.registers.a as u8);
        } else if self.index_registers_are_8_bit() {
            self.registers.a = self.registers.y & 0x00FF;
            self.update_nz_16(self.registers.a);
        } else {
            self.registers.a = self.registers.y;
            self.update_nz_16(self.registers.a);
        }
        self.advance_pc(1);
        Ok(())
    }

    fn execute_txs<B: Bus>(&mut self, bus: &mut B, trace: &mut Vec<BusEvent>) -> (res: Result<()>)
        ensures
            final(bus).kept() == old(bus).kept(),
            steps_continue(*old(bus), old(trace)@, *final(bus), final(trace)@),
            res is Ok,
            final(self).cycles == old(self).cycles,
            sem_txs(old(self).registers, final(self).registers, old(trace)@, final(trace)@),
    {
        let address = self.fetch_address(1);
        self.push_read_trace(bus, trace, address);
        self.registers.s = if self.index_registers_are_8_bit() {
            self.registers.x & 0x00FF
        } else {
            self.registers.x
        };
        self.advance_pc(1);
        Ok(())
    }

    fn execute_tcs<B: Bus>(&mut self, bus: &mut B, trace: &mut Vec<BusEvent>) -> (res: Result<()>)
        ensures
            final(bus).kept() == old(bus).kept(),
            steps_continue(*old(bus), old(trace)@, *final(bus), final(trace)@),
            res is Ok,
            final(self).cycles == old(self).cycles,
            sem_tcs(old(self).registers, final(self).registers, old(trace)@, final(trace)@),
    {
        let address = self.fetch_address(1);
        self.push_read_trace(bus, trace, address);
        self.registers.s = self.registers.a;
        self.advance_pc(1);
        Ok(())
    }

    fn execute_tsc<B: Bus>(&mut self, bus: &mut B, trace: &mut Vec<BusEvent>) -> (res: Result<()>)
        ensures
            final(bus).kept() == old(bus).kept(),
            steps_continue(*old(bus), old(trace)@, *final(bus), final(trace)@),
            res is Ok,
            final(self).cycles == old(self).cycles,
            sem_tsc(old(self).registers, final(self).registers, old(trace)@, final(trace)@),
    {
        let address = self.fetch_address(1);
        self.push_read_trace(bus, trace, address);
        self.registers.a = self.registers.s;
        self.update_nz_16(self.registers.a);
        self.advance_pc(1);
        Ok(())
    }

    fn execute_tcd<B: Bus>(&mut self, bus: &mut B, trace: &mut Vec<BusEvent>) -> (res: Result<()>)
        ensures
            final(bus).kept() == old(bus).kept(),
            steps_continue(*old(bus), old(trace)@, *final(bus), final(trace)@),
            res is Ok,
            final(self).cycles == old(self).cycles,
            sem_tcd(old(self).registers, final(self).registers, old(trace)@, final(trace)@),
    {
        let address = self.fetch_address(1);
        self.push_read_trace(bus, trace, address);
        self.registers.d = self.registers.a;
        self.update_nz_16(self.registers.d);
        self.advance_pc(1);
        Ok(())
    }

    fn execute_tdc<B: Bus>(&mut self, bus: &mut B, trace: &mut Vec<BusEvent>) -> (res: Result<()>)
        ensures
            final(bus).kept() == old(bus).kept(),
            steps_continue(*old(bus), old(trace)@, *final(bus), final(trace)@),
            res is Ok,
            final(self).cycles == old(self).cycles,
            sem_tdc(old(self).registers, final(self).registers, old(trace)@, final(trace)@),
    {
        let address = self.fetch_address(1);
        self.push_read_trace(bus, trace, address);
        self.registers.a = self.registers.d;
        self.update_nz_16(self.registers.a);
        self.advance_pc(1);
        Ok(())
    }

    fn execute_dey<B: Bus>(&mut self, bus: &mut B, trace: &mut Vec<BusEvent>) -> (res: Result<()>)
        ensures
            final(bus).kept() == old(bus).kept(),
            steps_continue(*old(bus), old(trace)@, *final(bus), final(trace)@),
            res is Ok,
            final(self).cycles == old(self).cycles,
            sem_step_y(old(self).registers, final(self).registers, old(trace)@, final(trace)@, false),
    {
        let address = self.fetch_address(1);
        self.push_read_trace(bus, trace, address);
        if self.index_registers_are_8_bit() {
            let value = (self.registers.y as u8).wrapping_sub(1);
            self.registers.y = value as u16;
            self.update_nz_8(value);
        } else {
            self.registers.y = self.registers.y.wrapping_sub(1);
            self.update_nz_16(self.registers.y);
        }
        self.advance_pc(1);
        Ok(())
    }

    fn execute_iny<B: Bus>(&mut self, bus: &mut B, trace: &mut Vec<BusEvent>) -> (res: Result<()>)
        ensures
            final(bus).kept() == old(bus).kept(),
            steps_continue(*old(bus), old(trace)@, *final(bus), final(trace)@),
            res is Ok,
            final(self).cycles == old(self).cycles,
            sem_step_y(old(self).registers, final(self).registers, old(trace)@, final(trace)@, true),
    {
        let address = self.fetch_address(1);
        self.push_read_trace(bus, trace, address);
        if self.index_registers_are_8_bit() {
            let value = (self.registers.y as u8).wrapping_add(1);
            self.registers.y = value as u16;
            self.update_nz_8(value);
        } else {
            self.registers.y = self.registers.y.wrapping_add(1);
            self.update_nz_16(self.registers.y);
        }
        self.advance_pc(1);
        Ok(())
    }

    fn execute_dex<B: Bus>(&mut self, bus: &mut B, trace: &mut Vec<BusEvent>) -> (res: Result<()>)
        ensures
            final(bus).kept() == old(bus).kept(),
            steps_continue(*old(bus), old(trace)@, *final(bus), final(trace)@),
            res is Ok,
            final(self).cycles == old(self).cycles,
            sem_step_x(old(self).registers, final(self).registers, old(trace)@, final(trace)@, false),
    {
        let address = self.fetch_address(1);
        self.push_read_trace(bus, trace, address);
        if self.index_registers_are_8_bit() {
            let value = (self.registers.x as u8).wrapping_sub(1);
            self.registers.x = value as u16;
            self.update_nz_8(value);
        } else {
            self.registers.x = self.registers.x.wrapping_sub(1);
            self.update_nz_16(self.registers.x);
        }
        self.advance_pc(1);
        Ok(())
    }

    fn execute_inx<B: Bus>(&mut self, bus: &mut B, trace: &mut Vec<BusEvent>) -> (res: Result<()>)
        ensures
            final(bus).kept() == old(bus).kept(),
            steps_continue(*old(bus), old(trace)@, *final(bus), final(trace)@),
            res is Ok,
            final(self).cycles == old(self).cycles,
            sem_step_x(old(self).registers, final(self).registers, old(trace)@, final(trace)@, true),
    {
        let address = self.fetch_address(1);
        self.push_read_trace(bus, trace, address);
        if self.index_registers_are_8_bit() {
            let value = (self.registers.x as u8).wrapping_add(1);
            self.registers.x = value as u16;
            self.update_nz_8(value);
        } else {
            self.registers.x = self.registers.x.wrapping_add(1);
            self.update_nz_16(self.registers.x);
        }
        self.advance_pc(1);
        Ok(())
    }

    fn execute_inc_a<B: Bus>(&mut self, bus: &mut B, trace: &mut Vec<BusEvent>) -> (res: Result<()>)
        ensures
            final(bus).kept() == old(bus).kept(),
            steps_continue(*old(bus), old(trace)@, *final(bus), final(trace)@),
            res is Ok,
            final(self).cycles == old(self).cycles,
            sem_inc_a(old(self).registers, final(self).registers, old(trace)@, final(trace)@),
    {
        let address = self.fetch_address(1);
        self.push_read_trace(bus, trace, address);
        if self.accumulator_is_8_bit() {
            let value = (self.registers.a as u8).wrapping_add(1);
            self.registers.a = (self.registers.a & 0xFF00) | (value as u16);
            self.update_nz_8(value);
        } else {
            self.registers.a = self.registers.a.wrapping_add(1);
            self.update_nz_16(self.registers.a);
        }
        self.advance_pc(1);
        Ok(())
    }

    fn execute_xce<B: Bus>(&mut self, bus: &mut B, trace: &mut Vec<BusEvent>) -> (res: Result<()>)
        ensures
            final(bus).kept() == old(bus).kept(),
            steps_continue(*old(bus), old(trace)@, *final(bus), final(trace)@),
            res is Ok,
            final(self).cycles == old(self).cycles,
            sem_xce(old(self).registers, final(self).registers, old(trace)@, final(trace)@),
    {
        let address = self.fetch_address(1);
        self.push_read_trace(bus, trace, address);
        let carry = (self.registers.p & 0x01) != 0;
        self.set_carry(self.registers.emulation);
        self.registers.emulation = carry;
        if self.registers.emulation {
            self.registers.p = self.registers.p | 0x30;
            self.registers.x = self.registers.x & 0x00FF;
            self.registers.y = self.registers.y & 0x00FF;
            self.registers.s = 0x0100 | (self.registers.s & 0x00FF);
        }
        self.advance_pc(1);
        Ok(())
    }

    fn execute_rol_a<B: Bus>(&mut self, bus: &mut B, trace: &mut Vec<BusEvent>) -> (res: Result<()>)
        ensures
            final(bus).kept() == old(bus).kept(),
            steps_continue(*old(bus), old(trace)@, *final(bus), final(trace)@),
            res is Ok,
            final(self).cycles == old(self).cycles,
            sem_rol_a(old(self).registers, final(self).registers, old(trace)@, final(trace)@),
    {
        let address = self.fetch_address(1);
        self.push_read_trace(bus, trace, address);
        if self.accumulator_is_8_bit() {
            let carry_in: u8 = if self.registers.p & 0x01 != 0 { 1 } else { 0 };
            let value = self.registers.a as u8;
            assert((value & 0x80 != 0) == (value >= 0x80)) by (bit_vector);
            self.set_carry(value & 0x80 != 0);
            let result = (value << 1u8) | carry_in;
            assert(result == ((value as int * 2 + carry_in) % 256) as u8) by (bit_vector)
                requires result == (value << 1u8) | carry_in, carry_in <= 1;
            self.registers.a = (self.registers.a & 0xFF00) | (result as u16);
            self.update_nz_8(result);
        } else {
            let carry_in: u16 = if self.registers.p & 0x01 != 0 { 1 } else { 0 };
            let value = self.registers.a;
            assert((value & 0x8000 != 0) == (value >= 0x8000)) by (bit_vector);
            self.set_carry(value & 0x8000 != 0);
            let result = (value << 1u16) | carry_in;
            assert(result == ((value as int * 2 + carry_in) % 65536) as u16) by (bit_vector)
                requires result == (value << 1u16) | carry_in, carry_in <= 1;
            self.registers.a = result;
            self.update_nz_16(result);
        }
        self.advance_pc(1);
        Ok(())
    }

    fn execute_rep<B: Bus>(&mut self, bus: &mut B, trace: &mut Vec<BusEvent>) -> (res: Result<()>)
        ensures
            final(bus).kept() == old(bus).kept(),
            steps_continue(*old(bus), old(trace)@, *final(bus), final(trace)@),
            res is Ok,
            final(self).cycles == old(self).cycles,
            sem_rep(old(self).registers, final(self).registers, old(trace)@, final(trace)@),
    {
        let operand_address = self.fetch_address(1);
        let operand = self.push_read_trace(bus, trace, operand_address);
        self.push_read_trace(bus, trace, operand_address);
        self.registers.p = self.registers.p & !operand;
        self.advance_pc(2);
        Ok(())
    }

    fn execute_sep<B: Bus>(&mut self, bus: &mut B, trace: &mut Vec<BusEvent>) -> (res: Result<()>)
        ensures
            final(bus).kept() == old(bus).kept(),
            steps_continue(*old(bus), old(trace)@, *final(bus), final(trace)@),
            res is Ok,
            final(self).cycles == old(self).cycles,
            sem_sep(old(self).registers, final(self).registers, old(trace)@, final(trace)@),
    {
        let operand_address = self.fetch_address(1);
        let operand = self.push_read_trace(bus, trace, operand_address);
        self.push_read_trace(bus, trace, operand_address);
        self.registers.p = self.registers.p | operand;
        if operand & 0x10 != 0 {
            self.registers.x = self.registers.x & 0x00FF;
            self.registers.y = self.registers.y & 0x00FF;
        }
        self.advance_pc(2);
        Ok(())
    }

    fn execute_sec<B: Bus>(&mut self, bus: &mut B, trace: &mut Vec<BusEvent>) -> (res: Result<()>)
        ensures
            final(bus).kept() == old(bus).kept(),
            steps_continue(*old(bus), old(trace)@, *final(bus), final(trace)@),
            res is Ok,
            final(self).cycles == old(self).cycles,
            sem_flag_op(old(self).registers, final(self).registers, old(trace)@, final(trace)@, 0x01, true),
    {
        let address = self.fetch_address(1);
        self.push_read_trace(bus, trace, address);
        self.set_flag(0x01, true);
        self.advance_pc(1);
        Ok(())
    }

    fn execute_cli<B: Bus>(&mut self, bus: &mut B, trace: &mut Vec<BusEvent>) -> (res: Result<()>)
        ensures
            final(bus).kept() == old(bus).kept(),
            steps_continue(*old(bus), old(trace)@, *final(bus), final(trace)@),
            res is Ok,
            final(self).cycles == old(self).cycles,
            sem_flag_op(old(self).registers, final(self).registers, old(trace)@, final(trace)@, 0x04, false),
    {
        let address = self.fetch_address(1);
        self.push_read_trace(bus, trace, address);
        self.set_flag(0x04, false);
        self.advance_pc(1);
        Ok(())
    }

    fn execute_sei<B: Bus>(&mut self, bus: &mut B, trace: &mut Vec<BusEvent>) -> (res: Result<()>)
        ensures
            final(bus).kept() == old(bus).kept(),
            steps_continue(*old(bus), old(trace)@, *final(bus), final(trace)@),
            res is Ok,
            final(self).cycles == old(self).cycles,
            sem_flag_op(old(self).registers, final(self).registers, old(trace)@, final(trace)@, 0x04, true),
    {
        let address = self.fetch_address(1);
        self.push_read_trace(bus, trace, address);
        self.set_flag(0x04, true);
        self.advance_pc(1);
        Ok(())
    }

    fn execute_cld<B: Bus>(&mut self, bus: &mut B, trace: &mut Vec<BusEvent>) -> (res: Result<()>)
        ensures
            final(bus).kept() == old(bus).kept(),
            steps_continue(*old(bus), old(trace)@, *final(bus), final(trace)@),
            res is Ok,
            final(self).cycles == old(self).cycles,
            sem_flag_op(old(self).registers, final(self).registers, old(trace)@, final(trace)@, 0x08, false),
    {
        let address = self.fetch_address(1);
        self.push_read_trace(bus, trace, address);
        self.set_flag(0x08, false);
        self.advance_pc(1);
        Ok(())
    }

    fn execute_sed<B: Bus>(&mut self, bus: &mut B, trace: &mut Vec<BusEvent>) -> (res: Result<()>)
        ensures
            final(bus).kept() == old(bus).kept(),
            steps_continue(*old(bus), old(trace)@, *final(bus), final(trace)@),
            res is Ok,
            final(self).cycles == old(self).cycles,
            sem_flag_op(old(self).registers, final(self).registers, old(trace)@, final(trace)@, 0x08, true),
    {
        let address = self.fetch_address(1);
        self.push_read_trace(bus, trace, address);
        self.set_flag(0x08, true);
        self.advance_pc(1);
        Ok(())
    }

    fn execute_clv<B: Bus>(&mut self, bus: &mut B, trace: &mut Vec<BusEvent>) -> (res: Result<()>)
        ensures
            final(bus).kept() == old(bus).kept(),
            steps_continue(*old(bus), old(trace)@, *final(bus), final(trace)@),
            res is Ok,
            final(self).cycles == old(self).cycles,
            sem_flag_op(old(self).registers, final(self).registers, old(trace)@, final(trace)@, 0x40, false),
    {
        let address = self.fetch_address(1);
        self.push_read_trace(bus, trace, address);
        self.set_flag(0x40, false);
        self.advance_pc(1);
        Ok(())
    }

    fn execute_bpl<B: Bus>(&mut self, bus: &mut B, trace: &mut Vec<BusEvent>) -> (res: Result<()>)
        ensures
            final(bus).kept() == old(bus).kept(),
            steps_continue(*old(bus), old(trace)@, *final(bus), final(trace)@),
            res is Ok,
            final(self).cycles == old(self).cycles,
            sem_branch(old(self).registers, final(self).registers, old(trace)@, final(trace)@, old(self).registers.p & 0x80 == 0),
    {
        let condition = self.registers.p & 0x80 == 0;
        self.execute_branch_relative(bus, trace, condition)
    }

    fn execute_bmi<B: Bus>(&mut self, bus: &mut B, trace: &mut Vec<BusEvent>) -> (res: Result<()>)
        ensures
            final(bus).kept() == old(bus).kept(),
            steps_continue(*old(bus), old(trace)@, *final(bus), final(trace)@),
            res is Ok,
            final(self).cycles == old(self).cycles,
            sem_branch(old(self).registers, final(self).registers, old(trace)@, final(trace)@, old(self).registers.p & 0x80 != 0),
    {
        let condition = self.registers.p & 0x80 != 0;
        self.execute_branch_relative(bus, trace, condition)
    }

    fn execute_bne<B: Bus>(&mut self, bus: &mut B, trace: &mut Vec<BusEvent>) -> (res: Result<()>)
        ensures
            final(bus).kept() == old(bus).kept(),
            steps_continue(*old(bus), old(trace)@, *final(bus), final(trace)@),
            res is Ok,
            final(self).cycles == old(self).cycles,
            sem_branch(old(self).registers, final(self).registers, old(trace)@, final(trace)@, old(self).registers.p & 0x02 == 0),
    {
        let condition = self.registers.p & 0x02 == 0;
        self.execute_branch_relative(bus, trace, condition)
    }

    fn execute_beq<B: Bus>(&mut self, bus: &mut B, trace: &mut Vec<BusEvent>) -> (res: Result<()>)
        ensures
            final(bus).kept() == old(bus).kept(),
            steps_continue(*old(bus), old(trace)@, *final(bus), final(trace)@),
            res is Ok,
            final(self).cycles == old(self).cycles,
            sem_branch(old(self).registers, final(self).registers, old(trace)@, final(trace)@, old(self).registers.p & 0x02 != 0),
    {
        let condition = self.registers.p & 0x02 != 0;
        self.execute_branch_relative(bus, trace, condition)
    }

    fn execute_bra<B: Bus>(&mut self, bus: &mut B, trace: &mut Vec<BusEvent>) -> (res: Result<()>)
        ensures
            final(bus).kept() == old(bus).kept(),
            steps_continue(*old(bus), old(trace)@, *final(bus), final(trace)@),
            res is Ok,
            final(self).cycles == old(self).cycles,
            sem_branch(old(self).registers, final(self).registers, old(trace)@, final(trace)@, true),
    {
        let condition = true;
        self.execute_branch_relative(bus, trace, condition)
    }

    fn execute_bvs<B: Bus>(&mut self, bus: &mut B, trace: &mut Vec<BusEvent>) -> (res: Result<()>)
        ensures
            final(bus).kept() == old(bus).kept(),
            steps_continue(*old(bus), old(trace)@, *final(bus), final(trace)@),
            res is Ok,
            final(self).cycles == old(self).cycles,
            sem_branch(old(self).registers, final(self).registers, old(trace)@, final(trace)@, old(self).registers.p & 0x40 != 0),
    {
        let condition = self.registers.p & 0x40 != 0;
        self.execute_branch_relative(bus, trace, condition)
    }

    fn stack_address(&self) -> (address: u16)
        ensures
            address == stack_addr_of(self.registers.emulation, self.registers.s),
    {
        if self.registers.emulation {
            0x0100 | (self.registers.s & 0x00FF)
        } else {
            self.registers.s
        }
    }

    fn push_stack<B: Bus>(&mut self, bus: &mut B, trace: &mut Vec<BusEvent>, value: u8) -> (res: Result<()>)
        ensures
            final(bus).kept() == old(bus).kept(),
            steps_continue(*old(bus), old(trace)@, *final(bus), final(trace)@),
            res is Ok,
            final(trace)@ == old(trace)@.push(write_event(push_addr(old(self).registers, 0), value, old(trace)@.len() as int)),
            final(self).registers == pushed(old(self).registers, 1),
            final(self).cycles == old(self).cycles,
    {
        let address = self.stack_address() as u32;
        self.write_u8_trace(bus, trace, address, value);
        self.registers.s = self.registers.s.wrapping_sub(1);
        Ok(())
    }

    fn pull_stack<B: Bus>(&mut self, bus: &mut B, trace: &mut Vec<BusEvent>) -> (value: u8)
        ensures
            final(bus).kept() == old(bus).kept(),
            steps_continue(*old(bus), old(trace)@, *final(bus), final(trace)@),
            final(trace)@ == old(trace)@.push(read_event(pull_addr(old(self).registers, 1), value, old(trace)@.len() as int)),
            final(self).registers == pulled(old(self).registers, 1),
            final(self).cycles == old(self).cycles,
    {
        self.registers.s = self.registers.s.wrapping_add(1);
        let address = self.stack_address() as u32;
        self.push_read_trace(bus, trace, address)
    }

    fn execute_php<B: Bus>(&mut self, bus: &mut B, trace: &mut Vec<BusEvent>) -> (res: Result<()>)
        ensures
            final(bus).kept() == old(bus).kept(),
            steps_continue(*old(bus), old(trace)@, *final(bus), final(trace)@),
            res is Ok,
            final(self).cycles == old(self).cycles,
            sem_push8(old(self).registers, final(self).registers, old(trace)@, final(trace)@, old(self).registers.p),
    {
        let address = self.fetch_address(1);
        self.push_read_trace(bus, trace, address);
        let value = self.registers.p;
        self.push_stack(bus, trace, value)?;
        self.advance_pc(1);
        Ok(())
    }

    fn execute_phb<B: Bus>(&mut self, bus: &mut B, trace: &mut Vec<BusEvent>) -> (res: Result<()>)
        ensures
            final(bus).kept() == old(bus).kept(),
            steps_continue(*old(bus), old(trace)@, *final(bus), final(trace)@),
            res is Ok,
            final(self).cycles == old(self).cycles,
            sem_push8(old(self).registers, final(self).registers, old(trace)@, final(trace)@, old(self).registers.dbr),
    {
        let address = self.fetch_address(1);
        self.push_read_trace(bus, trace, address);
        let value = self.registers.dbr;
        self.push_stack(bus, trace, value)?;
        self.advance_pc(1);
        Ok(())
    }

    fn execute_phk<B: Bus>(&mut self, bus: &mut B, trace: &mut Vec<BusEvent>) -> (res: Result<()>)
        ensures
            final(bus).kept() == old(bus).kept(),
            steps_continue(*old(bus), old(trace)@, *final(bus), final(trace)@),
            res is Ok,
            final(self).cycles == old(self).cycles,
            sem_push8(old(self).registers, final(self).registers, old(trace)@, final(trace)@, old(self).registers.pbr),
    {
        let address = self.fetch_address(1);
        self.push_read_trace(bus, trace, address);
        let value = self.registers.pbr;
        self.push_stack(bus, trace, value)?;
        self.advance_pc(1);
        Ok(())
    }

    fn execute_pha<B: Bus>(&mut self, bus: &mut B, trace: &mut Vec<BusEvent>) -> (res: Result<()>)
        ensures
            final(bus).kept() == old(bus).kept(),
            steps_continue(*old(bus), old(trace)@, *final(bus), final(trace)@),
            res is Ok,
            final(self).cycles == old(self).cycles,
            sem_pha(old(self).registers, final(self).registers, old(trace)@, final(trace)@),
    {
        let address = self.fetch_address(1);
        self.push_read_trace(bus, trace, address);
        if self.accumulator_is_8_bit() {
            let value = self.registers.a as u8;
            self.push_stack(bus, trace, value)?;
        } else {
            let low = self.registers.a as u8;
            let high = (self.registers.a >> 8u16) as u8;
            self.push_stack(bus, trace, high)?;
            self.push_stack(bus, trace, low)?;
        }
        self.advance_pc(1);
        Ok(())
    }

    fn execute_plb<B: Bus>(&mut self, bus: &mut B, trace: &mut Vec<BusEvent>) -> (res: Result<()>)
        ensures
            final(bus).kept() == old(bus).kept(),
            steps_continue(*old(bus), old(trace)@, *final(bus), final(trace)@),
            res is Ok,
            final(self).cycles == old(self).cycles,
            sem_plb(old(self).registers, final(self).registers, old(trace)@, final(trace)@),
    {
        let address = self.fetch_address(1);
        self.push_read_trace(bus, trace, address);
        let value = self.pull_stack(bus, trace);
        self.registers.dbr = value;
        self.update_nz_8(value);
        self.advance_pc(1);
        Ok(())
    }

    fn execute_plp<B: Bus>(&mut self, bus: &mut B, trace: &mut Vec<BusEvent>) -> (res: Result<()>)
        ensures
            final(bus).kept() == old(bus).kept(),
            steps_continue(*old(bus), old(trace)@, *final(bus), final(trace)@),
            res is Ok,
            final(self).cycles == old(self).cycles,
            sem_plp(old(self).registers, final(self).registers, old(trace)@, final(trace)@),
    {
        let address = self.fetch_address(1);
        self.push_read_trace(bus, trace, address);
        let mut value = self.pull_stack(bus, trace);
        if self.registers.emulation {
            value = value | 0x30;
        }
        self.registers.p = value;
        if self.index_registers_are_8_bit() {
            self.registers.x = self.registers.x & 0x00FF;
            self.registers.y = self.registers.y & 0x00FF;
        }
        self.advance_pc(1);
        Ok(())
    }

    fn execute_pla<B: Bus>(&mut self, bus: &mut B, trace: &mut Vec<BusEvent>) -> (res: Result<()>)
        ensures
            final(bus).kept() == old(bus).kept(),
            steps_continue(*old(bus), old(trace)@, *final(bus), final(trace)@),
            res is Ok,
            final(self).cycles == old(self).cycles,
            sem_pla(old(self).registers, final(self).registers, old(trace)@, final(trace)@),
    {
        let address = self.fetch_address(1);
        self.push_read_trace(bus, trace, address);
        if self.accumulator_is_8_bit() {
            let value = self.pull_stack(bus, trace);
            self.registers.a = (self.registers.a & 0xFF00) | (value as u16);
            self.update_nz_8(value);
        } else {
            let low = self.pull_stack(bus, trace);
            let high = self.pull_stack(bus, trace);
            self.registers.a = (low as u16) | ((high as u16) << 8u16);
            self.update_nz_16(self.registers.a);
        }
        self.advance_pc(1);
        Ok(())
    }

    fn execute_jsr_absolute<B: Bus>(&mut self, bus: &mut B, trace: &mut Vec<BusEvent>) -> (res: Result<()>)
        ensures
            final(bus).kept() == old(bus).kept(),
            steps_continue(*old(bus), old(trace)@, *final(bus), final(trace)@),
            res is Ok,
            final(self).cycles == old(self).cycles,
            sem_jsr_absolute(old(self).registers, final(self).registers, old(trace)@, final(trace)@),
    {
        let target = self.fetch_operand_u16(bus, trace);
        let return_pc = self.registers.pc.wrapping_add(2);
        self.push_stack(bus, trace, (return_pc >> 8u16) as u8)?;
        self.push_stack(bus, trace, (return_pc & 0x00FF) as u8)?;
        self.registers.pc = target;
        Ok(())
    }

    fn execute_jsl_long<B: Bus>(&mut self, bus: &mut B, trace: &mut Vec<BusEvent>) -> (res: Result<()>)
        ensures
            final(bus).kept() == old(bus).kept(),
            steps_continue(*old(bus), old(trace)@, *final(bus), final(trace)@),
            res is Ok,
            final(self).cycles == old(self).cycles,
            sem_jsl_long(old(self).registers, final(self).registers, old(trace)@, final(trace)@),
    {
        let target = self.fetch_operand_u24(bus, trace);
        let return_pc = self.registers.pc.wrapping_add(3);
        let bank = self.registers.pbr;
        self.push_stack(bus, trace, bank)?;
        self.push_stack(bus, trace, (return_pc >> 8u16) as u8)?;
        self.push_stack(bus, trace, (return_pc & 0x00FF) as u8)?;
        self.registers.pc = target as u16;
        self.registers.pbr = (target >> 16u32) as u8;
        Ok(())
    }

    fn execute_rts<B: Bus>(&mut self, bus: &mut B, trace: &mut Vec<BusEvent>) -> (res: Result<()>)
        ensures
            final(bus).kept() == old(bus).kept(),
            steps_continue(*old(bus), old(trace)@, *final(bus), final(trace)@),
            res is Ok,
            final(self).cycles == old(self).cycles,
            sem_rts(old(self).registers, final(self).registers, old(trace)@, final(trace)@),
    {
        let address = self.fetch_address(1);
        self.push_read_trace(bus, trace, address);
        let low = self.pull_stack(bus, trace);
        let high = self.pull_stack(bus, trace);
        self.registers.pc = ((low as u16) | ((high as u16) << 8u16)).wrapping_add(1);
        Ok(())
    }

    fn execute_rtl<B: Bus>(&mut self, bus: &mut B, trace: &mut Vec<BusEvent>) -> (res: Result<()>)
        ensures
            final(bus).kept() == old(bus).kept(),
            steps_continue(*old(bus), old(trace)@, *final(bus), final(trace)@),
            res is Ok,
            final(self).cycles == old(self).cycles,
            sem_rtl(old(self).registers, final(self).registers, old(trace)@, final(trace)@),
    {
        let address = self.fetch_address(1);
        self.push_read_trace(bus, trace, address);
        let low = self.pull_stack(bus, trace);
        let high = self.pull_stack(bus, trace);
        let bank = self.pull_stack(bus, trace);
        self.registers.pc = ((low as u16) | ((high as u16) << 8u16)).wrapping_add(1);
        self.registers.pbr = bank;
        Ok(())
    }

    fn adc_value(&mut self, value: u16)
        ensures
            final(self).registers == adc_result(old(self).registers, value),
            final(self).cycles == old(self).cycles,
    {
        let carry: u32 = if self.registers.p & 0x01 != 0 { 1 } else { 0 };
        if self.accumulator_is_8_bit() {
            let lhs = self.registers.a as u8;
            let rhs = value as u8;
            let sum: u32 = lhs as u32 + rhs as u32 + carry;
            let result = (sum % 256) as u8;
            self.registers.a = (self.registers.a & 0xFF00) | (result as u16);
            self.set_carry(sum > 0xFF);
            self.update_nz_8(result);
        } else {
            let sum: u32 = self.registers.a as u32 + value as u32 + carry;
            let result = (sum % 65536) as u16;
            self.registers.a = result;
            self.set_carry(sum > 0xFFFF);
            self.update_nz_16(result);
        }
    }

    fn sbc_value(&mut self, value: u16)
        ensures
            final(self).registers == sbc_result(old(self).registers, value),
            final(self).cycles == old(self).cycles,
    {
        let borrow: u32 = if self.registers.p & 0x01 == 0 { 1 } else { 0 };
        if self.accumulator_is_8_bit() {
            let lhs = self.registers.a as u8;
            let rhs = value as u8;
            let shifted: u32 = lhs as u32 + 0x100 - rhs as u32 - borrow;
            let result = (shifted % 256) as u8;
            assert(result == ((lhs as int - rhs as int - borrow) % 256) as u8);
            self.registers.a = (self.registers.a & 0xFF00) | (result as u16);
            self.set_carry(lhs as u32 >= rhs as u32 + borrow);
            self.update_nz_8(result);
        } else {
            let lhs = self.registers.a;
            let shifted: u32 = lhs as u32 + 0x10000 - value as u32 - borrow;
            let result = (shifted % 65536) as u16;
            assert(result == ((lhs as int - value as int - borrow) % 65536) as u16);
            self.registers.a = result;
            self.set_carry(lhs as u32 >= value as u32 + borrow);
            self.update_nz_16(result);
        }
    }

    fn compare_values(&mut self, lhs: u16, rhs: u16, wide: bool)
        ensures
            final(self).registers == (Registers { p: compare_p(old(self).registers.p, lhs, rhs, wide), ..old(self).registers }),
            final(self).cycles == old(self).cycles,
    {
        if wide {
            self.set_carry(lhs >= rhs);
            self.update_nz_16(lhs.wrapping_sub(rhs));
        } else {
            let l = lhs as u8;
            let r = rhs as u8;
            self.set_carry(l >= r);
            self.update_nz_8(l.wrapping_sub(r));
        }
    }

    fn read_data<B: Bus>(&self, bus: &mut B, trace: &mut Vec<BusEvent>, address: Address, wide: bool) -> (v: u16)
        ensures
            final(bus).kept() == old(bus).kept(),
            steps_continue(*old(bus), old(trace)@, *final(bus), final(trace)@),
            extends(old(trace)@, final(trace)@, if wide { 2int } else { 1int }),
            data_reads(final(trace)@, old(trace)@.len() as int, address, if wide { 2int } else { 1int }),
            v == data_value(final(trace)@, old(trace)@.len() as int, if wide { 2int } else { 1int }),
    {
        if wide {
            self.read_u16_trace(bus, trace, address)
        } else {
            let v = self.push_read_trace(bus, trace, address);
            v as u16
        }
    }

    fn fetch_immediate<B: Bus>(&self, bus: &mut B, trace: &mut Vec<BusEvent>, wide: bool) -> (v: u16)
        ensures
            final(bus).kept() == old(bus).kept(),
            steps_continue(*old(bus), old(trace)@, *final(bus), final(trace)@),
            extends(old(trace)@, final(trace)@, if wide { 2int } else { 1int }),
            immediate(self.registers, final(trace)@, old(trace)@.len() as int, if wide { 2int } else { 1int }),
            v == data_value(final(trace)@, old(trace)@.len() as int, if wide { 2int } else { 1int }),
    {
        if wide {
            self.fetch_operand_u16(bus, trace)
        } else {
            let v = self.fetch_operand_u8(bus, trace);
            v as u16
        }
    }

    fn execute_ora_direct_page<B: Bus>(&mut self, bus: &mut B, trace: &mut Vec<BusEvent>) -> (res: Result<()>)
        ensures
            final(bus).kept() == old(bus).kept(),
            steps_continue(*old(bus), old(trace)@, *final(bus), final(trace)@),
            res is Ok,
            final(self).cycles == old(self).cycles,
            sem_ora_direct_page(old(self).registers, final(self).registers, old(trace)@, final(trace)@),
    {
        let operand = self.fetch_operand_u8(bus, trace);
        let address = self.direct_page_address(operand);
        let wide = !self.accumulator_is_8_bit();
        let value = self.read_data(bus, trace, address, wide);
        if !wide {
            let result = (self.registers.a as u8) | (value as u8);
            self.registers.a = (self.registers.a & 0xFF00) | (result as u16);
            self.update_nz_8(result);
        } else {
            self.registers.a = self.registers.a | value;
            self.update_nz_16(self.registers.a);
        }
        self.advance_pc(2);
        Ok(())
    }

    fn execute_and_immediate<B: Bus>(&mut self, bus: &mut B, trace: &mut Vec<BusEvent>) -> (res: Result<()>)
        ensures
            final(bus).kept() == old(bus).kept(),
            steps_continue(*old(bus), old(trace)@, *final(bus), final(trace)@),
            res is Ok,
            final(self).cycles == old(self).cycles,
            sem_logic_immediate(old(self).registers, final(self).registers, old(trace)@, final(trace)@, true),
    {
        let wide = !self.accumulator_is_8_bit();
        let operand = self.fetch_immediate(bus, trace, wide);
        if !wide {
            let value = (self.registers.a as u8) & (operand as u8);
            self.registers.a = (self.registers.a & 0xFF00) | (value as u16);
            self.update_nz_8(value);
            self.advance_pc(2);
        } else {
            self.registers.a = self.registers.a & operand;
            self.update_nz_16(self.registers.a);
            self.advance_pc(3);
        }
        Ok(())
    }

    fn execute_eor_immediate<B: Bus>(&mut self, bus: &mut B, trace: &mut Vec<BusEvent>) -> (res: Result<()>)
        ensures
            final(bus).kept() == old(bus).kept(),
            steps_continue(*old(bus), old(trace)@, *final(bus), final(trace)@),
            res is Ok,
            final(self).cycles == old(self).cycles,
            sem_logic_immediate(old(self).registers, final(self).registers, old(trace)@, final(trace)@, false),
    {
        let wide = !self.accumulator_is_8_bit();
        let operand = self.fetch_immediate(bus, trace, wide);
        if !wide {
            let value = (self.registers.a as u8) ^ (operand as u8);
            self.registers.a = (self.registers.a & 0xFF00) | (value as u16);
            self.update_nz_8(value);
            self.advance_pc(2);
        } else {
            self.registers.a = self.registers.a ^ operand;
            self.update_nz_16(self.registers.a);
            self.advance_pc(3);
        }
        Ok(())
    }

    fn execute_adc_direct_page<B: Bus>(&mut self, bus: &mut B, trace: &mut Vec<BusEvent>) -> (res: Result<()>)
        ensures
            final(bus).kept() == old(bus).kept(),
            steps_continue(*old(bus), old(trace)@, *final(bus), final(trace)@),
            res is Ok,
            final(self).cycles == old(self).cycles,
            sem_adc_direct_page(old(self).registers, final(self).registers, old(trace)@, final(trace)@),
    {
        let operand = self.fetch_operand_u8(bus, trace);
        let address = self.direct_page_address(operand);
        let wide = !self.accumulator_is_8_bit();
        let value = self.read_data(bus, trace, address, wide);
        self.adc_value(value);
        self.advance_pc(2);
        Ok(())
    }

    fn execute_adc_immediate<B: Bus>(&mut self, bus: &mut B, trace: &mut Vec<BusEvent>) -> (res: Result<()>)
        ensures
            final(bus).kept() == old(bus).kept(),
            steps_continue(*old(bus), old(trace)@, *final(bus), final(trace)@),
            res is Ok,
            final(self).cycles == old(self).cycles,
            sem_adc_immediate(old(self).registers, final(self).registers, old(trace)@, final(trace)@),
    {
        let wide = !self.accumulator_is_8_bit();
        let value = self.fetch_immediate(bus, trace, wide);
        self.adc_value(value);
        if wide {
            self.advance_pc(3);
        } else {
            self.advance_pc(2);
        }
        Ok(())
    }

    fn execute_sbc_immediate<B: Bus>(&mut self, bus: &mut B, trace: &mut Vec<BusEvent>) -> (res: Result<()>)
        ensures
            final(bus).kept() == old(bus).kept(),
            steps_continue(*old(bus), old(trace)@, *final(bus), final(trace)@),
            res is Ok,
            final(self).cycles == old(self).cycles,
            sem_sbc_immediate(old(self).registers, final(self).registers, old(trace)@, final(trace)@),
    {
        let wide = !self.accumulator_is_8_bit();
        let value = self.fetch_immediate(bus, trace, wide);
        self.sbc_value(value);
        if wide {
            self.advance_pc(3);
        } else {
            self.advance_pc(2);
        }
        Ok(())
    }

    fn execute_cpx_immediate<B: Bus>(&mut self, bus: &mut B, trace: &mut Vec<BusEvent>) -> (res: Result<()>)
        ensures
            final(bus).kept() == old(bus).kept(),
            steps_continue(*old(bus), old(trace)@, *final(bus), final(trace)@),
            res is Ok,
            final(self).cycles == old(self).cycles,
            sem_cpx_immediate(old(self).registers, final(self).registers, old(trace)@, final(trace)@),
    {
        let wide = !self.index_registers_are_8_bit();
        let value = self.fetch_immediate(bus, trace, wide);
        let lhs = self.registers.x;
        self.compare_values(lhs, value, wide);
        if wide {
            self.advance_pc(3);
        } else {
            self.advance_pc(2);
        }
        Ok(())
    }

    fn execute_compare_absolute<B: Bus>(&mut self, bus: &mut B, trace: &mut Vec<BusEvent>) -> (res: Result<()>)
        ensures
            final(bus).kept() == old(bus).kept(),
            steps_continue(*old(bus), old(trace)@, *final(bus), final(trace)@),
            res is Ok,
            final(self).cycles == old(self).cycles,
            sem_compare_absolute(old(self).registers, final(self).registers, old(trace)@, final(trace)@),
    {
        let operand = self.fetch_operand_u16(bus, trace);
        let address = self.absolute_address(operand);
        let wide = !self.accumulator_is_8_bit();
        let value = self.read_data(bus, trace, address, wide);
        let lhs = self.registers.a;
        self.compare_values(lhs, value, wide);
        self.advance_pc(3);
        Ok(())
    }

    fn execute_bit_absolute<B: Bus>(&mut self, bus: &mut B, trace: &mut Vec<BusEvent>) -> (res: Result<()>)
        ensures
            final(bus).kept() == old(bus).kept(),
            steps_continue(*old(bus), old(trace)@, *final(bus), final(trace)@),
            res is Ok,
            final(self).cycles == old(self).cycles,
            sem_bit_absolute(old(self).registers, final(self).registers, old(trace)@, final(trace)@),
    {
        let operand = self.fetch_operand_u16(bus, trace);
        let address = self.absolute_address(operand);
        let wide = !self.accumulator_is_8_bit();
        let value = self.read_data(bus, trace, address, wide);
        if !wide {
            let byte = value as u8;
            self.set_zero((byte & (self.registers.a as u8)) == 0);
            self.set_negative(byte & 0x80 != 0);
            self.set_overflow(byte & 0x40 != 0);
        } else {
            self.set_zero((value & self.registers.a) == 0);
            self.set_negative(value & 0x8000 != 0);
            self.set_overflow(value & 0x4000 != 0);
        }
        self.advance_pc(3);
        Ok(())
    }

    fn execute_tsb_direct_page<B: Bus>(&mut self, bus: &mut B, trace: &mut Vec<BusEvent>) -> (res: Result<()>)
        ensures
            final(bus).kept() == old(bus).kept(),
            steps_continue(*old(bus), old(trace)@, *final(bus), final(trace)@),
            res is Ok,
            final(self).cycles == old(self).cycles,
            sem_tsb_direct_page(old(self).registers, final(self).registers, old(trace)@, final(trace)@),
    {
        let operand = self.fetch_operand_u8(bus, trace);
        let address = self.direct_page_address(operand);
        let wide = !self.accumulator_is_8_bit();
        let value = self.read_data(bus, trace, address, wide);
        if !wide {
            let byte = value as u8;
            let a = self.registers.a as u8;
            self.set_zero((byte & a) == 0);
            self.write_u8_trace(bus, trace, address, byte | a);
        } else {
            let a = self.registers.a;
            self.set_zero((value & a) == 0);
            self.write_u16_trace(bus, trace, address, value | a);
        }
        self.advance_pc(2);
        Ok(())
    }

    fn execute_brk<B: Bus>(&mut self, bus: &mut B, trace: &mut Vec<BusEvent>) -> (res: Result<()>)
        ensures
            final(bus).kept() == old(bus).kept(),
            steps_continue(*old(bus), old(trace)@, *final(bus), final(trace)@),
            res is Ok,
            final(self).cycles == old(self).cycles,
            sem_brk(old(self).registers, final(self).registers, old(trace)@, final(trace)@),
    {
        let signature_address = self.fetch_address(1);
        self.push_read_trace(bus, trace, signature_address);
        let return_pc = self.registers.pc.wrapping_add(2);
        if !self.registers.emulation {
            let bank = self.registers.pbr;
            self.push_stack(bus, trace, bank)?;
        }
        self.push_stack(bus, trace, (return_pc >> 8u16) as u8)?;
        self.push_stack(bus, trace, (return_pc & 0x00FF) as u8)?;
        let status = if self.registers.emulation { self.registers.p | 0x10 } else { self.registers.p };
        self.push_stack(bus, trace, status)?;
        let vector_base: u32 = if self.registers.emulation { 0x00FFFE } else { 0x00FFE6 };
        let vector_low = self.push_read_trace(bus, trace, vector_base);
        let vector_high = self.push_read_trace(bus, trace, vector_base + 1);
        self.registers.pc = (vector_low as u16) | ((vector_high as u16) << 8u16);
        if !self.registers.emulation {
            self.registers.pbr = 0;
        }
        self.registers.p = (self.registers.p | 0x04) & !0x08u8;
        Ok(())
    }
}

} // verus!
