//! Audio processing unit boundary: communication ports, IPL firmware and SPC700 stepping.
pub mod spc700;

use vstd::prelude::*;

use crate::error::{Error, Result};
use self::spc700::{Spc700, Spc700Regs, reset_spc700_regs, stepped};

verus! {

/// Size of the user-supplied SPC700 IPL ROM.
pub const SPC700_IPL_ROM_LEN: usize = 64;

/// Buffered audio samples returned to a frontend.
#[derive(Debug, Clone)]
pub struct AudioFrame {
    /// Interleaved stereo 16-bit samples.
    pub samples: Vec<i16>,
}

impl Default for AudioFrame {
    fn default() -> (f: Self)
        ensures
            f.samples@.len() == 0,
    {
        AudioFrame { samples: Vec::new() }
    }
}

/// Snapshot of APU status surfaced to the emulator and CLI layers.
#[derive(Debug, Clone, PartialEq, Eq)]
pub struct ApuStatus {
    /// Whether a user-supplied IPL ROM is currently loaded.
    pub has_ipl_rom: bool,
    /// Configured firmware path if any.
    pub configured_ipl_path: Option<String>,
    /// Total SPC700 steps executed through the APU boundary.
    pub spc700_steps: u64,
}

/// Abstract state of the APU boundary.
pub struct ApuView {
    /// SPC700 registers.
    pub spc700: Spc700Regs,
    /// Ports written by the main CPU.
    pub cpu_to_apu: Seq<u8>,
    /// Ports written by the audio side.
    pub apu_to_cpu: Seq<u8>,
    /// Loaded IPL firmware.
    pub ipl_rom: Option<Seq<u8>>,
    /// Configured firmware path.
    pub configured_ipl_path: Option<String>,
    /// SPC700 steps taken through the boundary.
    pub spc700_steps: u64,
}

/// APU boundary used to establish timing and communication early.
#[derive(Debug, Clone)]
pub struct Apu {
    /// SPC700 core state.
    pub spc700: Spc700,
    cpu_to_apu_ports: [u8; 4],
    apu_to_cpu_ports: [u8; 4],
    ipl_rom: Option<Vec<u8>>,
    configured_ipl_path: Option<String>,
    spc700_steps: u64,
}

/// Saturating increment of a step counter.
pub open spec fn sat_inc(n: u64) -> u64 {
    if n == u64::MAX { u64::MAX } else { (n + 1) as u64 }
}

/// A step counter after `k` saturating increments.
pub open spec fn sat_add(n: u64, k: int) -> u64 {
    if n + k > u64::MAX { u64::MAX } else { (n + k) as u64 }
}

/// Ports the audio side answers with after the bootstrap handshake advanced once.
pub open spec fn handshake(v: ApuView) -> Seq<u8> {
    if v.ipl_rom is None {
        v.apu_to_cpu
    } else if v.apu_to_cpu[0] == 0xAA && v.apu_to_cpu[1] == 0xBB {
        if v.cpu_to_apu[0] == 0xCC {
            seq![0xCCu8, v.cpu_to_apu[1], v.cpu_to_apu[2], v.cpu_to_apu[3]]
        } else {
            v.apu_to_cpu
        }
    } else {
        v.cpu_to_apu
    }
}

/// The error a port access outside the four ports gives.
pub open spec fn port_range_error(e: Error) -> bool {
    e matches Error::Unimplemented(m) && m@ == "APU port index out of range"@
}

impl View for Apu {
    type V = ApuView;

    closed spec fn view(&self) -> ApuView {
        ApuView {
            spc700: self.spc700.regs(),
            cpu_to_apu: self.cpu_to_apu_ports@,
            apu_to_cpu: self.apu_to_cpu_ports@,
            ipl_rom: match self.ipl_rom {
                Some(v) => Some(v@),
                None => None,
            },
            configured_ipl_path: self.configured_ipl_path,
            spc700_steps: self.spc700_steps,
        }
    }
}

impl Default for Apu {
    fn default() -> (a: Self)
        ensures
            a@.spc700 == reset_spc700_regs(),
            a@.cpu_to_apu == seq![0u8, 0, 0, 0],
            a@.apu_to_cpu == seq![0u8, 0, 0, 0],
            a@.ipl_rom is None,
            a@.configured_ipl_path is None,
            a@.spc700_steps == 0,
    {
        let a = Apu {
            spc700: Spc700::default(),
            cpu_to_apu_ports: [0, 0, 0, 0],
            apu_to_cpu_ports: [0, 0, 0, 0],
            ipl_rom: None,
            configured_ipl_path: None,
            spc700_steps: 0,
        };
        assert(a.cpu_to_apu_ports@ =~= seq![0u8, 0, 0, 0]);
        a
    }
}

impl Apu {
    /// Create an APU boundary configured with an optional firmware path.
    pub fn with_ipl_path(path: Option<String>) -> (a: Self)
        ensures
            a@.spc700 == reset_spc700_regs(),
            a@.cpu_to_apu == seq![0u8, 0, 0, 0],
            a@.apu_to_cpu == seq![0u8, 0, 0, 0],
            a@.ipl_rom is None,
            a@.configured_ipl_path == path,
            a@.spc700_steps == 0,
    {
        let mut a = Apu::default();
        a.configured_ipl_path = path;
        a
    }

    /// Reset APU-visible state while preserving configured firmware.
    pub fn reset(&mut self)
        ensures
            final(self)@.spc700 == reset_spc700_regs(),
            final(self)@.cpu_to_apu == seq![0u8, 0, 0, 0],
            final(self)@.apu_to_cpu == if old(self)@.ipl_rom is Some {
                seq![0xAAu8, 0xBB, 0, 0]
            } else {
                seq![0u8, 0, 0, 0]
            },
            final(self)@.ipl_rom == old(self)@.ipl_rom,
            final(self)@.configured_ipl_path == old(self)@.configured_ipl_path,
            final(self)@.spc700_steps == 0,
    {
        self.spc700.reset();
        self.cpu_to_apu_ports = [0, 0, 0, 0];
        self.apu_to_cpu_ports = if self.ipl_rom.is_some() { [0xAA, 0xBB, 0, 0] } else { [0, 0, 0, 0] };
        self.spc700_steps = 0;
        assert(self.cpu_to_apu_ports@ =~= seq![0u8, 0, 0, 0]);
        assert(self.apu_to_cpu_ports@ =~= seq![0xAAu8, 0xBB, 0, 0] || self.apu_to_cpu_ports@ =~= seq![0u8, 0, 0, 0]);
    }

    /// Configure or replace the path to a user-supplied IPL ROM; any loaded ROM is dropped.
    pub fn set_ipl_path(&mut self, path: Option<String>)
        ensures
            final(self)@ == (ApuView { configured_ipl_path: path, ipl_rom: None, ..old(self)@ }),
    {
        self.configured_ipl_path = path;
        self.ipl_rom = None;
    }

    /// The configured firmware path.
    pub fn configured_ipl_path(&self) -> (p: &Option<String>)
        ensures
            *p == self@.configured_ipl_path,
    {
        &self.configured_ipl_path
    }

    /// Load the configured IPL ROM, given what the host read at the configured path.
    ///
    /// Without a configured path any loaded ROM is dropped and `Ok(false)` returned; otherwise a
    /// read failure is passed on, and read bytes are installed as by `install_ipl_rom_bytes`.
    pub fn load_configured_ipl_rom(&mut self, read: Result<Vec<u8>>) -> (r: Result<bool>)
        ensures
            old(self)@.configured_ipl_path is None ==> r == Ok::<bool, Error>(false)
                && final(self)@ == (ApuView { ipl_rom: None, ..old(self)@ }),
            old(self)@.configured_ipl_path is Some ==> match read {
                Err(e) => r == Err::<bool, Error>(e) && final(self)@ == old(self)@,
                Ok(data) => {
                    &&& (r is Ok <==> data@.len() == SPC700_IPL_ROM_LEN)
                    &&& r is Ok ==> r == Ok::<bool, Error>(true)
                        && final(self)@ == (ApuView { ipl_rom: Some(data@), ..old(self)@ })
                    &&& r matches Err(e) ==> final(self)@ == old(self)@ && (e matches Error::InvalidFirmware { name, actual_len }
                        && name@ == "SPC700 IPL ROM"@ && actual_len == data@.len())
                },
            },
    {
        if self.configured_ipl_path.is_none() {
            self.ipl_rom = None;
            return Ok(false);
        }
        match read {
            Err(e) => Err(e),
            Ok(data) => {
                let source = self.configured_ipl_path.clone();
                match self.install_ipl_rom_bytes(data, source) {
                    Ok(()) => Ok(true),
                    Err(e) => Err(e),
                }
            },
        }
    }

    /// Install a user-supplied IPL ROM from owned bytes.
    pub fn install_ipl_rom_bytes(&mut self, data: Vec<u8>, source: Option<String>) -> (r: Result<()>)
        ensures
            r is Ok <==> data@.len() == SPC700_IPL_ROM_LEN,
            r is Ok ==> final(self)@ == (ApuView {
                ipl_rom: Some(data@),
                configured_ipl_path: if source is Some { source } else { old(self)@.configured_ipl_path },
                ..old(self)@
            }),
            r matches Err(e) ==> final(self)@ == old(self)@ && (e matches Error::InvalidFirmware { name, actual_len }
                && name@ == "SPC700 IPL ROM"@ && actual_len == data@.len()),
    {
        if data.len() != SPC700_IPL_ROM_LEN {
            return Err(Error::InvalidFirmware { name: "SPC700 IPL ROM".to_owned(), actual_len: data.len() });
        }
        self.ipl_rom = Some(data);
        if source.is_some() {
            self.configured_ipl_path = source;
        }
        Ok(())
    }

    /// Step the SPC700 core once through the APU boundary.
    pub fn step_spc700(&mut self)
        ensures
            final(self)@ == (ApuView {
                spc700: stepped(old(self)@.spc700),
                spc700_steps: sat_inc(old(self)@.spc700_steps),
                ..old(self)@
            }),
    {
        self.spc700.step();
        self.spc700_steps = self.spc700_steps.saturating_add(1);
    }

    /// Advance APU work for a number of master cycles: one SPC700 step per six master cycles,
    /// then one turn of the bootstrap port handshake.
    pub fn step_master_cycles(&mut self, master_cycles: u64)
        ensures
            final(self)@.spc700_steps == sat_add(old(self)@.spc700_steps, (master_cycles / 6) as int),
            final(self)@.spc700.pc == (old(self)@.spc700.pc + master_cycles / 6) % 0x10000,
            final(self)@.spc700.cycles == sat_add(old(self)@.spc700.cycles, (master_cycles / 6) as int),
            final(self)@.cpu_to_apu == old(self)@.cpu_to_apu,
            final(self)@.apu_to_cpu == handshake(old(self)@),
            final(self)@.ipl_rom == old(self)@.ipl_rom,
            final(self)@.configured_ipl_path == old(self)@.configured_ipl_path,
    {
        let n = master_cycles / 6;
        let mut i: u64 = 0;
        while i < n
            invariant
                i <= n,
                n == master_cycles / 6,
                self@.spc700_steps == sat_add(old(self)@.spc700_steps, i as int),
                self@.spc700.pc == (old(self)@.spc700.pc + i) % 0x10000,
                self@.spc700.cycles == sat_add(old(self)@.spc700.cycles, i as int),
                self@.cpu_to_apu == old(self)@.cpu_to_apu,
                self@.apu_to_cpu == old(self)@.apu_to_cpu,
                self@.ipl_rom == old(self)@.ipl_rom,
                self@.configured_ipl_path == old(self)@.configured_ipl_path,
            decreases n - i,
        {
            self.step_spc700();
            i = i + 1;
        }
        self.advance_bootstrap_handshake();
    }

    /// Write one CPU-to-APU communication port byte.
    pub fn write_cpu_port(&mut self, port: usize, value: u8) -> (r: Result<()>)
        ensures
            old(self)@.cpu_to_apu.len() == 4 && old(self)@.apu_to_cpu.len() == 4,
            final(self)@.cpu_to_apu.len() == 4 && final(self)@.apu_to_cpu.len() == 4,
            r is Ok <==> port < 4,
            r is Ok ==> final(self)@ == (ApuView { cpu_to_apu: old(self)@.cpu_to_apu.update(port as int, value), ..old(self)@ }),
            r matches Err(e) ==> final(self)@ == old(self)@ && port_range_error(e),
    {
        if port >= 4 {
            return Err(Error::Unimplemented("APU port index out of range".to_owned()));
        }
        self.cpu_to_apu_ports[port] = value;
        assert(self.cpu_to_apu_ports@ =~= old(self)@.cpu_to_apu.update(port as int, value));
        Ok(())
    }

    /// Read one CPU-to-APU communication port byte.
    pub fn read_cpu_port(&self, port: usize) -> (r: Result<u8>)
        ensures
            self@.cpu_to_apu.len() == 4 && self@.apu_to_cpu.len() == 4,
            r is Ok <==> port < 4,
            r matches Ok(v) ==> v == self@.cpu_to_apu[port as int],
            r matches Err(e) ==> port_range_error(e),
    {
        if port >= 4 {
            return Err(Error::Unimplemented("APU port index out of range".to_owned()));
        }
        Ok(self.cpu_to_apu_ports[port])
    }

    /// Write one APU-to-CPU communication port byte.
    pub fn write_apu_port(&mut self, port: usize, value: u8) -> (r: Result<()>)
        ensures
            old(self)@.cpu_to_apu.len() == 4 && old(self)@.apu_to_cpu.len() == 4,
            final(self)@.cpu_to_apu.len() == 4 && final(self)@.apu_to_cpu.len() == 4,
            r is Ok <==> port < 4,
            r is Ok ==> final(self)@ == (ApuView { apu_to_cpu: old(self)@.apu_to_cpu.update(port as int, value), ..old(self)@ }),
            r matches Err(e) ==> final(self)@ == old(self)@ && port_range_error(e),
    {
        if port >= 4 {
            return Err(Error::Unimplemented("APU port index out of range".to_owned()));
        }
        self.apu_to_cpu_ports[port] = value;
        assert(self.apu_to_cpu_ports@ =~= old(self)@.apu_to_cpu.update(port as int, value));
        Ok(())
    }

    /// Read one APU-to-CPU communication port byte.
    pub fn read_apu_port(&self, port: usize) -> (r: Result<u8>)
        ensures
            self@.cpu_to_apu.len() == 4 && self@.apu_to_cpu.len() == 4,
            r is Ok <==> port < 4,
            r matches Ok(v) ==> v == self@.apu_to_cpu[port as int],
            r matches Err(e) ==> port_range_error(e),
    {
        if port >= 4 {
            return Err(Error::Unimplemented("APU port index out of range".to_owned()));
        }
        Ok(self.apu_to_cpu_ports[port])
    }

    /// The loaded IPL ROM, if any.
    pub fn ipl_rom(&self) -> (r: Option<&[u8]>)
        ensures
            match (r, self@.ipl_rom) {
                (Some(s), Some(v)) => s@ == v,
                (None, None) => true,
                _ => false,
            },
    {
        match &self.ipl_rom {
            Some(v) => Some(v.as_slice()),
            None => None,
        }
    }

    /// A high-level status snapshot.
    pub fn status(&self) -> (s: ApuStatus)
        ensures
            s.has_ipl_rom == self@.ipl_rom is Some,
            s.configured_ipl_path == self@.configured_ipl_path,
            s.spc700_steps == self@.spc700_steps,
    {
        let configured_ipl_path = match &self.configured_ipl_path {
            Some(p) => Some(p.clone()),
            None => None,
        };
        ApuStatus {
            has_ipl_rom: self.ipl_rom.is_some(),
            configured_ipl_path,
            spc700_steps: self.spc700_steps,
        }
    }

    /// The four APU-to-CPU port bytes.
    pub fn apu_to_cpu_ports(&self) -> (ports: [u8; 4])
        ensures
            ports@ == self@.apu_to_cpu,
    {
        self.apu_to_cpu_ports
    }

    /// Replace the four CPU-to-APU port bytes.
    pub fn set_cpu_to_apu_ports(&mut self, ports: [u8; 4])
        ensures
            final(self)@ == (ApuView { cpu_to_apu: ports@, ..old(self)@ }),
    {
        self.cpu_to_apu_ports = ports;
    }

    fn advance_bootstrap_handshake(&mut self)
        ensures
            final(self)@ == (ApuView { apu_to_cpu: handshake(old(self)@), ..old(self)@ }),
    {
        if self.ipl_rom.is_none() {
            return;
        }
        if self.apu_to_cpu_ports[0] == 0xAA && self.apu_to_cpu_ports[1] == 0xBB {
            if self.cpu_to_apu_ports[0] == 0xCC {
                self.apu_to_cpu_ports[0] = 0xCC;
                self.apu_to_cpu_ports[1] = self.cpu_to_apu_ports[1];
                self.apu_to_cpu_ports[2] = self.cpu_to_apu_ports[2];
                self.apu_to_cpu_ports[3] = self.cpu_to_apu_ports[3];
                assert(self.apu_to_cpu_ports@ =~= handshake(old(self)@));
            }
            return;
        }
        self.apu_to_cpu_ports = self.cpu_to_apu_ports;
    }
}

/// A byte written to a CPU-to-APU port reads back unchanged, and the other ports keep their
/// values.
pub proof fn lemma_cpu_port_roundtrip(v: ApuView, port: int, other: int, value: u8)
    requires
        v.cpu_to_apu.len() == 4,
        0 <= port < 4,
        0 <= other < 4,
    ensures
        v.cpu_to_apu.update(port, value)[port] == value,
        other != port ==> v.cpu_to_apu.update(port, value)[other] == v.cpu_to_apu[other],
{
}

/// Every APU has four ports each way.
pub proof fn lemma_port_counts(apu: Apu)
    ensures
        apu@.cpu_to_apu.len() == 4,
        apu@.apu_to_cpu.len() == 4,
{
    assert(apu.cpu_to_apu_ports@.len() == 4);
    assert(apu.apu_to_cpu_ports@.len() == 4);
}

} // verus!
