//! Emulator sessions driven by host shells.
use vstd::prelude::*;

use crate::apu::ApuView;
use crate::cartridge::Cartridge;
use crate::coprocessor::TrigTable;
use crate::emulator::{Emulator, EmulatorBuilder, frame_run, frame_stopped, frames_later, frames_run, lemma_frames_none, lemma_frames_push, one_frame_later};
use crate::error::{Error, Result};
use crate::input::ControllerState;
use crate::manifest::AssetConfig;
use crate::system::rendered_frame;
use crate::text::{decimal, push_decimal};

verus! {

/// Read-only session status exported to frontend shells.
#[derive(Debug, Clone, PartialEq, Eq)]
pub struct SessionSnapshot {
    /// Loaded ROM path if any.
    pub rom_path: Option<String>,
    /// Whether a ROM is currently installed.
    pub has_rom: bool,
    /// Current video frame index.
    pub frame: u64,
    /// Current SPC700 step count.
    pub apu_steps: u64,
    /// Current buffered audio sample count.
    pub audio_sample_count: usize,
    /// Current framebuffer width in pixels.
    pub framebuffer_width: u32,
    /// Current framebuffer height in pixels.
    pub framebuffer_height: u32,
}

/// The status line of a snapshot.
pub open spec fn spec_status_line(s: SessionSnapshot) -> Seq<char> {
    if !s.has_rom {
        "No ROM loaded"@
    } else {
        "Frame "@ + decimal(s.frame as nat) + " | APU steps "@ + decimal(s.apu_steps as nat) + " | Audio samples "@
            + decimal(s.audio_sample_count as nat)
    }
}

impl SessionSnapshot {
    /// Render a compact host-facing status string.
    pub fn status_line(&self) -> (s: String)
        ensures
            s@ == spec_status_line(*self),
    {
        if !self.has_rom {
            return "No ROM loaded".to_owned();
        }
        let mut s = "Frame ".to_owned();
        push_decimal(&mut s, self.frame);
        s.append(" | APU steps ");
        push_decimal(&mut s, self.apu_steps);
        s.append(" | Audio samples ");
        push_decimal(&mut s, self.audio_sample_count as u64);
        s
    }
}

/// The snapshot of an emulator with a ROM path.
pub open spec fn snapshot_of(emulator: Emulator, rom_path: Option<String>) -> SessionSnapshot {
    SessionSnapshot {
        rom_path,
        has_rom: emulator.system_view().cartridge is Some,
        frame: emulator.system_view().timing.frame,
        apu_steps: emulator.apu_view().spc700_steps,
        audio_sample_count: emulator.audio_view().len() as usize,
        framebuffer_width: 256,
        framebuffer_height: 224,
    }
}

/// A fresh emulator for `assets` with the IPL firmware the host read installed, when the assets
/// configure one and the bytes are valid.
fn prepared_emulator(assets: AssetConfig, trig: TrigTable, ipl: Result<Vec<u8>>) -> (e: Emulator)
    ensures
        e.wf(),
        e.system_view().trig == trig,
        e.system_view().cartridge is None,
        e.spec_assets() == assets,
{
    let mut emulator = EmulatorBuilder::new().assets(assets).trig_table(trig).build();
    let _ = emulator.load_apu_ipl_rom(ipl);
    emulator
}

/// Frontend-agnostic emulator session used by UI shells.
#[derive(Debug)]
pub struct FrontendSession {
    emulator: Emulator,
    rom_path: Option<String>,
}

impl FrontendSession {
    /// The emulator of the session.
    pub closed spec fn spec_emulator(&self) -> Emulator {
        self.emulator
    }

    /// The path of the loaded ROM.
    pub closed spec fn spec_rom_path(&self) -> Option<String> {
        self.rom_path
    }

    /// The emulator keeps its frame buffer shape.
    pub open spec fn wf(&self) -> bool {
        self.spec_emulator().wf()
    }

    /// Build a frontend session with the provided asset configuration, the tables math
    /// coprocessors use, and the IPL firmware bytes the host read at the configured path.
    pub fn new(assets: AssetConfig, trig: TrigTable, ipl: Result<Vec<u8>>) -> (r: Result<Self>)
        ensures
            r matches Ok(s) && s.wf() && s.spec_rom_path() is None
                && s.spec_emulator().system_view().cartridge is None
                && s.spec_emulator().system_view().trig == trig
                && s.spec_emulator().spec_assets() == assets,
    {
        Ok(FrontendSession { emulator: prepared_emulator(assets, trig, ipl), rom_path: None })
    }

    /// Install a ROM the host loaded from `rom_path` and reset the emulator around it; a load
    /// error leaves the session unchanged.
    pub fn load_rom(&mut self, rom_path: String, cartridge: Result<Cartridge>) -> (r: Result<()>)
        requires
            old(self).wf(),
        ensures
            final(self).wf(),
            match cartridge {
                Ok(c) => r is Ok && final(self).spec_rom_path() == Some(rom_path)
                    && final(self).spec_emulator().system_view().cartridge == Some(c),
                Err(e) => r == Err::<(), Error>(e) && *final(self) == *old(self),
            },
    {
        match cartridge {
            Ok(c) => {
                self.emulator.load_rom(c);
                self.rom_path = Some(rom_path);
                Ok(())
            },
            Err(e) => Err(e),
        }
    }

    /// Advance the emulator by one frame.
    pub fn run_frame(&mut self) -> (r: Result<()>)
        requires
            old(self).wf(),
        ensures
            final(self).wf(),
            final(self).spec_rom_path() == old(self).spec_rom_path(),
            old(self).spec_emulator().system_view().cartridge is None ==> (r matches Err(Error::InvalidRom(m))
                && m@ == "no ROM loaded"@) && final(self).spec_emulator().system_view() == old(self).spec_emulator().system_view(),
            old(self).spec_emulator().system_view().cartridge is Some ==> (r matches Err(e) ==> e is UnsupportedOpcode)
                && final(self).spec_emulator().system_view().cartridge is Some,
            r matches Err(e) ==> (e is InvalidRom || e is UnsupportedOpcode),
            r is Ok ==> final(self).spec_emulator().frame().pixels_view()
                == rendered_frame(final(self).spec_emulator().system_view()),
            r is Ok ==> one_frame_later(old(self).spec_emulator().system_view().timing,
                final(self).spec_emulator().system_view().timing),
            r is Ok ==> final(self).spec_emulator().audio_view().len() > 0,
            r is Ok ==> frame_run(old(self).spec_emulator(), final(self).spec_emulator()),
            old(self).spec_emulator().system_view().cartridge is Some ==> (r matches Err(e)
                ==> frame_stopped(old(self).spec_emulator(), e)),
    {
        self.emulator.run_until_frame()
    }

    /// Advance the emulator by a fixed number of frames, stopping at the first error.
    pub fn run_frames(&mut self, frame_count: usize) -> (r: Result<()>)
        requires
            old(self).wf(),
        ensures
            final(self).wf(),
            final(self).spec_rom_path() == old(self).spec_rom_path(),
            frame_count > 0 && old(self).spec_emulator().system_view().cartridge is None ==> (r matches Err(Error::InvalidRom(m))
                && m@ == "no ROM loaded"@),
            old(self).spec_emulator().system_view().cartridge is Some ==> (r matches Err(e) ==> e is UnsupportedOpcode),
            frame_count == 0 ==> r is Ok && final(self).spec_emulator() == old(self).spec_emulator(),
            r matches Err(e) ==> (e is InvalidRom || e is UnsupportedOpcode),
            r is Ok && frame_count > 0 ==> final(self).spec_emulator().frame().pixels_view()
                == rendered_frame(final(self).spec_emulator().system_view()),
            r is Ok ==> frames_later(old(self).spec_emulator().system_view().timing,
                final(self).spec_emulator().system_view().timing, frame_count as nat),
            r is Ok ==> frames_run(old(self).spec_emulator(), final(self).spec_emulator(), frame_count as nat),
            old(self).spec_emulator().system_view().cartridge is Some ==> (r matches Err(e) ==> exists|k: nat, mid: Emulator|
                k < frame_count && #[trigger] frames_run(old(self).spec_emulator(), mid, k) && frame_stopped(mid, e)),
    {
        let mut i: usize = 0;
        proof { lemma_frames_none(self.spec_emulator()); }
        while i < frame_count
            invariant
                self.wf(),
                self.spec_rom_path() == old(self).spec_rom_path(),
                i > 0 ==> old(self).spec_emulator().system_view().cartridge is Some,
                old(self).spec_emulator().system_view().cartridge is Some ==> self.spec_emulator().system_view().cartridge is Some,
                i == 0 ==> self.spec_emulator() == old(self).spec_emulator(),
                i > 0 ==> self.spec_emulator().frame().pixels_view() == rendered_frame(self.spec_emulator().system_view()),
                frames_later(old(self).spec_emulator().system_view().timing, self.spec_emulator().system_view().timing, i as nat),
                frames_run(old(self).spec_emulator(), self.spec_emulator(), i as nat),
                i <= frame_count,
            decreases frame_count - i,
        {
            let ghost mid = self.spec_emulator();
            match self.run_frame() {
                Ok(()) => {},
                Err(e) => {
                    proof {
                        if old(self).spec_emulator().system_view().cartridge is Some {
                            assert(frames_run(old(self).spec_emulator(), mid, i as nat) && frame_stopped(mid, e));
                        }
                    }
                    return Err(e);
                },
            }
            proof { lemma_frames_push(old(self).spec_emulator(), mid, self.spec_emulator(), i as nat); }
            i = i + 1;
        }
        Ok(())
    }

    /// Update controller-1 state.
    pub fn set_controller1(&mut self, state: ControllerState)
        requires
            old(self).wf(),
        ensures
            final(self).wf(),
            final(self).spec_rom_path() == old(self).spec_rom_path(),
            final(self).spec_emulator().system_view().joypad.controller1 == state,
            final(self).spec_emulator().system_view().cartridge == old(self).spec_emulator().system_view().cartridge,
    {
        self.emulator.set_controller1(state);
    }

    /// Snapshot current session status for a host shell.
    pub fn snapshot(&self) -> (s: SessionSnapshot)
        ensures
            s == snapshot_of(self.spec_emulator(), self.spec_rom_path()),
    {
        let framebuffer = self.emulator.framebuffer();
        let rom_path = match &self.rom_path {
            Some(p) => Some(p.clone()),
            None => None,
        };
        SessionSnapshot {
            rom_path,
            has_rom: self.emulator.cartridge().is_some(),
            frame: self.emulator.timing().frame,
            apu_steps: self.emulator.apu_status().spc700_steps,
            audio_sample_count: self.emulator.audio_samples().samples.len(),
            framebuffer_width: framebuffer.width() as u32,
            framebuffer_height: framebuffer.height() as u32,
        }
    }

    /// Borrow framebuffer pixels as RGBA8.
    pub fn framebuffer_rgba(&self) -> (p: &[u8])
        ensures
            p@ == self.spec_emulator().frame().pixels_view(),
    {
        self.emulator.framebuffer().pixels()
    }

    /// Borrow the underlying emulator for specialized host work.
    pub fn emulator(&self) -> (e: &Emulator)
        ensures
            *e == self.spec_emulator(),
    {
        &self.emulator
    }
}

/// Emulator session of the desktop shell.
#[derive(Debug)]
pub struct EmulatorSession {
    emulator: Emulator,
    rom_path: Option<String>,
}

impl EmulatorSession {
    /// The emulator of the session.
    pub closed spec fn spec_emulator(&self) -> Emulator {
        self.emulator
    }

    /// The path of the loaded ROM.
    pub closed spec fn spec_rom_path(&self) -> Option<String> {
        self.rom_path
    }

    /// The emulator keeps its frame buffer shape.
    pub open spec fn wf(&self) -> bool {
        self.spec_emulator().wf()
    }

    /// Build a session with the provided asset configuration, the tables math coprocessors use,
    /// and the IPL firmware bytes the host read at the configured path.
    pub fn new(assets: AssetConfig, trig: TrigTable, ipl: Result<Vec<u8>>) -> (r: Result<Self>)
        ensures
            r matches Ok(s) && s.wf() && s.spec_rom_path() is None
                && s.spec_emulator().system_view().cartridge is None
                && s.spec_emulator().system_view().trig == trig
                && s.spec_emulator().spec_assets() == assets,
    {
        Ok(EmulatorSession { emulator: prepared_emulator(assets, trig, ipl), rom_path: None })
    }

    /// Install a ROM the host loaded from `rom_path`; a load error leaves the session unchanged.
    pub fn load_rom(&mut self, rom_path: String, cartridge: Result<Cartridge>) -> (r: Result<()>)
        requires
            old(self).wf(),
        ensures
            final(self).wf(),
            match cartridge {
                Ok(c) => r is Ok && final(self).spec_rom_path() == Some(rom_path)
                    && final(self).spec_emulator().system_view().cartridge == Some(c),
                Err(e) => r == Err::<(), Error>(e) && *final(self) == *old(self),
            },
    {
        match cartridge {
            Ok(c) => {
                self.emulator.load_rom(c);
                self.rom_path = Some(rom_path);
                Ok(())
            },
            Err(e) => Err(e),
        }
    }

    /// Advance the emulator by one frame.
    pub fn run_frame(&mut self) -> (r: Result<()>)
        requires
            old(self).wf(),
        ensures
            final(self).wf(),
            final(self).spec_rom_path() == old(self).spec_rom_path(),
            old(self).spec_emulator().system_view().cartridge is None ==> (r matches Err(Error::InvalidRom(m))
                && m@ == "no ROM loaded"@) && final(self).spec_emulator().system_view() == old(self).spec_emulator().system_view(),
            old(self).spec_emulator().system_view().cartridge is Some ==> (r matches Err(e) ==> e is UnsupportedOpcode)
                && final(self).spec_emulator().system_view().cartridge is Some,
            r matches Err(e) ==> (e is InvalidRom || e is UnsupportedOpcode),
            r is Ok ==> final(self).spec_emulator().frame().pixels_view()
                == rendered_frame(final(self).spec_emulator().system_view()),
            r is Ok ==> one_frame_later(old(self).spec_emulator().system_view().timing,
                final(self).spec_emulator().system_view().timing),
            r is Ok ==> final(self).spec_emulator().audio_view().len() > 0,
            r is Ok ==> frame_run(old(self).spec_emulator(), final(self).spec_emulator()),
            old(self).spec_emulator().system_view().cartridge is Some ==> (r matches Err(e)
                ==> frame_stopped(old(self).spec_emulator(), e)),
    {
        self.emulator.run_until_frame()
    }

    /// Hold controller-1 buttons.
    pub fn hold_controller1(&mut self, state: ControllerState)
        requires
            old(self).wf(),
        ensures
            final(self).wf(),
            final(self).spec_rom_path() == old(self).spec_rom_path(),
            final(self).spec_emulator().system_view().joypad.controller1 == state,
    {
        self.emulator.set_controller1(state);
    }

    /// Borrow the underlying emulator.
    pub fn emulator(&self) -> (e: &Emulator)
        ensures
            *e == self.spec_emulator(),
    {
        &self.emulator
    }

    /// The loaded ROM path.
    pub fn rom_path(&self) -> (p: Option<&String>)
        ensures
            match (p, self.spec_rom_path()) {
                (Some(a), Some(b)) => *a == b,
                (None, None) => true,
                _ => false,
            },
    {
        self.rom_path.as_ref()
    }
}

} // verus!
