//! The three engines behind one interface, and a whole-input dump.

use vstd::prelude::*;
use crate::binary::{binary_step, BinaryDumper};
use crate::config::{DumpConfig, Mode};
use crate::engine::{finish_output, finished, has_room, line_end, run, start_state, DumpState, Step};
use crate::hex::{hex_line_end, hex_step, HexDumper};
use crate::text::{text_step, TextDumper};

verus! {

/// The per-byte transition of a mode.
pub open spec fn mode_step(mode: Mode, cfg: DumpConfig) -> Step {
    match mode {
        Mode::Hex => hex_step(cfg),
        Mode::Binary => binary_step(cfg),
        Mode::Text => text_step(cfg),
    }
}

/// The marker that closes a line of a mode.
pub open spec fn close_marker(mode: Mode) -> Seq<u8> {
    match mode {
        Mode::Hex => hex_line_end(),
        _ => line_end(),
    }
}

/// Everything a fresh engine writes for `data` given in one call, then
/// finished.
pub open spec fn dump_output(mode: Mode, cfg: DumpConfig, data: Seq<u8>) -> Seq<u8> {
    let r = run(mode_step(mode, cfg), start_state(), data);
    r.1 + finish_output(r.0, close_marker(mode))
}

/// An engine of any mode.
pub enum Dumper {
    Hex(HexDumper),
    Binary(BinaryDumper),
    Text(TextDumper),
}

impl View for Dumper {
    type V = DumpState;

    open spec fn view(&self) -> DumpState {
        match self {
            Dumper::Hex(d) => d@,
            Dumper::Binary(d) => d@,
            Dumper::Text(d) => d@,
        }
    }
}

impl Dumper {
    /// The mode of the engine.
    pub open spec fn mode(&self) -> Mode {
        match self {
            Dumper::Hex(_) => Mode::Hex,
            Dumper::Binary(_) => Mode::Binary,
            Dumper::Text(_) => Mode::Text,
        }
    }

    /// The configuration the engine was made with.
    pub open spec fn config(&self) -> DumpConfig {
        match self {
            Dumper::Hex(d) => d.config(),
            Dumper::Binary(d) => d.config(),
            Dumper::Text(d) => d.config(),
        }
    }

    /// The engine's invariant.
    pub open spec fn wf(&self) -> bool {
        match self {
            Dumper::Hex(d) => d.wf(),
            Dumper::Binary(d) => d.wf(),
            Dumper::Text(d) => d.wf(),
        }
    }

    /// A fresh engine of the given mode.
    pub fn new(mode: Mode, config: DumpConfig) -> (r: Self)
        requires
            config.valid(),
        ensures
            r.wf(),
            r.mode() == mode,
            r.config() == config,
            r@ == start_state(),
    {
        match mode {
            Mode::Hex => Dumper::Hex(HexDumper::new(config)),
            Mode::Binary => Dumper::Binary(BinaryDumper::new(config)),
            Mode::Text => Dumper::Text(TextDumper::new(config)),
        }
    }

    /// Whether `n` more bytes can be processed without the offset overflowing.
    pub fn can_take(&self, n: usize) -> (r: bool)
        requires
            self.wf(),
        ensures
            r == has_room(self@, n as nat),
    {
        match self {
            Dumper::Hex(d) => d.can_take(n),
            Dumper::Binary(d) => d.can_take(n),
            Dumper::Text(d) => d.can_take(n),
        }
    }

    /// Renders `data`, appending every completed line to `out`.
    pub fn process(&mut self, data: &[u8], out: &mut Vec<u8>)
        requires
            old(self).wf(),
            has_room(old(self)@, data@.len()),
        ensures
            final(self).wf(),
            final(self).mode() == old(self).mode(),
            final(self).config() == old(self).config(),
            final(self)@ == run(mode_step(old(self).mode(), old(self).config()), old(self)@, data@).0,
            final(out)@ == old(out)@ + run(
                mode_step(old(self).mode(), old(self).config()),
                old(self)@,
                data@,
            ).1,
    {
        match self {
            Dumper::Hex(d) => d.process(data, out),
            Dumper::Binary(d) => d.process(data, out),
            Dumper::Text(d) => d.process(data, out),
        }
    }

    /// Writes the partial line, if any, and a final newline.
    pub fn finish(&mut self, out: &mut Vec<u8>)
        requires
            old(self).wf(),
        ensures
            final(self).wf(),
            final(self).mode() == old(self).mode(),
            final(self).config() == old(self).config(),
            final(self)@ == finished(old(self)@),
            final(out)@ == old(out)@ + finish_output(old(self)@, close_marker(old(self).mode())),
    {
        match self {
            Dumper::Hex(d) => d.finish(out),
            Dumper::Binary(d) => d.finish(out),
            Dumper::Text(d) => d.finish(out),
        }
    }
}

/// Dumps a whole input held in memory: one engine, one call, then finish.
pub fn dump_bytes(mode: Mode, config: DumpConfig, data: &[u8]) -> (r: Vec<u8>)
    requires
        config.valid(),
        8 * data@.len() <= usize::MAX,
    ensures
        r@ == dump_output(mode, config, data@),
{
    let mut d = Dumper::new(mode, config);
    let mut out: Vec<u8> = Vec::new();
    d.process(data, &mut out);
    d.finish(&mut out);
    assert(out@ =~= dump_output(mode, config, data@));
    out
}

} // verus!
