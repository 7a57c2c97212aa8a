//! Hex mode: each byte as two lowercase hex digits and a space.

use vstd::prelude::*;
use crate::config::DumpConfig;
use crate::engine::{
    close_line, feed, finish_output, finished, has_room, prime, run, stage_unit, start_state,
    unit_paint, DumpState, LineCore, Step,
};
use crate::tables::{hex_text, painted, ByteTables};

verus! {

/// The rendering of one byte in hex mode.
pub open spec fn hex_unit(cfg: DumpConfig, b: u8) -> Seq<u8> {
    painted(unit_paint(cfg, b), hex_text(b))
}

/// The marker that closes a hex-mode line: `"|\n"`.
pub open spec fn hex_line_end() -> Seq<u8> {
    seq![0x7cu8, 0x0au8]
}

/// The hex-mode transition: stage the byte; a line of `bytes_per_line` bytes
/// closes with `"|\n"`.
pub open spec fn hex_step(cfg: DumpConfig) -> Step {
    |s: DumpState, b: u8|
        {
            let s1 = DumpState {
                pos: s.pos + 1,
                line_bytes: s.line_bytes + 1,
                pending: s.pending + hex_unit(cfg, b),
                ..s
            };
            if s1.pos >= cfg.bytes_per_line {
                close_line(s1, hex_line_end())
            } else {
                (s1, seq![])
            }
        }
}

/// The hex-mode engine.
pub struct HexDumper {
    tables: ByteTables,
    core: LineCore,
}

impl View for HexDumper {
    type V = DumpState;

    closed spec fn view(&self) -> DumpState {
        self.core.state()
    }
}

impl HexDumper {
    /// The configuration the engine was made with.
    pub closed spec fn config(&self) -> DumpConfig {
        self.core.config
    }

    /// The engine's invariant: a line is never complete between bytes, and
    /// the staged line fits the buffer with room for one more unit.
    pub closed spec fn wf(&self) -> bool {
        &&& self.tables.wf()
        &&& self.core.inv()
        &&& self.core.pos < self.core.config.bytes_per_line
        &&& self.core.line_bytes == self.core.pos
        &&& self.core.line_buf@.len() <= 18 * self.core.pos
    }

    /// A fresh engine.
    pub fn new(config: DumpConfig) -> (r: Self)
        requires
            config.valid(),
        ensures
            r.wf(),
            r.config() == config,
            r@ == start_state(),
    {
        HexDumper { tables: ByteTables::new(), core: LineCore::new(config) }
    }

    /// Whether `n` more bytes can be processed without the offset overflowing.
    pub fn can_take(&self, n: usize) -> (r: bool)
        requires
            self.wf(),
        ensures
            r == has_room(self@, n as nat),
    {
        let used = self.core.offset + self.core.pos;
        n <= (usize::MAX - used) / 8
    }

    /// Renders `data`, appending every completed line to `out`.
    pub fn process(&mut self, data: &[u8], out: &mut Vec<u8>)
        requires
            old(self).wf(),
            has_room(old(self)@, data@.len()),
        ensures
            final(self).wf(),
            final(self).config() == old(self).config(),
            final(self)@ == run(hex_step(old(self).config()), old(self)@, data@).0,
            final(out)@ == old(out)@ + run(hex_step(old(self).config()), old(self)@, data@).1,
            final(self)@.offset + final(self)@.line_bytes == old(self)@.offset + old(self)@.line_bytes
                + data@.len(),
    {
        let ghost cfg = self.core.config;
        let ghost step = hex_step(cfg);
        if !self.core.started {
            self.core.started = true;
            self.core.write_offset(&self.tables, out);
        }
        let ghost s1 = self@;
        let ghost base = out@;
        assert(s1 == prime(old(self)@).0);
        assert(base == old(out)@ + prime(old(self)@).1);
        let n = data.len();
        let mut i: usize = 0;
        while i < n
            invariant
                self.wf(),
                self@.started,
                self.config() == cfg,
                step == hex_step(cfg),
                i <= n,
                n == data@.len(),
                self@ == feed(step, s1, data@.take(i as int)).0,
                out@ == base + feed(step, s1, data@.take(i as int)).1,
                self@.offset + self@.pos + 8 * (n - i) <= usize::MAX,
                self@.offset + self@.line_bytes == s1.offset + s1.line_bytes + i,
            decreases n - i,
        {
            self.process_byte(data[i], out);
            assert(data@.take(i + 1).drop_last() =~= data@.take(i as int));
            assert(out@ =~= base + feed(step, s1, data@.take(i + 1)).1);
            i += 1;
        }
        assert(data@.take(n as int) =~= data@);
    }

    fn process_byte(&mut self, b: u8, out: &mut Vec<u8>)
        requires
            old(self).wf(),
            old(self)@.started,
            old(self)@.offset + old(self)@.pos + 1 <= usize::MAX,
        ensures
            final(self).wf(),
            final(self).config() == old(self).config(),
            final(self)@ == hex_step(old(self).config())(old(self)@, b).0,
            final(out)@ == old(out)@ + hex_step(old(self).config())(old(self)@, b).1,
            final(self)@.offset + final(self)@.pos <= old(self)@.offset + old(self)@.pos + 1,
            final(self)@.offset + final(self)@.line_bytes == old(self)@.offset + old(self)@.line_bytes + 1,
    {
        let p = self.core.paint_for(&self.tables, b);
        stage_unit(&mut self.core.line_buf, &self.tables, p, self.tables.hex(b));
        self.core.pos = self.core.pos + 1;
        self.core.line_bytes = self.core.line_bytes + 1;
        if self.core.pos >= self.core.config.bytes_per_line {
            self.core.end_line(&self.tables, &[0x7cu8, 0x0au8], out);
        }
    }

    /// Writes the partial line, if any, and a final newline.
    pub fn finish(&mut self, out: &mut Vec<u8>)
        requires
            old(self).wf(),
        ensures
            final(self).wf(),
            final(self).config() == old(self).config(),
            final(self)@ == finished(old(self)@),
            final(out)@ == old(out)@ + finish_output(old(self)@, hex_line_end()),
    {
        self.core.finish_line(&[0x7cu8, 0x0au8], out);
    }
}

} // verus!
