//! Binary mode: each byte as eight `'0'`/`'1'` characters. Lines are counted
//! in bits; without color a byte may be split across two lines, with color
//! its eight bits are painted and placed as one group.

use vstd::prelude::*;
use crate::config::DumpConfig;
use crate::engine::{
    close_line, feed, finish_output, finished, has_room, line_end, prime, run, stage_unit,
    start_state, unit_paint, DumpState, LineCore, Step,
};
use crate::tables::{binary_text, painted, ByteTables};

verus! {

/// One bit character placed without color; a line of `bytes_per_line` bits
/// closes with `" |\n"` and advances the offset by its whole bytes.
pub open spec fn bit_step(cfg: DumpConfig) -> Step {
    |s: DumpState, c: u8|
        {
            let s1 = DumpState {
                pos: s.pos + 1,
                line_bytes: (s.pos + 1) / 8,
                pending: s.pending.push(c),
                ..s
            };
            if s1.pos >= cfg.bytes_per_line {
                close_line(s1, line_end())
            } else {
                (s1, seq![])
            }
        }
}

/// The painted eight-bit group of a byte in color mode.
pub open spec fn binary_unit(cfg: DumpConfig, b: u8) -> Seq<u8> {
    painted(unit_paint(cfg, b), binary_text(b))
}

/// The binary-mode transition for one byte.
pub open spec fn binary_step(cfg: DumpConfig) -> Step {
    |s: DumpState, b: u8|
        if cfg.color_enabled {
            let s1 = DumpState {
                pos: s.pos + 8,
                line_bytes: (s.pos + 8) / 8,
                pending: s.pending + binary_unit(cfg, b),
                ..s
            };
            if s1.pos >= cfg.bytes_per_line {
                close_line(s1, line_end())
            } else {
                (s1, seq![])
            }
        } else {
            feed(bit_step(cfg), s, binary_text(b))
        }
}

/// Whether every line holds whole bytes, so that offsets count bytes exactly.
pub open spec fn whole_bytes(cfg: DumpConfig) -> bool {
    cfg.color_enabled || cfg.bytes_per_line % 8 == 0
}

/// The binary-mode engine.
pub struct BinaryDumper {
    tables: ByteTables,
    core: LineCore,
}

impl View for BinaryDumper {
    type V = DumpState;

    closed spec fn view(&self) -> DumpState {
        self.core.state()
    }
}

impl BinaryDumper {
    /// The configuration the engine was made with.
    pub closed spec fn config(&self) -> DumpConfig {
        self.core.config
    }

    /// The engine's invariant: a line is never complete between bytes, and
    /// the staged line fits the buffer with room for one more group.
    pub closed spec fn wf(&self) -> bool {
        &&& self.tables.wf()
        &&& self.core.inv()
        &&& self.core.pos < self.core.config.bytes_per_line
        &&& self.core.line_bytes == self.core.pos / 8
        &&& whole_bytes(self.core.config) ==> self.core.pos % 8 == 0
        &&& if self.core.config.color_enabled {
            self.core.line_buf@.len() <= 23 * (self.core.pos / 8)
        } else {
            self.core.line_buf@.len() <= self.core.pos
        }
    }

    /// A fresh engine.
    pub fn new(config: DumpConfig) -> (r: Self)
        requires
            config.valid(),
        ensures
            r.wf(),
            r.config() == config,
            r@ == start_state(),
    {
        BinaryDumper { tables: ByteTables::new(), core: LineCore::new(config) }
    }

    /// Whether `n` more bytes can be processed without the offset overflowing.
    pub fn can_take(&self, n: usize) -> (r: bool)
        requires
            self.wf(),
        ensures
            r == has_room(self@, n as nat),
    {
        let used = self.core.offset + self.core.pos;
        n <= (usize::MAX - used) / 8
    }

    /// Renders `data`, appending every completed line to `out`.
    pub fn process(&mut self, data: &[u8], out: &mut Vec<u8>)
        requires
            old(self).wf(),
            has_room(old(self)@, data@.len()),
        ensures
            final(self).wf(),
            final(self).config() == old(self).config(),
            final(self)@ == run(binary_step(old(self).config()), old(self)@, data@).0,
            final(out)@ == old(out)@ + run(binary_step(old(self).config()), old(self)@, data@).1,
            whole_bytes(old(self).config()) ==> final(self)@.offset + final(self)@.line_bytes
                == old(self)@.offset + old(self)@.line_bytes + data@.len(),
    {
        let ghost cfg = self.core.config;
        let ghost step = binary_step(cfg);
        if !self.core.started {
            self.core.started = true;
            self.core.write_offset(&self.tables, out);
        }
        let ghost s1 = self@;
        let ghost base = out@;
        assert(s1 == prime(old(self)@).0);
        assert(base == old(out)@ + prime(old(self)@).1);
        let n = data.len();
        let mut i: usize = 0;
        while i < n
            invariant
                self.wf(),
                self@.started,
                self.config() == cfg,
                step == binary_step(cfg),
                i <= n,
                n == data@.len(),
                self@ == feed(step, s1, data@.take(i as int)).0,
                out@ == base + feed(step, s1, data@.take(i as int)).1,
                self@.offset + self@.pos + 8 * (n - i) <= usize::MAX,
                whole_bytes(cfg) ==> self@.offset + self@.line_bytes == s1.offset + s1.line_bytes + i,
            decreases n - i,
        {
            self.process_byte(data[i], out);
            assert(data@.take(i + 1).drop_last() =~= data@.take(i as int));
            assert(out@ =~= base + feed(step, s1, data@.take(i + 1)).1);
            i += 1;
        }
        assert(data@.take(n as int) =~= data@);
    }

    #[verifier::rlimit(40)]
    fn process_byte(&mut self, b: u8, out: &mut Vec<u8>)
        requires
            old(self).wf(),
            old(self)@.started,
            old(self)@.offset + old(self)@.pos + 8 <= usize::MAX,
        ensures
            final(self).wf(),
            final(self)@.started,
            final(self).config() == old(self).config(),
            final(self)@ == binary_step(old(self).config())(old(self)@, b).0,
            final(out)@ == old(out)@ + binary_step(old(self).config())(old(self)@, b).1,
            final(self)@.offset + final(self)@.pos <= old(self)@.offset + old(self)@.pos + 8,
            whole_bytes(old(self).config()) ==> final(self)@.offset + final(self)@.line_bytes
                == old(self)@.offset + old(self)@.line_bytes + 1,
    {
        let bits = self.tables.binary(b);
        if self.core.config.color_enabled {
            Self::write_colored_binary(&mut self.core, &self.tables, b, bits);
            if self.core.pos >= self.core.config.bytes_per_line {
                self.core.end_line(&self.tables, &[0x20u8, 0x7cu8, 0x0au8], out);
            }
        } else {
            let ghost cfg = self.core.config;
            let ghost s0 = self@;
            let ghost base = out@;
            let mut j: usize = 0;
            while j < 8
                invariant
                    self.tables.wf(),
                    self.core.inv(),
                    self.config() == cfg,
                    !cfg.color_enabled,
                    self@.started,
                    bits@ == binary_text(b),
                    j <= 8,
                    self.core.pos < cfg.bytes_per_line,
                    self.core.line_bytes == self.core.pos / 8,
                    self.core.line_buf@.len() <= self.core.pos,
                    self@ == feed(bit_step(cfg), s0, bits@.take(j as int)).0,
                    out@ == base + feed(bit_step(cfg), s0, bits@.take(j as int)).1,
                    self@.offset + self@.pos <= s0.offset + s0.pos + j,
                    cfg.bytes_per_line % 8 == 0 ==> {
                        ||| self@.offset == s0.offset && self@.pos == s0.pos + j
                        ||| j == 8 && self@.offset == s0.offset + (s0.pos + 8) / 8 && self@.pos == 0
                    },
                    cfg.bytes_per_line % 8 == 0 ==> s0.pos % 8 == 0,
                    s0.offset + s0.pos + 8 <= usize::MAX,
                decreases 8 - j,
            {
                self.core.line_buf.push(bits[j]);
                self.core.pos = self.core.pos + 1;
                self.core.line_bytes = self.core.pos / 8;
                if self.core.pos >= self.core.config.bytes_per_line {
                    self.core.end_line(&self.tables, &[0x20u8, 0x7cu8, 0x0au8], out);
                }
                assert(bits@.take(j + 1).drop_last() =~= bits@.take(j as int));
                assert(out@ =~= base + feed(bit_step(cfg), s0, bits@.take(j + 1)).1);
                j += 1;
            }
            assert(bits@.take(8) =~= bits@);
        }
    }

    fn write_colored_binary(core: &mut LineCore, tables: &ByteTables, b: u8, bits: &[u8])
        requires
            tables.wf(),
            old(core).inv(),
            old(core).started,
            old(core).config.color_enabled,
            old(core).pos < old(core).config.bytes_per_line,
            old(core).pos % 8 == 0,
            old(core).line_buf@.len() <= 23 * (old(core).pos / 8),
            bits@ == binary_text(b),
            old(core).offset + old(core).pos + 8 <= usize::MAX,
        ensures
            final(core).inv(),
            final(core).config == old(core).config,
            final(core).state() == (DumpState {
                pos: old(core).state().pos + 8,
                line_bytes: (old(core).state().pos + 8) / 8,
                pending: old(core).state().pending + binary_unit(old(core).config, b),
                ..old(core).state()
            }),
            final(core).line_buf@.len() + 3 <= final(core).line_buf.capacity(),
            final(core).pos % 8 == 0,
            final(core).line_buf@.len() <= 23 * (final(core).pos / 8),
    {
        let p = core.paint_for(tables, b);
        let ghost n = core.config.bytes_per_line as int;
        let ghost q = core.pos as int;
        assert(23 * (q / 8) + 23 + 3 <= 24 * n + 24) by (nonlinear_arith)
            requires
                q < n,
                q >= 0,
        ;
        stage_unit(&mut core.line_buf, tables, p, bits);
        core.pos = core.pos + 8;
        core.line_bytes = core.pos / 8;
    }

    /// Writes the partial line, if any, and a final newline.
    pub fn finish(&mut self, out: &mut Vec<u8>)
        requires
            old(self).wf(),
        ensures
            final(self).wf(),
            final(self).config() == old(self).config(),
            final(self)@ == finished(old(self)@),
            final(out)@ == old(out)@ + finish_output(old(self)@, line_end()),
    {
        self.core.finish_line(&[0x20u8, 0x7cu8, 0x0au8], out);
    }
}

} // verus!
