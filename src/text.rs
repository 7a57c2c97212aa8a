//! Text mode: each byte as its escaped form. Lines are counted in rendered
//! characters, and an escape is never split across two lines.

use vstd::prelude::*;
use crate::config::DumpConfig;
use crate::engine::{
    close_line, feed, finish_output, finished, has_room, line_end, prime, run, stage_unit,
    start_state, unit_paint, DumpState, LineCore, Step,
};
use crate::tables::{escape_text, painted, ByteTables, Paint};

verus! {

/// What stands for a byte in text mode: an underscore for a highlighted
/// space, else its escape.
pub open spec fn text_glyph(cfg: DumpConfig, b: u8) -> Seq<u8> {
    if cfg.space_highlight && b == 0x20 {
        seq![0x5fu8]
    } else {
        escape_text(b)
    }
}

/// The rendering of one byte in text mode.
pub open spec fn text_unit(cfg: DumpConfig, b: u8) -> Seq<u8> {
    painted(unit_paint(cfg, b), text_glyph(cfg, b))
}

/// The width of a byte in rendered characters: the length of its escape.
pub open spec fn text_width(b: u8) -> nat {
    escape_text(b).len()
}

/// Closes the line first if the byte's escape would not fit on it.
pub open spec fn text_make_room(cfg: DumpConfig, s: DumpState, b: u8) -> (DumpState, Seq<u8>) {
    if s.pos + text_width(b) > cfg.bytes_per_line {
        close_line(s, line_end())
    } else {
        (s, seq![])
    }
}

/// The state once the byte's unit is staged, after `text_make_room`.
pub open spec fn text_placed(cfg: DumpConfig, s: DumpState, b: u8) -> DumpState {
    let r = text_make_room(cfg, s, b).0;
    DumpState {
        pos: r.pos + text_width(b),
        line_bytes: r.line_bytes + 1,
        pending: r.pending + text_unit(cfg, b),
        ..r
    }
}

/// The text-mode transition: make room, stage the byte, and close the line
/// once it has reached `bytes_per_line` characters. The offset advances by
/// the source bytes of each closed line.
pub open spec fn text_step(cfg: DumpConfig) -> Step {
    |s: DumpState, b: u8|
        {
            let pre = text_make_room(cfg, s, b);
            let s1 = text_placed(cfg, s, b);
            let post = if s1.pos >= cfg.bytes_per_line {
                close_line(s1, line_end())
            } else {
                (s1, seq![])
            };
            (post.0, pre.1 + post.1)
        }
}

/// The text-mode engine.
pub struct TextDumper {
    tables: ByteTables,
    core: LineCore,
}

impl View for TextDumper {
    type V = DumpState;

    closed spec fn view(&self) -> DumpState {
        self.core.state()
    }
}

impl TextDumper {
    /// The configuration the engine was made with.
    pub closed spec fn config(&self) -> DumpConfig {
        self.core.config
    }

    /// The engine's invariant: a line is never complete between bytes, and
    /// the staged line fits the buffer with room for one more unit.
    pub closed spec fn wf(&self) -> bool {
        &&& self.tables.wf()
        &&& self.core.inv()
        &&& self.core.pos < self.core.config.bytes_per_line
        &&& self.core.line_buf@.len() <= 19 * self.core.line_bytes
    }

    /// A fresh engine.
    pub fn new(config: DumpConfig) -> (r: Self)
        requires
            config.valid(),
        ensures
            r.wf(),
            r.config() == config,
            r@ == start_state(),
    {
        TextDumper { tables: ByteTables::new(), core: LineCore::new(config) }
    }

    /// Whether `n` more bytes can be processed without the offset overflowing.
    pub fn can_take(&self, n: usize) -> (r: bool)
        requires
            self.wf(),
        ensures
            r == has_room(self@, n as nat),
    {
        let used = self.core.offset + self.core.pos;
        n <= (usize::MAX - used) / 8
    }

    /// Renders `data`, appending every completed line to `out`.
    pub fn process(&mut self, data: &[u8], out: &mut Vec<u8>)
        requires
            old(self).wf(),
            has_room(old(self)@, data@.len()),
        ensures
            final(self).wf(),
            final(self).config() == old(self).config(),
            final(self)@ == run(text_step(old(self).config()), old(self)@, data@).0,
            final(out)@ == old(out)@ + run(text_step(old(self).config()), old(self)@, data@).1,
            final(self)@.offset + final(self)@.line_bytes == old(self)@.offset + old(self)@.line_bytes
                + data@.len(),
    {
        let ghost cfg = self.core.config;
        let ghost step = text_step(cfg);
        if !self.core.started {
            self.core.started = true;
            self.core.write_offset(&self.tables, out);
        }
        let ghost s1 = self@;
        let ghost base = out@;
        assert(s1 == prime(old(self)@).0);
        assert(base == old(out)@ + prime(old(self)@).1);
        let n = data.len();
        let mut i: usize = 0;
        while i < n
            invariant
                self.wf(),
                self@.started,
                self.config() == cfg,
                step == text_step(cfg),
                i <= n,
                n == data@.len(),
                self@ == feed(step, s1, data@.take(i as int)).0,
                out@ == base + feed(step, s1, data@.take(i as int)).1,
                self@.offset + self@.pos + 8 * (n - i) <= usize::MAX,
                self@.offset + self@.line_bytes == s1.offset + s1.line_bytes + i,
            decreases n - i,
        {
            self.process_byte(data[i], out);
            assert(data@.take(i + 1).drop_last() =~= data@.take(i as int));
            assert(out@ =~= base + feed(step, s1, data@.take(i + 1)).1);
            i += 1;
        }
        assert(data@.take(n as int) =~= data@);
    }

    fn process_byte(&mut self, b: u8, out: &mut Vec<u8>)
        requires
            old(self).wf(),
            old(self)@.started,
            old(self)@.offset + old(self)@.pos + 4 <= usize::MAX,
        ensures
            final(self).wf(),
            final(self)@.started,
            final(self).config() == old(self).config(),
            final(self)@ == text_step(old(self).config())(old(self)@, b).0,
            final(out)@ == old(out)@ + text_step(old(self).config())(old(self)@, b).1,
            final(self)@.offset + final(self)@.pos <= old(self)@.offset + old(self)@.pos + 4,
            final(self)@.offset + final(self)@.line_bytes == old(self)@.offset + old(self)@.line_bytes + 1,
    {
        let ghost cfg = self.core.config;
        let escaped = self.tables.escape(b);
        let w = escaped.len();
        if self.core.pos + w > self.core.config.bytes_per_line {
            self.core.end_line(&self.tables, &[0x20u8, 0x7cu8, 0x0au8], out);
        }
        assert(self@ == text_make_room(cfg, old(self)@, b).0);
        Self::write_colored_text(&mut self.core, &self.tables, b, escaped);
        self.core.pos = self.core.pos + w;
        self.core.line_bytes = self.core.line_bytes + 1;
        assert(self@ == text_placed(cfg, old(self)@, b));
        if self.core.pos >= self.core.config.bytes_per_line {
            self.core.end_line(&self.tables, &[0x20u8, 0x7cu8, 0x0au8], out);
        }
        assert(out@ =~= old(out)@ + text_step(cfg)(old(self)@, b).1);
    }

    /// Stages the glyph of a byte in its paint.
    fn write_colored_text(core: &mut LineCore, tables: &ByteTables, b: u8, escaped: &[u8])
        requires
            tables.wf(),
            old(core).inv(),
            old(core).started,
            escaped@ == escape_text(b),
            old(core).line_bytes < old(core).config.bytes_per_line,
            old(core).line_buf@.len() <= 19 * old(core).line_bytes,
        ensures
            final(core).inv(),
            final(core).config == old(core).config,
            final(core).state() == (DumpState {
                pending: old(core).state().pending + text_unit(old(core).config, b),
                ..old(core).state()
            }),
            final(core).line_buf@.len() <= 19 * (old(core).line_bytes + 1),
    {
        let ghost n = core.config.bytes_per_line as int;
        let ghost lb = core.line_bytes as int;
        assert(19 * lb + 19 + 3 <= 24 * n + 24) by (nonlinear_arith)
            requires
                lb < n,
                lb >= 0,
        ;
        if core.config.space_highlight && b == 0x20 {
            stage_unit(&mut core.line_buf, tables, Paint::Green, &[0x5fu8]);
        } else {
            let p = core.paint_for(tables, b);
            stage_unit(&mut core.line_buf, tables, p, escaped);
        }
    }

    /// Writes the partial line, if any, and a final newline.
    pub fn finish(&mut self, out: &mut Vec<u8>)
        requires
            old(self).wf(),
        ensures
            final(self).wf(),
            final(self).config() == old(self).config(),
            final(self)@ == finished(old(self)@),
            final(out)@ == old(out)@ + finish_output(old(self)@, line_end()),
    {
        self.core.finish_line(&[0x20u8, 0x7cu8, 0x0au8], out);
    }
}

} // verus!
