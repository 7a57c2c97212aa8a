//! The line protocol shared by the three dump engines: the state model, the
//! offset label, and how a completed line is closed and flushed.

use vstd::prelude::*;
use crate::buffer::LineBuffer;
use crate::config::DumpConfig;
use crate::tables::{
    byte_class, class_paint, hex_digit, hex_digit_char, paint_code, painted, reset_code,
    ByteClass, ByteTables, Paint,
};

verus! {

/// The abstract state of an engine between bytes.
#[verifier::ext_equal]
pub struct DumpState {
    /// Source bytes represented by all completed lines.
    pub offset: nat,
    /// Position in the current line, in the mode's unit.
    pub pos: nat,
    /// Source bytes represented by the current line.
    pub line_bytes: nat,
    /// Whether the first offset label has been written.
    pub started: bool,
    /// Rendered bytes of the current line not yet written out.
    pub pending: Seq<u8>,
}

/// The state of a fresh engine.
pub open spec fn start_state() -> DumpState {
    DumpState { offset: 0, pos: 0, line_bytes: 0, started: false, pending: seq![] }
}

/// Seven lowercase hex digits of `off`, zero-padded (the low 28 bits).
pub open spec fn offset_digits(off: nat) -> Seq<u8> {
    seq![
        hex_digit((off / 0x1000000) % 16),
        hex_digit((off / 0x100000) % 16),
        hex_digit((off / 0x10000) % 16),
        hex_digit((off / 0x1000) % 16),
        hex_digit((off / 0x100) % 16),
        hex_digit((off / 0x10) % 16),
        hex_digit(off % 16),
    ]
}

/// The label at the start of every line: the offset in gray, a pipe, a space.
pub open spec fn offset_label(off: nat) -> Seq<u8> {
    paint_code(Paint::Gray) + offset_digits(off) + reset_code() + seq![0x7cu8, 0x20u8]
}

/// What the first call to `process` writes: the label of offset zero.
pub open spec fn prime(s: DumpState) -> (DumpState, Seq<u8>) {
    if s.started {
        (s, seq![])
    } else {
        (DumpState { started: true, ..s }, offset_label(s.offset))
    }
}

/// Closes the current line with `tail`: the line and the next label are
/// written out and the offset advances by the line's source bytes.
pub open spec fn close_line(s: DumpState, tail: Seq<u8>) -> (DumpState, Seq<u8>) {
    let off = s.offset + s.line_bytes;
    (
        DumpState { offset: off, pos: 0, line_bytes: 0, started: s.started, pending: seq![] },
        s.pending + tail + offset_label(off),
    )
}

/// A per-byte transition: the next state and the bytes written out.
pub type Step = spec_fn(DumpState, u8) -> (DumpState, Seq<u8>);

/// Runs `step` over `data` from `s`: the final state and everything written.
pub open spec fn feed(step: Step, s: DumpState, data: Seq<u8>) -> (DumpState, Seq<u8>)
    decreases data.len(),
{
    if data.len() == 0 {
        (s, seq![])
    } else {
        let prev = feed(step, s, data.drop_last());
        let next = step(prev.0, data.last());
        (next.0, prev.1 + next.1)
    }
}

/// One call of `process`: the first label if needed, then every byte.
pub open spec fn run(step: Step, s: DumpState, data: Seq<u8>) -> (DumpState, Seq<u8>) {
    let p = prime(s);
    let f = feed(step, p.0, data);
    (f.0, p.1 + f.1)
}

/// What `finish` writes: a line that holds units is closed with the mode's
/// `marker` (which ends in a newline) and gets no label after it; when the
/// line holds no units only the newline is written after its label.
pub open spec fn finish_output(s: DumpState, marker: Seq<u8>) -> Seq<u8> {
    if s.pos > 0 {
        s.pending + marker
    } else {
        s.pending + seq![0x0au8]
    }
}

/// The state after `finish`.
pub open spec fn finished(s: DumpState) -> DumpState {
    DumpState { pending: seq![], ..s }
}

/// The marker that closes a line in binary and text mode: `" |\n"`.
pub open spec fn line_end() -> Seq<u8> {
    seq![0x20u8, 0x7cu8, 0x0au8]
}

/// The paint of a byte: green for a highlighted space, else by class when
/// color is on, else none.
pub open spec fn unit_paint(cfg: DumpConfig, b: u8) -> Paint {
    if cfg.space_highlight && b == 0x20 {
        Paint::Green
    } else if cfg.color_enabled {
        class_paint(byte_class(b))
    } else {
        Paint::Plain
    }
}

/// The line buffer's size for a line length: room for the worst-case colored
/// line and its closing marker, and for a label.
pub open spec fn line_capacity(n: nat) -> nat {
    24 * n + 24
}

/// The number of bytes a call may consume without the offset overflowing.
pub open spec fn has_room(s: DumpState, n: nat) -> bool {
    s.offset + s.pos + 8 * n <= usize::MAX
}

/// The state and storage common to the three engines.
pub(crate) struct LineCore {
    pub(crate) config: DumpConfig,
    pub(crate) line_buf: LineBuffer,
    pub(crate) offset: usize,
    pub(crate) pos: usize,
    pub(crate) line_bytes: usize,
    pub(crate) started: bool,
}

impl LineCore {
    /// The abstract state the fields stand for.
    pub(crate) open spec fn state(&self) -> DumpState {
        DumpState {
            offset: self.offset as nat,
            pos: self.pos as nat,
            line_bytes: self.line_bytes as nat,
            started: self.started,
            pending: self.line_buf@,
        }
    }

    /// The part of the invariant that all modes share: the buffer is sized
    /// for the line length, and nothing is staged before the first label.
    pub(crate) open spec fn inv(&self) -> bool {
        &&& self.config.valid()
        &&& self.line_buf.wf()
        &&& self.line_buf.capacity() == line_capacity(self.config.bytes_per_line as nat)
        &&& self.line_bytes <= self.pos
        &&& self.offset + self.pos <= usize::MAX
        &&& !self.started ==> self.line_buf@.len() == 0 && self.pos == 0
    }

    /// A fresh core with a buffer sized for the configured line length.
    pub(crate) fn new(config: DumpConfig) -> (r: Self)
        requires
            config.valid(),
        ensures
            r.inv(),
            r.config == config,
            r.state() == start_state(),
    {
        let cap = 24 * config.bytes_per_line + 24;
        LineCore {
            config,
            line_buf: LineBuffer::with_capacity(cap),
            offset: 0,
            pos: 0,
            line_bytes: 0,
            started: false,
        }
    }

    /// Writes the staged bytes out and empties the buffer.
    pub(crate) fn flush(&mut self, out: &mut Vec<u8>)
        requires
            old(self).inv(),
        ensures
            final(self).inv(),
            final(self).config == old(self).config,
            final(self).state() == (DumpState { pending: seq![], ..old(self).state() }),
            final(out)@ == old(out)@ + old(self).line_buf@,
    {
        let staged = self.line_buf.as_slice();
        let n = staged.len();
        let mut i: usize = 0;
        while i < n
            invariant
                i <= n,
                n == staged@.len(),
                staged@ == self.line_buf@,
                out@ == old(out)@ + staged@.subrange(0, i as int),
            decreases n - i,
        {
            out.push(staged[i]);
            assert(staged@.subrange(0, i + 1) =~= staged@.subrange(0, i as int).push(staged@[i as int]));
            i += 1;
        }
        assert(staged@.subrange(0, n as int) =~= staged@);
        self.line_buf.reset();
    }

    /// Stages the seven offset digits.
    pub(crate) fn push_offset_hex(&mut self)
        requires
            old(self).inv(),
            old(self).started,
            old(self).line_buf@.len() + 7 <= old(self).line_buf.capacity(),
        ensures
            final(self).inv(),
            final(self).config == old(self).config,
            final(self).state() == (DumpState {
                pending: old(self).line_buf@ + offset_digits(old(self).offset as nat),
                ..old(self).state()
            }),
    {
        let off = self.offset;
        self.line_buf.push(hex_digit_char(((off / 0x1000000) % 16) as u8));
        self.line_buf.push(hex_digit_char(((off / 0x100000) % 16) as u8));
        self.line_buf.push(hex_digit_char(((off / 0x10000) % 16) as u8));
        self.line_buf.push(hex_digit_char(((off / 0x1000) % 16) as u8));
        self.line_buf.push(hex_digit_char(((off / 0x100) % 16) as u8));
        self.line_buf.push(hex_digit_char(((off / 0x10) % 16) as u8));
        self.line_buf.push(hex_digit_char((off % 16) as u8));
        assert(self.line_buf@ =~= old(self).line_buf@ + offset_digits(off as nat));
    }

    /// Writes the label of the current offset; the buffer must be empty.
    pub(crate) fn write_offset(&mut self, tables: &ByteTables, out: &mut Vec<u8>)
        requires
            tables.wf(),
            old(self).inv(),
            old(self).started,
            old(self).line_buf@.len() == 0,
        ensures
            final(self).inv(),
            final(self).config == old(self).config,
            final(self).state() == old(self).state(),
            final(out)@ == old(out)@ + offset_label(old(self).offset as nat),
    {
        self.line_buf.extend(tables.paint(Paint::Gray));
        self.push_offset_hex();
        self.line_buf.extend(tables.reset());
        self.line_buf.push(0x7cu8);
        self.line_buf.push(0x20u8);
        assert(self.line_buf@ =~= offset_label(self.offset as nat));
        self.flush(out);
        assert(self.state() =~= old(self).state());
    }

    /// Closes the current line with `tail` and writes the next label.
    pub(crate) fn end_line(&mut self, tables: &ByteTables, tail: &[u8], out: &mut Vec<u8>)
        requires
            tables.wf(),
            old(self).inv(),
            old(self).started,
            old(self).line_buf@.len() + tail@.len() <= old(self).line_buf.capacity(),
            old(self).offset + old(self).line_bytes <= usize::MAX,
        ensures
            final(self).inv(),
            final(self).config == old(self).config,
            final(self).state() == close_line(old(self).state(), tail@).0,
            final(out)@ == old(out)@ + close_line(old(self).state(), tail@).1,
    {
        self.line_buf.extend(tail);
        self.flush(out);
        self.offset = self.offset + self.line_bytes;
        self.pos = 0;
        self.line_bytes = 0;
        self.write_offset(tables, out);
        let ghost s = old(self).state();
        assert(out@ =~= old(out)@ + (s.pending + tail@ + offset_label(s.offset + s.line_bytes)));
        assert(self.state() =~= close_line(s, tail@).0);
    }

    /// Closes a line that holds units with `marker`, or ends the empty line
    /// with a newline.
    pub(crate) fn finish_line(&mut self, marker: &[u8], out: &mut Vec<u8>)
        requires
            old(self).inv(),
            old(self).line_buf@.len() + marker@.len() <= old(self).line_buf.capacity(),
        ensures
            final(self).inv(),
            final(self).config == old(self).config,
            final(self).state() == finished(old(self).state()),
            final(out)@ == old(out)@ + finish_output(old(self).state(), marker@),
    {
        if self.pos > 0 {
            self.line_buf.extend(marker);
            self.flush(out);
        } else {
            self.flush(out);
            out.push(0x0au8);
        }
        assert(self.state() =~= finished(old(self).state()));
        assert(out@ =~= old(out)@ + finish_output(old(self).state(), marker@));
    }

    /// The paint of a byte under this run's configuration.
    pub(crate) fn paint_for(&self, tables: &ByteTables, b: u8) -> (r: Paint)
        requires
            tables.wf(),
        ensures
            r == unit_paint(self.config, b),
    {
        if self.config.space_highlight && b == 0x20 {
            Paint::Green
        } else if self.config.color_enabled {
            match tables.class(b) {
                ByteClass::Null => Paint::Gray,
                ByteClass::Control => Paint::Red,
                ByteClass::Printable => Paint::Plain,
                ByteClass::Extended => Paint::Orange,
            }
        } else {
            Paint::Plain
        }
    }
}

/// Stages one unit's body in a paint.
pub(crate) fn stage_unit(buf: &mut LineBuffer, tables: &ByteTables, p: Paint, body: &[u8])
    requires
        tables.wf(),
        old(buf).wf(),
        old(buf)@.len() + body@.len() + 15 <= old(buf).capacity(),
    ensures
        final(buf).wf(),
        final(buf).capacity() == old(buf).capacity(),
        final(buf)@ == old(buf)@ + painted(p, body@),
{
    match p {
        Paint::Plain => {
            buf.extend(body);
        },
        _ => {
            buf.extend(tables.paint(p));
            buf.extend(body);
            buf.extend(tables.reset());
        },
    }
    assert(buf@ =~= old(buf)@ + painted(p, body@));
}

} // verus!
