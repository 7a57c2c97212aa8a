//! Properties of the dump that relate several calls or hold of every input.

use vstd::prelude::*;
use vstd::arithmetic::div_mod::lemma_fundamental_div_mod_converse;
use crate::binary::{binary_step, bit_step, whole_bytes};
use crate::config::{DumpConfig, Mode};
use crate::dump::{close_marker, dump_output, mode_step};
use crate::engine::{
    feed, finish_output, line_end, offset_label, prime, run, start_state, DumpState, Step,
};
use crate::hex::{hex_line_end, hex_step, hex_unit};
use crate::tables::{binary_text, escape_text, hex_text};
use crate::text::{text_make_room, text_placed, text_unit, text_width};

verus! {

/// Source bytes accounted for by a state: those of the completed lines and
/// those of the current line.
pub open spec fn consumed(s: DumpState) -> nat {
    s.offset + s.line_bytes
}

/// A transition that never changes whether the first label was written.
pub open spec fn keeps_started(step: Step) -> bool {
    forall|s: DumpState, c: u8| #[trigger] step(s, c).0.started == s.started
}

/// Feeding two pieces one after the other is feeding their concatenation.
pub proof fn lemma_feed_append(step: Step, s: DumpState, a: Seq<u8>, b: Seq<u8>)
    ensures
        feed(step, s, a + b).0 == feed(step, feed(step, s, a).0, b).0,
        feed(step, s, a + b).1 == feed(step, s, a).1 + feed(step, feed(step, s, a).0, b).1,
    decreases b.len(),
{
    if b.len() == 0 {
        assert(a + b =~= a);
        assert(feed(step, s, a).1 + feed(step, feed(step, s, a).0, b).1 =~= feed(step, s, a).1);
    } else {
        lemma_feed_append(step, s, a, b.drop_last());
        assert((a + b).drop_last() =~= a + b.drop_last());
        assert((a + b).last() == b.last());
        let fa = feed(step, s, a);
        let fb = feed(step, fa.0, b.drop_last());
        let st = step(fb.0, b.last());
        assert(fa.1 + fb.1 + st.1 =~= fa.1 + (fb.1 + st.1));
    }
}

proof fn lemma_feed_keeps_started(step: Step, s: DumpState, data: Seq<u8>)
    requires
        keeps_started(step),
    ensures
        feed(step, s, data).0.started == s.started,
    decreases data.len(),
{
    if data.len() > 0 {
        lemma_feed_keeps_started(step, s, data.drop_last());
        let p = feed(step, s, data.drop_last()).0;
        assert(step(p, data.last()).0.started == p.started);
    }
}

proof fn lemma_mode_keeps_started(mode: Mode, cfg: DumpConfig)
    ensures
        keeps_started(mode_step(mode, cfg)),
{
    assert(keeps_started(bit_step(cfg)));
    assert forall|s: DumpState, c: u8| #[trigger]
        mode_step(mode, cfg)(s, c).0.started == s.started by {
        if mode == Mode::Binary && !cfg.color_enabled {
            lemma_feed_keeps_started(bit_step(cfg), s, binary_text(c));
        }
    }
}

/// Splitting the input between two calls of `process` changes neither the
/// bytes written nor the state reached.
pub proof fn lemma_split_input(mode: Mode, cfg: DumpConfig, s: DumpState, a: Seq<u8>, b: Seq<u8>)
    ensures
        run(mode_step(mode, cfg), run(mode_step(mode, cfg), s, a).0, b).0
            == run(mode_step(mode, cfg), s, a + b).0,
        run(mode_step(mode, cfg), s, a).1 + run(mode_step(mode, cfg), run(mode_step(mode, cfg), s, a).0, b).1
            == run(mode_step(mode, cfg), s, a + b).1,
{
    let step = mode_step(mode, cfg);
    let p = prime(s);
    lemma_mode_keeps_started(mode, cfg);
    lemma_feed_keeps_started(step, p.0, a);
    let fa = feed(step, p.0, a);
    assert(prime(fa.0) == (fa.0, Seq::<u8>::empty()));
    lemma_feed_append(step, p.0, a, b);
    let fb = feed(step, fa.0, b);
    assert(Seq::<u8>::empty() + fb.1 =~= fb.1);
    assert(p.1 + fa.1 + (Seq::<u8>::empty() + fb.1) =~= p.1 + (fa.1 + fb.1));
}

/// Between bytes a binary-mode line holds whole bytes only.
pub open spec fn binary_aligned(cfg: DumpConfig, s: DumpState) -> bool {
    &&& s.pos < cfg.bytes_per_line
    &&& s.pos % 8 == 0
    &&& s.line_bytes == s.pos / 8
}

proof fn lemma_aligned_room(q: int, n: int)
    requires
        0 <= q < n,
        q % 8 == 0,
        n % 8 == 0,
    ensures
        q + 8 <= n,
{
    let a = q / 8;
    let c = n / 8;
    assert(q == 8 * a + q % 8) by {
        vstd::arithmetic::div_mod::lemma_fundamental_div_mod(q, 8);
    }
    assert(n == 8 * c + n % 8) by {
        vstd::arithmetic::div_mod::lemma_fundamental_div_mod(n, 8);
    }
    assert(q + 8 <= n) by (nonlinear_arith)
        requires
            q == 8 * a,
            n == 8 * c,
            q < n,
    ;
}

proof fn lemma_bits_of_aligned_byte(cfg: DumpConfig, s: DumpState, bits: Seq<u8>, j: nat)
    requires
        cfg.valid(),
        cfg.bytes_per_line % 8 == 0,
        binary_aligned(cfg, s),
        j <= 8,
        bits.len() == 8,
    ensures
        ({
            let t = feed(bit_step(cfg), s, bits.take(j as int)).0;
            ||| t.offset == s.offset && t.pos == s.pos + j && t.line_bytes == (s.pos + j) / 8
            ||| j == 8 && t.offset == s.offset + (s.pos + 8) / 8 && t.pos == 0 && t.line_bytes == 0
        }),
    decreases j,
{
    if j > 0 {
        let k = (j - 1) as nat;
        lemma_bits_of_aligned_byte(cfg, s, bits, k);
        assert(bits.take(j as int).drop_last() =~= bits.take(k as int));
        lemma_aligned_room(s.pos as int, cfg.bytes_per_line as int);
        let p = feed(bit_step(cfg), s, bits.take(k as int)).0;
        assert(feed(bit_step(cfg), s, bits.take(j as int)).0 == bit_step(cfg)(p, bits[k as int]).0);
    } else {
        assert(bits.take(0) =~= Seq::<u8>::empty());
    }
}

proof fn lemma_binary_byte_counts(cfg: DumpConfig, s: DumpState, b: u8)
    requires
        cfg.valid(),
        whole_bytes(cfg),
        binary_aligned(cfg, s),
    ensures
        binary_aligned(cfg, binary_step(cfg)(s, b).0),
        consumed(binary_step(cfg)(s, b).0) == consumed(s) + 1,
{
    if !cfg.color_enabled {
        lemma_bits_of_aligned_byte(cfg, s, binary_text(b), 8);
        assert(binary_text(b).take(8) =~= binary_text(b));
    }
}

proof fn lemma_feed_counts(mode: Mode, cfg: DumpConfig, s: DumpState, data: Seq<u8>)
    requires
        cfg.valid(),
        mode == Mode::Binary ==> whole_bytes(cfg) && binary_aligned(cfg, s),
    ensures
        consumed(feed(mode_step(mode, cfg), s, data).0) == consumed(s) + data.len(),
        mode == Mode::Binary ==> binary_aligned(cfg, feed(mode_step(mode, cfg), s, data).0),
    decreases data.len(),
{
    if data.len() > 0 {
        lemma_feed_counts(mode, cfg, s, data.drop_last());
        let p = feed(mode_step(mode, cfg), s, data.drop_last()).0;
        if mode == Mode::Binary {
            lemma_binary_byte_counts(cfg, p, data.last());
        }
    }
}

/// The value of a lowercase hex digit character.
pub open spec fn hex_digit_value(c: u8) -> int {
    if c <= 0x39 {
        c - 0x30
    } else {
        c - 87
    }
}

/// Whether a character is a lowercase hex digit.
pub open spec fn is_lower_hex_digit(c: u8) -> bool {
    (0x30 <= c <= 0x39) || (0x61 <= c <= 0x66)
}

/// The renderings of a byte sequence, one unit per byte, in order.
pub open spec fn units(f: spec_fn(u8) -> Seq<u8>, x: Seq<u8>) -> Seq<u8>
    decreases x.len(),
{
    if x.len() == 0 {
        seq![]
    } else {
        units(f, x.drop_last()) + f(x.last())
    }
}

/// Reads a hex text back: every three characters give one byte.
pub open spec fn parse_hex_text(t: Seq<u8>) -> Seq<u8>
    decreases t.len(),
{
    if t.len() < 3 {
        seq![]
    } else {
        let k = t.len() - 3;
        parse_hex_text(t.take(k)) + seq![(16 * hex_digit_value(t[k]) + hex_digit_value(t[k + 1])) as u8]
    }
}

/// The value of a `'0'`/`'1'` character.
pub open spec fn bit_value(c: u8) -> int {
    if c == 0x31 {
        1
    } else {
        0
    }
}

/// Reads a binary text back: every eight characters give one byte.
pub open spec fn parse_binary_text(t: Seq<u8>) -> Seq<u8>
    decreases t.len(),
{
    if t.len() < 8 {
        seq![]
    } else {
        let k = t.len() - 8;
        parse_binary_text(t.take(k)) + seq![
            (128 * bit_value(t[k]) + 64 * bit_value(t[k + 1]) + 32 * bit_value(t[k + 2]) + 16
                * bit_value(t[k + 3]) + 8 * bit_value(t[k + 4]) + 4 * bit_value(t[k + 5]) + 2
                * bit_value(t[k + 6]) + bit_value(t[k + 7])) as u8,
        ]
    }
}

proof fn lemma_hex_text_of_byte(b: u8)
    ensures
        is_lower_hex_digit(hex_text(b)[0]),
        is_lower_hex_digit(hex_text(b)[1]),
        16 * hex_digit_value(hex_text(b)[0]) + hex_digit_value(hex_text(b)[1]) == b,
{
}

proof fn lemma_binary_text_of_byte(b: u8)
    ensures
        128 * bit_value(binary_text(b)[0]) + 64 * bit_value(binary_text(b)[1]) + 32 * bit_value(
            binary_text(b)[2],
        ) + 16 * bit_value(binary_text(b)[3]) + 8 * bit_value(binary_text(b)[4]) + 4 * bit_value(
            binary_text(b)[5],
        ) + 2 * bit_value(binary_text(b)[6]) + bit_value(binary_text(b)[7]) == b,
{
    assert(128 * ((b / 128) % 2) + 64 * ((b / 64) % 2) + 32 * ((b / 32) % 2) + 16 * ((b / 16) % 2)
        + 8 * ((b / 8) % 2) + 4 * ((b / 4) % 2) + 2 * ((b / 2) % 2) + b % 2 == b) by (bit_vector);
}

/// Without color and away from a highlighted space, a byte's hex-mode output
/// is exactly its two lowercase hex digits and a space.
pub proof fn lemma_hex_unit_plain(cfg: DumpConfig, b: u8)
    requires
        !cfg.color_enabled,
        !(cfg.space_highlight && b == 0x20),
    ensures
        hex_unit(cfg, b) == hex_text(b),
        hex_text(b).len() == 3,
        is_lower_hex_digit(hex_text(b)[0]),
        is_lower_hex_digit(hex_text(b)[1]),
        hex_text(b)[2] == 0x20,
{
    lemma_hex_text_of_byte(b);
}

/// Reading the hex text of any byte sequence back gives the sequence.
pub proof fn lemma_hex_round_trip(x: Seq<u8>)
    ensures
        units(|b: u8| hex_text(b), x).len() == 3 * x.len(),
        parse_hex_text(units(|b: u8| hex_text(b), x)) == x,
    decreases x.len(),
{
    let f = |b: u8| hex_text(b);
    if x.len() == 0 {
        assert(parse_hex_text(units(f, x)) =~= x);
    } else {
        lemma_hex_round_trip(x.drop_last());
        let t = units(f, x);
        let k = t.len() - 3;
        assert(t.take(k) =~= units(f, x.drop_last()));
        lemma_hex_text_of_byte(x.last());
        assert(t[k] == hex_text(x.last())[0]);
        assert(t[k + 1] == hex_text(x.last())[1]);
        assert(parse_hex_text(t) =~= x);
    }
}

/// Reading the binary text of any byte sequence back gives the sequence.
pub proof fn lemma_binary_round_trip(x: Seq<u8>)
    ensures
        units(|b: u8| binary_text(b), x).len() == 8 * x.len(),
        parse_binary_text(units(|b: u8| binary_text(b), x)) == x,
    decreases x.len(),
{
    let f = |b: u8| binary_text(b);
    if x.len() == 0 {
        assert(parse_binary_text(units(f, x)) =~= x);
    } else {
        lemma_binary_round_trip(x.drop_last());
        let t = units(f, x);
        let k = t.len() - 8;
        let u = binary_text(x.last());
        assert(t.take(k) =~= units(f, x.drop_last()));
        lemma_binary_text_of_byte(x.last());
        assert(t.skip(k) =~= u);
        assert(t[k] == u[0] && t[k + 1] == u[1] && t[k + 2] == u[2] && t[k + 3] == u[3]);
        assert(t[k + 4] == u[4] && t[k + 5] == u[5] && t[k + 6] == u[6] && t[k + 7] == u[7]);
        assert(parse_binary_text(t) =~= x);
    }
}

/// Text-mode escaping is total over byte values: printable ASCII stands for
/// itself, newline, carriage return, tab and NUL take two-character escapes,
/// every other byte takes `\xHH`.
pub proof fn lemma_escape_forms(b: u8)
    ensures
        0x20 <= b <= 0x7e ==> escape_text(b) == seq![b] && text_width(b) == 1,
        b == 0x0a ==> escape_text(b) == seq![0x5cu8, 0x6eu8],
        b == 0x0d ==> escape_text(b) == seq![0x5cu8, 0x72u8],
        b == 0x09 ==> escape_text(b) == seq![0x5cu8, 0x74u8],
        b == 0 ==> escape_text(b) == seq![0x5cu8, 0x30u8],
        (b == 0x0a || b == 0x0d || b == 0x09 || b == 0) ==> text_width(b) == 2,
        !(0x20 <= b <= 0x7e || b == 0x0a || b == 0x0d || b == 0x09 || b == 0) ==> {
            &&& text_width(b) == 4
            &&& escape_text(b) == seq![0x5cu8, 0x78u8, hex_text(b)[0], hex_text(b)[1]]
        },
{
}

/// No escape is split across two lines: a byte's unit is staged whole, at
/// the start of a line or where its width still fits the line.
pub proof fn lemma_escape_never_split(cfg: DumpConfig, s: DumpState, b: u8)
    requires
        cfg.valid(),
        s.pos < cfg.bytes_per_line,
    ensures
        text_make_room(cfg, s, b).0.pos == 0 || text_make_room(cfg, s, b).0.pos + text_width(b)
            <= cfg.bytes_per_line,
        text_placed(cfg, s, b).pending == text_make_room(cfg, s, b).0.pending + text_unit(cfg, b),
        text_placed(cfg, s, b).pos == text_make_room(cfg, s, b).0.pos + text_width(b),
{
}

proof fn lemma_mod_next(len: int, n: int)
    requires
        len >= 1,
        n >= 1,
    ensures
        (len - 1) % n + 1 == n ==> len % n == 0,
        (len - 1) % n + 1 < n ==> len % n == (len - 1) % n + 1,
        (len - 1) % n + 1 <= n,
{
    let q = (len - 1) / n;
    let r = (len - 1) % n;
    vstd::arithmetic::div_mod::lemma_fundamental_div_mod(len - 1, n);
    assert(0 <= r < n) by {
        vstd::arithmetic::div_mod::lemma_mod_bound(len - 1, n);
    }
    if r + 1 == n {
        assert(len == (q + 1) * n + 0) by (nonlinear_arith)
            requires
                len - 1 == n * q + r,
                r + 1 == n,
        ;
        lemma_fundamental_div_mod_converse(len, n, q + 1, 0);
    } else {
        assert(len == q * n + (r + 1)) by (nonlinear_arith)
            requires
                len - 1 == n * q + r,
        ;
        lemma_fundamental_div_mod_converse(len, n, q, r + 1);
    }
}

proof fn lemma_hex_feed_shape(cfg: DumpConfig, data: Seq<u8>)
    requires
        cfg.valid(),
    ensures
        ({
            let s = feed(hex_step(cfg), prime(start_state()).0, data).0;
            let len = data.len() as int;
            let n = cfg.bytes_per_line as int;
            &&& s.pos == len % n
            &&& s.line_bytes == s.pos
            &&& s.offset == len - len % n
            &&& s.pending == units(|b: u8| hex_unit(cfg, b), data.skip(len - len % n))
        }),
    decreases data.len(),
{
    let f = |b: u8| hex_unit(cfg, b);
    let n = cfg.bytes_per_line as int;
    let len = data.len() as int;
    if data.len() == 0 {
        assert(data.skip(0) =~= Seq::<u8>::empty());
    } else {
        lemma_hex_feed_shape(cfg, data.drop_last());
        lemma_mod_next(len, n);
        let prev = feed(hex_step(cfg), prime(start_state()).0, data.drop_last()).0;
        let off = prev.offset as int;
        assert(data.skip(off).drop_last() =~= data.drop_last().skip(off));
        assert(data.skip(off).last() == data.last());
        if (len - 1) % n + 1 == n {
            assert(data.skip(len) =~= Seq::<u8>::empty());
        }
    }
}

/// At the end of any hex-mode input the current line holds exactly the last
/// `len % bytes_per_line` bytes and the offset counts all the others. So when
/// the length is a multiple of `bytes_per_line` nothing is pending and
/// `finish` adds only the newline after the label already written, with no
/// empty closed line; otherwise `finish` writes the partial line closed by
/// `"|\n"`, with no further label.
pub proof fn lemma_hex_final_line(cfg: DumpConfig, data: Seq<u8>)
    requires
        cfg.valid(),
    ensures
        ({
            let s = run(hex_step(cfg), start_state(), data).0;
            let len = data.len() as int;
            let n = cfg.bytes_per_line as int;
            &&& s.pos == len % n
            &&& s.offset == len - len % n
            &&& s.pending == units(|b: u8| hex_unit(cfg, b), data.skip(len - len % n))
            &&& len % n == 0 ==> finish_output(s, hex_line_end()) == seq![0x0au8]
            &&& len % n != 0 ==> finish_output(s, hex_line_end()) == s.pending + hex_line_end()
        }),
{
    lemma_hex_feed_shape(cfg, data);
    let len = data.len() as int;
    let n = cfg.bytes_per_line as int;
    if len % n == 0 {
        assert(data.skip(len) =~= Seq::<u8>::empty());
    }
}

/// The hex-mode output after the first label, for input `x` starting at
/// offset `off`: each full line of `bytes_per_line` units closed by `"|\n"`
/// and followed by the next label, then the partial line and a newline.
pub open spec fn hex_body(cfg: DumpConfig, x: Seq<u8>, off: nat) -> Seq<u8>
    decreases x.len(),
{
    let n = cfg.bytes_per_line as int;
    if n <= 0 || x.len() < n {
        if x.len() == 0 {
            seq![0x0au8]
        } else {
            units(|b: u8| hex_unit(cfg, b), x) + hex_line_end()
        }
    } else {
        units(|b: u8| hex_unit(cfg, b), x.take(n)) + hex_line_end() + offset_label(
            off + n as nat,
        ) + hex_body(cfg, x.skip(n), off + n as nat)
    }
}

/// A state at the start of a line at offset `off`, after the first label.
pub open spec fn line_start(off: nat) -> DumpState {
    DumpState { offset: off, pos: 0, line_bytes: 0, started: true, pending: seq![] }
}

proof fn lemma_hex_partial_line(cfg: DumpConfig, off: nat, y: Seq<u8>)
    requires
        cfg.valid(),
        y.len() < cfg.bytes_per_line,
    ensures
        feed(hex_step(cfg), line_start(off), y).1 == Seq::<u8>::empty(),
        feed(hex_step(cfg), line_start(off), y).0 == (DumpState {
            offset: off,
            pos: y.len(),
            line_bytes: y.len(),
            started: true,
            pending: units(|b: u8| hex_unit(cfg, b), y),
        }),
    decreases y.len(),
{
    if y.len() > 0 {
        lemma_hex_partial_line(cfg, off, y.drop_last());
        assert(Seq::<u8>::empty() + Seq::<u8>::empty() =~= Seq::<u8>::empty());
    }
}

proof fn lemma_hex_body(cfg: DumpConfig, off: nat, x: Seq<u8>)
    requires
        cfg.valid(),
    ensures
        feed(hex_step(cfg), line_start(off), x).1 + finish_output(
            feed(hex_step(cfg), line_start(off), x).0,
            hex_line_end(),
        )
            == hex_body(cfg, x, off),
    decreases x.len(),
{
    let n = cfg.bytes_per_line as int;
    let f = |b: u8| hex_unit(cfg, b);
    let step = hex_step(cfg);
    if x.len() < n {
        lemma_hex_partial_line(cfg, off, x);
        if x.len() == 0 {
            assert(Seq::<u8>::empty() + seq![0x0au8] =~= seq![0x0au8]);
        } else {
            assert(Seq::<u8>::empty() + (units(f, x) + hex_line_end()) =~= units(f, x) + hex_line_end());
        }
    } else {
        let y = x.take(n);
        let z = x.skip(n);
        assert(x =~= y + z);
        lemma_feed_append(step, line_start(off), y, z);
        lemma_hex_partial_line(cfg, off, y.drop_last());
        assert(units(f, y) == units(f, y.drop_last()) + f(y.last()));
        let fy = feed(step, line_start(off), y);
        assert(fy.0 == line_start(off + n as nat));
        assert(fy.1 =~= units(f, y) + hex_line_end() + offset_label(off + n as nat));
        lemma_hex_body(cfg, off + n as nat, z);
        let fz = feed(step, fy.0, z);
        assert(fy.1 + fz.1 + finish_output(fz.0, hex_line_end()) =~= fy.1 + (fz.1 + finish_output(
            fz.0,
            hex_line_end(),
        )));
    }
}

/// The whole hex-mode output of an input: the label of offset zero, every
/// full line of `bytes_per_line` byte units closed by `"|\n"` and followed by
/// the label of the next offset, then the partial line and a newline.
pub proof fn lemma_hex_document(cfg: DumpConfig, data: Seq<u8>)
    requires
        cfg.valid(),
    ensures
        dump_output(Mode::Hex, cfg, data) == offset_label(0) + hex_body(cfg, data, 0),
{
    assert(prime(start_state()).0 == line_start(0));
    lemma_hex_body(cfg, 0, data);
    let r = feed(hex_step(cfg), line_start(0), data);
    assert(offset_label(0) + r.1 + finish_output(r.0, hex_line_end()) =~= offset_label(0) + (r.1
        + finish_output(r.0, hex_line_end())));
}

/// The chunks joined in order.
pub open spec fn join_chunks(chunks: Seq<Seq<u8>>) -> Seq<u8>
    decreases chunks.len(),
{
    if chunks.len() == 0 {
        seq![]
    } else {
        join_chunks(chunks.drop_last()) + chunks.last()
    }
}

/// One call of `process` per chunk, in order: the final state and
/// everything written.
pub open spec fn run_chunks(step: Step, s: DumpState, chunks: Seq<Seq<u8>>) -> (DumpState, Seq<u8>)
    decreases chunks.len(),
{
    if chunks.len() == 0 {
        (s, seq![])
    } else {
        let prev = run_chunks(step, s, chunks.drop_last());
        let next = run(step, prev.0, chunks.last());
        (next.0, prev.1 + next.1)
    }
}

/// However an input is cut into chunks, one call of `process` per chunk
/// writes the same bytes and reaches the same state as one call with the
/// whole input (a call with no bytes still writes the first label).
pub proof fn lemma_chunks_join(mode: Mode, cfg: DumpConfig, s: DumpState, chunks: Seq<Seq<u8>>)
    requires
        chunks.len() > 0,
    ensures
        run_chunks(mode_step(mode, cfg), s, chunks) == run(mode_step(mode, cfg), s, join_chunks(chunks)),
    decreases chunks.len(),
{
    let step = mode_step(mode, cfg);
    let init = chunks.drop_last();
    let last = chunks.last();
    if chunks.len() == 1 {
        assert(join_chunks(init) == Seq::<u8>::empty());
        assert(run_chunks(step, s, init) == (s, Seq::<u8>::empty()));
        assert(join_chunks(chunks) =~= last);
        let r = run(step, s, last);
        assert(Seq::<u8>::empty() + r.1 =~= r.1);
    } else {
        lemma_chunks_join(mode, cfg, s, init);
        lemma_split_input(mode, cfg, s, join_chunks(init), last);
        assert(join_chunks(chunks) == join_chunks(init) + last);
    }
}

/// The offset advances by exactly the bytes consumed for any cutting of the
/// input into chunks: after one `process` call per chunk on a fresh engine,
/// the offset plus the bytes of the current line is the total length. In
/// binary mode this needs lines of whole bytes.
pub proof fn lemma_offset_counts_chunks(mode: Mode, cfg: DumpConfig, chunks: Seq<Seq<u8>>)
    requires
        cfg.valid(),
        mode == Mode::Binary ==> whole_bytes(cfg),
        chunks.len() > 0,
    ensures
        consumed(run_chunks(mode_step(mode, cfg), start_state(), chunks).0) == join_chunks(chunks).len(),
{
    lemma_chunks_join(mode, cfg, start_state(), chunks);
    lemma_feed_counts(mode, cfg, prime(start_state()).0, join_chunks(chunks));
}

/// A whole dump is the same for any cutting of the input into chunks, so
/// the same input and configuration always give byte-identical output.
pub proof fn lemma_dump_chunks(mode: Mode, cfg: DumpConfig, chunks: Seq<Seq<u8>>)
    requires
        chunks.len() > 0,
    ensures
        ({
            let r = run_chunks(mode_step(mode, cfg), start_state(), chunks);
            r.1 + finish_output(r.0, close_marker(mode))
        }) == dump_output(mode, cfg, join_chunks(chunks)),
{
    lemma_chunks_join(mode, cfg, start_state(), chunks);
}

/// Reads the lines of a hex-mode output back, after its first label: a full
/// line is `3 * n` characters of units, `"|\n"` and an 18-byte label; the
/// last line is its units and `"|\n"`, or a lone newline.
pub open spec fn parse_hex_lines(n: nat, t: Seq<u8>) -> Seq<u8>
    decreases t.len(),
{
    if n > 0 && t.len() >= 3 * n + 20 {
        parse_hex_text(t.take(3 * n as int)) + parse_hex_lines(n, t.skip((3 * n + 20) as int))
    } else if t.len() <= 1 {
        seq![]
    } else {
        parse_hex_text(t.take(t.len() - 2))
    }
}

/// Reads a whole hex-mode output back into bytes: the first label is skipped
/// and every line is read with `parse_hex_lines`.
pub open spec fn parse_hex_output(n: nat, t: Seq<u8>) -> Seq<u8> {
    parse_hex_lines(n, t.skip(18))
}

proof fn lemma_parse_hex_body(cfg: DumpConfig, x: Seq<u8>, off: nat)
    requires
        cfg.valid(),
        !cfg.color_enabled,
        !cfg.space_highlight,
    ensures
        parse_hex_lines(cfg.bytes_per_line as nat, hex_body(cfg, x, off)) == x,
    decreases x.len(),
{
    let n = cfg.bytes_per_line as nat;
    let f = |b: u8| hex_unit(cfg, b);
    let g = |b: u8| hex_text(b);
    assert(f =~= g);
    let t = hex_body(cfg, x, off);
    if x.len() < n {
        if x.len() > 0 {
            lemma_hex_round_trip(x);
            assert(t.take(t.len() - 2) =~= units(g, x));
        } else {
            assert(parse_hex_lines(n, t) =~= x);
        }
    } else {
        let y = x.take(n as int);
        let z = x.skip(n as int);
        lemma_hex_round_trip(y);
        let rest = hex_body(cfg, z, off + n);
        assert(rest.len() >= 1) by {
            reveal_with_fuel(hex_body, 1);
        }
        assert(offset_label(off + n).len() == 18);
        assert(t.take(3 * n as int) =~= units(g, y));
        assert(t.skip((3 * n + 20) as int) =~= rest);
        lemma_parse_hex_body(cfg, z, off + n);
        assert(x =~= y + z);
    }
}

/// Reading a plain hex-mode dump back gives the input: every byte appears
/// as its two hex digits, in order, and nothing else is read as a unit.
pub proof fn lemma_hex_output_round_trip(cfg: DumpConfig, data: Seq<u8>)
    requires
        cfg.valid(),
        !cfg.color_enabled,
        !cfg.space_highlight,
    ensures
        parse_hex_output(cfg.bytes_per_line as nat, dump_output(Mode::Hex, cfg, data)) == data,
{
    lemma_hex_document(cfg, data);
    let t = dump_output(Mode::Hex, cfg, data);
    assert(offset_label(0).len() == 18);
    assert(t.skip(18) =~= hex_body(cfg, data, 0));
    lemma_parse_hex_body(cfg, data, 0);
}

/// Without color, feeding bytes in binary mode is feeding their bit
/// characters one by one.
proof fn lemma_binary_plain_bits(cfg: DumpConfig, s: DumpState, data: Seq<u8>)
    requires
        !cfg.color_enabled,
    ensures
        feed(binary_step(cfg), s, data) == feed(bit_step(cfg), s, units(|b: u8| binary_text(b), data)),
    decreases data.len(),
{
    if data.len() > 0 {
        let g = |b: u8| binary_text(b);
        lemma_binary_plain_bits(cfg, s, data.drop_last());
        lemma_feed_append(bit_step(cfg), s, units(g, data.drop_last()), binary_text(data.last()));
        let p = feed(binary_step(cfg), s, data.drop_last());
        let q = feed(bit_step(cfg), p.0, binary_text(data.last()));
        assert(binary_step(cfg)(p.0, data.last()) == q);
    }
}

/// The binary-mode output after the first label, for the bit characters `x`
/// starting at offset `off`, without color: each full line of
/// `bytes_per_line` bits closed by `" |\n"` and followed by the label of the
/// offset advanced by the line's whole bytes, then the partial line closed by
/// `" |\n"`, or only a newline when no bits are left.
pub open spec fn binary_body(n: nat, x: Seq<u8>, off: nat) -> Seq<u8>
    decreases x.len(),
{
    if n == 0 || x.len() < n {
        if x.len() == 0 {
            seq![0x0au8]
        } else {
            x + line_end()
        }
    } else {
        x.take(n as int) + line_end() + offset_label(off + n / 8) + binary_body(n, x.skip(n as int), off + n / 8)
    }
}

proof fn lemma_bit_partial_line(cfg: DumpConfig, off: nat, y: Seq<u8>)
    requires
        cfg.valid(),
        y.len() < cfg.bytes_per_line,
    ensures
        feed(bit_step(cfg), line_start(off), y).1 == Seq::<u8>::empty(),
        feed(bit_step(cfg), line_start(off), y).0 == (DumpState {
            offset: off,
            pos: y.len(),
            line_bytes: y.len() / 8,
            started: true,
            pending: y,
        }),
    decreases y.len(),
{
    if y.len() > 0 {
        lemma_bit_partial_line(cfg, off, y.drop_last());
        assert(Seq::<u8>::empty() + Seq::<u8>::empty() =~= Seq::<u8>::empty());
        assert(y.drop_last().push(y.last()) =~= y);
    } else {
        assert(y =~= Seq::<u8>::empty());
    }
}

proof fn lemma_bit_body(cfg: DumpConfig, off: nat, x: Seq<u8>)
    requires
        cfg.valid(),
    ensures
        feed(bit_step(cfg), line_start(off), x).1 + finish_output(
            feed(bit_step(cfg), line_start(off), x).0,
            line_end(),
        ) == binary_body(cfg.bytes_per_line as nat, x, off),
    decreases x.len(),
{
    let n = cfg.bytes_per_line as nat;
    let step = bit_step(cfg);
    if x.len() < n {
        lemma_bit_partial_line(cfg, off, x);
        if x.len() == 0 {
            assert(Seq::<u8>::empty() + seq![0x0au8] =~= seq![0x0au8]);
        } else {
            assert(Seq::<u8>::empty() + (x + line_end()) =~= x + line_end());
        }
    } else {
        let y = x.take(n as int);
        let z = x.skip(n as int);
        assert(x =~= y + z);
        lemma_feed_append(step, line_start(off), y, z);
        lemma_bit_partial_line(cfg, off, y.drop_last());
        assert(y.drop_last().push(y.last()) =~= y);
        let fy = feed(step, line_start(off), y);
        assert(fy.0 == line_start(off + n / 8));
        assert(fy.1 =~= y + line_end() + offset_label(off + n / 8));
        lemma_bit_body(cfg, off + n / 8, z);
        let fz = feed(step, fy.0, z);
        assert(fy.1 + fz.1 + finish_output(fz.0, line_end()) =~= fy.1 + (fz.1 + finish_output(
            fz.0,
            line_end(),
        )));
    }
}

/// The whole binary-mode output of an input without color: the label of
/// offset zero followed by the lines of the input's bit characters.
pub proof fn lemma_binary_document(cfg: DumpConfig, data: Seq<u8>)
    requires
        cfg.valid(),
        !cfg.color_enabled,
    ensures
        dump_output(Mode::Binary, cfg, data) == offset_label(0) + binary_body(
            cfg.bytes_per_line as nat,
            units(|b: u8| binary_text(b), data),
            0,
        ),
{
    let bits = units(|b: u8| binary_text(b), data);
    assert(prime(start_state()).0 == line_start(0));
    lemma_binary_plain_bits(cfg, line_start(0), data);
    lemma_bit_body(cfg, 0, bits);
    let r = feed(bit_step(cfg), line_start(0), bits);
    assert(offset_label(0) + r.1 + finish_output(r.0, line_end()) =~= offset_label(0) + (r.1
        + finish_output(r.0, line_end())));
}

/// Collects the bit characters of a binary-mode output after its first
/// label: a full line is `n` bits, `" |\n"` and an 18-byte label; the last
/// line is its bits and `" |\n"`, or a lone newline.
pub open spec fn collect_bits(n: nat, t: Seq<u8>) -> Seq<u8>
    decreases t.len(),
{
    if n > 0 && t.len() >= n + 21 {
        t.take(n as int) + collect_bits(n, t.skip((n + 21) as int))
    } else if t.len() <= 1 {
        seq![]
    } else {
        t.take(t.len() - 3)
    }
}

/// Reads a whole binary-mode output back into bytes: the first label is
/// skipped, the bits of every line are collected and read eight at a time.
pub open spec fn parse_binary_output(n: nat, t: Seq<u8>) -> Seq<u8> {
    parse_binary_text(collect_bits(n, t.skip(18)))
}

proof fn lemma_collect_bits(n: nat, x: Seq<u8>, off: nat)
    requires
        n > 0,
    ensures
        collect_bits(n, binary_body(n, x, off)) == x,
    decreases x.len(),
{
    let t = binary_body(n, x, off);
    if x.len() < n {
        if x.len() > 0 {
            assert(t.take(t.len() - 3) =~= x);
        } else {
            assert(collect_bits(n, t) =~= x);
        }
    } else {
        let y = x.take(n as int);
        let z = x.skip(n as int);
        let rest = binary_body(n, z, off + n / 8);
        assert(rest.len() >= 1) by {
            reveal_with_fuel(binary_body, 1);
        }
        assert(offset_label(off + n / 8).len() == 18);
        assert(t.take(n as int) =~= y);
        assert(t.skip((n + 21) as int) =~= rest);
        lemma_collect_bits(n, z, off + n / 8);
        assert(x =~= y + z);
    }
}

/// Reading a binary-mode dump without color back gives the input: the bit
/// characters of all lines, in order, are the eight-bit texts of the bytes.
pub proof fn lemma_binary_output_round_trip(cfg: DumpConfig, data: Seq<u8>)
    requires
        cfg.valid(),
        !cfg.color_enabled,
    ensures
        parse_binary_output(cfg.bytes_per_line as nat, dump_output(Mode::Binary, cfg, data)) == data,
{
    let bits = units(|b: u8| binary_text(b), data);
    lemma_binary_document(cfg, data);
    let t = dump_output(Mode::Binary, cfg, data);
    assert(offset_label(0).len() == 18);
    assert(t.skip(18) =~= binary_body(cfg.bytes_per_line as nat, bits, 0));
    lemma_collect_bits(cfg.bytes_per_line as nat, bits, 0);
    lemma_binary_round_trip(data);
}

} // verus!
