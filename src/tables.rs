//! Per-byte renderings: hex text, binary text, byte classes, text escapes and
//! the ANSI color codes that decorate them.

use vstd::prelude::*;

verus! {

/// Classification of a byte value, used to pick a color.
#[derive(Clone, Copy, Debug, PartialEq, Eq, Structural)]
pub enum ByteClass {
    Null,
    Control,
    Printable,
    Extended,
}

/// The ASCII character of a hexadecimal digit, lowercase.
pub open spec fn hex_digit(n: nat) -> u8
    recommends
        n < 16,
{
    if n < 10 {
        (48 + n) as u8
    } else {
        (87 + n) as u8
    }
}

/// Two lowercase hex digits of `b` followed by a space.
pub open spec fn hex_text(b: u8) -> Seq<u8> {
    seq![hex_digit((b / 16) as nat), hex_digit((b % 16) as nat), 0x20u8]
}

/// The ASCII character for one bit.
pub open spec fn bit_char(bit: nat) -> u8 {
    if bit == 1 {
        0x31u8
    } else {
        0x30u8
    }
}

/// Eight `'0'`/`'1'` characters, most significant bit first.
pub open spec fn binary_text(b: u8) -> Seq<u8> {
    seq![
        bit_char(((b / 128) % 2) as nat),
        bit_char(((b / 64) % 2) as nat),
        bit_char(((b / 32) % 2) as nat),
        bit_char(((b / 16) % 2) as nat),
        bit_char(((b / 8) % 2) as nat),
        bit_char(((b / 4) % 2) as nat),
        bit_char(((b / 2) % 2) as nat),
        bit_char((b % 2) as nat),
    ]
}

/// The class of a byte value.
pub open spec fn byte_class(b: u8) -> ByteClass {
    if b == 0 {
        ByteClass::Null
    } else if b < 0x20 || b == 0x7f {
        ByteClass::Control
    } else if b < 0x7f {
        ByteClass::Printable
    } else {
        ByteClass::Extended
    }
}

/// The escaped form of a byte in text mode: printable ASCII as itself, the
/// common escapes `\n`, `\r`, `\t`, `\0`, and `\xHH` for every other byte.
pub open spec fn escape_text(b: u8) -> Seq<u8> {
    if 0x20 <= b && b <= 0x7e {
        seq![b]
    } else if b == 0x0a {
        seq![0x5cu8, 0x6eu8]
    } else if b == 0x0d {
        seq![0x5cu8, 0x72u8]
    } else if b == 0x09 {
        seq![0x5cu8, 0x74u8]
    } else if b == 0 {
        seq![0x5cu8, 0x30u8]
    } else {
        seq![0x5cu8, 0x78u8, hex_digit((b / 16) as nat), hex_digit((b % 16) as nat)]
    }
}

/// Computes one hex digit character.
pub fn hex_digit_char(n: u8) -> (r: u8)
    requires
        n < 16,
    ensures
        r == hex_digit(n as nat),
{
    if n < 10 {
        48 + n
    } else {
        87 + n
    }
}

/// Computes the class of a byte value.
pub fn classify(b: u8) -> (r: ByteClass)
    ensures
        r == byte_class(b),
{
    if b == 0 {
        ByteClass::Null
    } else if b < 0x20 || b == 0x7f {
        ByteClass::Control
    } else if b < 0x7f {
        ByteClass::Printable
    } else {
        ByteClass::Extended
    }
}

/// A color decoration applied to one rendered unit.
#[derive(Clone, Copy, Debug, PartialEq, Eq, Structural)]
pub enum Paint {
    Plain,
    Gray,
    Red,
    Green,
    Orange,
}

/// The ANSI escape that switches to a paint (empty for `Plain`).
pub open spec fn paint_code(p: Paint) -> Seq<u8> {
    match p {
        Paint::Plain => seq![],
        Paint::Gray => seq![0x1bu8, 0x5bu8, 0x39u8, 0x30u8, 0x6du8],
        Paint::Red => seq![0x1bu8, 0x5bu8, 0x39u8, 0x31u8, 0x6du8],
        Paint::Green => seq![0x1bu8, 0x5bu8, 0x33u8, 0x32u8, 0x6du8],
        Paint::Orange => seq![
            0x1bu8, 0x5bu8, 0x33u8, 0x38u8, 0x3bu8, 0x35u8, 0x3bu8, 0x31u8, 0x33u8, 0x30u8, 0x6du8,
        ],
    }
}

/// The ANSI escape that resets all attributes.
pub open spec fn reset_code() -> Seq<u8> {
    seq![0x1bu8, 0x5bu8, 0x30u8, 0x6du8]
}

/// `body` wrapped in a paint: unchanged for `Plain`, else code, body, reset.
pub open spec fn painted(p: Paint, body: Seq<u8>) -> Seq<u8> {
    if p == Paint::Plain {
        body
    } else {
        paint_code(p) + body + reset_code()
    }
}

/// The paint of a byte class in color mode.
pub open spec fn class_paint(c: ByteClass) -> Paint {
    match c {
        ByteClass::Null => Paint::Gray,
        ByteClass::Control => Paint::Red,
        ByteClass::Printable => Paint::Plain,
        ByteClass::Extended => Paint::Orange,
    }
}

fn hex_entry(b: u8) -> (r: Vec<u8>)
    ensures
        r@ == hex_text(b),
{
    vec![hex_digit_char(b / 16), hex_digit_char(b % 16), 0x20u8]
}

fn bit_entry(b: u8, d: u8) -> (r: u8)
    requires
        d > 0,
    ensures
        r == bit_char(((b / d) % 2) as nat),
{
    if (b / d) % 2 == 1 {
        0x31u8
    } else {
        0x30u8
    }
}

fn binary_entry(b: u8) -> (r: Vec<u8>)
    ensures
        r@ == binary_text(b),
{
    vec![
        bit_entry(b, 128),
        bit_entry(b, 64),
        bit_entry(b, 32),
        bit_entry(b, 16),
        bit_entry(b, 8),
        bit_entry(b, 4),
        bit_entry(b, 2),
        bit_entry(b, 1),
    ]
}

fn escape_entry(b: u8) -> (r: Vec<u8>)
    ensures
        r@ == escape_text(b),
{
    if 0x20 <= b && b <= 0x7e {
        vec![b]
    } else if b == 0x0a {
        vec![0x5cu8, 0x6eu8]
    } else if b == 0x0d {
        vec![0x5cu8, 0x72u8]
    } else if b == 0x09 {
        vec![0x5cu8, 0x74u8]
    } else if b == 0 {
        vec![0x5cu8, 0x30u8]
    } else {
        vec![0x5cu8, 0x78u8, hex_digit_char(b / 16), hex_digit_char(b % 16)]
    }
}

/// The per-byte renderings and color codes, built once before any dumping
/// begins and read-only afterwards.
pub struct ByteTables {
    hex: Vec<Vec<u8>>,
    binary: Vec<Vec<u8>>,
    class: Vec<ByteClass>,
    escape: Vec<Vec<u8>>,
    gray: Vec<u8>,
    red: Vec<u8>,
    green: Vec<u8>,
    orange: Vec<u8>,
    reset: Vec<u8>,
}

impl ByteTables {
    /// Every entry holds the rendering of its byte value.
    pub closed spec fn wf(&self) -> bool {
        &&& self.hex.len() == 256
        &&& self.binary.len() == 256
        &&& self.class.len() == 256
        &&& self.escape.len() == 256
        &&& forall|i: int| 0 <= i < 256 ==> (#[trigger] self.hex@[i])@ == hex_text(i as u8)
        &&& forall|i: int| 0 <= i < 256 ==> (#[trigger] self.binary@[i])@ == binary_text(i as u8)
        &&& forall|i: int| 0 <= i < 256 ==> #[trigger] self.class@[i] == byte_class(i as u8)
        &&& forall|i: int| 0 <= i < 256 ==> (#[trigger] self.escape@[i])@ == escape_text(i as u8)
        &&& self.gray@ == paint_code(Paint::Gray)
        &&& self.red@ == paint_code(Paint::Red)
        &&& self.green@ == paint_code(Paint::Green)
        &&& self.orange@ == paint_code(Paint::Orange)
        &&& self.reset@ == reset_code()
    }

    /// Builds all tables from the closed-form rules.
    pub fn new() -> (r: Self)
        ensures
            r.wf(),
    {
        let mut hex: Vec<Vec<u8>> = Vec::new();
        let mut binary: Vec<Vec<u8>> = Vec::new();
        let mut class: Vec<ByteClass> = Vec::new();
        let mut escape: Vec<Vec<u8>> = Vec::new();
        let mut i: usize = 0;
        while i < 256
            invariant
                i <= 256,
                hex.len() == i,
                binary.len() == i,
                class.len() == i,
                escape.len() == i,
                forall|j: int| 0 <= j < i ==> (#[trigger] hex@[j])@ == hex_text(j as u8),
                forall|j: int| 0 <= j < i ==> (#[trigger] binary@[j])@ == binary_text(j as u8),
                forall|j: int| 0 <= j < i ==> #[trigger] class@[j] == byte_class(j as u8),
                forall|j: int| 0 <= j < i ==> (#[trigger] escape@[j])@ == escape_text(j as u8),
            decreases 256 - i,
        {
            let b = i as u8;
            hex.push(hex_entry(b));
            binary.push(binary_entry(b));
            class.push(classify(b));
            escape.push(escape_entry(b));
            i += 1;
        }
        ByteTables {
            hex,
            binary,
            class,
            escape,
            gray: vec![0x1bu8, 0x5bu8, 0x39u8, 0x30u8, 0x6du8],
            red: vec![0x1bu8, 0x5bu8, 0x39u8, 0x31u8, 0x6du8],
            green: vec![0x1bu8, 0x5bu8, 0x33u8, 0x32u8, 0x6du8],
            orange: vec![
                0x1bu8, 0x5bu8, 0x33u8, 0x38u8, 0x3bu8, 0x35u8, 0x3bu8, 0x31u8, 0x33u8, 0x30u8, 0x6du8,
            ],
            reset: vec![0x1bu8, 0x5bu8, 0x30u8, 0x6du8],
        }
    }

    /// The hex text of a byte: two lowercase digits and a space.
    pub fn hex(&self, b: u8) -> (r: &[u8])
        requires
            self.wf(),
        ensures
            r@ == hex_text(b),
    {
        self.hex[b as usize].as_slice()
    }

    /// The eight-character binary text of a byte.
    pub fn binary(&self, b: u8) -> (r: &[u8])
        requires
            self.wf(),
        ensures
            r@ == binary_text(b),
    {
        self.binary[b as usize].as_slice()
    }

    /// The class of a byte.
    pub fn class(&self, b: u8) -> (r: ByteClass)
        requires
            self.wf(),
        ensures
            r == byte_class(b),
    {
        self.class[b as usize]
    }

    /// The text-mode escape of a byte.
    pub fn escape(&self, b: u8) -> (r: &[u8])
        requires
            self.wf(),
        ensures
            r@ == escape_text(b),
            1 <= r@.len() <= 4,
    {
        self.escape[b as usize].as_slice()
    }

    /// The ANSI code that switches to a paint.
    pub fn paint(&self, p: Paint) -> (r: &[u8])
        requires
            self.wf(),
        ensures
            r@ == paint_code(p),
    {
        match p {
            Paint::Plain => &[],
            Paint::Gray => self.gray.as_slice(),
            Paint::Red => self.red.as_slice(),
            Paint::Green => self.green.as_slice(),
            Paint::Orange => self.orange.as_slice(),
        }
    }

    /// The ANSI code that resets all attributes.
    pub fn reset(&self) -> (r: &[u8])
        requires
            self.wf(),
        ensures
            r@ == reset_code(),
    {
        self.reset.as_slice()
    }
}

} // verus!
