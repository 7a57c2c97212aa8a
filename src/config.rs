//! Run configuration and how command-line choices resolve into it.

use vstd::prelude::*;

verus! {

/// The largest accepted line length, in units: it keeps the line buffer's
/// worst-case size well inside the address space.
pub const MAX_LINE_UNITS: usize = 0x00ff_ffff;

/// Settings fixed for one run.
#[derive(Clone, Copy, Debug, PartialEq, Eq, Structural)]
pub struct DumpConfig {
    /// Units per line: bytes in hex mode, bits in binary mode, rendered
    /// characters in text mode.
    pub bytes_per_line: usize,
    pub color_enabled: bool,
    pub space_highlight: bool,
}

impl DumpConfig {
    /// A line holds at least one unit and its buffer can be sized.
    pub open spec fn valid(&self) -> bool {
        0 < self.bytes_per_line <= MAX_LINE_UNITS
    }
}

/// Which rendering a run uses.
#[derive(Clone, Copy, Debug, PartialEq, Eq, Structural)]
pub enum Mode {
    Hex,
    Binary,
    Text,
}

/// Why a configuration was refused.
#[derive(Clone, Copy, Debug, PartialEq, Eq, Structural)]
pub enum ConfigError {
    /// Hex and binary were both selected.
    ConflictingModes,
    /// The line length is zero or larger than `MAX_LINE_UNITS`.
    InvalidLength(usize),
}

/// The mode selected by the two mode flags, when they do not conflict.
pub open spec fn mode_of(hex: bool, binary: bool) -> Mode {
    if hex {
        Mode::Hex
    } else if binary {
        Mode::Binary
    } else {
        Mode::Text
    }
}

/// The line length used when none is given: 16 in hex mode, 64 otherwise.
pub open spec fn default_length(mode: Mode) -> usize {
    if mode == Mode::Hex {
        16
    } else {
        64
    }
}

/// The length that a run uses.
pub open spec fn chosen_length(length: Option<usize>, mode: Mode) -> usize {
    match length {
        Some(n) => n,
        None => default_length(mode),
    }
}

/// Turns the command-line choices into a mode and a configuration.
pub fn resolve_config(
    length: Option<usize>,
    hex: bool,
    binary: bool,
    color: bool,
    space: bool,
) -> (r: Result<(Mode, DumpConfig), ConfigError>)
    ensures
        hex && binary ==> r == Err::<(Mode, DumpConfig), ConfigError>(ConfigError::ConflictingModes),
        !(hex && binary) ==> {
            let mode = mode_of(hex, binary);
            let n = chosen_length(length, mode);
            if 0 < n <= MAX_LINE_UNITS {
                r == Ok::<(Mode, DumpConfig), ConfigError>(
                    (mode, DumpConfig { bytes_per_line: n, color_enabled: color, space_highlight: space }),
                )
            } else {
                r == Err::<(Mode, DumpConfig), ConfigError>(ConfigError::InvalidLength(n))
            }
        },
        r is Ok ==> r->Ok_0.1.valid(),
{
    if hex && binary {
        return Err(ConfigError::ConflictingModes);
    }
    let mode = if hex {
        Mode::Hex
    } else if binary {
        Mode::Binary
    } else {
        Mode::Text
    };
    let n: usize = match length {
        Some(n) => n,
        None => if hex {
            16
        } else {
            64
        },
    };
    if n == 0 || n > MAX_LINE_UNITS {
        return Err(ConfigError::InvalidLength(n));
    }
    Ok((mode, DumpConfig { bytes_per_line: n, color_enabled: color, space_highlight: space }))
}

} // verus!
