//! The options that a run of the emulator is started with.

use vstd::prelude::*;

verus! {

/// Display scale of a run that names none.
pub const DEFAULT_SCALE: u8 = 3;

/// The options of one run.
pub struct Options {
    /// Whether every fetched instruction word is traced.
    pub debug: bool,
    /// The integer factor by which the display scales a pixel.
    pub scale: u8,
    /// Where the program image is read from.
    pub rom_path: String,
}

/// The scale of a run: the one asked for, or `DEFAULT_SCALE`.
pub open spec fn scale_or_default(scale: Option<u8>) -> u8 {
    match scale {
        Some(s) => s,
        None => DEFAULT_SCALE,
    }
}

/// The path of a run's program image: the one given, or the empty path.
pub open spec fn path_or_empty(rom: Option<String>) -> Seq<char> {
    match rom {
        Some(path) => path@,
        None => Seq::empty(),
    }
}

/// Puts the options of a run together from what the command line held: the
/// scale if one was given, whether the debug flag was present, and the path
/// of the program image if one was given.
pub fn parse_options(scale: Option<u8>, debug: bool, rom: Option<String>) -> (res: Option<Options>)
    ensures
        res matches Some(options) && options.debug == debug && options.scale == scale_or_default(
            scale,
        ) && options.rom_path@ == path_or_empty(rom),
{
    let scale: u8 = match scale {
        Some(s) => s,
        None => DEFAULT_SCALE,
    };
    let rom_path: String = match rom {
        Some(path) => path,
        None => String::new(),
    };
    Some(Options { debug: debug, scale: scale, rom_path: rom_path })
}

} // verus!
