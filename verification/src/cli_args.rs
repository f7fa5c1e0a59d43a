//! The command surface: what the user asked for on the command line.
//!
//! These are the parsed values only; reading the actual command line and
//! printing usage happen outside the library, which is handed the result.

use vstd::prelude::*;

verus! {

/// The top-level command: the tick period, a cosmetic graphics flag, and the
/// chosen subcommand.
pub struct CliCommand {
    /// Time in milliseconds between two ticks.
    pub tick_rate: u64,
    /// Whether unicode symbols are used to improve the overall look.
    pub enhanced_graphics: bool,
    pub nested: CliSubCommandEnum,
}

/// The chosen subcommand.
pub enum CliSubCommandEnum {
    Performance(PerformanceCommand),
    Crypto(CryptoCommand),
    Info(InfoCommand),
}

/// The performance subcommand.
pub struct PerformanceCommand {
    /// Whether to include graphics.
    pub graphic: bool,
    /// Whether to include internet.
    pub internet: bool,
}

/// The crypto subcommand.
pub struct CryptoCommand {
    /// The cryptographic algorithm's name.
    pub algorithm: String,
}

/// The information subcommand.
pub struct InfoCommand {}

} // verus!
