//! The command-line surface: the table of known arguments and the lookup
//! the argument loop uses. Reading the actual process arguments and
//! printing help are the driver's business.

use vstd::prelude::*;
use vstd::string::*;

verus! {

/// One command-line argument: its key, whether it is a bare flag (rather
/// than taking a value), and its help text.
#[derive(Debug, Clone, PartialEq)]
pub struct CliArg {
    pub key: &'static str,
    pub flag: bool,
    pub description: &'static str,
}

/// The file-naming options gathered from the command line.
#[derive(Debug, Clone, Copy, PartialEq, Eq, Structural)]
pub struct CliCfg {
    pub alt_name_scheme: bool,
    pub iso8601: bool,
    pub utc: bool,
}

/// Whether a key is one the command line understands.
pub open spec fn known_cli_key(key: Seq<char>) -> bool {
    ||| key == "-r"@
    ||| key == "-o"@
    ||| key == "--alt"@
    ||| key == "--iso8601"@
    ||| key == "--utc"@
    ||| key == "-h"@
}

/// Whether a known key is a bare flag; `-r` and `-o` take a value.
pub open spec fn cli_key_is_flag(key: Seq<char>) -> bool {
    key != "-r"@ && key != "-o"@
}

/// Finds the table entry of a command-line key: an entry exactly for the
/// known keys, carrying the key itself and whether it is a bare flag.
pub fn find_cli_arg(key: &str) -> (r: Option<CliArg>)
    ensures
        r is Some <==> known_cli_key(key@),
        r matches Some(a) ==> a.key@ == key@ && a.flag == cli_key_is_flag(key@),
{
    let k: String = String::from_str(key);
    if k == String::from_str("-r") {
        Some(
            CliArg {
                key: "-r",
                flag: false,
                description: "Replay ID. Giving this argument bypasses graphical UI.",
            },
        )
    } else if k == String::from_str("-o") {
        Some(
            CliArg { key: "-o", flag: false, description: "Output name. Used only with '-r' -option." },
        )
    } else if k == String::from_str("--alt") {
        Some(
            CliArg {
                key: "--alt",
                flag: true,
                description: "Alternate naming schema puts timestamp first. (file browsers can easily sort timeline by name).",
            },
        )
    } else if k == String::from_str("--iso8601") {
        Some(
            CliArg {
                key: "--iso8601",
                flag: true,
                description: "(NOT SUPPORTED BY NTFS/WINDOWS!) Sets timestamp in ISO8601 format.",
            },
        )
    } else if k == String::from_str("--utc") {
        Some(CliArg { key: "--utc", flag: true, description: "Timestamp is in UTC timezone." })
    } else if k == String::from_str("-h") {
        Some(CliArg { key: "-h", flag: true, description: "Print help." })
    } else {
        None
    }
}

} // verus!
