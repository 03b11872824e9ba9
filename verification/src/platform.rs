//! The single platform choice. The embedding application picks a
//! [`Platform`] once, at start; every discovery and submission call then
//! dispatches through it instead of branching at each call site.

use vstd::prelude::*;

use crate::commands::{
    has_single_quote, unix_list_command, unix_submit_command, windows_list_json_command,
    windows_submit_command, windows_submit_script_model, CommandSpec,
};
use crate::json::listing_entries_of;
use crate::printer::{wf_model, Printer};
use crate::unix::{parse_unix_listing, unix_records};
use crate::windows::{entry_records, parse_windows_json_listing};

verus! {

/// The command surface the OS exposes printing through.
#[derive(Clone, Copy, Debug)]
pub enum Platform {
    /// A Unix-like print spooler, queried and driven with `lpstat` / `lp`.
    Unix,
    /// The Windows shell-scripting interface, driven through `powershell`.
    Windows,
}

/// The listing command of the chosen platform.
pub fn list_command(platform: &Platform) -> (r: CommandSpec)
    ensures
        platform is Unix ==> r.program@ == "lpstat"@ && r.args.deep_view() == seq!["-e"@],
        platform is Windows ==> r.program@ == "powershell"@ && r.args.deep_view() == seq![
            "-Command"@,
            "Get-Printer | ConvertTo-JSON"@,
        ],
{
    match platform {
        Platform::Unix => unix_list_command(),
        Platform::Windows => windows_list_json_command(),
    }
}

/// The submission command of the chosen platform, for one file and one
/// printer. On Unix the identifier and path are discrete arguments and the
/// command always exists; on Windows they stand inside a single-quoted
/// script, within which PowerShell expands nothing, and values holding a
/// single quote — the one character that could end that quoting — are
/// refused.
pub fn submit_command(platform: &Platform, printer_system_name: &str, file_path: &str) -> (r:
    Option<CommandSpec>)
    ensures
        platform is Unix ==> (r matches Some(c) && c.program@ == "lp"@ && c.args.deep_view()
            == seq!["-d"@, printer_system_name@, file_path@]),
        platform is Windows ==> {
            &&& r is Some <==> !has_single_quote(printer_system_name@) && !has_single_quote(
                file_path@,
            )
            &&& r matches Some(c) ==> c.program@ == "powershell"@ && c.args.deep_view() == seq![
                "-Command"@,
                windows_submit_script_model(printer_system_name@, file_path@),
            ]
        },
{
    match platform {
        Platform::Unix => Some(unix_submit_command(printer_system_name, file_path)),
        Platform::Windows => windows_submit_command(printer_system_name, file_path),
    }
}

/// Parses the raw listing output of the chosen platform into printer
/// records. `None` means the listing could not be decoded (possible only on
/// the structured Windows form), as opposed to an empty listing; every
/// returned record is well-formed.
pub fn parse_listing(platform: &Platform, out: &str) -> (r: Option<Vec<Printer>>)
    ensures
        platform is Unix ==> (r matches Some(v) && v.deep_view() == unix_records(out@)),
        platform is Windows ==> {
            &&& r is Some <==> listing_entries_of(out@) is Some
            &&& r matches Some(v) ==> (listing_entries_of(out@) matches Some(es)
                && v.deep_view() == entry_records(es))
        },
        r matches Some(v) ==> forall|i: int|
            0 <= i < v.deep_view().len() ==> wf_model(#[trigger] v.deep_view()[i]),
{
    match platform {
        Platform::Unix => Some(parse_unix_listing(out)),
        Platform::Windows => parse_windows_json_listing(out),
    }
}

} // verus!
