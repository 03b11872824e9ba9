//! The exact command lines this library drives the platform print tools
//! with. Identifiers and paths are kept as discrete argument-vector
//! elements wherever the tool allows it. The one interpolated script (the
//! Windows submit path) wraps them in single quotes, inside which
//! PowerShell expands nothing — no variables, no subexpressions, no
//! backticks — and refuses values holding the single quote itself, the only
//! character that could end such a quoting.

use vstd::prelude::*;
use vstd::string::*;

verus! {

/// A command for the process-execution service: the program and its
/// argument vector, each argument a discrete, non-interpreted element.
pub struct CommandSpec {
    /// The program to run.
    pub program: String,
    /// Its arguments, in order.
    pub args: Vec<String>,
}

/// The Unix listing command: `lpstat -e`, which prints one enabled,
/// accepting printer identifier per line.
pub fn unix_list_command() -> (r: CommandSpec)
    ensures
        r.program@ == "lpstat"@,
        r.args.deep_view() == seq!["-e"@],
{
    let mut args: Vec<String> = Vec::new();
    args.push(String::from_str("-e"));
    let r = CommandSpec { program: String::from_str("lpstat"), args };
    proof {
        assert(r.args.deep_view() =~= seq!["-e"@]);
    }
    r
}

/// The Unix submission command: `lp -d <printer> <file>`, with the printer
/// identifier and the file path as separate arguments, never interpolated.
pub fn unix_submit_command(printer_system_name: &str, file_path: &str) -> (r: CommandSpec)
    ensures
        r.program@ == "lp"@,
        r.args.deep_view() == seq!["-d"@, printer_system_name@, file_path@],
{
    let mut args: Vec<String> = Vec::new();
    args.push(String::from_str("-d"));
    args.push(String::from_str(printer_system_name));
    args.push(String::from_str(file_path));
    let r = CommandSpec { program: String::from_str("lp"), args };
    proof {
        assert(r.args.deep_view() =~= seq!["-d"@, printer_system_name@, file_path@]);
    }
    r
}

/// The Windows listing command for the textual report: two label:value
/// lines per printer, records separated by a blank line.
pub fn windows_list_text_command() -> (r: CommandSpec)
    ensures
        r.program@ == "powershell"@,
        r.args.deep_view() == seq!["-Command"@, "Get-Printer | Format-List Name,DriverName"@],
{
    let mut args: Vec<String> = Vec::new();
    args.push(String::from_str("-Command"));
    args.push(String::from_str("Get-Printer | Format-List Name,DriverName"));
    let r = CommandSpec { program: String::from_str("powershell"), args };
    proof {
        assert(r.args.deep_view() =~= seq![
            "-Command"@,
            "Get-Printer | Format-List Name,DriverName"@,
        ]);
    }
    r
}

/// The Windows listing command for the structured form: one JSON document
/// holding an array of printer objects.
pub fn windows_list_json_command() -> (r: CommandSpec)
    ensures
        r.program@ == "powershell"@,
        r.args.deep_view() == seq!["-Command"@, "Get-Printer | ConvertTo-JSON"@],
{
    let mut args: Vec<String> = Vec::new();
    args.push(String::from_str("-Command"));
    args.push(String::from_str("Get-Printer | ConvertTo-JSON"));
    let r = CommandSpec { program: String::from_str("powershell"), args };
    proof {
        assert(r.args.deep_view() =~= seq!["-Command"@, "Get-Printer | ConvertTo-JSON"@]);
    }
    r
}

/// Whether `s` holds a single quote, the one character that could end the
/// single-quoted interpolation of the Windows submission script.
pub open spec fn has_single_quote(s: Seq<char>) -> bool {
    exists|i: int| 0 <= i < s.len() && s[i] == '\''
}

fn contains_single_quote(s: &str) -> (b: bool)
    ensures
        b == has_single_quote(s@),
{
    let n: usize = s.unicode_len();
    let mut i: usize = 0;
    while i < n
        invariant
            n == s@.len(),
            i <= n,
            forall|j: int| 0 <= j < i ==> s@[j] != '\'',
        decreases n - i,
    {
        if s.get_char(i) == '\'' {
            return true;
        }
        i = i + 1;
    }
    false
}

/// The script the Windows submission command runs: stream the staged file's
/// content to the named printer. The identifier and the path stand inside
/// single quotes, within which PowerShell performs no expansion at all.
pub open spec fn windows_submit_script_model(printer: Seq<char>, path: Seq<char>) -> Seq<char> {
    "Get-Content -Path '"@ + path + "' | Out-Printer -Name '"@ + printer + "'"@
}

/// The Windows submission command: a script that streams the file into the
/// named printer. The identifier and the path stand inside single-quoted
/// script literals; PowerShell expands nothing there — no variables, no
/// `$(...)` subexpressions, no backtick escapes — so neither value can
/// alter the command's structure. The one character that could end the
/// quoting, the single quote itself, is refused instead of submitted.
pub fn windows_submit_command(printer_system_name: &str, file_path: &str) -> (r: Option<
    CommandSpec,
>)
    ensures
        r is Some <==> !has_single_quote(printer_system_name@) && !has_single_quote(file_path@),
        r matches Some(c) ==> {
            &&& c.program@ == "powershell"@
            &&& c.args.deep_view() == seq![
                "-Command"@,
                windows_submit_script_model(printer_system_name@, file_path@),
            ]
        },
{
    if contains_single_quote(printer_system_name) || contains_single_quote(file_path) {
        return None;
    }
    let mut script = String::from_str("Get-Content -Path '");
    script.append(file_path);
    script.append("' | Out-Printer -Name '");
    script.append(printer_system_name);
    script.append("'");
    let mut args: Vec<String> = Vec::new();
    args.push(String::from_str("-Command"));
    args.push(script);
    let r = CommandSpec { program: String::from_str("powershell"), args };
    proof {
        assert(r.args.deep_view() =~= seq![
            "-Command"@,
            windows_submit_script_model(printer_system_name@, file_path@),
        ]);
    }
    Some(r)
}

} // verus!
