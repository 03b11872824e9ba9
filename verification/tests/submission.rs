use printers::commands::{
    unix_list_command, unix_submit_command, windows_list_json_command, windows_list_text_command,
    windows_submit_command,
};
use printers::platform::{list_command, parse_listing, submit_command, Platform};
use printers::submit::{buffer_print_step, submission_result, unique_job_name, BufferStep};

#[test]
fn unix_list_command_is_lpstat() {
    let c = unix_list_command();
    assert_eq!(c.program, "lpstat");
    assert_eq!(c.args, vec!["-e".to_string()]);
}

#[test]
fn windows_list_commands_are_powershell() {
    let text = windows_list_text_command();
    assert_eq!(text.program, "powershell");
    assert_eq!(
        text.args,
        vec!["-Command".to_string(), "Get-Printer | Format-List Name,DriverName".to_string()]
    );
    let json = windows_list_json_command();
    assert_eq!(json.program, "powershell");
    assert_eq!(
        json.args,
        vec!["-Command".to_string(), "Get-Printer | ConvertTo-JSON".to_string()]
    );
}

#[test]
fn unix_submit_command_keeps_arguments_discrete() {
    let c = unix_submit_command("Office_Laser", "/tmp/job.txt");
    assert_eq!(c.program, "lp");
    assert_eq!(
        c.args,
        vec!["-d".to_string(), "Office_Laser".to_string(), "/tmp/job.txt".to_string()]
    );
}

#[test]
fn windows_submit_command_builds_quoted_script() {
    let c = windows_submit_command("HP1", "C:\\jobs\\a.txt").unwrap();
    assert_eq!(c.program, "powershell");
    assert_eq!(c.args.len(), 2);
    assert_eq!(c.args[0], "-Command");
    assert_eq!(
        c.args[1],
        "Get-Content -Path 'C:\\jobs\\a.txt' | Out-Printer -Name 'HP1'"
    );
}

#[test]
fn windows_submit_command_refuses_embedded_single_quotes() {
    assert!(windows_submit_command("HP'1", "C:\\jobs\\a.txt").is_none());
    assert!(windows_submit_command("HP1", "C:\\jobs\\'a'.txt").is_none());
}

#[test]
fn windows_submit_command_keeps_expansion_characters_inert() {
    // dollar signs, subexpressions, backticks and double quotes expand to
    // nothing inside the single-quoted script literals
    let c = windows_submit_command("HP $(Get-Date) `n \"x\"", "C:\\a.txt").unwrap();
    assert_eq!(
        c.args[1],
        "Get-Content -Path 'C:\\a.txt' | Out-Printer -Name 'HP $(Get-Date) `n \"x\"'"
    );
}

#[test]
fn submission_reports_success_on_zero_exit() {
    let r = submission_result(true, String::from("ignored"));
    assert_eq!(r, Ok(true));
}

#[test]
fn submission_error_carries_diagnostic_verbatim() {
    let r = submission_result(false, String::from("lp: The printer does not exist."));
    assert_eq!(r, Err("lp: The printer does not exist.".to_string()));
}

#[test]
fn buffer_print_submits_staged_file_on_successful_write() {
    let step = buffer_print_step(Ok(()), String::from("/tmp/staged"));
    match step {
        BufferStep::Submit { path } => assert_eq!(path, "/tmp/staged"),
        BufferStep::Fail { .. } => panic!("write succeeded, submission expected"),
    }
}

#[test]
fn buffer_print_stops_with_write_error() {
    let step = buffer_print_step(Err(String::from("disk full")), String::from("/tmp/staged"));
    match step {
        BufferStep::Submit { .. } => panic!("write failed, no submission expected"),
        BufferStep::Fail { message } => assert_eq!(message, "disk full"),
    }
}

#[test]
fn platform_dispatch_picks_the_platform_commands() {
    let unix_list = list_command(&Platform::Unix);
    assert_eq!(unix_list.program, "lpstat");
    let win_list = list_command(&Platform::Windows);
    assert_eq!(win_list.program, "powershell");

    let unix_submit = submit_command(&Platform::Unix, "P", "/tmp/f").unwrap();
    assert_eq!(unix_submit.program, "lp");
    assert_eq!(
        unix_submit.args,
        vec!["-d".to_string(), "P".to_string(), "/tmp/f".to_string()]
    );
    assert!(submit_command(&Platform::Windows, "P'", "/tmp/f").is_none());
}

#[test]
fn platform_dispatch_parses_each_listing_form() {
    let unix = parse_listing(&Platform::Unix, "Printer_A\n").unwrap();
    assert_eq!(unix.len(), 1);
    assert_eq!(unix[0].system_name, "Printer_A");

    let windows = parse_listing(&Platform::Windows, "[{\"Name\":\"HP1\",\"DriverName\":\"D\"}]")
        .unwrap();
    assert_eq!(windows.len(), 1);
    assert_eq!(windows[0].system_name, "HP1");
    assert!(parse_listing(&Platform::Windows, "nope").is_none());
}

#[test]
fn job_names_have_uuid_shape() {
    let name = unique_job_name();
    assert_eq!(name.len(), 36);
    for c in name.chars() {
        assert!(c == '-' || c.is_ascii_digit() || ('a'..='f').contains(&c));
    }
}

#[test]
fn job_names_are_fresh_per_call() {
    let first = unique_job_name();
    let second = unique_job_name();
    assert_ne!(first, second);
}
