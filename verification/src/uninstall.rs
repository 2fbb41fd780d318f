//! Uninstalling: the uninstall record, the uninstall flag, and the command
//! by which a running executable has itself deleted after it has exited.

use crate::exe_packager::SetupManifest;
use crate::text::{
    decimal_string, decimal_text, signed_string, signed_text, two_digit_string, two_digit_text,
};
use chrono::{Datelike, Local};
use vstd::prelude::*;
use vstd::string::StringExecFns;

verus! {

/// Registry key under which uninstall records are kept.
pub const UNINSTALL_STR: &'static str = "Software\\Microsoft\\Windows\\CurrentVersion\\Uninstall";

/// The command-line flag that asks an installed application to uninstall
/// itself.
pub const UNINSTALL_FLAG: &'static str = "--uninstall";

/// Seconds that the deferred deletion waits for the process to exit.
pub const SELF_DELETE_DELAY_SECONDS: usize = 3;

/// Title of the dialog that reports an uninstall with errors.
pub const UNINSTALL_ERRORS_TITLE: &'static str = "Uninstall Complete";

/// Text of the dialog that reports an uninstall with errors.
pub const UNINSTALL_ERRORS_TEXT: &'static str =
    "The application was uninstalled, but there were errors during the process. Please check the logs for more information.";

/// Text of the dialog that reports a successful uninstall.
pub const UNINSTALL_DONE_TEXT: &'static str = "The application was successfully uninstalled.";

/// Language identifier written to the uninstall record: English (United
/// States).
pub const RECORD_LANGUAGE: u32 = 0x0409;

/// The uninstall record of an installed application.
#[derive(Debug)]
pub struct UninstallRecord {
    pub display_icon: String,
    pub display_name: String,
    pub display_version: String,
    pub install_date: String,
    pub install_location: String,
    pub publisher: String,
    pub uninstall_string: String,
    pub estimated_size: u32,
    pub no_modify: u32,
    pub no_repair: u32,
    pub language: u32,
}

/// A date as the uninstall record holds it: the year, then month and day
/// with two digits each.
pub open spec fn date_text(year: int, month: nat, day: nat) -> Seq<char> {
    signed_text(year) + two_digit_text(month) + two_digit_text(day)
}

/// The size that the uninstall record states for a folder of `folder_size`
/// bytes: the low 32 bits of the size, in units of 1024.
pub open spec fn estimated_size_spec(folder_size: u64) -> u32 {
    ((folder_size % 0x1_0000_0000) / 1024) as u32
}

/// The command that deletes the executable `current_exe` and then the
/// directory `directory_name`, after waiting `delay_seconds` for the running
/// process to exit.
pub open spec fn self_delete_command_spec(
    delay_seconds: nat,
    current_exe: Seq<char>,
    directory_name: Seq<char>,
) -> Seq<char> {
    "choice /C Y /N /D Y /T "@ + decimal_text(delay_seconds) + " & Del \""@ + current_exe
        + "\" & Rmdir \""@ + directory_name + "\""@
}

/// Whether the arguments of the process ask for an uninstall.
pub fn wants_uninstall(args: &Vec<String>) -> (b: bool)
    ensures
        b <==> exists|i: int| 0 <= i < args@.len() && (#[trigger] args@[i])@ == UNINSTALL_FLAG@,
{
    let flag = String::from_str(UNINSTALL_FLAG);
    let mut i: usize = 0;
    while i < args.len()
        invariant
            0 <= i <= args.len(),
            flag@ == UNINSTALL_FLAG@,
            forall|k: int| 0 <= k < i ==> (#[trigger] args@[k])@ != UNINSTALL_FLAG@,
        decreases args.len() - i,
    {
        if args[i] == flag {
            return true;
        }
        i = i + 1;
    }
    false
}

/// Exit code of the uninstaller: zero where it met no error, one otherwise.
pub fn uninstall_exit_code(errors: bool) -> (code: i32)
    ensures
        code == (if errors { 1i32 } else { 0i32 }),
{
    if errors {
        1
    } else {
        0
    }
}

/// The image name of the application's processes: its identifier and `.exe`.
pub fn process_image_name(app_id: &str) -> (name: String)
    ensures
        name@ == app_id@ + ".exe"@,
{
    let mut name = String::from_str(app_id);
    name.append(".exe");
    name
}

/// Title of the dialog that reports a successful uninstall.
pub fn uninstall_title(app_title: &str) -> (title: String)
    ensures
        title@ == app_title@ + " Uninstall"@,
{
    let mut title = String::from_str(app_title);
    title.append(" Uninstall");
    title
}

/// The command, to be run detached by the command interpreter from the
/// parent of the directory, that waits `delay_seconds`, deletes the executable
/// at `current_exe` and then removes the directory `directory_name`. It names
/// both by path only.
pub fn self_delete_command(
    delay_seconds: usize,
    current_exe: &str,
    directory_name: &str,
) -> (command: String)
    ensures
        command@ == self_delete_command_spec(delay_seconds as nat, current_exe@, directory_name@),
{
    let delay = decimal_string(delay_seconds as u64);
    let mut command = String::from_str("choice /C Y /N /D Y /T ");
    command.append(delay.as_str());
    command.append(" & Del \"");
    command.append(current_exe);
    command.append("\" & Rmdir \"");
    command.append(directory_name);
    command.append("\"");
    command
}

/// The date `year`-`month`-`day` as the uninstall record holds it.
pub fn install_date(year: i32, month: u32, day: u32) -> (date: String)
    ensures
        date@ == date_text(year as int, month as nat, day as nat),
{
    let mut date = signed_string(year as i64);
    let month_text = two_digit_string(month as u64);
    let day_text = two_digit_string(day as u64);
    date.append(month_text.as_str());
    date.append(day_text.as_str());
    date
}

/// Today's date in the machine's time zone: year, month and day.
///
/// Trusted: calls `chrono::Local::now` and reads the date with
/// `chrono::Datelike`, whose month is between 1 and 12 and whose day of the
/// month is between 1 and 31. Which date it is depends on the clock.
#[verifier::external_body]
fn local_date() -> (date: (i32, u32, u32))
    ensures
        1 <= date.1 <= 12,
        1 <= date.2 <= 31,
{
    let now = Local::now();
    (now.year(), now.month(), now.day())
}

/// Today's date as the uninstall record holds it.
pub fn install_date_today() -> (date: String)
    ensures
        exists|year: int, month: nat, day: nat|
            1 <= month <= 12 && 1 <= day <= 31 && date@ == #[trigger] date_text(year, month, day),
{
    let today = local_date();
    let date = install_date(today.0, today.1, today.2);
    assert(date@ == date_text(today.0 as int, today.1 as nat, today.2 as nat));
    date
}

/// The size that the uninstall record states for a folder of `folder_size`
/// bytes.
pub fn estimated_size(folder_size: u64) -> (size: u32)
    ensures
        size == estimated_size_spec(folder_size),
{
    ((folder_size % 0x1_0000_0000) / 1024) as u32
}

/// The uninstall record of the application of `manifest`, installed in
/// `root_path` with its executable at `main_exe_path`, on the day
/// `install_date`, where the installation takes `folder_size` bytes.
pub fn uninstall_record(
    manifest: &SetupManifest,
    root_path: &str,
    main_exe_path: &str,
    folder_size: u64,
    install_date: String,
) -> (record: UninstallRecord)
    ensures
        record.display_icon@ == main_exe_path@,
        record.display_name@ == manifest.name@,
        record.display_version@ == manifest.version@,
        record.install_date@ == install_date@,
        record.install_location@ == root_path@,
        record.publisher@ == Seq::<char>::empty(),
        record.uninstall_string@ == main_exe_path@ + " --uninstall"@,
        record.estimated_size == estimated_size_spec(folder_size),
        record.no_modify == 1,
        record.no_repair == 1,
        record.language == RECORD_LANGUAGE,
{
    let mut uninstall_string = String::from_str(main_exe_path);
    uninstall_string.append(" --uninstall");
    UninstallRecord {
        display_icon: String::from_str(main_exe_path),
        display_name: manifest.name.clone(),
        display_version: manifest.version.clone(),
        install_date,
        install_location: String::from_str(root_path),
        publisher: String::new(),
        uninstall_string,
        estimated_size: estimated_size(folder_size),
        no_modify: 1,
        no_repair: 1,
        language: RECORD_LANGUAGE,
    }
}

} // verus!
