//! Starting at sign-in: one value under the `Run` key of the user's registry.
//!
//! The installer writes the same value, so either of them sees what the other did.

use vstd::prelude::*;

use crate::utf16;

verus! {

pub const RUN_KEY: &'static str = "Software\\Microsoft\\Windows\\CurrentVersion\\Run";

pub const VALUE_NAME: &'static str = "anvi";

/// The call succeeded.
pub const ERROR_SUCCESS: u32 = 0;

/// There is no such value.
pub const ERROR_FILE_NOT_FOUND: u32 = 2;

/// What the status of the query for the value says: whether the program is registered, or an error.
pub open spec fn registered(status: u32) -> Result<bool, u32> {
    if status == ERROR_SUCCESS {
        Ok(true)
    } else if status == ERROR_FILE_NOT_FOUND {
        Ok(false)
    } else {
        Err(status)
    }
}

/// What the status of setting (`enabled`) or removing the value says.
pub open spec fn settled(enabled: bool, status: u32) -> Result<(), u32> {
    if status == ERROR_SUCCESS || (!enabled && status == ERROR_FILE_NOT_FOUND) {
        Ok(())
    } else {
        Err(status)
    }
}

/// The check mark after a click asked for `want`.
pub open spec fn check_mark(want: bool, done: bool) -> bool {
    want == done
}

/// The value for the program at `exe`.
pub open spec fn run_units(exe: Seq<char>) -> Seq<u16> {
    utf16::encoded(seq!['"'] + exe + seq!['"']).push(0)
}

/// Whether the program is registered, by the status of the query for its value. Any other status is
/// an error.
pub fn is_enabled(status: u32) -> (enabled: Result<bool, u32>)
    ensures
        enabled == registered(status),
{
    if status == ERROR_SUCCESS {
        Ok(true)
    } else if status == ERROR_FILE_NOT_FOUND {
        Ok(false)
    } else {
        Err(status)
    }
}

/// Whether setting or removing the value worked, by the status of the call. A value that was not
/// there is removed already.
pub fn set(enabled: bool, status: u32) -> (done: Result<(), u32>)
    ensures
        done == settled(enabled, status),
{
    if status == ERROR_SUCCESS || (!enabled && status == ERROR_FILE_NOT_FOUND) {
        Ok(())
    } else {
        Err(status)
    }
}

/// The value for the program at `exe`: its path in quotes, so that a path with spaces stays one
/// argument, with the zero at the end that the registry wants.
pub fn run_value(exe: &str) -> (units: Vec<u16>)
    ensures
        units@ == run_units(exe@),
{
    let mut quoted = String::new();
    quoted.push('"');
    quoted.append(exe);
    quoted.push('"');
    assert(quoted@ =~= seq!['"'] + exe@ + seq!['"']);
    utf16::wide_nul(quoted.as_str())
}

/// What the check mark shows after a click asked for `want`: what was asked for if it could be done,
/// and what was there before if not.
pub fn shown_after(want: bool, done: bool) -> (checked: bool)
    ensures
        checked == check_mark(want, done),
{
    if done {
        want
    } else {
        !want
    }
}

/// The value reads back as the quoted path.
pub proof fn law_value_reads_back(exe: Seq<char>, behind: Seq<u16>)
    requires
        !utf16::holds_nul(exe),
    ensures
        ({
            let quoted = seq!['"'] + exe + seq!['"'];
            utf16::decoded(utf16::before_nul(run_units(exe) + behind)) == quoted
        }),
{
    let quoted = seq!['"'] + exe + seq!['"'];
    assert(!utf16::holds_nul(quoted)) by {
        if utf16::holds_nul(quoted) {
            let i = choose|i: int| 0 <= i < quoted.len() && (#[trigger] quoted[i]) as u32 == 0;
            assert('"' as u32 == 0x22);
            assert(0 < i < quoted.len() - 1);
            assert(exe[i - 1] as u32 == 0);
        }
    }
    utf16::law_read_gives_back_what_was_written(quoted, behind);
}

/// The value is named after the program, under the key of what the system starts at sign-in, and
/// the two statuses that are told apart are those of the system.
pub proof fn law_names()
    ensures
        RUN_KEY@ == "Software\\Microsoft\\Windows\\CurrentVersion\\Run"@,
        VALUE_NAME@ == "anvi"@,
        ERROR_SUCCESS == 0,
        ERROR_FILE_NOT_FOUND == 2,
{
}

/// Of the query, 0 says that the value is there and 2 that it is not; anything else is handed on as
/// the error that it is.
pub proof fn law_query(status: u32)
    ensures
        registered(0) == Ok::<bool, u32>(true),
        registered(2) == Ok::<bool, u32>(false),
        status != 0 && status != 2 ==> registered(status) == Err::<bool, u32>(status),
{
}

/// Setting the value has to succeed. Removing it may find nothing to remove, which comes to the same.
pub proof fn law_setting(enabled: bool, status: u32)
    ensures
        settled(enabled, 0) == Ok::<(), u32>(()),
        settled(false, 2) == Ok::<(), u32>(()),
        settled(true, 2) == Err::<(), u32>(2),
        status != 0 && status != 2 ==> settled(enabled, status) == Err::<(), u32>(status),
{
}

/// The check mark shows what was asked for where it was done, and what was there before where not.
pub proof fn law_check_mark(want: bool)
    ensures
        check_mark(want, true) == want,
        check_mark(want, false) == !want,
{
}

} // verus!
