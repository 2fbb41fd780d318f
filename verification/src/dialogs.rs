//! The texts of the installer's dialogs.

use vstd::prelude::*;
use vstd::string::StringExecFns;

verus! {

/// Title of the dialog that reports too little disk space.
pub const INSUFFICIENT_SPACE_TITLE: &'static str = "Not enough disk space";

/// What follows the product's name in the question whether to overwrite.
pub const ALREADY_INSTALLED_TEXT: &'static str =
    " is already installed.\nThis application is installed on your computer. If it is not functioning correctly, you can attempt to repair it.\n\nDo you want to attempt to repair it?";

/// Title of the question whether to overwrite: the product's title, `Setup`
/// and the version in parentheses.
pub fn overwrite_dialog_title(title: &str, version: &str) -> (text: String)
    ensures
        text@ == title@ + " Setup ("@ + version@ + ")"@,
{
    let mut text = String::from_str(title);
    text.append(" Setup (");
    text.append(version);
    text.append(")");
    text
}

/// Text of the question whether to overwrite the installation of `name`.
pub fn overwrite_dialog_text(name: &str) -> (text: String)
    ensures
        text@ == name@ + ALREADY_INSTALLED_TEXT@,
{
    let mut text = String::from_str(name);
    text.append(ALREADY_INSTALLED_TEXT);
    text
}

/// Text of the dialog that reports too little disk space: how much the
/// product `title` needs and how much there is, each already written as a
/// size.
pub fn insufficient_space_text(title: &str, required: &str, available: &str) -> (text: String)
    ensures
        text@ == title@ + " requires at least "@ + required@
            + " disk space to be installed. There is only "@ + available@ + " available."@,
{
    let mut text = String::from_str(title);
    text.append(" requires at least ");
    text.append(required);
    text.append(" disk space to be installed. There is only ");
    text.append(available);
    text.append(" available.");
    text
}

} // verus!
