//! The optional WebView2 runtime bootstrapper.

use crate::package::{lookup, SetupPackage};
use vstd::prelude::*;
use vstd::string::StringExecFns;

verus! {

/// Where the evergreen bootstrapper is downloaded from.
pub const WEBVIEW2_EVERGREEN_URL: &'static str = "https://go.microsoft.com/fwlink/p/?LinkId=2124703";

/// Name under which the evergreen bootstrapper is bundled.
pub const WEBVIEW2_EVERGREEN_EXE: &'static str = "MicrosoftEdgeWebview2Setup.exe";

/// Exit code with which the bootstrapper reports that the runtime is already
/// installed.
pub const WEBVIEW2_ALREADY_INSTALLED: i32 = -2147219416;

/// The WebView2 runtime as the installer sees it.
#[derive(Debug)]
pub struct Webview2 {
    /// Whether the package holds the bootstrapper.
    pub bundled: bool,
    /// File name of the bootstrapper.
    pub exe: String,
    /// The bootstrapper, where the package holds it.
    pub data: Option<Vec<u8>>,
    /// Whether the runtime is installed on the machine.
    pub installed: bool,
}

/// The arguments with which the bootstrapper is run.
pub open spec fn installer_args_spec(quiet: bool) -> Seq<Seq<char>> {
    if quiet {
        seq!["/silent"@, "/install"@]
    } else {
        seq!["/install"@]
    }
}

/// Whether the bootstrapper's exit code means that the runtime is installed.
pub open spec fn install_succeeded_spec(exit_code: i32) -> bool {
    exit_code == 0 || exit_code == WEBVIEW2_ALREADY_INSTALLED
}

impl Webview2 {
    /// The runtime bundled in `package`, if any, with `installed` saying
    /// whether the machine has the runtime already.
    pub fn load(package: &SetupPackage, installed: bool) -> (w: Webview2)
        ensures
            w.installed == installed,
            w.exe@ == WEBVIEW2_EVERGREEN_EXE@,
            w.bundled == w.data is Some,
            match w.data {
                Some(data) => lookup(package.contents(), WEBVIEW2_EVERGREEN_EXE@) == Some(data@),
                None => lookup(package.contents(), WEBVIEW2_EVERGREEN_EXE@) is None,
            },
    {
        let data = package.get_webview2();
        let bundled = data.is_some();
        let exe = package.webview2_filename();
        Webview2 { bundled, exe, data, installed }
    }

    /// Whether the bootstrapper is to be run: the runtime is missing and the
    /// package holds the bootstrapper.
    pub fn can_install(&self) -> (b: bool)
        ensures
            b == (!self.installed && self.data is Some),
    {
        !self.installed && self.data.is_some()
    }

    /// The arguments with which the bootstrapper is run: `/install`, after
    /// `/silent` where no window is wanted.
    pub fn installer_args(quiet: bool) -> (args: Vec<String>)
        ensures
            args@.map_values(|a: String| a@) == installer_args_spec(quiet),
    {
        let mut args: Vec<String> = Vec::new();
        if quiet {
            args.push(String::from_str("/silent"));
        }
        args.push(String::from_str("/install"));
        assert(args@.map_values(|a: String| a@) =~= installer_args_spec(quiet));
        args
    }

    /// Whether the bootstrapper's exit code means that the runtime is
    /// installed: zero, or the code for "already installed".
    pub fn install_succeeded(exit_code: i32) -> (b: bool)
        ensures
            b == install_succeeded_spec(exit_code),
    {
        exit_code == 0 || exit_code == WEBVIEW2_ALREADY_INSTALLED
    }
}

} // verus!
