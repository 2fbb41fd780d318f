//! The bundled application.

use crate::package::{lookup, SetupPackage};
use vstd::prelude::*;

verus! {

/// The application that a package installs.
#[derive(Debug)]
pub struct Application {
    /// File name of the executable inside the destination.
    pub exe: String,
    /// The executable itself.
    pub data: Vec<u8>,
    /// Its size in bytes: the space that the installation needs.
    pub size: u64,
}

impl Application {
    /// The application of `package`: the file that its manifest names.
    pub fn load(package: &SetupPackage) -> (app: Application)
        requires
            lookup(package.contents(), package.manifest.application@) is Some,
        ensures
            app.exe@ == package.manifest.application@,
            lookup(package.contents(), package.manifest.application@) == Some(app.data@),
            app.size == app.data@.len(),
    {
        let data = package.get_application();
        let size = data.len() as u64;
        Application { exe: package.manifest.application.clone(), data, size }
    }

    /// The application of `package`, or `None` where the package does not
    /// hold the file that its manifest names.
    pub fn try_load(package: &SetupPackage) -> (r: Option<Application>)
        ensures
            r is Some <==> lookup(package.contents(), package.manifest.application@) is Some,
            r is Some ==> {
                &&& r->0.exe@ == package.manifest.application@
                &&& lookup(package.contents(), package.manifest.application@) == Some(r->0.data@)
                &&& r->0.size == r->0.data@.len()
            },
    {
        match package.find_file(package.manifest.application.as_str()) {
            Some(data) => {
                let size = data.len() as u64;
                Some(Application { exe: package.manifest.application.clone(), data, size })
            },
            None => None,
        }
    }

    /// Whether the application counts as installed before the installer has
    /// run. It never does: the installer always installs or repairs.
    pub fn is_installed() -> (b: bool)
        ensures
            !b,
    {
        false
    }
}

} // verus!
