//! The bundler's configuration and what it decides from it.

use crate::exe_packager::{ManifestView, SetupManifest};
use vstd::prelude::*;
use vstd::string::StringExecFns;

verus! {

/// Name of the plugin section that configures the installer.
pub const PLUGIN_NAME: &'static str = "tauri-windows-installer";

/// Version given to a product whose configuration names none.
pub const DEFAULT_VERSION: &'static str = "0.0.0";

/// What is appended to the product name to name the installer.
pub const SETUP_SUFFIX: &'static str = "-setup.exe";

/// Extension of the icons that can be embedded.
pub const ICON_EXTENSION: &'static str = ".png";

/// Which WebView2 runtime to bundle.
#[derive(Debug, Clone, Copy, PartialEq, Eq, Structural)]
pub enum Webview2Bundle {
    /// The evergreen bootstrapper.
    Evergreen,
}

/// The WebView2 part of the plugin's configuration.
#[derive(Debug)]
pub struct Webview2Config {
    pub bundle: Option<Webview2Bundle>,
}

/// The plugin's configuration.
#[derive(Debug)]
pub struct TauriWindowsInstaller {
    pub icon: Option<String>,
    pub webview2: Webview2Config,
}

impl Default for Webview2Config {
    /// No runtime is bundled.
    fn default() -> (c: Webview2Config)
        ensures
            c.bundle is None,
    {
        Webview2Config { bundle: None }
    }
}

impl Default for TauriWindowsInstaller {
    /// No icon is set and no runtime is bundled.
    fn default() -> (c: TauriWindowsInstaller)
        ensures
            c.icon is None,
            c.webview2.bundle is None,
    {
        TauriWindowsInstaller { icon: None, webview2: Webview2Config { bundle: None } }
    }
}

/// Whether `suffix` ends `text`.
pub open spec fn is_suffix_of(suffix: Seq<char>, text: Seq<char>) -> bool {
    &&& suffix.len() <= text.len()
    &&& text.subrange(text.len() - suffix.len(), text.len() as int) == suffix
}

/// Whether `text` ends with `suffix`.
///
/// Trusted: calls `str::ends_with` of the standard library with a string as
/// the pattern, which returns true exactly when the pattern matches a suffix
/// of the string.
#[verifier::external_body]
fn ends_with(text: &str, suffix: &str) -> (b: bool)
    ensures
        b == is_suffix_of(suffix@, text@),
{
    text.ends_with(suffix)
}

/// The position of the first of `icons` that is a PNG, or their number where
/// none is.
pub open spec fn first_png(icons: Seq<Seq<char>>) -> int
    decreases icons.len(),
{
    if icons.len() == 0 {
        0
    } else if is_suffix_of(ICON_EXTENSION@, icons[0]) {
        0
    } else {
        1 + first_png(icons.drop_first())
    }
}

/// The icon to embed: the plugin's own where it names one, else the first PNG
/// among the bundle's icons, else none.
pub open spec fn select_icon_spec(plugin_icon: Option<Seq<char>>, icons: Seq<Seq<char>>) -> Option<
    Seq<char>,
> {
    match plugin_icon {
        Some(icon) => Some(icon),
        None => if first_png(icons) < icons.len() {
            Some(icons[first_png(icons)])
        } else {
            None
        },
    }
}

/// `first_png` is a position in the list or its length; the icon there is a
/// PNG and none before it is.
pub proof fn lemma_first_png(icons: Seq<Seq<char>>)
    ensures
        0 <= first_png(icons) <= icons.len(),
        first_png(icons) < icons.len() ==> is_suffix_of(ICON_EXTENSION@, icons[first_png(icons)]),
        forall|i: int| 0 <= i < first_png(icons) ==> !is_suffix_of(ICON_EXTENSION@, icons[i]),
    decreases icons.len(),
{
    if icons.len() > 0 && !is_suffix_of(ICON_EXTENSION@, icons[0]) {
        let rest = icons.drop_first();
        lemma_first_png(rest);
        assert forall|i: int| 0 <= i < first_png(icons) implies !is_suffix_of(
            ICON_EXTENSION@,
            icons[i],
        ) by {
            if i > 0 {
                assert(icons[i] == rest[i - 1]);
            }
        }
    }
}

/// The icon to embed in the installer.
pub fn select_icon(plugin_icon: Option<String>, bundle_icons: &Vec<String>) -> (icon: Option<
    String,
>)
    ensures
        (match icon {
            Some(i) => Some(i@),
            None => None,
        }) == select_icon_spec(
            match plugin_icon {
                Some(i) => Some(i@),
                None => None,
            },
            bundle_icons@.map_values(|i: String| i@),
        ),
{
    match plugin_icon {
        Some(icon) => Some(icon),
        None => {
            let ghost icons = bundle_icons@.map_values(|i: String| i@);
            let mut k: usize = 0;
            assert(icons.skip(0) =~= icons);
            while k < bundle_icons.len()
                invariant
                    0 <= k <= bundle_icons.len(),
                    plugin_icon is None,
                    icons == bundle_icons@.map_values(|i: String| i@),
                    first_png(icons) == k + first_png(icons.skip(k as int)),
                decreases bundle_icons.len() - k,
            {
                let ghost rest = icons.skip(k as int);
                assert(rest[0] == bundle_icons@[k as int]@);
                assert(rest.drop_first() =~= icons.skip(k + 1));
                if ends_with(bundle_icons[k].as_str(), ICON_EXTENSION) {
                    assert(first_png(rest) == 0);
                    assert(icons[k as int] == bundle_icons@[k as int]@);
                    return Some(bundle_icons[k].clone());
                }
                k = k + 1;
            }
            assert(first_png(icons.skip(k as int)) == 0);
            None
        },
    }
}

/// The manifest of a product: its configured name, or the empty name where
/// none is configured; its configured version, or `0.0.0`; its title,
/// identifier and the file name of its executable as given.
pub open spec fn manifest_spec(
    product_name: Option<Seq<char>>,
    title: Seq<char>,
    version: Option<Seq<char>>,
    identifier: Seq<char>,
    application: Seq<char>,
) -> ManifestView {
    ManifestView {
        name: match product_name {
            Some(name) => name,
            None => Seq::empty(),
        },
        title,
        version: match version {
            Some(version) => version,
            None => DEFAULT_VERSION@,
        },
        identifier,
        application,
    }
}

/// The manifest that the bundler embeds for a product.
pub fn manifest_from_config(
    product_name: Option<String>,
    title: String,
    version: Option<String>,
    identifier: String,
    application: String,
) -> (manifest: SetupManifest)
    ensures
        manifest@ == manifest_spec(
            match product_name {
                Some(name) => Some(name@),
                None => None,
            },
            title@,
            match version {
                Some(version) => Some(version@),
                None => None,
            },
            identifier@,
            application@,
        ),
{
    let name = match product_name {
        Some(name) => name,
        None => String::new(),
    };
    let version = match version {
        Some(version) => version,
        None => String::from_str(DEFAULT_VERSION),
    };
    SetupManifest { name, title, version, identifier, application }
}

/// The file name of the installer of the product `name`: the name and
/// `-setup.exe`.
pub fn output_filename(name: &str) -> (filename: String)
    ensures
        filename@ == name@ + SETUP_SUFFIX@,
{
    let mut filename = String::from_str(name);
    filename.append(SETUP_SUFFIX);
    filename
}

} // verus!
