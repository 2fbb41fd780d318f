//! Naming of the quarantine directory.
//!
//! Before an existing installation is replaced it is renamed to a sibling
//! path: the destination, an underscore and a random suffix. The rename and
//! the later removal or restoration are the caller's; this module names the
//! sibling.

use rand::distributions::Alphanumeric;
use rand::{thread_rng, Rng};
use vstd::prelude::*;
use vstd::string::StringExecFns;

verus! {

/// Length of the random suffix of a quarantine directory.
pub const QUARANTINE_SUFFIX_LENGTH: usize = 8;

/// Whether `c` is an ASCII letter or digit.
pub open spec fn is_alphanumeric(c: char) -> bool {
    ('0' <= c && c <= '9') || ('A' <= c && c <= 'Z') || ('a' <= c && c <= 'z')
}

/// Whether every character of `s` is an ASCII letter or digit.
pub open spec fn all_alphanumeric(s: Seq<char>) -> bool {
    forall|i: int| 0 <= i < s.len() ==> is_alphanumeric(#[trigger] s[i])
}

/// The sibling path to which `path` is moved aside under `suffix`.
pub open spec fn quarantine_name(path: Seq<char>, suffix: Seq<char>) -> Seq<char> {
    path + seq!['_'] + suffix
}

/// A random string of `length` ASCII letters and digits.
///
/// Trusted: calls `rand::Rng::sample_iter` on the thread's generator with the
/// `Alphanumeric` distribution, which yields bytes drawn from `A`-`Z`, `a`-`z`
/// and `0`-`9`, and takes `length` of them as characters. Which characters come
/// out is left open.
#[verifier::external_body]
pub(crate) fn generate_random_string(length: usize) -> (s: String)
    ensures
        s@.len() == length,
        all_alphanumeric(s@),
{
    let rng = thread_rng();
    rng.sample_iter(&Alphanumeric).take(length).map(char::from).collect()
}

/// The path to which `path` is moved aside under `suffix`: `path`, an
/// underscore, `suffix`.
pub fn quarantine_path(path: &str, suffix: &str) -> (backup: String)
    ensures
        backup@ == quarantine_name(path@, suffix@),
{
    let mut backup = String::from_str(path);
    proof {
        reveal_strlit("_");
    }
    backup.append("_");
    backup.append(suffix);
    assert("_"@ =~= seq!['_']);
    backup
}

/// A fresh path to which `path` can be moved aside: `path`, an underscore and
/// eight random letters and digits. It is never `path` itself.
pub fn fresh_quarantine_path(path: &str) -> (backup: String)
    ensures
        exists|suffix: Seq<char>|
            #![trigger quarantine_name(path@, suffix)]
            suffix.len() == QUARANTINE_SUFFIX_LENGTH && all_alphanumeric(suffix) && backup@
                == quarantine_name(path@, suffix),
        backup@ != path@,
{
    let suffix = generate_random_string(QUARANTINE_SUFFIX_LENGTH);
    let backup = quarantine_path(path, suffix.as_str());
    assert(backup@ == quarantine_name(path@, suffix@));
    assert(backup@.len() == path@.len() + 1 + suffix@.len());
    backup
}

} // verus!
