//! Validation of registry package identifiers.
//!
//! An identifier names a previously published package: an arbitrary
//! slash-delimited name followed by a final slash and a semantic version,
//! for example `example.com/foo/1.2.3`.  The name must not be empty, the
//! version must not be empty, and the version must parse as a semantic
//! version; the version syntax itself is checked by the `semver` crate.

use vstd::prelude::*;
use vstd::string::*;

verus! {

/// Whether the `semver` crate accepts `s` as a semantic version.
pub uninterp spec fn is_semver(s: Seq<char>) -> bool;

/// Relies on semver::Version::parse: acceptance depends on the text alone.
#[verifier::external_body]
fn semver_accepts(text: &str) -> (r: bool)
    ensures
        r == is_semver(text@),
{
    semver::Version::parse(text).is_ok()
}

/// Position `i` holds the last slash of `s`.
pub open spec fn is_last_slash(s: Seq<char>, i: int) -> bool {
    &&& 0 <= i < s.len()
    &&& s[i] == '/'
    &&& forall|j: int| i < j < s.len() ==> s[j] != '/'
}

/// A valid identifier: a non-empty name, a final slash, and a non-empty
/// semantic version after it.
pub open spec fn valid_registry_id(s: Seq<char>) -> bool {
    exists|i: int|
        {
            &&& #[trigger] is_last_slash(s, i)
            &&& 0 < i
            &&& i + 1 < s.len()
            &&& is_semver(s.skip(i + 1))
        }
}

/// Decides whether `text` is a valid registry package identifier.
#[verifier::loop_isolation(false)]
pub fn is_valid_registry_id(text: &str) -> (r: bool)
    ensures
        r == valid_registry_id(text@),
{
    let n = text.unicode_len();
    let mut i: usize = n;
    while i > 0
        invariant
            i <= n,
            forall|j: int| i <= j < n ==> text@[j] != '/',
        decreases i,
    {
        i -= 1;
        if text.get_char(i) == '/' {
            proof {
                assert(is_last_slash(text@, i as int));
            }
            if i == 0 || i + 1 >= n {
                proof {
                    assert(forall|k: int|
                        is_last_slash(text@, k) ==> k == i as int);
                }
                return false;
            }
            let version = text.substring_char(i + 1, n);
            let ok = semver_accepts(version);
            proof {
                assert(version@ =~= text@.skip(i + 1));
                assert(forall|k: int|
                    is_last_slash(text@, k) ==> k == i as int);
            }
            return ok;
        }
    }
    proof {
        assert(forall|k: int| !is_last_slash(text@, k));
    }
    false
}

} // verus!
