//! The read-only context of one expansion run: the manifest's base
//! directory, the versioning policy, the dev user, and any pre-fetched
//! external invoices from the configured registry.

use vstd::prelude::*;
use vstd::string::*;
use crate::errors::PathError;
use crate::errors::ResolutionError;
use crate::expander::collections::lookup_by_key;
use crate::expander::collections::spec_lookup_by_key;
use crate::expander::externals::spec_find_handler_parcel;
use crate::expander::invoice_versioning::InvoiceVersioning;
use crate::hippofacts::ExternalRef;
use crate::invoice::Invoice;
use crate::invoice::Parcel;

verus! {

/// Read-only for the duration of one expansion.  `external_invoices` is
/// `None` when no registry is configured, and otherwise holds the invoices
/// fetched from it, keyed by their identifier.
pub struct ExpansionContext {
    pub relative_to: String,
    pub invoice_versioning: InvoiceVersioning,
    pub dev_user: Option<String>,
    pub external_invoices: Option<Vec<(String, Invoice)>>,
}

/// Path join as the expansion uses it: a pattern that starts with a
/// separator stands alone; otherwise it is appended to the base directory
/// with a single separator between.
pub open spec fn spec_join_path(base: Seq<char>, pat: Seq<char>) -> Seq<char> {
    if pat.len() > 0 && pat[0] == '/' {
        pat
    } else if base.len() == 0 {
        pat
    } else if base[base.len() - 1] == '/' {
        base + pat
    } else {
        base + "/"@ + pat
    }
}

/// Drops the separators between the base directory and the remainder.
pub open spec fn drop_leading_seps(s: Seq<char>) -> Seq<char>
    decreases s.len(),
{
    if s.len() > 0 && (s[0] == '/' || s[0] == '\\') {
        drop_leading_seps(s.drop_first())
    } else {
        s
    }
}

/// Separators normalized to forward slashes, for cross-platform-stable
/// parcel names.
pub open spec fn normalize_seps(s: Seq<char>) -> Seq<char> {
    Seq::new(s.len(), |i: int| if s[i] == '\\' { '/' } else { s[i] })
}

/// `path` begins with the characters of `base`.
pub open spec fn starts_with(path: Seq<char>, base: Seq<char>) -> bool {
    path.len() >= base.len() && path.take(base.len() as int) == base
}

/// Whether `path` lies under the directory `base`: it begins with
/// `base`, and the prefix ends on a path-component boundary.
pub open spec fn is_under(path: Seq<char>, base: Seq<char>) -> bool {
    &&& starts_with(path, base)
    &&& (path.len() == base.len() || base.len() == 0 || path[base.len() as int] == '/'
        || path[base.len() as int] == '\\' || base[base.len() - 1] == '/' || base[base.len()
        - 1] == '\\')
}

/// The relative name a path under `base` gets in the invoice.
pub open spec fn rel_name_of(base: Seq<char>, path: Seq<char>) -> Seq<char> {
    normalize_seps(drop_leading_seps(path.skip(base.len() as int)))
}

/// The dev version: the declared version, a `-user` part when a user is
/// known, and a `-timestamp` part.
pub open spec fn spec_dev_version(
    version: Seq<char>,
    user: Option<Seq<char>>,
    timestamp: Seq<char>,
) -> Seq<char> {
    version + (match user {
        Some(u) => "-"@ + u,
        None => Seq::<char>::empty(),
    }) + "-"@ + timestamp
}

/// The shape of a dev timestamp: a year of at least four characters,
/// then zero-padded month, day, hour, minute, second, and millisecond
/// fields, dot-separated.  Only the year's width varies, so the six
/// separators and the trailing digit fields sit at fixed offsets from
/// the end.
pub open spec fn spec_timestamp_shaped(s: Seq<char>) -> bool {
    &&& s.len() >= 23
    &&& s[s.len() - 19] == '.' && s[s.len() - 16] == '.' && s[s.len() - 13] == '.'
    &&& s[s.len() - 10] == '.' && s[s.len() - 7] == '.' && s[s.len() - 4] == '.'
    &&& forall|k: int|
        s.len() - 18 <= k < s.len() && k != s.len() - 16 && k != s.len() - 13 && k != s.len()
            - 10 && k != s.len() - 7 && k != s.len() - 4 ==> ('0' <= #[trigger] s[k] && s[k]
            <= '9')
}

/// Relies on chrono's `Local::now` and its strftime items for the
/// dev-version timestamp: which instant is read depends on the wall
/// clock, but every reading is formatted with a year zero-padded to at
/// least four characters and fixed-width, zero-padded calendar and time
/// fields, dot-separated.
#[verifier::external_body]
fn local_timestamp_millis() -> (r: String)
    ensures
        spec_timestamp_shaped(r@),
{
    format!("{}", chrono::Local::now().format("%Y.%m.%d.%H.%M.%S.%3f"))
}

/// Composes a dev version from its parts: the declared version, an
/// optional user, and a timestamp.
pub fn dev_version_text(version: &str, user: Option<&str>, timestamp: &str) -> (r: String)
    ensures
        r@ == spec_dev_version(version@, user.deep_view(), timestamp@),
{
    let mut s = version.to_owned();
    match user {
        Some(u) => {
            s.append("-");
            s.append(u);
        },
        None => {},
    }
    s.append("-");
    s.append(timestamp);
    proof {
        assert(s@ =~= spec_dev_version(version@, user.deep_view(), timestamp@));
    }
    s
}

impl ExpansionContext {
    pub fn new(
        relative_to: String,
        invoice_versioning: InvoiceVersioning,
        dev_user: Option<String>,
        external_invoices: Option<Vec<(String, Invoice)>>,
    ) -> (r: Self)
        ensures
            r.relative_to == relative_to,
            r.invoice_versioning == invoice_versioning,
            r.dev_user == dev_user,
            r.external_invoices == external_invoices,
    {
        Self { relative_to, invoice_versioning, dev_user, external_invoices }
    }

    /// Joins a pattern onto the base directory; a pure path join with no
    /// existence check.
    pub fn to_absolute(&self, pattern: &str) -> (r: String)
        ensures
            r@ == spec_join_path(self.relative_to@, pattern@),
    {
        let plen = pattern.unicode_len();
        if plen > 0 && pattern.get_char(0) == '/' {
            return pattern.to_owned();
        }
        let base = self.relative_to.as_str();
        let blen = base.unicode_len();
        if blen == 0 {
            return pattern.to_owned();
        }
        let mut s = self.relative_to.clone();
        if base.get_char(blen - 1) == '/' {
            s.append(pattern);
        } else {
            s.append("/");
            s.append(pattern);
        }
        s
    }

    /// Strips the base-directory prefix and normalizes separators; fails
    /// when the path does not lie under the base directory.
    #[verifier::loop_isolation(false)]
    pub fn to_relative(&self, path: &str) -> (r: Result<String, PathError>)
        ensures
            r is Ok <==> is_under(path@, self.relative_to@),
            (match r {
                Ok(s) => s@ == rel_name_of(self.relative_to@, path@),
                Err(e) => e matches PathError::OutsideBase { path: p } && p@ == path@,
            }),
    {
        let base = self.relative_to.as_str();
        let blen = base.unicode_len();
        let n = path.unicode_len();
        if n < blen {
            return Err(PathError::OutsideBase { path: path.to_owned() });
        }
        let mut i: usize = 0;
        while i < blen
            invariant
                i <= blen,
                forall|j: int| 0 <= j < i ==> path@[j] == base@[j],
            decreases blen - i,
        {
            if path.get_char(i) != base.get_char(i) {
                proof {
                    assert(path@.take(blen as int)[i as int] != base@[i as int]);
                }
                return Err(PathError::OutsideBase { path: path.to_owned() });
            }
            i += 1;
        }
        proof {
            assert(path@.take(blen as int) =~= base@);
        }
        if blen > 0 && n > blen {
            let boundary = path.get_char(blen);
            let base_end = base.get_char(blen - 1);
            if boundary != '/' && boundary != '\\' && base_end != '/' && base_end != '\\' {
                return Err(PathError::OutsideBase { path: path.to_owned() });
            }
        }
        let mut j: usize = blen;
        loop
            invariant
                blen <= j <= n,
                drop_leading_seps(path@.skip(blen as int)) == drop_leading_seps(
                    path@.skip(j as int),
                ),
            decreases n - j,
        {
            if j >= n {
                break ;
            }
            let c = path.get_char(j);
            if c != '/' && c != '\\' {
                break ;
            }
            proof {
                assert(path@.skip(j as int).drop_first() =~= path@.skip(j as int + 1));
            }
            j += 1;
        }
        proof {
            assert(drop_leading_seps(path@.skip(j as int)) == path@.skip(j as int));
        }
        let ghost j0 = j as int;
        let mut out = String::new();
        let mut k: usize = j;
        while k < n
            invariant
                j0 == j as int,
                j <= k <= n,
                out@ =~= normalize_seps(path@.subrange(j0, k as int)),
            decreases n - k,
        {
            let c = path.get_char(k);
            if c == '\\' {
                proof {
                    reveal_strlit("/");
                }
                out.append("/");
            } else {
                let piece = path.substring_char(k, k + 1);
                out.append(piece);
            }
            proof {
                assert(out@ =~= normalize_seps(path@.subrange(j0, k as int + 1)));
            }
            k += 1;
        }
        proof {
            assert(path@.subrange(j0, n as int) =~= path@.skip(j0));
            assert(out@ =~= rel_name_of(self.relative_to@, path@));
        }
        Ok(out)
    }

    /// Mangles the declared version according to the versioning policy:
    /// production keeps it unchanged, dev appends user and timestamp.
    pub fn mangle_version(&self, version: &str) -> (r: String)
        ensures
            self.invoice_versioning == InvoiceVersioning::Production ==> r@ == version@,
            self.invoice_versioning == InvoiceVersioning::Dev ==> exists|ts: Seq<char>|
                r@ == spec_dev_version(version@, self.dev_user.deep_view(), ts)
                    && spec_timestamp_shaped(ts),
    {
        match self.invoice_versioning {
            InvoiceVersioning::Production => version.to_owned(),
            InvoiceVersioning::Dev => {
                let ts = local_timestamp_millis();
                let user = match &self.dev_user {
                    Some(u) => Some(u.as_str()),
                    None => None,
                };
                let r = dev_version_text(version, user, ts.as_str());
                proof {
                    assert(r@ == spec_dev_version(version@, self.dev_user.deep_view(), ts@));
                }
                r
            },
        }
    }

    /// The pre-fetched invoice of the given registry identifier, if any.
    pub fn find_invoice(&self, id: &str) -> (r: Option<&Invoice>)
        ensures
            (match (r, self.external_invoices) {
                (Some(inv), Some(list)) => spec_lookup_by_key(list@, id@) == Some(*inv),
                (None, Some(list)) => spec_lookup_by_key(list@, id@) is None,
                (None, None) => true,
                (Some(_), None) => false,
            }),
    {
        match &self.external_invoices {
            None => None,
            Some(list) => lookup_by_key(list, id),
        }
    }

    /// Resolves an external handler reference against the pre-fetched
    /// invoices: the invoice must have been fetched and must hold a parcel
    /// advertising the referenced handler id.
    pub fn find_handler_parcel<'a>(&'a self, external_ref: &ExternalRef) -> (r: Result<
        (&'a Invoice, &'a Parcel),
        ResolutionError,
    >)
        ensures
            (match r {
                Ok((inv, p)) => {
                    &&& self.external_invoices matches Some(list)
                    &&& (self.external_invoices matches Some(list) ==> spec_lookup_by_key(
                        list@,
                        external_ref.bindle_id@,
                    ) == Some(*inv))
                    &&& spec_find_handler_parcel(*inv, external_ref.handler_id@) == Some(*p)
                },
                Err(ResolutionError::InvoiceNotFound { bindle_id }) => {
                    &&& bindle_id@ == external_ref.bindle_id@
                    &&& (match self.external_invoices {
                        Some(list) => spec_lookup_by_key(list@, external_ref.bindle_id@) is None,
                        None => true,
                    })
                },
                Err(ResolutionError::ParcelNotFound { bindle_id, name }) => {
                    &&& bindle_id@ == external_ref.bindle_id@
                    &&& name@ == external_ref.handler_id@
                    &&& (match self.external_invoices {
                        Some(list) => (match spec_lookup_by_key(list@, external_ref.bindle_id@) {
                            Some(inv) => spec_find_handler_parcel(
                                inv,
                                external_ref.handler_id@,
                            ) is None,
                            None => false,
                        }),
                        None => false,
                    })
                },
                Err(_) => false,
            }),
    {
        match self.find_invoice(external_ref.bindle_id.as_str()) {
            None => Err(
                ResolutionError::InvoiceNotFound { bindle_id: external_ref.bindle_id.clone() },
            ),
            Some(inv) => match crate::expander::externals::find_handler_parcel(
                inv,
                external_ref.handler_id.as_str(),
            ) {
                None => Err(
                    ResolutionError::ParcelNotFound {
                        bindle_id: external_ref.bindle_id.clone(),
                        name: external_ref.handler_id.clone(),
                    },
                ),
                Some(p) => Ok((inv, p)),
            },
        }
    }
}

} // verus!
