//! The expansion engine: derives one group per handler, converts handler
//! modules and glob-matched assets into parcels, deduplicates them by
//! content identity, and assembles the invoice.
//!
//! Hashing local files needs their bytes, which the caller reads; the
//! expansion therefore runs in two verified steps.  `expand_plan` does
//! everything except hashing and leaves each local file as an
//! `AwaitingFile` entry; `assemble_invoice` takes the digests, completes
//! the parcels, merges them, and builds the invoice.

pub mod collections;
pub mod expansion_context;
pub mod externals;
pub mod invoice_versioning;
pub mod merge;

use vstd::prelude::*;
use vstd::string::*;
use sha2::Digest;

use crate::errors::ExpansionError;
use crate::errors::IoError;
use crate::errors::PathError;
use crate::errors::ResolutionError;
use crate::expander::collections::map_of;
use crate::expander::collections::spec_lookup_by_key;
use crate::expander::collections::spec_vector_of;
use crate::expander::collections::vector_of;
use crate::expander::expansion_context::ExpansionContext;
use crate::expander::expansion_context::rel_name_of;
use crate::expander::expansion_context::spec_dev_version;
use crate::expander::invoice_versioning::InvoiceVersioning;
use crate::expander::expansion_context::spec_join_path;
use crate::expander::expansion_context::is_under;
use crate::hippofacts::Handler;
use crate::hippofacts::HandlerModule;
use crate::hippofacts::HippoFacts;
use crate::hippofacts::ParcelReference;
use crate::invoice::Condition;
use crate::invoice::ConditionV;
use crate::invoice::Group;
use crate::invoice::GroupV;
use crate::invoice::Invoice;
use crate::invoice::Label;
use crate::invoice::LabelV;
use crate::invoice::Parcel;
use crate::invoice::ParcelV;

verus! {

/// The lowercase hex SHA-256 digest of the given bytes.
pub uninterp spec fn sha256_hex_of(data: Seq<u8>) -> Seq<char>;

/// Relies on sha2's SHA-256 implementation: the digest depends on the
/// bytes alone, hex-encoded as two lowercase digits per byte.
#[verifier::external_body]
fn sha256_hex(data: &[u8]) -> (r: String)
    ensures
        r@ == sha256_hex_of(data@),
{
    let out = sha2::Sha256::digest(data);
    let mut hex = String::new();
    for b in out.iter() {
        hex.push_str(&format!("{:02x}", b));
    }
    hex
}

/// The media type guessed from a path's extension, with
/// `application/octet-stream` as the fallback.
pub uninterp spec fn media_type_of(path: Seq<char>) -> Seq<char>;

/// Relies on mime_guess::from_path: the guess depends on the path text
/// alone.
#[verifier::external_body]
fn guess_media_type(path: &str) -> (r: String)
    ensures
        r@ == media_type_of(path@),
{
    mime_guess::from_path(path).first_or_octet_stream().to_string()
}

/// The error shapes a glob walk over `pattern` can produce: the pattern
/// is invalid, a match is unreadable, or a matched path is not valid
/// text.
pub open spec fn glob_call_error(pattern: Seq<char>, e: ExpansionError) -> bool {
    ||| (e matches ExpansionError::Io(IoError::BadPattern { pattern: p }) && p@ == pattern)
    ||| (e matches ExpansionError::Io(IoError::GlobMatch { pattern: p }) && p@ == pattern)
    ||| (e matches ExpansionError::Path(PathError::NotUtf8 { .. }))
}

/// Relies on glob::glob: the matched paths, as text, in the order the
/// walk yields them.  Which paths match depends on the filesystem, so
/// nothing is promised of the `Ok` side, and a pattern yielding no match
/// is simply `Ok` empty; a failure always carries one of the glob error
/// shapes for the walked pattern.
#[verifier::external_body]
fn glob_paths(pattern: &str) -> (r: Result<Vec<String>, ExpansionError>)
    ensures
        (r matches Err(e) ==> glob_call_error(pattern@, e)),
{
    let walk = glob::glob(pattern).map_err(
        |_| ExpansionError::Io(IoError::BadPattern { pattern: pattern.to_owned() }),
    )?;
    walk.map(
        |p| match p {
            Err(_) => Err(ExpansionError::Io(IoError::GlobMatch { pattern: pattern.to_owned() })),
            Ok(pb) => pb.to_str().map(|s| s.to_owned()).ok_or_else(
                || ExpansionError::Path(
                    PathError::NotUtf8 { path: pb.to_string_lossy().to_string() },
                ),
            ),
        },
    ).collect()
}

/// The digest and size of one local file's contents.
#[derive(Debug, Clone, PartialEq, Eq)]
pub struct FileDigest {
    pub sha256: String,
    pub size: u64,
}

#[verifier::ext_equal]
pub ghost struct FileDigestV {
    pub sha256: Seq<char>,
    pub size: u64,
}

impl DeepView for FileDigest {
    type V = FileDigestV;

    open spec fn deep_view(&self) -> FileDigestV {
        FileDigestV { sha256: self.sha256.deep_view(), size: self.size }
    }
}

/// Hashes file contents: the caller reads the bytes, this computes their
/// digest and size.
pub fn digest_of_bytes(data: &[u8]) -> (r: FileDigest)
    ensures
        r.sha256@ == sha256_hex_of(data@),
        r.size as nat == data@.len(),
{
    FileDigest { sha256: sha256_hex(data), size: data.len() as u64 }
}

/// The base name of the module behind a handler: the local file name, or
/// the referenced parcel name.
pub open spec fn spec_module_name(h: Handler) -> Seq<char> {
    match h.handler_module {
        HandlerModule::File(name) => name@,
        HandlerModule::External(pr) => pr.name@,
    }
}

/// The derived group name: the module's base name plus the literal
/// suffix `-files`.
pub open spec fn spec_group_name(h: Handler) -> Seq<char> {
    spec_module_name(h) + "-files"@
}

/// The group a handler derives.
pub open spec fn spec_group_of(h: Handler) -> GroupV {
    GroupV { name: spec_group_name(h), required: None, satisfied_by: None }
}

/// One group per handler, in manifest order.
pub open spec fn spec_groups(handlers: Seq<Handler>) -> Seq<GroupV> {
    Seq::new(handlers.len(), |i: int| spec_group_of(handlers[i]))
}

/// The name of a handler's group: its module's base name plus the
/// literal suffix `-files`.
pub fn group_name(handler: &Handler) -> (r: String)
    ensures
        r@ == spec_group_name(*handler),
{
    match &handler.handler_module {
        HandlerModule::File(name) => {
            let mut s = name.clone();
            s.append("-files");
            s
        },
        HandlerModule::External(pr) => {
            let mut s = pr.name.clone();
            s.append("-files");
            s
        },
    }
}

/// Derives a handler's group: named after the module, with `required`
/// and `satisfied_by` unset.
pub fn expand_to_group(handler: &Handler) -> (r: Group)
    ensures
        r.deep_view() == spec_group_of(*handler),
{
    Group { name: group_name(handler), required: None, satisfied_by: None }
}

/// Derives one group per handler, in manifest order.
#[verifier::loop_isolation(false)]
pub fn expand_all_handlers_to_groups(hippofacts: &HippoFacts) -> (r: Vec<Group>)
    ensures
        r.deep_view() =~~= spec_groups(hippofacts.handler@),
{
    let mut groups: Vec<Group> = Vec::new();
    let mut i: usize = 0;
    while i < hippofacts.handler.len()
        invariant
            i <= hippofacts.handler@.len(),
            groups.deep_view() =~~= spec_groups(hippofacts.handler@).take(i as int),
        decreases hippofacts.handler@.len() - i,
    {
        groups.push(expand_to_group(&hippofacts.handler[i]));
        proof {
            assert(groups.deep_view() =~~= spec_groups(hippofacts.handler@).take(i as int + 1));
        }
        i += 1;
    }
    proof {
        assert(spec_groups(hippofacts.handler@).take(hippofacts.handler@.len() as int)
            =~= spec_groups(hippofacts.handler@));
    }
    groups
}

/// The nested feature annotations of a parcel: the given pairs under the
/// `wagi` namespace.
pub open spec fn spec_wagi_feature_of(values: Seq<(Seq<char>, Seq<char>)>) -> Seq<
    (Seq<char>, Seq<(Seq<char>, Seq<char>)>),
> {
    seq![("wagi"@, values)]
}

/// Wraps feature pairs in the `wagi` namespace.
pub fn wagi_feature_of(values: Vec<(&str, &str)>) -> (r: Vec<(String, Vec<(String, String)>)>)
    ensures
        r.deep_view() =~~= spec_wagi_feature_of(values.deep_view()),
{
    let inner = map_of(values);
    let mut v: Vec<(String, Vec<(String, String)>)> = Vec::new();
    v.push(("wagi".to_owned(), inner));
    proof {
        assert(v.deep_view() =~~= spec_wagi_feature_of(values.deep_view()));
    }
    v
}

/// A parcel built from its parts: label fields, `wagi` features, and the
/// role conditions.
pub open spec fn spec_parcel_of(
    name: Seq<char>,
    digest: Seq<char>,
    media_type: Seq<char>,
    size: u64,
    features: Seq<(Seq<char>, Seq<char>)>,
    member_of: Option<Seq<char>>,
    requirements: Option<Seq<char>>,
) -> ParcelV {
    ParcelV {
        label: LabelV {
            name,
            sha256: digest,
            media_type,
            size,
            feature: Some(spec_wagi_feature_of(features)),
            annotations: None,
        },
        conditions: Some(
            ConditionV {
                member_of: spec_vector_of(member_of),
                requirements: spec_vector_of(requirements),
            },
        ),
    }
}

fn parcel_of(
    name: String,
    digest_string: String,
    media_type: String,
    size: u64,
    wagi_features: Vec<(&str, &str)>,
    member_of: Option<&str>,
    requirements: Option<&str>,
) -> (r: Parcel)
    ensures
        r.deep_view() == spec_parcel_of(
            name@,
            digest_string@,
            media_type@,
            size,
            wagi_features.deep_view(),
            member_of.deep_view(),
            requirements.deep_view(),
        ),
{
    let ghost fv = wagi_features.deep_view();
    let ghost mv = member_of.deep_view();
    let ghost rv = requirements.deep_view();
    let feature = wagi_feature_of(wagi_features);
    let r = Parcel {
        label: Label {
            name,
            sha256: digest_string,
            media_type,
            size,
            feature: Some(feature),
            annotations: None,
        },
        conditions: Some(
            Condition { member_of: vector_of(member_of), requirements: vector_of(requirements) },
        ),
    };
    proof {
        assert(r.deep_view() =~~= spec_parcel_of(
            r.label.name@,
            r.label.sha256@,
            r.label.media_type@,
            size,
            fv,
            mv,
            rv,
        ));
    }
    r
}

/// The parcels of a fetched invoice, empty when it declares none.
pub open spec fn invoice_parcels(inv: Invoice) -> Seq<Parcel> {
    match inv.parcel {
        Some(ps) => ps@,
        None => Seq::empty(),
    }
}

/// Some parcel of `ps` has the given name.
pub open spec fn has_name_match(ps: Seq<Parcel>, name: Seq<char>) -> bool {
    exists|i: int| 0 <= i < ps.len() && ps[i].label.name@ == name
}

/// Exactly one parcel of `ps` has the given name.
pub open spec fn unique_name_match(ps: Seq<Parcel>, name: Seq<char>) -> bool {
    &&& has_name_match(ps, name)
    &&& forall|i: int, j: int|
        (0 <= i < ps.len() && 0 <= j < ps.len() && ps[i].label.name@ == name
            && ps[j].label.name@ == name) ==> i == j
}

/// The parcel of `ps` with the given name, when it is unique.
pub open spec fn the_name_match(ps: Seq<Parcel>, name: Seq<char>) -> Parcel {
    ps[choose|i: int| 0 <= i < ps.len() && ps[i].label.name@ == name]
}

/// Resolves an external reference: the referenced invoice must have been
/// fetched from the configured registry, and exactly one of its parcels
/// must carry the referenced name.  The source parcel's digest, media
/// type, and size are reused verbatim; the features and conditions are
/// this handler's own.
#[verifier::loop_isolation(false)]
pub fn convert_external_parcel_ref_to_parcel(
    parcel_ref: &ParcelReference,
    expansion_context: &ExpansionContext,
    wagi_features: Vec<(&str, &str)>,
    member_of: Option<&str>,
    requirements: Option<&str>,
) -> (r: Result<Parcel, ExpansionError>)
    ensures
        (match expansion_context.external_invoices {
            None => r matches Err(ExpansionError::Resolution(
                ResolutionError::NoRegistry { bindle_id, name },
            )) && bindle_id@ == parcel_ref.bindle_id@ && name@ == parcel_ref.name@,
            Some(list) => (match spec_lookup_by_key(list@, parcel_ref.bindle_id@) {
                None => r matches Err(ExpansionError::Resolution(
                    ResolutionError::InvoiceNotFound { bindle_id },
                )) && bindle_id@ == parcel_ref.bindle_id@,
                Some(inv) => {
                    if !has_name_match(invoice_parcels(inv), parcel_ref.name@) {
                        r matches Err(ExpansionError::Resolution(
                            ResolutionError::ParcelNotFound { bindle_id, name },
                        )) && bindle_id@ == parcel_ref.bindle_id@ && name@ == parcel_ref.name@
                    } else if !unique_name_match(invoice_parcels(inv), parcel_ref.name@) {
                        r matches Err(ExpansionError::Resolution(
                            ResolutionError::AmbiguousParcel { bindle_id, name },
                        )) && bindle_id@ == parcel_ref.bindle_id@ && name@ == parcel_ref.name@
                    } else {
                        r matches Ok(p) && p.deep_view() == spec_parcel_of(
                            parcel_ref.name@,
                            the_name_match(invoice_parcels(inv), parcel_ref.name@).label.sha256@,
                            the_name_match(
                                invoice_parcels(inv),
                                parcel_ref.name@,
                            ).label.media_type@,
                            the_name_match(invoice_parcels(inv), parcel_ref.name@).label.size,
                            wagi_features.deep_view(),
                            member_of.deep_view(),
                            requirements.deep_view(),
                        )
                    }
                },
            }),
        }),
{
    if expansion_context.external_invoices.is_none() {
        return Err(
            ExpansionError::Resolution(
                ResolutionError::NoRegistry {
                    bindle_id: parcel_ref.bindle_id.clone(),
                    name: parcel_ref.name.clone(),
                },
            ),
        );
    }
    let source_invoice = match expansion_context.find_invoice(parcel_ref.bindle_id.as_str()) {
        None => {
            return Err(
                ExpansionError::Resolution(
                    ResolutionError::InvoiceNotFound { bindle_id: parcel_ref.bindle_id.clone() },
                ),
            );
        },
        Some(inv) => inv,
    };
    let ghost gi = spec_lookup_by_key(
        expansion_context.external_invoices->Some_0@,
        parcel_ref.bindle_id@,
    )->Some_0;
    let source_parcels = match &source_invoice.parcel {
        None => {
            proof {
                assert(!has_name_match(invoice_parcels(gi), parcel_ref.name@));
            }
            return Err(
                ExpansionError::Resolution(
                    ResolutionError::ParcelNotFound {
                        bindle_id: parcel_ref.bindle_id.clone(),
                        name: parcel_ref.name.clone(),
                    },
                ),
            );
        },
        Some(ps) => ps,
    };
    let n = source_parcels.len();
    let mut f: usize = n;
    let mut i: usize = 0;
    while i < n
        invariant
            i <= n,
            n == source_parcels@.len(),
            f == n || (f < i && source_parcels@[f as int].label.name@ == parcel_ref.name@),
            f == n ==> forall|j: int|
                0 <= j < i ==> source_parcels@[j].label.name@ != parcel_ref.name@,
            f < n ==> forall|j: int|
                0 <= j < f ==> source_parcels@[j].label.name@ != parcel_ref.name@,
        decreases n - i,
    {
        if f == n && source_parcels[i].label.name.eq(&parcel_ref.name) {
            f = i;
        }
        i += 1;
    }
    if f == n {
        return Err(
            ExpansionError::Resolution(
                ResolutionError::ParcelNotFound {
                    bindle_id: parcel_ref.bindle_id.clone(),
                    name: parcel_ref.name.clone(),
                },
            ),
        );
    }
    let mut k: usize = f + 1;
    while k < n
        invariant
            f < k <= n,
            n == source_parcels@.len(),
            source_parcels@[f as int].label.name@ == parcel_ref.name@,
            forall|j: int| f < j < k ==> source_parcels@[j].label.name@ != parcel_ref.name@,
            forall|j: int| 0 <= j < f ==> source_parcels@[j].label.name@ != parcel_ref.name@,
        decreases n - k,
    {
        if source_parcels[k].label.name.eq(&parcel_ref.name) {
            return Err(
                ExpansionError::Resolution(
                    ResolutionError::AmbiguousParcel {
                        bindle_id: parcel_ref.bindle_id.clone(),
                        name: parcel_ref.name.clone(),
                    },
                ),
            );
        }
        k += 1;
    }
    let source_parcel = &source_parcels[f];
    proof {
        assert(unique_name_match(invoice_parcels(gi), parcel_ref.name@));
        let w = choose|i: int|
            0 <= i < invoice_parcels(gi).len() && invoice_parcels(gi)[i].label.name@
                == parcel_ref.name@;
        assert(w == f as int);
    }
    Ok(
        parcel_of(
            parcel_ref.name.clone(),
            source_parcel.label.sha256.clone(),
            source_parcel.label.media_type.clone(),
            source_parcel.label.size,
            wagi_features,
            member_of,
            requirements,
        ),
    )
}

/// A local file awaiting its digest: everything of its parcel but the
/// digest and size.
#[derive(Debug)]
pub struct LocalFileRef {
    pub abs_path: String,
    pub name: String,
    pub media_type: String,
    pub feature: Vec<(String, Vec<(String, String)>)>,
    pub member_of: Option<String>,
    pub requirements: Option<String>,
}

#[verifier::ext_equal]
pub ghost struct LocalFileRefV {
    pub abs_path: Seq<char>,
    pub name: Seq<char>,
    pub media_type: Seq<char>,
    pub feature: Seq<(Seq<char>, Seq<(Seq<char>, Seq<char>)>)>,
    pub member_of: Option<Seq<char>>,
    pub requirements: Option<Seq<char>>,
}

impl DeepView for LocalFileRef {
    type V = LocalFileRefV;

    open spec fn deep_view(&self) -> LocalFileRefV {
        LocalFileRefV {
            abs_path: self.abs_path.deep_view(),
            name: self.name.deep_view(),
            media_type: self.media_type.deep_view(),
            feature: self.feature.deep_view(),
            member_of: self.member_of.deep_view(),
            requirements: self.requirements.deep_view(),
        }
    }
}

/// A parcel of the plan: ready, or awaiting a local file's digest.
#[derive(Debug)]
pub enum PendingParcel {
    Ready(Parcel),
    AwaitingFile(LocalFileRef),
}

/// Everything of the invoice except the digests of local files.
#[derive(Debug)]
pub struct ExpansionPlan {
    pub id: String,
    pub description: Option<String>,
    pub authors: Option<Vec<String>>,
    pub annotations: Option<Vec<(String, String)>>,
    pub groups: Vec<Group>,
    pub parcels: Vec<PendingParcel>,
}

/// The feature pairs of a handler-module parcel: its route, and
/// `file=false`.
pub open spec fn spec_handler_features(route: Seq<char>) -> Seq<(Seq<char>, Seq<char>)> {
    seq![("route"@, route), ("file"@, "false"@)]
}

/// The feature pairs of an asset parcel: an empty route, and `file=true`.
pub open spec fn spec_asset_features() -> Seq<(Seq<char>, Seq<char>)> {
    seq![("route"@, ""@), ("file"@, "true"@)]
}

/// The pending parcel of one glob-matched asset file: named relative to
/// the base, marked `file=true`, member of exactly its handler's group,
/// requiring nothing.
pub open spec fn spec_asset_ref(base: Seq<char>, path: Seq<char>, group: Seq<char>) -> LocalFileRefV {
    LocalFileRefV {
        abs_path: path,
        name: rel_name_of(base, path),
        media_type: media_type_of(path),
        feature: spec_wagi_feature_of(spec_asset_features()),
        member_of: Some(group),
        requirements: None,
    }
}

/// All paths lie under the base directory.
pub open spec fn all_under_base(paths: Seq<Seq<char>>, base: Seq<char>) -> bool {
    forall|i: int| 0 <= i < paths.len() ==> is_under(#[trigger] paths[i], base)
}

/// The asset refs of the matched paths, in match order.
pub open spec fn spec_asset_refs(paths: Seq<Seq<char>>, base: Seq<char>, group: Seq<char>) -> Seq<
    LocalFileRefV,
> {
    Seq::new(paths.len(), |i: int| spec_asset_ref(base, paths[i], group))
}

/// Converts one glob match into a pending asset parcel.
fn try_convert_one_match_to_parcel(
    path: &str,
    expansion_context: &ExpansionContext,
    member_of: &str,
) -> (r: Result<LocalFileRef, ExpansionError>)
    ensures
        r is Ok <==> is_under(path@, expansion_context.relative_to@),
        (match r {
            Ok(f) => f.deep_view() == spec_asset_ref(
                expansion_context.relative_to@,
                path@,
                member_of@,
            ),
            Err(e) => e matches ExpansionError::Path(PathError::OutsideBase { path: p }) && p@
                == path@,
        }),
{
    let media_type = guess_media_type(path);
    let name = match expansion_context.to_relative(path) {
        Err(e) => {
            return Err(ExpansionError::Path(e));
        },
        Ok(s) => s,
    };
    let mut fv: Vec<(&str, &str)> = Vec::new();
    fv.push(("route", ""));
    fv.push(("file", "true"));
    proof {
        assert(fv.deep_view() =~~= spec_asset_features());
    }
    let feature = wagi_feature_of(fv);
    let f = LocalFileRef {
        abs_path: path.to_owned(),
        name,
        media_type,
        feature,
        member_of: Some(member_of.to_owned()),
        requirements: None,
    };
    proof {
        assert(f.deep_view() =~~= spec_asset_ref(
            expansion_context.relative_to@,
            path@,
            member_of@,
        ));
    }
    Ok(f)
}

/// Converts glob matches into pending asset parcels; zero matches yield
/// zero parcels and are not an error.
#[verifier::loop_isolation(false)]
pub fn expand_matches_to_parcels(
    matches: &Vec<String>,
    expansion_context: &ExpansionContext,
    member_of: &str,
) -> (r: Result<Vec<LocalFileRef>, ExpansionError>)
    ensures
        r is Ok <==> all_under_base(matches.deep_view(), expansion_context.relative_to@),
        matches@.len() == 0 ==> (r matches Ok(v) && v@.len() == 0),
        (match r {
            Ok(v) => v.deep_view() =~~= spec_asset_refs(
                matches.deep_view(),
                expansion_context.relative_to@,
                member_of@,
            ),
            Err(e) => exists|i: int|
                {
                    &&& 0 <= i < matches@.len()
                    &&& !is_under(#[trigger] matches.deep_view()[i], expansion_context.relative_to@)
                    &&& e matches ExpansionError::Path(PathError::OutsideBase { path: p }) && p@
                        == matches.deep_view()[i]
                },
        }),
{
    let mut out: Vec<LocalFileRef> = Vec::new();
    let mut i: usize = 0;
    while i < matches.len()
        invariant
            i <= matches@.len(),
            out.deep_view() =~~= spec_asset_refs(
                matches.deep_view(),
                expansion_context.relative_to@,
                member_of@,
            ).take(i as int),
            forall|j: int|
                0 <= j < i ==> is_under(
                    #[trigger] matches.deep_view()[j],
                    expansion_context.relative_to@,
                ),
        decreases matches@.len() - i,
    {
        match try_convert_one_match_to_parcel(
            matches[i].as_str(),
            expansion_context,
            member_of,
        ) {
            Err(e) => {
                proof {
                    assert(matches.deep_view()[i as int] == matches@[i as int]@);
                    assert(!is_under(
                        matches.deep_view()[i as int],
                        expansion_context.relative_to@,
                    ));
                }
                return Err(e);
            },
            Ok(f) => {
                out.push(f);
            },
        }
        proof {
            assert(out.deep_view() =~~= spec_asset_refs(
                matches.deep_view(),
                expansion_context.relative_to@,
                member_of@,
            ).take(i as int + 1));
        }
        i += 1;
    }
    proof {
        assert(spec_asset_refs(
            matches.deep_view(),
            expansion_context.relative_to@,
            member_of@,
        ).take(matches@.len() as int) =~= spec_asset_refs(
            matches.deep_view(),
            expansion_context.relative_to@,
            member_of@,
        ));
    }
    Ok(out)
}

/// One pending asset ref is a well-formed asset of the given group, for
/// some matched path under the base.
pub open spec fn asset_elem_ok(f: LocalFileRefV, base: Seq<char>, group: Seq<char>) -> bool {
    exists|p: Seq<char>| is_under(p, base) && f == spec_asset_ref(base, p, group)
}

/// Expands one glob pattern of a handler into pending asset parcels.
pub fn expand_file_to_parcels(
    pattern: &str,
    expansion_context: &ExpansionContext,
    member_of: &str,
) -> (r: Result<Vec<LocalFileRef>, ExpansionError>)
    ensures
        (match r {
            Ok(v) => forall|k: int|
                0 <= k < v.deep_view().len() ==> asset_elem_ok(
                    #[trigger] v.deep_view()[k],
                    expansion_context.relative_to@,
                    member_of@,
                ),
            Err(e) => glob_call_error(
                spec_join_path(expansion_context.relative_to@, pattern@),
                e,
            ) || (e matches ExpansionError::Path(PathError::OutsideBase { .. })),
        }),
{
    let absolute = expansion_context.to_absolute(pattern);
    match glob_paths(absolute.as_str()) {
        Err(e) => Err(e),
        Ok(matches) => {
            let r = expand_matches_to_parcels(&matches, expansion_context, member_of);
            proof {
                if r is Ok {
                    let v = r->Ok_0;
                    assert forall|k: int| 0 <= k < v.deep_view().len() implies asset_elem_ok(
                        #[trigger] v.deep_view()[k],
                        expansion_context.relative_to@,
                        member_of@,
                    ) by {
                        assert(is_under(
                            matches.deep_view()[k],
                            expansion_context.relative_to@,
                        ));
                        assert(v.deep_view()[k] == spec_asset_ref(
                            expansion_context.relative_to@,
                            matches.deep_view()[k],
                            member_of@,
                        ));
                    }
                }
            }
            r
        },
    }
}

/// Expands all of one handler's `files` patterns into pending asset
/// parcels; an absent or empty `files` list yields none.
#[verifier::loop_isolation(false)]
pub fn expand_files_to_parcels(
    handler: &Handler,
    expansion_context: &ExpansionContext,
) -> (r: Result<Vec<LocalFileRef>, ExpansionError>)
    ensures
        (match handler.files {
            None => r matches Ok(v) && v@.len() == 0,
            Some(ps) => ps@.len() == 0 ==> (r matches Ok(v) && v@.len() == 0),
        }),
        (match r {
            Ok(v) => forall|k: int|
                0 <= k < v.deep_view().len() ==> asset_elem_ok(
                    #[trigger] v.deep_view()[k],
                    expansion_context.relative_to@,
                    spec_group_name(*handler),
                ),
            Err(e) => (exists|j: int|
                {
                    &&& 0 <= j < spec_pattern_count(*handler)
                    &&& glob_call_error(
                        spec_join_path(
                            expansion_context.relative_to@,
                            #[trigger] spec_pattern_of(*handler, j),
                        ),
                        e,
                    )
                }) || (e matches ExpansionError::Path(PathError::OutsideBase { .. })),
        }),
{
    let group = group_name(handler);
    let mut out: Vec<LocalFileRef> = Vec::new();
    match &handler.files {
        None => Ok(out),
        Some(patterns) => {
            let mut i: usize = 0;
            while i < patterns.len()
                invariant
                    i <= patterns@.len(),
                    i == 0 ==> out@.len() == 0,
                    group@ == spec_group_name(*handler),
                    forall|k: int|
                        0 <= k < out.deep_view().len() ==> asset_elem_ok(
                            #[trigger] out.deep_view()[k],
                            expansion_context.relative_to@,
                            spec_group_name(*handler),
                        ),
                decreases patterns@.len() - i,
            {
                match expand_file_to_parcels(
                    patterns[i].as_str(),
                    expansion_context,
                    group.as_str(),
                ) {
                    Err(e) => {
                        proof {
                            assert(spec_pattern_of(*handler, i as int) == patterns@[i as int]@);
                            assert(spec_pattern_count(*handler) == patterns@.len() as int);
                        }
                        return Err(e);
                    },
                    Ok(mut v) => {
                        let ghost pre = out.deep_view();
                        let ghost vv = v.deep_view();
                        out.append(&mut v);
                        proof {
                            assert(out.deep_view() =~~= pre + vv);
                        }
                    },
                }
                i += 1;
            }
            Ok(out)
        },
    }
}

/// The pending parcel of a local handler module: the module file awaits
/// hashing, carries its route and `file=false`, belongs to no group, and
/// requires its own group exactly when at least one asset file matched.
pub open spec fn spec_local_module_ref(
    name: Seq<char>,
    route: Seq<char>,
    group: Seq<char>,
    base: Seq<char>,
    has_assets: bool,
) -> LocalFileRefV {
    LocalFileRefV {
        abs_path: spec_join_path(base, name),
        name: rel_name_of(base, spec_join_path(base, name)),
        media_type: media_type_of(spec_join_path(base, name)),
        feature: spec_wagi_feature_of(spec_handler_features(route)),
        member_of: None,
        requirements: if has_assets {
            Some(group)
        } else {
            None
        },
    }
}

/// An external reference resolves: the registry is configured, the
/// referenced invoice was fetched, and exactly one of its parcels
/// carries the referenced name.
pub open spec fn external_resolvable(pr: ParcelReference, ctx: ExpansionContext) -> bool {
    match ctx.external_invoices {
        None => false,
        Some(list) => match spec_lookup_by_key(list@, pr.bindle_id@) {
            None => false,
            Some(inv) => unique_name_match(invoice_parcels(inv), pr.name@),
        },
    }
}

/// The unique source parcel an external reference resolves to.
pub open spec fn spec_resolved_source(pr: ParcelReference, ctx: ExpansionContext) -> Parcel {
    the_name_match(
        invoice_parcels(spec_lookup_by_key(ctx.external_invoices->Some_0@, pr.bindle_id@)->Some_0),
        pr.name@,
    )
}

/// A handler's module converts to a parcel without error.
pub open spec fn spec_handler_ok(h: Handler, ctx: ExpansionContext) -> bool {
    match h.handler_module {
        HandlerModule::File(name) => is_under(
            spec_join_path(ctx.relative_to@, name@),
            ctx.relative_to@,
        ),
        HandlerModule::External(pr) => external_resolvable(pr, ctx),
    }
}

/// Whether `p` is the awaited asset parcel viewed as `v`.
pub open spec fn is_asset_pending(p: PendingParcel, v: LocalFileRefV) -> bool {
    match p {
        PendingParcel::AwaitingFile(f) => f.deep_view() == v,
        PendingParcel::Ready(_) => false,
    }
}

/// How a handler's pending module parcel relates to the handler.
pub open spec fn spec_handler_pending(
    h: Handler,
    ctx: ExpansionContext,
    has_assets: bool,
    p: PendingParcel,
) -> bool {
    match h.handler_module {
        HandlerModule::File(name) => is_asset_pending(
            p,
            spec_local_module_ref(
                name@,
                h.route@,
                spec_group_name(h),
                ctx.relative_to@,
                has_assets,
            ),
        ),
        HandlerModule::External(pr) => (match p {
            PendingParcel::Ready(parcel) => parcel.deep_view() == spec_parcel_of(
                pr.name@,
                spec_resolved_source(pr, ctx).label.sha256@,
                spec_resolved_source(pr, ctx).label.media_type@,
                spec_resolved_source(pr, ctx).label.size,
                spec_handler_features(h.route@),
                None,
                if has_assets {
                    Some(spec_group_name(h))
                } else {
                    None
                },
            ),
            PendingParcel::AwaitingFile(_) => false,
        }),
    }
}

/// A handler's module parcel carries `file=false` and the handler's
/// exact route in its feature map, whether the module is local or
/// external.
pub proof fn lemma_handler_parcel_features(
    h: Handler,
    ctx: ExpansionContext,
    has_assets: bool,
    p: PendingParcel,
)
    requires
        spec_handler_pending(h, ctx, has_assets, p),
    ensures
        (match p {
            PendingParcel::Ready(parcel) => parcel.deep_view().label.feature == Some(
                spec_wagi_feature_of(spec_handler_features(h.route@)),
            ),
            PendingParcel::AwaitingFile(f) => f.deep_view().feature == spec_wagi_feature_of(
                spec_handler_features(h.route@),
            ),
        }),
{
}

/// Which error a handler whose module cannot convert produces.
pub open spec fn spec_handler_error(h: Handler, ctx: ExpansionContext, e: ExpansionError) -> bool {
    match h.handler_module {
        HandlerModule::File(name) => {
            &&& !is_under(spec_join_path(ctx.relative_to@, name@), ctx.relative_to@)
            &&& e matches ExpansionError::Path(PathError::OutsideBase { path }) && path@
                == spec_join_path(ctx.relative_to@, name@)
        },
        HandlerModule::External(pr) => (match ctx.external_invoices {
            None => e matches ExpansionError::Resolution(
                ResolutionError::NoRegistry { bindle_id, name },
            ) && bindle_id@ == pr.bindle_id@ && name@ == pr.name@,
            Some(list) => (match spec_lookup_by_key(list@, pr.bindle_id@) {
                None => e matches ExpansionError::Resolution(
                    ResolutionError::InvoiceNotFound { bindle_id },
                ) && bindle_id@ == pr.bindle_id@,
                Some(inv) => {
                    if !has_name_match(invoice_parcels(inv), pr.name@) {
                        e matches ExpansionError::Resolution(
                            ResolutionError::ParcelNotFound { bindle_id, name },
                        ) && bindle_id@ == pr.bindle_id@ && name@ == pr.name@
                    } else if !unique_name_match(invoice_parcels(inv), pr.name@) {
                        e matches ExpansionError::Resolution(
                            ResolutionError::AmbiguousParcel { bindle_id, name },
                        ) && bindle_id@ == pr.bindle_id@ && name@ == pr.name@
                    } else {
                        false
                    }
                },
            }),
        }),
    }
}

/// Converts one handler's module into its pending parcel: a local module
/// awaits hashing, an external one resolves against the fetched
/// invoices.  The module parcel requires its own group exactly when the
/// handler has at least one matched asset file.
pub fn convert_one_handler_module_to_parcel(
    handler: &Handler,
    expansion_context: &ExpansionContext,
    has_assets: bool,
) -> (r: Result<PendingParcel, ExpansionError>)
    ensures
        r is Ok <==> spec_handler_ok(*handler, *expansion_context),
        (r matches Ok(p) ==> spec_handler_pending(*handler, *expansion_context, has_assets, p)),
        (r matches Err(e) ==> spec_handler_error(*handler, *expansion_context, e)),
{
    let requirements: Option<String> = if has_assets {
        Some(group_name(handler))
    } else {
        None
    };
    match &handler.handler_module {
        HandlerModule::File(name) => {
            let absolute = expansion_context.to_absolute(name.as_str());
            let media_type = guess_media_type(absolute.as_str());
            let rel = match expansion_context.to_relative(absolute.as_str()) {
                Err(e) => {
                    return Err(ExpansionError::Path(e));
                },
                Ok(s) => s,
            };
            let mut fv: Vec<(&str, &str)> = Vec::new();
            fv.push(("route", handler.route.as_str()));
            fv.push(("file", "false"));
            proof {
                assert(fv.deep_view() =~~= spec_handler_features(handler.route@));
            }
            let feature = wagi_feature_of(fv);
            let f = LocalFileRef {
                abs_path: absolute,
                name: rel,
                media_type,
                feature,
                member_of: None,
                requirements,
            };
            proof {
                assert(f.deep_view() =~~= spec_local_module_ref(
                    name@,
                    handler.route@,
                    spec_group_name(*handler),
                    expansion_context.relative_to@,
                    has_assets,
                ));
            }
            Ok(PendingParcel::AwaitingFile(f))
        },
        HandlerModule::External(pr) => {
            let mut fv: Vec<(&str, &str)> = Vec::new();
            fv.push(("route", handler.route.as_str()));
            fv.push(("file", "false"));
            proof {
                assert(fv.deep_view() =~~= spec_handler_features(handler.route@));
            }
            let req_ref: Option<&str> = match &requirements {
                Some(s) => Some(s.as_str()),
                None => None,
            };
            proof {
                assert(req_ref.deep_view() == (if has_assets {
                    Some(spec_group_name(*handler))
                } else {
                    None::<Seq<char>>
                }));
            }
            match convert_external_parcel_ref_to_parcel(
                pr,
                expansion_context,
                fv,
                None,
                req_ref,
            ) {
                Ok(p) => Ok(PendingParcel::Ready(p)),
                Err(e) => Err(e),
            }
        },
    }
}

/// Converts every handler's module, in manifest order; the first failing
/// handler's error aborts the expansion.
#[verifier::loop_isolation(false)]
pub fn expand_handler_modules_to_parcels(
    hippofacts: &HippoFacts,
    expansion_context: &ExpansionContext,
    has_assets: &Vec<bool>,
) -> (r: Result<Vec<PendingParcel>, ExpansionError>)
    requires
        has_assets@.len() == hippofacts.handler@.len(),
    ensures
        r is Ok <==> (forall|i: int|
            0 <= i < hippofacts.handler@.len() ==> spec_handler_ok(
                #[trigger] hippofacts.handler@[i],
                *expansion_context,
            )),
        (match r {
            Ok(v) => v@.len() == hippofacts.handler@.len() && (forall|i: int|
                0 <= i < v@.len() ==> spec_handler_pending(
                    hippofacts.handler@[i],
                    *expansion_context,
                    has_assets@[i],
                    #[trigger] v@[i],
                )),
            Err(e) => exists|i: int|
                {
                    &&& 0 <= i < hippofacts.handler@.len()
                    &&& !spec_handler_ok(#[trigger] hippofacts.handler@[i], *expansion_context)
                    &&& spec_handler_error(hippofacts.handler@[i], *expansion_context, e)
                },
        }),
{
    let mut out: Vec<PendingParcel> = Vec::new();
    let mut i: usize = 0;
    while i < hippofacts.handler.len()
        invariant
            i <= hippofacts.handler@.len(),
            out@.len() == i,
            forall|j: int|
                0 <= j < i ==> spec_handler_ok(
                    #[trigger] hippofacts.handler@[j],
                    *expansion_context,
                ),
            forall|j: int|
                0 <= j < i ==> spec_handler_pending(
                    hippofacts.handler@[j],
                    *expansion_context,
                    has_assets@[j],
                    #[trigger] out@[j],
                ),
        decreases hippofacts.handler@.len() - i,
    {
        match convert_one_handler_module_to_parcel(
            &hippofacts.handler[i],
            expansion_context,
            has_assets[i],
        ) {
            Err(e) => {
                return Err(e);
            },
            Ok(p) => {
                out.push(p);
            },
        }
        i += 1;
    }
    Ok(out)
}

/// The package identifier of the invoice: the manifest name, a slash,
/// and the mangled version; it must form a valid registry identifier.
pub fn expand_id(
    bindle_spec: &crate::hippofacts::BindleSpec,
    expansion_context: &ExpansionContext,
) -> (r: Result<String, ExpansionError>)
    ensures
        expansion_context.invoice_versioning == InvoiceVersioning::Production ==> (r is Ok
            <==> crate::registry_id::valid_registry_id(
            bindle_spec.name@ + "/"@ + bindle_spec.version@,
        )),
        expansion_context.invoice_versioning == InvoiceVersioning::Production ==> (match r {
            Ok(id) => id@ == bindle_spec.name@ + "/"@ + bindle_spec.version@,
            Err(_) => true,
        }),
        expansion_context.invoice_versioning == InvoiceVersioning::Dev ==> (match r {
            Ok(id) => exists|ts: Seq<char>|
                id@ == bindle_spec.name@ + "/"@ + spec_dev_version(
                    bindle_spec.version@,
                    expansion_context.dev_user.deep_view(),
                    ts,
                ),
            Err(_) => true,
        }),
        (r matches Ok(id) ==> crate::registry_id::valid_registry_id(id@)),
        (r matches Err(e) ==> e matches ExpansionError::InvalidInvoiceId { id }
            && !crate::registry_id::valid_registry_id(id@)),
{
    let version = expansion_context.mangle_version(bindle_spec.version.as_str());
    let mut id = bindle_spec.name.clone();
    id.append("/");
    id.append(version.as_str());
    if crate::registry_id::is_valid_registry_id(id.as_str()) {
        Ok(id)
    } else {
        Err(ExpansionError::InvalidInvoiceId { id })
    }
}

/// The number of glob patterns a handler declares.
pub open spec fn spec_pattern_count(h: Handler) -> int {
    match h.files {
        None => 0,
        Some(fs) => fs@.len() as int,
    }
}

/// The `j`-th declared glob pattern of a handler.
pub open spec fn spec_pattern_of(h: Handler, j: int) -> Seq<char> {
    h.files->Some_0@[j]@
}

/// A failing glob walk: some declared pattern of some handler, joined
/// onto the base directory, produced one of the glob error shapes.
pub open spec fn spec_glob_failure(
    facts: HippoFacts,
    ctx: ExpansionContext,
    e: ExpansionError,
) -> bool {
    exists|i: int, j: int|
        {
            &&& 0 <= i < facts.handler@.len()
            &&& 0 <= j < spec_pattern_count(facts.handler@[i])
            &&& glob_call_error(
                spec_join_path(
                    ctx.relative_to@,
                    #[trigger] spec_pattern_of(facts.handler@[i], j),
                ),
                e,
            )
        }
}

/// The asset refs of one handler, its patterns' matches concatenated in
/// order.
pub open spec fn spec_handler_assets(
    pats: Seq<Vec<String>>,
    base: Seq<char>,
    group: Seq<char>,
) -> Seq<LocalFileRefV>
    decreases pats.len(),
{
    if pats.len() == 0 {
        Seq::empty()
    } else {
        spec_handler_assets(pats.drop_last(), base, group) + spec_asset_refs(
            pats.last().deep_view(),
            base,
            group,
        )
    }
}

/// The asset refs of all handlers, in manifest order.
pub open spec fn spec_all_assets(
    handlers: Seq<Handler>,
    matches: Seq<Vec<Vec<String>>>,
    base: Seq<char>,
) -> Seq<LocalFileRefV>
    decreases handlers.len(),
{
    if handlers.len() == 0 {
        Seq::empty()
    } else {
        spec_all_assets(handlers.drop_last(), matches.drop_last(), base) + spec_handler_assets(
            matches[handlers.len() - 1]@,
            base,
            spec_group_name(handlers.last()),
        )
    }
}

/// Every matched path of every pattern of every handler lies under the
/// base directory.
pub open spec fn spec_all_matches_ok(matches: Seq<Vec<Vec<String>>>, base: Seq<char>) -> bool {
    forall|i: int, j: int, k: int|
        0 <= i < matches.len() && 0 <= j < matches[i]@.len() && 0 <= k < matches[i]@[j]@.len()
            ==> is_under(#[trigger] matches[i]@[j]@[k]@, base)
}

/// How a plan relates to the manifest, the context, and the glob
/// matches it was built from.
pub open spec fn spec_plan_matches(
    facts: HippoFacts,
    ctx: ExpansionContext,
    matches: Seq<Vec<Vec<String>>>,
    plan: ExpansionPlan,
) -> bool {
    let n = facts.handler@.len() as int;
    let base = ctx.relative_to@;
    let assets = spec_all_assets(facts.handler@, matches, base);
    &&& plan.groups.deep_view() == spec_groups(facts.handler@)
    &&& plan.description.deep_view() == facts.bindle.description.deep_view()
    &&& plan.authors.deep_view() == facts.bindle.authors.deep_view()
    &&& plan.annotations.deep_view() == facts.annotations.deep_view()
    &&& plan.parcels@.len() == n + assets.len()
    &&& (forall|i: int|
        0 <= i < n ==> spec_handler_pending(
            facts.handler@[i],
            ctx,
            spec_handler_assets(matches[i]@, base, spec_group_name(facts.handler@[i])).len() > 0,
            #[trigger] plan.parcels@[i],
        ))
    &&& (forall|k: int|
        0 <= k < assets.len() ==> is_asset_pending(#[trigger] plan.parcels@[n + k], assets[k]))
    &&& crate::registry_id::valid_registry_id(plan.id@)
    &&& (ctx.invoice_versioning == InvoiceVersioning::Production ==> plan.id@ == facts.bindle.name@
        + "/"@ + facts.bindle.version@)
    &&& (ctx.invoice_versioning == InvoiceVersioning::Dev ==> exists|ts: Seq<char>|
        plan.id@ == facts.bindle.name@ + "/"@ + spec_dev_version(
            facts.bindle.version@,
            ctx.dev_user.deep_view(),
            ts,
        ))
}

/// Which error a failing plan expansion produces: an asset path outside
/// the base, a handler that cannot convert, or an invalid invoice
/// identifier.
pub open spec fn spec_plan_error(
    facts: HippoFacts,
    ctx: ExpansionContext,
    matches: Seq<Vec<Vec<String>>>,
    e: ExpansionError,
) -> bool {
    ||| (exists|i: int, j: int, k: int|
        {
            &&& 0 <= i < matches.len()
            &&& 0 <= j < matches[i]@.len()
            &&& 0 <= k < matches[i]@[j]@.len()
            &&& !is_under(#[trigger] matches[i]@[j]@[k]@, ctx.relative_to@)
            &&& e matches ExpansionError::Path(PathError::OutsideBase { path }) && path@
                == matches[i]@[j]@[k]@
        })
    ||| (exists|i: int|
        0 <= i < facts.handler@.len() && spec_handler_error(
            #[trigger] facts.handler@[i],
            ctx,
            e,
        ))
    ||| (e matches ExpansionError::InvalidInvoiceId { id }
        && !crate::registry_id::valid_registry_id(id@))
}

/// Expands the manifest against externally supplied glob matches, one
/// list per declared pattern per handler: derives the groups, resolves
/// every handler module, and converts every matched asset file.
#[verifier::loop_isolation(false)]
pub fn expand_plan_with_matches(
    hippofacts: &HippoFacts,
    expansion_context: &ExpansionContext,
    matches: &Vec<Vec<Vec<String>>>,
) -> (r: Result<ExpansionPlan, ExpansionError>)
    requires
        matches@.len() == hippofacts.handler@.len(),
        forall|i: int|
            0 <= i < matches@.len() ==> (#[trigger] matches@[i])@.len() == spec_pattern_count(
                hippofacts.handler@[i],
            ),
    ensures
        (r matches Ok(plan) ==> spec_plan_matches(
            *hippofacts,
            *expansion_context,
            matches@,
            plan,
        )),
        expansion_context.invoice_versioning == InvoiceVersioning::Production ==> (r is Ok <==> {
            &&& spec_all_matches_ok(matches@, expansion_context.relative_to@)
            &&& (forall|i: int|
                0 <= i < hippofacts.handler@.len() ==> spec_handler_ok(
                    #[trigger] hippofacts.handler@[i],
                    *expansion_context,
                ))
            &&& crate::registry_id::valid_registry_id(
                hippofacts.bindle.name@ + "/"@ + hippofacts.bindle.version@,
            )
        }),
        (r matches Err(e) ==> spec_plan_error(*hippofacts, *expansion_context, matches@, e)),
{
    let n = hippofacts.handler.len();
    let mut flat: Vec<LocalFileRef> = Vec::new();
    let mut has_assets: Vec<bool> = Vec::new();
    let mut i: usize = 0;
    while i < n
        invariant
            i <= n,
            n == hippofacts.handler@.len(),
            has_assets@.len() == i,
            forall|t: int|
                0 <= t < i ==> has_assets@[t] == (spec_handler_assets(
                    matches@[t]@,
                    expansion_context.relative_to@,
                    spec_group_name(#[trigger] hippofacts.handler@[t]),
                ).len() > 0),
            flat.deep_view() =~~= spec_all_assets(
                hippofacts.handler@.take(i as int),
                matches@.take(i as int),
                expansion_context.relative_to@,
            ),
            forall|t: int, jj: int|
                0 <= t < i && 0 <= jj < matches@[t]@.len() ==> all_under_base(
                    (#[trigger] matches@[t]@[jj]).deep_view(),
                    expansion_context.relative_to@,
                ),
        decreases n - i,
    {
        let handler = &hippofacts.handler[i];
        let group = group_name(handler);
        let pats = &matches[i];
        let mut hassets: Vec<LocalFileRef> = Vec::new();
        let mut j: usize = 0;
        while j < pats.len()
            invariant
                j <= pats@.len(),
                group@ == spec_group_name(hippofacts.handler@[i as int]),
                hassets.deep_view() =~~= spec_handler_assets(
                    pats@.take(j as int),
                    expansion_context.relative_to@,
                    group@,
                ),
                forall|jj: int|
                    0 <= jj < j ==> all_under_base(
                        (#[trigger] pats@[jj]).deep_view(),
                        expansion_context.relative_to@,
                    ),
            decreases pats@.len() - j,
        {
            match expand_matches_to_parcels(&pats[j], expansion_context, group.as_str()) {
                Err(e) => {
                    proof {
                        let w = choose|w: int|
                            {
                                &&& 0 <= w < pats@[j as int]@.len()
                                &&& !is_under(
                                    pats@[j as int].deep_view()[w],
                                    expansion_context.relative_to@,
                                )
                                &&& e matches ExpansionError::Path(
                                    PathError::OutsideBase { path: p },
                                ) && p@ == pats@[j as int].deep_view()[w]
                            };
                        assert(matches@[i as int]@[j as int]@[w]@ == pats@[
                            j as int
                        ].deep_view()[w]);
                        assert(spec_plan_error(
                            *hippofacts,
                            *expansion_context,
                            matches@,
                            e,
                        ));
                    }
                    return Err(e);
                },
                Ok(mut v) => {
                    let ghost pre = hassets.deep_view();
                    let ghost vv = v.deep_view();
                    hassets.append(&mut v);
                    proof {
                        assert(pats@.take(j as int + 1).drop_last() =~= pats@.take(j as int));
                        assert(hassets.deep_view() =~~= pre + vv);
                        assert(hassets.deep_view() =~~= spec_handler_assets(
                            pats@.take(j as int + 1),
                            expansion_context.relative_to@,
                            group@,
                        ));
                    }
                },
            }
            j += 1;
        }
        proof {
            assert(pats@.take(pats@.len() as int) =~= pats@);
        }
        has_assets.push(hassets.len() > 0);
        let ghost pre_flat = flat.deep_view();
        let ghost hv = hassets.deep_view();
        flat.append(&mut hassets);
        proof {
            assert(hippofacts.handler@.take(i as int + 1).drop_last()
                =~= hippofacts.handler@.take(i as int));
            assert(matches@.take(i as int + 1).drop_last() =~= matches@.take(i as int));
            assert(hippofacts.handler@.take(i as int + 1).last()
                == hippofacts.handler@[i as int]);
            assert(matches@.take(i as int + 1)[i as int] == matches@[i as int]);
            assert(flat.deep_view() =~~= pre_flat + hv);
            assert(flat.deep_view() =~~= spec_all_assets(
                hippofacts.handler@.take(i as int + 1),
                matches@.take(i as int + 1),
                expansion_context.relative_to@,
            ));
        }
        i += 1;
    }
    proof {
        assert(hippofacts.handler@.take(n as int) =~= hippofacts.handler@);
        assert(matches@.take(n as int) =~= matches@);
    }
    let pendings = match expand_handler_modules_to_parcels(
        hippofacts,
        expansion_context,
        &has_assets,
    ) {
        Err(e) => {
            return Err(e);
        },
        Ok(v) => v,
    };
    let id = match expand_id(&hippofacts.bindle, expansion_context) {
        Err(e) => {
            return Err(e);
        },
        Ok(s) => s,
    };
    let groups = expand_all_handlers_to_groups(hippofacts);
    let description = crate::expander::collections::clone_opt_string(
        &hippofacts.bindle.description,
    );
    let authors = crate::expander::collections::clone_opt_string_vec(&hippofacts.bindle.authors);
    let annotations = crate::expander::collections::clone_opt_pairs(&hippofacts.annotations);
    let ghost pendings_v = pendings@;
    let ghost all_assets_v = spec_all_assets(
        hippofacts.handler@,
        matches@,
        expansion_context.relative_to@,
    );
    let mut parcels = pendings;
    let mut rest = flat;
    while rest.len() > 0
        invariant
            rest@.len() <= all_assets_v.len(),
            rest.deep_view() =~~= all_assets_v.skip(all_assets_v.len() - rest@.len()),
            parcels@.len() == pendings_v.len() + all_assets_v.len() - rest@.len(),
            forall|t: int| 0 <= t < pendings_v.len() ==> parcels@[t] == pendings_v[t],
            forall|k: int|
                0 <= k < all_assets_v.len() - rest@.len() ==> is_asset_pending(
                    #[trigger] parcels@[pendings_v.len() + k],
                    all_assets_v[k],
                ),
        decreases rest.len(),
    {
        let ghost consumed = all_assets_v.len() - rest@.len();
        let ghost prev = rest.deep_view();
        let f = rest.remove(0);
        proof {
            assert(f.deep_view() == prev[0]);
            assert(prev[0] == all_assets_v[consumed]);
            assert(rest.deep_view() =~~= prev.drop_first());
            assert(prev.drop_first() =~= all_assets_v.skip(all_assets_v.len() - rest@.len()));
        }
        parcels.push(PendingParcel::AwaitingFile(f));
    }
    let plan = ExpansionPlan { id, description, authors, annotations, groups, parcels };
    proof {
        let basev = expansion_context.relative_to@;
        assert(pendings_v.len() == hippofacts.handler@.len());
        assert(plan.parcels@.len() == hippofacts.handler@.len() + all_assets_v.len());
        assert forall|ii: int| 0 <= ii < hippofacts.handler@.len() implies spec_handler_pending(
            hippofacts.handler@[ii],
            *expansion_context,
            spec_handler_assets(
                matches@[ii]@,
                basev,
                spec_group_name(hippofacts.handler@[ii]),
            ).len() > 0,
            #[trigger] plan.parcels@[ii],
        ) by {
            assert(plan.parcels@[ii] == pendings_v[ii]);
            assert(has_assets@[ii] == (spec_handler_assets(
                matches@[ii]@,
                basev,
                spec_group_name(hippofacts.handler@[ii]),
            ).len() > 0));
            assert(spec_handler_pending(
                hippofacts.handler@[ii],
                *expansion_context,
                has_assets@[ii],
                pendings_v[ii],
            ));
        }
        assert(plan.groups.deep_view() == spec_groups(hippofacts.handler@));
        assert(spec_plan_matches(*hippofacts, *expansion_context, matches@, plan));
        assert forall|ii: int, jj: int, kk: int|
            0 <= ii < matches@.len() && 0 <= jj < matches@[ii]@.len() && 0 <= kk < matches@[
            ii]@[jj]@.len() implies is_under(
            #[trigger] matches@[ii]@[jj]@[kk]@,
            expansion_context.relative_to@,
        ) by {
            assert(all_under_base(matches@[ii]@[jj].deep_view(), expansion_context.relative_to@));
            assert(is_under(
                matches@[ii]@[jj].deep_view()[kk],
                expansion_context.relative_to@,
            ));
        }
        assert(spec_all_matches_ok(matches@, expansion_context.relative_to@));
    }
    Ok(plan)
}

/// Expands the manifest by running the glob patterns against the
/// filesystem.  Which files match depends on the disk, so the contract
/// promises the plan's shape for whatever matches the walk yielded, and
/// every failure is a glob failure of some declared pattern or a plan
/// failure for some match outcome.  When no handler declares a pattern
/// the walk never runs, and under production versioning success is then
/// owed exactly when every handler resolves and the package identifier
/// is valid.
#[verifier::loop_isolation(false)]
pub fn expand_plan(
    hippofacts: &HippoFacts,
    expansion_context: &ExpansionContext,
) -> (r: Result<ExpansionPlan, ExpansionError>)
    ensures
        (r matches Ok(plan) ==> exists|m: Seq<Vec<Vec<String>>>|
            {
                &&& m.len() == hippofacts.handler@.len()
                &&& spec_plan_matches(*hippofacts, *expansion_context, m, plan)
            }),
        (r matches Err(e) ==> spec_glob_failure(*hippofacts, *expansion_context, e) || (exists|
            m: Seq<Vec<Vec<String>>>,
        |
            {
                &&& m.len() == hippofacts.handler@.len()
                &&& spec_plan_error(*hippofacts, *expansion_context, m, e)
            })),
        (expansion_context.invoice_versioning == InvoiceVersioning::Production && (forall|i: int|
            0 <= i < hippofacts.handler@.len() ==> spec_pattern_count(
                #[trigger] hippofacts.handler@[i],
            ) == 0)) ==> (r is Ok <==> {
            &&& (forall|i: int|
                0 <= i < hippofacts.handler@.len() ==> spec_handler_ok(
                    #[trigger] hippofacts.handler@[i],
                    *expansion_context,
                ))
            &&& crate::registry_id::valid_registry_id(
                hippofacts.bindle.name@ + "/"@ + hippofacts.bindle.version@,
            )
        }),
{
    let n = hippofacts.handler.len();
    let mut matches: Vec<Vec<Vec<String>>> = Vec::new();
    let mut i: usize = 0;
    while i < n
        invariant
            i <= n,
            n == hippofacts.handler@.len(),
            matches@.len() == i,
            forall|t: int|
                0 <= t < i ==> (#[trigger] matches@[t])@.len() == spec_pattern_count(
                    hippofacts.handler@[t],
                ),
        decreases n - i,
    {
        let mut pm: Vec<Vec<String>> = Vec::new();
        match &hippofacts.handler[i].files {
            None => {},
            Some(patterns) => {
                let mut j: usize = 0;
                while j < patterns.len()
                    invariant
                        j <= patterns@.len(),
                        pm@.len() == j,
                    decreases patterns@.len() - j,
                {
                    let absolute = expansion_context.to_absolute(patterns[j].as_str());
                    match glob_paths(absolute.as_str()) {
                        Err(e) => {
                            proof {
                                assert(spec_pattern_count(hippofacts.handler@[i as int])
                                    == patterns@.len());
                                assert(spec_pattern_of(hippofacts.handler@[i as int], j as int)
                                    == patterns@[j as int]@);
                                assert(glob_call_error(
                                    spec_join_path(
                                        expansion_context.relative_to@,
                                        spec_pattern_of(hippofacts.handler@[i as int], j as int),
                                    ),
                                    e,
                                ));
                                assert(spec_glob_failure(*hippofacts, *expansion_context, e));
                            }
                            return Err(e);
                        },
                        Ok(paths) => {
                            pm.push(paths);
                        },
                    }
                    j += 1;
                }
            },
        }
        matches.push(pm);
        i += 1;
    }
    let r = expand_plan_with_matches(hippofacts, expansion_context, &matches);
    proof {
        if r is Err {
            assert(spec_plan_error(*hippofacts, *expansion_context, matches@, r->Err_0));
        }
        if expansion_context.invoice_versioning == InvoiceVersioning::Production && (forall|
            t: int,
        |
            0 <= t < hippofacts.handler@.len() ==> spec_pattern_count(
                #[trigger] hippofacts.handler@[t],
            ) == 0) {
            assert forall|ii: int, jj: int, kk: int|
                0 <= ii < matches@.len() && 0 <= jj < matches@[ii]@.len() && 0 <= kk < matches@[
                ii]@[jj]@.len() implies is_under(
                #[trigger] matches@[ii]@[jj]@[kk]@,
                expansion_context.relative_to@,
            ) by {
                assert(matches@[ii]@.len() == 0);
            }
            assert(spec_all_matches_ok(matches@, expansion_context.relative_to@));
        }
    }
    r
}

/// How many parcels of the plan still await a file digest.
pub open spec fn count_awaiting(s: Seq<PendingParcel>) -> int
    decreases s.len(),
{
    if s.len() == 0 {
        0
    } else {
        (match s[0] {
            PendingParcel::AwaitingFile(_) => 1int,
            PendingParcel::Ready(_) => 0int,
        }) + count_awaiting(s.drop_first())
    }
}

proof fn lemma_count_awaiting_nonneg(s: Seq<PendingParcel>)
    ensures
        count_awaiting(s) >= 0,
    decreases s.len(),
{
    if s.len() > 0 {
        lemma_count_awaiting_nonneg(s.drop_first());
    }
}

/// A pending local file completed with its digest and size.
pub open spec fn complete_ref(f: LocalFileRefV, d: FileDigestV) -> ParcelV {
    ParcelV {
        label: LabelV {
            name: f.name,
            sha256: d.sha256,
            media_type: f.media_type,
            size: d.size,
            feature: Some(f.feature),
            annotations: None,
        },
        conditions: Some(
            ConditionV {
                member_of: spec_vector_of(f.member_of),
                requirements: spec_vector_of(f.requirements),
            },
        ),
    }
}

/// The plan's parcels with every awaited file completed by the next
/// digest, in order.
pub open spec fn complete_parcels(s: Seq<PendingParcel>, ds: Seq<FileDigest>) -> Seq<ParcelV>
    decreases s.len(),
{
    if s.len() == 0 {
        Seq::empty()
    } else {
        match s[0] {
            PendingParcel::Ready(p) => seq![p.deep_view()] + complete_parcels(s.drop_first(), ds),
            PendingParcel::AwaitingFile(f) => seq![
                complete_ref(f.deep_view(), ds[0].deep_view()),
            ] + complete_parcels(s.drop_first(), ds.drop_first()),
        }
    }
}

/// Completes one awaited local file into its parcel.
pub fn complete_parcel(f: LocalFileRef, d: FileDigest) -> (r: Parcel)
    ensures
        r.deep_view() == complete_ref(f.deep_view(), d.deep_view()),
{
    let member_of: Option<Vec<String>> = match f.member_of {
        None => None,
        Some(s) => {
            let mut v: Vec<String> = Vec::new();
            v.push(s);
            Some(v)
        },
    };
    let requirements: Option<Vec<String>> = match f.requirements {
        None => None,
        Some(s) => {
            let mut v: Vec<String> = Vec::new();
            v.push(s);
            Some(v)
        },
    };
    let r = Parcel {
        label: Label {
            name: f.name,
            sha256: d.sha256,
            media_type: f.media_type,
            size: d.size,
            feature: Some(f.feature),
            annotations: None,
        },
        conditions: Some(Condition { member_of, requirements }),
    };
    proof {
        assert(r.deep_view() =~~= complete_ref(
            LocalFileRefV {
                abs_path: f.abs_path@,
                name: r.label.name@,
                media_type: r.label.media_type@,
                feature: r.label.feature->Some_0.deep_view(),
                member_of: f.member_of.deep_view(),
                requirements: f.requirements.deep_view(),
            },
            d.deep_view(),
        ));
    }
    r
}

/// The assembled invoice over the plan's views: fixed format version,
/// the plan's identity block, one group per handler, and the completed
/// parcels deduplicated by identity.
pub open spec fn spec_invoice_of(
    id: Seq<char>,
    description: Option<Seq<char>>,
    authors: Option<Seq<Seq<char>>>,
    annotations: Option<Seq<(Seq<char>, Seq<char>)>>,
    groups: Seq<GroupV>,
    parcels: Seq<ParcelV>,
) -> crate::invoice::InvoiceV {
    crate::invoice::InvoiceV {
        bindle_version: "1.0.0"@,
        bindle: crate::invoice::BindleSpecV { id, description, authors },
        annotations,
        parcel: Some(crate::expander::merge::merge_by_identity(parcels)),
        group: Some(groups),
    }
}

/// Assembles the invoice: completes every awaited parcel with its
/// digest, merges parcels by identity, and copies the identity block
/// verbatim.  Signature and yank stay unset: this tool never signs.
#[verifier::loop_isolation(false)]
pub fn assemble_invoice(plan: ExpansionPlan, digests: Vec<FileDigest>) -> (r: Invoice)
    requires
        digests@.len() == count_awaiting(plan.parcels@),
    ensures
        r.deep_view() == spec_invoice_of(
            plan.id@,
            plan.description.deep_view(),
            plan.authors.deep_view(),
            plan.annotations.deep_view(),
            plan.groups.deep_view(),
            complete_parcels(plan.parcels@, digests@),
        ),
{
    let ExpansionPlan { id, description, authors, annotations, groups, parcels } = plan;
    let ghost orig_p = parcels@;
    let ghost orig_d = digests@;
    let mut pendings = parcels;
    let mut ds = digests;
    let mut completed: Vec<Parcel> = Vec::new();
    proof {
        assert(complete_parcels(orig_p, orig_d) =~= completed.deep_view() + complete_parcels(
            pendings@,
            ds@,
        ));
    }
    while pendings.len() > 0
        invariant
            count_awaiting(pendings@) == ds@.len(),
            complete_parcels(orig_p, orig_d) =~= completed.deep_view() + complete_parcels(
                pendings@,
                ds@,
            ),
        decreases pendings.len(),
    {
        let ghost pre_p = pendings@;
        let ghost pre_d = ds@;
        let ghost pre_c = completed.deep_view();
        let p = pendings.remove(0);
        proof {
            assert(pre_p.drop_first() =~= pendings@);
            lemma_count_awaiting_nonneg(pendings@);
        }
        match p {
            PendingParcel::Ready(parcel) => {
                completed.push(parcel);
                proof {
                    assert(completed.deep_view() =~~= pre_c + seq![pre_p[0]->Ready_0.deep_view()]);
                    assert(pre_c + (seq![pre_p[0]->Ready_0.deep_view()] + complete_parcels(
                        pendings@,
                        ds@,
                    )) =~= (pre_c + seq![pre_p[0]->Ready_0.deep_view()]) + complete_parcels(
                        pendings@,
                        ds@,
                    ));
                }
            },
            PendingParcel::AwaitingFile(f) => {
                let ghost fv = f.deep_view();
                let d = ds.remove(0);
                proof {
                    assert(pre_d.drop_first() =~= ds@);
                }
                let c = complete_parcel(f, d);
                completed.push(c);
                proof {
                    assert(completed.deep_view() =~~= pre_c + seq![
                        complete_ref(fv, pre_d[0].deep_view()),
                    ]);
                    assert(pre_c + (seq![complete_ref(fv, pre_d[0].deep_view())]
                        + complete_parcels(pendings@, ds@)) =~= (pre_c + seq![
                        complete_ref(fv, pre_d[0].deep_view()),
                    ]) + complete_parcels(pendings@, ds@));
                }
            },
        }
    }
    let merged = crate::expander::merge::merge_memberships(completed);
    let r = Invoice {
        bindle_version: ("1.0.0").to_owned(),
        bindle: crate::invoice::BindleSpec { id, description, authors },
        annotations,
        parcel: Some(merged),
        group: Some(groups),
    };
    proof {
        assert(complete_parcels(orig_p, orig_d) =~= completed.deep_view());
        assert(r.deep_view() =~~= spec_invoice_of(
            r.bindle.id@,
            r.bindle.description.deep_view(),
            r.bindle.authors.deep_view(),
            r.annotations.deep_view(),
            r.group->Some_0.deep_view(),
            complete_parcels(orig_p, orig_d),
        ));
    }
    r
}

} // verus!
