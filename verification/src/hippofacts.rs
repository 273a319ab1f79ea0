//! The manifest model: the raw on-disk form of an artifact spec and the
//! validated form the expansion works on.
//!
//! Validation enforces that at least one handler is declared and that each
//! handler names exactly one module source: either a local file or an
//! external reference of the form `registry_id:parcel_name`.

use vstd::prelude::*;
use vstd::string::*;
use crate::errors::ManifestError;
use crate::registry_id::is_valid_registry_id;
use crate::registry_id::valid_registry_id;

verus! {

/// The raw manifest, as deserialized from disk.
#[derive(Debug, Clone)]
pub struct RawHippoFacts {
    pub bindle: BindleSpec,
    pub annotations: Option<Vec<(String, String)>>,
    pub handler: Option<Vec<RawHandler>>,
}

/// A raw handler entry: `name` and `external` are both optional on disk,
/// and validation demands exactly one of them.
#[derive(Debug, Clone)]
pub struct RawHandler {
    pub name: Option<String>,
    pub external: Option<String>,
    pub route: String,
    pub files: Option<Vec<String>>,
}

/// The package identity block of the manifest.  The version is kept as
/// text because it may still be a template for dev-version mangling.
#[derive(Debug, Clone)]
pub struct BindleSpec {
    pub name: String,
    pub version: String,
    pub description: Option<String>,
    pub authors: Option<Vec<String>>,
}

/// The validated manifest: at least one handler, each with exactly one
/// module source.
pub struct HippoFacts {
    pub bindle: BindleSpec,
    pub annotations: Option<Vec<(String, String)>>,
    pub handler: Vec<Handler>,
}

/// A validated route-to-module binding.
pub struct Handler {
    pub handler_module: HandlerModule,
    pub route: String,
    pub files: Option<Vec<String>>,
}

/// The module behind a handler: a local file, or a parcel of a previously
/// published invoice.
#[derive(PartialEq, Debug, Clone)]
pub enum HandlerModule {
    File(String),
    External(ParcelReference),
}

/// A parsed external reference `registry_id:parcel_name`.
#[derive(PartialEq, Debug, Clone)]
pub struct ParcelReference {
    pub bindle_id: String,
    pub name: String,
}

/// A named export advertised by a module.
pub struct Export {
    pub id: String,
}

/// A reference to a handler exported by a previously published package.
pub struct ExternalRef {
    pub bindle_id: String,
    pub handler_id: String,
}

/// Position `i` holds the only colon of `s`.
pub open spec fn is_only_colon(s: Seq<char>, i: int) -> bool {
    &&& 0 <= i < s.len()
    &&& s[i] == ':'
    &&& forall|j: int| 0 <= j < s.len() && j != i ==> s[j] != ':'
}

/// `s` splits into exactly two parts on a single colon.
pub open spec fn splits_once_on_colon(s: Seq<char>) -> bool {
    exists|i: int| is_only_colon(s, i)
}

/// The position of the single colon of `s`.
pub open spec fn colon_split_at(s: Seq<char>) -> int {
    choose|i: int| is_only_colon(s, i)
}

/// A well-formed external reference: one colon, and a valid registry
/// package identifier before it.
pub open spec fn valid_parcel_ref(s: Seq<char>) -> bool {
    splits_once_on_colon(s) && valid_registry_id(s.take(colon_split_at(s)))
}

/// The raw handler names exactly one module source, and an external one is
/// well formed.
pub open spec fn module_ok(raw: RawHandler) -> bool {
    match (raw.name, raw.external) {
        (Some(_), None) => true,
        (None, Some(ext)) => valid_parcel_ref(ext@),
        _ => false,
    }
}

/// How a validated module source relates to the raw handler it came from.
pub open spec fn module_matches(raw: RawHandler, m: HandlerModule) -> bool {
    match (raw.name, raw.external) {
        (Some(n), None) => m == HandlerModule::File(n),
        (None, Some(ext)) => {
            &&& m matches HandlerModule::External(p)
            &&& (m matches HandlerModule::External(p) ==> {
                &&& p.bindle_id@ == ext@.take(colon_split_at(ext@))
                &&& p.name@ == ext@.skip(colon_split_at(ext@) + 1)
            })
        },
        _ => false,
    }
}

/// Which error an ill-formed raw handler produces.
pub open spec fn module_error_matches(raw: RawHandler, e: ManifestError) -> bool {
    match (raw.name, raw.external) {
        (Some(_), None) => false,
        (None, None) => e matches ManifestError::MissingModule { route } && route@ == raw.route@,
        (Some(_), Some(_)) => e matches ManifestError::AmbiguousModule { route } && route@
            == raw.route@,
        (None, Some(ext)) => {
            if !splits_once_on_colon(ext@) {
                e matches ManifestError::MalformedExternalRef { text } && text@ == ext@
            } else if !valid_registry_id(ext@.take(colon_split_at(ext@))) {
                e matches ManifestError::InvalidRegistryId { text } && text@ == ext@.take(
                    colon_split_at(ext@),
                )
            } else {
                false
            }
        },
    }
}

/// How a validated handler relates to the raw entry it came from.
pub open spec fn handler_matches(raw: RawHandler, h: Handler) -> bool {
    &&& h.route == raw.route
    &&& h.files == raw.files
    &&& module_matches(raw, h.handler_module)
}

impl ParcelReference {
    /// Parses `registry_id:parcel_name`.
    #[verifier::loop_isolation(false)]
    pub fn parse(text: &str) -> (r: Result<ParcelReference, ManifestError>)
        ensures
            r is Ok <==> valid_parcel_ref(text@),
            (r matches Ok(p) ==> {
                &&& p.bindle_id@ == text@.take(colon_split_at(text@))
                &&& p.name@ == text@.skip(colon_split_at(text@) + 1)
            }),
            !splits_once_on_colon(text@) ==> (r matches Err(
                ManifestError::MalformedExternalRef { text: t },
            ) && t@ == text@),
            splits_once_on_colon(text@) && !valid_registry_id(
                text@.take(colon_split_at(text@)),
            ) ==> (r matches Err(ManifestError::InvalidRegistryId { text: t }) && t@ == text@.take(
                colon_split_at(text@),
            )),
    {
        let n = text.unicode_len();
        let mut first: usize = 0;
        let mut found = false;
        let mut multiple = false;
        let mut i: usize = 0;
        while i < n
            invariant
                i <= n,
                found ==> first < i,
                !found ==> forall|j: int| 0 <= j < i ==> text@[j] != ':',
                found ==> text@[first as int] == ':' && (forall|j: int|
                    0 <= j < first ==> text@[j] != ':'),
                multiple ==> found,
                (found && !multiple) ==> forall|j: int| first < j < i ==> text@[j] != ':',
                multiple ==> exists|j: int| first < j < i && text@[j] == ':',
            decreases n - i,
        {
            if text.get_char(i) == ':' {
                if !found {
                    found = true;
                    first = i;
                } else {
                    multiple = true;
                }
            }
            i += 1;
        }
        if !found {
            proof {
                assert(forall|k: int| !is_only_colon(text@, k));
            }
            return Err(ManifestError::MalformedExternalRef { text: text.to_owned() });
        }
        if multiple {
            proof {
                let j = choose|j: int| first < j < n && text@[j] == ':';
                assert forall|k: int| !is_only_colon(text@, k) by {
                    if is_only_colon(text@, k) {
                        if k == first {
                            assert(text@[j] != ':');
                        } else {
                            assert(text@[first as int] != ':');
                        }
                    }
                }
            }
            return Err(ManifestError::MalformedExternalRef { text: text.to_owned() });
        }
        proof {
            assert(is_only_colon(text@, first as int));
            assert forall|k: int| is_only_colon(text@, k) implies k == first as int by {
                if k != first as int {
                    assert(text@[first as int] != ':');
                }
            }
            assert(colon_split_at(text@) == first as int);
        }
        let id_part = text.substring_char(0, first);
        let name_part = text.substring_char(first + 1, n);
        proof {
            assert(id_part@ =~= text@.take(first as int));
            assert(name_part@ =~= text@.skip(first as int + 1));
        }
        if is_valid_registry_id(id_part) {
            Ok(ParcelReference { bindle_id: id_part.to_owned(), name: name_part.to_owned() })
        } else {
            Err(ManifestError::InvalidRegistryId { text: id_part.to_owned() })
        }
    }
}

impl RawHandler {
    /// The single module source of this handler, or why it has none.
    pub fn handler_module(&self) -> (r: Result<HandlerModule, ManifestError>)
        ensures
            r is Ok <==> module_ok(*self),
            (r matches Ok(m) ==> module_matches(*self, m)),
            (r matches Err(e) ==> module_error_matches(*self, e)),
    {
        match (&self.name, &self.external) {
            (Some(name), None) => Ok(HandlerModule::File(name.clone())),
            (None, Some(ext)) => match ParcelReference::parse(ext.as_str()) {
                Ok(p) => Ok(HandlerModule::External(p)),
                Err(e) => Err(e),
            },
            (None, None) => Err(ManifestError::MissingModule { route: self.route.clone() }),
            (Some(_), Some(_)) => Err(
                ManifestError::AmbiguousModule { route: self.route.clone() },
            ),
        }
    }
}

impl Handler {
    /// Validates one raw handler entry.
    pub fn parse(raw: RawHandler) -> (r: Result<Handler, ManifestError>)
        ensures
            r is Ok <==> module_ok(raw),
            (r matches Ok(h) ==> handler_matches(raw, h)),
            (r matches Err(e) ==> module_error_matches(raw, e)),
    {
        match raw.handler_module() {
            Err(e) => Err(e),
            Ok(hm) => Ok(Handler { handler_module: hm, route: raw.route, files: raw.files }),
        }
    }
}

impl HippoFacts {
    /// Validates the raw manifest: at least one handler must be declared,
    /// and every handler must validate.  The first failing handler's error
    /// is returned.
    #[verifier::loop_isolation(false)]
    pub fn parse(raw: RawHippoFacts) -> (r: Result<HippoFacts, ManifestError>)
        ensures
            raw.handler is None ==> r == Err::<HippoFacts, ManifestError>(
                ManifestError::NoHandlers,
            ),
            (raw.handler matches Some(hs) && hs.len() == 0) ==> r == Err::<
                HippoFacts,
                ManifestError,
            >(ManifestError::NoHandlers),
            r is Ok <==> (raw.handler matches Some(hs) && hs.len() > 0 && (forall|i: int|
                0 <= i < hs.len() ==> module_ok(#[trigger] hs[i]))),
            (match r {
                Ok(f) => {
                    &&& f.bindle == raw.bindle
                    &&& f.annotations == raw.annotations
                    &&& (match raw.handler {
                        Some(hs) => f.handler.len() == hs.len() && (forall|i: int|
                            0 <= i < hs.len() ==> handler_matches(
                                hs[i],
                                #[trigger] f.handler[i],
                            )),
                        None => false,
                    })
                },
                Err(_) => true,
            }),
            (match (r, raw.handler) {
                (Err(e), Some(hs)) => hs.len() > 0 ==> (exists|i: int|
                    {
                        &&& 0 <= i < hs.len()
                        &&& !module_ok(#[trigger] hs[i])
                        &&& (forall|j: int| 0 <= j < i ==> module_ok(hs[j]))
                        &&& module_error_matches(hs[i], e)
                    }),
                _ => true,
            }),
    {
        match raw.handler {
            None => Err(ManifestError::NoHandlers),
            Some(hs) => {
                if hs.len() == 0 {
                    return Err(ManifestError::NoHandlers);
                }
                let ghost all = hs@;
                let mut rest = hs;
                let mut handlers: Vec<Handler> = Vec::new();
                while rest.len() > 0
                    invariant
                        handlers@.len() + rest@.len() == all.len(),
                        rest@ =~= all.skip(handlers@.len() as int),
                        forall|j: int|
                            0 <= j < handlers@.len() ==> module_ok(#[trigger] all[j])
                                && handler_matches(all[j], handlers@[j]),
                    decreases rest.len(),
                {
                    let ghost k = handlers@.len() as int;
                    let rh = rest.remove(0);
                    proof {
                        assert(rh == all[k]);
                    }
                    match Handler::parse(rh) {
                        Err(e) => {
                            return Err(e);
                        },
                        Ok(h) => {
                            handlers.push(h);
                        },
                    }
                    proof {
                        assert(rest@ =~= all.skip(handlers@.len() as int));
                    }
                }
                Ok(
                    HippoFacts {
                        bindle: raw.bindle,
                        annotations: raw.annotations,
                        handler: handlers,
                    },
                )
            },
        }
    }
}

} // verus!
