//! The error taxonomy of the expansion.  Every failure carries enough
//! context (a route, a path, a pattern, or a registry identifier) to
//! diagnose it; there is no partial success.

use vstd::prelude::*;

verus! {

/// Manifest-shape failures, surfaced before any file or registry work.
#[derive(Debug, Clone, PartialEq, Eq)]
pub enum ManifestError {
    /// The manifest declares no handler at all.
    NoHandlers,
    /// A handler names neither a local module nor an external reference.
    MissingModule { route: String },
    /// A handler names both a local module and an external reference.
    AmbiguousModule { route: String },
    /// An external reference does not split into exactly two parts on a
    /// single colon.
    MalformedExternalRef { text: String },
    /// The registry part of an external reference is not a valid registry
    /// package identifier.
    InvalidRegistryId { text: String },
}

/// Path failures while relativizing a matched file.
#[derive(Debug, Clone, PartialEq, Eq)]
pub enum PathError {
    /// The path does not lie under the manifest's base directory.
    OutsideBase { path: String },
    /// The path is not valid text.
    NotUtf8 { path: String },
}

/// Filesystem failures.
#[derive(Debug, Clone, PartialEq, Eq)]
pub enum IoError {
    /// A local file could not be opened.
    Open { path: String },
    /// A local file's length could not be read.
    Stat { path: String },
    /// A local file's contents could not be read.
    Read { path: String },
    /// A `files` entry is not a valid glob pattern.
    BadPattern { pattern: String },
    /// The glob walk produced an unreadable match.
    GlobMatch { pattern: String },
}

/// Registry and external-reference failures.
#[derive(Debug, Clone, PartialEq, Eq)]
pub enum ResolutionError {
    /// No registry is configured, so external references cannot be resolved.
    NoRegistry { bindle_id: String, name: String },
    /// The referenced invoice was not among the fetched invoices.
    InvoiceNotFound { bindle_id: String },
    /// The referenced invoice holds no parcel of the referenced name.
    ParcelNotFound { bindle_id: String, name: String },
    /// The referenced invoice holds several parcels of the referenced name.
    AmbiguousParcel { bindle_id: String, name: String },
}

/// Any failure of the expansion.
#[derive(Debug, Clone, PartialEq, Eq)]
pub enum ExpansionError {
    Manifest(ManifestError),
    Path(PathError),
    Io(IoError),
    Resolution(ResolutionError),
    /// The package name and mangled version do not form a valid registry
    /// package identifier.
    InvalidInvoiceId { id: String },
}

} // verus!
