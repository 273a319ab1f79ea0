//! The produced package descriptor: an invoice made of named groups and
//! content-addressed parcels.
//!
//! These types are plain data; every field is visible so that callers can
//! inspect the assembled invoice.  Each type has a mathematical view (the
//! `...V` ghost structs) over which the expansion contracts are stated.

use vstd::prelude::*;

verus! {

/// A named collection that parcels can belong to or depend on.
#[derive(Debug, Clone, PartialEq, Eq)]
pub struct Group {
    pub name: String,
    pub required: Option<bool>,
    pub satisfied_by: Option<String>,
}

#[verifier::ext_equal]
pub ghost struct GroupV {
    pub name: Seq<char>,
    pub required: Option<bool>,
    pub satisfied_by: Option<Seq<char>>,
}

impl DeepView for Group {
    type V = GroupV;

    open spec fn deep_view(&self) -> GroupV {
        GroupV {
            name: self.name.deep_view(),
            required: self.required,
            satisfied_by: self.satisfied_by.deep_view(),
        }
    }
}

/// The descriptive half of a parcel: its name, content digest, media type,
/// size, and nested feature annotations (namespace, then key, then value).
#[derive(Debug, Clone, PartialEq, Eq)]
pub struct Label {
    pub name: String,
    pub sha256: String,
    pub media_type: String,
    pub size: u64,
    pub feature: Option<Vec<(String, Vec<(String, String)>)>>,
    pub annotations: Option<Vec<(String, String)>>,
}

#[verifier::ext_equal]
pub ghost struct LabelV {
    pub name: Seq<char>,
    pub sha256: Seq<char>,
    pub media_type: Seq<char>,
    pub size: u64,
    pub feature: Option<Seq<(Seq<char>, Seq<(Seq<char>, Seq<char>)>)>>,
    pub annotations: Option<Seq<(Seq<char>, Seq<char>)>>,
}

impl DeepView for Label {
    type V = LabelV;

    open spec fn deep_view(&self) -> LabelV {
        LabelV {
            name: self.name.deep_view(),
            sha256: self.sha256.deep_view(),
            media_type: self.media_type.deep_view(),
            size: self.size,
            feature: self.feature.deep_view(),
            annotations: self.annotations.deep_view(),
        }
    }
}

/// Role relationships of a parcel: the groups it is a member of, and the
/// groups it requires (the invoice's `requires` list).
#[derive(Debug, Clone, PartialEq, Eq)]
pub struct Condition {
    pub member_of: Option<Vec<String>>,
    pub requirements: Option<Vec<String>>,
}

#[verifier::ext_equal]
pub ghost struct ConditionV {
    pub member_of: Option<Seq<Seq<char>>>,
    pub requirements: Option<Seq<Seq<char>>>,
}

impl DeepView for Condition {
    type V = ConditionV;

    open spec fn deep_view(&self) -> ConditionV {
        ConditionV {
            member_of: self.member_of.deep_view(),
            requirements: self.requirements.deep_view(),
        }
    }
}

/// A content-addressed unit of the invoice.
#[derive(Debug, Clone, PartialEq, Eq)]
pub struct Parcel {
    pub label: Label,
    pub conditions: Option<Condition>,
}

#[verifier::ext_equal]
pub ghost struct ParcelV {
    pub label: LabelV,
    pub conditions: Option<ConditionV>,
}

impl DeepView for Parcel {
    type V = ParcelV;

    open spec fn deep_view(&self) -> ParcelV {
        ParcelV { label: self.label.deep_view(), conditions: self.conditions.deep_view() }
    }
}

/// The package identity block of an invoice.
#[derive(Debug, Clone, PartialEq, Eq)]
pub struct BindleSpec {
    pub id: String,
    pub description: Option<String>,
    pub authors: Option<Vec<String>>,
}

#[verifier::ext_equal]
pub ghost struct BindleSpecV {
    pub id: Seq<char>,
    pub description: Option<Seq<char>>,
    pub authors: Option<Seq<Seq<char>>>,
}

impl DeepView for BindleSpec {
    type V = BindleSpecV;

    open spec fn deep_view(&self) -> BindleSpecV {
        BindleSpecV {
            id: self.id.deep_view(),
            description: self.description.deep_view(),
            authors: self.authors.deep_view(),
        }
    }
}

/// The fully assembled package descriptor.  The expansion never signs and
/// never yanks, so those serialized fields stay unset and are not modeled.
#[derive(Debug, Clone, PartialEq, Eq)]
pub struct Invoice {
    pub bindle_version: String,
    pub bindle: BindleSpec,
    pub annotations: Option<Vec<(String, String)>>,
    pub parcel: Option<Vec<Parcel>>,
    pub group: Option<Vec<Group>>,
}

#[verifier::ext_equal]
pub ghost struct InvoiceV {
    pub bindle_version: Seq<char>,
    pub bindle: BindleSpecV,
    pub annotations: Option<Seq<(Seq<char>, Seq<char>)>>,
    pub parcel: Option<Seq<ParcelV>>,
    pub group: Option<Seq<GroupV>>,
}

impl DeepView for Invoice {
    type V = InvoiceV;

    open spec fn deep_view(&self) -> InvoiceV {
        InvoiceV {
            bindle_version: self.bindle_version.deep_view(),
            bindle: self.bindle.deep_view(),
            annotations: self.annotations.deep_view(),
            parcel: self.parcel.deep_view(),
            group: self.group.deep_view(),
        }
    }
}

impl Parcel {
    /// Whether this parcel's `memberOf` list names the given group.
    pub fn member_of(&self, group: &str) -> (r: bool)
        ensures
            r == self.deep_view().is_member_of(group.deep_view()),
    {
        match &self.conditions {
            None => false,
            Some(c) => match &c.member_of {
                None => false,
                Some(names) => contains_string(names, group),
            },
        }
    }
}

/// Whether some element of `names` reads as the text `wanted`.
pub fn contains_string(names: &Vec<String>, wanted: &str) -> (r: bool)
    ensures
        r == names.deep_view().contains(wanted.deep_view()),
{
    let w = wanted.to_owned();
    let mut i: usize = 0;
    while i < names.len()
        invariant
            i <= names.len(),
            w.deep_view() == wanted.deep_view(),
            forall|j: int| 0 <= j < i ==> names.deep_view()[j] != wanted.deep_view(),
        decreases names.len() - i,
    {
        if names[i].eq(&w) {
            assert(names.deep_view()[i as int] == wanted.deep_view());
            return true;
        }
        i += 1;
    }
    false
}

impl ParcelV {
    /// Whether this parcel's `memberOf` list names the given group.
    pub open spec fn is_member_of(self, group: Seq<char>) -> bool {
        match self.conditions {
            None => false,
            Some(c) => match c.member_of {
                None => false,
                Some(names) => names.contains(group),
            },
        }
    }
}

} // verus!
