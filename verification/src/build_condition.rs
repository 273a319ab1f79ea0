//! Conditional-expansion hooks: named options and the expressions that
//! consult them.

use vstd::prelude::*;
use crate::expander::collections::lookup_by_key;
use crate::expander::collections::spec_lookup_by_key;

verus! {

/// Named option values that build conditions consult.
pub struct BuildConditionOptions {
    values: Vec<(String, String)>,
}

impl BuildConditionOptions {
    /// The option values, keyed pairs in order.
    pub closed spec fn spec_values(&self) -> Seq<(String, String)> {
        self.values@
    }

    /// No options at all.
    pub fn none() -> (r: Self)
        ensures
            r.spec_values().len() == 0,
    {
        BuildConditionOptions { values: Vec::new() }
    }

    /// Options built from key/value pairs.
    pub fn from_pairs(values: Vec<(String, String)>) -> (r: Self)
        ensures
            r.spec_values() == values@,
    {
        BuildConditionOptions { values }
    }

    /// The value of the named option, if any.
    pub fn lookup(&self, key: &str) -> (r: Option<String>)
        ensures
            (match (r, spec_lookup_by_key(self.spec_values(), key@)) {
                (Some(v), Some(w)) => v@ == w@,
                (None, None) => true,
                _ => false,
            }),
    {
        match lookup_by_key(&self.values, key) {
            Some(v) => Some(v.clone()),
            None => None,
        }
    }
}

/// A condition deciding whether a handler is expanded.
pub enum BuildConditionExpression {
    /// No condition: always expand.
    Unconditional,
    /// Expand when the two terms evaluate equal.
    Equal(EqualityCondition),
    /// Expand when the two terms evaluate unequal.
    Unequal(InequalityCondition),
}

impl BuildConditionExpression {
    /// Whether the handler should be expanded.  Only the unconditional
    /// form is evaluated so far; the comparison forms are not yet
    /// accepted, so callers must not pass them.
    pub fn should_expand(&self) -> (r: bool)
        requires
            *self matches BuildConditionExpression::Unconditional,
        ensures
            r == true,
    {
        true
    }
}

/// A value term: a literal, or a reference to a named option.
pub enum BuildConditionValue {
    OptionRef(String),
    Literal(String),
}

impl BuildConditionValue {
    /// Evaluates the term: a literal is itself, an option reference is
    /// looked up in the options.
    pub fn eval(&self, context: &BuildConditionOptions) -> (r: Option<String>)
        ensures
            (match self {
                BuildConditionValue::Literal(s) => r matches Some(v) && v@ == s@,
                BuildConditionValue::OptionRef(k) => (match (
                    r,
                    spec_lookup_by_key(context.spec_values(), k@),
                ) {
                    (Some(v), Some(w)) => v@ == w@,
                    (None, None) => true,
                    _ => false,
                }),
            }),
    {
        match self {
            BuildConditionValue::Literal(s) => Some(s.clone()),
            BuildConditionValue::OptionRef(k) => context.lookup(k.as_str()),
        }
    }
}

/// An equality comparison between two value terms.
pub struct EqualityCondition {
    pub left: BuildConditionValue,
    pub right: BuildConditionValue,
}

/// An inequality comparison between two value terms.
pub struct InequalityCondition {
    pub left: BuildConditionValue,
    pub right: BuildConditionValue,
}

} // verus!
