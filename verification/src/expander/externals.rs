//! Locating a handler parcel inside a fetched external invoice by its
//! advertised handler id.

use vstd::prelude::*;
use crate::expander::collections::lookup_by_key;
use crate::expander::collections::spec_lookup_by_key;
use crate::hippofacts::Export;
use crate::invoice::Invoice;
use crate::invoice::Parcel;

verus! {

/// Whether the parcel's annotations advertise `handler_id` under the
/// `wagi_handler_id` key.
pub open spec fn spec_has_handler_id(p: Parcel, handler_id: Seq<char>) -> bool {
    match p.label.annotations {
        None => false,
        Some(anns) => match spec_lookup_by_key(anns@, "wagi_handler_id"@) {
            Some(v) => v@ == handler_id,
            None => false,
        },
    }
}

fn has_handler_id(parcel: &Parcel, handler_id: &str) -> (r: bool)
    ensures
        r == spec_has_handler_id(*parcel, handler_id@),
{
    match &parcel.label.annotations {
        None => false,
        Some(anns) => match lookup_by_key(anns, "wagi_handler_id") {
            None => false,
            Some(v) => {
                let h = handler_id.to_owned();
                v.eq(&h)
            },
        },
    }
}

/// The first parcel of `s` that advertises `handler_id`.
pub open spec fn spec_first_with_handler_id(s: Seq<Parcel>, handler_id: Seq<char>) -> Option<
    Parcel,
>
    decreases s.len(),
{
    if s.len() == 0 {
        None
    } else if spec_has_handler_id(s[0], handler_id) {
        Some(s[0])
    } else {
        spec_first_with_handler_id(s.drop_first(), handler_id)
    }
}

/// The first parcel of the invoice that advertises `handler_id`.
pub open spec fn spec_find_handler_parcel(inv: Invoice, handler_id: Seq<char>) -> Option<Parcel> {
    match inv.parcel {
        None => None,
        Some(ps) => spec_first_with_handler_id(ps@, handler_id),
    }
}

proof fn lemma_first_with_handler_id_at(s: Seq<Parcel>, handler_id: Seq<char>, i: int)
    requires
        0 <= i < s.len(),
        spec_has_handler_id(s[i], handler_id),
        forall|j: int| 0 <= j < i ==> !spec_has_handler_id(s[j], handler_id),
    ensures
        spec_first_with_handler_id(s, handler_id) == Some(s[i]),
    decreases i,
{
    if i > 0 {
        lemma_first_with_handler_id_at(s.drop_first(), handler_id, i - 1);
    }
}

proof fn lemma_first_with_handler_id_none(s: Seq<Parcel>, handler_id: Seq<char>)
    requires
        forall|j: int| 0 <= j < s.len() ==> !spec_has_handler_id(s[j], handler_id),
    ensures
        spec_first_with_handler_id(s, handler_id) is None,
    decreases s.len(),
{
    if s.len() > 0 {
        lemma_first_with_handler_id_none(s.drop_first(), handler_id);
    }
}

/// Searches the invoice's parcel list for the handler parcel advertising
/// `handler_id`.
#[verifier::loop_isolation(false)]
pub fn find_handler_parcel<'a>(invoice: &'a Invoice, handler_id: &str) -> (r: Option<&'a Parcel>)
    ensures
        (match r {
            Some(p) => spec_find_handler_parcel(*invoice, handler_id@) == Some(*p),
            None => spec_find_handler_parcel(*invoice, handler_id@) is None,
        }),
{
    match &invoice.parcel {
        None => None,
        Some(parcels) => {
            let mut i: usize = 0;
            while i < parcels.len()
                invariant
                    i <= parcels.len(),
                    forall|j: int| 0 <= j < i ==> !spec_has_handler_id(parcels@[j], handler_id@),
                decreases parcels.len() - i,
            {
                if has_handler_id(&parcels[i], handler_id) {
                    proof {
                        lemma_first_with_handler_id_at(parcels@, handler_id@, i as int);
                    }
                    return Some(&parcels[i]);
                }
                i += 1;
            }
            proof {
                lemma_first_with_handler_id_none(parcels@, handler_id@);
            }
            None
        },
    }
}

/// The annotation pair that advertises a module's exported handler.
pub fn annotate_handler_id<'a>(e: &'a Export) -> (r: Vec<(&'a str, &'a str)>)
    ensures
        r.deep_view() =~= seq![("wagi_handler_id"@, e.id@)],
{
    let mut v: Vec<(&str, &str)> = Vec::new();
    v.push(("wagi_handler_id", e.id.as_str()));
    proof {
        assert(v.deep_view() =~~= seq![("wagi_handler_id"@, e.id@)]);
    }
    v
}

} // verus!
