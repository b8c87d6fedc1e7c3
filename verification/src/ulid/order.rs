//! Identifiers are ordered as their 128-bit values are: by time first, then
//! by the random field.
use crate::ulid::base32::encode_spec;
use crate::ulid::lexical::{lemma_encode_order, lex_lt};
use crate::ulid::ULID;
use std::cmp::Ordering;
use vstd::prelude::*;
use vstd::std_specs::cmp::PartialOrdSpec;

verus! {

impl PartialOrd for ULID {
    fn partial_cmp(&self, other: &Self) -> (r: Option<Ordering>) {
        if self.0 < other.0 {
            Some(Ordering::Less)
        } else if self.0 > other.0 {
            Some(Ordering::Greater)
        } else {
            Some(Ordering::Equal)
        }
    }
}

impl vstd::std_specs::cmp::PartialOrdSpecImpl for ULID {
    open spec fn obeys_partial_cmp_spec() -> bool {
        true
    }

    open spec fn partial_cmp_spec(&self, other: &Self) -> Option<Ordering> {
        if self.0 < other.0 {
            Some(Ordering::Less)
        } else if self.0 > other.0 {
            Some(Ordering::Greater)
        } else {
            Some(Ordering::Equal)
        }
    }
}

/// An identifier of an earlier millisecond comes first, whatever the random
/// fields are; within one millisecond the random field decides.
pub proof fn lemma_order_by_fields(a: ULID, b: ULID)
    ensures
        a.spec_time() < b.spec_time() ==> a.partial_cmp_spec(&b) == Some(Ordering::Less),
        a.spec_time() == b.spec_time() && a.spec_random() < b.spec_random() ==> a.partial_cmp_spec(
            &b,
        ) == Some(Ordering::Less),
{
}

/// One identifier is below another exactly when its value is the smaller,
/// and exactly when its canonical text comes first, byte by byte.
pub proof fn lemma_order_matches_text(a: ULID, b: ULID)
    ensures
        a.partial_cmp_spec(&b) == Some(Ordering::Less) <==> a.0 < b.0,
        a.0 < b.0 <==> lex_lt(encode_spec(a.0), encode_spec(b.0)),
{
    lemma_encode_order(a.0, b.0);
}

/// The successor of an identifier comes right after it: it is the greater
/// of the two, and no identifier lies between them.
pub proof fn lemma_increment_is_next(id: ULID, other: ULID)
    requires
        id.spec_increment() is Some,
    ensures
        id.partial_cmp_spec(&id.spec_increment().unwrap()) == Some(Ordering::Less),
        !(id.0 < other.0 && other.0 < id.spec_increment().unwrap().0),
{
}

} // verus!
