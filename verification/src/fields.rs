//! Required fields of received mappings.

use vstd::prelude::*;

use crate::error::{Failure, Fault};
use crate::wire::{WireDict, WireValue};

verus! {

/// The value under a required key.
pub open spec fn required<'a>(d: WireDict<'a>, key: Seq<char>, complaint: Seq<char>) -> Result<
    WireValue<'a>,
    Fault,
> {
    match d.lookup(key) {
        Some(v) => Ok(v),
        None => Err(Fault::Key(complaint)),
    }
}

/// Gets the value under a required key.
pub fn get_required<'d, 'a>(d: &'d WireDict<'a>, key: &str, complaint: &str) -> (r: Result<
    &'d WireValue<'a>,
    Failure,
>)
    ensures
        match r {
            Ok(v) => required(*d, key@, complaint@) == Ok::<WireValue<'a>, Fault>(*v),
            Err(e) => required(*d, key@, complaint@) == Err::<WireValue<'a>, Fault>(e@),
        },
{
    match d.get(key) {
        Some(v) => Ok(v),
        None => Err(Failure::Key(complaint.to_owned())),
    }
}

/// The text under a required key.
pub open spec fn required_text(d: WireDict, key: Seq<char>, complaint: Seq<char>) -> Result<
    String,
    Fault,
> {
    match required(d, key, complaint) {
        Err(e) => Err(e),
        Ok(v) => match v.text() {
            Err(c) => Err(Fault::Conversion(c)),
            Ok(s) => Ok(s),
        },
    }
}

/// Gets the text under a required key.
pub fn get_required_text(d: &WireDict, key: &str, complaint: &str) -> (r: Result<String, Failure>)
    ensures
        match r {
            Ok(s) => required_text(*d, key@, complaint@) == Ok::<String, Fault>(s),
            Err(e) => required_text(*d, key@, complaint@) == Err::<String, Fault>(e@),
        },
{
    match get_required(d, key, complaint) {
        Err(e) => Err(e),
        Ok(v) => match v.to_text() {
            Err(c) => Err(Failure::Conversion(c)),
            Ok(s) => Ok(s),
        },
    }
}

/// The mapping under a required key.
pub open spec fn required_dict<'a>(d: WireDict<'a>, key: Seq<char>, complaint: Seq<char>) -> Result<
    WireDict<'a>,
    Fault,
> {
    match required(d, key, complaint) {
        Err(e) => Err(e),
        Ok(v) => match v.dict() {
            Err(c) => Err(Fault::Conversion(c)),
            Ok(s) => Ok(s),
        },
    }
}

/// A mapping found under a key is smaller than the mapping it was found in.
pub proof fn lemma_required_dict_smaller(d: WireDict, key: Seq<char>, complaint: Seq<char>)
    ensures
        required_dict(d, key, complaint) matches Ok(sub) ==> decreases_to!(d => sub),
{
    d.lemma_lookup_smaller(key);
}

/// Gets the mapping under a required key.
pub fn get_required_dict<'d, 'a>(d: &'d WireDict<'a>, key: &str, complaint: &str) -> (r: Result<
    &'d WireDict<'a>,
    Failure,
>)
    ensures
        match r {
            Ok(s) => required_dict(*d, key@, complaint@) == Ok::<WireDict<'a>, Fault>(*s)
                && decreases_to!(*d => *s),
            Err(e) => required_dict(*d, key@, complaint@) == Err::<WireDict<'a>, Fault>(e@),
        },
{
    proof {
        lemma_required_dict_smaller(*d, key@, complaint@);
    }
    match get_required(d, key, complaint) {
        Err(e) => Err(e),
        Ok(v) => match v.to_dict() {
            Err(c) => Err(Failure::Conversion(c)),
            Ok(s) => Ok(s),
        },
    }
}

} // verus!
