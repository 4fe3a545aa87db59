//! Flat string-to-string records: what a user or a message becomes before
//! it is written as a JSON object.

use vstd::prelude::*;

verus! {

/// The fields as text pairs.
pub open spec fn fields_view(f: Seq<(String, String)>) -> Seq<(Seq<char>, Seq<char>)> {
    f.map_values(|p: (String, String)| (p.0@, p.1@))
}

/// The value stored under `key`, if any (the first pair with that key).
pub open spec fn field_lookup(f: Seq<(Seq<char>, Seq<char>)>, key: Seq<char>) -> Option<Seq<char>>
    decreases f.len(),
{
    if f.len() == 0 {
        None
    } else if f[0].0 == key {
        Some(f[0].1)
    } else {
        field_lookup(f.drop_first(), key)
    }
}

/// No key occurs twice.
pub open spec fn keys_distinct(f: Seq<(Seq<char>, Seq<char>)>) -> bool {
    forall|i: int, j: int| 0 <= i < f.len() && 0 <= j < f.len() && i != j ==> f[i].0 != f[j].0
}

/// A record of exactly two fields.
pub open spec fn two_fields(k0: Seq<char>, v0: Seq<char>, k1: Seq<char>, v1: Seq<char>) -> Seq<(Seq<char>, Seq<char>)> {
    seq![(k0, v0), (k1, v1)]
}

} // verus!
