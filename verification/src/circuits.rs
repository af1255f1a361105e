//! The static circuit-name table: a pure, constant mapping between the
//! numeric index of a proving circuit and its display name, invertible on
//! its domain.

use vstd::prelude::*;

verus! {

/// The display name of circuit `i`, for the nineteen known circuits.
pub open spec fn spec_circuit_name(i: u8) -> Option<Seq<char>> {
    if i == 0 {
        Some("Scheduler"@)
    } else if i == 1 {
        Some("Node aggregation"@)
    } else if i == 2 {
        Some("Leaf aggregation"@)
    } else if i == 3 {
        Some("Main VM"@)
    } else if i == 4 {
        Some("Decommitts sorter"@)
    } else if i == 5 {
        Some("Code decommitter"@)
    } else if i == 6 {
        Some("Log demuxer"@)
    } else if i == 7 {
        Some("Keccak"@)
    } else if i == 8 {
        Some("SHA256"@)
    } else if i == 9 {
        Some("ECRecover"@)
    } else if i == 10 {
        Some("RAM permutation"@)
    } else if i == 11 {
        Some("Storage sorter"@)
    } else if i == 12 {
        Some("Storage application"@)
    } else if i == 13 {
        Some("Initial writes pubdata rehasher"@)
    } else if i == 14 {
        Some("Repeated writes pubdata rehasher"@)
    } else if i == 15 {
        Some("Events sorter"@)
    } else if i == 16 {
        Some("L1 messages sorter"@)
    } else if i == 17 {
        Some("L1 messages rehasher"@)
    } else if i == 18 {
        Some("L1 messages merklizer"@)
    } else {
        None
    }
}

/// The numeric index a display name stands for, if it is a known name.
pub open spec fn spec_circuit_index(s: Seq<char>) -> Option<u8> {
    if s == "Scheduler"@ {
        Some(0u8)
    } else if s == "Node aggregation"@ {
        Some(1u8)
    } else if s == "Leaf aggregation"@ {
        Some(2u8)
    } else if s == "Main VM"@ {
        Some(3u8)
    } else if s == "Decommitts sorter"@ {
        Some(4u8)
    } else if s == "Code decommitter"@ {
        Some(5u8)
    } else if s == "Log demuxer"@ {
        Some(6u8)
    } else if s == "Keccak"@ {
        Some(7u8)
    } else if s == "SHA256"@ {
        Some(8u8)
    } else if s == "ECRecover"@ {
        Some(9u8)
    } else if s == "RAM permutation"@ {
        Some(10u8)
    } else if s == "Storage sorter"@ {
        Some(11u8)
    } else if s == "Storage application"@ {
        Some(12u8)
    } else if s == "Initial writes pubdata rehasher"@ {
        Some(13u8)
    } else if s == "Repeated writes pubdata rehasher"@ {
        Some(14u8)
    } else if s == "Events sorter"@ {
        Some(15u8)
    } else if s == "L1 messages sorter"@ {
        Some(16u8)
    } else if s == "L1 messages rehasher"@ {
        Some(17u8)
    } else if s == "L1 messages merklizer"@ {
        Some(18u8)
    } else {
        None
    }
}

/// Relies on std's `PartialEq` for `str`: two string slices are equal
/// exactly when they hold the same character sequence.
#[verifier::external_body]
fn str_eq(a: &str, b: &str) -> (r: bool)
    ensures
        r == (a@ == b@),
{
    a == b
}

/// The display name of a circuit index; indices past the table are unknown.
pub fn numeric_index_to_circuit_name(circuit_numeric_index: u8) -> (r: Option<&'static str>)
    ensures
        match r {
            Some(name) => spec_circuit_name(circuit_numeric_index) == Some(name@),
            None => spec_circuit_name(circuit_numeric_index) is None,
        },
{
    match circuit_numeric_index {
        0 => Some("Scheduler"),
        1 => Some("Node aggregation"),
        2 => Some("Leaf aggregation"),
        3 => Some("Main VM"),
        4 => Some("Decommitts sorter"),
        5 => Some("Code decommitter"),
        6 => Some("Log demuxer"),
        7 => Some("Keccak"),
        8 => Some("SHA256"),
        9 => Some("ECRecover"),
        10 => Some("RAM permutation"),
        11 => Some("Storage sorter"),
        12 => Some("Storage application"),
        13 => Some("Initial writes pubdata rehasher"),
        14 => Some("Repeated writes pubdata rehasher"),
        15 => Some("Events sorter"),
        16 => Some("L1 messages sorter"),
        17 => Some("L1 messages rehasher"),
        18 => Some("L1 messages merklizer"),
        _ => None,
    }
}

/// The numeric index of a circuit display name; unknown names resolve to
/// nothing.
pub fn circuit_name_to_numeric_index(circuit_name: &str) -> (r: Option<u8>)
    ensures
        r == spec_circuit_index(circuit_name@),
{
    if str_eq(circuit_name, "Scheduler") {
        Some(0)
    } else if str_eq(circuit_name, "Node aggregation") {
        Some(1)
    } else if str_eq(circuit_name, "Leaf aggregation") {
        Some(2)
    } else if str_eq(circuit_name, "Main VM") {
        Some(3)
    } else if str_eq(circuit_name, "Decommitts sorter") {
        Some(4)
    } else if str_eq(circuit_name, "Code decommitter") {
        Some(5)
    } else if str_eq(circuit_name, "Log demuxer") {
        Some(6)
    } else if str_eq(circuit_name, "Keccak") {
        Some(7)
    } else if str_eq(circuit_name, "SHA256") {
        Some(8)
    } else if str_eq(circuit_name, "ECRecover") {
        Some(9)
    } else if str_eq(circuit_name, "RAM permutation") {
        Some(10)
    } else if str_eq(circuit_name, "Storage sorter") {
        Some(11)
    } else if str_eq(circuit_name, "Storage application") {
        Some(12)
    } else if str_eq(circuit_name, "Initial writes pubdata rehasher") {
        Some(13)
    } else if str_eq(circuit_name, "Repeated writes pubdata rehasher") {
        Some(14)
    } else if str_eq(circuit_name, "Events sorter") {
        Some(15)
    } else if str_eq(circuit_name, "L1 messages sorter") {
        Some(16)
    } else if str_eq(circuit_name, "L1 messages rehasher") {
        Some(17)
    } else if str_eq(circuit_name, "L1 messages merklizer") {
        Some(18)
    } else {
        None
    }
}

/// A name the index lookup accepts names exactly the circuit it resolves
/// to: looking the index up again returns the same name.
pub proof fn lemma_circuit_name_round_trip(s: Seq<char>)
    requires
        spec_circuit_index(s) is Some,
    ensures
        spec_circuit_name(spec_circuit_index(s)->0) == Some(s),
{
}

/// The table covers exactly the nineteen known circuit indices.
pub proof fn lemma_circuit_name_range(i: u8)
    ensures
        spec_circuit_name(i) is Some <==> i <= 18,
{
}

} // verus!
