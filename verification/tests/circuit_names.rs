use tx_read_model::circuits::{circuit_name_to_numeric_index, numeric_index_to_circuit_name};

#[test]
fn known_indices_have_names() {
    assert_eq!(numeric_index_to_circuit_name(0), Some("Scheduler"));
    assert_eq!(numeric_index_to_circuit_name(3), Some("Main VM"));
    assert_eq!(numeric_index_to_circuit_name(8), Some("SHA256"));
    assert_eq!(numeric_index_to_circuit_name(18), Some("L1 messages merklizer"));
}

#[test]
fn unknown_indices_have_no_name() {
    assert_eq!(numeric_index_to_circuit_name(19), None);
    assert_eq!(numeric_index_to_circuit_name(u8::MAX), None);
}

#[test]
fn known_names_have_indices() {
    assert_eq!(circuit_name_to_numeric_index("Scheduler"), Some(0));
    assert_eq!(circuit_name_to_numeric_index("Keccak"), Some(7));
    assert_eq!(circuit_name_to_numeric_index("ECRecover"), Some(9));
    assert_eq!(circuit_name_to_numeric_index("L1 messages merklizer"), Some(18));
}

#[test]
fn unknown_names_have_no_index() {
    assert_eq!(circuit_name_to_numeric_index(""), None);
    assert_eq!(circuit_name_to_numeric_index("scheduler"), None);
    assert_eq!(circuit_name_to_numeric_index("Main VM "), None);
}

#[test]
fn table_round_trips_on_its_domain() {
    for i in 0..=18u8 {
        let name = numeric_index_to_circuit_name(i).unwrap();
        assert_eq!(circuit_name_to_numeric_index(name), Some(i));
    }
}
