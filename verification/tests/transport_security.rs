use libp2p_perf::transport_security::TransportSecurity;

#[test]
fn parses_the_three_mode_words() {
    assert_eq!(
        TransportSecurity::from_str("noise"),
        Ok(TransportSecurity::Noise)
    );
    assert_eq!(
        TransportSecurity::from_str("plaintext"),
        Ok(TransportSecurity::Plaintext)
    );
    assert_eq!(
        TransportSecurity::from_str("all"),
        Ok(TransportSecurity::All)
    );
}

#[test]
fn rejects_anything_else() {
    let err = TransportSecurity::from_str("tls").unwrap_err();
    assert_eq!(err, "Expected one of 'noise', 'plaintext' or 'all'.");
    assert!(TransportSecurity::from_str("").is_err());
    assert!(TransportSecurity::from_str("Noise").is_err());
    assert!(TransportSecurity::from_str("noise ").is_err());
}

#[test]
fn names_match_the_variants() {
    assert_eq!(TransportSecurity::Noise.name(), "Noise");
    assert_eq!(TransportSecurity::Plaintext.name(), "Plaintext");
    assert_eq!(TransportSecurity::All.name(), "All");
}
