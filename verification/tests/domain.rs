//! Tests of the chain-domain registry.

use merkle_builder::{domain_id_from_name, name_from_domain_id, HyperlaneDomain, HyperlaneDomainType};

#[test]
fn domain_strings() {
    assert_eq!(
        HyperlaneDomain::from_name("ethereum").unwrap(),
        HyperlaneDomain::Ethereum,
    );
    assert_eq!(
        HyperlaneDomain::Ethereum.name(),
        "ethereum".to_string(),
    );
}

#[test]
fn domain_ids() {
    assert_eq!(
        HyperlaneDomain::from_domain_id(0x657468u32).unwrap(),
        HyperlaneDomain::Ethereum,
    );

    assert_eq!(HyperlaneDomain::Ethereum.domain_id(), 0x657468u32,);
}

#[test]
fn test_name_from_domain_id() {
    assert_eq!(name_from_domain_id(0x657468u32), Some("ethereum".into()),);

    assert_eq!(name_from_domain_id(0xf00u32), None,);
}

#[test]
fn test_domain_id_from_name() {
    assert_eq!(domain_id_from_name("ethereum"), Some(0x657468u32),);

    assert_eq!(domain_id_from_name("foo"), None,);
}

#[test]
fn domain_types() {
    assert_eq!(
        HyperlaneDomain::Ethereum.domain_type(),
        HyperlaneDomainType::Mainnet
    );
    assert_eq!(
        HyperlaneDomain::Goerli.domain_type(),
        HyperlaneDomainType::Testnet
    );
    assert_eq!(
        HyperlaneDomain::Test2.domain_type(),
        HyperlaneDomainType::LocalTestChain
    );
}

#[test]
fn overridden_names_round_trip() {
    assert_eq!(domain_id_from_name("bsc"), Some(0x627363u32));
    assert_eq!(domain_id_from_name("bsctestnet"), Some(0x62732d74u32));
    assert_eq!(name_from_domain_id(0x627363u32), Some("bsc".into()));
    assert_eq!(
        HyperlaneDomain::from_name("binancesmartchain"),
        None,
    );
}
