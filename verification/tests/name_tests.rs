use rymeon_ca::errors::CaError;
use rymeon_ca::name::{build_name, build_root_name, AttributeType, DistinguishedName, NameBuilder};

#[test]
fn build_root_name_is_ok() {
    let root_name_result = build_root_name();
    assert!(root_name_result.is_ok());
}

#[test]
fn build_root_name_has_4_entries() {
    let root_name = build_root_name().unwrap();
    assert_eq!(root_name.entries().len(), 4);
}

#[test]
fn build_root_name_hashmap() {
    let root_name = build_root_name().unwrap();
    let map = root_name.to_hash_map();
    assert_eq!(map.len(), 4);
    assert!(map.contains_key("countryName"));
    assert_eq!(map.get("countryName").unwrap().as_str(), "US");
    assert!(map.contains_key("stateOrProvinceName"));
    assert_eq!(map.get("stateOrProvinceName").unwrap().as_str(), "CA");
    assert!(map.contains_key("organizationName"));
    assert_eq!(map.get("organizationName").unwrap().as_str(), "Rymeon");
    assert!(map.contains_key("commonName"));
    assert_eq!(map.get("commonName").unwrap().as_str(), "Rymeon Root CA");
}

#[test]
fn build_name_keeps_order_and_values() {
    let entries = vec![
        (AttributeType::Country, String::from("US")),
        (AttributeType::State, String::from("CA")),
        (AttributeType::Organization, String::from("Rymeon")),
        (AttributeType::CommonName, String::from("Rymeon Root CA")),
    ];
    let name = build_name(&entries).unwrap();
    assert_eq!(name.entry_count(), 4);
    assert_eq!(name.entries()[0].attr_type(), AttributeType::Country);
    assert_eq!(name.entries()[0].value(), "US");
    assert_eq!(name.entries()[3].attr_type(), AttributeType::CommonName);
    assert_eq!(name.entries()[3].value(), "Rymeon Root CA");
    let map = name.to_hash_map();
    assert_eq!(map.get("commonName").unwrap().as_str(), "Rymeon Root CA");
}

#[test]
fn builder_rejects_empty_value() {
    let mut builder = NameBuilder::new();
    assert_eq!(
        builder.append_entry(AttributeType::Country, ""),
        Err(CaError::InvalidAttribute)
    );
}

#[test]
fn builder_rejects_over_long_value() {
    let mut builder = NameBuilder::new();
    let long = "x".repeat(65);
    assert_eq!(
        builder.append_entry(AttributeType::Organization, &long),
        Err(CaError::InvalidAttribute)
    );
}

#[test]
fn builder_rejects_non_printable_value() {
    let mut builder = NameBuilder::new();
    assert_eq!(
        builder.append_entry(AttributeType::Organization, "a\tb"),
        Err(CaError::InvalidAttribute)
    );
}

#[test]
fn builder_rejects_unrecognized_key() {
    let mut builder = NameBuilder::new();
    assert_eq!(
        builder.append_entry_by_text("XX", "value"),
        Err(CaError::InvalidAttribute)
    );
    assert!(builder.append_entry_by_text("OU", "Engineering").is_ok());
    assert!(builder.append_entry_by_text("L", "San Francisco").is_ok());
}

#[test]
fn encoding_of_single_entry_is_exact() {
    let entries = vec![(AttributeType::Country, String::from("US"))];
    let name = build_name(&entries).unwrap();
    let bytes = name.encode();
    assert_eq!(bytes, vec![0u8, 1, 1, 2, b'U', b'S']);
}

#[test]
fn encoding_round_trips() {
    let root_name = build_root_name().unwrap();
    let bytes = root_name.encode();
    let reparsed = DistinguishedName::parse(&bytes).unwrap();
    assert_eq!(reparsed.entry_count(), root_name.entry_count());
    for i in 0..root_name.entries().len() {
        assert_eq!(
            reparsed.entries()[i].attr_type(),
            root_name.entries()[i].attr_type()
        );
        assert_eq!(reparsed.entries()[i].value(), root_name.entries()[i].value());
    }
}

#[test]
fn parse_rejects_truncated_encoding() {
    let root_name = build_root_name().unwrap();
    let mut bytes = root_name.encode();
    bytes.pop();
    assert!(DistinguishedName::parse(&bytes).is_none());
    assert!(DistinguishedName::parse(&vec![7u8]).is_none());
}
