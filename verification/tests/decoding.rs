use arcana::event::encode;
use arcana::event::EventRepresentation;
use arcana::event::RawEvent;
use arcana::event::VariantSet;
use arcana::event::VersionedEvent;
use arcana::event::VersionedOrRaw;
use arcana::registry::Registry;

fn chat_registry() -> Registry {
    let set = VariantSet::new().with_member(EventRepresentation::new(
        "ChatCreated".to_string(),
        1,
        "chat".to_string(),
        1,
    ));
    Registry::build(set).unwrap()
}

#[test]
fn decode_known_identity_yields_versioned() {
    let reg = chat_registry();
    let wire = RawEvent { name: "chat".to_string(), version: 1, payload: vec![7, 8] };
    let decoded = reg.decode(wire);
    assert_eq!(
        decoded,
        VersionedOrRaw::Versioned(VersionedEvent {
            type_tag: 1,
            name: "chat".to_string(),
            version: 1,
            payload: vec![7, 8],
        })
    );
}

#[test]
fn decode_unknown_version_yields_raw() {
    let reg = chat_registry();
    let wire = RawEvent { name: "chat".to_string(), version: 9, payload: vec![7, 8] };
    let decoded = reg.decode(wire);
    assert_eq!(
        decoded,
        VersionedOrRaw::Raw(RawEvent { name: "chat".to_string(), version: 9, payload: vec![7, 8] })
    );
}

#[test]
fn encode_decode_round_trip() {
    let reg = chat_registry();
    let original = VersionedEvent {
        type_tag: 1,
        name: "chat".to_string(),
        version: 1,
        payload: vec![1, 2, 3],
    };
    let copy = VersionedEvent {
        type_tag: 1,
        name: "chat".to_string(),
        version: 1,
        payload: vec![1, 2, 3],
    };
    let decoded = reg.decode(encode(original));
    assert_eq!(decoded, VersionedOrRaw::Versioned(copy));
}
