use arcana::adapter::Adapt;
use arcana::adapter::Adapter;
use arcana::adapter::Strategy;
use arcana::adapter::TransformError;
use arcana::event::VersionedEvent;
use arcana::event::VersionedEventView;
use vstd::prelude::Seq;

const PUBLIC_CREATED: u64 = 1;
const LEGACY_CREATED: u64 = 2;
const EMAIL_CONFIRMED: u64 = 3;
const ADDED_AND_CONFIRMED: u64 = 4;
const PRIVATE_CREATED: u64 = 10;
const ADDED: u64 = 21;
const CONFIRMED: u64 = 22;

/// Migrates a legacy chat schema: passes current events through, converts the
/// legacy creation event, drops confirmations and splits the combined
/// added-and-confirmed event in two.
struct ChatMigration;

impl Adapt for ChatMigration {
    type Context = u8;
    type Error = String;

    // Ghost items of the trait: never run, present only to satisfy it.
    fn convert_spec(&self, _ev: VersionedEventView) -> VersionedEventView {
        panic!()
    }

    fn custom_spec(&self, _ev: VersionedEventView, _ctx: u8) -> Result<Seq<VersionedEventView>, String> {
        panic!()
    }

    fn convert(&self, ev: &VersionedEvent) -> VersionedEvent {
        VersionedEvent {
            type_tag: PRIVATE_CREATED,
            name: "chat.private".to_string(),
            version: 1,
            payload: ev.payload.clone(),
        }
    }

    fn custom(&self, ev: &VersionedEvent, ctx: &u8) -> Result<Vec<VersionedEvent>, String> {
        if ev.payload.is_empty() {
            return Err("cannot split an empty payload".to_string());
        }
        Ok(vec![
            VersionedEvent {
                type_tag: ADDED,
                name: "email.added".to_string(),
                version: 1,
                payload: ev.payload.clone(),
            },
            VersionedEvent {
                type_tag: CONFIRMED,
                name: "email.confirmed".to_string(),
                version: 1,
                payload: vec![*ctx],
            },
        ])
    }
}

fn migration_table() -> Adapter {
    Adapter::new()
        .with_binding(PUBLIC_CREATED, Strategy::AsIs)
        .with_binding(LEGACY_CREATED, Strategy::Convert)
        .with_binding(EMAIL_CONFIRMED, Strategy::Skip)
        .with_binding(ADDED_AND_CONFIRMED, Strategy::Custom)
}

fn event(tag: u64, name: &str, payload: Vec<u8>) -> VersionedEvent {
    VersionedEvent { type_tag: tag, name: name.to_string(), version: 1, payload }
}

#[test]
fn as_is_passes_event_through() {
    let table = migration_table();
    let out = table.transform(&ChatMigration, event(PUBLIC_CREATED, "chat", vec![5]), &0);
    assert_eq!(out, vec![Ok(event(PUBLIC_CREATED, "chat", vec![5]))]);
}

#[test]
fn skip_yields_no_output() {
    let table = migration_table();
    let out = table.transform(&ChatMigration, event(EMAIL_CONFIRMED, "email.confirmed", vec![5]), &0);
    assert_eq!(out, Vec::new());
}

#[test]
fn convert_yields_exactly_one_output() {
    let table = migration_table();
    let out = table.transform(&ChatMigration, event(LEGACY_CREATED, "chat", vec![5, 6]), &0);
    let expected = ChatMigration.convert(&event(LEGACY_CREATED, "chat", vec![5, 6]));
    assert_eq!(out, vec![Ok(expected)]);
}

#[test]
fn custom_may_split_into_many() {
    let table = migration_table();
    let out = table.transform(
        &ChatMigration,
        event(ADDED_AND_CONFIRMED, "email.v2", vec![9]),
        &77,
    );
    assert_eq!(
        out,
        vec![
            Ok(event(ADDED, "email.added", vec![9])),
            Ok(event(CONFIRMED, "email.confirmed", vec![77])),
        ]
    );
}

#[test]
fn custom_error_is_propagated() {
    let table = migration_table();
    let out = table.transform(&ChatMigration, event(ADDED_AND_CONFIRMED, "email.v2", Vec::new()), &0);
    assert_eq!(
        out,
        vec![Err(TransformError::Custom("cannot split an empty payload".to_string()))]
    );
}

#[test]
fn unbound_representation_is_surfaced() {
    let table = migration_table();
    let out = table.transform(&ChatMigration, event(99, "mystery", vec![1]), &0);
    assert_eq!(out, vec![Err(TransformError::Unbound { type_tag: 99 })]);
}

#[test]
fn independent_adapters_do_not_interfere() {
    let keeping = Adapter::new().with_binding(EMAIL_CONFIRMED, Strategy::AsIs);
    let dropping = Adapter::new().with_binding(EMAIL_CONFIRMED, Strategy::Skip);
    let ev = event(EMAIL_CONFIRMED, "email.confirmed", vec![3]);
    let kept = keeping.transform(&ChatMigration, event(EMAIL_CONFIRMED, "email.confirmed", vec![3]), &0);
    let dropped = dropping.transform(&ChatMigration, ev, &0);
    assert_eq!(kept, vec![Ok(event(EMAIL_CONFIRMED, "email.confirmed", vec![3]))]);
    assert_eq!(dropped, Vec::new());
}
