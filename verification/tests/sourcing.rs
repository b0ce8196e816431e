use arcana::event::EventRepresentation;
use arcana::event::VariantSet;
use arcana::event::VersionedEvent;
use arcana::event::VersionedEventView;
use arcana::registry::Registry;
use arcana::sourcing::Sourced;
use arcana::sourcing::SourcingError;

const CREATED: u64 = 1;
const POSTED: u64 = 2;
const ARCHIVED: u64 = 3;

#[derive(Debug, PartialEq, Eq, Clone, Copy)]
struct Chat {
    messages: u64,
}

impl Sourced for Chat {
    // Ghost items of the trait: never run, present only to satisfy it.
    fn init_spec(_ev: VersionedEventView) -> Self {
        panic!()
    }

    fn apply_spec(self, _ev: VersionedEventView) -> Self {
        panic!()
    }

    fn init(_ev: &VersionedEvent) -> Self {
        Chat { messages: 0 }
    }

    fn apply(self, ev: &VersionedEvent) -> Self {
        if ev.type_tag == POSTED {
            Chat { messages: self.messages + 1 }
        } else {
            self
        }
    }
}

fn chat_registry() -> Registry {
    let set = VariantSet::new()
        .with_member(
            EventRepresentation::new("ChatCreated".to_string(), CREATED, "chat".to_string(), 1)
                .initial(),
        )
        .with_member(EventRepresentation::new(
            "MessagePosted".to_string(),
            POSTED,
            "message".to_string(),
            1,
        ))
        .with_member(
            EventRepresentation::new("ChatArchived".to_string(), ARCHIVED, "archived".to_string(), 1)
                .ignored(),
        );
    Registry::build(set).unwrap()
}

fn event(tag: u64, name: &str) -> VersionedEvent {
    VersionedEvent { type_tag: tag, name: name.to_string(), version: 1, payload: Vec::new() }
}

#[test]
fn sourcing_initializes_from_initial_event() {
    let reg = chat_registry();
    let state: Result<Chat, _> = reg.sourced(None, &event(CREATED, "chat"));
    assert_eq!(state, Ok(Chat { messages: 0 }));
}

#[test]
fn sourcing_rejects_non_initial_start() {
    let reg = chat_registry();
    let state: Result<Chat, _> = reg.sourced(None, &event(POSTED, "message"));
    assert_eq!(state, Err(SourcingError::NotInitial { type_tag: POSTED }));
}

#[test]
fn sourcing_applies_subsequent_events() {
    let reg = chat_registry();
    let state = reg.sourced(Some(Chat { messages: 4 }), &event(POSTED, "message"));
    assert_eq!(state, Ok(Chat { messages: 5 }));
}

#[test]
fn sourcing_rejects_ignored_member() {
    let reg = chat_registry();
    let state: Result<Chat, _> = reg.sourced(Some(Chat { messages: 0 }), &event(ARCHIVED, "archived"));
    assert_eq!(state, Err(SourcingError::IgnoredMember { type_tag: ARCHIVED }));
}

#[test]
fn sourcing_rejects_unknown_representation() {
    let reg = chat_registry();
    let state: Result<Chat, _> = reg.sourced(None, &event(99, "mystery"));
    assert_eq!(state, Err(SourcingError::UnknownRepresentation { type_tag: 99 }));
}

#[test]
fn fold_composes_step_by_step() {
    let reg = chat_registry();
    let events = vec![
        event(CREATED, "chat"),
        event(POSTED, "message"),
        event(POSTED, "message"),
    ];
    let folded: Result<Option<Chat>, _> = reg.fold(None, &events);

    let mut stepwise: Option<Chat> = None;
    for ev in &events {
        stepwise = Some(reg.sourced(stepwise, ev).unwrap());
    }
    assert_eq!(folded, Ok(stepwise));
    assert_eq!(folded, Ok(Some(Chat { messages: 2 })));
}

#[test]
fn fold_stops_at_first_illegal_call() {
    let reg = chat_registry();
    let events = vec![event(POSTED, "message"), event(CREATED, "chat")];
    let folded: Result<Option<Chat>, _> = reg.fold(None, &events);
    assert_eq!(folded, Err(SourcingError::NotInitial { type_tag: POSTED }));
}

#[test]
fn fold_of_no_events_returns_prior() {
    let reg = chat_registry();
    let folded = reg.fold(Some(Chat { messages: 3 }), &Vec::new());
    assert_eq!(folded, Ok(Some(Chat { messages: 3 })));
}

#[test]
fn sourcing_same_state_and_event_twice_agrees() {
    let reg = chat_registry();
    let first = reg.sourced(Some(Chat { messages: 1 }), &event(POSTED, "message"));
    let second = reg.sourced(Some(Chat { messages: 1 }), &event(POSTED, "message"));
    assert_eq!(first, second);
    assert_eq!(first, Ok(Chat { messages: 2 }));
}
