use lcm::encode::F32Bits;
use lcm::error::LcmError;
use lcm::example::{ExampleMessage, POSITION_LEN};
use lcm::fingerprint::{fingerprint, Field, FieldType, PrimType, Schema};
use lcm::registry::DispatchOutcome;
use lcm::transport::{timeout_millis, transport_status, wait_status};
use lcm::Encode;
use lcm::LcmGen;
use lcm::Message;
use lcm::Registry;
use lcm::SharedRegistry;

#[test]
fn lcm_initialized() {
    let _registry = Registry::new();
}

#[test]
fn lcm_test_subscribe() {
    let mut registry = Registry::new();
    registry.subscribe("channel".to_string(), <String as Message>::hash());
    assert_eq!(registry.len(), 1);
}

#[test]
fn lcm_test_unsubscribe() {
    let mut registry = Registry::new();
    let sub = registry.subscribe("channel".to_string(), <String as Message>::hash());
    registry.unsubscribe(sub, 0).unwrap();
    assert_eq!(registry.len(), 0);
}

#[test]
fn multi_threaded_initialized() {
    let _registry = SharedRegistry::new();
}

#[test]
fn multi_threaded_test_subscribe() {
    let registry = SharedRegistry::new();
    registry
        .subscribe("channel".to_string(), <String as Message>::hash())
        .unwrap();
    assert_eq!(registry.len(), 1);
}

#[test]
fn multi_threaded_test_unsubscribe() {
    let registry = SharedRegistry::new();
    let sub = registry
        .subscribe("channel".to_string(), <String as Message>::hash())
        .unwrap();
    registry.unsubscribe(sub, 0).unwrap();
    assert_eq!(registry.len(), 0);
}

#[test]
fn registry_holds_n_distinct_subscriptions() {
    let mut registry = Registry::new();
    let mut subs = Vec::new();
    for i in 0..5 {
        let channel = format!("channel_{}", i);
        subs.push(registry.subscribe(channel, <String as Message>::hash()));
    }
    assert_eq!(registry.len(), 5);
    for a in 0..subs.len() {
        for b in 0..a {
            assert_ne!(subs[a].token(), subs[b].token());
        }
    }
    for sub in subs {
        registry.unsubscribe(sub, 0).unwrap();
    }
    assert_eq!(registry.len(), 0);
}

#[test]
fn failed_unsubscribe_leaves_entry() {
    let mut registry = Registry::new();
    let sub = registry.subscribe("channel".to_string(), <String as Message>::hash());
    assert_eq!(registry.unsubscribe(sub, -1), Err(LcmError::TransportError));
    assert_eq!(registry.len(), 1);
}

#[test]
fn queue_capacity_keeps_subscription() {
    let mut registry = Registry::new();
    let sub = registry.subscribe("channel".to_string(), <String as Message>::hash());
    {
        let entry = registry.subscription(sub.token()).unwrap();
        assert_eq!(entry.channel, "channel");
        assert_eq!(entry.fingerprint, <String as Message>::hash());
        assert_eq!(entry.queue_capacity, 30);
    }
    registry.subscription_set_queue_capacity(&sub, 100);
    {
        let entry = registry.subscription(sub.token()).unwrap();
        assert_eq!(entry.channel, "channel");
        assert_eq!(entry.queue_capacity, 100);
    }
    assert_eq!(registry.len(), 1);
    let token = sub.token();
    registry.unsubscribe(sub, 0).unwrap();
    assert_eq!(registry.len(), 0);
    assert!(registry.subscription(token).is_none());
}

#[test]
fn fingerprint_is_stable() {
    let make = || Schema {
        fields: vec![
            Field {
                name: "a".to_string(),
                ty: FieldType::Prim(PrimType::I32),
            },
            Field {
                name: "b".to_string(),
                ty: FieldType::Prim(PrimType::Str),
            },
        ],
    };
    let first = fingerprint(&make());
    let second = fingerprint(&make());
    assert_eq!(first, second);
}

#[test]
fn fingerprint_depends_on_field_order() {
    let ab = Schema {
        fields: vec![
            Field {
                name: "a".to_string(),
                ty: FieldType::Prim(PrimType::I32),
            },
            Field {
                name: "b".to_string(),
                ty: FieldType::Prim(PrimType::Str),
            },
        ],
    };
    let ba = Schema {
        fields: vec![
            Field {
                name: "b".to_string(),
                ty: FieldType::Prim(PrimType::Str),
            },
            Field {
                name: "a".to_string(),
                ty: FieldType::Prim(PrimType::I32),
            },
        ],
    };
    assert_ne!(fingerprint(&ab), fingerprint(&ba));
}

#[test]
fn fingerprint_depends_on_field_type() {
    let with = |ty: FieldType| Schema {
        fields: vec![Field {
            name: "a".to_string(),
            ty,
        }],
    };
    assert_ne!(
        fingerprint(&with(FieldType::Prim(PrimType::I32))),
        fingerprint(&with(FieldType::Prim(PrimType::I64)))
    );
    assert_ne!(
        fingerprint(&with(FieldType::Prim(PrimType::I32))),
        fingerprint(&with(FieldType::Fixed(
            Box::new(FieldType::Prim(PrimType::I32)),
            2
        )))
    );
    let nested = FieldType::Nested(Box::new(Schema {
        fields: vec![Field {
            name: "inner".to_string(),
            ty: FieldType::Prim(PrimType::Bool),
        }],
    }));
    assert_ne!(fingerprint(&with(FieldType::Prim(PrimType::Bool))), fingerprint(&with(nested)));
}

#[test]
fn example_hash_comes_from_its_schema() {
    assert_eq!(ExampleMessage::hash(), fingerprint(&ExampleMessage::schema()));
    assert_eq!(ExampleMessage::hash(), ExampleMessage::hash());
}

fn example() -> ExampleMessage {
    ExampleMessage {
        timestamp: 0,
        position: vec![
            F32Bits(1.0f32.to_bits()),
            F32Bits(2.0f32.to_bits()),
            F32Bits(3.0f32.to_bits()),
        ],
        name: "hi".to_string(),
        enabled: true,
    }
}

#[test]
fn example_round_trip() {
    let message = example();
    assert_eq!(message.position.len(), POSITION_LEN);
    let buffer = message.encode_with_hash();
    assert_eq!(buffer.len(), 8 + message.size());
    let decoded = ExampleMessage::decode_with_hash(&buffer).unwrap();
    assert_eq!(decoded.timestamp, message.timestamp);
    assert_eq!(decoded.position, message.position);
    assert_eq!(decoded.name, message.name);
    assert_eq!(decoded.enabled, message.enabled);
}

#[test]
fn end_to_end_publish_and_dispatch() {
    let mut registry = Registry::new();
    let matching = registry.subscribe("EXAMPLE".to_string(), ExampleMessage::hash());
    let unrelated = registry.subscribe("EXAMPLE".to_string(), <String as Message>::hash());

    // Publish: encode the fingerprint and the payload.
    let message = example();
    let buffer = message.encode_with_hash();

    // Delivery: the transport hands each subscription's token and the
    // bytes to the dispatch core.
    let mut invoked = 0;
    match registry.dispatch(matching.token(), &buffer) {
        DispatchOutcome::Deliver => {
            let received = ExampleMessage::decode_with_hash(&buffer).unwrap();
            assert_eq!(received.timestamp, message.timestamp);
            assert_eq!(received.position, message.position);
            assert_eq!(received.name, message.name);
            assert_eq!(received.enabled, message.enabled);
            invoked += 1;
        }
        other => panic!("expected delivery, got {:?}", other),
    }
    assert_eq!(invoked, 1);

    // The subscriber for an unrelated type on the same channel sees a
    // silent drop: no delivery, no crash.
    assert_eq!(registry.dispatch(unrelated.token(), &buffer), DispatchOutcome::DropHashMismatch);
}

#[test]
fn dispatch_isolates_a_failing_subscriber() {
    let mut registry = Registry::new();
    let first = registry.subscribe("alpha".to_string(), <i64 as Message>::hash());
    let second = registry.subscribe("beta".to_string(), <i64 as Message>::hash());

    // A callback that aborts on its first message.
    let failing = |_: i64| -> Result<(), ()> { Err(()) };
    let counting = |v: i64| -> Result<i64, ()> { Ok(v) };

    let message_one = 1i64.encode_with_hash();
    let message_two = 2i64.encode_with_hash();

    // Message 1 reaches the first subscriber, whose callback fails.
    let mut first_failed = false;
    if registry.dispatch(first.token(), &message_one) == DispatchOutcome::Deliver {
        let v = i64::decode_with_hash(&message_one).unwrap();
        first_failed = failing(v).is_err();
    }
    assert!(first_failed);

    // Message 2, delivered immediately after, still reaches the second
    // subscriber and decodes correctly.
    match registry.dispatch(second.token(), &message_two) {
        DispatchOutcome::Deliver => {
            let v = i64::decode_with_hash(&message_two).unwrap();
            assert_eq!(counting(v), Ok(2));
        }
        other => panic!("expected delivery, got {:?}", other),
    }
}

#[test]
fn dispatch_unknown_and_short() {
    let mut registry = Registry::new();
    let sub = registry.subscribe("channel".to_string(), <i64 as Message>::hash());
    assert_eq!(registry.dispatch(sub.token() + 1, &[0; 16]), DispatchOutcome::UnknownHandle);
    assert_eq!(registry.dispatch(sub.token(), &[0; 5]), DispatchOutcome::DropTruncated);
}

#[test]
fn transport_status_codes() {
    assert_eq!(transport_status(0), Ok(()));
    assert_eq!(transport_status(-1), Err(LcmError::TransportError));
    assert_eq!(transport_status(7), Err(LcmError::TransportError));
    assert_eq!(wait_status(1), Ok(()));
    assert_eq!(wait_status(0), Err(LcmError::Timeout));
    assert_eq!(wait_status(-3), Err(LcmError::TransportError));
}

#[test]
fn timeout_millis_values() {
    assert_eq!(timeout_millis(0, 0), 0);
    assert_eq!(timeout_millis(1, 500_000_000), 1500);
    assert_eq!(timeout_millis(2, 999_999), 2000);
}

#[test]
fn encodable_accepts_ordinary_values() {
    assert!("hi".to_string().encodable());
    assert!(vec![1i32, 2].encodable());
    assert!(example().encodable());
    let short = ExampleMessage {
        position: vec![F32Bits(0)],
        ..example()
    };
    assert!(!short.encodable());
}

#[test]
fn lcm_gen_collects_arguments() {
    let mut gen = LcmGen::default();
    assert_eq!(gen.files.len(), 0);
    assert_eq!(gen.out_dir, "");
    gen.output_directory("out".to_string());
    gen.add_file("types/example.lcm".to_string());
    gen.add_file("types/other.lcm".to_string());
    assert_eq!(gen.out_dir, "out");
    assert_eq!(gen.files, vec!["types/example.lcm".to_string(), "types/other.lcm".to_string()]);
}
