use initiative::app::context::Context;
use initiative::storage::{Thing, ThingData, ThingKind};

const RECENT_MAX_LEN: usize = 100;

fn npc(uuid: u128, name: String) -> Thing {
    Thing {
        uuid,
        data: ThingData {
            kind: ThingKind::Npc,
            name: Some(name),
        },
    }
}

fn first_name(context: &Context) -> Option<String> {
    context.recent().first().and_then(|thing| thing.data.name.clone())
}

fn last_name(context: &Context) -> Option<String> {
    context.recent().last().and_then(|thing| thing.data.name.clone())
}

#[test]
fn push_recent_test() {
    let mut context = Context::default();

    (0..RECENT_MAX_LEN).for_each(|i| {
        context.push_recent(npc(i as u128, format!("Thing {}", i)));
        assert_eq!(i + 1, context.recent().len());
    });

    assert_eq!(Some("Thing 0".to_string()), first_name(&context));

    context.push_recent(npc(1000, "The Cat in the Hat".to_string()));
    assert_eq!(RECENT_MAX_LEN, context.recent().len());

    assert_eq!(Some("Thing 1".to_string()), first_name(&context));
    assert_eq!(Some("The Cat in the Hat".to_string()), last_name(&context));
}

#[test]
fn batch_push_recent_test() {
    let mut context = Context::default();

    context.batch_push_recent(Vec::new());
    assert_eq!(0, context.recent().len());

    context.batch_push_recent(
        (0..50)
            .map(|i| npc(i as u128, format!("Thing {}", i)))
            .collect(),
    );
    assert_eq!(50, context.recent().len());

    context.batch_push_recent(
        (50..RECENT_MAX_LEN)
            .map(|i| npc(i as u128, format!("Thing {}", i)))
            .collect(),
    );
    assert_eq!(RECENT_MAX_LEN, context.recent().len());

    assert_eq!(Some("Thing 0".to_string()), first_name(&context));
    assert_eq!(
        Some(format!("Thing {}", RECENT_MAX_LEN - 1)),
        last_name(&context)
    );

    context.batch_push_recent(
        (0..50)
            .map(|i| npc(1000 + i as u128, format!("Thang {}", i)))
            .collect(),
    );
    assert_eq!(RECENT_MAX_LEN, context.recent().len());

    assert_eq!(Some("Thing 50".to_string()), first_name(&context));

    context.batch_push_recent(
        (0..(RECENT_MAX_LEN * 2))
            .map(|i| npc(2000 + i as u128, format!("Oobleck {}", i)))
            .collect(),
    );
    assert_eq!(RECENT_MAX_LEN, context.recent().len());

    assert_eq!(
        Some(format!("Oobleck {}", RECENT_MAX_LEN)),
        first_name(&context)
    );
}

#[test]
fn push_recent_keeps_order_of_a_short_history() {
    let mut context = Context::new();
    context.push_recent(npc(1, "Odysseus".to_string()));
    context.push_recent(npc(2, "Penelope".to_string()));
    assert_eq!(2, context.recent().len());
    assert_eq!(Some("Odysseus".to_string()), first_name(&context));
    assert_eq!(Some("Penelope".to_string()), last_name(&context));
}
