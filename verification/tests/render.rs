use initiative::storage::render::{details, journal, loaded};
use initiative::storage::{Record, RecordStatus, Thing, ThingData, ThingKind};

fn thing(uuid: u128, kind: ThingKind, name: &str) -> Thing {
    Thing {
        uuid,
        data: ThingData {
            kind,
            name: Some(name.to_string()),
        },
    }
}

#[test]
fn journal_empty_test() {
    assert_eq!(
        "# Journal\n\n*Your journal is currently empty.*",
        journal(&Vec::new())
    );
}

#[test]
fn journal_sorted_by_kind_and_name_test() {
    let things = vec![
        thing(1, ThingKind::Npc, "bob"),
        thing(2, ThingKind::Place, "Ithaca"),
        thing(3, ThingKind::Npc, "Alice"),
    ];
    assert_eq!(
        "# Journal\n\n## NPCs\nAlice\\\nbob\n\n## Places\nIthaca\n\n*To export the contents of your journal, use `export`.*",
        journal(&things)
    );
}

#[test]
fn details_and_loaded_test() {
    let t = thing(1, ThingKind::Place, "Ithaca");
    assert_eq!("# Ithaca\n*place*", details(&t));
    let rec = Record {
        status: RecordStatus::Unsaved,
        thing: t,
    };
    assert_eq!(
        "# Ithaca\n*place*\n\n_Ithaca has not yet been saved. Use ~save~ to save it to your `journal`._",
        loaded(&rec)
    );
}
