use mqtt_simulator::data::{Data, Endian, IntWidth, Value};
use mqtt_simulator::watch::{publish_tick, DatasetCell, WatcherState};

const GOOD: &str = "[{\"topic\":\"t\",\"data\":{\"value\":5}}]";
const GOOD2: &str = "[{\"topic\":\"u\",\"data\":true}]";
const BAD: &str = "this is not json";

#[test]
fn unchanged_file_never_retriggers_replacement() {
    let mut st = WatcherState::new();
    let mut cell = DatasetCell::empty();
    let mut replacements = 0;

    assert!(st.needs_reload(5));
    if st.needs_reload(5) {
        assert!(st.apply_content(&mut cell, 5, GOOD).is_ok());
        replacements += 1;
    }
    // Re-polling the same stamp asks for no reload, so nothing is replaced.
    for _ in 0..3 {
        if st.needs_reload(5) {
            replacements += 1;
        }
    }
    assert_eq!(replacements, 1);
    // An older stamp asks for none either; a newer one does.
    assert!(!st.needs_reload(4));
    assert!(st.needs_reload(6));
}

#[test]
fn malformed_content_leaves_dataset_observable() {
    let mut st = WatcherState::new();
    let mut cell = DatasetCell::empty();
    assert!(st.apply_content(&mut cell, 5, GOOD).is_ok());
    let before = publish_tick(cell.read());

    let r = st.apply_content(&mut cell, 7, BAD);
    assert!(r.is_err());
    // The previously loaded dataset is still what a reader observes.
    let after = publish_tick(cell.read());
    assert_eq!(before, after);
    assert_eq!(cell.read().len(), 1);
    assert_eq!(cell.read()[0].topic(), "t");
    // The stamp was not recorded, so the file is re-examined next tick.
    assert!(st.needs_reload(7));
}

#[test]
fn replacement_is_whole_dataset_at_a_time() {
    let mut st = WatcherState::new();
    let mut cell = DatasetCell::empty();
    assert!(st.apply_content(&mut cell, 1, GOOD).is_ok());
    assert_eq!(cell.read()[0].topic(), "t");

    assert!(st.apply_content(&mut cell, 2, GOOD2).is_ok());
    // The reader sees the new dataset in full, nothing of the old one.
    assert_eq!(cell.read().len(), 1);
    assert_eq!(cell.read()[0].topic(), "u");
    assert_eq!(*cell.read()[0].data(), Value::Bool(true));
}

#[test]
fn publish_tick_emits_one_message_per_entry_in_order() {
    let ds = vec![
        Data::new(
            "alpha".to_string(),
            Value::UInt { value: 1, endian: Endian::BigEndian, width: IntWidth::Eight },
        ),
        Data::new("beta".to_string(), Value::Bool(false)),
    ];
    let msgs = publish_tick(&ds);
    assert_eq!(msgs.len(), 2);
    assert_eq!(msgs[0].topic, "alpha");
    assert_eq!(msgs[0].payload, vec![0x01]);
    assert_eq!(msgs[1].topic, "beta");
    assert_eq!(msgs[1].payload, vec![0x00]);
}

#[test]
fn empty_cell_publishes_nothing() {
    let cell = DatasetCell::empty();
    assert!(publish_tick(cell.read()).is_empty());
}
