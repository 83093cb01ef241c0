use dynisland::bus::{relay, ActivityIdentifier, Pipeline, UiServerCommand};
use dynisland::reload::{Debouncer, FsEventKind, DEBOUNCE_DELAY_MS};

#[test]
fn a_burst_of_modify_events_schedules_one_reload() {
    // Five writes land within the debounce window: exactly one reload.
    let mut d = Debouncer::new();
    let burst = vec![
        FsEventKind::Modify,
        FsEventKind::Modify,
        FsEventKind::Create,
        FsEventKind::Modify,
        FsEventKind::Modify,
    ];
    assert_eq!(d.absorb_events(&burst), 1);
    assert!(d.fire());
    // After the reload ran, the next burst schedules exactly one again.
    assert_eq!(d.absorb_events(&burst), 1);
}

#[test]
fn irrelevant_events_schedule_nothing() {
    let mut d = Debouncer::new();
    let events = vec![FsEventKind::Remove, FsEventKind::Other, FsEventKind::Remove];
    assert_eq!(d.absorb_events(&events), 0);
    assert!(!d.fire());
}

#[test]
fn single_events_schedule_once_until_fired() {
    let mut d = Debouncer::new();
    assert!(d.on_event(&FsEventKind::Modify));
    assert!(!d.on_event(&FsEventKind::Modify));
    assert!(!d.on_event(&FsEventKind::Create));
    assert!(d.fire());
    assert!(!d.fire());
    assert!(d.on_event(&FsEventKind::Create));
}

#[test]
fn debounce_delay_is_tens_of_milliseconds() {
    assert_eq!(DEBOUNCE_DELAY_MS, 50);
}

#[test]
fn pipeline_is_first_in_first_out() {
    let mut p: Pipeline<u64> = Pipeline::new();
    p.enqueue(1);
    p.enqueue(2);
    p.enqueue(3);
    assert_eq!(p.len(), 3);
    assert_eq!(p.dequeue(), Some(1));
    assert_eq!(p.dequeue(), Some(2));
    assert_eq!(p.dequeue(), Some(3));
    assert_eq!(p.dequeue(), None);
}

#[test]
fn relay_moves_everything_and_keeps_order() {
    let mut from: Pipeline<u64> = Pipeline::new();
    let mut to: Pipeline<u64> = Pipeline::new();
    to.enqueue(10);
    from.enqueue(11);
    from.enqueue(12);
    relay(&mut from, &mut to);
    assert_eq!(from.len(), 0);
    assert_eq!(to.dequeue(), Some(10));
    assert_eq!(to.dequeue(), Some(11));
    assert_eq!(to.dequeue(), Some(12));
    assert_eq!(to.dequeue(), None);
}

#[test]
fn ui_commands_travel_as_values() {
    let mut p: Pipeline<UiServerCommand> = Pipeline::new();
    p.enqueue(UiServerCommand::AddActivity {
        activity: ActivityIdentifier {
            module: "clock".to_string(),
            activity: "face".to_string(),
        },
        widget: 7,
    });
    match p.dequeue() {
        Some(UiServerCommand::AddActivity { activity, widget }) => {
            assert_eq!(activity.module.as_str(), "clock");
            assert_eq!(activity.activity.as_str(), "face");
            assert_eq!(widget, 7);
        }
        _ => panic!("expected the enqueued command back"),
    }
}
