use command_bus::AddItem;
use command_bus::Command;
use command_bus::CommandBus;
use command_bus::RemoveItem;

fn add(item: &str) -> Command {
    Command::AddItem(AddItem { item: item.to_string() })
}

fn remove(item: &str) -> Command {
    Command::RemoveItem(RemoveItem { item: item.to_string() })
}

#[test]
fn add_then_remove_apple() {
    let mut bus = CommandBus::default();
    bus.enqueue(add("apple"));
    bus.enqueue(remove("apple"));
    let results = bus.run();
    assert_eq!(results, vec!["added:apple".to_string(), "removed:apple".to_string()]);
}

#[test]
fn run_on_fresh_bus_returns_nothing() {
    let mut bus = CommandBus::default();
    let results = bus.run();
    assert!(results.is_empty());
    assert_eq!(results, Vec::<String>::new());
}

#[test]
fn results_follow_enqueue_order() {
    let mut bus = CommandBus::default();
    bus.enqueue(remove("pear"));
    bus.enqueue(add("fig"));
    bus.enqueue(add("apple"));
    bus.enqueue(remove("fig"));
    bus.enqueue(add("kiwi"));
    let results = bus.run();
    assert_eq!(
        results,
        vec![
            "removed:pear".to_string(),
            "added:fig".to_string(),
            "added:apple".to_string(),
            "removed:fig".to_string(),
            "added:kiwi".to_string(),
        ]
    );
}

#[test]
fn reversed_enqueue_order_reverses_results() {
    let mut bus = CommandBus::default();
    bus.enqueue(remove("apple"));
    bus.enqueue(add("apple"));
    let results = bus.run();
    assert_eq!(results, vec!["removed:apple".to_string(), "added:apple".to_string()]);
}

#[test]
fn repeated_commands_are_each_executed() {
    let mut bus = CommandBus::default();
    bus.enqueue(add("apple"));
    bus.enqueue(add("apple"));
    bus.enqueue(add("apple"));
    let results = bus.run();
    assert_eq!(results.len(), 3);
    for line in &results {
        assert_eq!(line, "added:apple");
    }
}

#[test]
fn second_run_returns_nothing() {
    let mut bus = CommandBus::default();
    bus.enqueue(add("apple"));
    bus.enqueue(remove("apple"));
    let first = bus.run();
    assert_eq!(first.len(), 2);
    let second = bus.run();
    assert!(second.is_empty());
    let third = bus.run();
    assert!(third.is_empty());
}

#[test]
fn enqueue_after_run_starts_afresh() {
    let mut bus = CommandBus::default();
    bus.enqueue(add("apple"));
    assert_eq!(bus.run(), vec!["added:apple".to_string()]);
    bus.enqueue(remove("plum"));
    bus.enqueue(add("plum"));
    assert_eq!(bus.run(), vec!["removed:plum".to_string(), "added:plum".to_string()]);
    assert!(bus.run().is_empty());
}

#[test]
fn many_commands_keep_their_places() {
    let mut bus = CommandBus::default();
    let mut expected = Vec::new();
    for n in 0..200 {
        let item = format!("item{}", n);
        if n % 3 == 0 {
            expected.push(format!("removed:{}", item));
            bus.enqueue(remove(&item));
        } else {
            expected.push(format!("added:{}", item));
            bus.enqueue(add(&item));
        }
    }
    assert_eq!(bus.run(), expected);
    assert!(bus.run().is_empty());
}
