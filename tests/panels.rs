use std::sync::mpsc;
use std::sync::{Arc, Mutex};
use uart_tool::allocator::PanelIdAllocator;
use uart_tool::host::{append_panel, create_panel};
use uart_tool::panel::{PanelEvent, PanelRegistry};

fn text_of(reg: &PanelRegistry, id: usize) -> Option<String> {
    reg.position(id).map(|i| reg.get(i).text.clone())
}

#[test]
fn allocator_counts_up_from_zero() {
    let mut a = PanelIdAllocator::new();
    assert_eq!(a.peek(), 0);
    assert_eq!(a.next_id(), Some(0));
    assert_eq!(a.next_id(), Some(1));
    assert_eq!(a.next_id(), Some(2));
    assert_eq!(a.peek(), 3);
}

#[test]
fn create_panel_twice_gives_two_panels() {
    let mut a = PanelIdAllocator::new();
    let (id1, e1) = create_panel(&mut a, String::from("A")).unwrap();
    let (id2, e2) = create_panel(&mut a, String::from("A")).unwrap();
    assert_ne!(id1, id2);
    let mut reg = PanelRegistry::new(false);
    reg.apply(e1);
    reg.apply(e2);
    assert_eq!(reg.len(), 2);
    assert_eq!(reg.get(0).name, "A");
    assert_eq!(reg.get(1).name, "A");
    reg.apply(append_panel(id1, String::from("one")));
    assert_eq!(text_of(&reg, id1).unwrap(), "one");
    assert_eq!(text_of(&reg, id2).unwrap(), "");
}

#[test]
fn created_panel_starts_empty() {
    let mut reg = PanelRegistry::new(false);
    reg.apply(PanelEvent::Create(7, String::from("log")));
    assert_eq!(reg.len(), 1);
    assert_eq!(reg.get(0).id, 7);
    assert_eq!(reg.get(0).name, "log");
    assert_eq!(reg.get(0).text, "");
}

#[test]
fn append_to_unknown_id_changes_nothing() {
    let mut reg = PanelRegistry::new(true);
    reg.apply(PanelEvent::Create(0, String::from("log")));
    reg.apply(PanelEvent::Append(0, String::from("abc")));
    reg.apply(append_panel(42, String::from("x")));
    assert_eq!(reg.len(), 1);
    assert_eq!(reg.get(0).text, "abc");
    let mut empty = PanelRegistry::new(false);
    empty.apply(append_panel(3, String::from("x")));
    assert_eq!(empty.len(), 0);
}

#[test]
fn appends_concatenate_in_order() {
    let mut reg = PanelRegistry::new(false);
    reg.apply(PanelEvent::Create(1, String::from("p")));
    for t in ["a", "bc", "", "def"] {
        reg.apply(PanelEvent::Append(1, String::from(t)));
    }
    assert_eq!(text_of(&reg, 1).unwrap(), "abcdef");
}

#[test]
fn drain_in_batches_matches_single_drain() {
    let events = || {
        vec![
            PanelEvent::Create(0, String::from("a")),
            PanelEvent::Append(0, String::from("1")),
            PanelEvent::Create(1, String::from("b")),
            PanelEvent::Append(1, String::from("x")),
            PanelEvent::Append(0, String::from("2")),
            PanelEvent::Append(0, String::from("3")),
        ]
    };
    let mut whole = PanelRegistry::new(false);
    whole.apply_all(events());
    let mut split = PanelRegistry::new(false);
    let mut evs = events();
    let rest = evs.split_off(3);
    split.apply_all(evs);
    split.apply_all(rest);
    let mut one_by_one = PanelRegistry::new(false);
    for e in events() {
        one_by_one.apply_all(vec![e]);
    }
    for reg in [&whole, &split, &one_by_one] {
        assert_eq!(reg.len(), 2);
        assert_eq!(text_of(reg, 0).unwrap(), "123");
        assert_eq!(text_of(reg, 1).unwrap(), "x");
    }
}

#[test]
fn append_goes_to_first_panel_with_id() {
    let mut reg = PanelRegistry::new(false);
    reg.apply(PanelEvent::Create(5, String::from("first")));
    reg.apply(PanelEvent::Create(5, String::from("second")));
    reg.apply(PanelEvent::Append(5, String::from("t")));
    assert_eq!(reg.get(0).text, "t");
    assert_eq!(reg.get(1).text, "");
}

#[test]
fn close_removes_panel_when_enabled() {
    let mut reg = PanelRegistry::new(true);
    assert!(reg.close_enabled());
    reg.apply(PanelEvent::Create(0, String::from("a")));
    reg.apply(PanelEvent::Create(1, String::from("b")));
    reg.apply(PanelEvent::Close(0));
    assert_eq!(reg.len(), 1);
    assert_eq!(reg.get(0).id, 1);
    assert_eq!(reg.position(0), None);
    reg.apply(PanelEvent::Close(9));
    assert_eq!(reg.len(), 1);
}

#[test]
fn close_is_ignored_when_disabled() {
    let mut reg = PanelRegistry::new(false);
    assert!(!reg.close_enabled());
    reg.apply(PanelEvent::Create(0, String::from("a")));
    reg.apply(PanelEvent::Close(0));
    assert_eq!(reg.len(), 1);
    assert_eq!(reg.position(0), Some(0));
}

#[test]
fn script_writes_hello_world_to_log_panel() {
    let mut a = PanelIdAllocator::new();
    let mut reg = PanelRegistry::new(false);
    let (id, e) = create_panel(&mut a, String::from("log")).unwrap();
    reg.apply(e);
    reg.apply(append_panel(id, String::from("hello ")));
    reg.apply(append_panel(id, String::from("world")));
    let i = reg.position(id).unwrap();
    assert_eq!(reg.get(i).name, "log");
    assert_eq!(reg.get(i).text, "hello world");
}

#[test]
fn rhai_script_drives_panels() {
    let alloc = Arc::new(Mutex::new(PanelIdAllocator::new()));
    let (tx, rx) = mpsc::channel::<PanelEvent>();
    let mut engine = rhai::Engine::new();
    let tx1 = tx.clone();
    let alloc1 = Arc::clone(&alloc);
    engine.register_fn("new_window", move |name: String| -> i64 {
        let (id, e) = create_panel(&mut alloc1.lock().unwrap(), name).unwrap();
        tx1.send(e).unwrap();
        id as i64
    });
    let tx2 = tx.clone();
    engine.register_fn("write_wnd", move |id: i64, text: String| {
        tx2.send(append_panel(id as usize, text)).unwrap();
    });
    engine
        .run(r#"let id = new_window("log"); write_wnd(id, "hello "); write_wnd(id, "world");"#)
        .unwrap();
    drop(tx);
    let mut reg = PanelRegistry::new(false);
    reg.apply_all(rx.try_iter().collect());
    assert_eq!(reg.len(), 1);
    assert_eq!(reg.get(0).name, "log");
    assert_eq!(reg.get(0).text, "hello world");
}
