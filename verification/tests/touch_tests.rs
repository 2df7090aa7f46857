use moonshine_core::touch::{prune_touch_contacts, TouchContacts};

fn slot(n: u32) -> u32 {
    n
}

fn find(c: &TouchContacts<u32, &'static str>, s: u32) -> Option<&'static str> {
    for i in 0..c.len() {
        let e = c.entry(i);
        if e.0 == s {
            return Some(e.1);
        }
    }
    None
}

#[test]
fn down_on_live_target_is_kept() {
    let mut c = TouchContacts::new();
    c.record_down(true, slot(1), "a");
    c.record_down(false, slot(2), "b");
    assert_eq!(c.len(), 1);
    assert_eq!(find(&c, slot(1)), Some("a"));
    assert_eq!(find(&c, slot(2)), None);
}

#[test]
fn down_on_same_slot_replaces_contact() {
    let mut c = TouchContacts::new();
    c.record_down(true, slot(1), "a");
    c.record_down(true, slot(2), "b");
    c.record_down(true, slot(1), "c");
    assert_eq!(c.len(), 2);
    assert_eq!(find(&c, slot(1)), Some("c"));
    assert_eq!(find(&c, slot(2)), Some("b"));
}

#[test]
fn contacts_of_other_slots_are_kept_apart() {
    let mut c = TouchContacts::new();
    c.record_down(true, slot(0), "zero");
    c.record_down(true, slot(u32::MAX), "max");
    assert_eq!(c.len(), 2);
    assert_eq!(find(&c, slot(0)), Some("zero"));
    assert_eq!(find(&c, slot(u32::MAX)), Some("max"));
}

#[test]
fn up_ends_contact() {
    let mut c = TouchContacts::new();
    c.record_down(true, slot(1), "a");
    c.record_down(true, slot(2), "b");
    c.record_up(&slot(1));
    assert_eq!(find(&c, slot(1)), None);
    assert_eq!(find(&c, slot(2)), Some("b"));
    c.record_up(&slot(9));
    assert_eq!(c.len(), 1);
}

#[test]
fn remove_returns_contact() {
    let mut c = TouchContacts::new();
    c.insert(slot(3), "x");
    assert_eq!(c.remove(&slot(3)), Some("x"));
    assert_eq!(c.remove(&slot(3)), None);
}

#[test]
fn cancel_drops_contacts_of_client() {
    let mut c = TouchContacts::new();
    c.record_down(true, slot(1), "a");
    c.record_down(true, slot(2), "b");
    c.record_down(true, slot(3), "c");
    c.cancel_client(&vec![true, false, true]);
    assert_eq!(c.len(), 1);
    assert_eq!(find(&c, slot(2)), Some("b"));
}

#[test]
fn prune_keeps_live_targets_in_order() {
    let mut c = TouchContacts::new();
    c.record_down(true, slot(1), "a");
    c.record_down(true, slot(2), "b");
    c.record_down(true, slot(3), "c");
    prune_touch_contacts(&mut c, &vec![false, true, true]);
    assert_eq!(c.len(), 2);
    assert_eq!(c.entry(0).1, "b");
    assert_eq!(c.entry(1).1, "c");
}

#[test]
fn cancel_twice_is_cancel_once() {
    let mut c = TouchContacts::new();
    c.record_down(true, slot(1), "client-a");
    c.record_down(true, slot(2), "client-b");
    c.record_down(true, slot(3), "client-a");
    let flags = |c: &TouchContacts<u32, &'static str>| -> Vec<bool> {
        (0..c.len()).map(|i| c.entry(i).1 == "client-a").collect()
    };
    let first = flags(&c);
    c.cancel_client(&first);
    let after_once: Vec<(u32, &str)> = (0..c.len()).map(|i| *c.entry(i)).collect();
    let second = flags(&c);
    c.cancel_client(&second);
    let after_twice: Vec<(u32, &str)> = (0..c.len()).map(|i| *c.entry(i)).collect();
    assert_eq!(after_once, vec![(2, "client-b")]);
    assert_eq!(after_twice, after_once);
}

#[test]
fn prune_twice_is_prune_once() {
    let mut c = TouchContacts::new();
    c.record_down(true, slot(1), "dead");
    c.record_down(true, slot(2), "live");
    let flags = |c: &TouchContacts<u32, &'static str>| -> Vec<bool> {
        (0..c.len()).map(|i| c.entry(i).1 == "live").collect()
    };
    let first = flags(&c);
    prune_touch_contacts(&mut c, &first);
    let second = flags(&c);
    prune_touch_contacts(&mut c, &second);
    assert_eq!(c.len(), 1);
    assert_eq!(find(&c, slot(2)), Some("live"));
}
