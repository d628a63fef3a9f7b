use egui_citizen::dispatcher::ActivationStep;
use egui_citizen::{CitizenId, CitizenMessage, Dispatcher};

/// Reads the flags, lets the dispatcher decide, stores what it returns.
fn activate(d: &mut Dispatcher, target: &CitizenId) {
    let flags: Vec<bool> = d.entries().iter().map(|(_, s)| s.active.get()).collect();
    let writes = d.activate(target, &flags);
    for ((_, s), w) in d.entries().iter().zip(writes) {
        if let Some(v) = w {
            s.active.set(v);
        }
    }
}

fn id(s: &str) -> CitizenId {
    CitizenId::new(s)
}

fn activated(m: &CitizenMessage) -> Option<String> {
    match m {
        CitizenMessage::Activated { id } => Some(id.0.clone()),
        _ => None,
    }
}

fn deactivated(m: &CitizenMessage) -> Option<String> {
    match m {
        CitizenMessage::Deactivated { id } => Some(id.0.clone()),
        _ => None,
    }
}

#[test]
fn new_dispatcher_is_empty() {
    let mut d = Dispatcher::new();
    assert_eq!(d.len(), 0);
    assert!(d.is_empty());
    assert!(d.get(&id("plot")).is_none());
    assert!(d.drain_messages().is_empty());
}

#[test]
fn default_dispatcher_is_empty() {
    let d = Dispatcher::default();
    assert!(d.is_empty());
    assert_eq!(d.len(), 0);
}

#[test]
fn register_counts_distinct_ids() {
    let mut d = Dispatcher::new();
    d.register(id("freq_watt"));
    d.register(id("volt_watt"));
    d.register(id("plot"));
    assert_eq!(d.len(), 3);
    assert!(!d.is_empty());
    d.register(id("plot"));
    assert_eq!(d.len(), 3);
    assert!(d.get(&id("volt_watt")).is_some());
    assert!(d.get(&id("volt_var")).is_none());
}

#[test]
fn register_returns_the_stored_handle() {
    let mut d = Dispatcher::new();
    let state = d.register(id("plot"));
    state.active.set(true);
    assert!(d.get(&id("plot")).unwrap().active.get());
    d.get(&id("plot")).unwrap().selected.set(true);
    assert!(state.selected.get());
}

#[test]
fn register_again_replaces_the_state() {
    let mut d = Dispatcher::new();
    let first = d.register(id("plot"));
    let second = d.register(id("plot"));
    first.active.set(true);
    assert!(!d.get(&id("plot")).unwrap().active.get());
    second.active.set(true);
    assert!(d.get(&id("plot")).unwrap().active.get());
}

#[test]
fn activate_sets_one_and_clears_the_rest() {
    let mut d = Dispatcher::new();
    let a = d.register(id("alpha"));
    let b = d.register(id("beta"));
    let c = d.register(id("gamma"));
    activate(&mut d, &id("alpha"));
    assert!(a.active.get() && !b.active.get() && !c.active.get());
    let msgs = d.drain_messages();
    assert_eq!(msgs.len(), 1);
    assert_eq!(activated(&msgs[0]), Some("alpha".to_string()));

    activate(&mut d, &id("beta"));
    assert!(!a.active.get() && b.active.get() && !c.active.get());
    let msgs = d.drain_messages();
    assert_eq!(msgs.len(), 2);
    assert_eq!(deactivated(&msgs[0]), Some("alpha".to_string()));
    assert_eq!(activated(&msgs[1]), Some("beta".to_string()));
}

#[test]
fn activate_twice_only_reannounces() {
    let mut d = Dispatcher::new();
    let a = d.register(id("alpha"));
    let b = d.register(id("beta"));
    activate(&mut d, &id("beta"));
    let _ = d.drain_messages();
    activate(&mut d, &id("beta"));
    let msgs = d.drain_messages();
    assert_eq!(msgs.len(), 1);
    assert_eq!(activated(&msgs[0]), Some("beta".to_string()));
    assert!(!a.active.get() && b.active.get());
}

#[test]
fn activate_unknown_deactivates_everyone() {
    let mut d = Dispatcher::new();
    let a = d.register(id("alpha"));
    let b = d.register(id("beta"));
    a.active.set(true);
    b.active.set(true);
    activate(&mut d, &id("nobody"));
    assert!(!a.active.get() && !b.active.get());
    let msgs = d.drain_messages();
    assert_eq!(msgs.len(), 2);
    assert_eq!(deactivated(&msgs[0]), Some("alpha".to_string()));
    assert_eq!(deactivated(&msgs[1]), Some("beta".to_string()));
}

#[test]
fn activate_reads_flags_set_elsewhere() {
    let mut d = Dispatcher::new();
    let a = d.register(id("alpha"));
    let b = d.register(id("beta"));
    let c = d.register(id("gamma"));
    // Two panels made themselves active behind the dispatcher's back.
    a.active.set(true);
    c.active.set(true);
    activate(&mut d, &id("beta"));
    assert!(!a.active.get() && b.active.get() && !c.active.get());
    let msgs = d.drain_messages();
    assert_eq!(msgs.len(), 3);
    assert_eq!(deactivated(&msgs[0]), Some("alpha".to_string()));
    assert_eq!(activated(&msgs[1]), Some("beta".to_string()));
    assert_eq!(deactivated(&msgs[2]), Some("gamma".to_string()));
}

#[test]
fn activate_on_empty_dispatcher_emits_nothing() {
    let mut d = Dispatcher::new();
    activate(&mut d, &id("plot"));
    assert!(d.drain_messages().is_empty());
    assert!(d.is_empty());
}

#[test]
fn send_then_drain_is_fifo() {
    let mut d = Dispatcher::new();
    d.send(CitizenMessage::Clicked { id: id("a") });
    d.send(CitizenMessage::Selected { id: id("b"), selected: true });
    d.send(CitizenMessage::VisibilityChanged { id: id("c"), visible: false });
    let msgs = d.drain_messages();
    assert_eq!(msgs.len(), 3);
    assert!(matches!(&msgs[0], CitizenMessage::Clicked { id } if id.0 == "a"));
    assert!(matches!(&msgs[1], CitizenMessage::Selected { id, selected: true } if id.0 == "b"));
    assert!(matches!(&msgs[2], CitizenMessage::VisibilityChanged { id, visible: false } if id.0 == "c"));
    assert!(d.drain_messages().is_empty());
}

#[test]
fn activation_messages_follow_sent_ones() {
    let mut d = Dispatcher::new();
    d.register(id("alpha"));
    d.send(CitizenMessage::Clicked { id: id("alpha") });
    activate(&mut d, &id("alpha"));
    let msgs = d.drain_messages();
    assert_eq!(msgs.len(), 2);
    assert!(matches!(&msgs[0], CitizenMessage::Clicked { .. }));
    assert_eq!(activated(&msgs[1]), Some("alpha".to_string()));
}

#[test]
fn decide_covers_the_three_steps() {
    let a = id("a");
    let b = id("b");
    assert_eq!(ActivationStep::decide(&a, &a, false), ActivationStep::Activate);
    assert_eq!(ActivationStep::decide(&a, &a, true), ActivationStep::Activate);
    assert_eq!(ActivationStep::decide(&a, &b, true), ActivationStep::Deactivate);
    assert_eq!(ActivationStep::decide(&a, &b, false), ActivationStep::Keep);
}

#[test]
fn activate_returns_the_writes() {
    let mut d = Dispatcher::new();
    d.register(id("a"));
    d.register(id("b"));
    d.register(id("c"));
    let writes = d.activate(&id("b"), &vec![true, false, false]);
    assert_eq!(writes, vec![Some(false), Some(true), None]);
    let msgs = d.drain_messages();
    assert_eq!(msgs.len(), 2);
    assert_eq!(deactivated(&msgs[0]), Some("a".to_string()));
    assert_eq!(activated(&msgs[1]), Some("b".to_string()));
    let writes = d.activate(&id("nobody"), &vec![false, true, true]);
    assert_eq!(writes, vec![None, Some(false), Some(false)]);
    assert_eq!(d.drain_messages().len(), 2);
    let writes = d.activate(&id("c"), &vec![false, false, true]);
    assert_eq!(writes, vec![None, None, Some(true)]);
    assert_eq!(d.drain_messages().len(), 1);
}

#[test]
fn entries_follow_registration_order() {
    let mut d = Dispatcher::new();
    let a = d.register(id("a"));
    d.register(id("b"));
    let e = d.entries();
    assert_eq!(e.len(), 2);
    assert_eq!(e[0].0 .0, "a");
    assert_eq!(e[1].0 .0, "b");
    a.visible.set(true);
    assert!(e[0].1.visible.get());
}

#[test]
fn getting_started_three_panels() {
    let mut d = Dispatcher::new();
    let settings = d.register(CitizenId::from_name("settings"));
    let plot = d.register(CitizenId::from_name("plot"));
    let logger = d.register(CitizenId::from_name("logger"));
    activate(&mut d, &CitizenId::from_name("plot"));
    let _ = d.drain_messages();
    activate(&mut d, &CitizenId::from_name("settings"));
    assert!(settings.active.get() && !plot.active.get() && !logger.active.get());
    let msgs = d.drain_messages();
    assert_eq!(msgs.len(), 2);
    assert_eq!(activated(&msgs[0]), Some("settings".to_string()));
    assert_eq!(deactivated(&msgs[1]), Some("plot".to_string()));
}

#[test]
fn send_only_queues() {
    let mut d = Dispatcher::new();
    d.register(id("a"));
    d.send(CitizenMessage::Activated { id: id("a") });
    assert!(!d.get(&id("a")).unwrap().active.get());
    assert_eq!(d.len(), 1);
    let msgs = d.drain_messages();
    assert_eq!(msgs.len(), 1);
    assert_eq!(activated(&msgs[0]), Some("a".to_string()));
}

#[test]
fn activate_unknown_after_known() {
    let mut d = Dispatcher::new();
    let a = d.register(id("a"));
    activate(&mut d, &id("a"));
    let _ = d.drain_messages();
    activate(&mut d, &id("zzz"));
    assert!(!a.active.get());
    assert!(d.get(&id("zzz")).is_none());
    assert_eq!(d.len(), 1);
    let msgs = d.drain_messages();
    assert_eq!(msgs.len(), 1);
    assert_eq!(deactivated(&msgs[0]), Some("a".to_string()));
}

#[test]
fn register_again_keeps_others_and_queue() {
    let mut d = Dispatcher::new();
    d.register(id("a"));
    let b = d.register(id("b"));
    b.selected.set(true);
    d.register(id("a"));
    assert_eq!(d.len(), 2);
    assert!(d.get(&id("a")).is_some());
    assert!(d.get(&id("b")).unwrap().selected.get());
    assert!(d.drain_messages().is_empty());
}

#[test]
fn activation_ignores_registration_order() {
    let mut d1 = Dispatcher::new();
    let mut d2 = Dispatcher::new();
    let a1 = d1.register(id("a"));
    let b1 = d1.register(id("b"));
    let c1 = d1.register(id("c"));
    let c2 = d2.register(id("c"));
    let a2 = d2.register(id("a"));
    let b2 = d2.register(id("b"));
    a1.active.set(true);
    a2.active.set(true);
    activate(&mut d1, &id("b"));
    activate(&mut d2, &id("b"));
    assert_eq!(a1.active.get(), a2.active.get());
    assert_eq!(b1.active.get(), b2.active.get());
    assert_eq!(c1.active.get(), c2.active.get());
    let mut m1: Vec<String> = d1.drain_messages().iter().map(|m| format!("{:?}", m)).collect();
    let mut m2: Vec<String> = d2.drain_messages().iter().map(|m| format!("{:?}", m)).collect();
    m1.sort();
    m2.sort();
    assert_eq!(m1, m2);
    assert_eq!(m1.len(), 2);
}
