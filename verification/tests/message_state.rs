use egui_citizen::{CitizenId, CitizenMessage, CitizenState};

#[test]
fn citizen_id_from_str_and_string() {
    let a = CitizenId::new("freq_watt");
    let b = CitizenId::new(String::from("freq_watt"));
    assert_eq!(a.0, "freq_watt");
    assert!(a == b);
    assert!(a != CitizenId::new("volt_watt"));
    assert_eq!(a.to_string(), "freq_watt");
    assert_eq!(format!("{}", b.to_string()), "freq_watt");
}

#[test]
fn citizen_id_clone_is_equal() {
    let a = CitizenId::new("plot");
    let b = a.clone();
    assert!(a == b);
    assert_eq!(b.0, "plot");
}

#[test]
fn message_clone_keeps_fields() {
    let location = [1.5f32.to_bits(), (-2.25f32).to_bits()];
    let m = CitizenMessage::Moved { id: CitizenId::new("plot"), location };
    match m.clone() {
        CitizenMessage::Moved { id, location: l } => {
            assert_eq!(id.0, "plot");
            assert_eq!(f32::from_bits(l[0]), 1.5);
            assert_eq!(f32::from_bits(l[1]), -2.25);
        }
        _ => panic!("wrong variant"),
    }
    let s = CitizenMessage::Selected { id: CitizenId::new("x"), selected: true };
    assert!(matches!(s.clone(), CitizenMessage::Selected { selected: true, .. }));
}

#[test]
fn new_state_starts_cleared() {
    let s = CitizenState::new();
    assert!(!s.active.get());
    assert!(!s.clicked.get());
    assert!(!s.selected.get());
    assert!(!s.moved.get());
    assert!(!s.visible.get());
    assert_eq!(s.location.get(), [0, 0]);
    assert_eq!(f32::from_bits(s.location.get()[0]), 0.0);
    let d = CitizenState::default();
    assert!(!d.active.get());
    assert_eq!(d.location.get(), [0, 0]);
}

#[test]
fn state_clones_share_cells() {
    let s = CitizenState::new();
    let t = s.clone();
    t.active.set(true);
    t.location.set([3.0f32.to_bits(), 4.0f32.to_bits()]);
    assert!(s.active.get());
    assert_eq!(f32::from_bits(s.location.get()[1]), 4.0);
    s.visible.set(true);
    assert!(t.visible.get());
}

#[test]
fn fresh_states_are_independent() {
    let s = CitizenState::new();
    let t = CitizenState::new();
    s.active.set(true);
    assert!(!t.active.get());
}

#[test]
fn from_name_keeps_the_text() {
    let a = CitizenId::from_name("freq_watt");
    assert_eq!(a.0, "freq_watt");
    assert!(a == CitizenId::new("freq_watt"));
    assert!(a != CitizenId::from_name("Freq_Watt"));
    assert_eq!(CitizenId::from_name("").0, "");
    assert_eq!(format!("[CITIZEN] Activated: {}", CitizenId::from_name("plot").to_string()), "[CITIZEN] Activated: plot");
}

#[test]
fn to_string_round_trip() {
    let a = CitizenId::new(" volt var ");
    assert!(CitizenId::new(a.to_string()) == a);
    assert!(CitizenId::from_name(&a.to_string()) == a);
}
