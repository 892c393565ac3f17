use verishda::geofence::{Geofence, GeofenceEvent, LocationHandler, TrackerError};

fn occupied_sorted(h: &LocationHandler<u32>) -> Vec<String> {
    let mut v = h.get_occupied_geofences();
    v.sort();
    v
}

#[test]
fn outside_inside_outside_signals_once_each() {
    let mut h: LocationHandler<u32> = LocationHandler::new();
    h.add_geofence_circle("site", 100);
    let mut signals = Vec::new();
    for inside in [false, false, true, true, true, false, false] {
        signals.extend(h.poll(&vec![inside]));
    }
    assert_eq!(
        signals,
        vec![GeofenceEvent::Entered("site".to_string()), GeofenceEvent::Exited("site".to_string())]
    );
    assert!(h.get_occupied_geofences().is_empty());
}

#[test]
fn poll_tracks_each_fence() {
    let mut h: LocationHandler<u32> = LocationHandler::new();
    h.add_geofence_circle("a", 1);
    h.add_geofence_circle("b", 2);
    let ev = h.poll(&vec![true, true]);
    assert_eq!(ev, vec![GeofenceEvent::Entered("a".to_string()), GeofenceEvent::Entered("b".to_string())]);
    assert_eq!(occupied_sorted(&h), vec!["a".to_string(), "b".to_string()]);
    let ev = h.poll(&vec![false, true]);
    assert_eq!(ev, vec![GeofenceEvent::Exited("a".to_string())]);
    assert_eq!(occupied_sorted(&h), vec!["b".to_string()]);
}

#[test]
fn adding_same_id_replaces_shape() {
    let mut h: LocationHandler<u32> = LocationHandler::new();
    h.add_geofence_circle("a", 1);
    h.add_geofence_circle("b", 2);
    h.add_geofence_circle("a", 3);
    let shapes: Vec<(String, u32)> = h.geofences().iter().map(|g| (g.id.clone(), g.shape)).collect();
    assert_eq!(shapes, vec![("a".to_string(), 3), ("b".to_string(), 2)]);
    h.remove_geofence("a");
    assert_eq!(h.geofences().len(), 1);
    h.remove_geofence("missing");
    assert_eq!(h.geofences().len(), 1);
    h.clear_geofences();
    assert!(h.geofences().is_empty());
}

#[test]
fn replace_keeps_occupancy_of_readded_site() {
    let mut h: LocationHandler<u32> = LocationHandler::new();
    h.add_geofence_circle("a", 1);
    h.poll(&vec![true]);
    h.replace_geofences(vec![
        Geofence { id: "b".to_string(), shape: 2 },
        Geofence { id: "a".to_string(), shape: 5 },
    ]);
    assert_eq!(h.geofences().len(), 2);
    assert_eq!(h.geofences()[1].shape, 5);
    // still inside "a": no second entered signal
    let ev = h.poll(&vec![false, true]);
    assert!(ev.is_empty());
}

#[test]
fn start_stop_lifecycle() {
    let mut h: LocationHandler<u32> = LocationHandler::new();
    assert_eq!(h.stop(), Err(TrackerError::NotStarted));
    assert_eq!(h.start(), Ok(()));
    assert_eq!(h.start(), Err(TrackerError::AlreadyStarted));
    assert_eq!(h.stop(), Ok(()));
    assert_eq!(h.stop(), Err(TrackerError::NotStarted));
}

#[test]
fn removed_fence_is_no_longer_occupied() {
    let mut h: LocationHandler<u32> = LocationHandler::new();
    h.add_geofence_circle("gone", 1);
    h.poll(&vec![true]);
    assert_eq!(h.get_occupied_geofences(), vec!["gone".to_string()]);
    h.clear_geofences();
    assert!(h.poll(&vec![]).is_empty());
    assert!(h.get_occupied_geofences().is_empty());
}
