use audio_cycle::device::{AudioDevice, DeviceList};
use audio_cycle::selector::{
    current_indicator_position, cycle_next_device_internal, find_default, id_excluded,
    included_devices, select_next, SelectError,
};

fn dev(id: &str, name: &str, is_default: bool) -> AudioDevice {
    AudioDevice { id: id.to_string(), name: name.to_string(), is_default }
}

fn ids(list: &[&str]) -> Vec<String> {
    list.iter().map(|s| s.to_string()).collect()
}

fn reenumerate(devices: &[AudioDevice], default_id: &str) -> Vec<AudioDevice> {
    let mut list = DeviceList::new(Some(default_id.to_string()));
    for d in devices {
        list.add(d.id.clone(), d.name.clone());
    }
    list.into_devices()
}

#[test]
fn cycling_returns_to_start_after_full_round() {
    for start in 0..3 {
        let names = ["A", "B", "C"];
        let mut devices: Vec<AudioDevice> =
            names.iter().enumerate().map(|(i, n)| dev(n, n, i == start)).collect();
        let mut seen = Vec::new();
        for _ in 0..devices.len() {
            let sel = select_next(&devices, &Vec::new()).unwrap();
            seen.push(sel.device.id.clone());
            devices = reenumerate(&devices, &sel.device.id);
        }
        let default_now: Vec<&str> =
            devices.iter().filter(|d| d.is_default).map(|d| d.id.as_str()).collect();
        assert_eq!(default_now, vec![names[start]]);
        let mut sorted = seen.clone();
        sorted.sort();
        assert_eq!(sorted, ids(&["A", "B", "C"]));
    }
}

#[test]
fn excluded_default_selects_first_included() {
    let all = vec![dev("A", "Speakers", true), dev("B", "Headset", false), dev("C", "Monitor", false)];
    let sel = select_next(&all, &ids(&["A"])).unwrap();
    assert_eq!(sel.device.id, "B");
    assert_eq!(sel.position_in_filtered_list, 1);

    let all = vec![dev("A", "Speakers", false), dev("B", "Headset", false), dev("C", "Monitor", true)];
    let sel = select_next(&all, &ids(&["C", "A"])).unwrap();
    assert_eq!(sel.device.id, "B");
    assert_eq!(sel.position_in_filtered_list, 1);
}

#[test]
fn all_excluded_rotates_over_every_device() {
    let all = vec![dev("A", "a", false), dev("B", "b", true), dev("C", "c", false)];
    let sel = select_next(&all, &ids(&["A", "B", "C"])).unwrap();
    assert_eq!(sel.device.id, "C");
    assert_eq!(sel.position_in_filtered_list, 3);

    let all = vec![dev("A", "a", false), dev("B", "b", false), dev("C", "c", true)];
    let sel = select_next(&all, &ids(&["C", "B", "A", "Z"])).unwrap();
    assert_eq!(sel.device.id, "A");
    assert_eq!(sel.position_in_filtered_list, 1);

    let all = vec![dev("A", "a", false), dev("B", "b", false)];
    let sel = select_next(&all, &ids(&["A", "B"])).unwrap();
    assert_eq!(sel.device.id, "A");
    assert_eq!(sel.position_in_filtered_list, 1);
}

#[test]
fn empty_list_has_no_devices_error() {
    let r = select_next(&Vec::new(), &Vec::new());
    assert_eq!(r.unwrap_err(), SelectError::NoDevices);
    let r = select_next(&Vec::new(), &ids(&["A"]));
    assert_eq!(r.unwrap_err(), SelectError::NoDevices);
    assert_eq!(SelectError::NoDevices.message(), "No audio devices found");
}

#[test]
fn two_devices_select_second_and_commit_marks_it() {
    let all = vec![dev("A", "Speakers", true), dev("B", "Headset", false)];
    let sel = select_next(&all, &Vec::new()).unwrap();
    assert_eq!(sel.device.id, "B");
    assert_eq!(sel.device.name, "Headset");
    assert_eq!(sel.position_in_filtered_list, 2);
    let after = reenumerate(&all, &sel.device.id);
    assert!(!after[0].is_default);
    assert!(after[1].is_default);
}

#[test]
fn only_included_default_stays_selected() {
    let all = vec![dev("A", "a", true), dev("B", "b", false), dev("C", "c", false)];
    let sel = select_next(&all, &ids(&["B", "C"])).unwrap();
    assert_eq!(sel.device.id, "A");
    assert_eq!(sel.position_in_filtered_list, 1);
}

#[test]
fn wraps_from_last_to_first() {
    let all = vec![dev("A", "a", false), dev("B", "b", false), dev("C", "c", true)];
    let sel = select_next(&all, &Vec::new()).unwrap();
    assert_eq!(sel.device.id, "A");
    assert_eq!(sel.position_in_filtered_list, 1);
}

#[test]
fn no_default_selects_first_included() {
    let all = vec![dev("A", "a", false), dev("B", "b", false), dev("C", "c", false)];
    let sel = select_next(&all, &ids(&["A"])).unwrap();
    assert_eq!(sel.device.id, "B");
    assert_eq!(sel.position_in_filtered_list, 1);
}

#[test]
fn position_counts_within_included_list() {
    let all = vec![dev("A", "a", true), dev("B", "b", false), dev("C", "c", false)];
    let sel = select_next(&all, &ids(&["B"])).unwrap();
    assert_eq!(sel.device.id, "C");
    assert_eq!(sel.position_in_filtered_list, 2);
}

#[test]
fn exclusions_naming_absent_devices_change_nothing() {
    let all = vec![dev("A", "a", true), dev("B", "b", false)];
    let sel = select_next(&all, &ids(&["X", "Y"])).unwrap();
    assert_eq!(sel.device.id, "B");
    assert_eq!(sel.position_in_filtered_list, 2);
}

#[test]
fn rotation_over_all_ignores_exclusions() {
    assert_eq!(cycle_next_device_internal(&Vec::new()).unwrap_err(), SelectError::NoDevices);
    let all = vec![dev("A", "a", false), dev("B", "b", true)];
    let sel = cycle_next_device_internal(&all).unwrap();
    assert_eq!(sel.device.id, "A");
    assert_eq!(sel.position_in_filtered_list, 1);
    let single = vec![dev("A", "a", true)];
    let sel = cycle_next_device_internal(&single).unwrap();
    assert_eq!(sel.device.id, "A");
    assert_eq!(sel.position_in_filtered_list, 1);
}

#[test]
fn indicator_position_of_default_among_included() {
    let all = vec![dev("A", "a", false), dev("B", "b", false), dev("C", "c", true)];
    assert_eq!(current_indicator_position(&all, &Vec::new()), Some(3));
    assert_eq!(current_indicator_position(&all, &ids(&["A"])), Some(2));
    assert_eq!(current_indicator_position(&all, &ids(&["C"])), None);
    assert_eq!(current_indicator_position(&all, &ids(&["A", "B", "C"])), None);
    assert_eq!(current_indicator_position(&Vec::new(), &Vec::new()), None);
}

#[test]
fn helpers_filter_and_find() {
    let all = vec![dev("A", "a", false), dev("B", "b", true), dev("C", "c", false)];
    let inc = included_devices(&all, &ids(&["B"]));
    let inc_ids: Vec<&str> = inc.iter().map(|d| d.id.as_str()).collect();
    assert_eq!(inc_ids, vec!["A", "C"]);
    assert_eq!(find_default(&all), Some(1));
    assert_eq!(find_default(&inc), None);
    assert!(id_excluded(&ids(&["X", "B"]), &"B".to_string()));
    assert!(!id_excluded(&ids(&["X", "B"]), &"b".to_string()));
    assert!(!id_excluded(&Vec::new(), &"B".to_string()));
}
