use jot::audio::{
    changed_input, chosen_device, device_identity, pick_input, InputPick,
};

fn names(list: &[Option<&str>]) -> Vec<Option<String>> {
    list.iter().map(|name| name.map(str::to_string)).collect()
}

#[test]
fn a_chosen_microphone_is_found_by_its_name() {
    let there = names(&[Some("Array"), None, Some("Headset"), Some("Headset")]);
    assert_eq!(pick_input(&Some("Headset".into()), &there), InputPick::Named(2));
    assert_eq!(pick_input(&Some("Array".into()), &there), InputPick::Named(0));
}

#[test]
fn a_missing_microphone_is_never_swapped_for_another() {
    let there = names(&[Some("Array"), None]);
    assert_eq!(pick_input(&Some("Headset".into()), &there), InputPick::Missing);
    assert_eq!(pick_input(&Some("array".into()), &there), InputPick::Missing);
    assert_eq!(pick_input(&Some("Headset".into()), &vec![]), InputPick::Missing);
}

#[test]
fn without_a_choice_the_default_microphone_is_used() {
    assert_eq!(pick_input(&None, &names(&[Some("Array")])), InputPick::Default);
    assert_eq!(pick_input(&None, &vec![]), InputPick::Default);
    assert_eq!(chosen_device(Some("  ".into())), None);
    assert_eq!(chosen_device(Some("Array".into())).as_deref(), Some("Array"));
}

#[test]
fn only_the_default_microphone_changes_under_a_recording() {
    let chosen = Some("Array".to_string());
    let (one, other) = (Some("{1}".to_string()), Some("{2}".to_string()));
    let identity = device_identity(&chosen, &one, "Array");
    assert_eq!(identity, "chosen:Array");
    assert_eq!(changed_input(&chosen, &other, "Array", &identity), None);
    let identity = device_identity(&None, &one, "Array");
    assert_eq!(identity, "endpoint:{1}");
    assert_eq!(
        changed_input(&None, &other, "Array", &identity).as_deref(),
        Some("endpoint:{2}")
    );
    assert_eq!(device_identity(&None, &None, "Array"), "name:Array");
}
