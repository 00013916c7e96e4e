use volume_control_rs::listing::{
    device_names_in, first_position_of, input_device_names_in, output_device_names_in,
    positions_of,
};

fn names(v: &[&str]) -> Vec<String> {
    v.iter().map(|s| s.to_string()).collect()
}

#[test]
fn device_name_filters() {
    let all = names(&["master", "output: A", "input: B", "Firefox", "output: C", "mic", "input:x"]);
    assert_eq!(device_names_in(&all), names(&["output: A", "input: B", "output: C"]));
    assert_eq!(output_device_names_in(&all), names(&["output: A", "output: C"]));
    assert_eq!(input_device_names_in(&all), names(&["input: B"]));
}

#[test]
fn device_names_are_outputs_plus_inputs() {
    let all = names(&["output: A", "input: B", "x", "output: ", "input: ", "inputs"]);
    assert_eq!(
        device_names_in(&all).len(),
        output_device_names_in(&all).len() + input_device_names_in(&all).len()
    );
}

#[test]
fn positions() {
    let all = names(&["a", "b", "a", "c", "a"]);
    assert_eq!(first_position_of(&all, "a"), Some(0));
    assert_eq!(first_position_of(&all, "c"), Some(3));
    assert_eq!(first_position_of(&all, "z"), None);
    assert_eq!(positions_of(&all, "a"), vec![0, 2, 4]);
    assert!(positions_of(&all, "z").is_empty());
    assert_eq!(first_position_of(&Vec::new(), "a"), None);
}
