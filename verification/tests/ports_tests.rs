use midi_router::PortResolutionError;
use midi_router::endpoint_names;
use midi_router::resolve_port;

#[test]
fn endpoint_names_follow_the_convention() {
    let names = endpoint_names("MyCtrl", "Loop");
    assert_eq!(names.from_controller, "myctrl-router-input");
    assert_eq!(names.to_controller, "myctrl-router-output");
    assert_eq!(names.from_software, "from_Loop");
    assert_eq!(names.to_software, "to_Loop");
}

#[test]
fn matching_is_case_insensitive_substring() {
    let names = vec!["Foo Port".to_string(), "The XABCX Port".to_string()];
    assert_eq!(resolve_port(&names, "abc"), Ok((1, false)));
    assert_eq!(resolve_port(&names, "FOO"), Ok((0, false)));
}

#[test]
fn first_matching_port_wins() {
    let names = vec!["a-x".to_string(), "b-x".to_string()];
    assert_eq!(resolve_port(&names, "x"), Ok((0, false)));
}

#[test]
fn no_match_falls_back_to_first_port() {
    let names = vec!["Foo".to_string(), "Bar".to_string()];
    assert_eq!(resolve_port(&names, "baz"), Ok((0, true)));
}

#[test]
fn zero_ports_is_an_error() {
    let names: Vec<String> = vec![];
    assert_eq!(
        resolve_port(&names, "anything"),
        Err(PortResolutionError::NoPortsAvailable)
    );
}
