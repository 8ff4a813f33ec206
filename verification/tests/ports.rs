use poorkid::midi::pick_port;

#[test]
fn preferred_port_is_found_anywhere_in_the_list() {
    let names = vec!["Through".to_owned(), "OP-XY".to_owned(), "Synth".to_owned()];
    assert_eq!(pick_port(&names), Some(1));
    let names = vec!["OP-XY Bluetooth".to_owned()];
    assert_eq!(pick_port(&names), Some(0));
}

#[test]
fn first_preferred_port_wins() {
    let names = vec!["OP-XY Bluetooth".to_owned(), "OP-XY".to_owned()];
    assert_eq!(pick_port(&names), Some(0));
}

#[test]
fn falls_back_to_the_first_port() {
    let names = vec!["Through".to_owned(), "Synth".to_owned()];
    assert_eq!(pick_port(&names), Some(0));
}

#[test]
fn no_ports_means_no_choice() {
    assert_eq!(pick_port(&Vec::new()), None);
}
