use pingpc::{Args, ArgsError};

fn targets_of(address: &str, range: Option<&str>) -> Result<Vec<String>, ArgsError> {
    Args::new(address.to_string(), range.map(|r| r.to_string())).targets()
}

#[test]
fn a_centre_has_155_targets_by_default() {
    let targets = targets_of("101", None).unwrap();
    assert_eq!(targets.len(), 155);
    assert_eq!(targets[0], "192.168.101.101");
    assert_eq!(targets[1], "192.168.101.102");
    assert_eq!(targets[154], "192.168.101.255");
    for (k, target) in targets.iter().enumerate() {
        assert_eq!(*target, format!("192.168.101.{}", 101 + k));
    }
}

#[test]
fn a_network_has_255_targets_by_default() {
    let targets = targets_of("172.17.3", None).unwrap();
    assert_eq!(targets.len(), 255);
    assert_eq!(targets[0], "172.17.3.1");
    assert_eq!(targets[254], "172.17.3.255");
    for (k, target) in targets.iter().enumerate() {
        assert_eq!(*target, format!("172.17.3.{}", 1 + k));
    }
}

#[test]
fn a_host_is_its_only_target() {
    assert_eq!(targets_of("192.168.0.1", None), Ok(vec!["192.168.0.1".to_string()]));
    assert_eq!(targets_of(" 10.0.0.7\n", None), Ok(vec!["10.0.0.7".to_string()]));
}

#[test]
fn a_host_is_its_only_target_whatever_the_range() {
    assert_eq!(targets_of("192.168.0.1", Some("5-7")), Ok(vec!["192.168.0.1".to_string()]));
    assert_eq!(targets_of("192.168.0.1", Some("7-5")), Ok(vec!["192.168.0.1".to_string()]));
    assert_eq!(targets_of("192.168.0.1", Some("0-255")), Ok(vec!["192.168.0.1".to_string()]));
}

#[test]
fn a_given_range_has_one_target_for_each_value() {
    for (lo, hi) in [(0u8, 0u8), (0, 255), (1, 255), (10, 12), (101, 255), (254, 255), (255, 255)] {
        let flag = format!("{}-{}", lo, hi);
        let count = hi as usize - lo as usize + 1;
        let of_network = targets_of("172.17.3", Some(&flag)).unwrap();
        assert_eq!(of_network.len(), count);
        assert_eq!(of_network[0], format!("172.17.3.{}", lo));
        assert_eq!(of_network[count - 1], format!("172.17.3.{}", hi));
        let of_centre = targets_of("101", Some(&flag)).unwrap();
        assert_eq!(of_centre.len(), count);
        assert_eq!(of_centre[0], format!("192.168.101.{}", lo));
        assert_eq!(of_centre[count - 1], format!("192.168.101.{}", hi));
    }
}

#[test]
fn a_given_range_is_gone_through_in_ascending_order() {
    assert_eq!(
        targets_of("172.17.3", Some("10-12")),
        Ok(vec!["172.17.3.10".to_string(), "172.17.3.11".to_string(), "172.17.3.12".to_string()])
    );
    assert_eq!(
        targets_of("7", Some("0-2")),
        Ok(vec!["192.168.7.0".to_string(), "192.168.7.1".to_string(), "192.168.7.2".to_string()])
    );
}

#[test]
fn the_range_0_0_has_one_target() {
    assert_eq!(targets_of("172.17.3", Some("0-0")), Ok(vec!["172.17.3.0".to_string()]));
    assert_eq!(targets_of("101", Some("0-0")), Ok(vec!["192.168.101.0".to_string()]));
}

#[test]
fn the_range_255_255_has_one_target() {
    assert_eq!(targets_of("172.17.3", Some("255-255")), Ok(vec!["172.17.3.255".to_string()]));
    assert_eq!(targets_of("101", Some("255-255")), Ok(vec!["192.168.101.255".to_string()]));
}

#[test]
fn the_range_5_3_has_no_target() {
    assert_eq!(targets_of("172.17.3", Some("5-3")), Ok(Vec::new()));
    assert_eq!(targets_of("101", Some("5-3")), Ok(Vec::new()));
}

#[test]
fn the_whole_range_has_256_targets() {
    let targets = targets_of("10.0.0", Some("0-255")).unwrap();
    assert_eq!(targets.len(), 256);
    assert_eq!(targets[0], "10.0.0.0");
    assert_eq!(targets[255], "10.0.0.255");
}

#[test]
fn a_wrong_number_of_components_is_an_error() {
    assert_eq!(targets_of("1.2", None), Err(ArgsError::AddressShape));
    assert_eq!(targets_of("1.2.3.4.5", None), Err(ArgsError::AddressShape));
    assert_eq!(targets_of("1.2.3.4.5.6.7", None), Err(ArgsError::AddressShape));
    assert_eq!(targets_of("1.2", Some("10-12")), Err(ArgsError::AddressShape));
}

#[test]
fn a_wrong_range_is_an_error() {
    assert_eq!(targets_of("101", Some("foo-bar")), Err(ArgsError::RangeOctet));
    assert_eq!(targets_of("101", Some("1-2-3")), Err(ArgsError::RangeCount));
    assert_eq!(targets_of("192.168.0.1", Some("1-256")), Err(ArgsError::RangeOctet));
}

#[test]
fn of_a_wrong_range_and_a_wrong_address_the_range_is_reported() {
    assert_eq!(targets_of("1.2", Some("foo-bar")), Err(ArgsError::RangeOctet));
    assert_eq!(targets_of("1.2", Some("5")), Err(ArgsError::RangeCount));
}

#[test]
fn components_go_into_the_targets_as_they_are() {
    assert_eq!(targets_of("a.b.c", Some("1-1")), Ok(vec!["a.b.c.1".to_string()]));
    assert_eq!(targets_of("", Some("1-1")), Ok(vec!["192.168..1".to_string()]));
    assert_eq!(targets_of("999..3", Some("9-9")), Ok(vec!["999..3.9".to_string()]));
}
