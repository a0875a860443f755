use soundcheck::channel_map::generic_channel_map;
use soundcheck::channel_map::ChannelMap;
use soundcheck::text::decimal_string;

#[test]
fn generic_map_is_total_and_bijective() {
    // For device channel count N: exactly N entries, keys 0..N-1, each
    // value the stringified key (so all values are distinct).
    let n: u16 = 6;
    let map = generic_channel_map(n);
    let mut labels: Vec<String> = Vec::new();
    for c in 0..n {
        let label = map.get(c).expect("every channel below n is mapped").clone();
        assert_eq!(label, c.to_string());
        assert!(!labels.contains(&label));
        labels.push(label);
    }
    assert!(map.get(n).is_none());
    assert!(map.get(u16::MAX).is_none());
}

#[test]
fn generic_map_of_zero_channels_is_empty() {
    let map = generic_channel_map(0);
    assert!(map.get(0).is_none());
}

#[test]
fn insert_replaces_existing_label() {
    let mut map = ChannelMap::new();
    assert!(map.get(5).is_none());
    map.insert(5, "first".to_string());
    assert_eq!(map.get(5).map(|l| l.as_str()), Some("first"));
    map.insert(5, "second".to_string());
    assert_eq!(map.get(5).map(|l| l.as_str()), Some("second"));
    assert!(map.get(4).is_none());
}

#[test]
fn decimal_strings_are_exact() {
    assert_eq!(decimal_string(0), "0");
    assert_eq!(decimal_string(7), "7");
    assert_eq!(decimal_string(10), "10");
    assert_eq!(decimal_string(105), "105");
    assert_eq!(decimal_string(65535), "65535");
}
