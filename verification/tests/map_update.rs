use std::collections::HashMap;
use zigbee_mac::map_update::{CheckDefault, MapUpdate};

#[test]
fn test_map_update() {
    let mut map = HashMap::new();
    let plus_one = |x: u32| x + 1;
    let sub_one = |x: u32| x - 1;
    map.update("A", plus_one);
    assert_eq!(1, map.len());
    map.update("B", plus_one);
    map.update("B", plus_one);
    assert_eq!(2, map.len());
    assert_eq!(1, map.get("A").unwrap().clone());
    assert_eq!(2, map.get("B").unwrap().clone());
    map.update("A", sub_one);
    assert_eq!(1, map.len());
    assert_eq!(false, map.contains_key("A"));
    assert_eq!(2, map.get("B").unwrap().clone());
    map.update("B", sub_one);
    assert_eq!(1, map.len());
    assert_eq!(false, map.contains_key("A"));
    assert_eq!(1, map.get("B").unwrap().clone());
}

#[test]
fn map_update_return_and_option_default() {
    let mut map: HashMap<u8, Option<u16>> = HashMap::new();
    let r = map.update_return(1, |v: Option<u16>| (Some(v.unwrap_or(0) + 5), "set"));
    assert_eq!(r, "set");
    assert_eq!(map.get(&1), Some(&Some(5)));
    let r = map.update_return(1, |_v: Option<u16>| (None, 7));
    assert_eq!(r, 7);
    assert!(map.is_empty());
    assert!(None::<u8>.is_default());
    assert!(!Some(3u8).is_default());
    assert!(0u32.is_default());
}
