use eloverblik::calendar::{date_text_of, minute_text_of, UtcMinute};
use eloverblik::keyed::{compare_keys, KeyedStore};

#[test]
fn store_keeps_keys_in_string_order() {
    let mut m: KeyedStore<i32> = KeyedStore::new();
    m.insert("09/01/2023".to_string(), 1);
    m.insert("08/31/2023".to_string(), 2);
    m.insert("10/01/2022".to_string(), 3);
    m.insert("08/31/2023".to_string(), 4);
    let keys: Vec<&str> = m.entries.iter().map(|e| e.0.as_str()).collect();
    assert_eq!(keys, vec!["08/31/2023", "09/01/2023", "10/01/2022"]);
    assert_eq!(m.len(), 3);
    assert_eq!(m.get(&"08/31/2023".to_string()), Some(&4));
    assert_eq!(m.find(&"10/01/2022".to_string()), Some(2));
    assert_eq!(m.get(&"missing".to_string()), None);
}

#[test]
fn key_comparison() {
    assert!(compare_keys("a", "b") < 0);
    assert!(compare_keys("b", "a") > 0);
    assert_eq!(compare_keys("abc", "abc"), 0);
    assert!(compare_keys("ab", "abc") < 0);
    assert!(compare_keys("", "a") < 0);
    assert!(compare_keys("é", "z") > 0);
}

#[test]
fn instant_keys() {
    let t = UtcMinute { year: 2023, month: 8, day: 1, hour: 5, minute: 7 };
    assert_eq!(date_text_of(&t), "08/01/2023");
    assert_eq!(minute_text_of(&t), "08/01/2023 05:07");
    let far = UtcMinute { year: 10000, month: 12, day: 31, hour: 23, minute: 59 };
    assert_eq!(date_text_of(&far), "12/31/+10000");
    let early = UtcMinute { year: -1, month: 1, day: 2, hour: 0, minute: 0 };
    assert_eq!(date_text_of(&early), "01/02/-0001");
    let small = UtcMinute { year: 5, month: 1, day: 2, hour: 0, minute: 0 };
    assert_eq!(date_text_of(&small), "01/02/0005");
}
