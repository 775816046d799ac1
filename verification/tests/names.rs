use weaver_resolver::name_map::NameMap;
use weaver_resolver::names::{compare_names, NameOrder};

#[test]
fn names_compare_byte_by_byte() {
    assert_eq!(compare_names("", ""), NameOrder::Same);
    assert_eq!(compare_names("", "a"), NameOrder::Before);
    assert_eq!(compare_names("a", ""), NameOrder::After);
    assert_eq!(compare_names("http", "http"), NameOrder::Same);
    assert_eq!(compare_names("http", "http.method"), NameOrder::Before);
    assert_eq!(compare_names("http.method", "http"), NameOrder::After);
    assert_eq!(compare_names("a", "b"), NameOrder::Before);
    assert_eq!(compare_names("b", "a"), NameOrder::After);
    assert_eq!(compare_names("B", "a"), NameOrder::Before);
    assert_eq!(compare_names("a.b", "a_b"), NameOrder::Before);
    assert_eq!(compare_names("ab", "a.b"), NameOrder::After);
}

#[test]
fn name_order_is_that_of_the_standard_string_order() {
    let names = ["", "a", "A", "z", "é", "e", "日本", "\u{10ffff}", "ab", "a.b", "a\u{7f}", "~"];
    for a in names {
        for b in names {
            let expected = if a < b {
                NameOrder::Before
            } else if a == b {
                NameOrder::Same
            } else {
                NameOrder::After
            };
            assert_eq!(compare_names(a, b), expected);
        }
    }
}

#[test]
fn name_map_keeps_one_value_per_name_in_name_order() {
    let mut map: NameMap<u32> = NameMap::new();
    assert_eq!(map.len(), 0);
    assert_eq!(map.get("a"), None);
    map.insert("m".to_owned(), 1);
    map.insert("a".to_owned(), 2);
    map.insert("z".to_owned(), 3);
    map.insert("m".to_owned(), 4);
    map.insert("b".to_owned(), 5);
    assert_eq!(map.len(), 4);
    assert_eq!(map.get("m"), Some(&4));
    assert_eq!(map.get("a"), Some(&2));
    assert_eq!(map.get("c"), None);
    assert_eq!(map.name_at(0), "a");
    assert_eq!(map.name_at(3), "z");
    assert_eq!(*map.value_at(1), 5);
    assert_eq!(map.into_values(), vec![2, 5, 4, 3]);
}
