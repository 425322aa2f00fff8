use lambda_cloud::text::{insert_ascending, join, str_less, str_same};

#[test]
fn order_and_sameness_of_strings() {
    let samples = [
        "", "a", "b", "ab", "aa", "A", "\u{e9}", "\u{ffff}", "\u{10000}", "a\u{0}", "abc",
    ];
    for a in samples {
        for b in samples {
            assert_eq!(str_less(a, b), a < b, "{:?} {:?}", a, b);
            assert_eq!(str_same(a, b), a == b, "{:?} {:?}", a, b);
        }
    }
}

#[test]
fn joining_puts_the_separator_between() {
    let names = |items: &[&str]| -> Vec<String> { items.iter().map(|s| s.to_string()).collect() };
    assert_eq!(join(&names(&[]), ", "), "");
    assert_eq!(join(&names(&["a"]), ", "), "a");
    assert_eq!(join(&names(&["a", "", "c"]), ", "), "a, , c");
}

#[test]
fn ascending_lists_hold_each_name_once() {
    let mut names: Vec<String> = Vec::new();
    for name in ["m", "c", "x", "c", "a", "m", "z"] {
        insert_ascending(&mut names, &name.to_string());
    }
    assert_eq!(names, vec!["a", "c", "m", "x", "z"]);
}
