use bevy_api_gen::names::OrderedMap;
use bevy_api_gen::text::{join, lines, same, write_prefixed, write_text_lines};

fn s(x: &str) -> String {
    x.to_string()
}

#[test]
fn lines_of_empty_text_are_none() {
    assert_eq!(lines(""), Vec::<String>::new());
}

#[test]
fn lines_split_at_line_feeds() {
    assert_eq!(lines("a\nbc\n\nd"), vec![s("a"), s("bc"), s(""), s("d")]);
}

#[test]
fn lines_ignore_one_final_line_feed() {
    assert_eq!(lines("a\nb\n"), vec![s("a"), s("b")]);
    assert_eq!(lines("\n"), vec![s("")]);
    assert_eq!(lines("a\n\n"), vec![s("a"), s("")]);
}

#[test]
fn lines_drop_carriage_return_before_line_feed_only() {
    assert_eq!(lines("a\r\nb\r"), vec![s("a"), s("b\r")]);
    assert_eq!(lines("a\rb\r\n"), vec![s("a\rb")]);
    assert_eq!(lines("\r\n"), vec![s("")]);
}

#[test]
fn lines_agree_with_std_on_mixed_text() {
    let texts = [
        "",
        "one",
        "one\n",
        "one\ntwo",
        "\n\n",
        "\r\n\r\n",
        "a\r\r\nb",
        "\ra\n\rb\n",
        "é\nü\r\n漢字",
    ];
    for t in texts {
        let expected: Vec<String> = t.lines().map(|l| l.to_string()).collect();
        assert_eq!(lines(t), expected, "text {:?}", t);
    }
}

#[test]
fn join_puts_separator_between_parts() {
    assert_eq!(join(&vec![], ","), "");
    assert_eq!(join(&vec![s("a")], ","), "a");
    assert_eq!(join(&vec![s("a"), s("b"), s("c")], "::"), "a::b::c");
    assert_eq!(join(&vec![s(""), s("")], "-"), "-");
}

#[test]
fn same_compares_characters() {
    assert!(same("self", "self"));
    assert!(!same("self", "Self"));
    assert!(!same("self", "sel"));
    assert!(same("", ""));
}

#[test]
fn prefixed_lines_close_each_line() {
    let mut out = s(">");
    write_prefixed(&mut out, "/// ", &vec![s("a"), s(""), s("b")]);
    assert_eq!(out, ">/// a\n/// \n/// b\n");
}

#[test]
fn text_lines_are_written_behind_prefix() {
    let mut out = String::new();
    write_text_lines(&mut out, "// ", "x\r\ny\n");
    assert_eq!(out, "// x\n// y\n");
    let mut none = s("keep");
    write_text_lines(&mut none, "// ", "");
    assert_eq!(none, "keep");
}

#[test]
fn ordered_map_starts_empty() {
    let m: OrderedMap<u32> = OrderedMap::new();
    assert_eq!(m.len(), 0);
    assert_eq!(m.get("a"), None);
    assert_eq!(m.get_index_of("a"), None);
    assert!(!m.contains_key("a"));
}

#[test]
fn ordered_map_keeps_insertion_order() {
    let mut m: OrderedMap<u32> = OrderedMap::new();
    m.insert(s("b"), 1);
    m.insert(s("a"), 2);
    m.insert(s("c"), 3);
    assert_eq!(m.len(), 3);
    assert_eq!(m.key_at(0), "b");
    assert_eq!(m.key_at(1), "a");
    assert_eq!(m.key_at(2), "c");
    assert_eq!(*m.value_at(0), 1);
    assert_eq!(*m.value_at(1), 2);
    assert_eq!(*m.value_at(2), 3);
    assert_eq!(m.get_index_of("a"), Some(1));
    assert_eq!(m.get_index_of("c"), Some(2));
    assert_eq!(m.get_index_of("d"), None);
    assert_eq!(m.get("c"), Some(&3));
    assert!(m.contains_key("b"));
    assert!(!m.contains_key("bb"));
}

#[test]
fn ordered_map_insert_of_known_name_keeps_place() {
    let mut m: OrderedMap<u32> = OrderedMap::new();
    m.insert(s("x"), 1);
    m.insert(s("y"), 2);
    m.insert(s("x"), 3);
    assert_eq!(m.len(), 2);
    assert_eq!(m.key_at(0), "x");
    assert_eq!(*m.value_at(0), 3);
    assert_eq!(m.key_at(1), "y");
    assert_eq!(m.get("x"), Some(&3));
}

#[test]
fn ordered_map_push_to_groups_by_name() {
    let mut m: OrderedMap<Vec<u32>> = OrderedMap::new();
    m.push_to(&s("add"), 1);
    m.push_to(&s("sub"), 2);
    m.push_to(&s("add"), 3);
    assert_eq!(m.len(), 2);
    assert_eq!(m.get("add"), Some(&vec![1, 3]));
    assert_eq!(m.get("sub"), Some(&vec![2]));
    assert_eq!(m.get("mul"), None);
    assert_eq!(m.key_at(0), "add");
    assert_eq!(m.key_at(1), "sub");
}
