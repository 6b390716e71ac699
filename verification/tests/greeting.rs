use host_bridge::greeting::greet;

#[test]
fn greeting_wraps_the_name() {
    assert_eq!(greet("Ada"), "Hello, Ada! Welcome to SprintLoop.");
}

#[test]
fn greeting_of_empty_name() {
    assert_eq!(greet(""), "Hello, ! Welcome to SprintLoop.");
}

#[test]
fn greeting_holds_the_name_verbatim() {
    let names = ["Grace Hopper", "  padded  ", "line\nbreak", "Zoë", "名前", "{}", "a\"b\\c"];
    for name in names {
        let text = greet(name);
        assert!(text.contains(name));
        assert_eq!(text.find(name), Some(7));
        assert!(text.starts_with("Hello, "));
        assert!(text.ends_with("! Welcome to SprintLoop."));
    }
}
