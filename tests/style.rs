use garlic::{Style, StyleTag};

#[test]
fn new_style_is_empty() {
    let style = Style::new();
    assert!(style.is_empty());
    assert_eq!(style.to_string(), "");
    assert!(Style::default().is_empty());
}

#[test]
fn set_appends_and_replaces_by_name() {
    let mut style = Style::new();
    style.set("width", "10px");
    style.set("height", "5px");
    assert_eq!(style.to_string(), "width:10px;height:5px;");
    style.set("width", "20px");
    assert_eq!(style.to_string(), "width:20px;height:5px;");
    assert!(!style.is_empty());
}

#[test]
fn with_chains_declarations() {
    let style = Style::new().with("position", "absolute").with("left", "3px").with("position", "fixed");
    assert_eq!(style.to_string(), "position:fixed;left:3px;");
}

#[test]
fn parse_reads_trimmed_declarations() {
    let mut style = Style::new().with("color", "blue");
    style.parse(" color : red ; ; width:10px;bad; x: ;:y;");
    assert_eq!(style.to_string(), "color:red;width:10px;");
}

#[test]
fn parse_takes_the_text_up_to_a_second_colon_as_value() {
    let mut style = Style::new();
    style.parse("a:b:c;d :\te\u{3000}");
    assert_eq!(style.to_string(), "a:b;d:e;");
}

#[test]
fn parse_of_empty_text_changes_nothing() {
    let mut style = Style::new().with("k", "v");
    style.parse("");
    assert_eq!(style.to_string(), "k:v;");
}

#[test]
fn add_keeps_every_declaration() {
    let a = Style::new().with("x", "1");
    let b = Style::new().with("x", "2").with("y", "3");
    assert_eq!(a.add(b).to_string(), "x:1;x:2;y:3;");
}

#[test]
fn add_assign_lets_the_other_values_win() {
    let mut a = Style::new().with("x", "1").with("z", "0");
    let b = Style::new().with("x", "2").with("y", "3");
    a += b;
    assert_eq!(a.to_string(), "x:2;z:0;y:3;");
}

#[test]
fn clone_keeps_the_declarations() {
    let a = Style::new().with("x", "1").with("y", "2");
    let b = a.clone();
    assert_eq!(b.to_string(), "x:1;y:2;");
}

#[test]
fn style_tag_holds_name_and_value() {
    let tag = StyleTag::new("cursor", "grab");
    assert_eq!(tag.name, "cursor");
    assert_eq!(tag.value, "grab");
    let empty = StyleTag::default();
    assert!(empty.name.is_empty() && empty.value.is_empty());
}
