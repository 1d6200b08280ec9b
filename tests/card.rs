use cardinal::card::{render, Card};

fn card(t: &str, f: &str, b: &str) -> Card {
    Card { title: t.to_string(), front: f.to_string(), back: b.to_string(), category: "C".to_string() }
}

#[test]
fn clear_keeps_category() {
    let mut c = card("t", "f", "b");
    c.clear();
    assert_eq!(c.title, "");
    assert_eq!(c.front, "");
    assert_eq!(c.back, "");
    assert_eq!(c.category, "C");
}

#[test]
fn is_empty_cases() {
    assert!(card("", "f", "b").is_empty());
    assert!(card("t", "", "").is_empty());
    assert!(!card("t", "f", "").is_empty());
    assert!(!card("t", "", "b").is_empty());
    assert!(Card::with_category("x").is_empty());
}

#[test]
fn convert_renders_both_sides() {
    let mut c = card("t", "**bold**\n", "~~gone~~\n");
    c.convert();
    assert_eq!(c.title, "t");
    assert_eq!(c.front, "<p><strong>bold</strong></p>\n");
    assert_eq!(c.back, "<p><del>gone</del></p>\n");
}

#[test]
fn render_is_deterministic() {
    let s = "| a | b |\n|---|---|\n| 1 | 2 |\n\n- [x] done\n";
    assert_eq!(render(s), render(s));
}

#[test]
fn render_extensions() {
    let table = render("| a | b |\n|---|---|\n| 1 | 2 |\n");
    assert!(table.contains("<table>"));
    let tasks = render("- [x] done\n");
    assert!(tasks.contains("checkbox"));
    assert_eq!(render(""), "");
    assert_eq!(render("# H"), "<h1>H</h1>\n");
}

#[test]
fn duplicate_copies_fields() {
    let c = card("t", "f", "b");
    let d = c.duplicate();
    assert_eq!((d.title, d.front, d.back, d.category), ("t".to_string(), "f".to_string(), "b".to_string(), "C".to_string()));
}
