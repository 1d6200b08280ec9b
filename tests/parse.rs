use cardinal::card::{render, Card};
use cardinal::parser::{parse, CardParser, Section};

fn lines(v: &[&str]) -> Vec<String> {
    v.iter().map(|s| s.to_string()).collect()
}

fn fields(c: &Card) -> (String, String, String, String) {
    (c.title.clone(), c.front.clone(), c.back.clone(), c.category.clone())
}

#[test]
fn single_card_scenario() {
    let cards = parse(&lines(&["# Capitals", "## ", "France", "## ", "Paris"]), "");
    assert_eq!(cards.len(), 1);
    assert_eq!(cards[0].title, "Capitals");
    assert_eq!(cards[0].front, render("France\n"));
    assert_eq!(cards[0].back, render("Paris\n"));
    assert_eq!(cards[0].front, "<p>France</p>\n");
    assert_eq!(cards[0].back, "<p>Paris</p>\n");
}

#[test]
fn empty_title_gives_no_card() {
    let cards = parse(&lines(&["# ", "## ", "x"]), "Quiz");
    assert!(cards.is_empty());
}

#[test]
fn two_cards_back_to_back() {
    let cards = parse(
        &lines(&["# A", "## ", "1", "## ", "2", "# B", "## ", "3", "## ", "4"]),
        "Numbers",
    );
    assert_eq!(cards.len(), 2);
    assert_eq!(
        fields(&cards[0]),
        ("A".to_string(), render("1\n"), render("2\n"), "Numbers".to_string())
    );
    assert_eq!(
        fields(&cards[1]),
        ("B".to_string(), render("3\n"), render("4\n"), "Numbers".to_string())
    );
}

#[test]
fn no_heading_no_cards() {
    assert!(parse(&lines(&[]), "").is_empty());
    assert!(parse(&lines(&["## ", "front", "## ", "back", "", "plain text"]), "").is_empty());
    assert!(parse(&lines(&["#no space", "##", "x"]), "").is_empty());
}

#[test]
fn blocks_give_one_card_each() {
    let doc = lines(&[
        "# One", "## ", "a", "b", "## ", "c", "# Two", "## ", "d", "## ", "e", "f", "# Three",
        "## ", "g", "## ", "h",
    ]);
    let cards = parse(&doc, "Set");
    let want = [
        ("One", "a\nb\n", "c\n"),
        ("Two", "d\n", "e\nf\n"),
        ("Three", "g\n", "h\n"),
    ];
    assert_eq!(cards.len(), want.len());
    for (c, (t, f, b)) in cards.iter().zip(want.iter()) {
        assert_eq!(c.title, *t);
        assert_eq!(c.front, render(f));
        assert_eq!(c.back, render(b));
        assert_eq!(c.category, "Set");
    }
}

#[test]
fn blank_heading_finalizes_pending_card() {
    let cards = parse(&lines(&["# A", "## ", "1", "#    ", "## ", "ignored?", "## ", "z"]), "");
    assert_eq!(cards.len(), 1);
    assert_eq!(cards[0].title, "A");
    assert_eq!(cards[0].front, render("1\n"));
    assert_eq!(cards[0].back, "");
}

#[test]
fn blank_heading_keeps_section_without_pending_card() {
    // Nothing was pending, so the section is not reset and the next title
    // takes over what was gathered.
    let cards = parse(&lines(&["# ", "## ", "x", "# B", "## ", "y"]), "");
    assert_eq!(cards.len(), 1);
    assert_eq!(fields(&cards[0]), ("B".to_string(), render("x\n"), render("y\n"), String::new()));
}

#[test]
fn lone_newline_becomes_line_break() {
    let cards = parse(&lines(&["# A", "## ", "\n", "## ", "b", "\n"]), "");
    assert_eq!(cards.len(), 1);
    assert_eq!(cards[0].front, render("<br>\n"));
    assert_eq!(cards[0].back, render("b\n<br>\n"));
    assert!(cards[0].front.contains("<br>"));
    assert!(cards[0].back.contains("<br>"));
}

#[test]
fn heading_title_is_trimmed() {
    let cards = parse(&lines(&["#   Spaced out \t", "## ", "x"]), "");
    assert_eq!(cards.len(), 1);
    assert_eq!(cards[0].title, "Spaced out");
}

#[test]
fn lines_before_first_heading_are_dropped() {
    let cards = parse(&lines(&["stray", "more", "# T", "## ", "f"]), "");
    assert_eq!(cards.len(), 1);
    assert_eq!(cards[0].front, render("f\n"));
    assert_eq!(cards[0].back, "");
}

#[test]
fn extra_subheadings_stay_in_back() {
    let cards = parse(&lines(&["# T", "## ", "f", "## ", "b1", "## ignored", "b2"]), "");
    assert_eq!(cards.len(), 1);
    assert_eq!(cards[0].back, render("b1\nb2\n"));
}

#[test]
fn consecutive_headings_make_no_extra_cards() {
    let cards = parse(&lines(&["# A", "# B", "# C", "## ", "x"]), "");
    assert_eq!(cards.len(), 1);
    assert_eq!(cards[0].title, "C");
}

#[test]
fn title_without_content_is_dropped() {
    let cards = parse(&lines(&["# A", "## ", "## ", "# B", "## ", "", "## "]), "");
    assert_eq!(cards.len(), 1);
    assert_eq!(cards[0].title, "B");
    assert_eq!(cards[0].front, render("\n"));
}

#[test]
fn parser_fed_line_by_line() {
    let mut p = CardParser::new("Cat");
    for l in ["# Q", "## ", "front", "## ", "back"] {
        p.feed(l);
    }
    let cards = p.finish();
    assert_eq!(cards.len(), 1);
    assert_eq!(
        fields(&cards[0]),
        ("Q".to_string(), render("front\n"), render("back\n"), "Cat".to_string())
    );
}

#[test]
fn section_advances_and_stops_at_back() {
    assert_eq!(Section::Title.advance(), Section::Front);
    assert_eq!(Section::Front.advance(), Section::Back);
    assert_eq!(Section::Back.advance(), Section::Back);
}
