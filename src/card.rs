use vstd::prelude::*;

verus! {

/// What `render` returns for a markdown text: the HTML that pulldown-cmark
/// writes for it with every extension switched on.
pub uninterp spec fn html_of(text: Seq<char>) -> Seq<char>;

/// Relies on pulldown_cmark::Parser::new_ext and pulldown_cmark::html::push_html:
/// the HTML written into an empty buffer depends on the text alone.
#[verifier::external_body]
fn markdown_to_html(text: &str) -> (r: String)
    ensures
        r@ == html_of(text@),
{
    let parser = pulldown_cmark::Parser::new_ext(text, pulldown_cmark::Options::all());
    let mut out = String::new();
    pulldown_cmark::html::push_html(&mut out, parser);
    out
}

/// The HTML of a markdown text, with tables, strikethrough, task lists,
/// footnotes and the other extensions switched on.
pub fn render(text: &str) -> (r: String)
    ensures
        r@ == html_of(text@),
{
    markdown_to_html(text)
}

/// The mathematical value of a card: its four fields as character sequences.
pub struct CardView {
    pub title: Seq<char>,
    pub front: Seq<char>,
    pub back: Seq<char>,
    pub category: Seq<char>,
}

/// A card holds content: a title, and something on the front or the back.
pub open spec fn is_filled(c: CardView) -> bool {
    c.title.len() > 0 && (c.front.len() > 0 || c.back.len() > 0)
}

/// The card with its front and back turned into HTML.
pub open spec fn rendered(c: CardView) -> CardView {
    CardView { title: c.title, front: html_of(c.front), back: html_of(c.back), category: c.category }
}

/// The card with title, front and back emptied; the category stays.
pub open spec fn emptied(c: CardView) -> CardView {
    CardView {
        title: Seq::empty(),
        front: Seq::empty(),
        back: Seq::empty(),
        category: c.category,
    }
}

/// One flashcard.
#[derive(Clone, Debug, Default)]
pub struct Card {
    /// The text of the card's top-level heading.
    pub title: String,
    /// The content under the first subheading.
    pub front: String,
    /// The content under the second subheading.
    pub back: String,
    /// A grouping label handed in by the caller.
    pub category: String,
}

impl View for Card {
    type V = CardView;

    open spec fn view(&self) -> CardView {
        CardView {
            title: self.title@,
            front: self.front@,
            back: self.back@,
            category: self.category@,
        }
    }
}

impl Card {
    /// A card with every field empty but the category.
    pub fn with_category(category: &str) -> (r: Card)
        ensures
            r@ == (CardView {
                title: Seq::empty(),
                front: Seq::empty(),
                back: Seq::empty(),
                category: category@,
            }),
    {
        Card {
            title: String::new(),
            front: String::new(),
            back: String::new(),
            category: String::from_str(category),
        }
    }

    /// Empties title, front and back; keeps the category.
    pub fn clear(&mut self)
        ensures
            final(self)@ == emptied(old(self)@),
    {
        self.title = String::new();
        self.front = String::new();
        self.back = String::new();
    }

    /// True when the card has no title, or neither front nor back.
    pub fn is_empty(&self) -> (r: bool)
        ensures
            r == !is_filled(self@),
    {
        self.title.as_str().is_empty() || (self.front.as_str().is_empty()
            && self.back.as_str().is_empty())
    }

    /// Replaces front and back by their HTML.
    pub fn convert(&mut self)
        ensures
            final(self)@ == rendered(old(self)@),
    {
        self.front = render(self.front.as_str());
        self.back = render(self.back.as_str());
    }

    /// A field-by-field copy of the card.
    pub fn duplicate(&self) -> (r: Card)
        ensures
            r@ == self@,
    {
        Card {
            title: self.title.clone(),
            front: self.front.clone(),
            back: self.back.clone(),
            category: self.category.clone(),
        }
    }
}

} // verus!
