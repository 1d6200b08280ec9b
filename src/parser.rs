use vstd::prelude::*;

use crate::card::{emptied, is_filled, rendered, Card, CardView};
use crate::text::{trim, trimmed_from};

verus! {

/// Which field of the card in progress a content line goes to.
#[derive(Clone, Copy, Debug, PartialEq, Eq, Structural)]
pub enum Section {
    Title,
    Front,
    Back,
}

impl Section {
    /// One step along Title, Front, Back; Back stays Back.
    pub open spec fn next(self) -> Section {
        match self {
            Section::Title => Section::Front,
            Section::Front => Section::Back,
            Section::Back => Section::Back,
        }
    }

    /// The section that follows this one.
    pub fn advance(self) -> (r: Section)
        ensures
            r == self.next(),
    {
        match self {
            Section::Title => Section::Front,
            Section::Front => Section::Back,
            Section::Back => Section::Back,
        }
    }
}

/// A line that starts a new card: it begins with `# `.
pub open spec fn is_heading(l: Seq<char>) -> bool {
    l.len() >= 2 && l[0] == '#' && l[1] == ' '
}

/// A line that moves to the next section: it begins with `## `.
pub open spec fn is_subheading(l: Seq<char>) -> bool {
    l.len() >= 3 && l[0] == '#' && l[1] == '#' && l[2] == ' '
}

/// The title that a heading line carries.
pub open spec fn heading_title(l: Seq<char>) -> Seq<char> {
    trim(l.subrange(2, l.len() as int))
}

/// The line break marker that stands for a line made of one newline.
pub open spec fn line_break() -> Seq<char> {
    seq!['<', 'b', 'r', '>']
}

/// What a content line adds to its field: the line, or the marker for a
/// lone newline, followed by a newline.
pub open spec fn content_of(l: Seq<char>) -> Seq<char> {
    if l == seq!['\n'] {
        line_break().push('\n')
    } else {
        l.push('\n')
    }
}

/// The state of a parse: the card in progress, the section, and the cards
/// emitted so far.
pub struct ParseState {
    pub card: CardView,
    pub section: Section,
    pub out: Seq<CardView>,
}

/// The state before any line, for cards of the given category.
pub open spec fn initial(category: Seq<char>) -> ParseState {
    ParseState {
        card: CardView {
            title: Seq::empty(),
            front: Seq::empty(),
            back: Seq::empty(),
            category,
        },
        section: Section::Title,
        out: Seq::empty(),
    }
}

/// Emits the card in progress, rendered, when it holds content, and starts
/// afresh; otherwise leaves the state as it is.
pub open spec fn flushed(st: ParseState) -> ParseState {
    if is_filled(st.card) {
        ParseState {
            card: emptied(st.card),
            section: Section::Title,
            out: st.out.push(rendered(st.card)),
        }
    } else {
        st
    }
}

/// The state after one more line.
pub open spec fn step(st: ParseState, l: Seq<char>) -> ParseState {
    if is_heading(l) {
        let s = flushed(st);
        let t = heading_title(l);
        if t.len() > 0 {
            ParseState {
                card: CardView {
                    title: t,
                    front: s.card.front,
                    back: s.card.back,
                    category: s.card.category,
                },
                section: s.section,
                out: s.out,
            }
        } else {
            s
        }
    } else if is_subheading(l) {
        ParseState { card: st.card, section: st.section.next(), out: st.out }
    } else {
        match st.section {
            Section::Title => st,
            Section::Front => ParseState {
                card: CardView {
                    title: st.card.title,
                    front: st.card.front + content_of(l),
                    back: st.card.back,
                    category: st.card.category,
                },
                section: st.section,
                out: st.out,
            },
            Section::Back => ParseState {
                card: CardView {
                    title: st.card.title,
                    front: st.card.front,
                    back: st.card.back + content_of(l),
                    category: st.card.category,
                },
                section: st.section,
                out: st.out,
            },
        }
    }
}

/// The state after the given lines, in order.
pub open spec fn run(st: ParseState, lines: Seq<Seq<char>>) -> ParseState
    decreases lines.len(),
{
    if lines.len() == 0 {
        st
    } else {
        run(step(st, lines[0]), lines.drop_first())
    }
}

/// The cards of a document: every line fed in, then the last card emitted.
pub open spec fn parse_spec(lines: Seq<Seq<char>>, category: Seq<char>) -> Seq<CardView> {
    flushed(run(initial(category), lines)).out
}

/// The character sequences of a list of strings.
pub open spec fn lines_view(lines: Seq<String>) -> Seq<Seq<char>> {
    lines.map_values(|s: String| s@)
}

/// The views of a list of cards.
pub open spec fn cards_view(cards: Seq<Card>) -> Seq<CardView> {
    cards.map_values(|c: Card| c@)
}

/// Feeding two runs of lines one after the other is feeding their concatenation.
pub proof fn lemma_run_append(st: ParseState, a: Seq<Seq<char>>, b: Seq<Seq<char>>)
    ensures
        run(st, a + b) == run(run(st, a), b),
    decreases a.len(),
{
    if a.len() == 0 {
        assert(a + b =~= b);
    } else {
        assert((a + b).drop_first() =~= a.drop_first() + b);
        lemma_run_append(step(st, a[0]), a.drop_first(), b);
    }
}

/// Feeding one line is one step.
pub proof fn lemma_run_one(st: ParseState, l: Seq<char>)
    ensures
        run(st, seq![l]) == step(st, l),
{
    assert(seq![l].drop_first() =~= Seq::<Seq<char>>::empty());
    assert(run(step(st, l), Seq::<Seq<char>>::empty()) == step(st, l));
}

/// Feeding a line after a prefix is one step after the prefix.
pub proof fn lemma_run_push(st: ParseState, a: Seq<Seq<char>>, l: Seq<char>)
    ensures
        run(st, a.push(l)) == step(run(st, a), l),
{
    assert(a.push(l) =~= a + seq![l]);
    lemma_run_append(st, a, seq![l]);
    lemma_run_one(run(st, a), l);
}

/// The parser's state machine: one card in progress, the section its content
/// lines go to, and the finished cards.
pub struct CardParser {
    card: Card,
    section: Section,
    cards: Vec<Card>,
}

impl View for CardParser {
    type V = ParseState;

    closed spec fn view(&self) -> ParseState {
        ParseState { card: self.card@, section: self.section, out: cards_view(self.cards@) }
    }
}

impl CardParser {
    /// A parser before any line, for cards of the given category.
    pub fn new(category: &str) -> (r: CardParser)
        ensures
            r@ == initial(category@),
    {
        let r = CardParser { card: Card::with_category(category), section: Section::Title, cards: Vec::new() };
        assert(cards_view(r.cards@) =~= Seq::<CardView>::empty());
        r
    }

    /// Emits the card in progress when it holds content, rendered, and starts afresh.
    pub fn flush(&mut self)
        ensures
            final(self)@ == flushed(old(self)@),
    {
        if !self.card.is_empty() {
            self.card.convert();
            let done = self.card.duplicate();
            self.cards.push(done);
            self.card.clear();
            self.section = Section::Title;
            assert(cards_view(self.cards@) =~= cards_view(old(self).cards@).push(
                rendered(old(self).card@),
            ));
        }
    }

    /// Takes in one line of the document.
    pub fn feed(&mut self, line: &str)
        ensures
            final(self)@ == step(old(self)@, line@),
    {
        let n = line.unicode_len();
        if n >= 2 && line.get_char(0) == '#' && line.get_char(1) == ' ' {
            self.flush();
            let t = trimmed_from(line, 2);
            if !t.as_str().is_empty() {
                self.card.title = t;
            }
        } else if n >= 3 && line.get_char(0) == '#' && line.get_char(1) == '#' && line.get_char(2)
            == ' ' {
            self.section = self.section.advance();
        } else {
            let is_break = n == 1 && line.get_char(0) == '\n';
            proof {
                reveal_strlit("<br>");
                reveal_strlit("\n");
                if !is_break {
                    assert(line@ != seq!['\n']) by {
                        if line@ == seq!['\n'] {
                            assert(line@[0] == '\n');
                        }
                    }
                } else {
                    assert(line@ =~= seq!['\n']);
                }
            }
            let text: &str = if is_break { "<br>" } else { line };
            assert(text@ + "\n"@ =~= content_of(line@));
            match self.section {
                Section::Title => {},
                Section::Front => {
                    self.card.front.append(text);
                    self.card.front.append("\n");
                    assert(self.card.front@ =~= old(self).card.front@ + content_of(line@));
                },
                Section::Back => {
                    self.card.back.append(text);
                    self.card.back.append("\n");
                    assert(self.card.back@ =~= old(self).card.back@ + content_of(line@));
                },
            }
        }
    }

    /// Emits the last card and hands over every card, in document order.
    pub fn finish(self) -> (r: Vec<Card>)
        ensures
            cards_view(r@) == flushed(self@).out,
    {
        let mut p = self;
        p.flush();
        p.cards
    }
}

/// The cards of a document given as its lines, each stamped with `category`.
pub fn parse(lines: &Vec<String>, category: &str) -> (r: Vec<Card>)
    ensures
        cards_view(r@) == parse_spec(lines_view(lines@), category@),
{
    let mut p = CardParser::new(category);
    let mut i: usize = 0;
    while i < lines.len()
        invariant
            0 <= i <= lines@.len(),
            p@ == run(initial(category@), lines_view(lines@).take(i as int)),
        decreases lines@.len() - i,
    {
        proof {
            lemma_run_push(initial(category@), lines_view(lines@).take(i as int), lines@[i as int]@);
            assert(lines_view(lines@).take(i + 1) =~= lines_view(lines@).take(i as int).push(
                lines@[i as int]@,
            ));
        }
        p.feed(lines[i].as_str());
        i = i + 1;
    }
    assert(lines_view(lines@).take(i as int) =~= lines_view(lines@));
    p.finish()
}

} // verus!
