use vstd::prelude::*;

use crate::card::{html_of, is_filled, rendered, CardView};
use crate::parser::{
    content_of, flushed, heading_title, initial, is_heading, is_subheading, lemma_run_append,
    lemma_run_push, line_break, parse_spec, run, step, ParseState, Section,
};
use crate::text::{is_space, lemma_trim_all_space, lemma_trim_trimmed};

verus! {

/// Rendering is a function of the text: equal texts give equal HTML.
pub proof fn lemma_render_deterministic(a: Seq<char>, b: Seq<char>)
    requires
        a == b,
    ensures
        html_of(a) == html_of(b),
{
}

/// No line of the document is a heading line.
pub open spec fn has_no_heading(lines: Seq<Seq<char>>) -> bool {
    forall|i: int| 0 <= i < lines.len() ==> !is_heading(#[trigger] lines[i])
}

proof fn lemma_run_untitled(st: ParseState, lines: Seq<Seq<char>>)
    requires
        has_no_heading(lines),
        st.card.title.len() == 0,
        st.out.len() == 0,
    ensures
        run(st, lines).card.title.len() == 0,
        run(st, lines).out.len() == 0,
    decreases lines.len(),
{
    if lines.len() > 0 {
        assert(!is_heading(lines[0]));
        let rest = lines.drop_first();
        assert forall|i: int| 0 <= i < rest.len() implies !is_heading(#[trigger] rest[i]) by {
            assert(rest[i] == lines[i + 1]);
        }
        lemma_run_untitled(step(st, lines[0]), rest);
    }
}

/// A document without heading lines has no cards.
pub proof fn lemma_no_heading_no_cards(lines: Seq<Seq<char>>, category: Seq<char>)
    requires
        has_no_heading(lines),
    ensures
        parse_spec(lines, category) == Seq::<CardView>::empty(),
{
    lemma_run_untitled(initial(category), lines);
    assert(parse_spec(lines, category) =~= Seq::<CardView>::empty());
}

/// The heading line `# ` followed by `text`.
pub open spec fn heading_line(text: Seq<char>) -> Seq<char> {
    seq!['#', ' '] + text
}

/// The subheading line `## `.
pub open spec fn subheading_line() -> Seq<char> {
    seq!['#', '#', ' ']
}

/// A line that is content: neither heading nor subheading, nor a lone newline.
pub open spec fn is_plain(l: Seq<char>) -> bool {
    !is_heading(l) && !is_subheading(l) && l != seq!['\n']
}

/// Every line of the list is content.
pub open spec fn all_plain(lines: Seq<Seq<char>>) -> bool {
    forall|i: int| 0 <= i < lines.len() ==> is_plain(#[trigger] lines[i])
}

/// The text that content lines make: each line followed by a newline.
pub open spec fn joined(lines: Seq<Seq<char>>) -> Seq<char>
    decreases lines.len(),
{
    if lines.len() == 0 {
        Seq::empty()
    } else {
        lines[0].push('\n') + joined(lines.drop_first())
    }
}

/// One card as written in a document: a title, and the lines of its front
/// and of its back.
pub struct Block {
    pub title: Seq<char>,
    pub front: Seq<Seq<char>>,
    pub back: Seq<Seq<char>>,
}

/// A block that the parser reads back exactly: a title without white space at
/// its ends, and at least one content line on each side.
pub open spec fn block_ok(b: Block) -> bool {
    &&& b.title.len() > 0
    &&& !is_space(b.title[0])
    &&& !is_space(b.title.last())
    &&& b.front.len() > 0
    &&& b.back.len() > 0
    &&& all_plain(b.front)
    &&& all_plain(b.back)
}

/// The lines of a block: `# T`, `## `, the front, `## `, the back.
pub open spec fn block_lines(b: Block) -> Seq<Seq<char>> {
    seq![heading_line(b.title), subheading_line()] + b.front + seq![subheading_line()] + b.back
}

/// The lines of a document made of the given blocks, in order.
pub open spec fn document(blocks: Seq<Block>) -> Seq<Seq<char>>
    decreases blocks.len(),
{
    if blocks.len() == 0 {
        Seq::empty()
    } else {
        block_lines(blocks[0]) + document(blocks.drop_first())
    }
}

/// The card that a block becomes.
pub open spec fn block_card(b: Block, category: Seq<char>) -> CardView {
    CardView {
        title: b.title,
        front: html_of(joined(b.front)),
        back: html_of(joined(b.back)),
        category,
    }
}

/// The cards that the blocks become, in order.
pub open spec fn block_cards(blocks: Seq<Block>, category: Seq<char>) -> Seq<CardView> {
    blocks.map_values(|b: Block| block_card(b, category))
}

proof fn lemma_run_front(st: ParseState, lines: Seq<Seq<char>>)
    requires
        st.section == Section::Front,
        all_plain(lines),
    ensures
        run(st, lines) == (ParseState {
            card: CardView {
                title: st.card.title,
                front: st.card.front + joined(lines),
                back: st.card.back,
                category: st.card.category,
            },
            section: st.section,
            out: st.out,
        }),
    decreases lines.len(),
{
    if lines.len() == 0 {
        assert(st.card.front + joined(lines) =~= st.card.front);
    } else {
        let rest = lines.drop_first();
        assert(is_plain(lines[0]));
        assert forall|i: int| 0 <= i < rest.len() implies is_plain(#[trigger] rest[i]) by {
            assert(rest[i] == lines[i + 1]);
        }
        let s1 = step(st, lines[0]);
        assert(content_of(lines[0]) == lines[0].push('\n'));
        lemma_run_front(s1, rest);
        assert(s1.card.front + joined(rest) =~= st.card.front + joined(lines));
    }
}

proof fn lemma_run_back(st: ParseState, lines: Seq<Seq<char>>)
    requires
        st.section == Section::Back,
        all_plain(lines),
    ensures
        run(st, lines) == (ParseState {
            card: CardView {
                title: st.card.title,
                front: st.card.front,
                back: st.card.back + joined(lines),
                category: st.card.category,
            },
            section: st.section,
            out: st.out,
        }),
    decreases lines.len(),
{
    if lines.len() == 0 {
        assert(st.card.back + joined(lines) =~= st.card.back);
    } else {
        let rest = lines.drop_first();
        assert(is_plain(lines[0]));
        assert forall|i: int| 0 <= i < rest.len() implies is_plain(#[trigger] rest[i]) by {
            assert(rest[i] == lines[i + 1]);
        }
        let s1 = step(st, lines[0]);
        assert(content_of(lines[0]) == lines[0].push('\n'));
        lemma_run_back(s1, rest);
        assert(s1.card.back + joined(rest) =~= st.card.back + joined(lines));
    }
}

proof fn lemma_joined_nonempty(lines: Seq<Seq<char>>)
    requires
        lines.len() > 0,
    ensures
        joined(lines).len() > 0,
{
    assert(joined(lines) == lines[0].push('\n') + joined(lines.drop_first()));
}

/// A state from which a block reads cleanly: its card holds content, or it
/// is blank and waits for a title.
pub open spec fn ready(st: ParseState) -> bool {
    is_filled(st.card) || (st.card.title.len() == 0 && st.card.front.len() == 0
        && st.card.back.len() == 0 && st.section == Section::Title)
}

proof fn lemma_run_block(st: ParseState, b: Block)
    requires
        ready(st),
        block_ok(b),
    ensures
        run(st, block_lines(b)) == (ParseState {
            card: CardView {
                title: b.title,
                front: joined(b.front),
                back: joined(b.back),
                category: st.card.category,
            },
            section: Section::Back,
            out: flushed(st).out,
        }),
{
    let h = heading_line(b.title);
    let sh = subheading_line();
    assert(is_heading(h));
    assert(h.subrange(2, h.len() as int) =~= b.title);
    lemma_trim_trimmed(b.title);
    assert(heading_title(h) == b.title);
    let s1 = step(st, h);
    assert(s1 == ParseState {
        card: CardView {
            title: b.title,
            front: Seq::empty(),
            back: Seq::empty(),
            category: st.card.category,
        },
        section: Section::Title,
        out: flushed(st).out,
    }) by {
        assert(s1.card.front =~= Seq::<char>::empty());
        assert(s1.card.back =~= Seq::<char>::empty());
    }
    assert(!is_heading(sh) && is_subheading(sh));
    let s2 = step(s1, sh);
    let s3 = run(s2, b.front);
    lemma_run_front(s2, b.front);
    assert(Seq::<char>::empty() + joined(b.front) =~= joined(b.front));
    let s4 = step(s3, sh);
    lemma_run_back(s4, b.back);
    assert(Seq::<char>::empty() + joined(b.back) =~= joined(b.back));
    assert(block_lines(b) =~= seq![h] + (seq![sh] + (b.front + (seq![sh] + b.back))));
    lemma_run_append(st, seq![h], seq![sh] + (b.front + (seq![sh] + b.back)));
    lemma_run_push(st, Seq::empty(), h);
    assert(Seq::<Seq<char>>::empty().push(h) =~= seq![h]);
    lemma_run_append(s1, seq![sh], b.front + (seq![sh] + b.back));
    lemma_run_push(s1, Seq::empty(), sh);
    assert(Seq::<Seq<char>>::empty().push(sh) =~= seq![sh]);
    lemma_run_append(s2, b.front, seq![sh] + b.back);
    lemma_run_append(s3, seq![sh], b.back);
    lemma_run_push(s3, Seq::empty(), sh);
}

proof fn lemma_run_document(st: ParseState, blocks: Seq<Block>, category: Seq<char>)
    requires
        ready(st),
        st.card.category == category,
        forall|i: int| 0 <= i < blocks.len() ==> block_ok(#[trigger] blocks[i]),
    ensures
        flushed(run(st, document(blocks))).out == flushed(st).out + block_cards(blocks, category),
    decreases blocks.len(),
{
    if blocks.len() == 0 {
        assert(flushed(st).out + block_cards(blocks, category) =~= flushed(st).out);
    } else {
        let b = blocks[0];
        let rest = blocks.drop_first();
        assert(block_ok(b));
        assert forall|i: int| 0 <= i < rest.len() implies block_ok(#[trigger] rest[i]) by {
            assert(rest[i] == blocks[i + 1]);
        }
        lemma_run_append(st, block_lines(b), document(rest));
        lemma_run_block(st, b);
        let s1 = run(st, block_lines(b));
        lemma_joined_nonempty(b.front);
        assert(is_filled(s1.card));
        lemma_run_document(s1, rest, category);
        assert(rendered(s1.card) == block_card(b, category));
        assert(block_cards(blocks, category) =~= seq![block_card(b, category)] + block_cards(
            rest,
            category,
        ));
        assert(flushed(st).out + block_cards(blocks, category) =~= flushed(st).out.push(
            block_card(b, category),
        ) + block_cards(rest, category));
    }
}

/// A document of well-formed blocks gives one card per block, in order, with
/// the block's title and its front and back rendered.
pub proof fn lemma_blocks_to_cards(blocks: Seq<Block>, category: Seq<char>)
    requires
        forall|i: int| 0 <= i < blocks.len() ==> block_ok(#[trigger] blocks[i]),
    ensures
        parse_spec(document(blocks), category) == block_cards(blocks, category),
{
    let st = initial(category);
    lemma_run_document(st, blocks, category);
    assert(flushed(st).out + block_cards(blocks, category) =~= block_cards(blocks, category));
}

/// A heading line with nothing but white space after `# ` sets no title, yet
/// emits the card in progress when it holds content and starts afresh.
pub proof fn lemma_blank_heading_flushes(
    lines: Seq<Seq<char>>,
    category: Seq<char>,
    blank: Seq<char>,
)
    requires
        forall|k: int| 0 <= k < blank.len() ==> is_space(#[trigger] blank[k]),
    ensures
        run(initial(category), lines.push(heading_line(blank))) == flushed(
            run(initial(category), lines),
        ),
{
    let h = heading_line(blank);
    lemma_run_push(initial(category), lines, h);
    assert(is_heading(h));
    assert(h.subrange(2, h.len() as int) =~= blank);
    lemma_trim_all_space(blank);
}

/// A line made of one newline adds the line break marker and a newline to
/// the front or back that the parse is filling.
pub proof fn lemma_lone_newline_breaks(lines: Seq<Seq<char>>, category: Seq<char>)
    ensures
        ({
            let before = run(initial(category), lines);
            let after = run(initial(category), lines.push(seq!['\n']));
            &&& before.section == Section::Front ==> after.card.front == before.card.front
                + line_break().push('\n')
            &&& before.section == Section::Back ==> after.card.back == before.card.back
                + line_break().push('\n')
        }),
{
    lemma_run_push(initial(category), lines, seq!['\n']);
    assert(!is_heading(seq!['\n']) && !is_subheading(seq!['\n']));
}

} // verus!
