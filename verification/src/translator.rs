//! The translator: a pure structural fold from the document model to the
//! markup tree. Each block maps to one markup node and each inline span to
//! one inline markup node, in input order.

use vstd::prelude::*;
use vstd::string::*;

use crate::markup::{
    markup_items_model, markup_text_model, MarkupBlock, MarkupBlockModel, MarkupInline,
    MarkupInlineModel, MarkupTree,
};
use crate::{
    doc_model, items_model, text_model, BlockModel, HeadingLevel, InlineModel, Markdown,
    MarkdownInline, MarkdownText,
};

verus! {

/// How one inline span maps to an inline markup node.
pub open spec fn translate_inline_model(s: InlineModel) -> MarkupInlineModel {
    match s {
        InlineModel::Bold(t) => MarkupInlineModel::Bold(t),
        InlineModel::Italic(t) => MarkupInlineModel::Italic(t),
        InlineModel::InlineCode(t) => MarkupInlineModel::Code(t),
        InlineModel::Link { label, url } => MarkupInlineModel::Link { label, url },
        InlineModel::Image { alt, url } => MarkupInlineModel::Image { alt, url },
        InlineModel::Plaintext(t) => MarkupInlineModel::Text(t),
    }
}

/// How an inline-span sequence maps, order preserved.
pub open spec fn translate_text_model(t: Seq<InlineModel>) -> Seq<MarkupInlineModel> {
    t.map(|i: int, s: InlineModel| translate_inline_model(s))
}

/// How a list's items map, one list item per entry.
pub open spec fn translate_items_model(items: Seq<Seq<InlineModel>>) -> Seq<
    Seq<MarkupInlineModel>,
> {
    items.map(|i: int, t: Seq<InlineModel>| translate_text_model(t))
}

/// The class a code block's language tag turns into: a fixed prefix plus the
/// tag, verbatim.
pub open spec fn class_model(language: Seq<char>) -> Seq<char> {
    "lang-"@ + language
}

/// How one block maps to one markup node.
pub open spec fn translate_block_model(b: BlockModel) -> MarkupBlockModel {
    match b {
        BlockModel::Heading { level, text } => MarkupBlockModel::Heading {
            rank: level,
            content: translate_text_model(text),
        },
        BlockModel::OrderedList { items } => MarkupBlockModel::OrderedList {
            items: translate_items_model(items),
        },
        BlockModel::UnorderedList { items } => MarkupBlockModel::UnorderedList {
            items: translate_items_model(items),
        },
        BlockModel::Line { text } => if text.len() == 0 {
            MarkupBlockModel::Empty
        } else {
            MarkupBlockModel::Paragraph { content: translate_text_model(text) }
        },
        BlockModel::Codeblock { language, body } => MarkupBlockModel::Preformatted {
            class: class_model(language),
            body,
        },
    }
}

/// How a whole document maps, block order preserved.
pub open spec fn translate_doc_model(d: Seq<BlockModel>) -> Seq<MarkupBlockModel> {
    d.map(|i: int, b: BlockModel| translate_block_model(b))
}

/// A bold span becomes a bold inline element wrapping its text.
pub fn translate_boldtext(boldtext: String) -> (r: MarkupInline)
    ensures
        r@ == MarkupInlineModel::Bold(boldtext@),
{
    MarkupInline::Bold(boldtext)
}

/// An italic span becomes an italic inline element wrapping its text.
pub fn translate_italic(italic: String) -> (r: MarkupInline)
    ensures
        r@ == MarkupInlineModel::Italic(italic@),
{
    MarkupInline::Italic(italic)
}

/// An inline code span becomes an inline code element wrapping its text.
pub fn translate_inline_code(code: String) -> (r: MarkupInline)
    ensures
        r@ == MarkupInlineModel::Code(code@),
{
    MarkupInline::Code(code)
}

/// A link span becomes a hyperlink element with the url as target.
pub fn translate_link(text: String, url: String) -> (r: MarkupInline)
    ensures
        r@ == (MarkupInlineModel::Link { label: text@, url: url@ }),
{
    MarkupInline::Link(text, url)
}

/// An image span becomes an image element with source and alternate text.
pub fn translate_image(text: String, url: String) -> (r: MarkupInline)
    ensures
        r@ == (MarkupInlineModel::Image { alt: text@, url: url@ }),
{
    MarkupInline::Image(text, url)
}

/// One inline span, translated without consuming it.
fn translate_inline_ref(s: &MarkdownInline) -> (r: MarkupInline)
    ensures
        r@ == translate_inline_model(s@),
{
    match s {
        MarkdownInline::Bold(t) => translate_boldtext(t.clone()),
        MarkdownInline::Italic(t) => translate_italic(t.clone()),
        MarkdownInline::InlineCode(t) => translate_inline_code(t.clone()),
        MarkdownInline::Link(label, url) => translate_link(label.clone(), url.clone()),
        MarkdownInline::Image(alt, url) => translate_image(alt.clone(), url.clone()),
        MarkdownInline::Plaintext(t) => MarkupInline::Text(t.clone()),
    }
}

/// The spans of one block from position `i` on, translated in order.
fn translate_text_from(text: &Vec<MarkdownInline>, i: usize) -> (r: Vec<MarkupInline>)
    requires
        i <= text@.len(),
    ensures
        r@.len() == text@.len() - i,
        forall|k: int|
            0 <= k < r@.len() ==> (#[trigger] r@[k])@ == translate_inline_model(
                text@[i + k]@,
            ),
    decreases text@.len() - i,
{
    if i == text.len() {
        Vec::new()
    } else {
        let first = translate_inline_ref(&text[i]);
        let mut rest = translate_text_from(text, i + 1);
        let mut v: Vec<MarkupInline> = Vec::new();
        v.push(first);
        v.append(&mut rest);
        v
    }
}

/// An inline-span sequence becomes the corresponding inline markup nodes, in
/// the same order, one node per span.
pub fn translate_text(text: MarkdownText) -> (r: Vec<MarkupInline>)
    ensures
        markup_text_model(r@) == translate_text_model(text_model(text@)),
        r@.len() == text@.len(),
{
    let r = translate_text_from(&text, 0);
    proof {
        assert(markup_text_model(r@) =~= translate_text_model(text_model(text@)));
    }
    r
}

/// The items of a list from position `i` on, each translated in order.
fn translate_items_from(lines: &Vec<MarkdownText>, i: usize) -> (r: Vec<Vec<MarkupInline>>)
    requires
        i <= lines@.len(),
    ensures
        r@.len() == lines@.len() - i,
        forall|k: int|
            0 <= k < r@.len() ==> markup_text_model((#[trigger] r@[k])@) == translate_text_model(
                text_model(lines@[i + k]@),
            ),
    decreases lines@.len() - i,
{
    if i == lines.len() {
        Vec::new()
    } else {
        let first = translate_text_from(&lines[i], 0);
        proof {
            assert(markup_text_model(first@) =~= translate_text_model(text_model(lines@[i as int]@)));
        }
        let mut rest = translate_items_from(lines, i + 1);
        let mut v: Vec<Vec<MarkupInline>> = Vec::new();
        v.push(first);
        v.append(&mut rest);
        v
    }
}

/// A list's entries become list items, one per entry, in order.
pub fn translate_list_elements(lines: Vec<MarkdownText>) -> (r: Vec<Vec<MarkupInline>>)
    ensures
        markup_items_model(r@) == translate_items_model(items_model(lines@)),
        r@.len() == lines@.len(),
{
    let r = translate_items_from(&lines, 0);
    proof {
        assert(markup_items_model(r@) =~= translate_items_model(items_model(lines@)));
    }
    r
}

/// A heading becomes a heading element of the same rank wrapping its text.
pub fn translate_heading(size: HeadingLevel, text: MarkdownText) -> (r: MarkupBlock)
    ensures
        r@ == translate_block_model(
            BlockModel::Heading { level: size@, text: text_model(text@) },
        ),
{
    MarkupBlock::Heading(size, translate_text(text))
}

/// An unordered list becomes an unordered-list container.
pub fn translate_unordered_list(lines: Vec<MarkdownText>) -> (r: MarkupBlock)
    ensures
        r@ == translate_block_model(BlockModel::UnorderedList { items: items_model(lines@) }),
{
    MarkupBlock::UnorderedList(translate_list_elements(lines))
}

/// An ordered list becomes an ordered-list container.
pub fn translate_ordered_list(lines: Vec<MarkdownText>) -> (r: MarkupBlock)
    ensures
        r@ == translate_block_model(BlockModel::OrderedList { items: items_model(lines@) }),
{
    MarkupBlock::OrderedList(translate_list_elements(lines))
}

/// A code block becomes a preformatted container whose code element carries
/// the fixed class prefix plus the language tag, body verbatim.
pub fn translate_codeblock(lang: String, code: String) -> (r: MarkupBlock)
    ensures
        r@ == translate_block_model(BlockModel::Codeblock { language: lang@, body: code@ }),
{
    let mut class = "lang-".to_owned();
    class.append(lang.as_str());
    MarkupBlock::Preformatted(class, code)
}

/// A paragraph line becomes a paragraph element; an empty line becomes a node
/// that renders as nothing.
pub fn translate_line(text: MarkdownText) -> (r: MarkupBlock)
    ensures
        r@ == translate_block_model(BlockModel::Line { text: text_model(text@) }),
{
    if text.len() == 0 {
        MarkupBlock::Empty
    } else {
        MarkupBlock::Paragraph(translate_text(text))
    }
}

/// One block, translated without consuming it.
fn translate_block_ref(md: &Markdown) -> (r: MarkupBlock)
    ensures
        r@ == translate_block_model(md@),
{
    match md {
        Markdown::Heading(size, line) => {
            let content = translate_text_from(line, 0);
            proof {
                assert(markup_text_model(content@) =~= translate_text_model(text_model(line@)));
            }
            MarkupBlock::Heading(*size, content)
        },
        Markdown::UnorderedList(lines) => {
            let items = translate_items_from(lines, 0);
            proof {
                assert(markup_items_model(items@) =~= translate_items_model(items_model(lines@)));
            }
            MarkupBlock::UnorderedList(items)
        },
        Markdown::OrderedList(lines) => {
            let items = translate_items_from(lines, 0);
            proof {
                assert(markup_items_model(items@) =~= translate_items_model(items_model(lines@)));
            }
            MarkupBlock::OrderedList(items)
        },
        Markdown::Codeblock(lang, code) => translate_codeblock(lang.clone(), code.clone()),
        Markdown::Line(line) => {
            if line.len() == 0 {
                MarkupBlock::Empty
            } else {
                let content = translate_text_from(line, 0);
                proof {
                    assert(markup_text_model(content@) =~= translate_text_model(
                        text_model(line@),
                    ));
                }
                MarkupBlock::Paragraph(content)
            }
        },
    }
}

/// The blocks from position `i` on, each translated in order.
fn translate_from(md: &Vec<Markdown>, i: usize) -> (r: Vec<MarkupBlock>)
    requires
        i <= md@.len(),
    ensures
        r@.len() == md@.len() - i,
        forall|k: int|
            0 <= k < r@.len() ==> (#[trigger] r@[k])@ == translate_block_model(md@[i + k]@),
    decreases md@.len() - i,
{
    if i == md.len() {
        Vec::new()
    } else {
        let first = translate_block_ref(&md[i]);
        let mut rest = translate_from(md, i + 1);
        let mut v: Vec<MarkupBlock> = Vec::new();
        v.push(first);
        v.append(&mut rest);
        v
    }
}

/// The whole document, folded block by block into the markup tree: one markup
/// node per block, in document order.
pub fn translate(md: Vec<Markdown>) -> (r: MarkupTree)
    ensures
        r@ == translate_doc_model(doc_model(md@)),
        r@.len() == md@.len(),
{
    let nodes = translate_from(&md, 0);
    let r = MarkupTree { nodes };
    proof {
        assert(r@ =~= translate_doc_model(doc_model(md@)));
    }
    r
}

/// Every heading of a rank in 1..=6 translates to a heading node of the same
/// rank wrapping the translation of its text; a plain text heading wraps
/// exactly its literal text.
pub proof fn lemma_heading_translation(level: int, s: Seq<char>)
    requires
        1 <= level <= 6,
    ensures
        translate_block_model(
            BlockModel::Heading { level, text: seq![InlineModel::Plaintext(s)] },
        ) == (MarkupBlockModel::Heading {
            rank: level,
            content: seq![MarkupInlineModel::Text(s)],
        }),
{
    assert(translate_text_model(seq![InlineModel::Plaintext(s)]) =~= seq![
        MarkupInlineModel::Text(s),
    ]);
}

/// An empty line translates to the node that renders as nothing; a non-empty
/// line translates to a paragraph wrapping its translated text.
pub proof fn lemma_line_translation(text: Seq<InlineModel>)
    ensures
        text.len() == 0 ==> translate_block_model(BlockModel::Line { text })
            == MarkupBlockModel::Empty,
        text.len() > 0 ==> translate_block_model(BlockModel::Line { text })
            == (MarkupBlockModel::Paragraph { content: translate_text_model(text) }),
{
}

/// List mapping wraps exactly one list item per entry, in the original order.
pub proof fn lemma_list_item_mapping(items: Seq<Seq<InlineModel>>)
    ensures
        translate_block_model(BlockModel::UnorderedList { items })
            matches MarkupBlockModel::UnorderedList { items: out } && out.len() == items.len()
            && forall|i: int| 0 <= i < items.len() ==> out[i] == translate_text_model(items[i]),
        translate_block_model(BlockModel::OrderedList { items })
            matches MarkupBlockModel::OrderedList { items: out } && out.len() == items.len()
            && forall|i: int| 0 <= i < items.len() ==> out[i] == translate_text_model(items[i]),
{
}

/// Inline translation preserves concatenation order exactly: one output node
/// per input span, at the same position.
pub proof fn lemma_inline_order_preserved(text: Seq<InlineModel>)
    ensures
        translate_text_model(text).len() == text.len(),
        forall|i: int|
            0 <= i < text.len() ==> translate_text_model(text)[i] == translate_inline_model(
                text[i],
            ),
{
}

} // verus!
