//! The generic markup tree that the translator produces, together with a
//! verified rendering of that tree as an HTML string.

use vstd::prelude::*;
use vstd::string::*;

use crate::HeadingLevel;

verus! {

/// One inline markup node.
pub enum MarkupInline {
    /// A literal text node.
    Text(String),
    /// A bold inline element wrapping literal text.
    Bold(String),
    /// An italic inline element wrapping literal text.
    Italic(String),
    /// An inline code element wrapping literal text; distinguished from block
    /// code by its node kind.
    Code(String),
    /// A hyperlink element: label wrapped, target as attribute.
    Link(String, String),
    /// An image element: alternate text and source as attributes, no children.
    Image(String, String),
}

/// One block-level markup node.
pub enum MarkupBlock {
    /// A heading element of the given rank, wrapping inline nodes.
    Heading(HeadingLevel, Vec<MarkupInline>),
    /// A paragraph element wrapping inline nodes.
    Paragraph(Vec<MarkupInline>),
    /// An ordered-list container wrapping one item per entry.
    OrderedList(Vec<Vec<MarkupInline>>),
    /// An unordered-list container wrapping one item per entry.
    UnorderedList(Vec<Vec<MarkupInline>>),
    /// A preformatted container wrapping a code element with the given class,
    /// holding the body verbatim.
    Preformatted(String, String),
    /// A bare literal text node at block level.
    Text(String),
    /// A node that renders as nothing.
    Empty,
}

/// The tree handed to a rendering collaborator.
pub struct MarkupTree {
    pub nodes: Vec<MarkupBlock>,
}

/// Mathematical model of an inline markup node.
pub ghost enum MarkupInlineModel {
    Text(Seq<char>),
    Bold(Seq<char>),
    Italic(Seq<char>),
    Code(Seq<char>),
    Link { label: Seq<char>, url: Seq<char> },
    Image { alt: Seq<char>, url: Seq<char> },
}

/// Mathematical model of a block-level markup node.
pub ghost enum MarkupBlockModel {
    Heading { rank: int, content: Seq<MarkupInlineModel> },
    Paragraph { content: Seq<MarkupInlineModel> },
    OrderedList { items: Seq<Seq<MarkupInlineModel>> },
    UnorderedList { items: Seq<Seq<MarkupInlineModel>> },
    Preformatted { class: Seq<char>, body: Seq<char> },
    Text(Seq<char>),
    Empty,
}

impl View for MarkupInline {
    type V = MarkupInlineModel;

    open spec fn view(&self) -> MarkupInlineModel {
        match self {
            MarkupInline::Text(t) => MarkupInlineModel::Text(t@),
            MarkupInline::Bold(t) => MarkupInlineModel::Bold(t@),
            MarkupInline::Italic(t) => MarkupInlineModel::Italic(t@),
            MarkupInline::Code(t) => MarkupInlineModel::Code(t@),
            MarkupInline::Link(label, url) => MarkupInlineModel::Link {
                label: label@,
                url: url@,
            },
            MarkupInline::Image(alt, url) => MarkupInlineModel::Image { alt: alt@, url: url@ },
        }
    }
}

/// The model of an inline markup node sequence.
pub open spec fn markup_text_model(t: Seq<MarkupInline>) -> Seq<MarkupInlineModel> {
    t.map(|i: int, s: MarkupInline| s@)
}

/// The model of a markup list's items.
pub open spec fn markup_items_model(v: Seq<Vec<MarkupInline>>) -> Seq<Seq<MarkupInlineModel>> {
    v.map(|i: int, t: Vec<MarkupInline>| markup_text_model(t@))
}

impl View for MarkupBlock {
    type V = MarkupBlockModel;

    open spec fn view(&self) -> MarkupBlockModel {
        match self {
            MarkupBlock::Heading(l, t) => MarkupBlockModel::Heading {
                rank: l@,
                content: markup_text_model(t@),
            },
            MarkupBlock::Paragraph(t) => MarkupBlockModel::Paragraph {
                content: markup_text_model(t@),
            },
            MarkupBlock::OrderedList(v) => MarkupBlockModel::OrderedList {
                items: markup_items_model(v@),
            },
            MarkupBlock::UnorderedList(v) => MarkupBlockModel::UnorderedList {
                items: markup_items_model(v@),
            },
            MarkupBlock::Preformatted(class, body) => MarkupBlockModel::Preformatted {
                class: class@,
                body: body@,
            },
            MarkupBlock::Text(t) => MarkupBlockModel::Text(t@),
            MarkupBlock::Empty => MarkupBlockModel::Empty,
        }
    }
}

impl View for MarkupTree {
    type V = Seq<MarkupBlockModel>;

    open spec fn view(&self) -> Seq<MarkupBlockModel> {
        self.nodes@.map(|i: int, b: MarkupBlock| b@)
    }
}

/// The HTML text of one inline node.
pub open spec fn render_inline_model(m: MarkupInlineModel) -> Seq<char> {
    match m {
        MarkupInlineModel::Text(t) => t,
        MarkupInlineModel::Bold(t) => "<b>"@ + t + "</b>"@,
        MarkupInlineModel::Italic(t) => "<i>"@ + t + "</i>"@,
        MarkupInlineModel::Code(t) => "<code>"@ + t + "</code>"@,
        MarkupInlineModel::Link { label, url } => "<a href=\""@ + url + "\">"@ + label + "</a>"@,
        MarkupInlineModel::Image { alt, url } => "<img src=\""@ + url + "\" alt=\""@ + alt
            + "\" />"@,
    }
}

/// The HTML text of an inline node sequence from position `i` on.
pub open spec fn render_text_model_from(t: Seq<MarkupInlineModel>, i: int) -> Seq<char>
    decreases t.len() - i,
{
    if i >= t.len() {
        Seq::empty()
    } else {
        render_inline_model(t[i]) + render_text_model_from(t, i + 1)
    }
}

/// The HTML text of an inline node sequence, concatenated in order.
pub open spec fn render_text_model(t: Seq<MarkupInlineModel>) -> Seq<char> {
    render_text_model_from(t, 0)
}

/// The HTML text of a list's items from position `i` on, one list-item
/// element per entry.
pub open spec fn render_items_model_from(items: Seq<Seq<MarkupInlineModel>>, i: int) -> Seq<char>
    decreases items.len() - i,
{
    if i >= items.len() {
        Seq::empty()
    } else {
        "<li>"@ + render_text_model(items[i]) + "</li>"@ + render_items_model_from(items, i + 1)
    }
}

/// The opening tag of a heading of the given rank.
pub open spec fn heading_open_tag(rank: int) -> Seq<char> {
    if rank == 1 {
        "<h1>"@
    } else if rank == 2 {
        "<h2>"@
    } else if rank == 3 {
        "<h3>"@
    } else if rank == 4 {
        "<h4>"@
    } else if rank == 5 {
        "<h5>"@
    } else {
        "<h6>"@
    }
}

/// The closing tag of a heading of the given rank.
pub open spec fn heading_close_tag(rank: int) -> Seq<char> {
    if rank == 1 {
        "</h1>"@
    } else if rank == 2 {
        "</h2>"@
    } else if rank == 3 {
        "</h3>"@
    } else if rank == 4 {
        "</h4>"@
    } else if rank == 5 {
        "</h5>"@
    } else {
        "</h6>"@
    }
}

/// The HTML text of one block-level node.
pub open spec fn render_block_model(b: MarkupBlockModel) -> Seq<char> {
    match b {
        MarkupBlockModel::Heading { rank, content } => heading_open_tag(rank) + render_text_model(
            content,
        ) + heading_close_tag(rank),
        MarkupBlockModel::Paragraph { content } => "<p>"@ + render_text_model(content) + "</p>"@,
        MarkupBlockModel::OrderedList { items } => "<ol>"@ + render_items_model_from(items, 0)
            + "</ol>"@,
        MarkupBlockModel::UnorderedList { items } => "<ul>"@ + render_items_model_from(items, 0)
            + "</ul>"@,
        MarkupBlockModel::Preformatted { class, body } => "<pre><code class=\""@ + class + "\">"@
            + body + "</code></pre>"@,
        MarkupBlockModel::Text(t) => t,
        MarkupBlockModel::Empty => Seq::empty(),
    }
}

/// The HTML text of a tree's nodes from position `i` on.
pub open spec fn render_doc_model_from(d: Seq<MarkupBlockModel>, i: int) -> Seq<char>
    decreases d.len() - i,
{
    if i >= d.len() {
        Seq::empty()
    } else {
        render_block_model(d[i]) + render_doc_model_from(d, i + 1)
    }
}

/// The HTML text of a whole tree, node by node in order.
pub open spec fn render_doc_model(d: Seq<MarkupBlockModel>) -> Seq<char> {
    render_doc_model_from(d, 0)
}

impl MarkupInline {
    /// This node as HTML text.
    pub fn to_html(&self) -> (r: String)
        ensures
            r@ == render_inline_model(self@),
    {
        match self {
            MarkupInline::Text(t) => t.clone(),
            MarkupInline::Bold(t) => {
                let mut s = "<b>".to_owned();
                s.append(t.as_str());
                s.append("</b>");
                proof {
                    assert(s@ =~= render_inline_model(self@));
                }
                s
            },
            MarkupInline::Italic(t) => {
                let mut s = "<i>".to_owned();
                s.append(t.as_str());
                s.append("</i>");
                proof {
                    assert(s@ =~= render_inline_model(self@));
                }
                s
            },
            MarkupInline::Code(t) => {
                let mut s = "<code>".to_owned();
                s.append(t.as_str());
                s.append("</code>");
                proof {
                    assert(s@ =~= render_inline_model(self@));
                }
                s
            },
            MarkupInline::Link(label, url) => {
                let mut s = "<a href=\"".to_owned();
                s.append(url.as_str());
                s.append("\">");
                s.append(label.as_str());
                s.append("</a>");
                proof {
                    assert(s@ =~= render_inline_model(self@));
                }
                s
            },
            MarkupInline::Image(alt, url) => {
                let mut s = "<img src=\"".to_owned();
                s.append(url.as_str());
                s.append("\" alt=\"");
                s.append(alt.as_str());
                s.append("\" />");
                proof {
                    assert(s@ =~= render_inline_model(self@));
                }
                s
            },
        }
    }
}

/// The HTML text of the inline nodes from position `i` on, appended to `acc`.
fn append_text_html(acc: &mut String, t: &Vec<MarkupInline>, i: usize)
    requires
        i <= t@.len(),
    ensures
        final(acc)@ == old(acc)@ + render_text_model_from(markup_text_model(t@), i as int),
    decreases t@.len() - i,
{
    if i == t.len() {
        proof {
            assert(acc@ =~= acc@ + render_text_model_from(markup_text_model(t@), i as int));
        }
    } else {
        let piece = t[i].to_html();
        acc.append(piece.as_str());
        append_text_html(acc, t, i + 1);
        proof {
            assert(acc@ =~= old(acc)@ + render_text_model_from(markup_text_model(t@), i as int));
        }
    }
}

/// A sequence of inline markup nodes as HTML text, concatenated in order.
pub fn markup_text_to_html(t: &Vec<MarkupInline>) -> (r: String)
    ensures
        r@ == render_text_model(markup_text_model(t@)),
{
    let mut s = String::new();
    append_text_html(&mut s, t, 0);
    proof {
        assert(s@ =~= render_text_model(markup_text_model(t@)));
    }
    s
}

/// The items from position `i` on as HTML text, each wrapped in a list-item
/// element, appended to `acc`.
fn append_items_html(acc: &mut String, items: &Vec<Vec<MarkupInline>>, i: usize)
    requires
        i <= items@.len(),
    ensures
        final(acc)@ == old(acc)@ + render_items_model_from(markup_items_model(items@), i as int),
    decreases items@.len() - i,
{
    if i == items.len() {
        proof {
            assert(acc@ =~= acc@ + render_items_model_from(markup_items_model(items@), i as int));
        }
    } else {
        acc.append("<li>");
        let piece = markup_text_to_html(&items[i]);
        acc.append(piece.as_str());
        acc.append("</li>");
        append_items_html(acc, items, i + 1);
        proof {
            assert(acc@ =~= old(acc)@ + render_items_model_from(
                markup_items_model(items@),
                i as int,
            ));
        }
    }
}

/// A sequence of list items as HTML text: one list-item element per entry,
/// in order.
pub fn list_items_to_html(items: &Vec<Vec<MarkupInline>>) -> (r: String)
    ensures
        r@ == render_items_model_from(markup_items_model(items@), 0),
{
    let mut s = String::new();
    append_items_html(&mut s, items, 0);
    proof {
        assert(s@ =~= render_items_model_from(markup_items_model(items@), 0));
    }
    s
}

impl MarkupBlock {
    /// This node as HTML text.
    pub fn to_html(&self) -> (r: String)
        ensures
            r@ == render_block_model(self@),
    {
        match self {
            MarkupBlock::Heading(level, content) => {
                let n = level.get();
                let open_tag: &str = if n == 1 {
                    "<h1>"
                } else if n == 2 {
                    "<h2>"
                } else if n == 3 {
                    "<h3>"
                } else if n == 4 {
                    "<h4>"
                } else if n == 5 {
                    "<h5>"
                } else {
                    "<h6>"
                };
                let close_tag: &str = if n == 1 {
                    "</h1>"
                } else if n == 2 {
                    "</h2>"
                } else if n == 3 {
                    "</h3>"
                } else if n == 4 {
                    "</h4>"
                } else if n == 5 {
                    "</h5>"
                } else {
                    "</h6>"
                };
                let mut s = open_tag.to_owned();
                let body = markup_text_to_html(content);
                s.append(body.as_str());
                s.append(close_tag);
                proof {
                    assert(s@ =~= render_block_model(self@));
                }
                s
            },
            MarkupBlock::Paragraph(content) => {
                let mut s = "<p>".to_owned();
                let body = markup_text_to_html(content);
                s.append(body.as_str());
                s.append("</p>");
                proof {
                    assert(s@ =~= render_block_model(self@));
                }
                s
            },
            MarkupBlock::OrderedList(items) => {
                let mut s = "<ol>".to_owned();
                let body = list_items_to_html(items);
                s.append(body.as_str());
                s.append("</ol>");
                proof {
                    assert(s@ =~= render_block_model(self@));
                }
                s
            },
            MarkupBlock::UnorderedList(items) => {
                let mut s = "<ul>".to_owned();
                let body = list_items_to_html(items);
                s.append(body.as_str());
                s.append("</ul>");
                proof {
                    assert(s@ =~= render_block_model(self@));
                }
                s
            },
            MarkupBlock::Preformatted(class, body) => {
                let mut s = "<pre><code class=\"".to_owned();
                s.append(class.as_str());
                s.append("\">");
                s.append(body.as_str());
                s.append("</code></pre>");
                proof {
                    assert(s@ =~= render_block_model(self@));
                }
                s
            },
            MarkupBlock::Text(t) => t.clone(),
            MarkupBlock::Empty => String::new(),
        }
    }
}

/// The nodes from position `i` on as HTML text, appended to `acc`.
fn append_doc_html(acc: &mut String, nodes: &Vec<MarkupBlock>, i: usize)
    requires
        i <= nodes@.len(),
    ensures
        final(acc)@ == old(acc)@ + render_doc_model_from(
            nodes@.map(|k: int, b: MarkupBlock| b@),
            i as int,
        ),
    decreases nodes@.len() - i,
{
    let ghost model = nodes@.map(|k: int, b: MarkupBlock| b@);
    if i == nodes.len() {
        proof {
            assert(acc@ =~= acc@ + render_doc_model_from(model, i as int));
        }
    } else {
        let piece = nodes[i].to_html();
        acc.append(piece.as_str());
        append_doc_html(acc, nodes, i + 1);
        proof {
            assert(acc@ =~= old(acc)@ + render_doc_model_from(model, i as int));
        }
    }
}

impl MarkupTree {
    /// The whole tree as HTML text, node by node in order.
    pub fn to_html(&self) -> (r: String)
        ensures
            r@ == render_doc_model(self@),
    {
        let mut s = String::new();
        append_doc_html(&mut s, &self.nodes, 0);
        proof {
            assert(s@ =~= render_doc_model(self@));
        }
        s
    }
}

} // verus!
