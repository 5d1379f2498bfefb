//! A restricted markdown dialect, parsed into a typed document model and
//! translated into a generic markup tree that a renderer can consume.
//!
//! The pipeline has two stages: [`parser::parse`] turns raw text into a
//! `Vec<Markdown>` (the document), and [`translator::translate`] folds that
//! document into a [`markup::MarkupTree`]. [`process`] runs both and never
//! fails: a parse failure becomes a fixed fallback text node.
#![allow(unused_imports)]

use vstd::prelude::*;

pub mod markup;
pub mod parser;
pub mod translator;

verus! {

/// The inline-span content of one block, ordered left to right as in the input.
pub type MarkdownText = Vec<MarkdownInline>;

/// A heading rank, guaranteed to lie in 1..=6 by construction.
#[derive(Clone, Copy)]
pub struct HeadingLevel {
    level: u8,
}

impl View for HeadingLevel {
    type V = int;

    closed spec fn view(&self) -> int {
        self.level as int
    }
}

impl HeadingLevel {
    /// Every value of this type carries a rank in 1..=6.
    #[verifier::type_invariant]
    pub closed spec fn wf(self) -> bool {
        1 <= self.level <= 6
    }

    /// Smart constructor: accepts exactly the ranks 1..=6.
    pub fn new(level: u8) -> (r: Option<HeadingLevel>)
        ensures
            1 <= level <= 6 ==> (r matches Some(h) && h@ == level as int),
            !(1 <= level <= 6) ==> r is None,
    {
        if 1 <= level && level <= 6 {
            Some(HeadingLevel { level })
        } else {
            None
        }
    }

    /// Constructor for callers that have already established the range.
    pub(crate) fn of_rank(level: u8) -> (r: HeadingLevel)
        requires
            1 <= level <= 6,
        ensures
            r@ == level as int,
    {
        HeadingLevel { level }
    }

    /// The rank as a machine integer; always in 1..=6.
    pub fn get(&self) -> (r: u8)
        ensures
            r as int == self@,
            1 <= r <= 6,
    {
        proof {
            use_type_invariant(self);
        }
        self.level
    }
}

/// One formatted or literal run of text inside a block.
pub enum MarkdownInline {
    Link(String, String),
    Image(String, String),
    InlineCode(String),
    Bold(String),
    Italic(String),
    Plaintext(String),
}

/// One top-level markdown construct.
pub enum Markdown {
    Heading(HeadingLevel, MarkdownText),
    OrderedList(Vec<MarkdownText>),
    UnorderedList(Vec<MarkdownText>),
    Line(MarkdownText),
    Codeblock(String, String),
}

/// Mathematical model of an inline span: strings as character sequences.
pub ghost enum InlineModel {
    Link { label: Seq<char>, url: Seq<char> },
    Image { alt: Seq<char>, url: Seq<char> },
    InlineCode(Seq<char>),
    Bold(Seq<char>),
    Italic(Seq<char>),
    Plaintext(Seq<char>),
}

/// Mathematical model of a block.
pub ghost enum BlockModel {
    Heading { level: int, text: Seq<InlineModel> },
    OrderedList { items: Seq<Seq<InlineModel>> },
    UnorderedList { items: Seq<Seq<InlineModel>> },
    Line { text: Seq<InlineModel> },
    Codeblock { language: Seq<char>, body: Seq<char> },
}

impl View for MarkdownInline {
    type V = InlineModel;

    open spec fn view(&self) -> InlineModel {
        match self {
            MarkdownInline::Link(label, url) => InlineModel::Link { label: label@, url: url@ },
            MarkdownInline::Image(alt, url) => InlineModel::Image { alt: alt@, url: url@ },
            MarkdownInline::InlineCode(t) => InlineModel::InlineCode(t@),
            MarkdownInline::Bold(t) => InlineModel::Bold(t@),
            MarkdownInline::Italic(t) => InlineModel::Italic(t@),
            MarkdownInline::Plaintext(t) => InlineModel::Plaintext(t@),
        }
    }
}

/// The model of an inline-span sequence.
pub open spec fn text_model(t: Seq<MarkdownInline>) -> Seq<InlineModel> {
    t.map(|i: int, s: MarkdownInline| s@)
}

/// The model of a list's items.
pub open spec fn items_model(v: Seq<MarkdownText>) -> Seq<Seq<InlineModel>> {
    v.map(|i: int, t: MarkdownText| text_model(t@))
}

impl View for Markdown {
    type V = BlockModel;

    open spec fn view(&self) -> BlockModel {
        match self {
            Markdown::Heading(l, t) => BlockModel::Heading { level: l@, text: text_model(t@) },
            Markdown::OrderedList(v) => BlockModel::OrderedList { items: items_model(v@) },
            Markdown::UnorderedList(v) => BlockModel::UnorderedList { items: items_model(v@) },
            Markdown::Line(t) => BlockModel::Line { text: text_model(t@) },
            Markdown::Codeblock(lang, body) => BlockModel::Codeblock {
                language: lang@,
                body: body@,
            },
        }
    }
}

/// The model of a whole document.
pub open spec fn doc_model(d: Seq<Markdown>) -> Seq<BlockModel> {
    d.map(|i: int, b: Markdown| b@)
}

/// The whole pipeline; it never fails. A parsable input is parsed and
/// translated; on a parse failure the result is exactly one fixed fallback
/// text node carrying a human-readable hint.
pub fn process(md: &str) -> (r: markup::MarkupTree)
    ensures
        parser::spec_parse(md@) matches Some(d) ==> r@ == translator::translate_doc_model(d),
        parser::spec_parse(md@) is None ==> r@ == seq![
            markup::MarkupBlockModel::Text(
                "Failed to parse markdown, make sure it ends with '\\n'."@,
            ),
        ],
{
    match parser::parse(md) {
        Ok(doc) => translator::translate(doc),
        Err(_) => {
            let msg = "Failed to parse markdown, make sure it ends with '\\n'.".to_owned();
            let mut nodes: Vec<markup::MarkupBlock> = Vec::new();
            nodes.push(markup::MarkupBlock::Text(msg));
            let t = markup::MarkupTree { nodes };
            proof {
                assert(t@ =~= seq![
                    markup::MarkupBlockModel::Text(
                        "Failed to parse markdown, make sure it ends with '\\n'."@,
                    ),
                ]);
            }
            t
        },
    }
}

} // verus!
