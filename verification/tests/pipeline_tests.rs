use markdown_markup::parser::parse;
use markdown_markup::process;
use markdown_markup::translator::translate;
use markdown_markup::{Markdown, MarkdownInline};

const FALLBACK: &str = "Failed to parse markdown, make sure it ends with '\\n'.";

fn plaintexts(spans: &[MarkdownInline]) -> Vec<String> {
    spans
        .iter()
        .map(|s| match s {
            MarkdownInline::Plaintext(t) => t.clone(),
            other => panic!("expected plaintext, got {:?}", span_kind(other)),
        })
        .collect()
}

fn span_kind(s: &MarkdownInline) -> &'static str {
    match s {
        MarkdownInline::Link(_, _) => "link",
        MarkdownInline::Image(_, _) => "image",
        MarkdownInline::InlineCode(_) => "inline code",
        MarkdownInline::Bold(_) => "bold",
        MarkdownInline::Italic(_) => "italic",
        MarkdownInline::Plaintext(_) => "plaintext",
    }
}

#[test]
fn heading_line_parses_and_renders() {
    let doc = parse("# Title\n").unwrap();
    assert_eq!(doc.len(), 1);
    match &doc[0] {
        Markdown::Heading(level, text) => {
            assert_eq!(level.get(), 1);
            assert_eq!(plaintexts(text), vec![String::from("Title")]);
        }
        _ => panic!("expected a heading"),
    }
    assert_eq!(process("# Title\n").to_html(), String::from("<h1>Title</h1>"));
}

#[test]
fn heading_ranks_one_to_six() {
    for n in 1..=6usize {
        let input = format!("{} level\n", "#".repeat(n));
        let html = process(&input).to_html();
        assert_eq!(html, format!("<h{}>level</h{}>", n, n));
    }
}

#[test]
fn seven_hashes_is_no_heading() {
    let doc = parse("####### seven\n").unwrap();
    assert_eq!(doc.len(), 1);
    match &doc[0] {
        Markdown::Line(text) => {
            assert_eq!(plaintexts(text), vec![String::from("####### seven")]);
        }
        _ => panic!("expected a plain line"),
    }
}

#[test]
fn hash_without_separator_is_no_heading() {
    let doc = parse("#nospace\n").unwrap();
    assert!(matches!(&doc[0], Markdown::Line(_)));
    assert_eq!(process("#nospace\n").to_html(), String::from("<p>#nospace</p>"));
}

#[test]
fn unordered_list_two_items() {
    let doc = parse("- a\n- b\n").unwrap();
    assert_eq!(doc.len(), 1);
    match &doc[0] {
        Markdown::UnorderedList(items) => {
            assert_eq!(items.len(), 2);
            assert_eq!(plaintexts(&items[0]), vec![String::from("a")]);
            assert_eq!(plaintexts(&items[1]), vec![String::from("b")]);
        }
        _ => panic!("expected an unordered list"),
    }
    assert_eq!(
        process("- a\n- b\n").to_html(),
        String::from("<ul><li>a</li><li>b</li></ul>")
    );
}

#[test]
fn ordered_list_contiguous_run() {
    let doc = parse("1. a\n2. b\n10. ten\n").unwrap();
    assert_eq!(doc.len(), 1);
    match &doc[0] {
        Markdown::OrderedList(items) => {
            assert_eq!(items.len(), 3);
            assert_eq!(plaintexts(&items[2]), vec![String::from("ten")]);
        }
        _ => panic!("expected an ordered list"),
    }
    assert_eq!(
        process("1. a\n2. b\n10. ten\n").to_html(),
        String::from("<ol><li>a</li><li>b</li><li>ten</li></ol>")
    );
}

#[test]
fn list_run_closes_on_non_matching_line() {
    let doc = parse("- a\nplain\n- b\n").unwrap();
    assert_eq!(doc.len(), 3);
    assert!(matches!(&doc[0], Markdown::UnorderedList(items) if items.len() == 1));
    assert!(matches!(&doc[1], Markdown::Line(_)));
    assert!(matches!(&doc[2], Markdown::UnorderedList(items) if items.len() == 1));
}

#[test]
fn adjacent_lists_of_different_kinds_stay_separate() {
    let doc = parse("- a\n1. b\n").unwrap();
    assert_eq!(doc.len(), 2);
    assert!(matches!(&doc[0], Markdown::UnorderedList(_)));
    assert!(matches!(&doc[1], Markdown::OrderedList(_)));
}

#[test]
fn codeblock_with_info_string() {
    let doc = parse("```rs\nfn main() {}\n```\n").unwrap();
    assert_eq!(doc.len(), 1);
    match &doc[0] {
        Markdown::Codeblock(lang, body) => {
            assert_eq!(lang.as_str(), "rs");
            assert_eq!(body.as_str(), "fn main() {}\n");
        }
        _ => panic!("expected a code block"),
    }
    assert_eq!(
        process("```rs\nfn main() {}\n```\n").to_html(),
        String::from("<pre><code class=\"lang-rs\">fn main() {}\n</code></pre>")
    );
}

#[test]
fn codeblock_keeps_blank_lines_verbatim() {
    let doc = parse("```\n\ncode\n\n```\n").unwrap();
    match &doc[0] {
        Markdown::Codeblock(lang, body) => {
            assert_eq!(lang.as_str(), "");
            assert_eq!(body.as_str(), "\ncode\n\n");
        }
        _ => panic!("expected a code block"),
    }
    assert_eq!(
        process("```\n\ncode\n\n```\n").to_html(),
        String::from("<pre><code class=\"lang-\">\ncode\n\n</code></pre>")
    );
}

#[test]
fn unterminated_codeblock_fails_whole_parse() {
    assert!(parse("```rs\nfn main() {\n").is_err());
    assert_eq!(
        process("```rs\nfn main() {\n").to_html(),
        String::from(FALLBACK)
    );
}

#[test]
fn missing_terminator_fails_parse() {
    assert!(parse("# Title").is_err());
    assert!(parse("").is_err());
    assert_eq!(process("# Title").to_html(), String::from(FALLBACK));
    assert_eq!(process("").to_html(), String::from(FALLBACK));
}

#[test]
fn unmatched_bold_delimiter_degrades_to_plaintext() {
    let doc = parse("a **bold\n").unwrap();
    assert_eq!(doc.len(), 1);
    match &doc[0] {
        Markdown::Line(text) => {
            assert_eq!(plaintexts(text), vec![String::from("a **bold")]);
        }
        _ => panic!("expected a plain line"),
    }
}

#[test]
fn unmatched_delimiters_never_fail() {
    assert_eq!(process("*x\n").to_html(), String::from("<p>*x</p>"));
    assert_eq!(process("`x\n").to_html(), String::from("<p>`x</p>"));
    assert_eq!(process("[x](no\n").to_html(), String::from("<p>[x](no</p>"));
    assert_eq!(process("![x\n").to_html(), String::from("<p>![x</p>"));
}

#[test]
fn bang_without_bracket_stays_in_run() {
    let doc = parse("a!b\n").unwrap();
    match &doc[0] {
        Markdown::Line(text) => {
            assert_eq!(plaintexts(text), vec![String::from("a!b")]);
        }
        _ => panic!("expected a plain line"),
    }
}

#[test]
fn inline_constructs_in_order() {
    let html = process("a **b** *c* `d` [e](f) ![g](h)\n").to_html();
    assert_eq!(
        html,
        String::from(
            "<p>a <b>b</b> <i>c</i> <code>d</code> <a href=\"f\">e</a> <img src=\"h\" alt=\"g\" /></p>"
        )
    );
}

#[test]
fn blank_line_renders_as_nothing() {
    let doc = parse("a\n\nb\n").unwrap();
    assert_eq!(doc.len(), 3);
    match &doc[1] {
        Markdown::Line(text) => assert!(text.is_empty()),
        _ => panic!("expected an empty line"),
    }
    assert_eq!(process("a\n\nb\n").to_html(), String::from("<p>a</p><p>b</p>"));
}

#[test]
fn empty_document_translates_to_nothing() {
    let tree = translate(Vec::new());
    assert_eq!(tree.to_html(), String::from(""));
}

#[test]
fn mixed_document_end_to_end() {
    let input = "# Top\ntext with `code`\n- one\n- two\n```sh\nls\n```\n";
    assert_eq!(
        process(input).to_html(),
        String::from(
            "<h1>Top</h1><p>text with <code>code</code></p><ul><li>one</li><li>two</li></ul><pre><code class=\"lang-sh\">ls\n</code></pre>"
        )
    );
}
