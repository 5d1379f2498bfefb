use markdown_markup::markup::{list_items_to_html, markup_text_to_html};
use markdown_markup::translator::{
    translate_boldtext, translate_codeblock, translate_heading, translate_image,
    translate_inline_code, translate_italic, translate_line, translate_link,
    translate_list_elements, translate_ordered_list, translate_text, translate_unordered_list,
};
use markdown_markup::{HeadingLevel, MarkdownInline};

#[test]
fn test_translate_boldtext() {
    assert_eq!(
        translate_boldtext(String::from("bold af")).to_html(),
        String::from("<b>bold af</b>")
    );
}

#[test]
fn test_translate_italic() {
    assert_eq!(
        translate_italic(String::from("italic af")).to_html(),
        String::from("<i>italic af</i>")
    );
}

#[test]
fn test_translate_inline_code() {
    assert_eq!(
        translate_inline_code(String::from("code af")).to_html(),
        String::from("<code>code af</code>")
    );
}

#[test]
fn test_translate_link() {
    assert_eq!(
        translate_link(
            String::from("click me!"),
            String::from("https://github.com")
        )
        .to_html(),
        String::from("<a href=\"https://github.com\">click me!</a>")
    );
}

#[test]
fn test_translate_image() {
    assert_eq!(
        translate_image(String::from("alt text"), String::from("https://github.com")).to_html(),
        String::from("<img src=\"https://github.com\" alt=\"alt text\" />")
    );
}

#[test]
fn test_translate_text() {
    let x = translate_text(vec![
        MarkdownInline::Plaintext(String::from(
            "Foobar is a Python library for dealing with word pluralization.",
        )),
        MarkdownInline::Bold(String::from("bold")),
        MarkdownInline::Italic(String::from("italic")),
        MarkdownInline::InlineCode(String::from("code")),
        MarkdownInline::Link(String::from("tag"), String::from("https://link.com")),
        MarkdownInline::Image(String::from("tag"), String::from("https://link.com")),
        MarkdownInline::Plaintext(String::from(". the end!")),
    ]);
    assert_eq!(markup_text_to_html(&x), String::from("Foobar is a Python library for dealing with word pluralization.<b>bold</b><i>italic</i><code>code</code><a href=\"https://link.com\">tag</a><img src=\"https://link.com\" alt=\"tag\" />. the end!"));
    let x = translate_text(vec![]);
    assert_eq!(markup_text_to_html(&x), String::from(""));
}

#[test]
fn test_translate_heading() {
    assert_eq!(
        translate_heading(
            HeadingLevel::new(1).unwrap(),
            vec![MarkdownInline::Plaintext(String::from("Foobar"))]
        )
        .to_html(),
        String::from("<h1>Foobar</h1>")
    );
}

#[test]
fn test_translate_list_elements() {
    assert_eq!(
        list_items_to_html(&translate_list_elements(vec![
            vec![MarkdownInline::Plaintext(String::from("Foobar"))],
            vec![MarkdownInline::Plaintext(String::from("Foobar"))],
            vec![MarkdownInline::Plaintext(String::from("Foobar"))],
            vec![MarkdownInline::Plaintext(String::from("Foobar"))],
        ])),
        String::from("<li>Foobar</li><li>Foobar</li><li>Foobar</li><li>Foobar</li>")
    );
}

#[test]
fn test_translate_unordered_list() {
    assert_eq!(
        translate_unordered_list(vec![
            vec![MarkdownInline::Plaintext(String::from("Foobar"))],
            vec![MarkdownInline::Plaintext(String::from("Foobar"))],
            vec![MarkdownInline::Plaintext(String::from("Foobar"))],
            vec![MarkdownInline::Plaintext(String::from("Foobar"))],
        ])
        .to_html(),
        String::from("<ul><li>Foobar</li><li>Foobar</li><li>Foobar</li><li>Foobar</li></ul>")
    );
}

#[test]
fn test_translate_ordered_list() {
    assert_eq!(
        translate_ordered_list(vec![
            vec![MarkdownInline::Plaintext(String::from("Foobar"))],
            vec![MarkdownInline::Plaintext(String::from("Foobar"))],
            vec![MarkdownInline::Plaintext(String::from("Foobar"))],
            vec![MarkdownInline::Plaintext(String::from("Foobar"))],
        ])
        .to_html(),
        String::from("<ol><li>Foobar</li><li>Foobar</li><li>Foobar</li><li>Foobar</li></ol>")
    );
}

#[test]
fn test_translate_codeblock() {
    assert_eq!(
        translate_codeblock(
            String::from("python"),
            String::from(
                r#"
import foobar

foobar.pluralize(\'word\') # returns \'words\'
foobar.pluralize(\'goose\') # returns \'geese\'
foobar.singularize(\'phenomena\') # returns \'phenomenon\'
"#
            )
        )
        .to_html(),
        String::from(
            r#"<pre><code class="lang-python">
import foobar

foobar.pluralize(\'word\') # returns \'words\'
foobar.pluralize(\'goose\') # returns \'geese\'
foobar.singularize(\'phenomena\') # returns \'phenomenon\'
</code></pre>"#
        )
    );
}

#[test]
fn test_translate_line() {
    assert_eq!(
        translate_line(vec![
            MarkdownInline::Plaintext(String::from("Foobar")),
            MarkdownInline::Bold(String::from("Foobar")),
            MarkdownInline::Italic(String::from("Foobar")),
            MarkdownInline::InlineCode(String::from("Foobar")),
        ])
        .to_html(),
        String::from("<p>Foobar<b>Foobar</b><i>Foobar</i><code>Foobar</code></p>")
    );
}
