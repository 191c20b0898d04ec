use jinja_fmt::page::{frame_page, index_html, PAGE_HEAD, PAGE_TAIL};
use jinja_fmt::error::FormatError;
use jinja_fmt::parse::{format_template, parse_jinja};
use jinja_fmt::service::{format_jinja, formatted, index, rejected, Reply};

#[test]
fn malformed_payload_is_rejected() {
    let reply = format_jinja(None);
    assert_eq!(
        reply,
        Ok(Reply {
            status: 400,
            content_type: "text/plain".to_string(),
            body: "Invalid request body JSON".to_string(),
        })
    );
    assert_eq!(rejected().status, 400);
}

#[test]
fn a_template_is_answered_with_its_layout() {
    let reply = format_jinja(Some("{% if x %}{{ y }}{% endif %}"));
    assert_eq!(
        reply,
        Ok(Reply {
            status: 200,
            content_type: "text/plain".to_string(),
            body: "{% if x %}\n  {{ y }}\n{% endif %}\n".to_string(),
        })
    );
}

#[test]
fn a_template_that_cannot_be_formatted_is_an_error() {
    assert_eq!(format_jinja(Some("")), Err(FormatError::Unformattable));
    assert_eq!(format_jinja(Some("{% endif %}")), Err(FormatError::Unformattable));
}

#[test]
fn replies_carry_what_they_are_given() {
    assert_eq!(
        formatted("abc\n".to_string()),
        Reply { status: 200, content_type: "text/plain".to_string(), body: "abc\n".to_string() }
    );
    assert_eq!(
        index("<html></html>"),
        Reply {
            status: 200,
            content_type: "text/html".to_string(),
            body: "<html></html>".to_string(),
        }
    );
}

#[test]
fn the_parser_hands_out_kinds_ranges_and_children() {
    let source = "{%- if x -%}\u{e9}{{ y }}{% endif %}";
    let root = parse_jinja(source).unwrap();
    assert_eq!(root.kind, "source_file");
    assert_eq!((root.start_byte, root.end_byte), (0, source.len()));
    let kinds: Vec<&str> = root.children.iter().map(|c| c.kind.as_str()).collect();
    assert_eq!(kinds, vec!["statement", "expression", "statement"]);
    let first = &root.children[0];
    assert_eq!((first.start_byte, first.end_byte), (0, 12));
    assert_eq!(first.text(source.as_bytes()), Some("{%- if x -%}"));
    let inner: Vec<&str> = first.children.iter().map(|c| c.kind.as_str()).collect();
    assert_eq!(inner, vec!["statement_begin", "keyword", "identifier", "statement_end"]);
    assert_eq!(first.children[1].text(source.as_bytes()), Some("if"));
    assert_eq!(root.children[1].text(source.as_bytes()), Some("{{ y }}"));
    assert_eq!(root.children[2].children[1].text(source.as_bytes()), Some("endif"));
}

#[test]
fn the_copy_of_a_tree_stops_two_levels_down() {
    let root = parse_jinja("{{ a.b }}{% if x %}{% endif %}").unwrap();
    assert!(!root.children.is_empty());
    for child in &root.children {
        assert!(!child.children.is_empty());
        for grandchild in &child.children {
            assert!(grandchild.children.is_empty());
        }
    }
}

#[test]
fn templates_are_formatted_from_text() {
    assert_eq!(
        format_template(
            "{% for i in items %}{% if i %}{{ i }}{{ j }}{# c #}{% else %}{% endif %}{% endfor %}"
        ),
        Ok("{% for i in items %}\n  {% if i %}\n    {{ i }}{{ j }}\n    {# c #}\n  {% else %}\n  {% endif %}\n{% endfor %}\n".to_string())
    );
    assert_eq!(
        format_template("{{ a }}{{ b }} {{ c }}\n{{ d }}"),
        Ok("{{ a }}{{ b }}{{ c }}{{ d }}\n".to_string())
    );
    assert_eq!(
        format_template("{% set x = 1 %}{% if x %}{% include 'a' %}{% endif %}"),
        Ok("{% set x = 1 %}\n{% if x %}\n  {% include 'a' %}\n{% endif %}\n".to_string())
    );
}

#[test]
fn formatting_again_changes_nothing() {
    for source in [
        "{% if x %}{{ y }}{% endif %}",
        "{% for i in items %}{% if i %}{{ i }}{{ j }}{% else %}{# c #}{% endif %}{% endfor %}",
        "{% macro m() %}{% call c() %}{% filter f %}{{ x }}{% endfilter %}{% endcall %}{% endmacro %}",
        "{{ a }}{{ b }}{% set c = 1 %}",
    ] {
        let once = format_template(source).unwrap();
        let twice = format_template(&once).unwrap();
        assert_eq!(once, twice);
    }
}

#[test]
fn templates_without_a_node_are_not_formatted() {
    assert_eq!(format_template(""), Err(FormatError::Unformattable));
    assert_eq!(format_template("just text"), Err(FormatError::Unformattable));
    assert_eq!(format_template("{% endfor %}"), Err(FormatError::Unformattable));
}

#[test]
fn the_page_frames_the_rendered_document() {
    let page = index_html("~~gone~~ and *here*");
    assert_eq!(
        page,
        format!("{}<p><del>gone</del> and <em>here</em></p>\n{}", PAGE_HEAD, PAGE_TAIL)
    );
    assert!(page.starts_with("<!DOCTYPE html>\n<html>\n<head>\n    <title>Home</title>\n"));
    assert!(page.ends_with("\n        <div>Index generated from README.md</div>\n    </div>\n</body>\n</html>"));
    assert!(page.contains("    blockquote {\n        display: none;\n    }\n"));
}

#[test]
fn the_frame_is_fixed() {
    assert_eq!(
        frame_page("<p>x</p>\n"),
        "<!DOCTYPE html>\n<html>\n<head>\n    <title>Home</title>\n    <link rel=\"stylesheet\" type=\"text/css\" href=\"https://cdnjs.cloudflare.com/ajax/libs/normalize/8.0.0/normalize.min.css\" />\n    <style>\n    blockquote {\n        display: none;\n    }\n    </style>\n</head>\n<body>\n    <div style=\"max-width: 800px; margin: 0 auto; padding: 20px;\">\n        <p>x</p>\n\n        <div>Index generated from README.md</div>\n    </div>\n</body>\n</html>"
    );
    assert_eq!(frame_page(""), format!("{}{}", PAGE_HEAD, PAGE_TAIL));
}

#[test]
fn the_page_renders_markdown_without_other_extensions() {
    let page = index_html("# Title\n\n| a | b |\n|---|---|\n");
    assert!(page.contains("<h1>Title</h1>"));
    assert!(!page.contains("<table>"));
}
