use jinja_fmt::keyword::Keyword;
use jinja_fmt::error::FormatError;
use jinja_fmt::layout::{
    format_jinja_node, is_formattable, is_legible, peek_jinja_stmt_keyword, try_format_jinja_node,
};
use jinja_fmt::node::SyntaxNode;

fn leaf(kind: &str, start_byte: usize, end_byte: usize) -> SyntaxNode {
    SyntaxNode { kind: kind.to_string(), start_byte, end_byte, children: Vec::new() }
}

/// Appends `text` to `source` and returns a node of `kind` that covers it.
/// A statement gets the three children that a grammar gives it: the opening
/// delimiter, the leading word and the rest.
fn node(source: &mut Vec<u8>, kind: &str, text: &str) -> SyntaxNode {
    let start = source.len();
    source.extend_from_slice(text.as_bytes());
    let end = source.len();
    let mut children = Vec::new();
    if kind == "statement" {
        let inner = &text[2..];
        let lead = inner.len() - inner.trim_start().len();
        let word = inner.trim_start().split(' ').next().unwrap().len();
        children.push(leaf("statement_begin", start, start + 2));
        children.push(leaf("keyword", start + 2 + lead, start + 2 + lead + word));
        children.push(leaf("statement_end", end - 2, end));
    }
    SyntaxNode { kind: kind.to_string(), start_byte: start, end_byte: end, children }
}

fn tree(parts: &[(&str, &str)]) -> (SyntaxNode, Vec<u8>) {
    let mut source = Vec::new();
    let mut children = Vec::new();
    for (kind, text) in parts {
        children.push(node(&mut source, kind, text));
        source.extend_from_slice(b" \n");
    }
    let end = source.len();
    (SyntaxNode { kind: "source_file".to_string(), start_byte: 0, end_byte: end, children }, source)
}

fn format(parts: &[(&str, &str)]) -> String {
    let (root, source) = tree(parts);
    assert!(is_formattable(&root, &source));
    format_jinja_node(&root, &source)
}

#[test]
fn if_block_indents_its_body() {
    let out = format(&[
        ("statement", "{% if x %}"),
        ("text", "hello"),
        ("statement", "{% endif %}"),
    ]);
    assert_eq!(out, "{% if x %}\n  hello\n{% endif %}\n");
}

#[test]
fn nested_blocks_rise_and_fall() {
    let out = format(&[
        ("statement", "{% for i in items %}"),
        ("statement", "{% if i %}"),
        ("text", "x"),
        ("statement", "{% endif %}"),
        ("statement", "{% endfor %}"),
    ]);
    assert_eq!(out, "{% for i in items %}\n  {% if i %}\n    x\n  {% endif %}\n{% endfor %}\n");
    let levels: Vec<usize> =
        out.lines().map(|line| (line.len() - line.trim_start().len()) / 2).collect();
    assert_eq!(levels, vec![0, 1, 2, 1, 0]);
}

#[test]
fn branches_stand_at_the_level_of_their_opener() {
    let out = format(&[
        ("statement", "{% if a %}"),
        ("text", "one"),
        ("statement", "{% elif b %}"),
        ("text", "two"),
        ("statement", "{% else %}"),
        ("text", "three"),
        ("statement", "{% endif %}"),
    ]);
    assert_eq!(
        out,
        "{% if a %}\n  one\n{% elif b %}\n  two\n{% else %}\n  three\n{% endif %}\n"
    );
}

#[test]
fn every_opener_has_its_closer() {
    let out = format(&[
        ("statement", "{% macro m() %}"),
        ("statement", "{% call f() %}"),
        ("statement", "{% filter upper %}"),
        ("statement", "{% for x in y %}"),
        ("text", "deep"),
        ("statement", "{% endfor %}"),
        ("statement", "{% endfilter %}"),
        ("statement", "{% endcall %}"),
        ("statement", "{% endmacro %}"),
    ]);
    assert_eq!(
        out,
        "{% macro m() %}\n  {% call f() %}\n    {% filter upper %}\n      {% for x in y %}\n        deep\n      {% endfor %}\n    {% endfilter %}\n  {% endcall %}\n{% endmacro %}\n"
    );
}

#[test]
fn unrecognized_statements_leave_the_level_alone() {
    let with = format(&[
        ("statement", "{% if x %}"),
        ("statement", "{% set y = 1 %}"),
        ("statement", "{% include 'a.html' %}"),
        ("text", "body"),
        ("statement", "{% endif %}"),
        ("statement", "{% block b %}"),
        ("text", "after"),
    ]);
    assert_eq!(
        with,
        "{% if x %}\n  {% set y = 1 %}\n  {% include 'a.html' %}\n  body\n{% endif %}\n{% block b %}\nafter\n"
    );
    let without = format(&[
        ("statement", "{% if x %}"),
        ("text", "body"),
        ("statement", "{% endif %}"),
        ("text", "after"),
    ]);
    assert_eq!(without, "{% if x %}\n  body\n{% endif %}\nafter\n");
}

#[test]
fn expressions_share_a_line() {
    let out = format(&[
        ("text", "a"),
        ("expression", "{{ x }}"),
        ("expression", "{{ y }}"),
        ("expression", "{{ z }}"),
        ("text", "b"),
        ("expression", "{{ w }}"),
    ]);
    assert_eq!(out, "a\n{{ x }}{{ y }}{{ z }}\nb\n{{ w }}\n");
}

#[test]
fn expressions_inside_a_block_are_indented_once() {
    let out = format(&[
        ("statement", "{% for i in l %}"),
        ("expression", "{{ i }}"),
        ("expression", "{{ j }}"),
        ("statement", "{% endfor %}"),
        ("expression", "{{ k }}"),
    ]);
    assert_eq!(out, "{% for i in l %}\n  {{ i }}{{ j }}\n{% endfor %}\n{{ k }}\n");
}

#[test]
fn output_has_no_leading_and_one_trailing_line_break() {
    for parts in [
        vec![("text", "only")],
        vec![("expression", "{{ a }}")],
        vec![("statement", "{% if x %}"), ("statement", "{% endif %}")],
    ] {
        let out = format(&parts);
        assert!(!out.starts_with('\n'));
        assert!(out.ends_with('\n'));
        assert!(!out.ends_with("\n\n"));
    }
    assert_eq!(format(&[("text", "only")]), "only\n");
}

#[test]
fn an_opener_without_closer_keeps_the_rest_indented() {
    let out = format(&[("statement", "{% if x %}"), ("text", "a"), ("text", "b")]);
    assert_eq!(out, "{% if x %}\n  a\n  b\n");
}

#[test]
fn only_direct_children_are_emitted() {
    let mut source = Vec::new();
    let mut outer = node(&mut source, "statement", "{% if x %}");
    outer.children.push(SyntaxNode {
        kind: "statement".to_string(),
        start_byte: 0,
        end_byte: 2,
        children: Vec::new(),
    });
    let text = node(&mut source, "text", "t");
    let end = source.len();
    let root = SyntaxNode {
        kind: "source_file".to_string(),
        start_byte: 0,
        end_byte: end,
        children: vec![outer, text],
    };
    assert!(is_formattable(&root, &source));
    assert_eq!(format_jinja_node(&root, &source), "{% if x %}\n  t\n");
}

#[test]
fn text_is_copied_byte_for_byte() {
    let out = format(&[
        ("statement", "{%   if   x   %}"),
        ("text", "  h\u{e9}llo \u{1f600}\t"),
        ("statement", "{%  endif  %}"),
    ]);
    assert_eq!(out, "{%   if   x   %}\n    h\u{e9}llo \u{1f600}\t\n{%  endif  %}\n");
}

#[test]
fn classifier_reads_the_second_child_of_a_statement() {
    let mut source = Vec::new();
    let cases = [
        ("{% if x %}", Some(Keyword::If)),
        ("{% elif x %}", Some(Keyword::Elif)),
        ("{% else %}", Some(Keyword::Else)),
        ("{% endif %}", Some(Keyword::Endif)),
        ("{% for a in b %}", Some(Keyword::For)),
        ("{% endfor %}", Some(Keyword::Endfor)),
        ("{% macro m() %}", Some(Keyword::Macro)),
        ("{% endmacro %}", Some(Keyword::Endmacro)),
        ("{% call c() %}", Some(Keyword::Call)),
        ("{% endcall %}", Some(Keyword::Endcall)),
        ("{% filter f %}", Some(Keyword::Filter)),
        ("{% endfilter %}", Some(Keyword::Endfilter)),
        ("{% set a = 1 %}", None),
        ("{% include 'x' %}", None),
        ("{% IF x %}", None),
        ("{% iff x %}", None),
    ];
    for (text, expected) in cases {
        let statement = node(&mut source, "statement", text);
        assert!(is_legible(&statement, &source));
        assert_eq!(peek_jinja_stmt_keyword(&statement, &source), expected);
    }
}

#[test]
fn classifier_ignores_what_is_no_statement() {
    let mut source = Vec::new();
    let mut expression = node(&mut source, "expression", "{{ if }}");
    expression.children.push(leaf("expression_begin", 0, 2));
    expression.children.push(leaf("identifier", 3, 5));
    assert_eq!(peek_jinja_stmt_keyword(&expression, &source), None);
    let text = node(&mut source, "text", "if");
    assert_eq!(peek_jinja_stmt_keyword(&text, &source), None);
}

#[test]
fn a_root_without_children_cannot_be_formatted() {
    let root = leaf("source_file", 0, 0);
    assert!(!is_formattable(&root, b""));
    assert_eq!(try_format_jinja_node(&root, b""), Err(FormatError::Unformattable));
}

#[test]
fn a_closer_at_level_zero_cannot_be_formatted() {
    let (root, source) = tree(&[("statement", "{% endif %}")]);
    assert!(!is_formattable(&root, &source));
    let (root, source) = tree(&[("text", "a"), ("statement", "{% else %}")]);
    assert!(!is_formattable(&root, &source));
    let (root, source) = tree(&[
        ("statement", "{% if x %}"),
        ("statement", "{% endif %}"),
        ("statement", "{% endfor %}"),
    ]);
    assert!(!is_formattable(&root, &source));
    assert_eq!(try_format_jinja_node(&root, &source), Err(FormatError::Unformattable));
}

#[test]
fn a_statement_without_keyword_is_not_legible() {
    let mut source = Vec::new();
    let mut statement = node(&mut source, "statement", "{% if x %}");
    statement.children.truncate(1);
    assert!(!is_legible(&statement, &source));
    let root = SyntaxNode {
        kind: "source_file".to_string(),
        start_byte: 0,
        end_byte: source.len(),
        children: vec![statement],
    };
    assert!(!is_formattable(&root, &source));
}

#[test]
fn a_range_outside_the_source_is_not_legible() {
    let source = b"abc".to_vec();
    assert!(is_legible(&leaf("text", 0, 3), &source));
    assert!(is_legible(&leaf("text", 3, 3), &source));
    assert!(!is_legible(&leaf("text", 0, 4), &source));
    assert!(!is_legible(&leaf("text", 2, 1), &source));
    let root = SyntaxNode {
        kind: "source_file".to_string(),
        start_byte: 0,
        end_byte: 3,
        children: vec![leaf("text", 1, 9)],
    };
    assert_eq!(try_format_jinja_node(&root, &source), Err(FormatError::Unformattable));
}

#[test]
fn bytes_that_do_not_decode_are_not_legible() {
    let source = vec![b'a', 0xff, b'b', 0xc3, 0xa9];
    assert!(!is_legible(&leaf("text", 0, 3), &source));
    assert!(is_legible(&leaf("text", 3, 5), &source));
    assert!(!is_legible(&leaf("text", 3, 4), &source));
    assert_eq!(leaf("text", 3, 5).text(&source), Some("\u{e9}"));
    assert_eq!(leaf("text", 0, 1).text(&source), Some("a"));
    assert_eq!(leaf("text", 0, 2).text(&source), None);
    assert_eq!(leaf("text", 4, 9).text(&source), None);
}

#[test]
fn checked_formatting_agrees_with_plain_formatting() {
    let (root, source) = tree(&[
        ("statement", "{% if x %}"),
        ("text", "hello"),
        ("statement", "{% endif %}"),
    ]);
    assert_eq!(try_format_jinja_node(&root, &source), Ok(format_jinja_node(&root, &source)));
}
