use paranoid_space::diff::{diff, number_width, DiffRow};
use paranoid_space::{process_content, Format, ParseError};

#[test]
fn extension_chooses_the_walker() {
    assert_eq!(Format::from_extension("html"), Some(Format::Html));
    assert_eq!(Format::from_extension("htm"), Some(Format::Html));
    assert_eq!(Format::from_extension("md"), Some(Format::Markdown));
    assert_eq!(Format::from_extension("markdown"), Some(Format::Markdown));
    assert_eq!(Format::from_extension("js"), Some(Format::Js));
    assert_eq!(Format::from_extension("json"), Some(Format::Json));
    assert_eq!(Format::from_extension("json5"), Some(Format::Json5));
    assert_eq!(Format::from_extension("php"), Some(Format::Php));
    assert_eq!(Format::from_extension("rust"), Some(Format::Rust));
    assert_eq!(Format::from_extension("css"), Some(Format::Css));
    assert_eq!(Format::from_extension("txt"), None);
    assert_eq!(Format::from_extension(""), None);
    assert_eq!(Format::from_extension("HTML"), None);
}

#[test]
fn content_goes_to_the_walker_of_its_extension() {
    let text = "{\"键a\": \"值b\"}";
    assert_eq!(process_content(text, Some("json")).unwrap(), "{\"键a\": \"值 b\"}");
    assert_eq!(process_content(text, Some("txt")).unwrap(), "{\"键 a\": \"值 b\"}");
    assert_eq!(process_content(text, None).unwrap(), "{\"键 a\": \"值 b\"}");
    assert_eq!(
        process_content("{\"a\": ", Some("json")),
        Err(ParseError::Syntax { format: Format::Json, offset: 6 })
    );
    assert_eq!(
        process_content("<p>", Some("htm")),
        Err(ParseError::Syntax { format: Format::Html, offset: 3 })
    );
}

#[test]
fn every_walker_leaves_structure_alone() {
    assert_eq!(Format::Json.process("{}").unwrap(), "{}");
    assert_eq!(Format::Json.process("[]").unwrap(), "[]");
    assert_eq!(Format::Json5.process("{}").unwrap(), "{}");
    assert_eq!(Format::Html.process("<br>").unwrap(), "<br>");
    assert_eq!(Format::Css.process("a{b:c}").unwrap(), "a{b:c}");
    assert_eq!(Format::Js.process("let 变量a = 1;").unwrap(), "let 变量a = 1;");
    assert_eq!(Format::Rust.process("let 变量a = 1;").unwrap(), "let 变量a = 1;");
    assert_eq!(Format::Php.process("<?php $变量a = 1;").unwrap(), "<?php $变量a = 1;");
    assert_eq!(Format::Markdown.process("`代码code`").unwrap(), "`代码code`");
}

#[test]
fn diff_pairs_lines_by_index() {
    assert_eq!(diff("", ""), vec![]);
    assert_eq!(diff("a\nb\nc", "a\nb\nc\n"), vec![DiffRow::Unchanged]);
    assert_eq!(
        diff("a\nb\n中文English\nd\ne", "a\nb\n中文 English\nd\ne"),
        vec![DiffRow::Unchanged, DiffRow::Removed(2), DiffRow::Added(2), DiffRow::Unchanged]
    );
    assert_eq!(diff("a\r\nb", "a"), vec![DiffRow::Unchanged, DiffRow::Removed(1)]);
    assert_eq!(diff("a", "b\nc"), vec![DiffRow::Removed(0), DiffRow::Added(0), DiffRow::Added(1)]);
}

#[test]
fn number_width_counts_digits() {
    assert_eq!(number_width(0), 1);
    assert_eq!(number_width(9), 1);
    assert_eq!(number_width(10), 2);
    assert_eq!(number_width(99), 2);
    assert_eq!(number_width(100), 3);
    assert_eq!(number_width(12345), 5);
}
