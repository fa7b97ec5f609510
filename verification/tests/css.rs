use paranoid_space::css::process;

#[test]
fn css_test_line_continuation() {
    let css_with_line_continuation = r#"body {
    content: "这是一个长字符串，\
可以用反斜杠换行";
}
"#;
    let expected_css = r#"body {
    content: "这是一个长字符串，\
可以用反斜杠换行";
}
"#;
    let processed_css = process(css_with_line_continuation).expect("处理带有反斜杠换行的 CSS 失败");
    assert_eq!(processed_css, expected_css);
}

#[test]
fn css_spaces_comments_and_strings() {
    assert_eq!(
        process("/* 这是注释Comment */\n.class { font-family: '微软雅黑Font'; }").unwrap(),
        "/* 这是注释 Comment */\n.class { font-family: '微软雅黑 Font'; }"
    );
    assert_eq!(process(".标题a { color: red; }").unwrap(), ".标题a { color: red; }");
    assert_eq!(process("/* 未结束Comment").unwrap(), "/* 未结束Comment");
    assert_eq!(process("a::before { content: '未结束End\n }").unwrap(), "a::before { content: '未结束End\n }");
    assert_eq!(process("").unwrap(), "");
}

#[test]
fn css_parser_gives_the_prose_spans() {
    use_spans("a{}/*甲*/ 'b'", &[(5, 6), (10, 11)]);
    use_spans("a{}", &[]);
}

fn use_spans(text: &str, want: &[(usize, usize)]) {
    let spans = paranoid_space::css::CssParser::parse(text);
    let got: Vec<(usize, usize)> = spans.iter().map(|span| (span.start, span.end)).collect();
    assert_eq!(got, want);
    assert!(spans.iter().all(|span| span.kind == paranoid_space::walker::Kind::Prose));
}
