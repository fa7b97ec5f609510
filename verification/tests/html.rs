use paranoid_space::html::process;

#[test]
fn test_html_in_comment() {
    let input = "<!-- <p>段落Paragraph</p> -->";
    let expected = "<!-- <p>段落 Paragraph</p> -->";
    let r = process(input);
    assert_eq!(r.unwrap(), expected);
}

#[test]
fn test_html_comments() {
    // 测试单行注释
    let input = "<!-- 这是注释Comment -->";
    let expected = "<!-- 这是注释 Comment -->";
    assert_eq!(process(input).unwrap(), expected);

    // 测试多行注释
    let input = "<!-- \n  多行注释Multi\n  Line Comment\n-->";
    let expected = "<!-- \n  多行注释 Multi\n  Line Comment\n-->";
    assert_eq!(process(input).unwrap(), expected);
}

#[test]
fn test_html_strings() {
    // 测试双引号字符串
    let input = "<a title=\"这是标题Title\">链接Link</a>";
    let expected = "<a title=\"这是标题 Title\">链接 Link</a>";
    assert_eq!(process(input).unwrap(), expected);

    // 测试单引号字符串
    let input = "<input value='这是值Value'>";
    let expected = "<input value='这是值 Value'>";
    assert_eq!(process(input).unwrap(), expected);

    // 测试包含特殊字符的字符串
    let input = "<div title=\"包含'单引号'和\\反斜杠\">内容Content</div>";
    let expected = "<div title=\"包含'单引号'和\\反斜杠\">内容 Content</div>";
    assert_eq!(process(input).unwrap(), expected);
}

#[test]
fn test_script_content() {
    // 测试JavaScript内容处理
    let input = "<script>// 这是注释Comment\nlet x = '这是字符串String';</script>";
    let expected = "<script>// 这是注释 Comment\nlet x = '这是字符串 String';</script>";
    assert_eq!(process(input).unwrap(), expected);

    // 测试带有属性的script标签
    let input = "<script type=\"text/javascript\">var name = \"用户User\";</script>";
    let expected = "<script type=\"text/javascript\">var name = \"用户 User\";</script>";
    assert_eq!(process(input).unwrap(), expected);
}

#[test]
fn test_style_content() {
    // 测试CSS内容处理
    let input = "<style>/* 这是注释Comment */\n.class { font-family: '微软雅黑Font'; }</style>";
    let expected =
        "<style>/* 这是注释 Comment */\n.class { font-family: '微软雅黑 Font'; }</style>";
    assert_eq!(process(input).unwrap(), expected);

    // 测试带有属性的style标签
    let input = "<style type=\"text/css\">.title { color: red; /* 红色Red */ }</style>";
    let expected = "<style type=\"text/css\">.title { color: red; /* 红色 Red */ }</style>";
    assert_eq!(process(input).unwrap(), expected);
}

#[test]
fn test_html_entities() {
    // 测试HTML实体保持不变
    let input = "版权&copy;所有";
    let expected = "版权&copy;所有";
    assert_eq!(process(input).unwrap(), expected);

    let input = "&lt;div&gt;这是内容Content&lt;/div&gt;";
    let expected = "&lt;div&gt;这是内容 Content&lt;/div&gt;";
    assert_eq!(process(input).unwrap(), expected);
}

#[test]
fn test_simple_tag() {
    let input = "<div class='paragraph' id='p1'>段落Paragraph</div>";
    let expected = "<div class='paragraph' id='p1'>段落 Paragraph</div>";
    assert_eq!(process(input).unwrap(), expected);
}

#[test]
fn test_nested_tags() {
    // 测试嵌套标签
    let input = "<div><p>段落Paragraph <strong>强调Emphasis</strong></p></div>";
    let expected = "<div><p>段落 Paragraph <strong>强调 Emphasis</strong></p></div>";
    assert_eq!(process(input).unwrap(), expected);

    // 测试复杂嵌套结构
    let input = "<div class=\"container\"><header><h1>标题Title</h1></header><main>内容Content</main></div>";
    let expected = "<div class=\"container\"><header><h1>标题 Title</h1></header><main>内容 Content</main></div>";
    assert_eq!(process(input).unwrap(), expected);
}

#[test]
fn html_test_mixed_content() {
    // 测试混合内容（注释、标签、文本）
    let input = "<!-- 注释Comment --><div>文本Text</div><!-- 另一个注释Another -->";
    let expected = "<!-- 注释 Comment --><div>文本 Text</div><!-- 另一个注释 Another -->";
    assert_eq!(process(input).unwrap(), expected);

    // 测试包含script和style的混合内容
    let input = "<div>前文Text</div><style>.cls{/*注释Comment*/}</style><div>中间Middle</div><script>var x='变量Var';</script><div>后文Text</div>";
    let expected = "<div>前文 Text</div><style>.cls{/*注释 Comment*/}</style><div>中间 Middle</div><script>var x='变量 Var';</script><div>后文 Text</div>";
    assert_eq!(process(input).unwrap(), expected);
}

#[test]
fn test_special_cases() {
    // Test incomplete tags - should result in parsing errors
    let input1 = "<div";
    assert!(
        process(input1).is_err(),
        "Incomplete opening tag should fail"
    );

    let input2 = "</div";
    assert!(
        process(input2).is_err(),
        "Incomplete closing tag should fail"
    );

    // Test unclosed tag
    let input3 = "<div>test";
    assert!(process(input3).is_err(), "Unclosed tag should fail");

    // Test self-closing void element
    let input4 = "<br />";
    let expected4 = "<br />"; // Self-closing tags are preserved
    assert_eq!(process(input4).unwrap(), expected4);

    // Test void element without self-closing slash (HTML5 style)
    let input5 = "<br>";
    let expected5 = "<br>"; // Should be handled correctly
    assert_eq!(process(input5).unwrap(), expected5);

    // Test attribute without value
    let input6 = "<input disabled>";
    let expected6 = "<input disabled>"; // Boolean attributes
    assert_eq!(process(input6).unwrap(), expected6);

    // Test attribute with empty value
    let input7 = "<input value=\"\">";
    let expected7 = "<input value=\"\">"; // Empty attribute value
    assert_eq!(process(input7).unwrap(), expected7);
}

#[test]
fn test_simple() {
    let input = "<!DOCTYPE html>\n<html>\n<head>\n<title>PHP语法综合示例</title>\n</head>\n<body></body></html>";
    let expected = "<!DOCTYPE html>\n<html>\n<head>\n<title>PHP 语法综合示例</title>\n</head>\n<body></body></html>";
    assert_eq!(process(input).unwrap(), expected);

    let input = "<!DOCTYPE html>\n<html>\n<head>\n<title>PHP语法综合示例</title>\n</head>\n<body>";
    let expected = "<!DOCTYPE html>\n<html>\n<head>\n<title>PHP 语法综合示例</title>\n</head>\n<body>";
    assert_eq!(process(input).unwrap(), expected);
}

#[test]
fn html_embedded_script_is_walked_as_script() {
    assert_eq!(
        process("<script>let x = '你好world';</script>").unwrap(),
        "<script>let x = '你好 world';</script>"
    );
}

#[test]
fn html_structure_only_is_unchanged() {
    assert_eq!(process("<br>").unwrap(), "<br>");
    assert_eq!(process("<div><hr/></div>").unwrap(), "<div><hr/></div>");
    assert_eq!(process("").unwrap(), "");
}

#[test]
fn html_other_attributes_are_structure() {
    assert_eq!(
        process("<a href=\"//例子path\" title=\"标题Title\">x</a>").unwrap(),
        "<a href=\"//例子path\" title=\"标题 Title\">x</a>"
    );
}

#[test]
fn html_unclosed_or_mismatched_is_refused() {
    use_error(process("<div>unclosed"), 13);
    use_error(process("<div></span>"), 5);
    use_error(process("</div>"), 0);
    use_error(process("<!-- open"), 0);
    use_error(process("<script>var a;"), 8);
}

fn use_error(r: Result<String, paranoid_space::ParseError>, at: usize) {
    assert_eq!(
        r,
        Err(paranoid_space::ParseError::Syntax { format: paranoid_space::Format::Html, offset: at })
    );
}

#[test]
fn html_bare_angle_bracket_is_text() {
    assert_eq!(process("满足x>0且y<100即可").unwrap(), "满足 x>0 且 y<100 即可");
    assert_eq!(process("<p>a < b 且c<1</p>").unwrap(), "<p>a < b 且 c<1</p>");
    assert!(process("<p>a <b 未闭合</p>").is_err());
}

#[test]
fn html_declarations_and_instructions_are_structure() {
    assert_eq!(
        process("<?xml version=\"1.0\" 编码a?><!DOCTYPE html 文b><p>文c</p>").unwrap(),
        "<?xml version=\"1.0\" 编码a?><!DOCTYPE html 文b><p>文 c</p>"
    );
    assert!(process("<?xml 未结束").is_err());
}
