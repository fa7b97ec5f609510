use paranoid_space::{spacing, CharWidth};
use unicode_width::UnicodeWidthChar;

#[test]
fn test_spacing_comments() {
    assert_eq!(spacing("/* block comment */"), "/* block comment */");
    assert_eq!(spacing("/* block 注释 */"), "/* block 注释 */");
    assert_eq!(spacing("// line comment"), "// line comment");
    assert_eq!(spacing("// line 注释"), "// line 注释");
}

#[test]
fn test_end_space() {
    assert_eq!(spacing("a "), "a ");
    assert_eq!(spacing("a  "), "a  ");
    assert_eq!(spacing("a啊 "), "a 啊 ");
}

#[test]
fn test_newline_or_tab() {
    assert_eq!(CharWidth::from_char('\n'), CharWidth::Half);
    assert_eq!(CharWidth::from_char('\r'), CharWidth::Half);
    assert_eq!(CharWidth::from_char('\t'), CharWidth::Half);

    assert_eq!(spacing("a\nb"), "a\nb");
    assert_eq!(spacing("a\rb"), "a\rb");
    assert_eq!(spacing("a\tb"), "a\tb");

    assert_eq!(spacing("中\nb"), "中\nb");
    assert_eq!(spacing("中\rb"), "中\rb");
    assert_eq!(spacing("中\tb"), "中\tb");
}

#[test]
fn test_char_width() {
    assert_eq!(CharWidth::from_char(' '), CharWidth::Half);
    assert_eq!(CharWidth::from_char('a'), CharWidth::Half);
    assert_eq!(CharWidth::from_char('A'), CharWidth::Half);
    assert_eq!(CharWidth::from_char('1'), CharWidth::Half);
    assert_eq!(CharWidth::from_char('，'), CharWidth::Full);
    assert_eq!(CharWidth::from_char('。'), CharWidth::Full);
    assert_eq!(CharWidth::from_char('！'), CharWidth::Full);
    assert_eq!(CharWidth::from_char('？'), CharWidth::Full);
    assert_eq!(CharWidth::from_char('￥'), CharWidth::Full);
    assert_eq!(CharWidth::from_char('$'), CharWidth::Half);
    assert_eq!(CharWidth::from_char('中'), CharWidth::Full);
}

#[test]
fn lib_test_spacing() {
    // 中文和英文之间
    assert_eq!(spacing("中文English"), "中文 English");
    assert_eq!(spacing("中文English中文"), "中文 English 中文");

    // 中文和数字之间
    assert_eq!(spacing("中文123"), "中文 123");
    assert_eq!(spacing("123中文"), "123 中文");

    // 中文和符号之间
    assert_eq!(spacing("中文!"), "中文!");
    assert_eq!(spacing("中文?"), "中文?");

    // 货币符号测试
    assert_eq!(spacing("价格是$50和¥300"), "价格是 $50 和 ¥300");
    assert_eq!(spacing("价格是¥300"), "价格是 ¥300");

    // 复杂情况
    assert_eq!(
        spacing("当你凝视着bug，bug也凝视着你"),
        "当你凝视着 bug，bug 也凝视着你"
    );
    assert_eq!(
        spacing("与PM战斗的人，应当小心自己不要成为PM"),
        "与 PM 战斗的人，应当小心自己不要成为 PM"
    );
    assert_eq!(
        spacing("与PM战斗的人，应当小心自己不要成为 PM"),
        "与 PM 战斗的人，应当小心自己不要成为 PM"
    );
}

#[test]
fn test_all_width() {
    // 测试中英文混排
    assert_eq!(
        spacing("中文和拉丁字母English混排"),
        "中文和拉丁字母 English 混排"
    );

    // 测试全角和半角数字
    assert_eq!(
        spacing("中文数字１２３４５６７８９０和半角数字1234567890混排"),
        "中文数字１２３４５６７８９０和半角数字 1234567890 混排"
    );

    // 测试混合案例，包含函数名和引号
    assert_eq!(
        spacing("使用了Python的print()函数打印\"你好,世界\""),
        "使用了 Python 的 print() 函数打印\"你好, 世界\""
    );

    // 测试货币符号
    assert_eq!(
        spacing("价格人民币¥100美元$100欧元€100英镑£100"),
        "价格人民币 ¥100 美元 $100 欧元 €100 英镑 £100"
    );

    // 测试全角空格和半角空格
    assert_eq!(
        spacing("全角空格　和半角空格 混用"),
        "全角空格　和半角空格 混用"
    );

    // 测试全角和半角字母数字混排
    assert_eq!(
        spacing("AＡBＢCＣ和abc以及1１２３和123混排"),
        "A Ａ B Ｂ C Ｃ和 abc 以及 1 １２３和 123 混排"
    );

    // 测试路径表示
    assert_eq!(
        spacing("文件保存在~/Documents目录"),
        "文件保存在 ~/Documents 目录"
    );
}

#[test]
fn test_symbols() {
    // 波浪号测试
    assert_eq!(
        spacing("用户目录是~，完整路径是~/Documents"),
        "用户目录是 ~，完整路径是 ~/Documents"
    );

    // 括号测试
    assert_eq!(spacing("函数add(a,b)返回a+b"), "函数 add(a,b) 返回 a+b");

    // 路径测试
    assert_eq!(
        spacing("文件保存在/usr/local/bin/目录"),
        "文件保存在 /usr/local/bin/ 目录"
    );

    // 点号测试
    assert_eq!(
        spacing("网址是example.com而不是example。com"),
        "网址是 example.com 而不是 example。com"
    );

    // 引号测试
    assert_eq!(
        spacing(r#"他说"这很好"然后离开了"#),
        r#"他说"这很好"然后离开了"#
    );

    // 复杂组合
    assert_eq!(
        spacing("安装命令是npm install --save-dev @types/react使用v16.8版本"),
        "安装命令是 npm install --save-dev @types/react 使用 v16.8 版本"
    );

    // 货币符号
    assert_eq!(spacing("价格是$50和¥300"), "价格是 $50 和 ¥300");

    // 分隔符测试
    assert_eq!(
        spacing("name|age|gender表示不同字段"),
        "name|age|gender 表示不同字段"
    );

    // 数学符号
    assert_eq!(
        spacing("5+3*2=11，需要满足x>0且y<100"),
        "5+3*2=11，需要满足 x>0 且 y<100"
    );

    // 反引号
    assert_eq!(
        spacing("命令是`ls -la`，注意不要用''"),
        "命令是 `ls -la`，注意不要用''"
    );
}

#[test]
fn test_process_escape_sequences() {
    let input = r#"\t"#;
    let expected = r#"\t"#;
    assert_eq!(spacing(input), expected);
}

#[test]
fn lib_test_string_with_escapes() {
    let input: &str = r#"你好\n world\t!"#;
    let expected: &str = r#"你好\n world\t!"#;
    assert_eq!(spacing(input), expected);
}

#[test]
fn test_specific_char_widths() {
    // Test specific characters involved in the failing case
    assert_eq!(Some(2), '好'.width(), "Width of '好'");
    assert_eq!(Some(1), 'w'.width(), "Width of 'w'");

    // Test some other common cases
    assert_eq!(Some(2), '，'.width(), "Width of full-width comma");
    assert_eq!(Some(1), ','.width(), "Width of half-width comma");
    assert_eq!(Some(1), ' '.width(), "Width of space");
    assert_eq!(None, '\n'.width(), "Width of newline"); // Control char
}

#[test]
fn test_charwidth_enum_mapping() {
    // Test specific characters involved in the failing case
    assert_eq!(CharWidth::Full, CharWidth::from_char('好'), "Mapping for '好'");
    assert_eq!(CharWidth::Half, CharWidth::from_char('w'), "Mapping for 'w'");

    // Test some other common cases
    assert_eq!(CharWidth::Full, CharWidth::from_char('，'), "Mapping for full-width comma");
    assert_eq!(CharWidth::Half, CharWidth::from_char(','), "Mapping for half-width comma");
    assert_eq!(CharWidth::Half, CharWidth::from_char(' '), "Mapping for space");
    assert_eq!(CharWidth::Half, CharWidth::from_char('\n'), "Mapping for newline"); // Maps None to Half
}

#[test]
fn test_spacing_nihaoworld() {
    let input = "你好world";
    let expected = "你好 world";
    // 调用 spacing，此时应该触发内部的 println!
    let actual = spacing(input);
    // 在断言前打印结果，增加看到输出的机会
    println!("[test_spacing_nihaoworld] Input: \"{}\", Expected: \"{}\", Actual: \"{}\"", input, expected, actual);
    assert_eq!(actual, expected);
}
