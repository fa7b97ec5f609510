use paranoid_space::engine::space_between;
use paranoid_space::{js, json, json5, markdown, php, spacing, CharWidth, Format, ParseError};

const SAMPLES: [&str; 12] = [
    "",
    " ",
    "a",
    "中",
    "中文English",
    "English中文",
    "价格是$50和¥300",
    "a  中  b",
    "中 a 中",
    "他说\"这很好\"然后离开了",
    "１２３abc　全角",
    "\n中\na\t中\\中",
];

#[test]
fn spacing_twice_is_spacing_once() {
    for text in SAMPLES {
        let once = spacing(text);
        assert_eq!(spacing(&once), once);
    }
}

#[test]
fn spacing_adds_no_double_space() {
    for text in SAMPLES {
        if !text.contains("  ") {
            assert!(!spacing(text).contains("  "));
        }
    }
    assert_eq!(spacing("中 English"), "中 English");
    assert_eq!(spacing("中  a"), "中  a");
}

#[test]
fn same_class_neighbours_are_left_alone() {
    assert_eq!(spacing("中文"), "中文");
    assert_eq!(spacing("abc"), "abc");
    assert_eq!(spacing("中文，全角。"), "中文，全角。");
    assert_eq!(spacing("a,b.c!d"), "a,b.c!d");
    assert!(!space_between('中', '文'));
    assert!(!space_between('a', 'b'));
}

#[test]
fn decision_follows_the_exceptions() {
    assert!(space_between('中', 'a'));
    assert!(space_between('a', '中'));
    assert!(!space_between(' ', '中'));
    assert!(!space_between('中', ' '));
    assert!(!space_between('，', 'a'));
    assert!(!space_between('中', ','));
    assert!(!space_between('中', '\n'));
    assert!(!space_between('\n', '中'));
    assert!(!space_between('$', '中'));
    assert!(!space_between('"', '中'));
    assert!(!space_between('a', '，'));
    assert!(space_between('~', '中'));
    assert!(space_between('中', '$'));
}

#[test]
fn width_classes() {
    assert!(CharWidth::from_char('a').is_half());
    assert!(!CharWidth::from_char('a').is_full());
    assert!(CharWidth::from_char('中').is_full());
    assert!(CharWidth::from_char('\u{0}').is_half());
    assert!(CharWidth::from_char('\u{7f}').is_half());
    assert!(CharWidth::from_char('\u{9f}').is_half());
    assert!(CharWidth::from_char('é').is_half());
    assert!(CharWidth::from_char('\u{0301}').is_full());
}

#[test]
fn empty_text_stays_empty() {
    assert_eq!(spacing(""), "");
    for format in [
        Format::Css,
        Format::Js,
        Format::Markdown,
        Format::Rust,
        Format::Php,
        Format::Html,
    ] {
        assert_eq!(format.process("").unwrap(), "");
    }
    assert_eq!(
        Format::Json.process(""),
        Err(ParseError::Syntax { format: Format::Json, offset: 0 })
    );
    assert_eq!(
        Format::Json5.process("// 注释a"),
        Err(ParseError::Syntax { format: Format::Json5, offset: 6 })
    );
}

#[test]
fn json_refusals_name_the_place() {
    let at = |text: &str| match json::process(text) {
        Err(ParseError::Syntax { format: Format::Json, offset }) => offset,
        other => panic!("{:?}", other),
    };
    assert_eq!(at("{\"a\": \"b\""), 9);
    assert_eq!(at("{\"a\": \"b\",}"), 10);
    assert_eq!(at("[\"a\",]"), 5);
    assert_eq!(at("{a: 1}"), 1);
    assert_eq!(at("[1] x"), 4);
    assert_eq!(at("\"\\x\""), 0);
    assert_eq!(at("01"), 1);
    assert_eq!(at("tru"), 0);
}

#[test]
fn json_values_of_every_kind() {
    let text = " [-1.5e+3, 0, true, false, null, \"\\u4e2d文a\\n\", {\"k\": [ ]}] ";
    let want = " [-1.5e+3, 0, true, false, null, \"\\u4e2d 文 a\\n\", {\"k\": [ ]}] ";
    assert_eq!(json::process(text).unwrap(), want);
}

#[test]
fn json5_values_of_every_kind() {
    let text = "{a: +0x1F, $b: .5, c: 5., d: -Infinity, e: NaN, 'f': '文a', 键: [1,], /*注a*/}";
    let want = "{a: +0x1F, $b: .5, c: 5., d: -Infinity, e: NaN, 'f': '文 a', 键: [1,], /*注 a*/}";
    assert_eq!(json5::process(text).unwrap(), want);
    assert!(json5::process("{a: .}").is_err());
    assert!(json5::process("{a: 0x}").is_err());
    assert!(json5::process("{1a: 1}").is_err());
    assert!(json5::process("[,]").is_err());
}

#[test]
fn js_templates_keep_their_expressions() {
    assert_eq!(
        js::process("`值a${obj.键b + {c: 1}.c}尾d`").unwrap(),
        "`值 a${obj.键b + {c: 1}.c}尾 d`"
    );
    assert_eq!(js::process("`未结束a ${x").unwrap(), "`未结束a ${x");
    assert_eq!(js::process("`转义\\`中a`").unwrap(), "`转义\\` 中 a`");
    assert_eq!(js::process("'未结束a\n'中b'").unwrap(), "'未结束a\n'中 b'");
}

#[test]
fn markdown_keeps_code_and_targets() {
    assert_eq!(
        markdown::process("前a`码b`后c [文d](链e) ![图f](址g) **粗h**\n> 引i\n```\n块j\n```\n").unwrap(),
        "前 a`码b`后 c [文 d](链e) ![图 f](址g) **粗 h**\n> 引 i\n```\n块j\n```\n"
    );
    assert_eq!(markdown::process("[没有a] (链b)").unwrap(), "[没有 a] ( 链 b)");
    assert_eq!(markdown::process("``未a`结b").unwrap(), "`` 未 a` 结 b");
}

#[test]
fn php_walks_markup_and_literal_text() {
    assert_eq!(
        php::process("<p>文a</p><?php # 注b\n/* 注c */ echo '单d\\'引e' . \"双f{$x}后g${y}尾h\"; ?><b>文i</b>").unwrap(),
        "<p>文 a</p><?php # 注 b\n/* 注 c */ echo '单 d\\'引 e' . \"双 f{$x}后 g${y}尾 h\"; ?><b>文 i</b>"
    );
    assert_eq!(php::process("<?php echo \"a<b中c\";").unwrap(), "<?php echo \"a<b中c\";");
    assert_eq!(php::process("<div>未闭合a<?php ?>").unwrap(), "<div>未闭合a<?php ?>");
}

#[test]
fn walkers_only_add_spaces() {
    let without_spaces = |text: &str| text.replace(' ', "");
    let documents = [
        (Format::Css, "a::after { content: '微软雅黑Font'; /* 注释Comment */ }"),
        (Format::Js, "let s = `模板a${x}尾b`; // 注c\n/* 块d */ '单e'"),
        (Format::Json, "{\"键a\": [\"值b\", 1, {\"c\": \"文d\"}]}"),
        (Format::Json5, "{键a: '值b', /* 注c */ d: [\"文e\",], // 尾f\n}"),
        (Format::Markdown, "# 标题Title\n> 引a `码b` [文c](址d)\n- 项e"),
        (Format::Html, "<div title=\"题a\"><!-- 注b --><script>// 注c</script>文d&lt;</div>"),
        (Format::Php, "<p>文a</p><?php echo \"双b$x\" . '单c'; # 注d\n?><i>文e</i>"),
        (Format::Rust, "let s = \"文a\"; // 注b\n/* 块c */ r#\"生d\"#"),
    ];
    for (format, text) in documents {
        let out = format.process(text).unwrap();
        assert_ne!(out, text);
        assert_eq!(without_spaces(&out), without_spaces(text));
    }
}

#[test]
fn walkers_leave_narrow_documents_alone() {
    let documents = [
        (Format::Css, "a::after { content: 'Font'; /* Comment */ }"),
        (Format::Js, "let s = `a${x}b`; // c\n/* d */ 'e'"),
        (Format::Json, "{\"a\": [\"b\", 1, {\"c\": \"d\"}]}"),
        (Format::Json5, "{a: 'b', /* c */ d: [\"e\",], // f\n}"),
        (Format::Markdown, "# Title\n> a `b` [c](d)\n- e"),
        (Format::Html, "<div title=\"a\"><!-- b --><script>// c</script>d&lt;</div>"),
        (Format::Php, "<p>a</p><?php echo \"b$x\" . 'c'; # d\n?><i>e</i>"),
        (Format::Rust, "let s = \"a\"; // b\n/* c */ r#\"d\"# /// e\n"),
    ];
    for (format, text) in documents {
        assert_eq!(format.process(text).unwrap(), text);
    }
}
