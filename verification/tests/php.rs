use paranoid_space::php::process;

#[test]
fn test_html_only() {
    let input = "<div><p>HTML测试</p></div>";
    // Expect html::process to handle this (assuming it preserves structure)
    let expected = "<div><p>HTML 测试</p></div>";
    assert_eq!(process(input).unwrap(), expected);
}

#[test]
fn test_php_comment_only() {
    let input = "<?php // Line Comment";
    let expected = "<?php // Line Comment"; // Expect raw extraction
    assert_eq!(process(input).unwrap(), expected);

    let input = "<?php // Line Comment ?>";
    let expected = "<?php // Line Comment ?>"; // Expect raw extraction
    assert_eq!(process(input).unwrap(), expected);

    let input = "<?php /* Block Comment */ ?>";
    let expected = "<?php /* Block Comment */ ?>"; // Expect raw extraction
    assert_eq!(process(input).unwrap(), expected);
}

#[test]
fn test_php_string_only() {
    let input = "<?php 'Single Quoted'; \"Double Quoted \\\" Escaped\"; ?>";
    let expected = "<?php 'Single Quoted'; \"Double Quoted \\\" Escaped\"; ?>"; // Expect raw extraction
    assert_eq!(process(input).unwrap(), expected);
}

#[test]
fn php_test_mixed_content() {
    let input = "<h1>Title</h1><?php echo 'Hello'; // Say hello ?> <p>World</p>";
    // HTML processed, PHP extracted raw
    let expected = "<h1>Title</h1><?php echo 'Hello'; // Say hello ?> <p>World</p>";
    assert_eq!(process(input).unwrap(), expected);
}

#[test]
fn test_php_inside_html_attribute() {
    // This case highlights limitations - the current grammar treats this as HTML
    // A more advanced parser might need context switching within attributes.
    let input = "<input type=\"text\" value=\"<?php echo $value; ?>\">";
    // Expect html::process to handle the outer tag, PHP part treated as text by html::process
    let expected = "<input type=\"text\" value=\"<?php echo $value; ?>\">";
    assert_eq!(process(input).unwrap(), expected);
}

#[test]
fn test_php_code_char() {
    let input = "<?php echo 'Hello'; ?>";
    let expected = "<?php echo 'Hello'; ?>";
    assert_eq!(process(input).unwrap(), expected);
}

#[test]
fn test_html_head() {
    let input = r#"<!DOCTYPE html>
<html>
<head>
<title>PHP语法综合示例</title>
</head>
<body>
<?php
echo 1;
"#;
    let expected = r#"<!DOCTYPE html>
<html>
<head>
<title>PHP 语法综合示例</title>
</head>
<body>
<?php
echo 1;
"#;
    assert_eq!(process(input).unwrap(), expected);
}

#[test]
fn test_php_string() {
    let input = r#"<?php echo "你好$name"; ?>"#;
    let expected = r#"<?php echo "你好$name"; ?>"#;
    assert_eq!(process(input).unwrap(), expected);
}

#[test]
fn test_php_heredoc_string() {
    let input = r#"<?php
$str = <<<EOT
你好$name，
hello世界
EOT;
"#;
    let expected = r#"<?php
$str = <<<EOT
你好$name，
hello 世界
EOT;
"#;
    assert_eq!(process(input).unwrap(), expected);
}

#[test]
fn test_php_nowdoc_string() {
    let input = r#"<?php
$str = <<<'EOT'
你好$name，
hello世界
EOT;
"#;
    let expected = r#"<?php
$str = <<<'EOT'
你好 $name，
hello 世界
EOT;
"#;
    assert_eq!(process(input).unwrap(), expected);
}

#[test]
fn test_php_dq_inner() {
    let input = r#"<?php $str = "$pos双引号String"; ?>"#;
    let expected = r#"<?php $str = "$pos双引号 String"; ?>"#;
    assert_eq!(process(input).unwrap(), expected);
}

#[test]
fn test_php_sq_inner() {
    let input = r#"<?php $str = '单引号String'; ?>"#;
    let expected = r#"<?php $str = '单引号 String'; ?>"#;
    assert_eq!(process(input).unwrap(), expected);
}

#[test]
fn test_echo() {
    let input = r#"<?php echo "NULL变量:"; ?>"#;
    let expected = r#"<?php echo "NULL 变量:"; ?>"#;
    assert_eq!(process(input).unwrap(), expected);
}

#[test]
fn test_3() {
    let input = r#"<?php echo $boolVar ? "真<br>" : "假<br>"; ?>"#;
    let expected = r#"<?php echo $boolVar ? "真<br>" : "假<br>"; ?>"#;
    assert_eq!(process(input).unwrap(), expected);
}

#[test]
fn test_mix() {
    let input = r#"<?php ?>
<p>这是HTML内容，下面是 PHP 输出的内容：</p>"#;
    let expected = r#"<?php ?>
<p>这是 HTML 内容，下面是 PHP 输出的内容：</p>"#;
    assert_eq!(process(input).unwrap(), expected);
}
