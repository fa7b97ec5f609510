use paranoid_space::rust::process;

#[test]
fn test_rust_basic() {
    let text = "let x = 1; // 这是一个comment";
    let result = process(text).unwrap();
    assert_eq!(result, "let x = 1; // 这是一个 comment");

    let text = "let x = 1; //This is a comment";
    let result = process(text).unwrap();
    assert_eq!(result, "let x = 1; //This is a comment");
}

#[test]
fn test_block_comment() {
    let text = r#"/*This is a block comment*/"#;
    let result = process(text).unwrap();
    assert_eq!(result, r#"/*This is a block comment*/"#);

    let text = r#"/*This is a block comment
        /*This is a nested block comment*/
        */"#;
    let result = process(text).unwrap();
    assert_eq!(
        result,
        r#"/*This is a block comment
        /*This is a nested block comment*/
        */"#
    );

    let text = r#"/*This is a 块注释
        This is另一行
        */"#;
    let result = process(text).unwrap();
    assert_eq!(
        result,
        r#"/*This is a 块注释
        This is 另一行
        */"#
    );
}

#[test]
fn test_block_doc_comment() {
    let text = r#"
/**
 * This is a block doc comment
 * This is another line
*/
"#;
    let result = process(text).unwrap();
    assert_eq!(
        result,
        r#"
/**
 * This is a block doc comment
 * This is another line
*/
"#
    );
}

#[test]
fn test_block_inner_doc_comment() {
    let input = "/*!
Inner comment中文
Another line 行*/";
    let expected = "/*!
Inner comment 中文
Another line 行*/";
    assert_eq!(process(input).unwrap(), expected);
}

#[test]
fn test_line_doc_comment_block() {
    let input = "/// Line doc comment中文
/// Another line 行
/// ```rust
/// let x = 1;
/// ```";
    let expected = "/// Line doc comment 中文
/// Another line 行
/// ```rust
/// let x = 1;
/// ```";
    assert_eq!(process(input).unwrap(), expected);
}

#[test]
fn test_multi_line_doc_comment() {
    let input = r#"/** Outer block doc comment
 * 函数的块文档注释
 */"#;
    let expected = r#"/** Outer block doc comment
 * 函数的块文档注释
 */"#;
    assert_eq!(process(input).unwrap(), expected);
}

#[test]
fn test_line_inner_doc_comment_block() {
    let input = "//! Inner line doc comment中文\n//! Another line 行";
    let expected = "//! Inner line doc comment 中文\n//! Another line 行";
    assert_eq!(process(input).unwrap(), expected);
}

#[test]
fn test_raw_string() {
    let input = r##"let s = r#"Raw string content中文 with "quotes" and \escapes"#;"##;
    let expected = r##"let s = r#"Raw string content 中文 with "quotes" and \escapes"#;"##;
    assert_eq!(process(input).unwrap(), expected);
}

#[test]
fn mod_test_string_with_escapes() {
    let input = r#"let msg = "Hello\n world世界\t!";"#;
    let expected = r#"let msg = "Hello\n world 世界\t!";"#;
    assert_eq!(process(input).unwrap(), expected);
}

#[test]
fn test_byte_string() {
    let input = r#"let bytes = b"byte string内容";"#;
    let expected = r#"let bytes = b"byte string 内容";"#;
    assert_eq!(process(input).unwrap(), expected);
}

#[test]
fn test_raw_byte_string() {
    let input = r##"let raw_bytes = br#"raw byte内容"#;"##;
    let expected = r##"let raw_bytes = br#"raw byte 内容"#;"##;
    assert_eq!(process(input).unwrap(), expected);
}

#[test]
fn test_escapes() {
    let input = r#"let message = "Hello, world!你好，世界！ Contains escapes: \n\t\""; // Regular string 普通字符串"#;
    let expected = r#"let message = "Hello, world! 你好，世界！ Contains escapes: \n\t\""; // Regular string 普通字符串"#;
    assert_eq!(process(input).unwrap(), expected);
}

#[test]
fn test_rust_spacing() {
    let text = "let x = 1; // 这是一个注释";
    let result = process(text).unwrap();
    assert_eq!(result, "let x = 1; // 这是一个注释");
}

#[test]
fn spaced_source_is_left_unchanged() {
    let source = r####"//! Module level inner doc comment 模块级别的内部文档注释
#![allow(dead_code)] // Allow unused code for example purposes

use std::fmt::{self, Display}; // Use statement 使用语句

// Simple line comment 行注释
/* Block comment
   跨越多行的 Block 注释
*/

/// Outer line doc comment 函数外部文档注释
/** Outer block doc comment
 * 函数的块文档注释
 */
fn example_function<T: Display>(item: T) { // Generic function 泛型函数
    //! Function inner line doc comment 函数内部文档注释
    /*! Function inner block doc comment */

    let message = "Hello, 世界！ Contains escapes: \n\t\""; // Regular string 普通字符串
    let raw_message = r#"Raw string with "quotes" and \escapes 原始字符串"#; // Raw string 原始字符串
    
    let bytes = b"ASCII only byte 字符串"; // Byte string 字节串
    let raw_bytes = br#"Raw ASCII only bytes"#; // Raw byte string 原始字节串

    const PI: f64 = 3.14159; // Constant 常量
    static COUNTER: std::sync::atomic::AtomicUsize = std::sync::atomic::AtomicUsize::new(0); // Static 静态变量

    let calculation = PI * 2.0; // Some calculation

    // Another line comment 另一个行注释
    println!("Item: {}", item); // Using generic item 使用泛型参数
    println!("Raw: {}", raw_message);
    println!("Bytes: {:?}", bytes);
    println!("Raw Bytes: {:?}", raw_bytes);
    println!("Calculation: {}", calculation);
    COUNTER.fetch_add(1, std::sync::atomic::Ordering::SeqCst); // Modify static

    /* Multiline block comment
       containing code like let y = 5; */

    let closure = |x: i32| x + 1; // Closure 闭包
    let _result = closure(5);
}

/// Struct with generic parameter and derive attribute 带有泛型和 derive 属性的结构体
#[derive(Debug, Clone, Copy)]
struct Point<T> {
    x: T, // Generic field 泛型字段
    y: T, // Field with comment 带有注释的字段
}

impl<T: Display> Point<T> {
    /// Associated function for Point Point 的关联函数
    fn new(x: T, y: T) -> Self {
        Point { x, y } // Create new instance 创建新实例
    }

    /// Method for Point Point 的方法
    fn display(&self) { // Self reference 自引用
        println!("Point: ({}, {})", self.x, self.y); // Print coordinates 打印坐标
    }
}

/// Doc comment for enum 枚举的文档注释
#[allow(unused)]
enum Status {
    Ok, // Variant 1
    Error(String), /* Variant 2 comment */
}

/// Trait 定义 Trait Definition
trait Summable {
    /// Method required by trait Trait 要求的方法
    fn sum(&self) -> i32; // Method signature 方法签名
}

/// Trait implementation for Point<i32> 为 Point<i32> 实现 Trait
impl Summable for Point<i32> {
    fn sum(&self) -> i32 {
        self.x + self.y // Calculation 计算
    }
}

/// Macro definition 宏定义 (simple example)
macro_rules! say_hello {
    () => {
        println!("Hello from macro! 来自宏的问候！");
    };
}

/// Module definition 模块定义
mod inner_module {
    /// Function inside module 模块内部函数
    pub(crate) fn inner_function() {
        println!("Inside inner module! 在内部模块中！"); // Print message 打印消息
    }
}

// Final line comment 结束行注释"####;
    assert_eq!(process(source).unwrap(), source);
}

#[test]
fn doc_comment_prefix_is_kept() {
    assert_eq!(process("/// this is一条注释\n").unwrap(), "/// this is 一条注释\n");
    assert_eq!(process("    //! 模块doc\n    fn f() {}").unwrap(), "    //! 模块 doc\n    fn f() {}");
    assert_eq!(process("/*! 内部doc */").unwrap(), "/*! 内部 doc */");
}

#[test]
fn literals_that_are_not_prose() {
    assert_eq!(process("let c = '\"'; let d = '中'; // 注释a").unwrap(), "let c = '\"'; let d = '中'; // 注释 a");
    assert_eq!(process("fn f<'a>(x: &'a str) {} \"文a\"").unwrap(), "fn f<'a>(x: &'a str) {} \"文 a\"");
    assert_eq!(process("/* 未结束a").unwrap(), "/* 未结束a");
    assert_eq!(process("//// 四条斜线a").unwrap(), "//// 四条斜线 a");
}
