use paranoid_space::markdown::process;

#[test]
fn test_new_line(){
    let result = process("\nThis is a block doc comment\nThis is another line\n");
    assert_eq!(result.unwrap(), "\nThis is a block doc comment\nThis is another line\n");
}

#[test]
fn test_spacing_markdown() {
    let input = r#"
## Example Title
This is `inline code` example.

`another code`

Link: [Example](http://example.com)

- List item 1
- List item 2

*   Task item 1
*   Task item 2 [x]

```rust
fn main() {
    println!("Hello, world!");
}
```

![Alt text](/path/to/image.png)
"#;
    let expected = r#"
## Example Title
This is `inline code` example.

`another code`

Link: [Example](http://example.com)

- List item 1
- List item 2

*   Task item 1
*   Task item 2 [x]

```rust
fn main() {
    println!("Hello, world!");
}
```

![Alt text](/path/to/image.png)
"#;
    assert_eq!(process(input).unwrap(), expected);
}

#[test]
fn test() {
    let input = r#"
/// Summary
///
/// # Example示例
///
/// ```rust
/// let x = 1;
/// ```

///
/// ## Subsection
///
/// Link: [link](https://example.com)
/// Image: ![alt替代内容](/img.png)
/// Code: `code`
/// List:
/// - item1项
/// - item2
"#;
    let expected = r#"
/// Summary
///
/// # Example 示例
///
/// ```rust
/// let x = 1;
/// ```

///
/// ## Subsection
///
/// Link: [link](https://example.com)
/// Image: ![alt 替代内容](/img.png)
/// Code: `code`
/// List:
/// - item1 项
/// - item2
"#;

    let actual = process(input).unwrap();
    assert_eq!(actual, expected); // Use the stored 'actual'
}
