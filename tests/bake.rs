use md_bakery::bake::{BakeError, Patterns, Placeholder};
use md_bakery::lines::{join_lines, split_lines};
use md_bakery::prefix::{common_whitespace_prefix, take_whitespaces_prefix};
use md_bakery::region::{extract_region, region_block, reindent, shift, LineKind};

fn strings(v: &[&str]) -> Vec<String> {
    v.iter().map(|s| s.to_string()).collect()
}

fn patterns() -> Patterns {
    match Patterns::new() {
        Ok(p) => p,
        Err(e) => panic!("pattern {} did not compile: {:?}", e.pattern, e.cause),
    }
}

fn kinds(p: &Patterns, lines: &Vec<String>) -> Vec<LineKind> {
    p.classify_lines(lines)
}

#[test]
fn whitespace_prefix_of_lines() {
    assert_eq!(take_whitespaces_prefix(""), "");
    assert_eq!(take_whitespaces_prefix("abc"), "");
    assert_eq!(take_whitespaces_prefix(" \t x y"), " \t ");
    assert_eq!(take_whitespaces_prefix("   "), "   ");
    assert_eq!(take_whitespaces_prefix("\u{3000}\u{a0}a"), "\u{3000}\u{a0}");
}

#[test]
fn common_prefix_of_lines() {
    assert_eq!(common_whitespace_prefix(&strings(&["  a", "    b", "  c"])), "  ");
    assert_eq!(common_whitespace_prefix(&strings(&["  a", "\t b"])), "");
    assert_eq!(common_whitespace_prefix(&strings(&[" \t a", " \t\tb"])), " \t");
    assert_eq!(common_whitespace_prefix(&strings(&["    a", "", "    b"])), "    ");
    assert_eq!(common_whitespace_prefix(&strings(&[])), "");
    assert_eq!(common_whitespace_prefix(&strings(&["", ""])), "");
}

#[test]
fn reindent_strips_common_prefix() {
    let lines = strings(&["  a", "    b", "  c"]);
    assert_eq!(reindent(&lines, ""), strings(&["a", "  b", "c"]));
    assert_eq!(reindent(&lines, "> "), strings(&["> a", ">   b", "> c"]));
    assert_eq!(reindent(&strings(&["  a", "", "  b"]), "  "), strings(&["  a", "  ", "  b"]));
}

#[test]
fn shift_prepends_indent() {
    assert_eq!(shift(&strings(&["a", ""]), "  "), strings(&["  a", "  "]));
}

#[test]
fn split_and_join_lines() {
    assert_eq!(split_lines(""), strings(&[]));
    assert_eq!(split_lines("a"), strings(&["a"]));
    assert_eq!(split_lines("a\n"), strings(&["a"]));
    assert_eq!(split_lines("a\r\nb\n\nc"), strings(&["a", "b", "", "c"]));
    assert_eq!(split_lines("a\rb\r"), strings(&["a\rb\r"]));
    assert_eq!(split_lines("\n"), strings(&[""]));
    assert_eq!(join_lines(&strings(&["a", "", "b"])), "a\n\nb");
    assert_eq!(join_lines(&strings(&[])), "");
}

#[test]
fn classify_markers() {
    let p = patterns();
    let k = p.classify("// [md-bakery: begin @x]");
    assert_eq!(k.begin, Some("x".to_string()));
    assert!(!k.end);
    let k = p.classify("  # [ md-bakery : begin ]");
    assert_eq!(k.begin, Some(String::new()));
    let k = p.classify("// [md-bakery: end]");
    assert_eq!(k.begin, None);
    assert!(k.end);
    let k = p.classify("let x = 1;");
    assert_eq!(k.begin, None);
    assert!(!k.end);
}

#[test]
fn region_between_first_pair() {
    let p = patterns();
    let lines = strings(&[
        "head",
        "// [md-bakery: begin @x]",
        "x1",
        "  x2",
        "// [md-bakery: end]",
        "middle",
        "// [md-bakery: begin @y]",
        "y1",
        "// [md-bakery: end]",
    ]);
    let k = kinds(&p, &lines);
    assert_eq!(extract_region(&lines, &k, "x"), Some(strings(&["x1", "  x2"])));
    assert_eq!(extract_region(&lines, &k, "y"), Some(strings(&["y1"])));
}

#[test]
fn region_only_first_span_is_used() {
    let p = patterns();
    let lines = strings(&[
        "// [md-bakery: begin @x]",
        "a",
        "// [md-bakery: end]",
        "// [md-bakery: begin @x]",
        "b",
        "// [md-bakery: end]",
    ]);
    let k = kinds(&p, &lines);
    assert_eq!(extract_region(&lines, &k, "x"), Some(strings(&["a"])));
}

#[test]
fn region_empty_and_unterminated() {
    let p = patterns();
    let lines = strings(&["// [md-bakery: begin @e]", "// [md-bakery: end]", "z"]);
    let k = kinds(&p, &lines);
    assert_eq!(extract_region(&lines, &k, "e"), Some(strings(&[])));
    let lines = strings(&["// [md-bakery: begin @u]", "p", "q"]);
    let k = kinds(&p, &lines);
    assert_eq!(extract_region(&lines, &k, "u"), Some(strings(&["p", "q"])));
}

#[test]
fn missing_region_falls_back_to_whole_file() {
    let p = patterns();
    let lines = strings(&["a", "// [md-bakery: begin @x]", "b", "// [md-bakery: end]"]);
    let k = kinds(&p, &lines);
    assert_eq!(extract_region(&lines, &k, "nope"), None);
    assert_eq!(region_block(&lines, &k, "nope", ""), lines);
}

#[test]
fn whole_file_keeps_relative_indentation() {
    let p = patterns();
    let lines = strings(&["fn a() {", "    x", "}"]);
    let k = kinds(&p, &lines);
    assert_eq!(
        region_block(&lines, &k, "", "  "),
        strings(&["  fn a() {", "      x", "  }"])
    );
    let doc = "  ```rust:source a.rs ```";
    let out = p.bake(doc, &strings(&["fn a() {\n    x\n}\n"])).unwrap();
    assert_eq!(out, "  ```rust\n  fn a() {\n      x\n  }\n  ```");
}

#[test]
fn placeholders_are_listed() {
    let p = patterns();
    let doc = "text\n  ```rust:source@snippet-a path/to/file.rs    ```\n```go : source x.go ```\n";
    let got = p.placeholders(doc);
    assert_eq!(
        got,
        vec![
            Placeholder {
                indent: "  ".to_string(),
                lang: "rust".to_string(),
                name: "snippet-a".to_string(),
                path: "path/to/file.rs".to_string(),
            },
            Placeholder {
                indent: String::new(),
                lang: "go".to_string(),
                name: String::new(),
                path: "x.go".to_string(),
            },
        ]
    );
}

#[test]
fn escaped_placeholder_is_not_expanded() {
    let p = patterns();
    let doc = "```go:!source myfile.go    ```";
    assert_eq!(p.placeholders(doc), vec![]);
    let out = p.bake(doc, &vec![]).unwrap();
    assert!(out.contains("```go:source myfile.go    ```"));
    assert_eq!(out, "```go:source myfile.go    ```");
}

#[test]
fn escape_resolution_is_idempotent() {
    let p = patterns();
    let doc = "a ```rust:!source@s f.rs ```\n```c: ! source x\n```py:!!source y";
    let once = p.resolve_escapes(doc).unwrap();
    assert_eq!(once, "a ```rust:source@s f.rs ```\n```c:  source x\n```py:!!source y");
    let twice = p.resolve_escapes(&once).unwrap();
    assert_eq!(twice, once);
}

#[test]
fn end_to_end_named_region() {
    let p = patterns();
    let doc = "```python:source@greet greet.py    ```";
    let found = p.placeholders(doc);
    assert_eq!(found.len(), 1);
    assert_eq!(found[0].path, "greet.py");
    let greet = "# [md-bakery: begin @greet]\nprint(\"hi\")\n# [md-bakery: end]\n";
    let out = p.bake(doc, &strings(&[greet])).unwrap();
    assert_eq!(out, "```python\nprint(\"hi\")\n```");
}

#[test]
fn expansion_is_not_searched_again() {
    let p = patterns();
    let doc = "before\n```md:source inner.md ```\nafter";
    let inner = "```rust:source other.rs ```";
    let out = p.expand(doc, &strings(&[inner])).unwrap();
    assert_eq!(out, "before\n```md\n```rust:source other.rs ```\n```\nafter");
}

#[test]
fn source_count_must_match() {
    let p = patterns();
    let doc = "```rust:source a.rs ```";
    assert_eq!(p.bake(doc, &vec![]), Err(BakeError::SourceCount));
    assert_eq!(p.bake("no fences", &strings(&["extra"])), Err(BakeError::SourceCount));
    assert_eq!(p.bake("no fences", &vec![]), Ok("no fences".to_string()));
}

#[test]
fn unnamed_region_for_unnamed_placeholder() {
    let p = patterns();
    let doc = "```rust:source a.rs ```";
    let content = "x\n// [md-bakery: begin]\n    y\n// [md-bakery: end]\nz";
    assert_eq!(p.bake(doc, &strings(&[content])), Ok("```rust\ny\n```".to_string()));
    let named = "```rust:source@k a.rs ```";
    assert_eq!(p.bake(named, &strings(&[content])).unwrap(), "```rust\nx\n// [md-bakery: begin]\n    y\n// [md-bakery: end]\nz\n```");
}
