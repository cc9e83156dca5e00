use std::collections::hash_map::DefaultHasher;
use std::hash::{Hash, Hasher};

use markup_swift::highlight::{
    code_key, hash_text, highlight_code, keep_highlighted, syntax_for, CodeStyle, PreviewCache, SyntaxChoice,
};
use syntect::easy::HighlightLines;
use syntect::highlighting::ThemeSet;
use syntect::parsing::SyntaxSet;
use syntect::util::LinesWithEndings;

fn std_hash(s: &str) -> u64 {
    let mut h = DefaultHasher::new();
    s.hash(&mut h);
    h.finish()
}

#[test]
fn hashes_match_hash_of_str() {
    for s in ["", "abc", "# Title\n\nbody", "\u{00e9}\u{2026}"] {
        assert_eq!(hash_text(s), std_hash(s));
    }
    let mut h = DefaultHasher::new();
    Hash::hash("code", &mut h);
    Hash::hash("rust", &mut h);
    assert_eq!(code_key("code", "rust"), h.finish());
    assert_ne!(code_key("ab", "c"), code_key("a", "bc"));
}

#[test]
fn markdown_changed_only_once() {
    let mut cache = PreviewCache::new();
    assert!(cache.markdown_changed("abc"));
    assert_eq!(cache.markdown_hash, std_hash("abc"));
    assert!(!cache.markdown_changed("abc"));
    cache.code_cache.insert(1, vec![]);
    assert!(!cache.markdown_changed("abc"));
    assert_eq!(cache.code_cache.len(), 1);
    assert!(cache.markdown_changed("abd"));
    assert!(cache.code_cache.is_empty());
}

/// What syntect itself gives for the code, with the same syntax and theme.
fn syntect_direct(code: &str, token: Option<&str>) -> Vec<Vec<(u8, u8, u8, String)>> {
    let ss = SyntaxSet::load_defaults_newlines();
    let ts = ThemeSet::load_defaults();
    let syntax = match token {
        Some(t) => ss.find_syntax_by_token(t).unwrap(),
        None => ss.find_syntax_plain_text(),
    };
    let mut h = HighlightLines::new(syntax, &ts.themes["base16-ocean.dark"]);
    LinesWithEndings::from(code)
        .filter_map(|l| h.highlight_line(l, &ss).ok())
        .map(|rs| rs.iter().map(|(s, t)| (s.foreground.r, s.foreground.g, s.foreground.b, t.to_string())).collect())
        .collect()
}

#[test]
fn code_blocks_are_highlighted_and_cached() {
    let style = CodeStyle::load();
    let mut cache = PreviewCache::new();
    assert_eq!(cache.prepare_code_block(&style, "  \n\t", "rust", true), None);
    assert!(cache.code_cache.is_empty());

    let code = "fn main() {\n    let x = 1;\n}\n";
    let key = cache.prepare_code_block(&style, code, "rust", true).expect("a key");
    assert_eq!(key, code_key(code, "rust"));
    let lines = cache.code_lines(key).expect("highlighted lines");
    assert_eq!(lines.len(), 3);
    let text: String = lines.iter().flatten().map(|r| r.3.as_str()).collect();
    assert_eq!(text, code);
    assert!(lines[0].len() > 1, "rust code gets several colored runs");
    assert_eq!(*lines, syntect_direct(code, Some("rust")));

    let mut fresh = PreviewCache::new();
    assert_eq!(fresh.prepare_code_block(&style, code, "rust", false), Some(key));
    assert!(fresh.code_lines(key).is_none());
}

#[test]
fn language_picks_the_syntax() {
    let style = CodeStyle::load();
    let code = "def f(x):\n    return x\n";
    assert_eq!(highlight_code(&style, code, "py"), syntect_direct(code, Some("py")));
    assert_eq!(highlight_code(&style, code, "Python"), syntect_direct(code, Some("Python")));
    assert_ne!(highlight_code(&style, code, "py"), syntect_direct(code, None));
    assert_eq!(highlight_code(&style, code, ""), syntect_direct(code, None));
    assert_eq!(highlight_code(&style, code, "no-such-language"), syntect_direct(code, None));
    assert!(matches!(syntax_for(&style, "rs"), SyntaxChoice::Token(t) if t == "rs"));
    assert!(matches!(syntax_for(&style, "no-such-language"), SyntaxChoice::Plain));
    assert!(matches!(syntax_for(&style, ""), SyntaxChoice::Plain));
}

#[test]
fn unknown_language_is_plain_text() {
    let style = CodeStyle::load();
    let out = highlight_code(&style, "a b\nc", "no-such-language");
    assert_eq!(out.len(), 2);
    assert_eq!(out[0].iter().map(|r| r.3.as_str()).collect::<String>(), "a b\n");
    assert_eq!(out[1].iter().map(|r| r.3.as_str()).collect::<String>(), "c");
    assert!(highlight_code(&style, "", "rust").is_empty());
}

#[test]
fn keep_highlighted_keeps_the_lines_in_order() {
    let run = |t: &str| vec![(1u8, 2u8, 3u8, t.to_string())];
    let kept = keep_highlighted(vec![Some(run("a")), None, Some(run("b")), None]);
    assert_eq!(kept, vec![run("a"), run("b")]);
    assert!(keep_highlighted(vec![None, None]).is_empty());
}

#[test]
fn each_cached_line_is_a_line_of_the_code() {
    let style = CodeStyle::load();
    let mut cache = PreviewCache::new();
    let code = "let a = 1;\n\nlet b = \"x\";";
    let key = cache.prepare_code_block(&style, code, "rs", true).expect("a key");
    let lines = cache.code_lines(key).expect("highlighted lines");
    let code_lines: Vec<&str> = LinesWithEndings::from(code).collect();
    assert_eq!(lines.len(), code_lines.len());
    for (runs, line) in lines.iter().zip(code_lines.iter()) {
        assert_eq!(runs.iter().map(|r| r.3.as_str()).collect::<String>(), *line);
    }
    assert!(matches!(syntax_for(&style, "PY"), SyntaxChoice::Token(t) if t == "PY"));
}
