use markup_swift::preview::{
    blocks_from_events, font_for, heading_layout, segment_style, heading_gaps, heading_size, is_blank_line, line_kind, preview_blocks,
    split_lines, ActiveFormats, Block, EndTag, FontKind, LineKind, MdEvent, PreviewState, Segment, StartTag,
};

fn plain() -> ActiveFormats {
    ActiveFormats::default()
}

fn seg(text: &str, fmts: ActiveFormats) -> Segment {
    Segment { text: text.to_string(), fmts }
}

fn texts(segs: &[Segment]) -> Vec<(String, ActiveFormats)> {
    segs.iter().map(|s| (s.text.clone(), s.fmts)).collect()
}

#[test]
fn heading_and_paragraph() {
    let blocks = preview_blocks("# Title\n\nHello *world*");
    assert_eq!(blocks.len(), 2);
    match &blocks[0] {
        Block::Heading { segs, level } => {
            assert_eq!(*level, 1);
            assert_eq!(texts(segs), vec![("Title".to_string(), plain())]);
        }
        _ => panic!("expected a heading"),
    }
    match &blocks[1] {
        Block::Paragraph { segs, list_depth, quote_depth } => {
            assert_eq!((*list_depth, *quote_depth), (0, 0));
            let italic = ActiveFormats { italic: true, ..plain() };
            assert_eq!(
                texts(segs),
                vec![("Hello ".to_string(), plain()), ("world".to_string(), italic)]
            );
        }
        _ => panic!("expected a paragraph"),
    }
}

#[test]
fn list_items_carry_their_depth() {
    let blocks = preview_blocks("- a\n- b\n  - c");
    let items: Vec<(Vec<(String, ActiveFormats)>, usize)> = blocks
        .iter()
        .map(|b| match b {
            Block::Item { segs, list_depth, .. } => (texts(segs), *list_depth),
            _ => panic!("expected only items"),
        })
        .collect();
    assert_eq!(items.len(), 3);
    assert_eq!(items[0], (vec![("a".to_string(), plain())], 1));
    assert_eq!(items[1], (vec![("c".to_string(), plain())], 2));
    assert_eq!(items[2].1, 1);
}

#[test]
fn fenced_code_block_keeps_code_and_language() {
    let blocks = preview_blocks("```rust\nfn main() {}\n```\n");
    assert_eq!(blocks.len(), 1);
    match &blocks[0] {
        Block::CodeBlock { code, lang } => {
            assert_eq!(code, "fn main() {}\n");
            assert_eq!(lang, "rust");
        }
        _ => panic!("expected a code block"),
    }
}

#[test]
fn indented_code_block_has_no_language() {
    let blocks = preview_blocks("    let x = 1;\n");
    match &blocks[0] {
        Block::CodeBlock { code, lang } => {
            assert_eq!(code, "let x = 1;\n");
            assert_eq!(lang, "");
        }
        _ => panic!("expected a code block"),
    }
}

#[test]
fn inline_code_task_marker_rule_and_quote() {
    let code = ActiveFormats { inline_code: true, ..plain() };
    let blocks = preview_blocks("use `x` here\n\n- [x] done\n\n---\n\n> quoted");
    assert_eq!(blocks.len(), 4);
    match &blocks[0] {
        Block::Paragraph { segs, .. } => assert_eq!(
            texts(segs),
            vec![
                ("use ".to_string(), plain()),
                ("`x`".to_string(), code),
                (" here".to_string(), plain())
            ]
        ),
        _ => panic!("expected a paragraph"),
    }
    match &blocks[1] {
        Block::Item { segs, .. } => {
            assert_eq!(texts(segs), vec![("\u{2611} ".to_string(), code), ("done".to_string(), plain())])
        }
        _ => panic!("expected an item"),
    }
    assert!(matches!(blocks[2], Block::Rule));
    match &blocks[3] {
        Block::Paragraph { quote_depth, list_depth, .. } => assert_eq!((*quote_depth, *list_depth), (1, 0)),
        _ => panic!("expected a quoted paragraph"),
    }
}

#[test]
fn strong_strike_and_link_formats() {
    let blocks = preview_blocks("**b** ~~s~~ [l](http://x)");
    match &blocks[0] {
        Block::Paragraph { segs, .. } => {
            let f: Vec<ActiveFormats> = segs.iter().map(|s| s.fmts).collect();
            assert_eq!(f[0], ActiveFormats { bold: true, ..plain() });
            assert_eq!(f[2], ActiveFormats { strike: true, ..plain() });
            assert_eq!(f[4], ActiveFormats { link: true, ..plain() });
        }
        _ => panic!("expected a paragraph"),
    }
}

#[test]
fn soft_break_becomes_a_newline_segment() {
    let blocks = preview_blocks("one\ntwo");
    match &blocks[0] {
        Block::Paragraph { segs, .. } => assert_eq!(
            texts(segs),
            vec![("one".to_string(), plain()), ("\n".to_string(), plain()), ("two".to_string(), plain())]
        ),
        _ => panic!("expected a paragraph"),
    }
}

#[test]
fn state_machine_on_hand_made_events() {
    let events = vec![
        MdEvent::Start(StartTag::BlockQuote),
        MdEvent::Start(StartTag::Paragraph),
        MdEvent::Start(StartTag::Strong),
        MdEvent::Text("x".to_string()),
        MdEvent::End(EndTag::Strong),
        MdEvent::End(EndTag::Paragraph),
        MdEvent::End(EndTag::BlockQuote),
        MdEvent::End(EndTag::BlockQuote),
        MdEvent::Start(StartTag::CodeBlock(Some("py".to_string()))),
        MdEvent::Text("a\n".to_string()),
        MdEvent::Text("b\n".to_string()),
        MdEvent::End(EndTag::CodeBlock),
        MdEvent::End(EndTag::Heading(3)),
        MdEvent::Rule,
        MdEvent::Other,
    ];
    let blocks = blocks_from_events(&events);
    assert_eq!(blocks.len(), 4);
    match &blocks[0] {
        Block::Paragraph { segs, quote_depth, .. } => {
            assert_eq!(*quote_depth, 1);
            assert_eq!(texts(segs), vec![("x".to_string(), ActiveFormats { bold: true, ..plain() })]);
        }
        _ => panic!(),
    }
    match &blocks[1] {
        Block::CodeBlock { code, lang } => assert_eq!((code.as_str(), lang.as_str()), ("a\nb\n", "py")),
        _ => panic!(),
    }
    match &blocks[2] {
        Block::Heading { segs, level } => assert_eq!((segs.len(), *level), (0, 3)),
        _ => panic!(),
    }
    assert!(matches!(blocks[3], Block::Rule));
    let mut state = PreviewState::new();
    state.step(&MdEvent::End(EndTag::BlockQuote));
    assert_eq!(state.quote_depth, 0);
    state.step(&MdEvent::End(EndTag::List));
    assert!(state.list_stack.is_empty());
}

#[test]
fn split_lines_drops_breaks_and_empty_lines() {
    let segs = vec![
        seg("\n", plain()),
        seg("a", plain()),
        seg("b", plain()),
        seg("\n", plain()),
        seg("\n", plain()),
        seg("c", plain()),
    ];
    let lines = split_lines(&segs);
    let shown: Vec<Vec<String>> = lines.iter().map(|l| l.iter().map(|s| s.text.clone()).collect()).collect();
    assert_eq!(shown, vec![vec!["a".to_string(), "b".to_string()], vec!["c".to_string()]]);
    assert!(split_lines(&vec![seg("\n", plain())]).is_empty());
}

#[test]
fn blank_lines() {
    assert!(is_blank_line(&vec![]));
    assert!(is_blank_line(&vec![seg("  ", plain())]));
    assert!(!is_blank_line(&vec![seg(" ", plain()), seg(" ", plain())]));
    assert!(!is_blank_line(&vec![seg("x", plain())]));
}

#[test]
fn heading_sizes_and_gaps() {
    assert_eq!([1, 2, 3, 4, 5, 6].map(heading_size), [24, 20, 17, 15, 14, 14]);
    assert_eq!(heading_gaps(1), (12, 4));
    assert_eq!(heading_gaps(2), (8, 2));
}

#[test]
fn line_kinds_and_fonts() {
    assert_eq!(line_kind(0, 0), LineKind::Plain);
    assert_eq!(line_kind(0, 2), LineKind::Quote);
    assert_eq!(line_kind(1, 2), LineKind::Bullet { indent: 0 });
    assert_eq!(line_kind(3, 0), LineKind::Bullet { indent: 32 });
    assert_eq!(font_for(ActiveFormats { bold: true, inline_code: true, ..plain() }), FontKind::Bold);
    assert_eq!(font_for(ActiveFormats { inline_code: true, ..plain() }), FontKind::Monospace);
    assert_eq!(font_for(ActiveFormats { italic: true, ..plain() }), FontKind::Proportional);
}

#[test]
fn segment_styles_and_heading_layouts() {
    let link = segment_style(ActiveFormats { link: true, bold: true, ..plain() });
    assert_eq!(link.font, FontKind::Bold);
    assert!(link.link_color && link.underline && !link.italic && !link.strikethrough);
    let struck = segment_style(ActiveFormats { strike: true, italic: true, ..plain() });
    assert!(struck.strikethrough && struck.italic && !struck.link_color && !struck.underline);
    assert!(heading_layout(&vec![], 1).is_none());
    let h = heading_layout(&vec![seg("a", plain()), seg("\n", plain()), seg("b", plain())], 2).unwrap();
    assert_eq!((h.size, h.before, h.after, h.lines.len()), (20, 8, 2, 2));
}
