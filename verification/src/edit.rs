//! Edits of the markdown: wrapping the selection in a pair of marks, and
//! putting a prefix at the start of the cursor's line. Positions are byte
//! positions into the markdown's UTF-8 text, and must fall on character
//! boundaries.

use vstd::prelude::*;

use crate::app::{app_wf, tabs_view, App, AppView, TabView};
use vstd::utf8::{
    decode_utf8, encode_utf8, is_char_boundary, is_char_boundary_iff_is_leading_byte,
    is_char_boundary_iff_not_is_continuation_byte, is_char_boundary_start_end_of_seq,
    is_continuation_byte, length_of_first_scalar, pop_first_scalar, valid_first_scalar, valid_utf8,
    valid_utf8_split,
};

verus! {

/// The UTF-8 bytes of `x` and `y` one after the other are those of `x`,
/// then those of `y`.
pub proof fn lemma_encode_concat(x: Seq<char>, y: Seq<char>)
    ensures
        encode_utf8(x + y) == encode_utf8(x) + encode_utf8(y),
    decreases x.len(),
{
    if x.len() == 0 {
        assert(x + y =~= y);
        assert(encode_utf8(x) + encode_utf8(y) =~= encode_utf8(y));
    } else {
        lemma_encode_concat(x.drop_first(), y);
        assert((x + y).drop_first() =~= x.drop_first() + y);
        assert((x + y)[0] == x[0]);
        assert(encode_utf8(x + y) =~= encode_utf8(x) + encode_utf8(y));
    }
}

/// A position of a text that is a character boundary stays one in a prefix
/// of the text that ends at a character boundary past it.
proof fn lemma_boundary_in_prefix(b: Seq<u8>, s: int, e: int)
    requires
        valid_utf8(b),
        is_char_boundary(b, s),
        is_char_boundary(b, e),
        0 <= s <= e <= b.len(),
    ensures
        is_char_boundary(b.subrange(0, e), s),
        valid_utf8(b.subrange(0, e)),
{
    broadcast use vstd::utf8::group_utf8_lib;

    valid_utf8_split(b, e);
    let q = b.subrange(0, e);
    if s == e {
        is_char_boundary_start_end_of_seq(q);
    } else if s == 0 {
        is_char_boundary_start_end_of_seq(q);
    } else {
        is_char_boundary_iff_not_is_continuation_byte(b, s);
        is_char_boundary_iff_not_is_continuation_byte(q, s);
    }
}

/// The position just after a newline byte is a character boundary.
proof fn lemma_boundary_after_newline(b: Seq<u8>, i: int)
    requires
        valid_utf8(b),
        0 <= i < b.len(),
        b[i] == 10,
    ensures
        is_char_boundary(b, i + 1),
{
    broadcast use vstd::utf8::group_utf8_lib;

    if i + 1 == b.len() {
        is_char_boundary_start_end_of_seq(b);
    } else {
        is_char_boundary_iff_is_leading_byte(b, i);
        valid_utf8_split(b, i);
        let s = b.subrange(i, b.len() as int);
        assert(s[0] == 10);
        assert(valid_first_scalar(s) && valid_utf8(pop_first_scalar(s)));
        assert(length_of_first_scalar(s) == 1);
        let t = pop_first_scalar(s);
        assert(t =~= b.subrange(i + 1, b.len() as int));
        assert(t.len() > 0);
        assert(valid_first_scalar(t));
        assert(t[0] == b[i + 1]);
        assert(!is_continuation_byte(b[i + 1]));
        is_char_boundary_iff_not_is_continuation_byte(b, i + 1);
    }
}

/// The bytes of a text with the bytes from position `a` to position `c` (in
/// either order) wrapped in `left` and `right`.
pub open spec fn wrapped_bytes(b: Seq<u8>, a: nat, c: nat, left: Seq<u8>, right: Seq<u8>) -> Seq<u8> {
    let s = if a <= c { a } else { c };
    let e = if a <= c { c } else { a };
    b.take(s as int) + left + b.subrange(s as int, e as int) + right + b.skip(e as int)
}

/// The text with the part from byte position `a` to byte position `c` (in
/// either order) wrapped in `left` and `right`.
pub open spec fn wrapped_text(t: Seq<char>, a: nat, c: nat, left: Seq<char>, right: Seq<char>) -> Seq<char> {
    decode_utf8(wrapped_bytes(encode_utf8(t), a, c, encode_utf8(left), encode_utf8(right)))
}

/// Wraps the part of `text` from byte position `primary` to byte position
/// `secondary` (in either order) in `left` and `right`. The positions must
/// fall on character boundaries, as slicing a string requires.
pub fn wrap_range(text: &mut String, primary: usize, secondary: usize, left: &str, right: &str)
    requires
        is_char_boundary(encode_utf8(old(text)@), primary as int),
        is_char_boundary(encode_utf8(old(text)@), secondary as int),
    ensures
        encode_utf8(final(text)@) == wrapped_bytes(
            encode_utf8(old(text)@),
            primary as nat,
            secondary as nat,
            encode_utf8(left@),
            encode_utf8(right@),
        ),
        final(text)@ == wrapped_text(old(text)@, primary as nat, secondary as nat, left@, right@),
{
    broadcast use vstd::utf8::group_utf8_lib;

    let s = if primary <= secondary { primary } else { secondary };
    let e = if primary <= secondary { secondary } else { primary };
    let ghost b = encode_utf8(old(text)@);
    let r = {
        let t = text.as_str();
        proof {
            lemma_boundary_in_prefix(b, s as int, e as int);
        }
        let (q, c) = t.split_at(e);
        let (p, m) = q.split_at(s);
        let r = String::from_str(p).concat(left).concat(m).concat(right).concat(c);
        proof {
            lemma_encode_concat(p@, left@);
            lemma_encode_concat(p@ + left@, m@);
            lemma_encode_concat(p@ + left@ + m@, right@);
            lemma_encode_concat(p@ + left@ + m@ + right@, c@);
            assert(p@ + left@ + m@ + right@ + c@ == r@);
            assert(encode_utf8(p@) =~= b.take(s as int));
            assert(encode_utf8(m@) =~= b.subrange(s as int, e as int));
            assert(encode_utf8(c@) =~= b.skip(e as int));
        }
        r
    };
    *text = r;
    assert(encode_utf8(text@) =~= wrapped_bytes(b, primary as nat, secondary as nat, encode_utf8(left@), encode_utf8(right@)));
}

/// The byte position where the line of `cursor` starts: just after the last
/// newline before the cursor, or 0.
pub open spec fn line_start_of(b: Seq<u8>, cursor: nat) -> nat
    decreases cursor,
{
    if cursor == 0 {
        0
    } else if b[cursor - 1] == 10 {
        cursor
    } else {
        line_start_of(b, (cursor - 1) as nat)
    }
}

/// The byte position where the line of `cursor` starts.
pub fn line_start(text: &str, cursor: usize) -> (start: usize)
    requires
        cursor <= encode_utf8(text@).len(),
    ensures
        start == line_start_of(encode_utf8(text@), cursor as nat),
{
    let bytes = text.as_bytes();
    let mut c = cursor;
    while c > 0 && bytes[c - 1] != 10
        invariant
            bytes@ == encode_utf8(text@),
            c <= cursor <= bytes@.len(),
            line_start_of(bytes@, cursor as nat) == line_start_of(bytes@, c as nat),
        decreases c,
    {
        c = c - 1;
    }
    c
}

/// The start of the cursor's line is where the line begins: at the text's
/// start or just after a newline, with no newline between it and the
/// cursor.
pub proof fn lemma_line_start(b: Seq<u8>, cursor: nat)
    requires
        cursor <= b.len(),
    ensures
        line_start_of(b, cursor) <= cursor,
        line_start_of(b, cursor) == 0 || b[line_start_of(b, cursor) - 1] == 10,
        forall|j: int| line_start_of(b, cursor) <= j < cursor ==> b[j] != 10,
    decreases cursor,
{
    if cursor > 0 && b[cursor - 1] != 10 {
        lemma_line_start(b, (cursor - 1) as nat);
    }
}

/// The bytes of a text with `prefix` put at the start of the line of
/// byte position `cursor`.
pub open spec fn prepended_bytes(b: Seq<u8>, cursor: nat, prefix: Seq<u8>) -> Seq<u8> {
    let s = line_start_of(b, cursor);
    b.take(s as int) + prefix + b.skip(s as int)
}

/// The text with `prefix` put at the start of the line of byte position
/// `cursor`.
pub open spec fn prepended_text(t: Seq<char>, cursor: nat, prefix: Seq<char>) -> Seq<char> {
    decode_utf8(prepended_bytes(encode_utf8(t), cursor, encode_utf8(prefix)))
}

/// Puts `prefix` at the start of the line of byte position `cursor`, which
/// must fall on a character boundary, as slicing a string requires.
pub fn prepend_line(text: &mut String, cursor: usize, prefix: &str)
    requires
        is_char_boundary(encode_utf8(old(text)@), cursor as int),
    ensures
        encode_utf8(final(text)@) == prepended_bytes(encode_utf8(old(text)@), cursor as nat, encode_utf8(prefix@)),
        final(text)@ == prepended_text(old(text)@, cursor as nat, prefix@),
{
    broadcast use vstd::utf8::group_utf8_lib;

    let ghost b = encode_utf8(old(text)@);
    let r = {
        let t = text.as_str();
        let s = line_start(t, cursor);
        proof {
            lemma_line_start(b, cursor as nat);
            if s == 0 {
                is_char_boundary_start_end_of_seq(b);
            } else {
                lemma_boundary_after_newline(b, s - 1);
            }
        }
        let (p, c) = t.split_at(s);
        let r = String::from_str(p).concat(prefix).concat(c);
        proof {
            lemma_encode_concat(p@, prefix@);
            lemma_encode_concat(p@ + prefix@, c@);
            assert(encode_utf8(p@) =~= b.take(s as int));
            assert(encode_utf8(c@) =~= b.skip(s as int));
        }
        r
    };
    *text = r;
    assert(encode_utf8(text@) =~= prepended_bytes(b, cursor as nat, encode_utf8(prefix@)));
}

/// The marks that a typed character wraps a selection in: quotes,
/// emphasis marks and backticks pair with themselves, brackets with their
/// closing bracket.
pub open spec fn wrap_pair_of(typed: Seq<char>) -> Option<(char, char)> {
    if typed.len() != 1 {
        None
    } else {
        let c = typed[0];
        if c == '*' || c == '`' || c == '"' || c == '\'' || c == '_' {
            Some((c, c))
        } else if c == '(' {
            Some(('(', ')'))
        } else if c == '[' {
            Some(('[', ']'))
        } else if c == '{' {
            Some(('{', '}'))
        } else if c == '<' {
            Some(('<', '>'))
        } else {
            None
        }
    }
}

/// A one-character string of `c`, for the wrap marks.
fn mark_str(c: char) -> (s: &'static str)
    requires
        c == '*' || c == '`' || c == '"' || c == '\'' || c == '_' || c == '(' || c == ')' || c == '['
            || c == ']' || c == '{' || c == '}' || c == '<' || c == '>',
    ensures
        s@ == seq![c],
{
    if c == '*' {
        proof { reveal_strlit("*"); }
        "*"
    } else if c == '`' {
        proof { reveal_strlit("`"); }
        "`"
    } else if c == '"' {
        proof { reveal_strlit("\""); }
        "\""
    } else if c == '\'' {
        proof { reveal_strlit("'"); }
        "'"
    } else if c == '_' {
        proof { reveal_strlit("_"); }
        "_"
    } else if c == '(' {
        proof { reveal_strlit("("); }
        "("
    } else if c == ')' {
        proof { reveal_strlit(")"); }
        ")"
    } else if c == '[' {
        proof { reveal_strlit("["); }
        "["
    } else if c == ']' {
        proof { reveal_strlit("]"); }
        "]"
    } else if c == '{' {
        proof { reveal_strlit("{"); }
        "{"
    } else if c == '}' {
        proof { reveal_strlit("}"); }
        "}"
    } else if c == '<' {
        proof { reveal_strlit("<"); }
        "<"
    } else {
        proof { reveal_strlit(">"); }
        ">"
    }
}

/// The marks that a typed text wraps a selection in, if it is one of the
/// wrapping characters.
pub fn wrap_pair(typed: &str) -> (pair: Option<(char, char)>)
    ensures
        pair == wrap_pair_of(typed@),
{
    if typed.unicode_len() != 1 {
        return None;
    }
    let c = typed.get_char(0);
    if c == '*' || c == '`' || c == '"' || c == '\'' || c == '_' {
        Some((c, c))
    } else if c == '(' {
        Some(('(', ')'))
    } else if c == '[' {
        Some(('[', ']'))
    } else if c == '{' {
        Some(('{', '}'))
    } else if c == '<' {
        Some(('<', '>'))
    } else {
        None
    }
}

/// The index of the first typed text that wraps a selection, if any.
pub fn first_wrap_trigger(typed: &Vec<String>) -> (idx: Option<usize>)
    ensures
        match idx {
            Some(i) => i < typed@.len() && wrap_pair_of(typed@[i as int]@) is Some && forall|j: int|
                0 <= j < i ==> wrap_pair_of(#[trigger] typed@[j]@) is None,
            None => forall|j: int| 0 <= j < typed@.len() ==> wrap_pair_of(#[trigger] typed@[j]@) is None,
        },
{
    let mut i: usize = 0;
    while i < typed.len()
        invariant
            i <= typed@.len(),
            forall|j: int| 0 <= j < i ==> wrap_pair_of(#[trigger] typed@[j]@) is None,
        decreases typed.len() - i,
    {
        if wrap_pair(typed[i].as_str()).is_some() {
            return Some(i);
        }
        i = i + 1;
    }
    None
}

/// What typing `typed` over the selection from `primary` to `secondary`
/// does to the text: an empty selection, or a text that wraps nothing,
/// leaves it as it is; otherwise the selection is wrapped in the pair.
pub open spec fn typed_wrap_of(t: Seq<char>, primary: nat, secondary: nat, typed: Seq<char>) -> Option<Seq<char>> {
    if primary == secondary {
        None
    } else {
        match wrap_pair_of(typed) {
            Some((l, r)) => Some(wrapped_text(t, primary, secondary, seq![l], seq![r])),
            None => None,
        }
    }
}

/// Wraps the selection in the pair of marks of a typed character, and tells
/// whether it did.
pub fn wrap_typed(text: &mut String, typed: &str, primary: usize, secondary: usize) -> (done: bool)
    requires
        is_char_boundary(encode_utf8(old(text)@), primary as int),
        is_char_boundary(encode_utf8(old(text)@), secondary as int),
    ensures
        done == typed_wrap_of(old(text)@, primary as nat, secondary as nat, typed@) is Some,
        match typed_wrap_of(old(text)@, primary as nat, secondary as nat, typed@) {
            Some(t) => final(text)@ == t,
            None => final(text)@ == old(text)@,
        },
{
    if primary == secondary {
        return false;
    }
    match wrap_pair(typed) {
        Some((l, r)) => {
            wrap_range(text, primary, secondary, mark_str(l), mark_str(r));
            true
        },
        None => false,
    }
}

/// The entries of the editor's context menu.
#[derive(Clone, Copy, Debug, PartialEq, Eq, Structural)]
pub enum MenuItem {
    Bold,
    Italic,
    Strikethrough,
    InlineCode,
    Link,
    Heading1,
    Heading2,
    Heading3,
    Blockquote,
    BulletList,
}

/// What a menu entry does to the markdown.
pub enum MenuEdit {
    /// Wraps the selection in these marks.
    Wrap(&'static str, &'static str),
    /// Puts this prefix at the start of the cursor's line.
    Prepend(&'static str),
}

/// What a menu entry does, as plain values.
pub enum MenuEditView {
    Wrap(Seq<char>, Seq<char>),
    Prepend(Seq<char>),
}

impl View for MenuEdit {
    type V = MenuEditView;

    open spec fn view(&self) -> MenuEditView {
        match self {
            MenuEdit::Wrap(l, r) => MenuEditView::Wrap(l@, r@),
            MenuEdit::Prepend(p) => MenuEditView::Prepend(p@),
        }
    }
}

/// What each menu entry does: bold wraps in `**`, italic in `*`,
/// strikethrough in `~~`, inline code in backticks, a link in `[` and
/// `](url)`; the headings put `# `, `## ` or `### ` before the line, a
/// quote `> ` and a bullet `- `.
pub open spec fn menu_edit_of(item: MenuItem) -> MenuEditView {
    match item {
        MenuItem::Bold => MenuEditView::Wrap(seq!['*', '*'], seq!['*', '*']),
        MenuItem::Italic => MenuEditView::Wrap(seq!['*'], seq!['*']),
        MenuItem::Strikethrough => MenuEditView::Wrap(seq!['~', '~'], seq!['~', '~']),
        MenuItem::InlineCode => MenuEditView::Wrap(seq!['`'], seq!['`']),
        MenuItem::Link => MenuEditView::Wrap(seq!['['], seq![']', '(', 'u', 'r', 'l', ')']),
        MenuItem::Heading1 => MenuEditView::Prepend(seq!['#', ' ']),
        MenuItem::Heading2 => MenuEditView::Prepend(seq!['#', '#', ' ']),
        MenuItem::Heading3 => MenuEditView::Prepend(seq!['#', '#', '#', ' ']),
        MenuItem::Blockquote => MenuEditView::Prepend(seq!['>', ' ']),
        MenuItem::BulletList => MenuEditView::Prepend(seq!['-', ' ']),
    }
}

/// What a menu entry does.
pub fn menu_edit(item: MenuItem) -> (edit: MenuEdit)
    ensures
        edit@ == menu_edit_of(item),
{
    match item {
        MenuItem::Bold => {
            proof { reveal_strlit("**"); }
            assert("**"@ =~= seq!['*', '*']);
            MenuEdit::Wrap("**", "**")
        },
        MenuItem::Italic => {
            proof { reveal_strlit("*"); }
            assert("*"@ =~= seq!['*']);
            MenuEdit::Wrap("*", "*")
        },
        MenuItem::Strikethrough => {
            proof { reveal_strlit("~~"); }
            assert("~~"@ =~= seq!['~', '~']);
            MenuEdit::Wrap("~~", "~~")
        },
        MenuItem::InlineCode => {
            proof { reveal_strlit("`"); }
            assert("`"@ =~= seq!['`']);
            MenuEdit::Wrap("`", "`")
        },
        MenuItem::Link => {
            proof {
                reveal_strlit("[");
                reveal_strlit("](url)");
            }
            assert("["@ =~= seq!['[']);
            assert("](url)"@ =~= seq![']', '(', 'u', 'r', 'l', ')']);
            MenuEdit::Wrap("[", "](url)")
        },
        MenuItem::Heading1 => {
            proof { reveal_strlit("# "); }
            assert("# "@ =~= seq!['#', ' ']);
            MenuEdit::Prepend("# ")
        },
        MenuItem::Heading2 => {
            proof { reveal_strlit("## "); }
            assert("## "@ =~= seq!['#', '#', ' ']);
            MenuEdit::Prepend("## ")
        },
        MenuItem::Heading3 => {
            proof { reveal_strlit("### "); }
            assert("### "@ =~= seq!['#', '#', '#', ' ']);
            MenuEdit::Prepend("### ")
        },
        MenuItem::Blockquote => {
            proof { reveal_strlit("> "); }
            assert("> "@ =~= seq!['>', ' ']);
            MenuEdit::Prepend("> ")
        },
        MenuItem::BulletList => {
            proof { reveal_strlit("- "); }
            assert("- "@ =~= seq!['-', ' ']);
            MenuEdit::Prepend("- ")
        },
    }
}

/// The label of a menu entry.
pub open spec fn menu_label_of(item: MenuItem) -> Seq<char> {
    match item {
        MenuItem::Bold => seq!['B', 'o', 'l', 'd'],
        MenuItem::Italic => seq!['I', 't', 'a', 'l', 'i', 'c'],
        MenuItem::Strikethrough => seq!['S', 't', 'r', 'i', 'k', 'e', 't', 'h', 'r', 'o', 'u', 'g', 'h'],
        MenuItem::InlineCode => seq!['I', 'n', 'l', 'i', 'n', 'e', ' ', 'C', 'o', 'd', 'e'],
        MenuItem::Link => seq!['L', 'i', 'n', 'k'],
        MenuItem::Heading1 => seq!['H', 'e', 'a', 'd', 'i', 'n', 'g', ' ', '1'],
        MenuItem::Heading2 => seq!['H', 'e', 'a', 'd', 'i', 'n', 'g', ' ', '2'],
        MenuItem::Heading3 => seq!['H', 'e', 'a', 'd', 'i', 'n', 'g', ' ', '3'],
        MenuItem::Blockquote => seq!['B', 'l', 'o', 'c', 'k', 'q', 'u', 'o', 't', 'e'],
        MenuItem::BulletList => seq!['B', 'u', 'l', 'l', 'e', 't', ' ', 'L', 'i', 's', 't'],
    }
}

/// The label of a menu entry.
pub fn menu_label(item: MenuItem) -> (label: &'static str)
    ensures
        label@ == menu_label_of(item),
{
    match item {
        MenuItem::Bold => {
            proof {
                reveal_strlit("Bold");
            }
            assert("Bold"@ =~= menu_label_of(item));
            "Bold"
        },
        MenuItem::Italic => {
            proof {
                reveal_strlit("Italic");
            }
            assert("Italic"@ =~= menu_label_of(item));
            "Italic"
        },
        MenuItem::Strikethrough => {
            proof {
                reveal_strlit("Strikethrough");
            }
            assert("Strikethrough"@ =~= menu_label_of(item));
            "Strikethrough"
        },
        MenuItem::InlineCode => {
            proof {
                reveal_strlit("Inline Code");
            }
            assert("Inline Code"@ =~= menu_label_of(item));
            "Inline Code"
        },
        MenuItem::Link => {
            proof {
                reveal_strlit("Link");
            }
            assert("Link"@ =~= menu_label_of(item));
            "Link"
        },
        MenuItem::Heading1 => {
            proof {
                reveal_strlit("Heading 1");
            }
            assert("Heading 1"@ =~= menu_label_of(item));
            "Heading 1"
        },
        MenuItem::Heading2 => {
            proof {
                reveal_strlit("Heading 2");
            }
            assert("Heading 2"@ =~= menu_label_of(item));
            "Heading 2"
        },
        MenuItem::Heading3 => {
            proof {
                reveal_strlit("Heading 3");
            }
            assert("Heading 3"@ =~= menu_label_of(item));
            "Heading 3"
        },
        MenuItem::Blockquote => {
            proof {
                reveal_strlit("Blockquote");
            }
            assert("Blockquote"@ =~= menu_label_of(item));
            "Blockquote"
        },
        MenuItem::BulletList => {
            proof {
                reveal_strlit("Bullet List");
            }
            assert("Bullet List"@ =~= menu_label_of(item));
            "Bullet List"
        },
    }
}

/// The markdown of the shown tab after a menu entry is applied with the
/// cursor's ends at `primary` and `secondary`, or `None` when the entry
/// does nothing: a wrap with an empty selection.
pub open spec fn menu_result(t: Seq<char>, item: MenuItem, primary: nat, secondary: nat) -> Option<Seq<char>> {
    match menu_edit_of(item) {
        MenuEditView::Wrap(l, r) => if primary == secondary {
            None
        } else {
            Some(wrapped_text(t, primary, secondary, l, r))
        },
        MenuEditView::Prepend(p) => Some(prepended_text(t, primary, p)),
    }
}

/// The state after a menu entry is applied: the shown tab gets the new
/// markdown and is marked as edited, unless the entry does nothing.
pub open spec fn apply_menu_spec(a: AppView, item: MenuItem, primary: nat, secondary: nat) -> AppView {
    let tab = a.tabs[a.active_tab as int];
    match menu_result(tab.markdown, item, primary, secondary) {
        Some(m) => AppView {
            tabs: a.tabs.update(a.active_tab as int, TabView { markdown: m, dirty: true, ..tab }),
            ..a
        },
        None => a,
    }
}

impl App {
    /// Applies a menu entry to the shown tab, with the cursor's ends at
    /// `primary` and `secondary` (byte positions on character boundaries).
    pub fn apply_menu_item(&mut self, item: MenuItem, primary: usize, secondary: usize)
        requires
            app_wf(old(self)@),
            is_char_boundary(encode_utf8(old(self)@.tabs[old(self).active_tab as int].markdown), primary as int),
            is_char_boundary(encode_utf8(old(self)@.tabs[old(self).active_tab as int].markdown), secondary as int),
        ensures
            final(self)@ == apply_menu_spec(old(self)@, item, primary as nat, secondary as nat),
            app_wf(final(self)@),
            final(self).preview_cache == old(self).preview_cache,
    {
        let a = self.active_tab;
        match menu_edit(item) {
            MenuEdit::Wrap(l, r) => {
                if primary == secondary {
                    return;
                }
                let ghost old_tabs = self.tabs@;
                let mut tab = self.tabs.remove(a);
                wrap_range(&mut tab.markdown, primary, secondary, l, r);
                tab.dirty = true;
                self.tabs.insert(a, tab);
                assert(tabs_view(self.tabs@) =~= tabs_view(old_tabs).update(a as int, tab@));
            },
            MenuEdit::Prepend(p) => {
                let ghost old_tabs = self.tabs@;
                let mut tab = self.tabs.remove(a);
                prepend_line(&mut tab.markdown, primary, p);
                tab.dirty = true;
                self.tabs.insert(a, tab);
                assert(tabs_view(self.tabs@) =~= tabs_view(old_tabs).update(a as int, tab@));
            },
        }
    }
}

} // verus!
