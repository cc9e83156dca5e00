//! The cache of the preview: the hash of the markdown last shown, and the
//! syntax-highlighted lines of its code blocks.

use std::collections::hash_map::DefaultHasher;
use std::collections::HashMap;
use std::hash::Hasher;

use syntect::easy::HighlightLines;
use syntect::highlighting::ThemeSet;
use syntect::parsing::SyntaxSet;
use syntect::util::LinesWithEndings;
use vstd::prelude::*;
use vstd::std_specs::hash::DefaultHasherAdditionalSpecFns;
use vstd::utf8::encode_utf8;

use crate::text::{all_space, is_blank};

verus! {

broadcast use vstd::std_specs::hash::group_hash_axioms;

/// A set of syntax definitions of syntect.
#[verifier::external_type_specification]
#[verifier::external_body]
pub struct ExSyntaxSet(SyntaxSet);

/// A set of color themes of syntect.
#[verifier::external_type_specification]
#[verifier::external_body]
pub struct ExThemeSet(ThemeSet);

/// The hash that `Hash::hash` of a `str` leaves in a fresh `DefaultHasher`:
/// the UTF-8 bytes of the text, then the byte `0xff`.
pub open spec fn text_hash(s: Seq<char>) -> u64 {
    DefaultHasher::spec_finish(seq![encode_utf8(s), seq![0xffu8]])
}

/// Whether a markdown text counts as changed against the stored hash, and
/// the hash stored after the check: the text's own.
pub open spec fn markdown_check(stored: u64, markdown: Seq<char>) -> (bool, u64) {
    (text_hash(markdown) != stored, text_hash(markdown))
}

/// The key of a code block in the cache: the hash of its code, then of its
/// language, in one `DefaultHasher`.
pub open spec fn code_key_of(code: Seq<char>, lang: Seq<char>) -> u64 {
    DefaultHasher::spec_finish(seq![encode_utf8(code), seq![0xffu8], encode_utf8(lang), seq![0xffu8]])
}

/// Hashes a text as `Hash::hash` of a `str` does.
pub fn hash_text(s: &str) -> (h: u64)
    ensures
        h == text_hash(s@),
{
    let mut hasher = DefaultHasher::new();
    let bytes = s.as_bytes();
    assert(bytes@ == encode_utf8(s@));
    hasher.write(bytes);
    let end: [u8; 1] = [0xff];
    let end_slice: &[u8] = &end;
    assert(end_slice@ =~= seq![0xffu8]);
    hasher.write(end_slice);
    assert(hasher@ =~= seq![encode_utf8(s@), seq![0xffu8]]);
    hasher.finish()
}

/// The key of a code block in the cache.
pub fn code_key(code: &str, lang: &str) -> (h: u64)
    ensures
        h == code_key_of(code@, lang@),
{
    let mut hasher = DefaultHasher::new();
    let end: [u8; 1] = [0xff];
    let end_slice: &[u8] = &end;
    assert(end_slice@ =~= seq![0xffu8]);
    let code_bytes = code.as_bytes();
    assert(code_bytes@ == encode_utf8(code@));
    let lang_bytes = lang.as_bytes();
    assert(lang_bytes@ == encode_utf8(lang@));
    hasher.write(code_bytes);
    hasher.write(end_slice);
    hasher.write(lang_bytes);
    hasher.write(end_slice);
    assert(hasher@ =~= seq![encode_utf8(code@), seq![0xffu8], encode_utf8(lang@), seq![0xffu8]]);
    hasher.finish()
}

/// A run of highlighted text: the red, green and blue of its color, and
/// its text.
pub type Run = (u8, u8, u8, String);

/// What a run holds, as plain values.
pub type RunView = (u8, u8, u8, Seq<char>);

/// The views of the runs of a line.
pub open spec fn runs_view(runs: Seq<Run>) -> Seq<RunView> {
    runs.map_values(|r: Run| (r.0, r.1, r.2, r.3@))
}

/// The views of highlighted lines.
pub open spec fn lines_view(lines: Seq<Vec<Run>>) -> Seq<Seq<RunView>> {
    lines.map_values(|l: Vec<Run>| runs_view(l@))
}

/// The views of the outcome of each line: its runs, or `None` where
/// syntect reported an error.
pub open spec fn outcomes_view(o: Seq<Option<Vec<Run>>>) -> Seq<Option<Seq<RunView>>> {
    o.map_values(
        |x: Option<Vec<Run>>|
            match x {
                Some(l) => Some(runs_view(l@)),
                None => None,
            },
    )
}

/// The text of a highlighted line: its runs one after the other.
pub open spec fn runs_text(runs: Seq<RunView>) -> Seq<char>
    decreases runs.len(),
{
    if runs.len() == 0 {
        seq![]
    } else {
        runs_text(runs.drop_last()) + runs.last().3
    }
}

/// The views of a sequence of strings.
pub open spec fn strings_view(v: Seq<String>) -> Seq<Seq<char>> {
    v.map_values(|s: String| s@)
}

/// The lines of `text`, each with the newline that ends it; the last line
/// may lack one, and no line is empty.
pub open spec fn lines_keep_ends(text: Seq<char>) -> Seq<Seq<char>>
    decreases text.len(),
{
    if text.len() == 0 {
        seq![]
    } else {
        let prev = lines_keep_ends(text.drop_last());
        if prev.len() > 0 && prev.last().last() != '\n' {
            prev.update(prev.len() - 1, prev.last().push(text.last()))
        } else {
            prev.push(seq![text.last()])
        }
    }
}

/// The texts one after the other.
pub open spec fn concat(pieces: Seq<Seq<char>>) -> Seq<char>
    decreases pieces.len(),
{
    if pieces.len() == 0 {
        seq![]
    } else {
        concat(pieces.drop_last()) + pieces.last()
    }
}

/// The syntax a code block is highlighted with: plain text, or the syntax
/// that a token (a file extension or a syntax name) picks.
pub enum SyntaxChoice {
    Plain,
    Token(String),
}

/// What a syntax choice holds, as plain values.
pub enum SyntaxChoiceView {
    Plain,
    Token(Seq<char>),
}

impl View for SyntaxChoice {
    type V = SyntaxChoiceView;

    open spec fn view(&self) -> SyntaxChoiceView {
        match self {
            SyntaxChoice::Plain => SyntaxChoiceView::Plain,
            SyntaxChoice::Token(t) => SyntaxChoiceView::Token(t@),
        }
    }
}

/// The name of the theme that code blocks are highlighted with.
pub const CODE_THEME: &'static str = "base16-ocean.dark";

/// The syntaxes and color themes that code is highlighted with: syntect's
/// default syntax set (with newlines) and default theme set. A value is
/// made only by `CodeStyle::load`, so it always holds those two sets:
/// among them a "Plain Text" syntax, a start context in every syntax, and
/// the theme `CODE_THEME`.
pub struct CodeStyle {
    syntaxes: SyntaxSet,
    themes: ThemeSet,
}

/// Whether a syntax of syntect's default syntax set has `token` as a file
/// extension or as its name, either of them compared ignoring ASCII case.
pub uninterp spec fn syntax_token_known(token: Seq<char>) -> bool;

/// The outcome of each line when syntect highlights `lines`, one after the
/// other, with a fresh highlighter for the chosen syntax of its default
/// syntax set and the theme `CODE_THEME` of its default theme set: the
/// runs of the line with the foreground color of each, or `None` where
/// syntect reports an error.
pub uninterp spec fn syntect_highlight(choice: SyntaxChoiceView, lines: Seq<Seq<char>>) -> Seq<Option<Seq<RunView>>>;

impl CodeStyle {
    /// Loads syntect's default syntax set (with newlines) and default theme
    /// set. Nothing beyond their being those sets is claimed.
    #[verifier::external_body]
    pub fn load() -> CodeStyle {
        CodeStyle { syntaxes: SyntaxSet::load_defaults_newlines(), themes: ThemeSet::load_defaults() }
    }
}

/// syntect's `SyntaxSet::find_syntax_by_token` on the default syntax set,
/// taken as whether it finds a syntax. The contract claims that the answer
/// is the one `syntax_token_known` names.
#[verifier::external_body]
fn token_known(style: &CodeStyle, token: &str) -> (known: bool)
    ensures
        known == syntax_token_known(token@),
{
    style.syntaxes.find_syntax_by_token(token).is_some()
}

/// syntect's `LinesWithEndings`: the lines of `text`, each with the newline
/// that ends it. The contract states exactly what its source does: it cuts
/// after each newline.
#[verifier::external_body]
fn lines_with_endings(text: &str) -> (lines: Vec<String>)
    ensures
        strings_view(lines@) == lines_keep_ends(text@),
{
    LinesWithEndings::from(text).map(|l| l.to_string()).collect()
}

/// syntect's `HighlightLines::new` with the chosen syntax (found with
/// `find_syntax_plain_text` or `find_syntax_by_token`) and the theme
/// `CODE_THEME`, then `HighlightLines::highlight_line` on each line in
/// turn, an error taken as `None` and each run as its foreground color and
/// text. The default sets hold the plain text syntax and the theme, every
/// syntax of them has a start context, and the `requires` makes the token's
/// syntax exist, so nothing here panics. The contract claims that the
/// outcomes are the ones `syntect_highlight` names, one for each line, and,
/// as syntect documents, that the texts of a line's runs make up the line.
#[verifier::external_body]
fn syntect_lines(style: &CodeStyle, choice: &SyntaxChoice, lines: &Vec<String>) -> (out: Vec<Option<Vec<Run>>>)
    requires
        choice matches SyntaxChoice::Token(t) ==> syntax_token_known(t@),
    ensures
        outcomes_view(out@) == syntect_highlight(choice@, strings_view(lines@)),
        out@.len() == lines@.len(),
        forall|i: int|
            0 <= i < out@.len() && #[trigger] out@[i] is Some ==> runs_text(runs_view(out@[i]->0@)) == lines@[i]@,
{
    let ss = &style.syntaxes;
    let syntax = match choice {
        SyntaxChoice::Plain => ss.find_syntax_plain_text(),
        SyntaxChoice::Token(t) => ss.find_syntax_by_token(t).unwrap(),
    };
    let mut h = HighlightLines::new(syntax, &style.themes.themes[CODE_THEME]);
    lines.iter().map(|l| h.highlight_line(l, ss).ok().map(|rs| rs.iter().map(|(s, t)| (s.foreground.r, s.foreground.g, s.foreground.b, t.to_string())).collect())).collect()
}

/// The syntax of a code block's language: plain text when the language is
/// empty or names no syntax, else the syntax that the language names.
pub open spec fn syntax_choice_of(lang: Seq<char>) -> SyntaxChoiceView {
    if lang.len() == 0 || !syntax_token_known(lang) {
        SyntaxChoiceView::Plain
    } else {
        SyntaxChoiceView::Token(lang)
    }
}

/// The syntax of a code block's language.
pub fn syntax_for(style: &CodeStyle, lang: &str) -> (choice: SyntaxChoice)
    ensures
        choice@ == syntax_choice_of(lang@),
        choice matches SyntaxChoice::Token(t) ==> syntax_token_known(t@),
{
    if lang.unicode_len() == 0 {
        SyntaxChoice::Plain
    } else if token_known(style, lang) {
        SyntaxChoice::Token(String::from_str(lang))
    } else {
        SyntaxChoice::Plain
    }
}

/// The lines that syntect highlighted, in order: the outcomes that are not
/// errors.
pub open spec fn kept_lines(outcomes: Seq<Option<Seq<RunView>>>) -> Seq<Seq<RunView>>
    decreases outcomes.len(),
{
    if outcomes.len() == 0 {
        seq![]
    } else {
        let prev = kept_lines(outcomes.drop_last());
        match outcomes.last() {
            Some(l) => prev.push(l),
            None => prev,
        }
    }
}

/// Keeps the lines that syntect highlighted, in order, and drops the lines
/// it reported an error on.
pub fn keep_highlighted(outcomes: Vec<Option<Vec<Run>>>) -> (lines: Vec<Vec<Run>>)
    ensures
        lines_view(lines@) == kept_lines(outcomes_view(outcomes@)),
{
    let ghost ov = outcomes_view(outcomes@);
    let mut lines: Vec<Vec<Run>> = Vec::new();
    let mut rest = outcomes;
    let ghost all = rest@;
    let mut i: usize = 0;
    let n = rest.len();
    while i < n
        invariant
            n == all.len(),
            i <= n,
            rest@ == all.skip(i as int),
            ov == outcomes_view(all),
            lines_view(lines@) == kept_lines(ov.take(i as int)),
        decreases n - i,
    {
        let ghost next = ov.take(i + 1);
        assert(next.drop_last() =~= ov.take(i as int));
        assert(all.skip(i as int)[0] == all[i as int]);
        let x = rest.remove(0);
        assert(rest@ =~= all.skip(i + 1));
        match x {
            Some(l) => {
                let ghost old_lines = lines@;
                lines.push(l);
                assert(lines_view(lines@) =~= lines_view(old_lines).push(runs_view(l@)));
            },
            None => {},
        }
        i = i + 1;
    }
    assert(ov.take(n as int) =~= ov);
    lines
}

/// The lines of text whose outcome is a highlighted line, in order.
pub open spec fn kept_texts(outcomes: Seq<Option<Seq<RunView>>>, lines: Seq<Seq<char>>) -> Seq<Seq<char>>
    decreases outcomes.len(),
{
    if outcomes.len() == 0 {
        seq![]
    } else {
        let prev = kept_texts(outcomes.drop_last(), lines.drop_last());
        match outcomes.last() {
            Some(_) => prev.push(lines.last()),
            None => prev,
        }
    }
}

/// The text of each highlighted line.
pub open spec fn line_texts(lines: Seq<Seq<RunView>>) -> Seq<Seq<char>> {
    lines.map_values(|l: Seq<RunView>| runs_text(l))
}

/// Where the runs of every highlighted outcome make up its line of text,
/// the texts of the kept lines are the kept lines of text, in order, and
/// each of them is a line of the text.
proof fn lemma_kept_texts(outcomes: Seq<Option<Seq<RunView>>>, lines: Seq<Seq<char>>)
    requires
        outcomes.len() == lines.len(),
        forall|i: int|
            0 <= i < outcomes.len() && #[trigger] outcomes[i] is Some ==> runs_text(outcomes[i]->0) == lines[i],
    ensures
        line_texts(kept_lines(outcomes)) == kept_texts(outcomes, lines),
        forall|k: int|
            0 <= k < kept_lines(outcomes).len() ==> lines.contains(#[trigger] runs_text(kept_lines(outcomes)[k])),
    decreases outcomes.len(),
{
    if outcomes.len() > 0 {
        let o2 = outcomes.drop_last();
        let l2 = lines.drop_last();
        assert forall|i: int| 0 <= i < o2.len() && #[trigger] o2[i] is Some implies runs_text(o2[i]->0) == l2[i] by {
            assert(o2[i] == outcomes[i]);
        }
        lemma_kept_texts(o2, l2);
        let n = (outcomes.len() - 1) as int;
        assert(outcomes.last() == outcomes[n]);
        match outcomes.last() {
            Some(r) => {
                assert(line_texts(kept_lines(o2).push(r)) =~= line_texts(kept_lines(o2)).push(runs_text(r)));
            },
            None => {},
        }
        assert forall|k: int| 0 <= k < kept_lines(outcomes).len() implies lines.contains(
            #[trigger] runs_text(kept_lines(outcomes)[k]),
        ) by {
            if k < kept_lines(o2).len() {
                assert(kept_lines(outcomes)[k] == kept_lines(o2)[k]);
                let j = choose|j: int| 0 <= j < l2.len() && l2[j] == runs_text(kept_lines(o2)[k]);
                assert(lines[j] == l2[j]);
            } else {
                assert(lines[n] == runs_text(outcomes[n]->0));
            }
        }
    }
}

/// The texts that the highlighted lines of a code block are made of: the
/// lines of the code that syntect highlighted, in order.
pub open spec fn code_line_texts(code: Seq<char>, lang: Seq<char>) -> Seq<Seq<char>> {
    kept_texts(syntect_highlight(syntax_choice_of(lang), lines_keep_ends(code)), lines_keep_ends(code))
}

/// The highlighted lines of a code block in a language: syntect's outcome
/// for each line of the code, with the syntax of the language, keeping the
/// lines it highlighted.
pub open spec fn highlighted_code(code: Seq<char>, lang: Seq<char>) -> Seq<Seq<RunView>> {
    kept_lines(syntect_highlight(syntax_choice_of(lang), lines_keep_ends(code)))
}

/// Highlights a code block line by line with the syntax of its language
/// (plain text when the language is empty or unknown) and the code theme,
/// keeping the lines that syntect highlights.
pub fn highlight_code(style: &CodeStyle, code: &str, lang: &str) -> (out: Vec<Vec<Run>>)
    ensures
        lines_view(out@) == highlighted_code(code@, lang@),
        line_texts(lines_view(out@)) == code_line_texts(code@, lang@),
        forall|k: int|
            0 <= k < out@.len() ==> lines_keep_ends(code@).contains(#[trigger] runs_text(lines_view(out@)[k])),
{
    let lines = lines_with_endings(code);
    let choice = syntax_for(style, lang);
    let outcomes = syntect_lines(style, &choice, &lines);
    proof {
        let ov = outcomes_view(outcomes@);
        let lv = strings_view(lines@);
        assert forall|i: int| 0 <= i < ov.len() && #[trigger] ov[i] is Some implies runs_text(ov[i]->0) == lv[i] by {
            assert(outcomes@[i] is Some);
        }
        lemma_kept_texts(ov, lv);
    }
    let out = keep_highlighted(outcomes);
    assert forall|k: int| 0 <= k < out@.len() implies lines_keep_ends(code@).contains(
        #[trigger] runs_text(lines_view(out@)[k]),
    ) by {
        assert(lines_view(out@)[k] == kept_lines(outcomes_view(outcomes@))[k]);
    }
    out
}

/// The cache of the preview: the hash of the markdown last shown, and the
/// highlighted lines of code blocks by their key.
pub struct PreviewCache {
    pub markdown_hash: u64,
    pub code_cache: HashMap<u64, Vec<Vec<Run>>>,
}

impl PreviewCache {
    /// An empty cache, with a stored hash of 0.
    pub fn new() -> (c: Self)
        ensures
            c.markdown_hash == 0,
            c.code_cache@ == Map::<u64, Vec<Vec<Run>>>::empty(),
    {
        PreviewCache { markdown_hash: 0, code_cache: HashMap::new() }
    }

    /// Whether `markdown` differs from the markdown last shown, by its hash.
    /// When it does, its hash is stored and the highlighted code is dropped.
    pub fn markdown_changed(&mut self, markdown: &str) -> (changed: bool)
        ensures
            (changed, final(self).markdown_hash) == markdown_check(old(self).markdown_hash, markdown@),
            changed ==> final(self).code_cache@ == Map::<u64, Vec<Vec<Run>>>::empty(),
            !changed ==> final(self).code_cache@ == old(self).code_cache@,
    {
        let hash = hash_text(markdown);
        if hash != self.markdown_hash {
            self.markdown_hash = hash;
            self.code_cache.clear();
            true
        } else {
            false
        }
    }

    /// Readies a code block for rendering. A block of white space only is
    /// not rendered: `None`, and the cache stays as it is. Otherwise the
    /// block's key is handed back; when the markdown changed, the block is
    /// highlighted first and its lines stored under that key.
    pub fn prepare_code_block(
        &mut self,
        style: &CodeStyle,
        code: &str,
        lang: &str,
        changed: bool,
    ) -> (key: Option<u64>)
        ensures
            final(self).markdown_hash == old(self).markdown_hash,
            all_space(code@) ==> key is None,
            !all_space(code@) ==> key == Some(code_key_of(code@, lang@)),
            (all_space(code@) || !changed) ==> final(self).code_cache@ == old(self).code_cache@,
            (!all_space(code@) && changed) ==> {
                let k = code_key_of(code@, lang@);
                &&& final(self).code_cache@.dom() == old(self).code_cache@.dom().insert(k)
                &&& forall|j: u64| j != k && #[trigger] old(self).code_cache@.contains_key(j)
                    ==> final(self).code_cache@[j] == old(self).code_cache@[j]
                &&& lines_view(final(self).code_cache@[k]@) == highlighted_code(code@, lang@)
                &&& line_texts(lines_view(final(self).code_cache@[k]@)) == code_line_texts(code@, lang@)
                &&& forall|j: int|
                    0 <= j < final(self).code_cache@[k]@.len() ==> lines_keep_ends(code@).contains(
                        #[trigger] runs_text(lines_view(final(self).code_cache@[k]@)[j]),
                    )
            },
    {
        if is_blank(code) {
            return None;
        }
        let key = code_key(code, lang);
        if changed {
            let lines = highlight_code(style, code, lang);
            let _ = self.code_cache.insert(key, lines);
        }
        Some(key)
    }

    /// The highlighted lines stored under `key`, if any.
    pub fn code_lines(&self, key: u64) -> (lines: Option<&Vec<Vec<Run>>>)
        ensures
            match lines {
                Some(v) => self.code_cache@.contains_key(key) && self.code_cache@[key] == *v,
                None => !self.code_cache@.contains_key(key),
            },
    {
        self.code_cache.get(&key)
    }
}

} // verus!
