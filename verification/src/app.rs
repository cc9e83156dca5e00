//! The editor's state: its tabs, the active one, the mode, the tab switcher
//! and the keyboard shortcuts that drive them.

use vstd::prelude::*;

use crate::highlight::markdown_check;
pub use crate::highlight::PreviewCache;
use crate::preview::{blocks_of, blocks_view, markdown_events, preview_blocks, Block};
use crate::text::{truncate, truncated};

verus! {

/// The two ways the editor shows a document.
#[derive(Clone, Copy, Debug, PartialEq, Eq, Structural)]
pub enum Mode {
    /// Editor and preview side by side.
    Writing,
    /// The preview alone.
    Focus,
}

/// The final component of `path`, as std's `Path::file_name` gives it on the
/// target platform: `None` when the path ends in `..` or has no normal
/// component.
pub uninterp spec fn path_file_name(path: Seq<char>) -> Option<Seq<char>>;

/// Whether two paths are equal as std's `Path` compares them, component by
/// component.
pub uninterp spec fn same_path(a: Seq<char>, b: Seq<char>) -> bool;

/// std's `Path::file_name` on `path`, taken as a `String`. The contract
/// claims that the result is the one `path_file_name` names, and, as the
/// source shows (only a normal component is a file name, a part of a UTF-8
/// path is UTF-8, and `/` separates components on every platform), that a
/// name is never empty and holds no `/`.
#[verifier::external_body]
fn file_name_of(path: &str) -> (name: Option<String>)
    ensures
        match name {
            Some(n) => path_file_name(path@) == Some(n@) && n@.len() > 0 && !n@.contains('/'),
            None => path_file_name(path@) is None,
        },
{
    std::path::Path::new(path).file_name().and_then(|n| n.to_str()).map(|n| n.to_string())
}

/// std's `==` on two `Path`s. The contract claims that the result is the one
/// `same_path` names, and that a path equals itself.
#[verifier::external_body]
fn paths_equal(a: &str, b: &str) -> (eq: bool)
    ensures
        eq == same_path(a@, b@),
        a@ == b@ ==> eq,
{
    std::path::Path::new(a) == std::path::Path::new(b)
}

/// One open document: its markdown, the file it was read from or saved to,
/// and whether it has edits that are not saved.
pub struct Tab {
    pub markdown: String,
    pub file_path: Option<String>,
    pub dirty: bool,
}

/// What a tab holds, as plain values.
pub struct TabView {
    pub markdown: Seq<char>,
    pub file_path: Option<Seq<char>>,
    pub dirty: bool,
}

impl View for Tab {
    type V = TabView;

    open spec fn view(&self) -> TabView {
        TabView {
            markdown: self.markdown@,
            file_path: match self.file_path {
                Some(p) => Some(p@),
                None => None,
            },
            dirty: self.dirty,
        }
    }
}

/// A new, empty document that no file holds.
pub open spec fn empty_tab() -> TabView {
    TabView { markdown: seq![], file_path: None, dirty: false }
}

/// The name that stands for a document that no file holds.
pub open spec fn untitled() -> Seq<char> {
    seq!['U', 'n', 't', 'i', 't', 'l', 'e', 'd']
}

/// The name shown for a document: the file name of its path, else
/// "Untitled".
pub open spec fn tab_name(t: TabView) -> Seq<char> {
    match t.file_path {
        Some(p) => match path_file_name(p) {
            Some(n) => n,
            None => untitled(),
        },
        None => untitled(),
    }
}

/// The name of a document followed by " *" when it has unsaved edits.
pub open spec fn marked_name(t: TabView) -> Seq<char> {
    if t.dirty {
        tab_name(t) + seq![' ', '*']
    } else {
        tab_name(t)
    }
}

/// "Untitled".
fn untitled_string() -> (s: String)
    ensures
        s@ == untitled(),
{
    let u = "Untitled";
    proof {
        reveal_strlit("Untitled");
    }
    String::from_str(u)
}

impl Tab {
    /// A new, empty document that no file holds.
    pub fn new() -> (t: Self)
        ensures
            t@ == empty_tab(),
    {
        Tab { markdown: String::new(), file_path: None, dirty: false }
    }

    /// The file name of the document's path, or "Untitled": never empty,
    /// and never holding a path separator.
    pub fn file_name(&self) -> (name: String)
        ensures
            name@ == tab_name(self@),
            name@.len() > 0,
            !name@.contains('/'),
    {
        match &self.file_path {
            Some(p) => match file_name_of(p.as_str()) {
                Some(n) => n,
                None => untitled_string(),
            },
            None => untitled_string(),
        }
    }

    /// The name of the document, followed by " *" when it has unsaved edits.
    pub fn marked_name(&self) -> (name: String)
        ensures
            name@ == marked_name(self@),
            tab_name(self@).len() > 0,
            !tab_name(self@).contains('/'),
    {
        let name = self.file_name();
        if self.dirty {
            let star = " *";
            proof {
                reveal_strlit(" *");
            }
            let r = name.concat(star);
            assert(r@ =~= marked_name(self@));
            r
        } else {
            name
        }
    }

    /// The label of the document's card in the tab switcher: its marked
    /// name cut to ten characters.
    pub fn card_label(&self) -> (label: String)
        ensures
            label@ == truncated(marked_name(self@), 10),
    {
        let name = self.marked_name();
        truncate(name.as_str(), 10)
    }
}

/// The views of a sequence of tabs.
pub open spec fn tabs_view(v: Seq<Tab>) -> Seq<TabView> {
    v.map_values(|t: Tab| t@)
}

/// The editor's state, but for the preview cache, as plain values.
pub struct AppView {
    pub tabs: Seq<TabView>,
    pub active_tab: nat,
    pub mode: Mode,
    pub show_tab_switcher: bool,
    pub tab_switcher_selection: nat,
}

/// The editor's state: the open documents, the one shown, the mode, the tab
/// switcher and its selection, and the preview cache.
pub struct App {
    pub tabs: Vec<Tab>,
    pub active_tab: usize,
    pub mode: Mode,
    pub show_tab_switcher: bool,
    pub tab_switcher_selection: usize,
    pub preview_cache: PreviewCache,
}

impl View for App {
    type V = AppView;

    open spec fn view(&self) -> AppView {
        AppView {
            tabs: tabs_view(self.tabs@),
            active_tab: self.active_tab as nat,
            mode: self.mode,
            show_tab_switcher: self.show_tab_switcher,
            tab_switcher_selection: self.tab_switcher_selection as nat,
        }
    }
}

/// What every state of the editor keeps: at least one tab, a shown tab that
/// exists, and no more tabs, nor a higher switcher selection, than a vector
/// can hold.
pub open spec fn app_wf(a: AppView) -> bool {
    &&& 1 <= a.tabs.len() <= isize::MAX
    &&& a.active_tab < a.tabs.len()
    &&& a.tab_switcher_selection <= isize::MAX
}

/// The state after a new empty tab is added at the end.
pub open spec fn add_tab_spec(a: AppView) -> AppView {
    AppView { tabs: a.tabs.push(empty_tab()), ..a }
}

/// The state after a new empty tab is added and shown.
pub open spec fn new_tab_spec(a: AppView) -> AppView {
    AppView { active_tab: a.tabs.len(), ..add_tab_spec(a) }
}

/// The state after the tab at `idx` is closed: nothing happens to the last
/// tab; otherwise the tab goes, and the shown index is pulled back onto the
/// last tab when it falls past the end.
pub open spec fn remove_tab_spec(a: AppView, idx: nat) -> AppView {
    if a.tabs.len() <= 1 {
        a
    } else {
        let tabs = a.tabs.remove(idx as int);
        AppView {
            tabs,
            active_tab: if a.active_tab >= tabs.len() {
                (tabs.len() - 1) as nat
            } else {
                a.active_tab
            },
            ..a
        }
    }
}

/// The other mode.
pub open spec fn toggled(m: Mode) -> Mode {
    match m {
        Mode::Writing => Mode::Focus,
        Mode::Focus => Mode::Writing,
    }
}

/// The keys that the shortcuts and the tab switcher react to.
#[derive(Clone, Copy, Debug, PartialEq, Eq, Structural)]
pub enum Key {
    Tab,
    ArrowLeft,
    ArrowRight,
    ArrowUp,
    ArrowDown,
    Enter,
    Escape,
    O,
    S,
    W,
    N,
    F,
    F11,
    Other,
}

/// An input event, as far as the shortcuts tell events apart.
#[derive(Clone, Copy, Debug, PartialEq, Eq, Structural)]
pub enum InputEvent {
    /// A key going down; `ctrl` holds for Ctrl or Command.
    KeyDown { key: Key, ctrl: bool, shift: bool },
    /// A key going up.
    KeyUp,
    /// Any other event.
    Other,
}

/// What is to become of an input event once the editor has seen it.
pub enum Outcome {
    /// The editor used the event; it goes no further.
    Consumed,
    /// The event goes on to the widgets.
    PassOn,
    /// The event asks to open a file: the open dialog is to be shown.
    OpenFile,
    /// The event asks to save the shown document to this path.
    WriteFile(String),
    /// The event asks to save the shown document where a dialog says.
    SaveAs,
}

/// What an outcome holds, as plain values.
pub enum OutcomeView {
    Consumed,
    PassOn,
    OpenFile,
    WriteFile(Seq<char>),
    SaveAs,
}

impl View for Outcome {
    type V = OutcomeView;

    open spec fn view(&self) -> OutcomeView {
        match self {
            Outcome::Consumed => OutcomeView::Consumed,
            Outcome::PassOn => OutcomeView::PassOn,
            Outcome::OpenFile => OutcomeView::OpenFile,
            Outcome::WriteFile(p) => OutcomeView::WriteFile(p@),
            Outcome::SaveAs => OutcomeView::SaveAs,
        }
    }
}

/// The selection moved one card back, from the first card round to the
/// new-tab card.
pub open spec fn select_back(a: AppView) -> AppView {
    AppView {
        tab_switcher_selection: if a.tab_switcher_selection > 0 {
            (a.tab_switcher_selection - 1) as nat
        } else {
            a.tabs.len()
        },
        ..a
    }
}

/// The selection moved one card on, from the new-tab card round to the
/// first.
pub open spec fn select_next(a: AppView) -> AppView {
    AppView { tab_switcher_selection: (a.tab_switcher_selection + 1) % (a.tabs.len() + 1), ..a }
}

/// What a key pressed while the tab switcher is shown does, and whether the
/// key is used. The grid has four cards to a row: the tabs, then the
/// new-tab card.
pub open spec fn switcher_key_spec(a: AppView, key: Key, shift: bool) -> (AppView, bool) {
    let n = a.tabs.len();
    let sel = a.tab_switcher_selection;
    match key {
        Key::Tab => (
            if shift {
                select_back(a)
            } else {
                select_next(a)
            },
            true,
        ),
        Key::ArrowLeft => (select_back(a), true),
        Key::ArrowRight => (select_next(a), true),
        Key::ArrowDown => (
            AppView { tab_switcher_selection: if sel + 4 <= n { sel + 4 } else { sel }, ..a },
            true,
        ),
        Key::ArrowUp => (
            AppView {
                tab_switcher_selection: if sel >= 4 {
                    (sel - 4) as nat
                } else {
                    sel
                },
                ..a
            },
            true,
        ),
        Key::Enter => (
            if sel >= n {
                AppView { show_tab_switcher: false, ..new_tab_spec(a) }
            } else {
                AppView { active_tab: sel, show_tab_switcher: false, ..a }
            },
            true,
        ),
        Key::Escape => (AppView { show_tab_switcher: false, ..a }, true),
        _ => (a, false),
    }
}

/// What a key pressed with the tab switcher hidden does. The shortcuts:
/// Ctrl+O opens, Ctrl+S saves (Ctrl+Shift+S saves as), Ctrl+Tab shows the
/// switcher on its new-tab card, Ctrl+W closes the shown tab, Ctrl+N opens
/// a new tab, F11 or Ctrl+Shift+F toggles the mode, and Escape leaves focus
/// mode.
pub open spec fn shortcut_spec(a: AppView, key: Key, ctrl: bool, shift: bool) -> (AppView, OutcomeView) {
    if key == Key::O && ctrl {
        (a, OutcomeView::OpenFile)
    } else if key == Key::S && ctrl {
        (
            a,
            if shift {
                OutcomeView::SaveAs
            } else {
                match a.tabs[a.active_tab as int].file_path {
                    Some(p) => OutcomeView::WriteFile(p),
                    None => OutcomeView::SaveAs,
                }
            },
        )
    } else if key == Key::Tab && ctrl {
        (AppView { show_tab_switcher: true, tab_switcher_selection: a.tabs.len(), ..a }, OutcomeView::Consumed)
    } else if key == Key::W && ctrl {
        (remove_tab_spec(a, a.active_tab), OutcomeView::Consumed)
    } else if key == Key::N && ctrl {
        (new_tab_spec(a), OutcomeView::Consumed)
    } else if key == Key::F11 || (key == Key::F && ctrl && shift) {
        (AppView { mode: toggled(a.mode), ..a }, OutcomeView::Consumed)
    } else if key == Key::Escape && a.mode == Mode::Focus {
        (AppView { mode: Mode::Writing, ..a }, OutcomeView::Consumed)
    } else {
        (a, OutcomeView::PassOn)
    }
}

/// What an input event does. While the switcher takes the keys, a key it
/// uses is consumed, a key it does not use passes on, and a key going up is
/// dropped; otherwise the shortcuts apply to keys going down, and every
/// other event passes on.
pub open spec fn event_spec(a: AppView, ev: InputEvent, switching: bool) -> (AppView, OutcomeView) {
    match ev {
        InputEvent::KeyDown { key, ctrl, shift } => if switching {
            let (b, used) = switcher_key_spec(a, key, shift);
            (
                b,
                if used {
                    OutcomeView::Consumed
                } else {
                    OutcomeView::PassOn
                },
            )
        } else {
            shortcut_spec(a, key, ctrl, shift)
        },
        InputEvent::KeyUp => (
            a,
            if switching {
                OutcomeView::Consumed
            } else {
                OutcomeView::PassOn
            },
        ),
        InputEvent::Other => (a, OutcomeView::PassOn),
    }
}

/// Whether a tab holds the file at `path`.
pub open spec fn holds_path(t: TabView, path: Seq<char>) -> bool {
    match t.file_path {
        Some(p) => same_path(p, path),
        None => false,
    }
}

/// The state after the file at `path` was read with `content`: the first
/// tab that holds the file is shown; when none does, a clean tab with the
/// content is added for it and shown.
pub open spec fn open_document_spec(a: AppView, path: Seq<char>, content: Seq<char>) -> AppView {
    if exists|i: int| 0 <= i < a.tabs.len() && holds_path(#[trigger] a.tabs[i], path) {
        let i = choose|i: int|
            0 <= i < a.tabs.len() && holds_path(#[trigger] a.tabs[i], path) && forall|j: int|
                0 <= j < i ==> !holds_path(#[trigger] a.tabs[j], path);
        AppView { active_tab: i as nat, ..a }
    } else {
        AppView {
            tabs: a.tabs.push(TabView { markdown: content, file_path: Some(path), dirty: false }),
            active_tab: a.tabs.len(),
            ..a
        }
    }
}

/// The state after the shown tab was saved to `path`: it holds that file
/// and has no unsaved edits.
pub open spec fn mark_saved_spec(a: AppView, path: Seq<char>) -> AppView {
    AppView {
        tabs: a.tabs.update(
            a.active_tab as int,
            TabView { file_path: Some(path), dirty: false, ..a.tabs[a.active_tab as int] },
        ),
        ..a
    }
}

/// A card of the tab switcher's grid.
#[derive(Clone, Copy, Debug, PartialEq, Eq, Structural)]
pub enum Card {
    /// The card of a tab: its index, whether it is selected, whether it is
    /// the shown tab, and whether it offers a close button.
    Tab { index: usize, selected: bool, active: bool, closable: bool },
    /// The card that opens a new tab, and whether it is selected.
    NewTab { selected: bool },
    /// No card.
    Empty,
}

/// The number of cards in a row of the tab switcher.
pub const SWITCHER_COLUMNS: usize = 4;

/// The card at a row and a column of the switcher: the tabs in order, four
/// to a row, then the new-tab card, which is selected when the selection is
/// past the tabs.
pub open spec fn card_at_spec(a: AppView, row: nat, col: nat) -> Card {
    let i = row * 4 + col;
    let n = a.tabs.len();
    if col >= 4 || i > n {
        Card::Empty
    } else if i < n {
        Card::Tab {
            index: i as usize,
            selected: i == a.tab_switcher_selection,
            active: i == a.active_tab,
            closable: n > 1,
        }
    } else {
        Card::NewTab { selected: a.tab_switcher_selection >= n }
    }
}

/// The length of the tabs after the switcher's close button of `close`
/// was pressed.
pub open spec fn len_after_close(a: AppView, close: Option<usize>) -> nat {
    match close {
        Some(_) => if a.tabs.len() > 1 {
            (a.tabs.len() - 1) as nat
        } else {
            a.tabs.len()
        },
        None => a.tabs.len(),
    }
}

/// The state after the clicks on the tab switcher of one frame: a click
/// outside it hides it and nothing else happens; otherwise a closed tab
/// goes (the selection is pulled back onto the last tab when it falls past
/// it), a picked tab is shown, and the new-tab card adds a tab and shows it;
/// picking a tab or adding one hides the switcher.
pub open spec fn switcher_clicks_spec(
    a: AppView,
    outside: bool,
    close: Option<usize>,
    pick: Option<usize>,
    new_tab: bool,
) -> AppView {
    if outside {
        AppView { show_tab_switcher: false, ..a }
    } else {
        let b = match close {
            Some(idx) => {
                let r = remove_tab_spec(a, idx as nat);
                AppView {
                    tab_switcher_selection: if r.tab_switcher_selection >= r.tabs.len() {
                        (r.tabs.len() - 1) as nat
                    } else {
                        r.tab_switcher_selection
                    },
                    ..r
                }
            },
            None => a,
        };
        let c = match pick {
            Some(idx) => AppView { active_tab: idx as nat, show_tab_switcher: false, ..b },
            None => b,
        };
        if new_tab {
            AppView { show_tab_switcher: false, ..new_tab_spec(c) }
        } else {
            c
        }
    }
}

/// The label of the button that switches the mode: the mode it leads to.
pub open spec fn mode_button_label_of(m: Mode) -> Seq<char> {
    match m {
        Mode::Writing => seq!['F', 'o', 'c', 'u', 's'],
        Mode::Focus => seq!['W', 'r', 'i', 't', 'e'],
    }
}

/// The label of the button that switches the mode.
pub fn mode_button_label(m: Mode) -> (label: &'static str)
    ensures
        label@ == mode_button_label_of(m),
{
    match m {
        Mode::Writing => {
            let l = "Focus";
            proof {
                reveal_strlit("Focus");
            }
            l
        },
        Mode::Focus => {
            let l = "Write";
            proof {
                reveal_strlit("Write");
            }
            l
        },
    }
}

/// The number of rows of the tab switcher's grid for `n_tabs` tabs: the
/// tabs and the new-tab card, four to a row.
pub fn switcher_rows(n_tabs: usize) -> (rows: usize)
    requires
        n_tabs < usize::MAX,
    ensures
        rows == (n_tabs + 1 + 3) / 4,
{
    let total = n_tabs + 1;
    total / 4 + if total % 4 == 0 { 0 } else { 1 }
}

impl App {
    /// The state at start: one empty tab, shown in writing mode.
    pub fn new() -> (app: Self)
        ensures
            app@ == (AppView {
                tabs: seq![empty_tab()],
                active_tab: 0,
                mode: Mode::Writing,
                show_tab_switcher: false,
                tab_switcher_selection: 0,
            }),
            app.preview_cache.markdown_hash == 0,
            app.preview_cache.code_cache@.is_empty(),
            app_wf(app@),
    {
        let mut tabs: Vec<Tab> = Vec::new();
        tabs.push(Tab::new());
        let app = App {
            tabs,
            active_tab: 0,
            mode: Mode::Writing,
            show_tab_switcher: false,
            tab_switcher_selection: 0,
            preview_cache: PreviewCache::new(),
        };
        assert(app@.tabs =~= seq![empty_tab()]);
        app
    }

    /// The markdown of the shown tab.
    pub fn current_markdown(&self) -> (md: &str)
        requires
            app_wf(self@),
        ensures
            md@ == self@.tabs[self.active_tab as int].markdown,
    {
        self.tabs[self.active_tab].markdown.as_str()
    }

    /// The markdown of the shown tab, to edit in place.
    pub fn current_markdown_mut(&mut self) -> (md: &mut String)
        requires
            app_wf(old(self)@),
        ensures
            *md == old(self).tabs@[old(self).active_tab as int].markdown,
            final(self).tabs@ == old(self).tabs@.update(
                old(self).active_tab as int,
                Tab { markdown: *final(md), ..old(self).tabs@[old(self).active_tab as int] },
            ),
            final(self).active_tab == old(self).active_tab,
            final(self).mode == old(self).mode,
            final(self).show_tab_switcher == old(self).show_tab_switcher,
            final(self).tab_switcher_selection == old(self).tab_switcher_selection,
            final(self).preview_cache == old(self).preview_cache,
    {
        &mut self.tabs[self.active_tab].markdown
    }

    /// Readies the preview of the shown tab for a frame: checks whether its
    /// markdown changed (dropping the highlighted code if so) and hands back
    /// that check and the blocks to render.
    pub fn preview_frame(&mut self) -> (r: (bool, Vec<Block>))
        requires
            app_wf(old(self)@),
        ensures
            final(self)@ == old(self)@,
            (r.0, final(self).preview_cache.markdown_hash) == markdown_check(
                old(self).preview_cache.markdown_hash,
                old(self)@.tabs[old(self).active_tab as int].markdown,
            ),
            r.0 ==> final(self).preview_cache.code_cache@.is_empty(),
            !r.0 ==> final(self).preview_cache.code_cache@ == old(self).preview_cache.code_cache@,
            blocks_view(r.1@) == blocks_of(markdown_events(old(self)@.tabs[old(self).active_tab as int].markdown)),
    {
        let md = self.tabs[self.active_tab].markdown.as_str();
        let changed = self.preview_cache.markdown_changed(md);
        let blocks = preview_blocks(md);
        (changed, blocks)
    }

    /// The name of the shown tab's document.
    pub fn file_name(&self) -> (name: String)
        requires
            app_wf(self@),
        ensures
            name@ == tab_name(self@.tabs[self.active_tab as int]),
            name@.len() > 0,
            !name@.contains('/'),
    {
        self.tabs[self.active_tab].file_name()
    }

    /// Whether the shown tab has unsaved edits.
    pub fn active_dirty(&self) -> (dirty: bool)
        requires
            app_wf(self@),
        ensures
            dirty == self@.tabs[self.active_tab as int].dirty,
    {
        self.tabs[self.active_tab].dirty
    }

    /// The text of the title bar: the shown document's name, followed by
    /// " *" when it has unsaved edits.
    pub fn title_text(&self) -> (title: String)
        requires
            app_wf(self@),
        ensures
            title@ == marked_name(self@.tabs[self.active_tab as int]),
            tab_name(self@.tabs[self.active_tab as int]).len() > 0,
            !tab_name(self@.tabs[self.active_tab as int]).contains('/'),
    {
        self.tabs[self.active_tab].marked_name()
    }

    /// Switches between writing and focus mode.
    pub fn toggle_mode(&mut self)
        ensures
            final(self)@ == (AppView { mode: toggled(old(self)@.mode), ..old(self)@ }),
            final(self).preview_cache == old(self).preview_cache,
    {
        self.mode = match self.mode {
            Mode::Writing => Mode::Focus,
            Mode::Focus => Mode::Writing,
        };
    }

    /// Adds an empty tab at the end and hands back its index.
    pub fn add_tab(&mut self) -> (idx: usize)
        requires
            old(self).tabs.len() < isize::MAX,
        ensures
            final(self)@ == add_tab_spec(old(self)@),
            idx == old(self).tabs.len(),
            final(self).preview_cache == old(self).preview_cache,
    {
        let ghost old_tabs = self.tabs@;
        self.tabs.push(Tab::new());
        assert(tabs_view(self.tabs@) =~= tabs_view(old_tabs).push(empty_tab()));
        self.tabs.len() - 1
    }

    /// Closes the tab at `idx`, unless it is the only one.
    pub fn remove_tab(&mut self, idx: usize)
        requires
            old(self).tabs.len() > 1 ==> idx < old(self).tabs.len(),
        ensures
            final(self)@ == remove_tab_spec(old(self)@, idx as nat),
            final(self).preview_cache == old(self).preview_cache,
    {
        if self.tabs.len() <= 1 {
            return;
        }
        let ghost old_tabs = self.tabs@;
        let _ = self.tabs.remove(idx);
        assert(tabs_view(self.tabs@) =~= tabs_view(old_tabs).remove(idx as int));
        if self.active_tab >= self.tabs.len() {
            self.active_tab = self.tabs.len() - 1;
        }
    }

    /// Adds an empty tab at the end and shows it.
    fn open_new_tab(&mut self)
        requires
            old(self).tabs.len() < isize::MAX,
        ensures
            final(self)@ == new_tab_spec(old(self)@),
            final(self).preview_cache == old(self).preview_cache,
    {
        let idx = self.add_tab();
        self.active_tab = idx;
    }

    /// Moves the switcher's selection one card back.
    fn select_back(&mut self)
        requires
            old(self).tabs.len() < isize::MAX,
        ensures
            final(self)@ == select_back(old(self)@),
            final(self).preview_cache == old(self).preview_cache,
    {
        if self.tab_switcher_selection > 0 {
            self.tab_switcher_selection = self.tab_switcher_selection - 1;
        } else {
            self.tab_switcher_selection = self.tabs.len();
        }
    }

    /// Moves the switcher's selection one card on.
    fn select_next(&mut self)
        requires
            old(self).tabs.len() < isize::MAX,
            old(self).tab_switcher_selection <= isize::MAX,
        ensures
            final(self)@ == select_next(old(self)@),
            final(self).preview_cache == old(self).preview_cache,
    {
        self.tab_switcher_selection = (self.tab_switcher_selection + 1) % (self.tabs.len() + 1);
    }

    /// Takes in a key pressed while the tab switcher is shown, and tells
    /// whether the key was used.
    pub fn switcher_key(&mut self, key: Key, shift: bool) -> (used: bool)
        requires
            app_wf(old(self)@),
            old(self).tabs.len() < isize::MAX,
        ensures
            (final(self)@, used) == switcher_key_spec(old(self)@, key, shift),
            app_wf(final(self)@),
            final(self).preview_cache == old(self).preview_cache,
    {
        match key {
            Key::Tab => {
                if shift {
                    self.select_back();
                } else {
                    self.select_next();
                }
                true
            },
            Key::ArrowLeft => {
                self.select_back();
                true
            },
            Key::ArrowRight => {
                self.select_next();
                true
            },
            Key::ArrowDown => {
                let next = self.tab_switcher_selection + 4;
                if next <= self.tabs.len() {
                    self.tab_switcher_selection = next;
                }
                true
            },
            Key::ArrowUp => {
                if self.tab_switcher_selection >= 4 {
                    self.tab_switcher_selection = self.tab_switcher_selection - 4;
                }
                true
            },
            Key::Enter => {
                if self.tab_switcher_selection >= self.tabs.len() {
                    self.open_new_tab();
                } else {
                    self.active_tab = self.tab_switcher_selection;
                }
                self.show_tab_switcher = false;
                true
            },
            Key::Escape => {
                self.show_tab_switcher = false;
                true
            },
            _ => false,
        }
    }

    /// Takes in a key pressed while the tab switcher is hidden, and tells
    /// what is to become of it.
    pub fn shortcut(&mut self, key: Key, ctrl: bool, shift: bool) -> (out: Outcome)
        requires
            app_wf(old(self)@),
            old(self).tabs.len() < isize::MAX,
        ensures
            (final(self)@, out@) == shortcut_spec(old(self)@, key, ctrl, shift),
            app_wf(final(self)@),
            final(self).preview_cache == old(self).preview_cache,
    {
        if key == Key::O && ctrl {
            Outcome::OpenFile
        } else if key == Key::S && ctrl {
            if shift {
                Outcome::SaveAs
            } else {
                match &self.tabs[self.active_tab].file_path {
                    Some(p) => Outcome::WriteFile(p.clone()),
                    None => Outcome::SaveAs,
                }
            }
        } else if key == Key::Tab && ctrl {
            self.show_tab_switcher = true;
            self.tab_switcher_selection = self.tabs.len();
            Outcome::Consumed
        } else if key == Key::W && ctrl {
            self.remove_tab(self.active_tab);
            Outcome::Consumed
        } else if key == Key::N && ctrl {
            self.open_new_tab();
            Outcome::Consumed
        } else if key == Key::F11 || (key == Key::F && ctrl && shift) {
            self.toggle_mode();
            Outcome::Consumed
        } else if key == Key::Escape && self.mode == Mode::Focus {
            self.mode = Mode::Writing;
            Outcome::Consumed
        } else {
            Outcome::PassOn
        }
    }

    /// Takes in a file that was read: shows the first tab that holds it, or
    /// adds a clean tab with its content.
    pub fn open_document(&mut self, path: String, content: String)
        requires
            app_wf(old(self)@),
            old(self).tabs.len() < isize::MAX,
        ensures
            final(self)@ == open_document_spec(old(self)@, path@, content@),
            app_wf(final(self)@),
            final(self).preview_cache == old(self).preview_cache,
    {
        let ghost a = self@;
        let ghost cache = self.preview_cache;
        let mut i: usize = 0;
        while i < self.tabs.len()
            invariant
                self@ == a,
                self.preview_cache == cache,
                a == old(self)@,
                cache == old(self).preview_cache,
                app_wf(a),
                i <= a.tabs.len(),
                forall|j: int| 0 <= j < i ==> !holds_path(#[trigger] a.tabs[j], path@),
            decreases self.tabs.len() - i,
        {
            let found = match &self.tabs[i].file_path {
                Some(p) => paths_equal(p.as_str(), path.as_str()),
                None => false,
            };
            assert(found == holds_path(a.tabs[i as int], path@));
            if found {
                self.active_tab = i;
                assert(open_document_spec(a, path@, content@) == AppView { active_tab: i as nat, ..a }) by {
                    assert(holds_path(a.tabs[i as int], path@));
                    assert(0 <= i < a.tabs.len() && holds_path(a.tabs[i as int], path@) && forall|j: int|
                            0 <= j < i ==> !holds_path(#[trigger] a.tabs[j], path@));
                    let k = choose|k: int|
                        0 <= k < a.tabs.len() && holds_path(#[trigger] a.tabs[k], path@) && forall|j: int|
                            0 <= j < k ==> !holds_path(#[trigger] a.tabs[j], path@);
                    if k < i {
                    } else if k > i {
                        assert(!holds_path(a.tabs[i as int], path@));
                    }
                }
                return;
            }
            i = i + 1;
        }
        let ghost old_tabs = self.tabs@;
        let tab = Tab { markdown: content, file_path: Some(path), dirty: false };
        self.tabs.push(tab);
        assert(tabs_view(self.tabs@) =~= tabs_view(old_tabs).push(tab@));
        self.active_tab = self.tabs.len() - 1;
    }

    /// Takes in that the shown tab was saved to `path`: the tab now holds
    /// that file and has no unsaved edits.
    pub fn mark_saved(&mut self, path: String)
        requires
            app_wf(old(self)@),
        ensures
            final(self)@ == mark_saved_spec(old(self)@, path@),
            app_wf(final(self)@),
            final(self).preview_cache == old(self).preview_cache,
    {
        let ghost old_tabs = self.tabs@;
        let a = self.active_tab;
        let mut tab = self.tabs.remove(a);
        tab.file_path = Some(path);
        tab.dirty = false;
        self.tabs.insert(a, tab);
        assert(tabs_view(self.tabs@) =~= tabs_view(old_tabs).update(a as int, tab@));
    }

    /// The card at a row and a column of the tab switcher.
    pub fn card_at(&self, row: usize, col: usize) -> (card: Card)
        requires
            app_wf(self@),
        ensures
            card == card_at_spec(self@, row as nat, col as nat),
    {
        if col >= SWITCHER_COLUMNS || row > self.tabs.len() / SWITCHER_COLUMNS {
            return Card::Empty;
        }
        let i = row * SWITCHER_COLUMNS + col;
        let n = self.tabs.len();
        if i > n {
            Card::Empty
        } else if i < n {
            Card::Tab {
                index: i,
                selected: i == self.tab_switcher_selection,
                active: i == self.active_tab,
                closable: n > 1,
            }
        } else {
            Card::NewTab { selected: self.tab_switcher_selection >= n }
        }
    }

    /// Takes in the clicks on the tab switcher of one frame: a click outside
    /// it, a close button, a tab card and the new-tab card.
    pub fn switcher_clicks(&mut self, outside: bool, close: Option<usize>, pick: Option<usize>, new_tab: bool)
        requires
            app_wf(old(self)@),
            old(self).tabs.len() < isize::MAX,
            close matches Some(idx) ==> idx < old(self).tabs.len(),
            pick matches Some(idx) ==> idx < len_after_close(old(self)@, close),
        ensures
            final(self)@ == switcher_clicks_spec(old(self)@, outside, close, pick, new_tab),
            app_wf(final(self)@),
            final(self).preview_cache == old(self).preview_cache,
    {
        if outside {
            self.show_tab_switcher = false;
            return;
        }
        match close {
            Some(idx) => {
                self.remove_tab(idx);
                if self.tab_switcher_selection >= self.tabs.len() {
                    self.tab_switcher_selection = self.tabs.len() - 1;
                }
            },
            None => {},
        }
        match pick {
            Some(idx) => {
                self.active_tab = idx;
                self.show_tab_switcher = false;
            },
            None => {},
        }
        if new_tab {
            self.open_new_tab();
            self.show_tab_switcher = false;
        }
    }

    /// Takes in one input event of a batch. `switching` tells whether the
    /// tab switcher was shown when the batch began: then it takes all the
    /// keys of the batch.
    pub fn handle_event(&mut self, ev: InputEvent, switching: bool) -> (out: Outcome)
        requires
            app_wf(old(self)@),
            old(self).tabs.len() < isize::MAX,
        ensures
            (final(self)@, out@) == event_spec(old(self)@, ev, switching),
            app_wf(final(self)@),
            final(self).preview_cache == old(self).preview_cache,
    {
        match ev {
            InputEvent::KeyDown { key, ctrl, shift } => {
                if switching {
                    if self.switcher_key(key, shift) {
                        Outcome::Consumed
                    } else {
                        Outcome::PassOn
                    }
                } else {
                    self.shortcut(key, ctrl, shift)
                }
            },
            InputEvent::KeyUp => {
                if switching {
                    Outcome::Consumed
                } else {
                    Outcome::PassOn
                }
            },
            InputEvent::Other => Outcome::PassOn,
        }
    }
}

} // verus!
