//! The TUI's state and what each key does to it.
//!
//! A key never waits on the network or the disk here: it changes the state
//! and names the work the event loop does next (an `AppAction`).
use vstd::prelude::*;

use crate::jql::{build_search_jql, search_query};
use crate::keys::{
    insert_at, nav_down, nav_up, picker_backspace, picker_cursor_left, picker_cursor_right,
    picker_nav_down, picker_nav_up, picker_type_char, remove_at, remove_char_at, ListState,
};
use crate::columns::{builtin_column, builtin_ids, default_column_ids, ColumnSpec, Width};
use crate::text::{
    chars_of, contains, lowercase, push_str, str_contains, to_lowercase, trim, trim_str, views,
};
use crate::tui_modal::{
    handle_modal_key, modal_effect, modal_outcome, Key, KeyPress, Modal, ModalOutcome, PickerOption,
};
use crate::tui_prefs::{
    all_themes, saved_views, tab_at, tab_index, theme_position, DetailTab, ThemeName, TuiPreferences,
};

verus! {

/// What the TUI is showing, and so how it reads keys.
#[derive(Clone, Copy, Debug, PartialEq, Eq, Structural)]
pub enum Mode {
    Browse,
    Search,
    Transition,
    Help,
    ProjectVersionBrowser,
    ColumnPicker,
    AssigneePicker,
    ComponentPicker,
    FixVersionPicker,
    SprintPicker,
    BoardPicker,
    SavedJqlPicker,
    ServerInfo,
    ConfigView,
    ThemePicker,
    Modal,
}

/// Which pane of the browse screen has the keyboard.
#[derive(Clone, Copy, Debug, PartialEq, Eq, Structural)]
pub enum Focus {
    List,
    Detail,
}

/// The work the event loop does after a key.
pub enum AppAction {
    /// Nothing more to do.
    Idle,
    Quit,
    Refresh,
    ExecuteSearch(String),
    FetchTransitions,
    ExecuteTransition(String, String),
    OpenBrowser,
    OpenNotifications,
    MarkNotificationsRead,
    CreateIssue,
    OpenProjectVersionBrowser,
    OpenProjectVersionCreateModal,
    OpenProjectVersionEditModal,
    RefreshProjectVersionBrowser,
    RefreshProjectVersionPreview,
    EditIssue(String),
    AssignIssue(String),
    OpenAssigneePicker(String),
    RefreshAssigneeOptions,
    AddComment(String),
    BulkComment,
    AddWorklog(String),
    AddBulkWorklog(String),
    EditLabels(String),
    EditComponents(String),
    OpenComponentPicker(String),
    RefreshComponentOptions,
    EditFixVersions(String),
    OpenFixVersionPicker(String),
    RefreshFixVersionOptions,
    OpenSprintPicker(String),
    RefreshSprintOptions,
    ApplySprintSelection(String),
    OpenChangeTypeModal(String),
    OpenMoveIssueModal(String),
    RefreshMentionOptions,
    SelectMention(usize),
    UploadAttachment(String),
    SaveColumnPreferences,
    ResetColumnPreferences,
    ApplySavedJql(String),
    CreateSavedJql,
    EditSavedJql(usize),
    DeleteSavedJql(usize),
    SaveTheme,
    LoadServerInfo,
    LoadConfigView,
    WarmActiveTab,
    SubmitModal,
    CancelModal,
}

/// A picker that searches options by a typed query, for one issue.
pub struct OptionPicker {
    pub query: String,
    /// The cursor, counted in characters.
    pub cursor: usize,
    pub options: Vec<PickerOption>,
    pub state: ListState,
    pub issue_key: String,
    /// The values ticked, for pickers that take several.
    pub chosen: Vec<String>,
}

/// The state of the TUI.
pub struct App {
    /// The keys of the listed issues, in order.
    pub issue_keys: Vec<String>,
    pub table_state: ListState,
    pub mode: Mode,
    pub focus: Focus,
    pub active_tab: DetailTab,
    /// The issue whose details are loaded.
    pub detail_key: String,
    pub detail_scroll: u16,
    pub jql: String,
    pub default_project: Option<String>,
    pub search_input: String,
    /// The cursor in the search box, counted in characters.
    pub search_cursor: usize,
    /// The status line, and whether it reports an error.
    pub status: Option<(String, bool)>,
    /// The transitions offered: id and name.
    pub transitions: Vec<(String, String)>,
    pub transition_state: ListState,
    pub transition_issue_key: String,
    pub visible_columns: Vec<String>,
    pub column_picker_state: ListState,
    pub column_picker_filter: String,
    /// The fields the server offers: id and name.
    pub available_fields: Vec<(String, String)>,
    pub assignee: OptionPicker,
    pub component: OptionPicker,
    pub fix_version: OptionPicker,
    pub sprint: OptionPicker,
    pub prefs: TuiPreferences,
    pub saved_jql_state: ListState,
    pub jql_picker_filter: String,
    pub theme_state: ListState,
    pub modal: Option<Modal>,
    pub prev_mode: Option<Mode>,
}

/// The key of the selected issue, if a listed issue is selected.
pub open spec fn selected_key(a: App) -> Option<Seq<char>> {
    match a.table_state.selection() {
        Some(i) => if i < a.issue_keys@.len() {
            Some(a.issue_keys@[i as int]@)
        } else {
            None
        },
        None => None,
    }
}

/// The detail scroll after scrolling down by `amount` (at least one line),
/// held at the largest offset.
pub open spec fn scrolled_down(scroll: u16, amount: u16) -> u16 {
    let step: int = if amount >= 1 {
        amount as int
    } else {
        1
    };
    if scroll + step <= u16::MAX {
        (scroll + step) as u16
    } else {
        u16::MAX
    }
}

/// The detail scroll after scrolling up by `amount` (at least one line), held
/// at the top.
pub open spec fn scrolled_up(scroll: u16, amount: u16) -> u16 {
    let step: int = if amount >= 1 {
        amount as int
    } else {
        1
    };
    if scroll - step >= 0 {
        (scroll - step) as u16
    } else {
        0
    }
}

/// The state after the detail context follows the selected issue: the loaded
/// issue becomes the selected one, and the scroll resets when it changes.
pub open spec fn detail_followed(a: App, r: App) -> bool {
    match selected_key(a) {
        Some(k) => if k == a.detail_key@ {
            r == a
        } else {
            &&& r == (App { detail_key: r.detail_key, detail_scroll: 0, ..a })
            &&& r.detail_key@ == k
        },
        None => r == a,
    }
}

impl App {
    /// The key of the selected issue.
    pub fn selected_issue_key(&self) -> (r: Option<String>)
        ensures
            match selected_key(*self) {
                Some(k) => r is Some && r->0@ == k,
                None => r is None,
            },
    {
        match self.table_state.selected() {
            Some(i) => if i < self.issue_keys.len() {
                let mut s = String::new();
                push_str(&mut s, self.issue_keys[i].as_str());
                Some(s)
            } else {
                None
            },
            None => None,
        }
    }

    /// The project the TUI acts in: the default project, else the part of
    /// the selected issue's key before its first `-`, else the selected
    /// issue's own project, `selected_project`.
    pub fn active_project_key(&self, selected_project: &str) -> (r: Option<String>)
        ensures
            crate::model::opt_view(r) == match self.default_project {
                Some(p) => Some(p@),
                None => match selected_key(*self) {
                    Some(k) => Some(crate::versions::key_project(k, selected_project@)),
                    None => None,
                },
            },
    {
        match &self.default_project {
            Some(p) => {
                let mut s = String::new();
                push_str(&mut s, p.as_str());
                Some(s)
            },
            None => match self.selected_issue_key() {
                Some(k) => Some(crate::versions::issue_project_key(k.as_str(), selected_project)),
                None => None,
            },
        }
    }

    /// Selects the next issue, held at the last one.
    pub fn next_issue(&mut self)
        ensures
            old(self).issue_keys@.len() == 0 ==> *final(self) == *old(self),
            old(self).issue_keys@.len() > 0 ==> {
                &&& *final(self) == (App { table_state: final(self).table_state, ..*old(self) })
                &&& final(self).table_state.selection() == Some(
                    nav_down(old(self).table_state.selection(), old(self).issue_keys@.len()),
                )
            },
    {
        if self.issue_keys.len() == 0 {
            return;
        }
        let len = self.issue_keys.len();
        picker_nav_down(&mut self.table_state, len);
    }

    /// Selects the previous issue, held at the first one.
    pub fn prev_issue(&mut self)
        ensures
            old(self).issue_keys@.len() == 0 ==> *final(self) == *old(self),
            old(self).issue_keys@.len() > 0 ==> {
                &&& *final(self) == (App { table_state: final(self).table_state, ..*old(self) })
                &&& final(self).table_state.selection() == Some(
                    nav_up(old(self).table_state.selection()),
                )
            },
    {
        if self.issue_keys.len() == 0 {
            return;
        }
        picker_nav_up(&mut self.table_state);
    }

    /// Selects the next transition, held at the last one.
    pub fn next_transition(&mut self)
        ensures
            old(self).transitions@.len() == 0 ==> *final(self) == *old(self),
            old(self).transitions@.len() > 0 ==> {
                &&& *final(self) == (App { transition_state: final(self).transition_state, ..*old(self) })
                &&& final(self).transition_state.selection() == Some(
                    nav_down(old(self).transition_state.selection(), old(self).transitions@.len()),
                )
            },
    {
        if self.transitions.len() == 0 {
            return;
        }
        let len = self.transitions.len();
        picker_nav_down(&mut self.transition_state, len);
    }

    /// Selects the previous transition, held at the first one.
    pub fn prev_transition(&mut self)
        ensures
            old(self).transitions@.len() == 0 ==> *final(self) == *old(self),
            old(self).transitions@.len() > 0 ==> {
                &&& *final(self) == (App { transition_state: final(self).transition_state, ..*old(self) })
                &&& final(self).transition_state.selection() == Some(
                    nav_up(old(self).transition_state.selection()),
                )
            },
    {
        if self.transitions.len() == 0 {
            return;
        }
        picker_nav_up(&mut self.transition_state);
    }

    /// Shows a status message.
    pub fn set_status(&mut self, msg: String, is_error: bool)
        ensures
            *final(self) == (App { status: Some((msg, is_error)), ..*old(self) }),
    {
        self.status = Some((msg, is_error));
    }

    /// Clears the status line.
    pub fn clear_status(&mut self)
        ensures
            *final(self) == (App { status: None, ..*old(self) }),
    {
        self.status = None;
    }

    /// Makes the detail pane follow the selected issue.
    pub fn ensure_detail_context(&mut self)
        ensures
            detail_followed(*old(self), *final(self)),
    {
        match self.selected_issue_key() {
            Some(k) => {
                if !crate::text::str_eq(k.as_str(), self.detail_key.as_str()) {
                    self.detail_key = k;
                    self.detail_scroll = 0;
                }
            },
            None => {},
        }
    }

    /// Opens the detail pane on the selected issue, scrolled to the top.
    pub fn open_detail(&mut self)
        ensures
            *final(self) == (App {
                focus: Focus::Detail,
                detail_scroll: 0,
                detail_key: final(self).detail_key,
                ..*old(self)
            }),
            match selected_key(*old(self)) {
                Some(k) => final(self).detail_key@ == k,
                None => final(self).detail_key == old(self).detail_key,
            },
    {
        self.focus = Focus::Detail;
        self.ensure_detail_context();
        self.detail_scroll = 0;
    }

    /// Returns to the issue list, scrolling the detail pane to the top.
    pub fn close_detail(&mut self)
        ensures
            *final(self) == (App { focus: Focus::List, detail_scroll: 0, ..*old(self) }),
    {
        self.focus = Focus::List;
        self.detail_scroll = 0;
    }

    /// Scrolls the detail pane to the top.
    pub fn reset_detail_scroll(&mut self)
        ensures
            *final(self) == (App { detail_scroll: 0, ..*old(self) }),
    {
        self.detail_scroll = 0;
    }

    /// Scrolls the detail pane down by `amount` lines (at least one).
    pub fn scroll_detail_down(&mut self, amount: u16)
        ensures
            *final(self) == (App { detail_scroll: scrolled_down(old(self).detail_scroll, amount), ..*old(self) }),
    {
        let step: u16 = if amount >= 1 {
            amount
        } else {
            1
        };
        self.detail_scroll = self.detail_scroll.saturating_add(step);
    }

    /// Scrolls the detail pane up by `amount` lines (at least one).
    pub fn scroll_detail_up(&mut self, amount: u16)
        ensures
            *final(self) == (App { detail_scroll: scrolled_up(old(self).detail_scroll, amount), ..*old(self) }),
    {
        let step: u16 = if amount >= 1 {
            amount
        } else {
            1
        };
        self.detail_scroll = self.detail_scroll.saturating_sub(step);
    }

    /// Shows tab `tab`, scrolling to the top when it changes.
    pub fn set_active_tab(&mut self, tab: DetailTab)
        ensures
            tab == old(self).active_tab ==> *final(self) == *old(self),
            tab != old(self).active_tab ==> *final(self) == (App {
                active_tab: tab,
                detail_scroll: 0,
                ..*old(self)
            }),
    {
        if self.active_tab != tab {
            self.active_tab = tab;
            self.detail_scroll = 0;
        }
    }

    /// Opens a form over the current screen.
    pub fn open_modal(&mut self, modal: Modal)
        ensures
            *final(self) == modal_opened(*old(self), modal),
    {
        self.prev_mode = Some(self.mode);
        self.modal = Some(modal);
        self.mode = Mode::Modal;
    }

    /// Closes the open form and returns to the screen under it (the browse
    /// screen when none is recorded).
    pub fn close_modal(&mut self)
        ensures
            *final(self) == modal_closed(*old(self)),
    {
        self.modal = None;
        match self.prev_mode {
            Some(m) => self.mode = m,
            None => self.mode = Mode::Browse,
        }
        self.prev_mode = None;
    }
}

/// The state after opening form `m`: the screen under it is remembered.
pub open spec fn modal_opened(a: App, m: Modal) -> App {
    App { prev_mode: Some(a.mode), modal: Some(m), mode: Mode::Modal, ..a }
}

/// The state after closing the form: back to the remembered screen, else the
/// browse screen.
pub open spec fn modal_closed(a: App) -> App {
    App {
        modal: None,
        prev_mode: None,
        mode: match a.prev_mode {
            Some(p) => p,
            None => Mode::Browse,
        },
        ..a
    }
}

/// Closing a form returns to the screen it was opened from, with nothing else
/// changed.
pub proof fn law_modal_round_trip(a: App, m: Modal)
    ensures
        modal_closed(modal_opened(a, m)) == (App { modal: None, prev_mode: None, ..a }),
{
}

/// The keys that act on the selected issue from the browse screen.
pub open spec fn is_issue_verb(c: char) -> bool {
    c == 'e' || c == 'a' || c == ';' || c == 'w' || c == 'b' || c == 'l' || c == 'm' || c == 'v'
        || c == 's' || c == 'u' || c == 'y' || c == 'M'
}

/// The action key `c` asks for on the issue with key `k`.
pub open spec fn verb_action(c: char, k: Seq<char>, r: AppAction) -> bool {
    if c == 'e' {
        r matches AppAction::EditIssue(s) && s@ == k
    } else if c == 'a' {
        r matches AppAction::OpenAssigneePicker(s) && s@ == k
    } else if c == ';' {
        r matches AppAction::AddComment(s) && s@ == k
    } else if c == 'w' {
        r matches AppAction::AddWorklog(s) && s@ == k
    } else if c == 'b' {
        r matches AppAction::AddBulkWorklog(s) && s@ == k
    } else if c == 'l' {
        r matches AppAction::EditLabels(s) && s@ == k
    } else if c == 'm' {
        r matches AppAction::OpenComponentPicker(s) && s@ == k
    } else if c == 'v' {
        r matches AppAction::OpenFixVersionPicker(s) && s@ == k
    } else if c == 's' {
        r matches AppAction::OpenSprintPicker(s) && s@ == k
    } else if c == 'u' {
        r matches AppAction::UploadAttachment(s) && s@ == k
    } else if c == 'y' {
        r matches AppAction::OpenChangeTypeModal(s) && s@ == k
    } else {
        r matches AppAction::OpenMoveIssueModal(s) && s@ == k
    }
}

/// The action of key `c` on the selected issue: none when no issue is selected.
pub open spec fn on_selected(a: App, c: char, r: AppAction) -> bool {
    match selected_key(a) {
        Some(k) => verb_action(c, k, r),
        None => r is Idle,
    }
}

fn verb(c: char, key: String) -> (r: AppAction)
    requires
        is_issue_verb(c),
    ensures
        verb_action(c, key@, r),
{
    if c == 'e' {
        AppAction::EditIssue(key)
    } else if c == 'a' {
        AppAction::OpenAssigneePicker(key)
    } else if c == ';' {
        AppAction::AddComment(key)
    } else if c == 'w' {
        AppAction::AddWorklog(key)
    } else if c == 'b' {
        AppAction::AddBulkWorklog(key)
    } else if c == 'l' {
        AppAction::EditLabels(key)
    } else if c == 'm' {
        AppAction::OpenComponentPicker(key)
    } else if c == 'v' {
        AppAction::OpenFixVersionPicker(key)
    } else if c == 's' {
        AppAction::OpenSprintPicker(key)
    } else if c == 'u' {
        AppAction::UploadAttachment(key)
    } else if c == 'y' {
        AppAction::OpenChangeTypeModal(key)
    } else {
        AppAction::OpenMoveIssueModal(key)
    }
}

fn verb_on_selected(app: &App, c: char) -> (r: AppAction)
    requires
        is_issue_verb(c),
    ensures
        on_selected(*app, c, r),
{
    match app.selected_issue_key() {
        Some(k) => verb(c, k),
        None => AppAction::Idle,
    }
}

/// The action of a key on the browse screen's issue list.
pub open spec fn browse_action(a: App, code: Key, r: AppAction) -> bool {
    match code {
        Key::Esc => r is Quit,
        Key::Enter => if selected_key(a) is Some {
            r is WarmActiveTab
        } else {
            r is Idle
        },
        Key::Char(c) => if c == 'q' {
            r is Quit
        } else if c == 'r' {
            r is Refresh
        } else if c == 't' {
            r is FetchTransitions
        } else if c == 'n' {
            r is OpenNotifications
        } else if c == 'o' {
            r is OpenBrowser
        } else if c == 'S' {
            r is LoadServerInfo
        } else if c == 'g' {
            r is LoadConfigView
        } else if c == 'c' {
            r is CreateIssue
        } else if c == 'V' {
            r is OpenProjectVersionBrowser
        } else if c == ':' {
            r is BulkComment
        } else if c == 'R' {
            r is MarkNotificationsRead
        } else if is_issue_verb(c) {
            on_selected(a, c, r)
        } else {
            r is Idle
        },
        _ => r is Idle,
    }
}

/// The state after moving the issue selection down or up, held at the ends.
pub open spec fn list_moved(a: App, down: bool, b: App) -> bool {
    &&& b == (App { table_state: b.table_state, ..a })
    &&& a.issue_keys@.len() > 0 ==> b.table_state.selection() == Some(
        if down {
            nav_down(a.table_state.selection(), a.issue_keys@.len())
        } else {
            nav_up(a.table_state.selection())
        },
    )
    &&& a.issue_keys@.len() == 0 ==> b == a
}

/// What a key does to the state on the browse screen's issue list.
pub open spec fn browse_effect(a: App, code: Key, b: App) -> bool {
    match code {
        Key::Down => list_moved(a, true, b),
        Key::Up => list_moved(a, false, b),
        Key::Enter => match selected_key(a) {
            Some(k) => {
                &&& b == (App {
                    focus: Focus::Detail,
                    detail_scroll: 0,
                    detail_key: b.detail_key,
                    status: None,
                    ..a
                })
                &&& b.detail_key@ == k
            },
            None => b == a,
        },
        Key::Char(c) => if c == 'j' {
            list_moved(a, true, b)
        } else if c == 'k' {
            list_moved(a, false, b)
        } else if c == '/' {
            &&& b == (App {
                search_input: b.search_input,
                search_cursor: a.jql@.len() as usize,
                mode: Mode::Search,
                ..a
            })
            &&& b.search_input@ == a.jql@
        } else if c == '?' {
            b == (App { mode: Mode::Help, ..a })
        } else if c == 'C' {
            &&& b == (App {
                mode: Mode::ColumnPicker,
                column_picker_filter: b.column_picker_filter,
                column_picker_state: b.column_picker_state,
                ..a
            })
            &&& b.column_picker_filter@ == Seq::<char>::empty()
            &&& b.column_picker_state.selection() == Some(0usize)
        } else if c == 'p' {
            &&& b == (App {
                mode: Mode::SavedJqlPicker,
                jql_picker_filter: b.jql_picker_filter,
                saved_jql_state: b.saved_jql_state,
                ..a
            })
            &&& b.jql_picker_filter@ == Seq::<char>::empty()
            &&& b.saved_jql_state.selection() == Some(0usize)
        } else if c == 'T' {
            b == (App { mode: Mode::ThemePicker, ..a })
        } else if c == 'S' {
            b == (App { mode: Mode::ServerInfo, ..a })
        } else if c == 'g' {
            b == (App { mode: Mode::ConfigView, ..a })
        } else {
            b == a
        },
        _ => b == a,
    }
}

fn list_selection(app: &mut App, down: bool)
    ensures
        list_moved(*old(app), down, *final(app)),
{
    if down {
        app.next_issue();
    } else {
        app.prev_issue();
    }
}

/// Handles a key on the browse screen's issue list.
pub fn handle_browse_key(app: &mut App, code: Key) -> (r: AppAction)
    ensures
        browse_action(*old(app), code, r),
        browse_effect(*old(app), code, *final(app)),
{
    match code {
        Key::Esc => AppAction::Quit,
        Key::Down => {
            list_selection(app, true);
            AppAction::Idle
        },
        Key::Up => {
            list_selection(app, false);
            AppAction::Idle
        },
        Key::Enter => {
            match app.selected_issue_key() {
                Some(_) => {
                    app.open_detail();
                    app.clear_status();
                    AppAction::WarmActiveTab
                },
                None => AppAction::Idle,
            }
        },
        Key::Char(c) => {
            if c == 'q' {
                AppAction::Quit
            } else if c == 'j' {
                list_selection(app, true);
                AppAction::Idle
            } else if c == 'k' {
                list_selection(app, false);
                AppAction::Idle
            } else if c == 'r' {
                AppAction::Refresh
            } else if c == 't' {
                AppAction::FetchTransitions
            } else if c == 'n' {
                AppAction::OpenNotifications
            } else if c == 'o' {
                AppAction::OpenBrowser
            } else if c == '/' {
                let mut s = String::new();
                push_str(&mut s, app.jql.as_str());
                let n = crate::text::chars_of(app.jql.as_str()).len();
                app.search_input = s;
                app.search_cursor = n;
                app.mode = Mode::Search;
                AppAction::Idle
            } else if c == '?' {
                app.mode = Mode::Help;
                AppAction::Idle
            } else if c == 'C' {
                app.mode = Mode::ColumnPicker;
                app.column_picker_filter = String::new();
                app.column_picker_state.select(Some(0));
                AppAction::Idle
            } else if c == 'p' {
                app.jql_picker_filter = String::new();
                app.saved_jql_state.select(Some(0));
                app.mode = Mode::SavedJqlPicker;
                AppAction::Idle
            } else if c == 'T' {
                app.mode = Mode::ThemePicker;
                AppAction::Idle
            } else if c == 'S' {
                app.mode = Mode::ServerInfo;
                AppAction::LoadServerInfo
            } else if c == 'g' {
                app.mode = Mode::ConfigView;
                AppAction::LoadConfigView
            } else if c == 'c' {
                AppAction::CreateIssue
            } else if c == 'V' {
                AppAction::OpenProjectVersionBrowser
            } else if c == ':' {
                AppAction::BulkComment
            } else if c == 'R' {
                AppAction::MarkNotificationsRead
            } else if c == 'e' || c == 'a' || c == ';' || c == 'w' || c == 'b' || c == 'l' || c == 'm'
                || c == 'v' || c == 's' || c == 'u' || c == 'y' || c == 'M' {
                verb_on_selected(app, c)
            } else {
                AppAction::Idle
            }
        },
        _ => AppAction::Idle,
    }
}

/// The action of a key on the detail pane.
pub open spec fn view_action(a: App, code: Key, r: AppAction) -> bool {
    match code {
        Key::Left | Key::Right | Key::Tab => r is WarmActiveTab,
        Key::Char(c) => if c == 'h' || c == 'l' {
            r is WarmActiveTab
        } else if c == 't' {
            r is FetchTransitions
        } else if c == 'o' {
            r is OpenBrowser
        } else if is_issue_verb(c) && c != 'l' {
            on_selected(a, c, r)
        } else {
            r is Idle
        },
        _ => r is Idle,
    }
}

/// The state after showing tab `tab`: the scroll resets when the tab changes.
pub open spec fn with_tab(a: App, tab: DetailTab) -> App {
    if tab == a.active_tab {
        a
    } else {
        App { active_tab: tab, detail_scroll: 0, ..a }
    }
}

/// What a key does to the state on the detail pane.
pub open spec fn view_effect(a: App, code: Key) -> App {
    let closed = App { focus: Focus::List, detail_scroll: 0, ..a };
    let left = with_tab(a, tab_at(tab_index(a.active_tab) + 6));
    let right = with_tab(a, tab_at(tab_index(a.active_tab) + 1));
    match code {
        Key::Esc | Key::Backspace => closed,
        Key::Left => left,
        Key::Right | Key::Tab => right,
        Key::Down => App { detail_scroll: scrolled_down(a.detail_scroll, 1), ..a },
        Key::Up => App { detail_scroll: scrolled_up(a.detail_scroll, 1), ..a },
        Key::PageDown => App { detail_scroll: scrolled_down(a.detail_scroll, 8), ..a },
        Key::PageUp => App { detail_scroll: scrolled_up(a.detail_scroll, 8), ..a },
        Key::Home => App { detail_scroll: 0, ..a },
        Key::Char(c) => if c == 'q' {
            closed
        } else if c == 'h' {
            left
        } else if c == 'l' {
            right
        } else if c == 'j' {
            App { detail_scroll: scrolled_down(a.detail_scroll, 1), ..a }
        } else if c == 'k' {
            App { detail_scroll: scrolled_up(a.detail_scroll, 1), ..a }
        } else if c == '?' {
            App { mode: Mode::Help, ..a }
        } else {
            a
        },
        _ => a,
    }
}

/// Handles a key on the detail pane.
pub fn handle_view_key(app: &mut App, code: Key) -> (r: AppAction)
    ensures
        view_action(*old(app), code, r),
        *final(app) == view_effect(*old(app), code),
{
    let (close, tab_step, scroll_by): (bool, u8, i32) = match code {
        Key::Esc | Key::Backspace => (true, 0, 0),
        Key::Left => (false, 5, 0),
        Key::Right | Key::Tab => (false, 1, 0),
        Key::Down => (false, 0, 1),
        Key::Up => (false, 0, -1),
        Key::PageDown => (false, 0, 8),
        Key::PageUp => (false, 0, -8),
        Key::Char(c) => if c == 'q' {
            (true, 0, 0)
        } else if c == 'h' {
            (false, 5, 0)
        } else if c == 'l' {
            (false, 1, 0)
        } else if c == 'j' {
            (false, 0, 1)
        } else if c == 'k' {
            (false, 0, -1)
        } else {
            (false, 0, 0)
        },
        _ => (false, 0, 0),
    };
    if close {
        app.close_detail();
        return AppAction::Idle;
    }
    if tab_step == 5 {
        let t = app.active_tab.prev();
        app.set_active_tab(t);
        return AppAction::WarmActiveTab;
    }
    if tab_step == 1 {
        let t = app.active_tab.next();
        app.set_active_tab(t);
        return AppAction::WarmActiveTab;
    }
    if scroll_by > 0 {
        app.scroll_detail_down(scroll_by as u16);
        return AppAction::Idle;
    }
    if scroll_by < 0 {
        app.scroll_detail_up((-scroll_by) as u16);
        return AppAction::Idle;
    }
    match code {
        Key::Home => {
            app.reset_detail_scroll();
            AppAction::Idle
        },
        Key::Char(c) => {
            if c == 't' {
                AppAction::FetchTransitions
            } else if c == 'o' {
                AppAction::OpenBrowser
            } else if c == '?' {
                app.mode = Mode::Help;
                AppAction::Idle
            } else if c == 'e' || c == 'a' || c == ';' || c == 'w' || c == 'b' || c == 'm' || c == 'v'
                || c == 's' || c == 'u' || c == 'y' || c == 'M' {
                verb_on_selected(app, c)
            } else {
                AppAction::Idle
            }
        },
        _ => AppAction::Idle,
    }
}

/// What a key does to a query and its cursor (counted in characters) in a
/// search box: edit it or move the cursor. `None` for other keys.
pub open spec fn edited_query(q: Seq<char>, cursor: usize, code: Key) -> Option<(Seq<char>, int)> {
    match code {
        Key::Left => Some((q, if cursor > 0 { cursor - 1 } else { 0 })),
        Key::Right => Some((q, if cursor < q.len() { cursor + 1 } else { cursor as int })),
        Key::Home => Some((q, 0)),
        Key::End => Some((q, q.len() as int)),
        Key::Backspace => if cursor > 0 {
            Some((remove_at(q, cursor - 1), cursor - 1))
        } else {
            Some((q, 0))
        },
        Key::Delete => Some((remove_at(q, cursor as int), cursor as int)),
        Key::Char(c) => Some((insert_at(q, cursor as int, c), cursor + 1)),
        _ => None,
    }
}

/// The action of a key in the search box.
pub open spec fn search_action(a: App, code: Key, r: AppAction) -> bool {
    match code {
        Key::Enter => {
            let q = trim(a.search_input@);
            if q.len() == 0 {
                r is Idle
            } else {
                r matches AppAction::ExecuteSearch(j) && j@ == search_query(
                    match a.default_project {
                        Some(p) => Some(p@),
                        None => None,
                    },
                    a.search_input@,
                )
            }
        },
        _ => r is Idle,
    }
}

/// What a key does to the state in the search box.
pub open spec fn search_effect(a: App, code: Key, b: App) -> bool {
    match code {
        Key::Esc | Key::Enter => b == (App { mode: Mode::Browse, ..a }),
        _ => match edited_query(a.search_input@, a.search_cursor, code) {
            Some((q, k)) => {
                &&& b == (App { search_input: b.search_input, search_cursor: k as usize, ..a })
                &&& b.search_input@ == q
            },
            None => b == a,
        },
    }
}

/// Handles a key in the search box.
pub fn handle_search_key(app: &mut App, code: Key) -> (r: AppAction)
    requires
        old(app).search_cursor < usize::MAX,
    ensures
        search_action(*old(app), code, r),
        search_effect(*old(app), code, *final(app)),
{
    match code {
        Key::Esc => {
            app.mode = Mode::Browse;
            AppAction::Idle
        },
        Key::Enter => {
            let query = trim_str(app.search_input.as_str());
            app.mode = Mode::Browse;
            if query.unicode_len() == 0 {
                AppAction::Idle
            } else {
                let jql = match &app.default_project {
                    Some(p) => build_search_jql(Some(p.as_str()), app.search_input.as_str()),
                    None => build_search_jql(None, app.search_input.as_str()),
                };
                AppAction::ExecuteSearch(jql)
            }
        },
        Key::Left => {
            picker_cursor_left(&mut app.search_cursor);
            AppAction::Idle
        },
        Key::Right => {
            picker_cursor_right(&mut app.search_cursor, app.search_input.as_str());
            AppAction::Idle
        },
        Key::Home => {
            app.search_cursor = 0;
            AppAction::Idle
        },
        Key::End => {
            app.search_cursor = chars_of(app.search_input.as_str()).len();
            AppAction::Idle
        },
        Key::Backspace => {
            picker_backspace(&mut app.search_input, &mut app.search_cursor);
            AppAction::Idle
        },
        Key::Delete => {
            let k = app.search_cursor;
            remove_char_at(&mut app.search_input, k);
            AppAction::Idle
        },
        Key::Char(c) => {
            picker_type_char(&mut app.search_input, &mut app.search_cursor, c);
            AppAction::Idle
        },
        _ => AppAction::Idle,
    }
}

/// The action of a key in the transition picker.
pub open spec fn transition_action(a: App, code: Key, r: AppAction) -> bool {
    match code {
        Key::Enter => match a.transition_state.selection() {
            Some(i) => if i < a.transitions@.len() {
                r matches AppAction::ExecuteTransition(k, id) && k@ == a.transition_issue_key@
                    && id@ == a.transitions@[i as int].0@
            } else {
                r is Idle
            },
            None => r is Idle,
        },
        _ => r is Idle,
    }
}

/// The state after moving the transition selection down or up, held at the ends.
pub open spec fn transition_moved(a: App, down: bool, b: App) -> bool {
    &&& b == (App { transition_state: b.transition_state, ..a })
    &&& a.transitions@.len() > 0 ==> b.transition_state.selection() == Some(
        if down {
            nav_down(a.transition_state.selection(), a.transitions@.len())
        } else {
            nav_up(a.transition_state.selection())
        },
    )
    &&& a.transitions@.len() == 0 ==> b == a
}

/// What a key does to the state in the transition picker.
pub open spec fn transition_effect(a: App, code: Key, b: App) -> bool {
    let leave = b == (App { mode: Mode::Browse, transitions: b.transitions, ..a })
        && b.transitions@.len() == 0;
    match code {
        Key::Esc => leave,
        Key::Down => transition_moved(a, true, b),
        Key::Up => transition_moved(a, false, b),
        Key::Enter => match a.transition_state.selection() {
            Some(i) => if i < a.transitions@.len() {
                b == (App { mode: Mode::Browse, ..a })
            } else {
                b == a
            },
            None => b == a,
        },
        Key::Char(c) => if c == 'q' {
            leave
        } else if c == 'j' {
            transition_moved(a, true, b)
        } else if c == 'k' {
            transition_moved(a, false, b)
        } else {
            b == a
        },
        _ => b == a,
    }
}

/// Handles a key in the transition picker.
pub fn handle_transition_key(app: &mut App, code: Key) -> (r: AppAction)
    ensures
        transition_action(*old(app), code, r),
        transition_effect(*old(app), code, *final(app)),
{
    let (leave, down, up) = match code {
        Key::Esc => (true, false, false),
        Key::Down => (false, true, false),
        Key::Up => (false, false, true),
        Key::Char(c) => (c == 'q', c == 'j', c == 'k'),
        _ => (false, false, false),
    };
    if leave {
        app.mode = Mode::Browse;
        app.transitions = Vec::new();
        return AppAction::Idle;
    }
    if down {
        app.next_transition();
        return AppAction::Idle;
    }
    if up {
        app.prev_transition();
        return AppAction::Idle;
    }
    match code {
        Key::Enter => match app.transition_state.selected() {
            Some(idx) => if idx < app.transitions.len() {
                let mut key = String::new();
                push_str(&mut key, app.transition_issue_key.as_str());
                let mut id = String::new();
                push_str(&mut id, app.transitions[idx].0.as_str());
                app.mode = Mode::Browse;
                AppAction::ExecuteTransition(key, id)
            } else {
                AppAction::Idle
            },
            None => AppAction::Idle,
        },
        _ => AppAction::Idle,
    }
}

/// What a key does to the state in the theme picker, and its action.
pub open spec fn theme_step(a: App, code: Key, b: App, r: AppAction) -> bool {
    let down = b == (App { theme_state: b.theme_state, ..a }) && b.theme_state.selection() == Some(
        nav_down(a.theme_state.selection(), 5),
    ) && r is Idle;
    let up = b == (App { theme_state: b.theme_state, ..a }) && b.theme_state.selection() == Some(
        nav_up(a.theme_state.selection()),
    ) && r is Idle;
    let leave = b == (App { mode: Mode::Browse, ..a }) && r is Idle;
    match code {
        Key::Esc => leave,
        Key::Down => down,
        Key::Up => up,
        Key::Enter => b == (App { mode: Mode::Browse, ..a }) && r is SaveTheme,
        Key::Char(c) => if c == 'q' {
            leave
        } else if c == 'j' {
            down
        } else if c == 'k' {
            up
        } else {
            b == a && r is Idle
        },
        _ => b == a && r is Idle,
    }
}

/// Handles a key in the theme picker.
pub fn handle_theme_picker_key(app: &mut App, code: Key) -> (r: AppAction)
    ensures
        theme_step(*old(app), code, *final(app), r),
{
    let (leave, down, up) = match code {
        Key::Esc => (true, false, false),
        Key::Down => (false, true, false),
        Key::Up => (false, false, true),
        Key::Char(c) => (c == 'q', c == 'j', c == 'k'),
        _ => (false, false, false),
    };
    if leave {
        app.mode = Mode::Browse;
        return AppAction::Idle;
    }
    if down {
        picker_nav_down(&mut app.theme_state, 5);
        return AppAction::Idle;
    }
    if up {
        picker_nav_up(&mut app.theme_state);
        return AppAction::Idle;
    }
    match code {
        Key::Enter => {
            app.mode = Mode::Browse;
            AppAction::SaveTheme
        },
        _ => AppAction::Idle,
    }
}

/// `s` without the entries equal to `v`.
pub open spec fn without(s: Seq<Seq<char>>, v: Seq<char>) -> Seq<Seq<char>>
    decreases s.len(),
{
    if s.len() == 0 {
        s
    } else {
        let r = without(s.drop_last(), v);
        if s.last() == v {
            r
        } else {
            r.push(s.last())
        }
    }
}

/// The ticked values after ticking `v`: it leaves when it was there, else it
/// is added at the end.
pub open spec fn toggled(s: Seq<Seq<char>>, v: Seq<char>) -> Seq<Seq<char>> {
    if s.contains(v) {
        without(s, v)
    } else {
        s.push(v)
    }
}

proof fn lemma_without(s: Seq<Seq<char>>, v: Seq<char>)
    ensures
        forall|x: Seq<char>| without(s, v).contains(x) <==> (s.contains(x) && x != v),
        s.no_duplicates() ==> without(s, v).no_duplicates(),
        !s.contains(v) ==> without(s, v) == s,
    decreases s.len(),
{
    if s.len() > 0 {
        let t = s.drop_last();
        lemma_without(t, v);
        assert forall|x: Seq<char>| s.contains(x) <==> (t.contains(x) || x == s.last()) by {
            if s.contains(x) {
                let j = choose|j: int| 0 <= j < s.len() && s[j] == x;
                if j < s.len() - 1 {
                    assert(t[j] == x);
                }
            }
            if t.contains(x) {
                let j = choose|j: int| 0 <= j < t.len() && t[j] == x;
                assert(s[j] == x);
            }
            if x == s.last() {
                assert(s[s.len() - 1] == x);
            }
        }
        let r = without(t, v);
        if s.last() != v {
            assert forall|x: Seq<char>| r.push(s.last()).contains(x) <==> (r.contains(x) || x == s.last()) by {
                if r.push(s.last()).contains(x) {
                    let j = choose|j: int| 0 <= j < r.len() + 1 && r.push(s.last())[j] == x;
                    if j < r.len() {
                        assert(r[j] == x);
                    }
                }
                if r.contains(x) {
                    let j = choose|j: int| 0 <= j < r.len() && r[j] == x;
                    assert(r.push(s.last())[j] == x);
                }
                if x == s.last() {
                    assert(r.push(s.last())[r.len() as int] == x);
                }
            }
            if s.no_duplicates() {
                assert(t.no_duplicates());
                assert(!t.contains(s.last())) by {
                    if t.contains(s.last()) {
                        let j = choose|j: int| 0 <= j < t.len() && t[j] == s.last();
                        assert(s[j] == s[s.len() - 1]);
                    }
                }
                assert(!r.contains(s.last()));
                assert forall|a: int, b: int| 0 <= a < b < r.len() + 1 implies r.push(s.last())[a] != r.push(
                    s.last(),
                )[b] by {
                    if b == r.len() {
                        assert(r.contains(r[a]));
                    }
                }
            }
            if !s.contains(v) {
                assert(!t.contains(v)) by {
                    if t.contains(v) {
                        let j = choose|j: int| 0 <= j < t.len() && t[j] == v;
                        assert(s[j] == v);
                    }
                }
                assert(s =~= t.push(s.last()));
            }
        } else {
            if s.no_duplicates() {
                assert(t.no_duplicates());
            }
            assert(s[s.len() - 1] == v);
        }
    }
}

/// Ticking a value keeps the ticked values free of repeats.
pub proof fn law_toggle_keeps_distinct(s: Seq<Seq<char>>, v: Seq<char>)
    requires
        s.no_duplicates(),
    ensures
        toggled(s, v).no_duplicates(),
        toggled(s, v).contains(v) == !s.contains(v),
{
    lemma_without(s, v);
    if !s.contains(v) {
        assert forall|a: int, b: int| 0 <= a < b < s.len() + 1 implies s.push(v)[a] != s.push(v)[b] by {
            if b == s.len() {
                assert(s.contains(s[a]));
            }
        }
        assert(s.push(v)[s.len() as int] == v);
    }
}

/// Ticking a value twice leaves the same values ticked.
pub proof fn law_toggle_twice(s: Seq<Seq<char>>, v: Seq<char>)
    ensures
        toggled(toggled(s, v), v).to_set() == s.to_set(),
{
    lemma_without(s, v);
    if s.contains(v) {
        let t = without(s, v);
        assert(!t.contains(v));
        assert forall|x: Seq<char>| t.push(v).contains(x) <==> s.contains(x) by {
            if t.push(v).contains(x) {
                let j = choose|j: int| 0 <= j < t.len() + 1 && t.push(v)[j] == x;
                if j < t.len() {
                    assert(t[j] == x);
                }
            }
            if s.contains(x) && x != v {
                let j = choose|j: int| 0 <= j < t.len() && t[j] == x;
                assert(t.push(v)[j] == x);
            }
            if x == v {
                assert(t.push(v)[t.len() as int] == v);
            }
        }
        assert(t.push(v).to_set() =~= s.to_set());
    } else {
        let t = s.push(v);
        assert(t.contains(v)) by {
            assert(t[s.len() as int] == v);
        }
        assert forall|x: Seq<char>| without(t, v).contains(x) <==> s.contains(x) by {
            lemma_without(t, v);
            if s.contains(x) {
                let j = choose|j: int| 0 <= j < s.len() && s[j] == x;
                assert(t[j] == x);
            }
            if t.contains(x) && x != v {
                let j = choose|j: int| 0 <= j < t.len() && t[j] == x;
                if j < s.len() {
                    assert(s[j] == x);
                }
            }
        }
        assert(without(t, v).to_set() =~= s.to_set());
    }
}

fn contains_str(v: &Vec<String>, x: &str) -> (r: bool)
    ensures
        r == views(v@).contains(x@),
{
    let mut i: usize = 0;
    while i < v.len()
        invariant
            i <= v@.len(),
            forall|j: int| 0 <= j < i ==> v@[j]@ != x@,
        decreases v@.len() - i,
    {
        if crate::text::str_eq(v[i].as_str(), x) {
            assert(views(v@)[i as int] == x@);
            return true;
        }
        i = i + 1;
    }
    assert forall|j: int| 0 <= j < views(v@).len() implies views(v@)[j] != x@ by {
        assert(views(v@)[j] == v@[j]@);
    }
    false
}

/// Removes every entry equal to `value`.
pub fn remove_value(v: &mut Vec<String>, value: &str)
    ensures
        views(final(v)@) == without(views(old(v)@), value@),
{
    let ghost s = views(v@);
    let mut out: Vec<String> = Vec::new();
    let mut i: usize = 0;
    while i < v.len()
        invariant
            i <= v@.len(),
            s == views(v@),
            views(out@) == without(s.take(i as int), value@),
        decreases v@.len() - i,
    {
        assert(s.take(i + 1).drop_last() =~= s.take(i as int));
        assert(s.take(i + 1).last() == v@[i as int]@);
        if !crate::text::str_eq(v[i].as_str(), value) {
            out.push(copied(&v[i]));
            assert(views(out@) =~= without(s.take(i as int), value@).push(v@[i as int]@));
        }
        i = i + 1;
    }
    assert(s.take(i as int) =~= s);
    *v = out;
}

/// Ticks `value` among `chosen`: removes it when present, else adds it.
pub fn toggle_value(chosen: &mut Vec<String>, value: &str)
    ensures
        views(final(chosen)@) == toggled(views(old(chosen)@), value@),
{
    if contains_str(chosen, value) {
        remove_value(chosen, value);
    } else {
        let mut c = String::new();
        push_str(&mut c, value);
        chosen.push(c);
        assert(views(chosen@) =~= views(old(chosen)@).push(value@));
    }
}

/// What a picker reports after a key.
#[derive(Clone, Copy, Debug, PartialEq, Eq, Structural)]
pub enum PickerEvent {
    /// Close the picker.
    Leave,
    /// The query changed: the options are looked up again.
    QueryChanged,
    /// Take the selection.
    Confirm,
    /// Nothing more to do.
    Stay,
}

/// The value of the selected option, if an option is selected.
pub open spec fn picked_value(p: OptionPicker) -> Option<Seq<char>> {
    match p.state.selection() {
        Some(i) => if i < p.options@.len() {
            Some(p.options@[i as int].value@)
        } else {
            None
        },
        None => None,
    }
}

/// What a picker reports after a key.
pub open spec fn picker_event(p: OptionPicker, code: Key, multi: bool) -> PickerEvent {
    match code {
        Key::Esc => PickerEvent::Leave,
        Key::Enter => PickerEvent::Confirm,
        Key::Backspace => if p.cursor > 0 {
            PickerEvent::QueryChanged
        } else {
            PickerEvent::Stay
        },
        Key::Char(c) => if c == 'q' {
            PickerEvent::Leave
        } else if c == ' ' && multi {
            PickerEvent::Stay
        } else {
            PickerEvent::QueryChanged
        },
        _ => PickerEvent::Stay,
    }
}

/// What a key does to a picker, and what it reports. A space ticks the
/// selected option in pickers that take several values (`multi`).
pub open spec fn picker_step(p: OptionPicker, code: Key, multi: bool, q: OptionPicker, e: PickerEvent) -> bool {
    match code {
        Key::Esc => q == p && e == PickerEvent::Leave,
        Key::Enter => q == p && e == PickerEvent::Confirm,
        Key::Down => {
            &&& q == (OptionPicker { state: q.state, ..p })
            &&& q.state.selection() == Some(nav_down(p.state.selection(), p.options@.len()))
            &&& e == PickerEvent::Stay
        },
        Key::Up => {
            &&& q == (OptionPicker { state: q.state, ..p })
            &&& q.state.selection() == Some(nav_up(p.state.selection()))
            &&& e == PickerEvent::Stay
        },
        Key::Left | Key::Right => match edited_query(p.query@, p.cursor, code) {
            Some((_, k)) => q == (OptionPicker { cursor: k as usize, ..p }) && e == PickerEvent::Stay,
            None => false,
        },
        Key::Backspace => if p.cursor > 0 {
            &&& q == (OptionPicker { query: q.query, cursor: (p.cursor - 1) as usize, ..p })
            &&& q.query@ == remove_at(p.query@, p.cursor - 1)
            &&& e == PickerEvent::QueryChanged
        } else {
            q == p && e == PickerEvent::Stay
        },
        Key::Char(c) => if c == 'q' {
            q == p && e == PickerEvent::Leave
        } else if c == ' ' && multi {
            &&& e == PickerEvent::Stay
            &&& q == (OptionPicker { chosen: q.chosen, ..p })
            &&& views(q.chosen@) == match picked_value(p) {
                Some(v) => toggled(views(p.chosen@), v),
                None => views(p.chosen@),
            }
        } else {
            &&& q == (OptionPicker { query: q.query, cursor: (p.cursor + 1) as usize, ..p })
            &&& q.query@ == insert_at(p.query@, p.cursor as int, c)
            &&& e == PickerEvent::QueryChanged
        },
        _ => q == p && e == PickerEvent::Stay,
    }
}

/// Handles a key in a picker.
pub fn picker_key(p: &mut OptionPicker, code: Key, multi: bool) -> (e: PickerEvent)
    requires
        old(p).cursor < usize::MAX,
    ensures
        e == picker_event(*old(p), code, multi),
        picker_step(*old(p), code, multi, *final(p), e),
{
    match code {
        Key::Esc => PickerEvent::Leave,
        Key::Enter => PickerEvent::Confirm,
        Key::Down => {
            let len = p.options.len();
            picker_nav_down(&mut p.state, len);
            PickerEvent::Stay
        },
        Key::Up => {
            picker_nav_up(&mut p.state);
            PickerEvent::Stay
        },
        Key::Left => {
            picker_cursor_left(&mut p.cursor);
            PickerEvent::Stay
        },
        Key::Right => {
            picker_cursor_right(&mut p.cursor, p.query.as_str());
            PickerEvent::Stay
        },
        Key::Backspace => {
            if p.cursor > 0 {
                picker_backspace(&mut p.query, &mut p.cursor);
                PickerEvent::QueryChanged
            } else {
                PickerEvent::Stay
            }
        },
        Key::Char(c) => {
            if c == 'q' {
                PickerEvent::Leave
            } else if c == ' ' && multi {
                match p.state.selected() {
                    Some(idx) => if idx < p.options.len() {
                        let mut v = String::new();
                        push_str(&mut v, p.options[idx].value.as_str());
                        toggle_value(&mut p.chosen, v.as_str());
                    },
                    None => {},
                }
                PickerEvent::Stay
            } else {
                picker_type_char(&mut p.query, &mut p.cursor, c);
                PickerEvent::QueryChanged
            }
        },
        _ => PickerEvent::Stay,
    }
}

/// What a key does in the assignee picker, and its action.
pub open spec fn assignee_step(a: App, code: Key, b: App, r: AppAction) -> bool {
    let e = picker_event(a.assignee, code, false);
    &&& picker_step(a.assignee, code, false, b.assignee, e)
    &&& match e {
        PickerEvent::Leave => b == (App { mode: Mode::Browse, ..a }) && r is Idle,
        PickerEvent::QueryChanged => b == (App { assignee: b.assignee, ..a }) && r is RefreshAssigneeOptions,
        PickerEvent::Stay => b == (App { assignee: b.assignee, ..a }) && r is Idle,
        PickerEvent::Confirm => match picked_value(a.assignee) {
            Some(v) => b == (App { mode: Mode::Browse, ..a }) && (r matches AppAction::AssignIssue(s)
                && s@ == v),
            None => b == a && r is Idle,
        },
    }
}

/// Which of the pickers that act on one issue a key goes to.
#[derive(Clone, Copy, Debug, PartialEq, Eq, Structural)]
pub enum IssuePicker {
    Component,
    FixVersion,
    Sprint,
}

/// The picker `which` of the state.
pub open spec fn picker_of(a: App, which: IssuePicker) -> OptionPicker {
    match which {
        IssuePicker::Component => a.component,
        IssuePicker::FixVersion => a.fix_version,
        IssuePicker::Sprint => a.sprint,
    }
}

/// The state with picker `which` replaced by `p`.
pub open spec fn with_picker(a: App, which: IssuePicker, p: OptionPicker) -> App {
    match which {
        IssuePicker::Component => App { component: p, ..a },
        IssuePicker::FixVersion => App { fix_version: p, ..a },
        IssuePicker::Sprint => App { sprint: p, ..a },
    }
}

/// What a key does in the component, fix version or sprint picker, and its
/// action. The component and fix version pickers take several values.
pub open spec fn issue_picker_step(a: App, which: IssuePicker, code: Key, b: App, r: AppAction) -> bool {
    let p = picker_of(a, which);
    let multi = which != IssuePicker::Sprint;
    let e = picker_event(p, code, multi);
    &&& picker_step(p, code, multi, picker_of(b, which), e)
    &&& match e {
        PickerEvent::Leave => b == (App { mode: Mode::Browse, ..a }) && r is Idle,
        PickerEvent::QueryChanged => {
            &&& b == with_picker(a, which, picker_of(b, which))
            &&& match which {
                IssuePicker::Component => r is RefreshComponentOptions,
                IssuePicker::FixVersion => r is RefreshFixVersionOptions,
                IssuePicker::Sprint => r is RefreshSprintOptions,
            }
        },
        PickerEvent::Stay => b == with_picker(a, which, picker_of(b, which)) && r is Idle,
        PickerEvent::Confirm => match which {
            IssuePicker::Component => b == (App { mode: Mode::Browse, ..a }) && (r matches AppAction::EditComponents(
                s,
            ) && s@ == p.issue_key@),
            IssuePicker::FixVersion => b == (App { mode: Mode::Browse, ..a }) && (
            r matches AppAction::EditFixVersions(s) && s@ == p.issue_key@),
            IssuePicker::Sprint => b == a && (r matches AppAction::ApplySprintSelection(s) && s@
                == p.issue_key@),
        },
    }
}

fn copied(s: &String) -> (r: String)
    ensures
        r@ == s@,
{
    let mut r = String::new();
    push_str(&mut r, s.as_str());
    r
}

/// Handles a key in the component, fix version or sprint picker.
pub fn handle_issue_picker_key(app: &mut App, which: IssuePicker, code: Key) -> (r: AppAction)
    requires
        picker_of(*old(app), which).cursor < usize::MAX,
    ensures
        issue_picker_step(*old(app), which, code, *final(app), r),
{
    let multi = which != IssuePicker::Sprint;
    let e = match which {
        IssuePicker::Component => picker_key(&mut app.component, code, multi),
        IssuePicker::FixVersion => picker_key(&mut app.fix_version, code, multi),
        IssuePicker::Sprint => picker_key(&mut app.sprint, code, multi),
    };
    match e {
        PickerEvent::Leave => {
            app.mode = Mode::Browse;
            AppAction::Idle
        },
        PickerEvent::QueryChanged => match which {
            IssuePicker::Component => AppAction::RefreshComponentOptions,
            IssuePicker::FixVersion => AppAction::RefreshFixVersionOptions,
            IssuePicker::Sprint => AppAction::RefreshSprintOptions,
        },
        PickerEvent::Stay => AppAction::Idle,
        PickerEvent::Confirm => match which {
            IssuePicker::Component => {
                app.mode = Mode::Browse;
                AppAction::EditComponents(copied(&app.component.issue_key))
            },
            IssuePicker::FixVersion => {
                app.mode = Mode::Browse;
                AppAction::EditFixVersions(copied(&app.fix_version.issue_key))
            },
            IssuePicker::Sprint => AppAction::ApplySprintSelection(copied(&app.sprint.issue_key)),
        },
    }
}

/// Handles a key in the assignee picker.
pub fn handle_assignee_picker_key(app: &mut App, code: Key) -> (r: AppAction)
    requires
        old(app).assignee.cursor < usize::MAX,
    ensures
        assignee_step(*old(app), code, *final(app), r),
{
    let e = picker_key(&mut app.assignee, code, false);
    match e {
        PickerEvent::Leave => {
            app.mode = Mode::Browse;
            AppAction::Idle
        },
        PickerEvent::QueryChanged => AppAction::RefreshAssigneeOptions,
        PickerEvent::Stay => AppAction::Idle,
        PickerEvent::Confirm => match app.assignee.state.selected() {
            Some(idx) => if idx < app.assignee.options.len() {
                let mut v = String::new();
                push_str(&mut v, app.assignee.options[idx].value.as_str());
                app.mode = Mode::Browse;
                AppAction::AssignIssue(v)
            } else {
                AppAction::Idle
            },
            None => AppAction::Idle,
        },
    }
}

/// Whether a picker entry shown as `a` and `b` matches the filter `q` (already
/// trimmed and lower-cased): an empty filter matches everything.
pub open spec fn entry_matches(a: Seq<char>, b: Seq<char>, q: Seq<char>) -> bool {
    q.len() == 0 || contains(lowercase(a), q) || contains(lowercase(b), q)
}

/// The positions of the entries of `es` that match the filter `q`, in order.
pub open spec fn matching(es: Seq<(Seq<char>, Seq<char>)>, q: Seq<char>) -> Seq<int>
    decreases es.len(),
{
    if es.len() == 0 {
        Seq::empty()
    } else {
        let r = matching(es.drop_last(), q);
        if entry_matches(es.last().0, es.last().1, q) {
            r.push(es.len() - 1)
        } else {
            r
        }
    }
}

/// A column as the contracts see it: id, label and width.
pub open spec fn column_view(c: ColumnSpec) -> (Seq<char>, Seq<char>, Width) {
    (c.id@, c.label@, c.width)
}

/// The column shown for a built-in or unknown field id.
pub open spec fn column_for_id(id: Seq<char>) -> (Seq<char>, Seq<char>, Width) {
    match builtin_column(id) {
        Some((l, w)) => (id, l, w),
        None => (id, id, Width::Min(14)),
    }
}

/// The column shown for a field of the server.
pub open spec fn column_for_field(id: Seq<char>, name: Seq<char>) -> (Seq<char>, Seq<char>, Width) {
    match builtin_column(id) {
        Some((l, w)) => (id, l, w),
        None => (id, name, Width::Min(14)),
    }
}

/// The fields of the server that the column picker adds after the built-in
/// columns: each id once, leaving out the built-in ones.
pub open spec fn extra_fields(fields: Seq<(Seq<char>, Seq<char>)>) -> Seq<(Seq<char>, Seq<char>)>
    decreases fields.len(),
{
    if fields.len() == 0 {
        Seq::empty()
    } else {
        let r = extra_fields(fields.drop_last());
        let f = fields.last();
        if builtin_ids().contains(f.0) || field_ids(fields.drop_last()).contains(f.0) {
            r
        } else {
            r.push(f)
        }
    }
}

/// The ids of fields.
pub open spec fn field_ids(fields: Seq<(Seq<char>, Seq<char>)>) -> Seq<Seq<char>> {
    fields.map_values(|f: (Seq<char>, Seq<char>)| f.0)
}

/// The views of fields given as pairs of strings.
pub open spec fn pair_views(v: Seq<(String, String)>) -> Seq<(Seq<char>, Seq<char>)> {
    v.map_values(|p: (String, String)| (p.0@, p.1@))
}

/// The columns the column picker offers: the built-in ones in their order,
/// then the other fields of the server, each id once.
pub open spec fn picker_columns(fields: Seq<(Seq<char>, Seq<char>)>) -> Seq<(Seq<char>, Seq<char>, Width)> {
    builtin_ids().map_values(|id: Seq<char>| column_for_id(id)) + extra_fields(fields).map_values(
        |f: (Seq<char>, Seq<char>)| column_for_field(f.0, f.1),
    )
}

/// The column picker's filter as it is matched: trimmed and lower-cased.
pub open spec fn filter_key(filter: Seq<char>) -> Seq<char> {
    lowercase(trim(filter))
}

/// The columns the column picker shows for the filter.
pub open spec fn filtered_columns(fields: Seq<(Seq<char>, Seq<char>)>, filter: Seq<char>) -> Seq<
    (Seq<char>, Seq<char>, Width),
> {
    let all = picker_columns(fields);
    matching(all.map_values(|c: (Seq<char>, Seq<char>, Width)| (c.1, c.0)), filter_key(filter)).map_values(
        |i: int| all[i],
    )
}

proof fn lemma_push_contains(s: Seq<Seq<char>>, v: Seq<char>)
    ensures
        forall|x: Seq<char>| #[trigger] s.push(v).contains(x) <==> (s.contains(x) || x == v),
{
    assert forall|x: Seq<char>| #[trigger] s.push(v).contains(x) <==> (s.contains(x) || x == v) by {
        if s.push(v).contains(x) {
            let j = choose|j: int| 0 <= j < s.len() + 1 && s.push(v)[j] == x;
            if j < s.len() {
                assert(s[j] == x);
            }
        }
        if s.contains(x) {
            let j = choose|j: int| 0 <= j < s.len() && s[j] == x;
            assert(s.push(v)[j] == x);
        }
        if x == v {
            assert(s.push(v)[s.len() as int] == x);
        }
    }
}

impl App {
    /// The columns the column picker offers.
    pub fn picker_field_list(&self) -> (r: Vec<ColumnSpec>)
        ensures
            r@.map_values(|c: ColumnSpec| column_view(c)) == picker_columns(pair_views(self.available_fields@)),
    {
        let ids = default_column_ids();
        let mut seen: Vec<String> = Vec::new();
        let mut out: Vec<ColumnSpec> = Vec::new();
        let mut i: usize = 0;
        while i < ids.len()
            invariant
                i <= ids@.len(),
                views(ids@) == builtin_ids(),
                views(seen@) == builtin_ids().take(i as int),
                out@.map_values(|c: ColumnSpec| column_view(c)) == builtin_ids().take(i as int).map_values(
                    |id: Seq<char>| column_for_id(id),
                ),
            decreases ids@.len() - i,
        {
            let c = ColumnSpec::for_id(ids[i].as_str());
            assert(views(ids@)[i as int] == ids@[i as int]@);
            assert(column_view(c) == column_for_id(builtin_ids()[i as int]));
            let ghost before = out@.map_values(|c: ColumnSpec| column_view(c));
            let ghost seen_before = views(seen@);
            seen.push(copied(&ids[i]));
            out.push(c);
            i = i + 1;
            assert(builtin_ids().take(i as int) =~= builtin_ids().take(i - 1).push(builtin_ids()[i - 1]));
            assert(views(seen@) =~= seen_before.push(builtin_ids()[i - 1]));
            assert(out@.map_values(|c: ColumnSpec| column_view(c)) =~= before.push(column_view(c)));
            assert(builtin_ids().take(i as int).map_values(|id: Seq<char>| column_for_id(id))
                =~= builtin_ids().take(i - 1).map_values(|id: Seq<char>| column_for_id(id)).push(
                column_for_id(builtin_ids()[i - 1]),
            ));
        }
        assert(builtin_ids().take(i as int) =~= builtin_ids());
        let ghost base = out@.map_values(|c: ColumnSpec| column_view(c));
        let ghost fs = pair_views(self.available_fields@);
        let mut j: usize = 0;
        while j < self.available_fields.len()
            invariant
                j <= self.available_fields@.len(),
                fs == pair_views(self.available_fields@),
                base == builtin_ids().map_values(|id: Seq<char>| column_for_id(id)),
                forall|x: Seq<char>|
                    #![trigger views(seen@).contains(x)]
                    views(seen@).contains(x) <==> (builtin_ids().contains(x) || field_ids(
                        fs.take(j as int),
                    ).contains(x)),
                out@.map_values(|c: ColumnSpec| column_view(c)) == base + extra_fields(
                    fs.take(j as int),
                ).map_values(|f: (Seq<char>, Seq<char>)| column_for_field(f.0, f.1)),
            decreases self.available_fields@.len() - j,
        {
            let ghost pre = fs.take(j as int);
            let ghost post = fs.take(j + 1);
            assert(post.drop_last() =~= pre);
            assert(post.last() == fs[j as int]);
            assert(fs[j as int] == (self.available_fields@[j as int].0@, self.available_fields@[j as int].1@));
            assert(field_ids(post) =~= field_ids(pre).push(fs[j as int].0));
            proof {
                lemma_push_contains(field_ids(pre), fs[j as int].0);
            }
            let id = &self.available_fields[j].0;
            if !contains_str(&seen, id.as_str()) {
                let c = ColumnSpec::from_field(id.as_str(), self.available_fields[j].1.as_str());
                let ghost before = out@.map_values(|c: ColumnSpec| column_view(c));
                let ghost seen_before = views(seen@);
                seen.push(copied(id));
                out.push(c);
                assert(views(seen@) =~= seen_before.push(id@));
                proof {
                    lemma_push_contains(seen_before, id@);
                }
                assert(out@.map_values(|c: ColumnSpec| column_view(c)) =~= before.push(column_view(c)));
            }
            j = j + 1;
        }
        assert(fs.take(j as int) =~= fs);
        out
    }
}

proof fn lemma_matching_bounds(es: Seq<(Seq<char>, Seq<char>)>, q: Seq<char>)
    ensures
        forall|j: int| 0 <= j < matching(es, q).len() ==> 0 <= #[trigger] matching(es, q)[j] < es.len(),
    decreases es.len(),
{
    if es.len() > 0 {
        let t = es.drop_last();
        lemma_matching_bounds(t, q);
        let r = matching(t, q);
        assert forall|j: int| 0 <= j < matching(es, q).len() implies 0 <= #[trigger] matching(es, q)[j]
            < es.len() by {
            if j < r.len() {
                assert(matching(es, q)[j] == r[j]);
            }
        }
    }
}

fn matching_positions(es: &Vec<(String, String)>, q: &str) -> (r: Vec<usize>)
    ensures
        r@.map_values(|i: usize| i as int) == matching(pair_views(es@), q@),
{
    let ghost ps = pair_views(es@);
    let mut r: Vec<usize> = Vec::new();
    let mut i: usize = 0;
    while i < es.len()
        invariant
            i <= es@.len(),
            ps == pair_views(es@),
            r@.map_values(|i: usize| i as int) == matching(ps.take(i as int), q@),
        decreases es@.len() - i,
    {
        let hit = q.unicode_len() == 0 || str_contains(to_lowercase(es[i].0.as_str()).as_str(), q)
            || str_contains(to_lowercase(es[i].1.as_str()).as_str(), q);
        assert(ps.take(i + 1).drop_last() =~= ps.take(i as int));
        assert(ps.take(i + 1).last() == (es@[i as int].0@, es@[i as int].1@));
        let ghost before = r@.map_values(|i: usize| i as int);
        if hit {
            r.push(i);
            assert(r@.map_values(|i: usize| i as int) =~= before.push(i as int));
        }
        i = i + 1;
    }
    assert(ps.take(i as int) =~= ps);
    r
}

fn column_copy(c: &ColumnSpec) -> (r: ColumnSpec)
    ensures
        column_view(r) == column_view(*c),
{
    ColumnSpec { id: copied(&c.id), label: copied(&c.label), width: c.width }
}

/// The saved queries as the contracts see them: name and query.
pub open spec fn saved_pairs(a: App) -> Seq<(Seq<char>, Seq<char>)> {
    saved_views(a.prefs.saved_jqls@)
}

/// The positions, among the saved queries, of those the filter shows.
pub open spec fn shown_saved(a: App) -> Seq<int> {
    matching(saved_pairs(a), filter_key(a.jql_picker_filter@))
}

/// The position of the selected saved query, if one is shown and selected.
pub open spec fn selected_saved(a: App) -> Option<int> {
    match a.saved_jql_state.selection() {
        Some(i) => if i < shown_saved(a).len() {
            Some(shown_saved(a)[i as int])
        } else {
            None
        },
        None => None,
    }
}

impl App {
    /// The columns the column picker shows for its filter.
    pub fn filtered_picker_fields(&self) -> (r: Vec<ColumnSpec>)
        ensures
            r@.map_values(|c: ColumnSpec| column_view(c)) == filtered_columns(
                pair_views(self.available_fields@),
                self.column_picker_filter@,
            ),
    {
        let all = self.picker_field_list();
        let ghost av = all@.map_values(|c: ColumnSpec| column_view(c));
        let mut pairs: Vec<(String, String)> = Vec::new();
        let mut i: usize = 0;
        while i < all.len()
            invariant
                i <= all@.len(),
                av == all@.map_values(|c: ColumnSpec| column_view(c)),
                pair_views(pairs@) == av.take(i as int).map_values(
                    |c: (Seq<char>, Seq<char>, Width)| (c.1, c.0),
                ),
            decreases all@.len() - i,
        {
            let ghost before = pair_views(pairs@);
            pairs.push((copied(&all[i].label), copied(&all[i].id)));
            assert(pair_views(pairs@) =~= before.push((all@[i as int].label@, all@[i as int].id@)));
            i = i + 1;
            assert(av.take(i as int).map_values(|c: (Seq<char>, Seq<char>, Width)| (c.1, c.0))
                =~= av.take(i - 1).map_values(|c: (Seq<char>, Seq<char>, Width)| (c.1, c.0)).push(
                (av[i - 1].1, av[i - 1].0),
            ));
        }
        assert(av.take(i as int) =~= av);
        let q = to_lowercase(trim_str(self.column_picker_filter.as_str()).as_str());
        let pos = matching_positions(&pairs, q.as_str());
        let ghost m = pos@.map_values(|i: usize| i as int);
        proof {
            lemma_matching_bounds(av.map_values(|c: (Seq<char>, Seq<char>, Width)| (c.1, c.0)), q@);
        }
        let mut out: Vec<ColumnSpec> = Vec::new();
        let mut k: usize = 0;
        while k < pos.len()
            invariant
                k <= pos@.len(),
                m == pos@.map_values(|i: usize| i as int),
                m == matching(
                    av.map_values(|c: (Seq<char>, Seq<char>, Width)| (c.1, c.0)),
                    lowercase(trim(self.column_picker_filter@)),
                ),
                av == all@.map_values(|c: ColumnSpec| column_view(c)),
                forall|j: int| 0 <= j < m.len() ==> 0 <= #[trigger] m[j] < av.len(),
                out@.map_values(|c: ColumnSpec| column_view(c)) == m.take(k as int).map_values(
                    |j: int| av[j],
                ),
            decreases pos@.len() - k,
        {
            let p = pos[k];
            assert(m[k as int] == p as int);
            let ghost before = out@.map_values(|c: ColumnSpec| column_view(c));
            out.push(column_copy(&all[p]));
            assert(out@.map_values(|c: ColumnSpec| column_view(c)) =~= before.push(av[p as int]));
            k = k + 1;
            assert(m.take(k as int).map_values(|j: int| av[j]) =~= m.take(k - 1).map_values(|j: int| av[j]).push(
                av[m[k - 1]],
            ));
        }
        assert(m.take(k as int) =~= m);
        out
    }
}

impl App {
    /// The positions, among the saved queries, of those the filter shows.
    pub fn filtered_saved_jqls(&self) -> (r: Vec<usize>)
        ensures
            r@.map_values(|i: usize| i as int) == shown_saved(*self),
    {
        let mut pairs: Vec<(String, String)> = Vec::new();
        let mut i: usize = 0;
        while i < self.prefs.saved_jqls.len()
            invariant
                i <= self.prefs.saved_jqls@.len(),
                pair_views(pairs@) == saved_pairs(*self).take(i as int),
            decreases self.prefs.saved_jqls@.len() - i,
        {
            let ghost before = pair_views(pairs@);
            let sj = &self.prefs.saved_jqls[i];
            pairs.push((copied(&sj.name), copied(&sj.jql)));
            assert(pair_views(pairs@) =~= before.push((sj.name@, sj.jql@)));
            i = i + 1;
            assert(saved_pairs(*self).take(i as int) =~= saved_pairs(*self).take(i - 1).push(
                saved_pairs(*self)[i - 1],
            ));
        }
        assert(saved_pairs(*self).take(i as int) =~= saved_pairs(*self));
        let q = to_lowercase(trim_str(self.jql_picker_filter.as_str()).as_str());
        matching_positions(&pairs, q.as_str())
    }

    /// The position of the selected saved query, if one is shown and selected.
    pub fn selected_saved_jql_index(&self) -> (r: Option<usize>)
        ensures
            match r {
                Some(k) => selected_saved(*self) == Some(k as int) && k < self.prefs.saved_jqls@.len(),
                None => selected_saved(*self) is None,
            },
    {
        let shown = self.filtered_saved_jqls();
        proof {
            lemma_matching_bounds(saved_pairs(*self), filter_key(self.jql_picker_filter@));
        }
        match self.saved_jql_state.selected() {
            Some(i) => if i < shown.len() {
                assert(shown@.map_values(|i: usize| i as int)[i as int] == shown@[i as int] as int);
                Some(shown[i])
            } else {
                None
            },
            None => None,
        }
    }

    /// Keeps the saved query selection on a saved query: none when there are
    /// none, else held at the last one.
    pub fn clamp_saved_jql_selection(&mut self)
        ensures
            *final(self) == (App { saved_jql_state: final(self).saved_jql_state, ..*old(self) }),
            final(self).saved_jql_state.selection() == if old(self).prefs.saved_jqls@.len() == 0 {
                None
            } else {
                match old(self).saved_jql_state.selection() {
                    Some(i) => Some(
                        if i < old(self).prefs.saved_jqls@.len() {
                            i
                        } else {
                            (old(self).prefs.saved_jqls@.len() - 1) as usize
                        },
                    ),
                    None => Some(0usize),
                }
            },
    {
        let n = self.prefs.saved_jqls.len();
        if n == 0 {
            self.saved_jql_state.select(None);
            return;
        }
        let idx = match self.saved_jql_state.selected() {
            Some(i) => if i < n {
                i
            } else {
                n - 1
            },
            None => 0,
        };
        self.saved_jql_state.select(Some(idx));
    }
}

/// The characters the column picker's filter takes: ASCII letters and digits,
/// `-` and `_`.
pub open spec fn is_filter_char(c: char) -> bool {
    ('a' <= c <= 'z') || ('A' <= c <= 'Z') || ('0' <= c <= '9') || c == '-' || c == '_'
}

/// The state after a key that rewrites the column picker's filter and selects
/// its first entry.
pub open spec fn column_filter_set(a: App, b: App, filter: Seq<char>) -> bool {
    &&& b == (App { column_picker_filter: b.column_picker_filter, column_picker_state: b.column_picker_state, ..a })
    &&& b.column_picker_filter@ == filter
    &&& b.column_picker_state.selection() == Some(0usize)
}

/// What a space does in the column picker: the selected column is shown or
/// hidden, but the last shown column stays.
pub open spec fn column_toggled(a: App, b: App) -> bool {
    let cols = filtered_columns(pair_views(a.available_fields@), a.column_picker_filter@);
    let shown = views(a.visible_columns@);
    match a.column_picker_state.selection() {
        Some(i) => if i < cols.len() {
            let id = cols[i as int].0;
            if shown.contains(id) {
                if shown.len() > 1 {
                    b == (App { visible_columns: b.visible_columns, ..a }) && views(b.visible_columns@)
                        == without(shown, id)
                } else {
                    &&& b == (App { status: b.status, ..a })
                    &&& b.status matches Some((m, e)) && m@ == "Keep at least one visible column"@ && e
                }
            } else {
                b == (App { visible_columns: b.visible_columns, ..a }) && views(b.visible_columns@)
                    == shown.push(id)
            }
        } else {
            b == a
        },
        None => b == a,
    }
}

/// What a key does in the column picker, and its action.
pub open spec fn column_picker_step(a: App, code: Key, b: App, r: AppAction) -> bool {
    let cols = filtered_columns(pair_views(a.available_fields@), a.column_picker_filter@);
    match code {
        Key::Esc => b == (App { mode: Mode::Browse, ..a }) && r is Idle,
        Key::Down => r is Idle && if cols.len() == 0 {
            b == a
        } else {
            &&& b == (App { column_picker_state: b.column_picker_state, ..a })
            &&& b.column_picker_state.selection() == Some(
                nav_down(a.column_picker_state.selection(), cols.len()),
            )
        },
        Key::Up => {
            &&& r is Idle
            &&& b == (App { column_picker_state: b.column_picker_state, ..a })
            &&& b.column_picker_state.selection() == Some(nav_up(a.column_picker_state.selection()))
        },
        Key::Enter => b == (App { mode: Mode::Browse, ..a }) && r is SaveColumnPreferences,
        Key::Backspace => r is Idle && column_filter_set(
            a,
            b,
            crate::tui_modal::query_after_backspace(a.column_picker_filter@),
        ),
        Key::Tab => r is Idle && column_filter_set(a, b, Seq::empty()),
        Key::Char(c) => r is Idle && if c == ' ' {
            column_toggled(a, b)
        } else if is_filter_char(c) {
            column_filter_set(a, b, a.column_picker_filter@.push(c))
        } else {
            b == a
        },
        Key::F(n) => if n == 2 {
            &&& r is Idle
            &&& b == (App { visible_columns: b.visible_columns, status: b.status, ..a })
            &&& views(b.visible_columns@) == builtin_ids()
            &&& b.status matches Some((m, e)) && m@ == "Selected all built-in columns"@ && !e
        } else if n == 5 {
            &&& r is ResetColumnPreferences
            &&& b == (App { visible_columns: b.visible_columns, ..a })
            &&& views(b.visible_columns@) == builtin_ids()
        } else {
            b == a && r is Idle
        },
        _ => b == a && r is Idle,
    }
}

fn status_text(msg: &str) -> (r: String)
    ensures
        r@ == msg@,
{
    let mut s = String::new();
    push_str(&mut s, msg);
    s
}

fn drop_last_char(s: &mut String)
    ensures
        final(s)@ == crate::tui_modal::query_after_backspace(old(s)@),
{
    let v = chars_of(s.as_str());
    if v.len() > 0 {
        *s = crate::text::string_of_range(&v, 0, v.len() - 1);
        assert(s@ =~= old(s)@.drop_last());
    }
}

/// Handles a key in the column picker.
pub fn handle_column_picker_key(app: &mut App, code: Key) -> (r: AppAction)
    ensures
        column_picker_step(*old(app), code, *final(app), r),
{
    match code {
        Key::Esc => {
            app.mode = Mode::Browse;
            AppAction::Idle
        },
        Key::Down => {
            let total = app.filtered_picker_fields().len();
            if total == 0 {
                return AppAction::Idle;
            }
            picker_nav_down(&mut app.column_picker_state, total);
            AppAction::Idle
        },
        Key::Up => {
            picker_nav_up(&mut app.column_picker_state);
            AppAction::Idle
        },
        Key::Enter => {
            app.mode = Mode::Browse;
            AppAction::SaveColumnPreferences
        },
        Key::Backspace => {
            drop_last_char(&mut app.column_picker_filter);
            app.column_picker_state.select(Some(0));
            AppAction::Idle
        },
        Key::Tab => {
            app.column_picker_filter = String::new();
            app.column_picker_state.select(Some(0));
            AppAction::Idle
        },
        Key::Char(c) => {
            if c == ' ' {
                match app.column_picker_state.selected() {
                    Some(idx) => {
                        let cols = app.filtered_picker_fields();
                        if idx < cols.len() {
                            let id = copied(&cols[idx].id);
                            assert(id@ == cols@.map_values(|c: ColumnSpec| column_view(c))[idx as int].0);
                            if contains_str(&app.visible_columns, id.as_str()) {
                                if app.visible_columns.len() > 1 {
                                    remove_value(&mut app.visible_columns, id.as_str());
                                } else {
                                    app.set_status(status_text("Keep at least one visible column"), true);
                                }
                            } else {
                                let ghost before = views(app.visible_columns@);
                                app.visible_columns.push(id);
                                assert(views(app.visible_columns@) =~= before.push(id@));
                            }
                        }
                    },
                    None => {},
                }
            } else if ('a' <= c && c <= 'z') || ('A' <= c && c <= 'Z') || ('0' <= c && c <= '9') || c == '-'
                || c == '_' {
                crate::text::push_char(&mut app.column_picker_filter, c);
                app.column_picker_state.select(Some(0));
            }
            AppAction::Idle
        },
        Key::F(n) => {
            if n == 2 {
                app.visible_columns = default_column_ids();
                app.set_status(status_text("Selected all built-in columns"), false);
                AppAction::Idle
            } else if n == 5 {
                let d = TuiPreferences::default();
                app.visible_columns = d.visible_columns;
                AppAction::ResetColumnPreferences
            } else {
                AppAction::Idle
            }
        },
        _ => AppAction::Idle,
    }
}

/// What a key does in the saved query picker, and its action.
pub open spec fn saved_jql_step(a: App, code: Key, b: App, r: AppAction) -> bool {
    let shown = shown_saved(a);
    let filter_set = |f: Seq<char>|
        b == (App { jql_picker_filter: b.jql_picker_filter, saved_jql_state: b.saved_jql_state, ..a })
            && b.jql_picker_filter@ == f && b.saved_jql_state.selection() == Some(0usize) && r is Idle;
    let empty_filter = a.jql_picker_filter@.len() == 0;
    match code {
        Key::Esc => b == (App { mode: Mode::Browse, ..a }) && r is Idle,
        Key::Down => r is Idle && if shown.len() == 0 {
            b == a
        } else {
            &&& b == (App { saved_jql_state: b.saved_jql_state, ..a })
            &&& b.saved_jql_state.selection() == Some(nav_down(a.saved_jql_state.selection(), shown.len()))
        },
        Key::Up => {
            &&& r is Idle
            &&& b == (App { saved_jql_state: b.saved_jql_state, ..a })
            &&& b.saved_jql_state.selection() == Some(nav_up(a.saved_jql_state.selection()))
        },
        Key::Enter => match selected_saved(a) {
            Some(k) => b == (App { mode: Mode::Browse, ..a }) && (r matches AppAction::ApplySavedJql(j)
                && j@ == a.prefs.saved_jqls@[k].jql@),
            None => b == a && r is Idle,
        },
        Key::Tab => filter_set(Seq::empty()),
        Key::Backspace => filter_set(crate::tui_modal::query_after_backspace(a.jql_picker_filter@)),
        Key::Char(c) => if c == 'c' && empty_filter {
            b == a && r is CreateSavedJql
        } else if c == 'e' && empty_filter {
            b == a && match selected_saved(a) {
                Some(k) => r == AppAction::EditSavedJql(k as usize),
                None => r is Idle,
            }
        } else if c == 'd' && empty_filter {
            b == a && match selected_saved(a) {
                Some(k) => r == AppAction::DeleteSavedJql(k as usize),
                None => r is Idle,
            }
        } else {
            filter_set(a.jql_picker_filter@.push(c))
        },
        _ => b == a && r is Idle,
    }
}

/// Handles a key in the saved query picker.
pub fn handle_saved_jql_key(app: &mut App, code: Key) -> (r: AppAction)
    ensures
        saved_jql_step(*old(app), code, *final(app), r),
{
    match code {
        Key::Esc => {
            app.mode = Mode::Browse;
            AppAction::Idle
        },
        Key::Down => {
            let total = app.filtered_saved_jqls().len();
            if total == 0 {
                return AppAction::Idle;
            }
            picker_nav_down(&mut app.saved_jql_state, total);
            AppAction::Idle
        },
        Key::Up => {
            picker_nav_up(&mut app.saved_jql_state);
            AppAction::Idle
        },
        Key::Enter => match app.selected_saved_jql_index() {
            Some(k) => {
                let j = copied(&app.prefs.saved_jqls[k].jql);
                app.mode = Mode::Browse;
                AppAction::ApplySavedJql(j)
            },
            None => AppAction::Idle,
        },
        Key::Tab => {
            app.jql_picker_filter = String::new();
            app.saved_jql_state.select(Some(0));
            AppAction::Idle
        },
        Key::Backspace => {
            drop_last_char(&mut app.jql_picker_filter);
            app.saved_jql_state.select(Some(0));
            AppAction::Idle
        },
        Key::Char(c) => {
            let empty = app.jql_picker_filter.unicode_len() == 0;
            if c == 'c' && empty {
                AppAction::CreateSavedJql
            } else if c == 'e' && empty {
                match app.selected_saved_jql_index() {
                    Some(k) => AppAction::EditSavedJql(k),
                    None => AppAction::Idle,
                }
            } else if c == 'd' && empty {
                match app.selected_saved_jql_index() {
                    Some(k) => AppAction::DeleteSavedJql(k),
                    None => AppAction::Idle,
                }
            } else {
                crate::text::push_char(&mut app.jql_picker_filter, c);
                app.saved_jql_state.select(Some(0));
                AppAction::Idle
            }
        },
        _ => AppAction::Idle,
    }
}

/// The action the event loop takes for what a key returned to an open form.
pub open spec fn modal_action(o: ModalOutcome, r: AppAction) -> bool {
    match o {
        ModalOutcome::Cancel => r is CancelModal,
        ModalOutcome::Submit => r is SubmitModal,
        ModalOutcome::Continue => r is Idle,
        ModalOutcome::MentionQueryChanged => r is RefreshMentionOptions,
        ModalOutcome::MentionSelected(i) => r == AppAction::SelectMention(i),
    }
}

/// The cursors a key may move one step right in the current mode are short of
/// the largest index.
pub open spec fn cursors_in_range(a: App) -> bool {
    &&& a.mode == Mode::Search ==> a.search_cursor < usize::MAX
    &&& a.mode == Mode::AssigneePicker ==> a.assignee.cursor < usize::MAX
    &&& a.mode == Mode::ComponentPicker ==> a.component.cursor < usize::MAX
    &&& a.mode == Mode::FixVersionPicker ==> a.fix_version.cursor < usize::MAX
    &&& a.mode == Mode::SprintPicker ==> a.sprint.cursor < usize::MAX
}

/// What a key does to the TUI, by mode, and the action it asks for.
pub open spec fn key_step(a: App, key: KeyPress, b: App, r: AppAction) -> bool {
    let code = key.code;
    match a.mode {
        Mode::Modal => match a.modal {
            Some(m) => {
                &&& b == (App { modal: b.modal, ..a })
                &&& b.modal matches Some(n) && modal_effect(m, key, n)
                &&& modal_action(modal_outcome(m, key), r)
            },
            None => b == modal_closed(a) && r is Idle,
        },
        Mode::Browse => if a.focus == Focus::Detail {
            view_action(a, code, r) && b == view_effect(a, code)
        } else {
            browse_action(a, code, r) && browse_effect(a, code, b)
        },
        Mode::Search => search_action(a, code, r) && search_effect(a, code, b),
        Mode::Transition => transition_action(a, code, r) && transition_effect(a, code, b),
        Mode::ColumnPicker => column_picker_step(a, code, b, r),
        Mode::AssigneePicker => assignee_step(a, code, b, r),
        Mode::ComponentPicker => issue_picker_step(a, IssuePicker::Component, code, b, r),
        Mode::FixVersionPicker => issue_picker_step(a, IssuePicker::FixVersion, code, b, r),
        Mode::SprintPicker => issue_picker_step(a, IssuePicker::Sprint, code, b, r),
        Mode::Help => b == (App { mode: Mode::Browse, ..a }) && r is Idle,
        Mode::SavedJqlPicker => saved_jql_step(a, code, b, r),
        Mode::ThemePicker => theme_step(a, code, b, r),
        Mode::ServerInfo | Mode::ConfigView => r is Idle && if code == Key::Esc || code == Key::Char('q') {
            b == (App { mode: Mode::Browse, ..a })
        } else {
            b == a
        },
        Mode::ProjectVersionBrowser => if code == Key::Esc || code == Key::Char('q') {
            b == (App { mode: Mode::Browse, ..a }) && r is Idle
        } else if code == Key::Char('n') {
            b == a && r is OpenProjectVersionCreateModal
        } else if code == Key::Char('e') {
            b == a && r is OpenProjectVersionEditModal
        } else {
            b == a && r is Idle
        },
        Mode::BoardPicker => b == a && r is Idle,
    }
}

/// Handles a key: the state changes as the current mode reads the key, and
/// the result names what the event loop does next.
pub fn handle_key(app: &mut App, key: KeyPress) -> (r: AppAction)
    requires
        cursors_in_range(*old(app)),
    ensures
        key_step(*old(app), key, *final(app), r),
{
    let code = key.code;
    match app.mode {
        Mode::Modal => {
            match app.modal.take() {
                Some(m) => {
                    let mut m = m;
                    let o = handle_modal_key(&mut m, key);
                    app.modal = Some(m);
                    match o {
                        ModalOutcome::Cancel => AppAction::CancelModal,
                        ModalOutcome::Submit => AppAction::SubmitModal,
                        ModalOutcome::Continue => AppAction::Idle,
                        ModalOutcome::MentionQueryChanged => AppAction::RefreshMentionOptions,
                        ModalOutcome::MentionSelected(i) => AppAction::SelectMention(i),
                    }
                },
                None => {
                    app.close_modal();
                    AppAction::Idle
                },
            }
        },
        Mode::Browse => {
            if app.focus == Focus::Detail {
                handle_view_key(app, code)
            } else {
                handle_browse_key(app, code)
            }
        },
        Mode::Search => handle_search_key(app, code),
        Mode::Transition => handle_transition_key(app, code),
        Mode::ColumnPicker => handle_column_picker_key(app, code),
        Mode::AssigneePicker => handle_assignee_picker_key(app, code),
        Mode::ComponentPicker => handle_issue_picker_key(app, IssuePicker::Component, code),
        Mode::FixVersionPicker => handle_issue_picker_key(app, IssuePicker::FixVersion, code),
        Mode::SprintPicker => handle_issue_picker_key(app, IssuePicker::Sprint, code),
        Mode::Help => {
            app.mode = Mode::Browse;
            AppAction::Idle
        },
        Mode::SavedJqlPicker => handle_saved_jql_key(app, code),
        Mode::ThemePicker => handle_theme_picker_key(app, code),
        Mode::ServerInfo | Mode::ConfigView => {
            if code == Key::Esc || code == Key::Char('q') {
                app.mode = Mode::Browse;
            }
            AppAction::Idle
        },
        Mode::ProjectVersionBrowser => {
            if code == Key::Esc || code == Key::Char('q') {
                app.mode = Mode::Browse;
                AppAction::Idle
            } else if code == Key::Char('n') {
                AppAction::OpenProjectVersionCreateModal
            } else if code == Key::Char('e') {
                AppAction::OpenProjectVersionEditModal
            } else {
                AppAction::Idle
            }
        },
        Mode::BoardPicker => AppAction::Idle,
    }
}

proof fn lemma_without_len(s: Seq<Seq<char>>, v: Seq<char>)
    requires
        s.no_duplicates(),
        s.contains(v),
    ensures
        without(s, v).len() == s.len() - 1,
    decreases s.len(),
{
    lemma_without(s, v);
    let t = s.drop_last();
    assert(t.no_duplicates());
    if s.last() == v {
        assert(!t.contains(v)) by {
            if t.contains(v) {
                let j = choose|j: int| 0 <= j < t.len() && t[j] == v;
                assert(s[j] == s[s.len() - 1]);
            }
        }
        lemma_without(t, v);
    } else {
        let j = choose|j: int| 0 <= j < s.len() && s[j] == v;
        assert(t[j] == v);
        lemma_without_len(t, v);
    }
}

/// The column picker never leaves the table without a column: from distinct,
/// non-empty visible columns, every key leaves at least one.
pub proof fn law_columns_never_empty(a: App, code: Key, b: App, r: AppAction)
    requires
        column_picker_step(a, code, b, r),
        a.visible_columns@.len() > 0,
        views(a.visible_columns@).no_duplicates(),
    ensures
        b.visible_columns@.len() > 0,
{
    let shown = views(a.visible_columns@);
    assert(views(b.visible_columns@).len() == b.visible_columns@.len());
    match code {
        Key::Char(c) => {
            if c == ' ' {
                let cols = filtered_columns(pair_views(a.available_fields@), a.column_picker_filter@);
                match a.column_picker_state.selection() {
                    Some(i) => if i < cols.len() {
                        let id = cols[i as int].0;
                        if shown.contains(id) && shown.len() > 1 {
                            lemma_without_len(shown, id);
                        }
                    },
                    None => {},
                }
            }
        },
        _ => {},
    }
}

/// A picker with an empty query and no options.
pub open spec fn picker_empty(p: OptionPicker) -> bool {
    &&& p.query@ == Seq::<char>::empty()
    &&& p.cursor == 0
    &&& p.options@.len() == 0
    &&& p.state.selection() is None
    &&& p.issue_key@ == Seq::<char>::empty()
    &&& p.chosen@.len() == 0
}

impl OptionPicker {
    /// A picker with an empty query and no options.
    pub fn new() -> (r: OptionPicker)
        ensures
            picker_empty(r),
    {
        OptionPicker {
            query: String::new(),
            cursor: 0,
            options: Vec::new(),
            state: ListState::new(),
            issue_key: String::new(),
            chosen: Vec::new(),
        }
    }
}

impl App {
    /// The TUI on the browse screen with no issues loaded yet, running `jql`,
    /// with the saved preferences `prefs`: their columns are shown, and the
    /// column, saved query and theme pickers start on their first entry and on
    /// the saved theme.
    pub fn new(jql: String, default_project: Option<String>, prefs: TuiPreferences) -> (r: App)
        ensures
            r.issue_keys@.len() == 0,
            r.table_state.selection() is None,
            r.mode == Mode::Browse,
            r.focus == Focus::List,
            r.active_tab == DetailTab::Summary,
            r.detail_key@ == Seq::<char>::empty(),
            r.detail_scroll == 0,
            r.jql == jql,
            r.default_project == default_project,
            r.search_input@ == Seq::<char>::empty(),
            r.search_cursor == 0,
            r.status is None,
            r.transitions@.len() == 0,
            r.transition_state.selection() is None,
            r.transition_issue_key@ == Seq::<char>::empty(),
            views(r.visible_columns@) == views(prefs.visible_columns@),
            r.column_picker_state.selection() == Some(0usize),
            r.column_picker_filter@ == Seq::<char>::empty(),
            r.available_fields@.len() == 0,
            picker_empty(r.assignee),
            picker_empty(r.component),
            picker_empty(r.fix_version),
            picker_empty(r.sprint),
            r.prefs == prefs,
            r.saved_jql_state.selection() == Some(0usize),
            r.jql_picker_filter@ == Seq::<char>::empty(),
            r.theme_state.selection() == Some(theme_position(prefs.theme) as usize),
            r.modal is None,
            r.prev_mode is None,
    {
        let mut visible: Vec<String> = Vec::new();
        let mut i: usize = 0;
        while i < prefs.visible_columns.len()
            invariant
                i <= prefs.visible_columns@.len(),
                views(visible@) == views(prefs.visible_columns@).take(i as int),
            decreases prefs.visible_columns@.len() - i,
        {
            let ghost before = views(visible@);
            visible.push(copied(&prefs.visible_columns[i]));
            assert(views(visible@) =~= before.push(prefs.visible_columns@[i as int]@));
            i = i + 1;
            assert(views(prefs.visible_columns@).take(i as int) =~= views(prefs.visible_columns@).take(
                i - 1,
            ).push(prefs.visible_columns@[i - 1]@));
        }
        assert(views(prefs.visible_columns@).take(i as int) =~= views(prefs.visible_columns@));
        let mut column_picker_state = ListState::new();
        column_picker_state.select(Some(0));
        let mut saved_jql_state = ListState::new();
        saved_jql_state.select(Some(0));
        let mut theme_state = ListState::new();
        theme_state.select(Some(prefs.theme.position()));
        App {
            issue_keys: Vec::new(),
            table_state: ListState::new(),
            mode: Mode::Browse,
            focus: Focus::List,
            active_tab: DetailTab::Summary,
            detail_key: String::new(),
            detail_scroll: 0,
            jql,
            default_project,
            search_input: String::new(),
            search_cursor: 0,
            status: None,
            transitions: Vec::new(),
            transition_state: ListState::new(),
            transition_issue_key: String::new(),
            visible_columns: visible,
            column_picker_state,
            column_picker_filter: String::new(),
            available_fields: Vec::new(),
            assignee: OptionPicker::new(),
            component: OptionPicker::new(),
            fix_version: OptionPicker::new(),
            sprint: OptionPicker::new(),
            prefs,
            saved_jql_state,
            jql_picker_filter: String::new(),
            theme_state,
            modal: None,
            prev_mode: None,
        }
    }
}

/// The fields every issue search asks for, whatever the columns.
pub open spec fn base_search_fields() -> Seq<Seq<char>> {
    seq![
        "summary"@,
        "status"@,
        "assignee"@,
        "reporter"@,
        "priority"@,
        "issuetype"@,
        "project"@,
        "created"@,
        "updated"@,
        "description"@,
        "attachment"@,
    ]
}

/// The ids of `ids` that are in neither `seen` nor earlier in `ids`, in order.
pub open spec fn fresh_ids(seen: Seq<Seq<char>>, ids: Seq<Seq<char>>) -> Seq<Seq<char>>
    decreases ids.len(),
{
    if ids.len() == 0 {
        Seq::empty()
    } else {
        let r = fresh_ids(seen, ids.drop_last());
        let x = ids.last();
        if seen.contains(x) || ids.drop_last().contains(x) {
            r
        } else {
            r.push(x)
        }
    }
}

/// The name of the first field with id `id`, if any.
pub open spec fn field_name(fields: Seq<(Seq<char>, Seq<char>)>, id: Seq<char>) -> Option<Seq<char>>
    decreases fields.len(),
{
    if fields.len() == 0 {
        None
    } else if fields[0].0 == id {
        Some(fields[0].1)
    } else {
        field_name(fields.subrange(1, fields.len() as int), id)
    }
}

/// The column shown for visible column `id`: from the server's field when it
/// offers one with that id, else the built-in or bare column.
pub open spec fn visible_column(fields: Seq<(Seq<char>, Seq<char>)>, id: Seq<char>) -> (Seq<char>, Seq<char>, Width) {
    match field_name(fields, id) {
        Some(name) => column_for_field(id, name),
        None => column_for_id(id),
    }
}

fn str_vec(items: &Vec<&str>) -> (r: Vec<String>)
    ensures
        views(r@) == items@.map_values(|s: &str| s@),
{
    let mut out: Vec<String> = Vec::new();
    let mut i: usize = 0;
    while i < items.len()
        invariant
            i <= items@.len(),
            views(out@) == items@.map_values(|s: &str| s@).take(i as int),
        decreases items@.len() - i,
    {
        let ghost before = views(out@);
        out.push(status_text(items[i]));
        assert(views(out@) =~= before.push(items@[i as int]@));
        i = i + 1;
        assert(items@.map_values(|s: &str| s@).take(i as int) =~= items@.map_values(|s: &str| s@).take(
            i - 1,
        ).push(items@[i - 1]@));
    }
    assert(items@.map_values(|s: &str| s@).take(i as int) =~= items@.map_values(|s: &str| s@));
    out
}

impl App {
    /// The theme under the theme picker's selection, else the saved one.
    pub fn selected_theme(&self) -> (r: ThemeName)
        ensures
            r == match self.theme_state.selection() {
                Some(i) => if i < 6 {
                    all_themes()[i as int]
                } else {
                    self.prefs.theme
                },
                None => self.prefs.theme,
            },
    {
        match self.theme_state.selected() {
            Some(i) => match ThemeName::at(i) {
                Some(t) => t,
                None => self.prefs.theme,
            },
            None => self.prefs.theme,
        }
    }

    /// The fields an issue search asks for: the base fields, then the ids of
    /// the visible columns not among them, each once.
    pub fn search_fields(&self) -> (r: Vec<String>)
        ensures
            views(r@) == base_search_fields() + fresh_ids(base_search_fields(), views(self.visible_columns@)),
    {
        let base: Vec<&str> = vec![
            "summary",
            "status",
            "assignee",
            "reporter",
            "priority",
            "issuetype",
            "project",
            "created",
            "updated",
            "description",
            "attachment",
        ];
        let mut out = str_vec(&base);
        assert(views(out@) =~= base_search_fields());
        let ghost vis = views(self.visible_columns@);
        let mut i: usize = 0;
        while i < self.visible_columns.len()
            invariant
                i <= self.visible_columns@.len(),
                vis == views(self.visible_columns@),
                views(out@) == base_search_fields() + fresh_ids(base_search_fields(), vis.take(i as int)),
                forall|x: Seq<char>|
                    #![trigger views(out@).contains(x)]
                    views(out@).contains(x) <==> (base_search_fields().contains(x) || vis.take(
                        i as int,
                    ).contains(x)),
            decreases self.visible_columns@.len() - i,
        {
            let ghost pre = vis.take(i as int);
            let ghost post = vis.take(i + 1);
            assert(post.drop_last() =~= pre);
            assert(post.last() == self.visible_columns@[i as int]@);
            assert(post =~= pre.push(self.visible_columns@[i as int]@));
            proof {
                lemma_push_contains(pre, self.visible_columns@[i as int]@);
            }
            let id = &self.visible_columns[i];
            if !contains_str(&out, id.as_str()) {
                let ghost before = views(out@);
                out.push(copied(id));
                assert(views(out@) =~= before.push(id@));
                proof {
                    lemma_push_contains(before, id@);
                }
            }
            i = i + 1;
        }
        assert(vis.take(i as int) =~= vis);
        out
    }

    /// The columns of the table, in the order shown.
    pub fn visible_column_specs(&self) -> (r: Vec<ColumnSpec>)
        ensures
            r@.map_values(|c: ColumnSpec| column_view(c)) == views(self.visible_columns@).map_values(
                |id: Seq<char>| visible_column(pair_views(self.available_fields@), id),
            ),
    {
        let ghost fs = pair_views(self.available_fields@);
        let ghost vis = views(self.visible_columns@);
        let mut out: Vec<ColumnSpec> = Vec::new();
        let mut i: usize = 0;
        while i < self.visible_columns.len()
            invariant
                i <= self.visible_columns@.len(),
                fs == pair_views(self.available_fields@),
                vis == views(self.visible_columns@),
                out@.map_values(|c: ColumnSpec| column_view(c)) == vis.take(i as int).map_values(
                    |id: Seq<char>| visible_column(fs, id),
                ),
            decreases self.visible_columns@.len() - i,
        {
            let id = &self.visible_columns[i];
            let mut j: usize = 0;
            let mut found: Option<usize> = None;
            assert(fs.subrange(0, fs.len() as int) =~= fs);
            while j < self.available_fields.len()
                invariant
                    j <= self.available_fields@.len(),
                    fs == pair_views(self.available_fields@),
                    found is None ==> field_name(fs, id@) == field_name(
                        fs.subrange(j as int, fs.len() as int),
                        id@,
                    ),
                    found matches Some(k) ==> k < fs.len() && field_name(fs, id@) == Some(fs[k as int].1),
                decreases self.available_fields@.len() - j,
            {
                if found.is_none() {
                    let ghost rest = fs.subrange(j as int, fs.len() as int);
                    assert(rest[0] == fs[j as int]);
                    assert(rest.subrange(1, rest.len() as int) =~= fs.subrange(j + 1, fs.len() as int));
                    if crate::text::str_eq(self.available_fields[j].0.as_str(), id.as_str()) {
                        found = Some(j);
                    }
                }
                j = j + 1;
            }
            let c = match found {
                Some(k) => ColumnSpec::from_field(id.as_str(), self.available_fields[k].1.as_str()),
                None => {
                    assert(fs.subrange(j as int, fs.len() as int).len() == 0);
                    ColumnSpec::for_id(id.as_str())
                },
            };
            let ghost before = out@.map_values(|c: ColumnSpec| column_view(c));
            assert(column_view(c) == visible_column(fs, vis[i as int]));
            out.push(c);
            assert(out@.map_values(|c: ColumnSpec| column_view(c)) =~= before.push(column_view(c)));
            i = i + 1;
            assert(vis.take(i as int).map_values(|id: Seq<char>| visible_column(fs, id)) =~= vis.take(
                i - 1,
            ).map_values(|id: Seq<char>| visible_column(fs, id)).push(visible_column(fs, vis[i - 1])));
        }
        assert(vis.take(i as int) =~= vis);
        out
    }
}

/// The position of the first occurrence of `k` in `keys`.
pub open spec fn key_position(keys: Seq<Seq<char>>, k: Seq<char>) -> Option<int>
    decreases keys.len(),
{
    if keys.len() == 0 {
        None
    } else {
        match key_position(keys.drop_last(), k) {
            Some(i) => Some(i),
            None => if keys.last() == k {
                Some(keys.len() - 1)
            } else {
                None
            },
        }
    }
}

/// The row selected after the list is replaced by `keys`: the row of the
/// issue selected before when it is still listed, else the first row; none
/// when the list is empty.
pub open spec fn reselected(before: Option<Seq<char>>, keys: Seq<Seq<char>>) -> Option<usize> {
    if keys.len() == 0 {
        None
    } else {
        match before {
            Some(k) => match key_position(keys, k) {
                Some(i) => Some(i as usize),
                None => Some(0usize),
            },
            None => Some(0usize),
        }
    }
}

proof fn lemma_key_position(keys: Seq<Seq<char>>, k: Seq<char>)
    ensures
        match key_position(keys, k) {
            Some(i) => 0 <= i < keys.len() && keys[i] == k && forall|j: int| 0 <= j < i ==> keys[j] != k,
            None => forall|j: int| 0 <= j < keys.len() ==> keys[j] != k,
        },
    decreases keys.len(),
{
    if keys.len() > 0 {
        lemma_key_position(keys.drop_last(), k);
        let t = keys.drop_last();
        match key_position(t, k) {
            Some(i) => {
                assert(keys[i] == t[i]);
                assert forall|j: int| 0 <= j < i implies keys[j] != k by {
                    assert(keys[j] == t[j]);
                }
            },
            None => {
                assert forall|j: int| 0 <= j < keys.len() - 1 implies keys[j] != k by {
                    assert(keys[j] == t[j]);
                }
            },
        }
    }
}

impl App {
    /// Replaces the listed issues by `keys`, keeping the selected issue
    /// selected when it is still listed (else selecting the first); with no
    /// issues, nothing is selected and the list has the focus. The detail pane
    /// follows the selection.
    pub fn set_issue_list(&mut self, keys: Vec<String>)
        ensures
            views(final(self).issue_keys@) == views(keys@),
            final(self).table_state.selection() == reselected(selected_key(*old(self)), views(keys@)),
            keys@.len() == 0 ==> *final(self) == (App {
                issue_keys: final(self).issue_keys,
                table_state: final(self).table_state,
                focus: Focus::List,
                ..*old(self)
            }),
            keys@.len() > 0 ==> {
                let m = App { issue_keys: final(self).issue_keys, table_state: final(self).table_state, ..*old(self) };
                detail_followed(m, *final(self))
            },
    {
        let prev = self.selected_issue_key();
        let ghost kv = views(keys@);
        self.issue_keys = keys;
        if self.issue_keys.len() == 0 {
            self.table_state.select(None);
            self.focus = Focus::List;
            return;
        }
        let mut pos: usize = 0;
        match &prev {
            Some(k) => {
                let mut i: usize = 0;
                let mut found = false;
                proof {
                    lemma_key_position(kv, k@);
                }
                while i < self.issue_keys.len()
                    invariant
                        i <= self.issue_keys@.len(),
                        kv == views(self.issue_keys@),
                        !found ==> forall|j: int| 0 <= j < i ==> kv[j] != k@,
                        !found ==> pos == 0,
                        found ==> key_position(kv, k@) == Some(pos as int),
                        match key_position(kv, k@) {
                            Some(q) => 0 <= q < kv.len() && kv[q] == k@ && forall|j: int|
                                0 <= j < q ==> kv[j] != k@,
                            None => forall|j: int| 0 <= j < kv.len() ==> kv[j] != k@,
                        },
                    decreases self.issue_keys@.len() - i,
                {
                    if !found && crate::text::str_eq(self.issue_keys[i].as_str(), k.as_str()) {
                        assert(kv[i as int] == k@);
                        pos = i;
                        found = true;
                    }
                    i = i + 1;
                }
            },
            None => {},
        }
        self.table_state.select(Some(pos));
        self.ensure_detail_context();
    }
}

/// A refreshed list keeps the selected issue selected when it is still
/// listed, at its new row.
pub proof fn law_refresh_keeps_selection(before: Option<Seq<char>>, keys: Seq<Seq<char>>, k: Seq<char>)
    requires
        before == Some(k),
        keys.contains(k),
        keys.len() <= usize::MAX,
    ensures
        reselected(before, keys) matches Some(i) && keys[i as int] == k,
{
    lemma_key_position(keys, k);
    let j = choose|j: int| 0 <= j < keys.len() && keys[j] == k;
    assert(keys[j] == k);
}

/// The name shown for a theme.
pub open spec fn theme_text(t: ThemeName) -> Seq<char> {
    match t {
        ThemeName::Default => "Default"@,
        ThemeName::Dracula => "Dracula"@,
        ThemeName::Nord => "Nord"@,
        ThemeName::Solarized => "Solarized"@,
        ThemeName::Gruvbox => "Gruvbox"@,
        ThemeName::GithubLight => "GitHub Light"@,
    }
}

/// An entry of the column picker: checked when the column is shown, then its
/// label and id.
pub open spec fn column_item(c: (Seq<char>, Seq<char>, Width), visible: Seq<Seq<char>>) -> Seq<char> {
    (if visible.contains(c.0) {
        "[x]"@
    } else {
        "[ ]"@
    }) + " "@ + c.1 + " ("@ + c.0 + ")"@
}

/// An entry of the saved-query picker: the name, then the query.
pub open spec fn saved_item(q: (Seq<char>, Seq<char>)) -> Seq<char> {
    q.0 + "  •  "@ + q.1
}

/// An entry of the theme picker: ticked for the theme in use, then its name.
pub open spec fn theme_item(t: ThemeName, current: ThemeName) -> Seq<char> {
    "["@ + (if t == current {
        "✓"@
    } else {
        " "@
    }) + "] "@ + theme_text(t)
}

fn contains_text(v: &Vec<String>, t: &str) -> (r: bool)
    ensures
        r == views(v@).contains(t@),
{
    let mut i: usize = 0;
    while i < v.len()
        invariant
            i <= v@.len(),
            forall|j: int| 0 <= j < i ==> views(v@)[j] != t@,
        decreases v@.len() - i,
    {
        assert(views(v@)[i as int] == v@[i as int]@);
        if crate::text::str_eq(v[i].as_str(), t) {
            return true;
        }
        i = i + 1;
    }
    false
}

impl App {
    /// The entries the column picker lists for its filter.
    pub fn column_picker_items(&self) -> (r: Vec<String>)
        ensures
            views(r@) == filtered_columns(pair_views(self.available_fields@), self.column_picker_filter@).map_values(
                |c: (Seq<char>, Seq<char>, Width)| column_item(c, views(self.visible_columns@)),
            ),
    {
        let cols = self.filtered_picker_fields();
        let ghost cv = cols@.map_values(|c: ColumnSpec| column_view(c));
        let ghost vis = views(self.visible_columns@);
        let mut out: Vec<String> = Vec::new();
        let mut i: usize = 0;
        while i < cols.len()
            invariant
                i <= cols@.len(),
                cv == cols@.map_values(|c: ColumnSpec| column_view(c)),
                vis == views(self.visible_columns@),
                views(out@) == cv.take(i as int).map_values(|c: (Seq<char>, Seq<char>, Width)| column_item(c, vis)),
            decreases cols@.len() - i,
        {
            let c = &cols[i];
            let mut t = String::new();
            if contains_text(&self.visible_columns, c.id.as_str()) {
                push_str(&mut t, "[x]");
            } else {
                push_str(&mut t, "[ ]");
            }
            push_str(&mut t, " ");
            push_str(&mut t, c.label.as_str());
            push_str(&mut t, " (");
            push_str(&mut t, c.id.as_str());
            push_str(&mut t, ")");
            assert(t@ == column_item(cv[i as int], vis));
            let ghost before = views(out@);
            out.push(t);
            assert(views(out@) =~= before.push(column_item(cv[i as int], vis)));
            i = i + 1;
            assert(cv.take(i as int).map_values(|c: (Seq<char>, Seq<char>, Width)| column_item(c, vis)) =~= cv.take(
                i - 1,
            ).map_values(|c: (Seq<char>, Seq<char>, Width)| column_item(c, vis)).push(column_item(cv[i - 1], vis)));
        }
        assert(cv.take(i as int) =~= cv);
        out
    }

    /// The entries the saved-query picker lists for its filter.
    pub fn saved_jql_items(&self) -> (r: Vec<String>)
        ensures
            views(r@) == shown_saved(*self).map_values(|k: int| saved_item(saved_pairs(*self)[k])),
    {
        let shown = self.filtered_saved_jqls();
        let ghost sh = shown_saved(*self);
        proof {
            lemma_matching_bounds(saved_pairs(*self), filter_key(self.jql_picker_filter@));
        }
        let mut out: Vec<String> = Vec::new();
        let mut i: usize = 0;
        while i < shown.len()
            invariant
                i <= shown@.len(),
                sh == shown_saved(*self),
                shown@.map_values(|k: usize| k as int) == sh,
                forall|j: int| 0 <= j < sh.len() ==> 0 <= #[trigger] sh[j] < saved_pairs(*self).len(),
                views(out@) == sh.take(i as int).map_values(|k: int| saved_item(saved_pairs(*self)[k])),
            decreases shown@.len() - i,
        {
            let k = shown[i];
            assert(sh[i as int] == k as int);
            assert(saved_pairs(*self)[k as int] == (self.prefs.saved_jqls@[k as int].name@, self.prefs.saved_jqls@[k as int].jql@));
            let q = &self.prefs.saved_jqls[k];
            let mut t = String::new();
            push_str(&mut t, q.name.as_str());
            push_str(&mut t, "  •  ");
            push_str(&mut t, q.jql.as_str());
            let ghost before = views(out@);
            out.push(t);
            assert(views(out@) =~= before.push(saved_item(saved_pairs(*self)[sh[i as int]])));
            i = i + 1;
            assert(sh.take(i as int).map_values(|k: int| saved_item(saved_pairs(*self)[k])) =~= sh.take(i - 1).map_values(
                |k: int| saved_item(saved_pairs(*self)[k]),
            ).push(saved_item(saved_pairs(*self)[sh[i - 1]])));
        }
        assert(sh.take(i as int) =~= sh);
        out
    }

    /// The entries of the theme picker.
    pub fn theme_items(&self) -> (r: Vec<String>)
        ensures
            views(r@) == crate::tui_prefs::all_themes().map_values(|t: ThemeName| theme_item(t, self.prefs.theme)),
    {
        let themes = ThemeName::all();
        let ghost ts = themes@;
        let mut out: Vec<String> = Vec::new();
        let mut i: usize = 0;
        while i < themes.len()
            invariant
                i <= ts.len(),
                ts == themes@,
                ts == crate::tui_prefs::all_themes(),
                views(out@) == ts.take(i as int).map_values(|t: ThemeName| theme_item(t, self.prefs.theme)),
            decreases ts.len() - i,
        {
            let t = themes[i];
            let mut s = String::new();
            push_str(&mut s, "[");
            if t == self.prefs.theme {
                push_str(&mut s, "✓");
            } else {
                push_str(&mut s, " ");
            }
            push_str(&mut s, "] ");
            push_str(&mut s, t.label());
            let ghost before = views(out@);
            out.push(s);
            assert(views(out@) =~= before.push(theme_item(t, self.prefs.theme)));
            i = i + 1;
            assert(ts.take(i as int).map_values(|t: ThemeName| theme_item(t, self.prefs.theme)) =~= ts.take(i - 1).map_values(
                |t: ThemeName| theme_item(t, self.prefs.theme),
            ).push(theme_item(ts[i - 1], self.prefs.theme)));
        }
        assert(ts.take(i as int) =~= ts);
        out
    }
}


/// On the browse screen, each issue key opens its own action on the selected
/// issue, whether the issue list or the detail pane has the keyboard: `e` edits,
/// `a` opens the assignee picker, `;` comments, `w` logs work, `b` logs work over
/// a range, `m` opens the component picker, `v` the fix-version picker, `s` the
/// sprint picker, `u` uploads, `y` changes the type and `M` moves the issue; `l`
/// edits labels from the list (on the detail pane it switches tabs). With no
/// issue selected these keys do nothing.
pub proof fn law_issue_keys(a: App, key: KeyPress, b: App, r: AppAction)
    requires
        key_step(a, key, b, r),
        a.mode == Mode::Browse,
    ensures
        selected_key(a) matches Some(k) ==> {
            &&& key.code == Key::Char('e') ==> (r matches AppAction::EditIssue(s) && s@ == k)
            &&& key.code == Key::Char('a') ==> (r matches AppAction::OpenAssigneePicker(s) && s@ == k)
            &&& key.code == Key::Char(';') ==> (r matches AppAction::AddComment(s) && s@ == k)
            &&& key.code == Key::Char('w') ==> (r matches AppAction::AddWorklog(s) && s@ == k)
            &&& key.code == Key::Char('b') ==> (r matches AppAction::AddBulkWorklog(s) && s@ == k)
            &&& key.code == Key::Char('m') ==> (r matches AppAction::OpenComponentPicker(s) && s@ == k)
            &&& key.code == Key::Char('v') ==> (r matches AppAction::OpenFixVersionPicker(s) && s@ == k)
            &&& key.code == Key::Char('s') ==> (r matches AppAction::OpenSprintPicker(s) && s@ == k)
            &&& key.code == Key::Char('u') ==> (r matches AppAction::UploadAttachment(s) && s@ == k)
            &&& key.code == Key::Char('y') ==> (r matches AppAction::OpenChangeTypeModal(s) && s@ == k)
            &&& key.code == Key::Char('M') ==> (r matches AppAction::OpenMoveIssueModal(s) && s@ == k)
            &&& (key.code == Key::Char('l') && a.focus == Focus::List) ==> (r matches AppAction::EditLabels(s)
                && s@ == k)
        },
        selected_key(a) is None ==> (key.code == Key::Char('e') || key.code == Key::Char('a')
            || key.code == Key::Char(';') || key.code == Key::Char('w') || key.code == Key::Char('b')
            || key.code == Key::Char('m') || key.code == Key::Char('v') || key.code == Key::Char('s')
            || key.code == Key::Char('u') || key.code == Key::Char('y') || key.code == Key::Char('M'))
            ==> r is Idle,
{
}


/// On the issue list, the screen keys do what the help lists whatever is
/// selected: `q` and Esc quit, `r` refreshes, `t` fetches transitions, `n` opens
/// the mentions, `o` opens the browser, `S` loads the server summary, `g` the
/// config summary, `c` creates an issue, `V` opens the fix-version browser, `:`
/// the bulk comment and `R` marks the selected issue's mentions read; Enter on a
/// selected issue opens the detail pane and loads its active tab.
pub proof fn law_browse_keys(a: App, key: KeyPress, b: App, r: AppAction)
    requires
        key_step(a, key, b, r),
        a.mode == Mode::Browse,
        a.focus == Focus::List,
    ensures
        (key.code == Key::Char('q') || key.code == Key::Esc) ==> r is Quit,
        key.code == Key::Char('r') ==> r is Refresh,
        key.code == Key::Char('t') ==> r is FetchTransitions,
        key.code == Key::Char('n') ==> r is OpenNotifications,
        key.code == Key::Char('o') ==> r is OpenBrowser,
        key.code == Key::Char('S') ==> r is LoadServerInfo && b.mode == Mode::ServerInfo,
        key.code == Key::Char('g') ==> r is LoadConfigView && b.mode == Mode::ConfigView,
        key.code == Key::Char('c') ==> r is CreateIssue,
        key.code == Key::Char('V') ==> r is OpenProjectVersionBrowser,
        key.code == Key::Char(':') ==> r is BulkComment,
        key.code == Key::Char('R') ==> r is MarkNotificationsRead,
        (key.code == Key::Enter && selected_key(a) is Some) ==> r is WarmActiveTab && b.focus
            == Focus::Detail,
{
}

} // verus!
