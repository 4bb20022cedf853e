use jira_commands::columns::Width;
use jira_commands::keys::ListState;
use jira_commands::tui_app::{App, AppAction, Focus, IssuePicker, Mode};
use jira_commands::tui_app::{
    handle_issue_picker_key, handle_key, handle_saved_jql_key, handle_search_key, toggle_value,
};
use jira_commands::tui_modal::{
    handle_modal_key, Key, KeyPress, Modal, ModalField, ModalKind, ModalOutcome, PickerOption,
};
use jira_commands::tui_prefs::{DetailTab, SavedJql, ThemeName, TuiPreferences};

fn press(code: Key) -> KeyPress {
    KeyPress { code, control: false }
}

fn ctrl(c: char) -> KeyPress {
    KeyPress { code: Key::Char(c), control: true }
}

fn modal(kind: ModalKind, multiline: Vec<bool>) -> Modal {
    Modal {
        kind,
        fields: multiline
            .into_iter()
            .map(|m| ModalField {
                label: "Field".to_string(),
                multiline: m,
                placeholder: None,
                initial: vec![String::new()],
            })
            .collect(),
        focus: 0,
        error: None,
        notice: None,
        confirm_token: None,
        busy: false,
        mention_active: false,
        mention_query: String::new(),
        mention_options: Vec::new(),
        mention_state: ListState::new(),
        forward_key: false,
    }
}

fn option(v: &str) -> PickerOption {
    PickerOption { value: v.to_string(), label: v.to_string() }
}

fn app_with_issues(keys: &[&str]) -> App {
    let mut app = App::new(
        "project = PROJ ORDER BY updated DESC".to_string(),
        Some("PROJ".to_string()),
        TuiPreferences::default(),
    );
    app.issue_keys = keys.iter().map(|k| k.to_string()).collect();
    if !keys.is_empty() {
        app.table_state.select(Some(0));
    }
    app
}

#[test]
fn modal_titles_and_hints() {
    let edit = ModalKind::EditIssue { key: "PROJ-7".to_string() };
    assert_eq!(edit.title(), " Edit PROJ-7 ");
    assert_eq!(edit.hint(), " Tab: next field   Ctrl+S: save   Esc: cancel ");
    assert!(!edit.takes_mentions());
    let sprint = ModalKind::DeleteSprint {
        project_key: "PROJ".to_string(),
        sprint_id: 3,
        sprint_name: "Sprint 3".to_string(),
    };
    assert_eq!(sprint.title(), " Delete Sprint: PROJ / Sprint 3 ");
    assert_eq!(ModalKind::BulkComment.title(), " Bulk Comment ");
    assert!(ModalKind::BulkComment.takes_mentions());
    assert!(ModalKind::AddComment { key: "A-1".to_string() }.takes_mentions());
}

#[test]
fn modal_keys_submit_cancel_and_move_focus() {
    let mut m = modal(ModalKind::EditIssue { key: "PROJ-1".to_string() }, vec![false, true, false]);
    assert_eq!(handle_modal_key(&mut m, press(Key::Esc)), ModalOutcome::Cancel);
    assert_eq!(handle_modal_key(&mut m, ctrl('s')), ModalOutcome::Submit);
    assert_eq!(handle_modal_key(&mut m, ctrl('S')), ModalOutcome::Submit);

    m.notice = Some("confirm?".to_string());
    m.confirm_token = Some("tok".to_string());
    assert_eq!(handle_modal_key(&mut m, press(Key::Tab)), ModalOutcome::Continue);
    assert_eq!(m.focus, 1);
    assert!(m.notice.is_none());
    assert!(m.confirm_token.is_none());

    // Enter in a multi-line field goes to the text.
    assert_eq!(handle_modal_key(&mut m, press(Key::Enter)), ModalOutcome::Continue);
    assert!(m.forward_key);

    handle_modal_key(&mut m, press(Key::Tab));
    handle_modal_key(&mut m, press(Key::Tab));
    assert_eq!(m.focus, 0);
    handle_modal_key(&mut m, press(Key::BackTab));
    assert_eq!(m.focus, 2);

    // Enter in a single-line field submits.
    assert_eq!(handle_modal_key(&mut m, press(Key::Enter)), ModalOutcome::Submit);
    assert!(!m.forward_key);

    // A plain character goes to the focused field.
    assert_eq!(handle_modal_key(&mut m, press(Key::Char('s'))), ModalOutcome::Continue);
    assert!(m.forward_key);
}

#[test]
fn busy_modal_ignores_keys() {
    let mut m = modal(ModalKind::BulkComment, vec![true]);
    m.busy = true;
    assert_eq!(handle_modal_key(&mut m, press(Key::Esc)), ModalOutcome::Continue);
    assert_eq!(handle_modal_key(&mut m, ctrl('s')), ModalOutcome::Continue);
    assert!(!m.forward_key);
}

#[test]
fn mention_picker_keys() {
    let mut m = modal(ModalKind::AddComment { key: "PROJ-2".to_string() }, vec![true]);
    // '@' opens the mention picker only in comment forms.
    assert_eq!(handle_modal_key(&mut m, press(Key::Char('@'))), ModalOutcome::MentionQueryChanged);
    assert!(m.mention_active);
    assert_eq!(handle_modal_key(&mut m, press(Key::Char('j'))), ModalOutcome::MentionQueryChanged);
    assert_eq!(handle_modal_key(&mut m, press(Key::Char('é'))), ModalOutcome::MentionQueryChanged);
    assert_eq!(m.mention_query, "jé");
    assert_eq!(handle_modal_key(&mut m, press(Key::Backspace)), ModalOutcome::MentionQueryChanged);
    assert_eq!(m.mention_query, "j");

    m.mention_options = vec![option("a1"), option("a2")];
    assert_eq!(handle_modal_key(&mut m, press(Key::Enter)), ModalOutcome::Continue);
    handle_modal_key(&mut m, press(Key::Down));
    assert_eq!(m.mention_state.selected(), Some(0));
    handle_modal_key(&mut m, press(Key::Down));
    handle_modal_key(&mut m, press(Key::Down));
    assert_eq!(m.mention_state.selected(), Some(1));
    handle_modal_key(&mut m, press(Key::Up));
    assert_eq!(m.mention_state.selected(), Some(0));
    assert_eq!(handle_modal_key(&mut m, press(Key::Enter)), ModalOutcome::MentionSelected(0));

    assert_eq!(handle_modal_key(&mut m, press(Key::Esc)), ModalOutcome::Continue);
    assert!(!m.mention_active);
    assert_eq!(m.mention_query, "");
    assert!(m.mention_options.is_empty());
    assert_eq!(m.mention_state.selected(), None);

    let mut e = modal(ModalKind::EditIssue { key: "PROJ-2".to_string() }, vec![true]);
    assert_eq!(handle_modal_key(&mut e, press(Key::Char('@'))), ModalOutcome::Continue);
    assert!(!e.mention_active);
    assert!(e.forward_key);
}

#[test]
fn new_app_starts_on_browse_screen() {
    let mut prefs = TuiPreferences::default();
    prefs.theme = ThemeName::Nord;
    let app = App::new("jql".to_string(), None, prefs);
    assert_eq!(app.mode, Mode::Browse);
    assert_eq!(app.focus, Focus::List);
    assert_eq!(app.column_picker_state.selected(), Some(0));
    assert_eq!(app.saved_jql_state.selected(), Some(0));
    assert_eq!(app.theme_state.selected(), Some(2));
    assert_eq!(app.selected_theme(), ThemeName::Nord);
    assert_eq!(app.visible_columns.len(), 13);
    assert_eq!(app.selected_issue_key(), None);
}

#[test]
fn browse_keys_move_open_and_act() {
    let mut app = app_with_issues(&["PROJ-1", "PROJ-2"]);
    assert!(matches!(handle_key(&mut app, press(Key::Char('j'))), AppAction::Idle));
    assert_eq!(app.table_state.selected(), Some(1));
    handle_key(&mut app, press(Key::Down));
    assert_eq!(app.table_state.selected(), Some(1));
    handle_key(&mut app, press(Key::Up));
    assert_eq!(app.table_state.selected(), Some(0));

    match handle_key(&mut app, press(Key::Char('e'))) {
        AppAction::EditIssue(k) => assert_eq!(k, "PROJ-1"),
        _ => panic!("expected EditIssue"),
    }
    match handle_key(&mut app, press(Key::Char('M'))) {
        AppAction::OpenMoveIssueModal(k) => assert_eq!(k, "PROJ-1"),
        _ => panic!("expected OpenMoveIssueModal"),
    }
    assert!(matches!(handle_key(&mut app, press(Key::Char('r'))), AppAction::Refresh));
    assert!(matches!(handle_key(&mut app, press(Key::Char('V'))), AppAction::OpenProjectVersionBrowser));
    assert!(matches!(handle_key(&mut app, press(Key::Char(':'))), AppAction::BulkComment));
    assert!(matches!(handle_key(&mut app, press(Key::Char('R'))), AppAction::MarkNotificationsRead));
    assert_eq!(app.mode, Mode::Browse);
    assert!(matches!(handle_key(&mut app, press(Key::Char('S'))), AppAction::LoadServerInfo));
    assert_eq!(app.mode, Mode::ServerInfo);
    handle_key(&mut app, press(Key::Char('x')));
    assert_eq!(app.mode, Mode::ServerInfo);
    handle_key(&mut app, press(Key::Esc));
    assert_eq!(app.mode, Mode::Browse);

    app.status = Some(("old".to_string(), false));
    assert!(matches!(handle_key(&mut app, press(Key::Enter)), AppAction::WarmActiveTab));
    assert_eq!(app.focus, Focus::Detail);
    assert_eq!(app.detail_key, "PROJ-1");
    assert!(app.status.is_none());
    assert!(matches!(handle_key(&mut app, press(Key::Esc)), AppAction::Idle));
    assert_eq!(app.focus, Focus::List);
    assert!(matches!(handle_key(&mut app, press(Key::Esc)), AppAction::Quit));
}

#[test]
fn browse_keys_without_issues_do_nothing_to_issues() {
    let mut app = app_with_issues(&[]);
    assert!(matches!(handle_key(&mut app, press(Key::Char('e'))), AppAction::Idle));
    assert!(matches!(handle_key(&mut app, press(Key::Enter)), AppAction::Idle));
    assert_eq!(app.focus, Focus::List);
    handle_key(&mut app, press(Key::Down));
    assert_eq!(app.table_state.selected(), None);
}

#[test]
fn detail_pane_keys() {
    let mut app = app_with_issues(&["PROJ-1"]);
    handle_key(&mut app, press(Key::Enter));
    assert!(matches!(handle_key(&mut app, press(Key::Right)), AppAction::WarmActiveTab));
    assert_eq!(app.active_tab, DetailTab::Versions);
    handle_key(&mut app, press(Key::PageDown));
    assert_eq!(app.detail_scroll, 8);
    handle_key(&mut app, press(Key::Char('k')));
    assert_eq!(app.detail_scroll, 7);
    handle_key(&mut app, press(Key::Char('h')));
    assert_eq!(app.active_tab, DetailTab::Summary);
    assert_eq!(app.detail_scroll, 0);
    handle_key(&mut app, press(Key::Left));
    assert_eq!(app.active_tab, DetailTab::Links);
    handle_key(&mut app, press(Key::PageUp));
    assert_eq!(app.detail_scroll, 0);
    app.detail_scroll = u16::MAX - 3;
    handle_key(&mut app, press(Key::PageDown));
    assert_eq!(app.detail_scroll, u16::MAX);
    handle_key(&mut app, press(Key::Home));
    assert_eq!(app.detail_scroll, 0);
    match handle_key(&mut app, press(Key::Char(';'))) {
        AppAction::AddComment(k) => assert_eq!(k, "PROJ-1"),
        _ => panic!("expected AddComment"),
    }
    // 'l' moves between tabs here rather than editing labels.
    assert!(matches!(handle_key(&mut app, press(Key::Char('l'))), AppAction::WarmActiveTab));
    handle_key(&mut app, press(Key::Char('?')));
    assert_eq!(app.mode, Mode::Help);
    handle_key(&mut app, press(Key::Char('z')));
    assert_eq!(app.mode, Mode::Browse);
}

#[test]
fn search_box_edits_and_runs() {
    let mut app = app_with_issues(&[]);
    handle_key(&mut app, press(Key::Char('/')));
    assert_eq!(app.mode, Mode::Search);
    assert_eq!(app.search_input, "project = PROJ ORDER BY updated DESC");
    assert_eq!(app.search_cursor, 36);

    app.search_input = "aéz".to_string();
    app.search_cursor = 2;
    handle_search_key(&mut app, Key::Backspace);
    assert_eq!(app.search_input, "az");
    assert_eq!(app.search_cursor, 1);
    handle_search_key(&mut app, Key::Char('é'));
    assert_eq!(app.search_input, "aéz");
    assert_eq!(app.search_cursor, 2);
    handle_search_key(&mut app, Key::Delete);
    assert_eq!(app.search_input, "aé");
    handle_search_key(&mut app, Key::Right);
    assert_eq!(app.search_cursor, 2);
    handle_search_key(&mut app, Key::Home);
    assert_eq!(app.search_cursor, 0);
    handle_search_key(&mut app, Key::End);
    assert_eq!(app.search_cursor, 2);

    app.search_input = "  login bug  ".to_string();
    match handle_key(&mut app, press(Key::Enter)) {
        AppAction::ExecuteSearch(jql) => assert_eq!(
            jql,
            "project = PROJ AND summary ~ \"login bug\" ORDER BY updated DESC"
        ),
        _ => panic!("expected ExecuteSearch"),
    }
    assert_eq!(app.mode, Mode::Browse);

    handle_key(&mut app, press(Key::Char('/')));
    app.search_input = "   ".to_string();
    assert!(matches!(handle_key(&mut app, press(Key::Enter)), AppAction::Idle));
    assert_eq!(app.mode, Mode::Browse);
}

#[test]
fn transition_picker_keys() {
    let mut app = app_with_issues(&["PROJ-1"]);
    app.mode = Mode::Transition;
    app.transition_issue_key = "PROJ-1".to_string();
    app.transitions = vec![("11".to_string(), "To Do".to_string()), ("21".to_string(), "Done".to_string())];
    app.transition_state.select(Some(0));
    handle_key(&mut app, press(Key::Char('j')));
    handle_key(&mut app, press(Key::Char('j')));
    assert_eq!(app.transition_state.selected(), Some(1));
    match handle_key(&mut app, press(Key::Enter)) {
        AppAction::ExecuteTransition(k, id) => {
            assert_eq!(k, "PROJ-1");
            assert_eq!(id, "21");
        }
        _ => panic!("expected ExecuteTransition"),
    }
    assert_eq!(app.mode, Mode::Browse);

    app.mode = Mode::Transition;
    handle_key(&mut app, press(Key::Char('q')));
    assert_eq!(app.mode, Mode::Browse);
    assert!(app.transitions.is_empty());
}

#[test]
fn column_picker_keeps_one_column() {
    let mut app = app_with_issues(&[]);
    app.available_fields = vec![
        ("customfield_1".to_string(), "Story Points".to_string()),
        ("status".to_string(), "Status".to_string()),
        ("customfield_1".to_string(), "Dup".to_string()),
    ];
    let list = app.picker_field_list();
    assert_eq!(list.len(), 14);
    assert_eq!(list[13].id, "customfield_1");
    assert_eq!(list[13].label, "Story Points");
    assert_eq!(list[13].width, Width::Min(14));

    handle_key(&mut app, press(Key::Char('C')));
    assert_eq!(app.mode, Mode::ColumnPicker);
    for c in "story".chars() {
        handle_key(&mut app, press(Key::Char(c)));
    }
    let shown = app.filtered_picker_fields();
    assert_eq!(shown.len(), 1);
    assert_eq!(shown[0].id, "customfield_1");
    handle_key(&mut app, press(Key::Char(' ')));
    assert_eq!(app.visible_columns.last().map(|s| s.as_str()), Some("customfield_1"));
    handle_key(&mut app, press(Key::Char(' ')));
    assert!(!app.visible_columns.iter().any(|c| c == "customfield_1"));

    handle_key(&mut app, press(Key::Tab));
    assert_eq!(app.column_picker_filter, "");
    app.visible_columns = vec!["key".to_string()];
    handle_key(&mut app, press(Key::Char(' ')));
    assert_eq!(app.visible_columns, vec!["key".to_string()]);
    assert_eq!(app.status, Some(("Keep at least one visible column".to_string(), true)));

    handle_key(&mut app, press(Key::F(2)));
    assert_eq!(app.visible_columns.len(), 13);
    assert_eq!(app.status, Some(("Selected all built-in columns".to_string(), false)));
    app.visible_columns = vec!["key".to_string()];
    assert!(matches!(handle_key(&mut app, press(Key::F(5))), AppAction::ResetColumnPreferences));
    assert_eq!(app.visible_columns.len(), 13);
    assert!(matches!(handle_key(&mut app, press(Key::Enter)), AppAction::SaveColumnPreferences));
    assert_eq!(app.mode, Mode::Browse);
}

#[test]
fn saved_query_picker_keys() {
    let mut app = app_with_issues(&[]);
    app.prefs.saved_jqls = vec![
        SavedJql { name: "Mine".to_string(), jql: "assignee = currentUser()".to_string() },
        SavedJql { name: "Bugs".to_string(), jql: "type = Bug".to_string() },
    ];
    handle_key(&mut app, press(Key::Char('p')));
    assert_eq!(app.mode, Mode::SavedJqlPicker);
    match handle_saved_jql_key(&mut app, Key::Char('e')) {
        AppAction::EditSavedJql(i) => assert_eq!(i, 0),
        _ => panic!("expected EditSavedJql"),
    }
    handle_saved_jql_key(&mut app, Key::Char('B'));
    assert_eq!(app.filtered_saved_jqls(), vec![1]);
    match handle_saved_jql_key(&mut app, Key::Char('d')) {
        AppAction::Idle => {}
        _ => panic!("a non-empty filter takes the letter"),
    }
    assert_eq!(app.jql_picker_filter, "Bd");
    handle_saved_jql_key(&mut app, Key::Backspace);
    assert_eq!(app.selected_saved_jql_index(), Some(1));
    match handle_saved_jql_key(&mut app, Key::Enter) {
        AppAction::ApplySavedJql(j) => assert_eq!(j, "type = Bug"),
        _ => panic!("expected ApplySavedJql"),
    }
    assert_eq!(app.mode, Mode::Browse);

    app.saved_jql_state.select(Some(9));
    app.clamp_saved_jql_selection();
    assert_eq!(app.saved_jql_state.selected(), Some(1));
    app.prefs.saved_jqls.clear();
    app.clamp_saved_jql_selection();
    assert_eq!(app.saved_jql_state.selected(), None);
}

#[test]
fn component_picker_ticks_values() {
    let mut app = app_with_issues(&["PROJ-1"]);
    app.mode = Mode::ComponentPicker;
    app.component.issue_key = "PROJ-1".to_string();
    app.component.options = vec![option("api"), option("ui")];
    handle_issue_picker_key(&mut app, IssuePicker::Component, Key::Down);
    handle_issue_picker_key(&mut app, IssuePicker::Component, Key::Char(' '));
    assert_eq!(app.component.chosen, vec!["api".to_string()]);
    handle_issue_picker_key(&mut app, IssuePicker::Component, Key::Char(' '));
    assert!(app.component.chosen.is_empty());
    assert!(matches!(
        handle_issue_picker_key(&mut app, IssuePicker::Component, Key::Char('x')),
        AppAction::RefreshComponentOptions
    ));
    assert_eq!(app.component.query, "x");
    match handle_key(&mut app, press(Key::Enter)) {
        AppAction::EditComponents(k) => assert_eq!(k, "PROJ-1"),
        _ => panic!("expected EditComponents"),
    }
    assert_eq!(app.mode, Mode::Browse);

    app.mode = Mode::SprintPicker;
    app.sprint.issue_key = "PROJ-1".to_string();
    match handle_key(&mut app, press(Key::Enter)) {
        AppAction::ApplySprintSelection(k) => assert_eq!(k, "PROJ-1"),
        _ => panic!("expected ApplySprintSelection"),
    }
    assert_eq!(app.mode, Mode::SprintPicker);
    // In the sprint picker a space is typed into the query.
    handle_key(&mut app, press(Key::Char(' ')));
    assert_eq!(app.sprint.query, " ");
    handle_key(&mut app, press(Key::Char('q')));
    assert_eq!(app.mode, Mode::Browse);
}

#[test]
fn toggling_twice_restores_the_values() {
    let mut v = vec!["a".to_string(), "b".to_string()];
    toggle_value(&mut v, "a");
    assert_eq!(v, vec!["b".to_string()]);
    toggle_value(&mut v, "a");
    assert_eq!(v, vec!["b".to_string(), "a".to_string()]);
}

#[test]
fn assignee_picker_assigns_selected_option() {
    let mut app = app_with_issues(&["PROJ-1"]);
    app.mode = Mode::AssigneePicker;
    assert!(matches!(handle_key(&mut app, press(Key::Char('b'))), AppAction::RefreshAssigneeOptions));
    assert!(matches!(handle_key(&mut app, press(Key::Backspace)), AppAction::RefreshAssigneeOptions));
    assert!(matches!(handle_key(&mut app, press(Key::Backspace)), AppAction::Idle));
    app.assignee.options = vec![option("acc-1")];
    assert!(matches!(handle_key(&mut app, press(Key::Enter)), AppAction::Idle));
    handle_key(&mut app, press(Key::Down));
    match handle_key(&mut app, press(Key::Enter)) {
        AppAction::AssignIssue(v) => assert_eq!(v, "acc-1"),
        _ => panic!("expected AssignIssue"),
    }
    assert_eq!(app.mode, Mode::Browse);
}

#[test]
fn forms_open_and_close_over_the_screen() {
    let mut app = app_with_issues(&["PROJ-1"]);
    app.mode = Mode::SavedJqlPicker;
    app.open_modal(modal(ModalKind::BulkComment, vec![true]));
    assert_eq!(app.mode, Mode::Modal);
    assert!(matches!(handle_key(&mut app, press(Key::Esc)), AppAction::CancelModal));
    assert!(matches!(handle_key(&mut app, ctrl('s')), AppAction::SubmitModal));
    assert!(matches!(handle_key(&mut app, press(Key::Char('@'))), AppAction::RefreshMentionOptions));
    app.close_modal();
    assert_eq!(app.mode, Mode::SavedJqlPicker);
    assert!(app.modal.is_none());

    app.mode = Mode::Modal;
    assert!(matches!(handle_key(&mut app, press(Key::Esc)), AppAction::Idle));
    assert_eq!(app.mode, Mode::Browse);
}

#[test]
fn search_fields_add_visible_columns_once() {
    let mut app = app_with_issues(&[]);
    app.visible_columns = vec![
        "key".to_string(),
        "status".to_string(),
        "customfield_9".to_string(),
        "key".to_string(),
    ];
    let fields = app.search_fields();
    assert_eq!(fields.len(), 13);
    assert_eq!(fields[0], "summary");
    assert_eq!(fields[11], "key");
    assert_eq!(fields[12], "customfield_9");

    app.available_fields = vec![("customfield_9".to_string(), "Team".to_string())];
    let specs = app.visible_column_specs();
    assert_eq!(specs.len(), 4);
    assert_eq!(specs[0].label, "Key");
    assert_eq!(specs[2].label, "Team");
}

#[test]
fn refreshed_list_keeps_the_selected_issue() {
    let mut app = app_with_issues(&["PROJ-1", "PROJ-2", "PROJ-3"]);
    app.table_state.select(Some(1));
    app.detail_scroll = 4;
    app.detail_key = "PROJ-2".to_string();
    app.set_issue_list(vec!["PROJ-9".to_string(), "PROJ-2".to_string()]);
    assert_eq!(app.table_state.selected(), Some(1));
    assert_eq!(app.detail_scroll, 4);
    app.set_issue_list(vec!["PROJ-7".to_string()]);
    assert_eq!(app.table_state.selected(), Some(0));
    assert_eq!(app.detail_key, "PROJ-7");
    assert_eq!(app.detail_scroll, 0);
    app.focus = Focus::Detail;
    app.set_issue_list(Vec::new());
    assert_eq!(app.table_state.selected(), None);
    assert_eq!(app.focus, Focus::List);
}

#[test]
fn version_browser_keys() {
    let mut app = app_with_issues(&["PROJ-1"]);
    app.mode = Mode::ProjectVersionBrowser;
    assert!(matches!(handle_key(&mut app, press(Key::Char('n'))), AppAction::OpenProjectVersionCreateModal));
    assert!(matches!(handle_key(&mut app, press(Key::Char('e'))), AppAction::OpenProjectVersionEditModal));
    assert!(matches!(handle_key(&mut app, press(Key::Char('x'))), AppAction::Idle));
    assert_eq!(app.mode, Mode::ProjectVersionBrowser);
    assert!(matches!(handle_key(&mut app, press(Key::Esc)), AppAction::Idle));
    assert_eq!(app.mode, Mode::Browse);
}
