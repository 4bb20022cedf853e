//! Modal forms of the TUI: their titles and hints, which field has the focus,
//! the messages they show, and what each key does while one is open.
//!
//! The text typed into the fields lives in the caller's text-area widgets;
//! when a key is meant for the focused field, the state here says so.
use vstd::prelude::*;

use crate::keys::{nav_down, nav_up, picker_nav_down, picker_nav_up, ListState};
use crate::model::{ProjectVersion, Sprint};
use crate::text::{
    chars_of, push_char, push_str, split_chars, split_on, string_of_range, views, Separator,
};

verus! {

/// The forms the TUI opens.
pub enum ModalKind {
    EditIssue { key: String },
    AddComment { key: String },
    BulkComment,
    UploadAttachment { key: String },
    AddWorklog { key: String },
    AddBulkWorklog { key: String },
    CreateProjectVersion { project_key: String },
    EditProjectVersion { project_key: String, version_id: String, version_name: String },
    CreateSprint { project_key: String },
    EditSprint { project_key: String, sprint_id: u64, sprint_name: String },
    StartSprint { project_key: String, sprint_id: u64, sprint_name: String, current_goal: Option<String> },
    CompleteSprint { project_key: String, sprint_id: u64, sprint_name: String },
    DeleteSprint { project_key: String, sprint_id: u64, sprint_name: String },
    ChangeIssueType { key: String, current_project: String },
    MoveIssue { key: String, current_issue_type: String },
}

/// The title of a form.
pub open spec fn title_of(k: ModalKind) -> Seq<char> {
    match k {
        ModalKind::EditIssue { key } => " Edit "@ + key@ + " "@,
        ModalKind::AddComment { key } => " Comment on "@ + key@ + " "@,
        ModalKind::BulkComment => " Bulk Comment "@,
        ModalKind::UploadAttachment { key } => " Attach to "@ + key@ + " "@,
        ModalKind::AddWorklog { key } => " Log Work on "@ + key@ + " "@,
        ModalKind::AddBulkWorklog { key } => " Bulk Worklog on "@ + key@ + " "@,
        ModalKind::CreateProjectVersion { project_key } => " New Version: "@ + project_key@ + " "@,
        ModalKind::EditProjectVersion { project_key, version_name, .. } => " Edit Version: "@ + project_key@
            + " / "@ + version_name@ + " "@,
        ModalKind::CreateSprint { project_key } => " New Sprint: "@ + project_key@ + " "@,
        ModalKind::EditSprint { project_key, sprint_name, .. } => " Edit Sprint: "@ + project_key@ + " / "@
            + sprint_name@ + " "@,
        ModalKind::StartSprint { project_key, sprint_name, .. } => " Start Sprint: "@ + project_key@ + " / "@
            + sprint_name@ + " "@,
        ModalKind::CompleteSprint { project_key, sprint_name, .. } => " Complete Sprint: "@ + project_key@
            + " / "@ + sprint_name@ + " "@,
        ModalKind::DeleteSprint { project_key, sprint_name, .. } => " Delete Sprint: "@ + project_key@
            + " / "@ + sprint_name@ + " "@,
        ModalKind::ChangeIssueType { key, .. } => " Change Type: "@ + key@ + " "@,
        ModalKind::MoveIssue { key, .. } => " Move Issue: "@ + key@ + " "@,
    }
}

/// The key hint of a form.
pub open spec fn hint_of(k: ModalKind) -> Seq<char> {
    match k {
        ModalKind::EditIssue { .. } => " Tab: next field   Ctrl+S: save   Esc: cancel "@,
        ModalKind::AddComment { .. } => " Tab: next field   Ctrl+S: send   Esc: cancel "@,
        ModalKind::BulkComment => " Fill JQL or issue keys   Tab: next field   Ctrl+S: send   Esc: cancel "@,
        ModalKind::UploadAttachment { .. } => " Enter/Ctrl+S: upload   Esc: cancel "@,
        ModalKind::AddWorklog { .. } => " Tab: next field   Ctrl+S: log   Esc: cancel "@,
        ModalKind::AddBulkWorklog { .. } => " Tab: next field   Ctrl+S: log range   Esc: cancel "@,
        ModalKind::CreateProjectVersion { .. } => " Tab: next field   Ctrl+S: create version   Esc: cancel "@,
        ModalKind::EditProjectVersion { .. } => " Tab: next field   Ctrl+S: save version   Esc: cancel "@,
        ModalKind::CreateSprint { .. } => " Tab: next field   Ctrl+S: create sprint   Esc: cancel "@,
        ModalKind::EditSprint { .. } => " Tab: next field   Ctrl+S: save sprint   Esc: cancel "@,
        ModalKind::StartSprint { .. } => " Tab: next field   Ctrl+S: start sprint   Esc: cancel "@,
        ModalKind::CompleteSprint { .. } => " Tab: next field   Ctrl+S: complete sprint   Esc: cancel "@,
        ModalKind::DeleteSprint { .. } => " Type sprint name   Ctrl+S: delete sprint   Esc: cancel "@,
        ModalKind::ChangeIssueType { .. } => " Tab: next field   Ctrl+S: change type   Esc: cancel "@,
        ModalKind::MoveIssue { .. } => " Tab: next field   Ctrl+S: move issue   Esc: cancel "@,
    }
}

fn framed(a: &str, b: &str) -> (r: String)
    ensures
        r@ == a@ + b@ + " "@,
{
    let mut s = String::new();
    push_str(&mut s, a);
    push_str(&mut s, b);
    push_str(&mut s, " ");
    s
}

fn framed2(a: &str, b: &str, c: &str) -> (r: String)
    ensures
        r@ == a@ + b@ + " / "@ + c@ + " "@,
{
    let mut s = String::new();
    push_str(&mut s, a);
    push_str(&mut s, b);
    push_str(&mut s, " / ");
    push_str(&mut s, c);
    push_str(&mut s, " ");
    s
}

impl ModalKind {
    /// The title of the form.
    pub fn title(&self) -> (r: String)
        ensures
            r@ == title_of(*self),
    {
        match self {
            ModalKind::EditIssue { key } => framed(" Edit ", key.as_str()),
            ModalKind::AddComment { key } => framed(" Comment on ", key.as_str()),
            ModalKind::BulkComment => {
                let mut s = String::new();
                push_str(&mut s, " Bulk Comment ");
                s
            },
            ModalKind::UploadAttachment { key } => framed(" Attach to ", key.as_str()),
            ModalKind::AddWorklog { key } => framed(" Log Work on ", key.as_str()),
            ModalKind::AddBulkWorklog { key } => framed(" Bulk Worklog on ", key.as_str()),
            ModalKind::CreateProjectVersion { project_key } => framed(" New Version: ", project_key.as_str()),
            ModalKind::EditProjectVersion { project_key, version_name, .. } => framed2(
                " Edit Version: ",
                project_key.as_str(),
                version_name.as_str(),
            ),
            ModalKind::CreateSprint { project_key } => framed(" New Sprint: ", project_key.as_str()),
            ModalKind::EditSprint { project_key, sprint_name, .. } => framed2(
                " Edit Sprint: ",
                project_key.as_str(),
                sprint_name.as_str(),
            ),
            ModalKind::StartSprint { project_key, sprint_name, .. } => framed2(
                " Start Sprint: ",
                project_key.as_str(),
                sprint_name.as_str(),
            ),
            ModalKind::CompleteSprint { project_key, sprint_name, .. } => framed2(
                " Complete Sprint: ",
                project_key.as_str(),
                sprint_name.as_str(),
            ),
            ModalKind::DeleteSprint { project_key, sprint_name, .. } => framed2(
                " Delete Sprint: ",
                project_key.as_str(),
                sprint_name.as_str(),
            ),
            ModalKind::ChangeIssueType { key, .. } => framed(" Change Type: ", key.as_str()),
            ModalKind::MoveIssue { key, .. } => framed(" Move Issue: ", key.as_str()),
        }
    }

    /// The key hint of the form.
    pub fn hint(&self) -> (r: &'static str)
        ensures
            r@ == hint_of(*self),
    {
        match self {
            ModalKind::EditIssue { .. } => " Tab: next field   Ctrl+S: save   Esc: cancel ",
            ModalKind::AddComment { .. } => " Tab: next field   Ctrl+S: send   Esc: cancel ",
            ModalKind::BulkComment => " Fill JQL or issue keys   Tab: next field   Ctrl+S: send   Esc: cancel ",
            ModalKind::UploadAttachment { .. } => " Enter/Ctrl+S: upload   Esc: cancel ",
            ModalKind::AddWorklog { .. } => " Tab: next field   Ctrl+S: log   Esc: cancel ",
            ModalKind::AddBulkWorklog { .. } => " Tab: next field   Ctrl+S: log range   Esc: cancel ",
            ModalKind::CreateProjectVersion { .. } => " Tab: next field   Ctrl+S: create version   Esc: cancel ",
            ModalKind::EditProjectVersion { .. } => " Tab: next field   Ctrl+S: save version   Esc: cancel ",
            ModalKind::CreateSprint { .. } => " Tab: next field   Ctrl+S: create sprint   Esc: cancel ",
            ModalKind::EditSprint { .. } => " Tab: next field   Ctrl+S: save sprint   Esc: cancel ",
            ModalKind::StartSprint { .. } => " Tab: next field   Ctrl+S: start sprint   Esc: cancel ",
            ModalKind::CompleteSprint { .. } => " Tab: next field   Ctrl+S: complete sprint   Esc: cancel ",
            ModalKind::DeleteSprint { .. } => " Type sprint name   Ctrl+S: delete sprint   Esc: cancel ",
            ModalKind::ChangeIssueType { .. } => " Tab: next field   Ctrl+S: change type   Esc: cancel ",
            ModalKind::MoveIssue { .. } => " Tab: next field   Ctrl+S: move issue   Esc: cancel ",
        }
    }

    /// Whether `@` opens the mention picker in this form.
    pub fn takes_mentions(&self) -> (r: bool)
        ensures
            r == (*self is AddComment || *self is BulkComment),
    {
        match self {
            ModalKind::AddComment { .. } => true,
            ModalKind::BulkComment => true,
            _ => false,
        }
    }
}

/// A key as the TUI reads it.
#[derive(Clone, Copy, Debug, PartialEq, Eq, Structural)]
pub enum Key {
    Char(char),
    Esc,
    Enter,
    Tab,
    BackTab,
    Backspace,
    Delete,
    Left,
    Right,
    Up,
    Down,
    Home,
    End,
    PageUp,
    PageDown,
    F(u8),
    /// Any other key.
    Other,
}

/// A choice of a picker: the value used and the label shown.
pub struct PickerOption {
    pub value: String,
    pub label: String,
}

/// A field of a form.
pub struct ModalField {
    pub label: String,
    /// Whether Enter starts a new line rather than submitting.
    pub multiline: bool,
    /// The hint shown while the field is empty.
    pub placeholder: Option<String>,
    /// The lines the field starts with; while the form is open, the field's
    /// text lives in the caller's text area.
    pub initial: Vec<String>,
}

/// A modal form.
pub struct Modal {
    pub kind: ModalKind,
    pub fields: Vec<ModalField>,
    pub focus: usize,
    pub error: Option<String>,
    pub notice: Option<String>,
    pub confirm_token: Option<String>,
    pub busy: bool,
    pub mention_active: bool,
    pub mention_query: String,
    pub mention_options: Vec<PickerOption>,
    pub mention_state: ListState,
    /// Set when the last key went to the focused field's text.
    pub forward_key: bool,
}

/// What a key does to an open form.
#[derive(Clone, Copy, Debug, PartialEq, Eq, Structural)]
pub enum ModalOutcome {
    Cancel,
    Submit,
    Continue,
    MentionQueryChanged,
    MentionSelected(usize),
}

/// The field focused after moving forward, wrapping to the first.
pub open spec fn focus_after_next(focus: usize, count: nat) -> usize {
    if count == 0 {
        focus
    } else {
        ((focus + 1) % (count as int)) as usize
    }
}

/// The field focused after moving back, wrapping to the last.
pub open spec fn focus_after_prev(focus: usize, count: nat) -> usize {
    if count == 0 {
        focus
    } else {
        ((focus + count - 1) % (count as int)) as usize
    }
}

proof fn lemma_next_index(f: int, n: int)
    requires
        0 <= f,
        0 < n,
    ensures
        (f % n) + 1 == n ==> (f + 1) % n == 0,
        (f % n) + 1 < n ==> (f + 1) % n == (f % n) + 1,
        0 <= f % n < n,
{
    vstd::arithmetic::div_mod::lemma_mod_pos_bound(f, n);
    vstd::arithmetic::div_mod::lemma_add_mod_noop(f, 1, n);
    vstd::arithmetic::div_mod::lemma_mod_self_0(n);
    if n > 1 {
        vstd::arithmetic::div_mod::lemma_small_mod(1, n as nat);
        if (f % n) + 1 < n {
            vstd::arithmetic::div_mod::lemma_small_mod(((f % n) + 1) as nat, n as nat);
        }
    } else {
        vstd::arithmetic::div_mod::lemma_mod_self_0(1);
    }
}

proof fn lemma_prev_index(f: int, n: int)
    requires
        0 <= f,
        0 < n,
    ensures
        f % n == 0 ==> (f + n - 1) % n == n - 1,
        f % n > 0 ==> (f + n - 1) % n == (f % n) - 1,
        0 <= f % n < n,
{
    vstd::arithmetic::div_mod::lemma_mod_pos_bound(f, n);
    vstd::arithmetic::div_mod::lemma_add_mod_noop(f, n - 1, n);
    vstd::arithmetic::div_mod::lemma_small_mod((n - 1) as nat, n as nat);
    let r = f % n;
    if r > 0 {
        vstd::arithmetic::div_mod::lemma_mod_add_multiples_vanish(r - 1, n);
        vstd::arithmetic::div_mod::lemma_small_mod((r - 1) as nat, n as nat);
        assert(r + (n - 1) == n + (r - 1));
    } else {
        assert(r + (n - 1) == n - 1);
    }
}

impl Modal {
    /// Moves the focus to the next field, wrapping.
    pub fn next_field(&mut self)
        ensures
            *final(self) == (Modal {
                focus: focus_after_next(old(self).focus, old(self).fields@.len()),
                ..*old(self)
            }),
    {
        let n = self.fields.len();
        if n == 0 {
            return;
        }
        let r = self.focus % n;
        proof {
            lemma_next_index(self.focus as int, n as int);
        }
        self.focus = if r + 1 == n {
            0
        } else {
            r + 1
        };
    }

    /// Moves the focus to the previous field, wrapping.
    pub fn prev_field(&mut self)
        ensures
            *final(self) == (Modal {
                focus: focus_after_prev(old(self).focus, old(self).fields@.len()),
                ..*old(self)
            }),
    {
        let n = self.fields.len();
        if n == 0 {
            return;
        }
        let r = self.focus % n;
        proof {
            lemma_prev_index(self.focus as int, n as int);
        }
        self.focus = if r == 0 {
            n - 1
        } else {
            r - 1
        };
    }

    /// Shows an error; clears any notice and pending confirmation and the busy flag.
    pub fn set_error(&mut self, msg: String)
        ensures
            *final(self) == (Modal {
                error: Some(msg),
                notice: None,
                confirm_token: None,
                busy: false,
                ..*old(self)
            }),
    {
        self.error = Some(msg);
        self.notice = None;
        self.confirm_token = None;
        self.busy = false;
    }

    /// Shows a notice, with the confirmation it waits for if any; clears any
    /// error and the busy flag.
    pub fn set_notice(&mut self, msg: String, token: Option<String>)
        ensures
            *final(self) == (Modal {
                notice: Some(msg),
                error: None,
                confirm_token: token,
                busy: false,
                ..*old(self)
            }),
    {
        self.notice = Some(msg);
        self.error = None;
        self.confirm_token = token;
        self.busy = false;
    }

    /// Clears the notice and the pending confirmation.
    pub fn clear_notice(&mut self)
        ensures
            *final(self) == (Modal { notice: None, confirm_token: None, ..*old(self) }),
    {
        self.notice = None;
        self.confirm_token = None;
    }
}

/// Moving forward then back through the fields returns to the same field.
pub proof fn law_focus_next_prev(focus: usize, count: nat)
    requires
        focus < count,
        count <= usize::MAX,
    ensures
        focus_after_prev(focus_after_next(focus, count), count) == focus,
{
    let n = count as int;
    let f = focus as int;
    lemma_next_index(f, n);
    vstd::arithmetic::div_mod::lemma_small_mod(focus as nat, count);
    let g = (f + 1) % n;
    lemma_prev_index(g, n);
    vstd::arithmetic::div_mod::lemma_small_mod(g as nat, count);
}

/// A key press: the key, and whether Control was held with no other modifier.
#[derive(Clone, Copy, Debug, PartialEq, Eq, Structural)]
pub struct KeyPress {
    pub code: Key,
    pub control: bool,
}

/// Whether the focused field takes several lines.
pub open spec fn focused_multiline(m: Modal) -> bool {
    m.focus < m.fields@.len() && m.fields@[m.focus as int].multiline
}

/// The mention query after a backspace: its last character dropped, if any.
pub open spec fn query_after_backspace(q: Seq<char>) -> Seq<char> {
    if q.len() > 0 {
        q.drop_last()
    } else {
        q
    }
}

/// What a key returns while the mention picker is open.
pub open spec fn mention_outcome(m: Modal, code: Key) -> ModalOutcome {
    match code {
        Key::Backspace => ModalOutcome::MentionQueryChanged,
        Key::Char(_) => ModalOutcome::MentionQueryChanged,
        Key::Enter => match m.mention_state.selection() {
            Some(i) => if i < m.mention_options@.len() {
                ModalOutcome::MentionSelected(i)
            } else {
                ModalOutcome::Continue
            },
            None => ModalOutcome::Continue,
        },
        _ => ModalOutcome::Continue,
    }
}

/// What a key does to the form while the mention picker is open.
pub open spec fn mention_effect(m: Modal, code: Key, r: Modal) -> bool {
    match code {
        Key::Esc => {
            &&& r == (Modal {
                mention_active: false,
                mention_query: r.mention_query,
                mention_options: r.mention_options,
                mention_state: r.mention_state,
                forward_key: false,
                ..m
            })
            &&& r.mention_query@ == Seq::<char>::empty()
            &&& r.mention_options@.len() == 0
            &&& r.mention_state.selection() is None
        },
        Key::Down => {
            &&& r == (Modal { mention_state: r.mention_state, forward_key: false, ..m })
            &&& r.mention_state.selection() == Some(
                nav_down(m.mention_state.selection(), m.mention_options@.len()),
            )
        },
        Key::Up => {
            &&& r == (Modal { mention_state: r.mention_state, forward_key: false, ..m })
            &&& r.mention_state.selection() == Some(nav_up(m.mention_state.selection()))
        },
        Key::Backspace => {
            &&& r == (Modal { mention_query: r.mention_query, forward_key: false, ..m })
            &&& r.mention_query@ == query_after_backspace(m.mention_query@)
        },
        Key::Char(c) => {
            &&& r == (Modal { mention_query: r.mention_query, forward_key: false, ..m })
            &&& r.mention_query@ == m.mention_query@.push(c)
        },
        _ => r == (Modal { forward_key: false, ..m }),
    }
}

/// What a key returns to an open form.
pub open spec fn modal_outcome(m: Modal, key: KeyPress) -> ModalOutcome {
    if m.busy {
        ModalOutcome::Continue
    } else if m.mention_active {
        mention_outcome(m, key.code)
    } else {
        match key.code {
            Key::Char(c) => if c == '@' && (m.kind is AddComment || m.kind is BulkComment) {
                ModalOutcome::MentionQueryChanged
            } else if (c == 's' || c == 'S') && key.control {
                ModalOutcome::Submit
            } else {
                ModalOutcome::Continue
            },
            Key::Esc => ModalOutcome::Cancel,
            Key::Enter => if focused_multiline(m) {
                ModalOutcome::Continue
            } else {
                ModalOutcome::Submit
            },
            _ => ModalOutcome::Continue,
        }
    }
}

/// What a key does to an open form. A key that reaches the focused field's
/// text clears the notice and sets `forward_key`; every other key clears it.
pub open spec fn modal_effect(m: Modal, key: KeyPress, r: Modal) -> bool {
    let forwarded = Modal { notice: None, confirm_token: None, forward_key: true, ..m };
    let untouched = Modal { forward_key: false, ..m };
    if m.busy {
        r == untouched
    } else if m.mention_active {
        mention_effect(m, key.code, r)
    } else {
        match key.code {
            Key::Char(c) => if c == '@' && (m.kind is AddComment || m.kind is BulkComment) {
                &&& r == (Modal {
                    mention_active: true,
                    mention_query: r.mention_query,
                    mention_options: r.mention_options,
                    forward_key: false,
                    ..m
                })
                &&& r.mention_query@ == Seq::<char>::empty()
                &&& r.mention_options@.len() == 0
            } else if (c == 's' || c == 'S') && key.control {
                r == untouched
            } else {
                r == forwarded
            },
            Key::Esc => r == untouched,
            Key::Tab => r == (Modal {
                notice: None,
                confirm_token: None,
                focus: focus_after_next(m.focus, m.fields@.len()),
                forward_key: false,
                ..m
            }),
            Key::BackTab => r == (Modal {
                notice: None,
                confirm_token: None,
                focus: focus_after_prev(m.focus, m.fields@.len()),
                forward_key: false,
                ..m
            }),
            Key::Enter => if focused_multiline(m) {
                r == forwarded
            } else {
                r == untouched
            },
            _ => r == forwarded,
        }
    }
}

fn mention_key(modal: &mut Modal, code: Key) -> (r: ModalOutcome)
    requires
        !old(modal).forward_key,
    ensures
        r == mention_outcome(*old(modal), code),
        mention_effect(*old(modal), code, *final(modal)),
{
    match code {
        Key::Esc => {
            modal.mention_active = false;
            modal.mention_query = String::new();
            modal.mention_options = Vec::new();
            modal.mention_state = ListState::new();
            ModalOutcome::Continue
        },
        Key::Down => {
            let len = modal.mention_options.len();
            picker_nav_down(&mut modal.mention_state, len);
            ModalOutcome::Continue
        },
        Key::Up => {
            picker_nav_up(&mut modal.mention_state);
            ModalOutcome::Continue
        },
        Key::Enter => {
            match modal.mention_state.selected() {
                Some(idx) => if idx < modal.mention_options.len() {
                    ModalOutcome::MentionSelected(idx)
                } else {
                    ModalOutcome::Continue
                },
                None => ModalOutcome::Continue,
            }
        },
        Key::Backspace => {
            let v = chars_of(modal.mention_query.as_str());
            if v.len() > 0 {
                modal.mention_query = string_of_range(&v, 0, v.len() - 1);
                assert(modal.mention_query@ =~= query_after_backspace(old(modal).mention_query@));
            }
            ModalOutcome::MentionQueryChanged
        },
        Key::Char(c) => {
            push_char(&mut modal.mention_query, c);
            ModalOutcome::MentionQueryChanged
        },
        _ => ModalOutcome::Continue,
    }
}

/// Handles a key while a form is open: submit, cancel, move between fields,
/// drive the mention picker, or pass the key on to the focused field.
pub fn handle_modal_key(modal: &mut Modal, key: KeyPress) -> (r: ModalOutcome)
    ensures
        r == modal_outcome(*old(modal), key),
        modal_effect(*old(modal), key, *final(modal)),
{
    modal.forward_key = false;
    if modal.busy {
        return ModalOutcome::Continue;
    }
    if modal.mention_active {
        return mention_key(modal, key.code);
    }
    match key.code {
        Key::Char(c) => {
            if c == '@' && modal.kind.takes_mentions() {
                modal.mention_active = true;
                modal.mention_query = String::new();
                modal.mention_options = Vec::new();
                ModalOutcome::MentionQueryChanged
            } else if (c == 's' || c == 'S') && key.control {
                ModalOutcome::Submit
            } else {
                modal.clear_notice();
                modal.forward_key = true;
                ModalOutcome::Continue
            }
        },
        Key::Esc => ModalOutcome::Cancel,
        Key::Tab => {
            modal.clear_notice();
            modal.next_field();
            ModalOutcome::Continue
        },
        Key::BackTab => {
            modal.clear_notice();
            modal.prev_field();
            ModalOutcome::Continue
        },
        Key::Enter => {
            let multiline = modal.focus < modal.fields.len() && modal.fields[modal.focus].multiline;
            if !multiline {
                return ModalOutcome::Submit;
            }
            modal.clear_notice();
            modal.forward_key = true;
            ModalOutcome::Continue
        },
        _ => {
            modal.clear_notice();
            modal.forward_key = true;
            ModalOutcome::Continue
        },
    }
}

/// A field as the contracts see it: label, whether it takes several lines,
/// placeholder and starting lines.
pub open spec fn field_view(f: ModalField) -> (Seq<char>, bool, Option<Seq<char>>, Seq<Seq<char>>) {
    (
        f.label@,
        f.multiline,
        match f.placeholder {
            Some(p) => Some(p@),
            None => None,
        },
        views(f.initial@),
    )
}

/// The fields of a form as the contracts see them.
pub open spec fn field_views(fs: Seq<ModalField>) -> Seq<(Seq<char>, bool, Option<Seq<char>>, Seq<Seq<char>>)> {
    fs.map_values(|f: ModalField| field_view(f))
}

/// A form of kind `kind` just opened: first field focused, no message, idle,
/// mention picker closed.
pub open spec fn fresh_form(m: Modal, kind: ModalKind) -> bool {
    &&& m.kind == kind
    &&& m.focus == 0
    &&& m.error is None
    &&& m.notice is None
    &&& m.confirm_token is None
    &&& !m.busy
    &&& !m.mention_active
    &&& m.mention_query@ == Seq::<char>::empty()
    &&& m.mention_options@.len() == 0
    &&& m.mention_state.selection() is None
    &&& !m.forward_key
}

/// A field view with one starting line.
pub open spec fn fv(label: Seq<char>, multiline: bool, placeholder: Option<Seq<char>>, line: Seq<char>) -> (
    Seq<char>,
    bool,
    Option<Seq<char>>,
    Seq<Seq<char>>,
) {
    (label, multiline, placeholder, seq![line])
}

/// The text of an optional string, empty when absent.
pub open spec fn or_empty(o: Option<String>) -> Seq<char> {
    match o {
        Some(s) => s@,
        None => Seq::empty(),
    }
}

/// The first ten characters of an optional date, empty when absent.
pub open spec fn date_prefix(o: Option<String>) -> Seq<char> {
    match o {
        Some(s) => if s@.len() <= 10 {
            s@
        } else {
            s@.take(10)
        },
        None => Seq::empty(),
    }
}

/// `y` for true, `n` for false.
pub open spec fn yes_no(b: bool) -> Seq<char> {
    if b {
        "y"@
    } else {
        "n"@
    }
}

fn text_of(s: &str) -> (r: String)
    ensures
        r@ == s@,
{
    let mut t = String::new();
    push_str(&mut t, s);
    t
}

fn field(label: &str, multiline: bool, placeholder: Option<&str>, line: String) -> (r: ModalField)
    ensures
        field_view(r) == fv(
            label@,
            multiline,
            match placeholder {
                Some(p) => Some(p@),
                None => None,
            },
            line@,
        ),
{
    let initial = vec![line];
    assert(views(initial@) =~= seq![line@]);
    ModalField {
        label: text_of(label),
        multiline,
        placeholder: match placeholder {
            Some(p) => Some(text_of(p)),
            None => None,
        },
        initial,
    }
}

fn form(kind: ModalKind, fields: Vec<ModalField>) -> (r: Modal)
    ensures
        fresh_form(r, kind),
        r.fields == fields,
{
    Modal {
        kind,
        fields,
        focus: 0,
        error: None,
        notice: None,
        confirm_token: None,
        busy: false,
        mention_active: false,
        mention_query: String::new(),
        mention_options: Vec::new(),
        mention_state: ListState::new(),
        forward_key: false,
    }
}

fn owned_or_empty(o: &Option<String>) -> (r: String)
    ensures
        r@ == or_empty(*o),
{
    match o {
        Some(s) => text_of(s.as_str()),
        None => String::new(),
    }
}

fn date_or_empty(o: &Option<String>) -> (r: String)
    ensures
        r@ == date_prefix(*o),
{
    match o {
        Some(s) => {
            let v = chars_of(s.as_str());
            if v.len() <= 10 {
                text_of(s.as_str())
            } else {
                let r = string_of_range(&v, 0, 10);
                assert(r@ =~= s@.take(10));
                r
            }
        },
        None => String::new(),
    }
}

fn yn(b: bool) -> (r: String)
    ensures
        r@ == yes_no(b),
{
    if b {
        text_of("y")
    } else {
        text_of("n")
    }
}

impl Modal {
    /// The form that edits an issue's summary and description; the
    /// description starts split into its lines.
    pub fn edit_issue(key: String, summary: String, description: String) -> (r: Modal)
        ensures
            fresh_form(r, ModalKind::EditIssue { key }),
            field_views(r.fields@) == seq![
                fv("Summary"@, false, None, summary@),
                ("Description (markdown)"@, true, None, split_on(description@, |c: char| c == '\n')),
            ],
    {
        let lines = split_chars(&chars_of(description.as_str()), &Separator::Char('\n'));
        let desc = ModalField { label: text_of("Description (markdown)"), multiline: true, placeholder: None, initial: lines };
        let fields = vec![field("Summary", false, None, summary), desc];
        let r = form(ModalKind::EditIssue { key }, fields);
        assert(field_views(r.fields@) =~= seq![
            fv("Summary"@, false, None, summary@),
            ("Description (markdown)"@, true, None, split_on(description@, |c: char| c == '\n')),
        ]);
        r
    }

    /// The form that comments on an issue, with an optional attachment.
    pub fn add_comment(key: String) -> (r: Modal)
        ensures
            fresh_form(r, ModalKind::AddComment { key }),
            field_views(r.fields@) == seq![
                fv("Comment"@, true, None, Seq::empty()),
                fv("Attachment path  (optional)"@, false, Some("optional path, e.g. ./screenshot.png"@), Seq::empty()),
            ],
    {
        let fields = vec![
            field("Comment", true, None, String::new()),
            field("Attachment path  (optional)", false, Some("optional path, e.g. ./screenshot.png"), String::new()),
        ];
        let r = form(ModalKind::AddComment { key }, fields);
        assert(field_views(r.fields@) =~= seq![
            fv("Comment"@, true, None, Seq::empty()),
            fv("Attachment path  (optional)"@, false, Some("optional path, e.g. ./screenshot.png"@), Seq::empty()),
        ]);
        r
    }

    /// The form that adds one comment to many issues, starting from `jql`.
    pub fn bulk_comment(jql: String) -> (r: Modal)
        ensures
            fresh_form(r, ModalKind::BulkComment),
            field_views(r.fields@) == seq![
                fv(
                    "JQL  (leave as current filter, or clear when using keys)"@,
                    true,
                    Some("use current filter or replace with custom JQL"@),
                    jql@,
                ),
                fv(
                    "Issue keys  (optional, comma / space / newline separated)"@,
                    true,
                    Some("optional: PROJ-1, PROJ-2 or one per line"@),
                    Seq::empty(),
                ),
                fv("Comment"@, true, Some("required markdown comment"@), Seq::empty()),
            ],
    {
        let fields = vec![
            field(
                "JQL  (leave as current filter, or clear when using keys)",
                true,
                Some("use current filter or replace with custom JQL"),
                jql,
            ),
            field(
                "Issue keys  (optional, comma / space / newline separated)",
                true,
                Some("optional: PROJ-1, PROJ-2 or one per line"),
                String::new(),
            ),
            field("Comment", true, Some("required markdown comment"), String::new()),
        ];
        let r = form(ModalKind::BulkComment, fields);
        assert(field_views(r.fields@) =~= seq![
            fv(
                "JQL  (leave as current filter, or clear when using keys)"@,
                true,
                Some("use current filter or replace with custom JQL"@),
                jql@,
            ),
            fv(
                "Issue keys  (optional, comma / space / newline separated)"@,
                true,
                Some("optional: PROJ-1, PROJ-2 or one per line"@),
                Seq::empty(),
            ),
            fv("Comment"@, true, Some("required markdown comment"@), Seq::empty()),
        ]);
        r
    }

    /// The form that uploads a file to an issue.
    pub fn upload_attachment(key: String) -> (r: Modal)
        ensures
            fresh_form(r, ModalKind::UploadAttachment { key }),
            field_views(r.fields@) == seq![fv("File path"@, false, None, Seq::empty())],
    {
        let fields = vec![field("File path", false, None, String::new())];
        let r = form(ModalKind::UploadAttachment { key }, fields);
        assert(field_views(r.fields@) =~= seq![fv("File path"@, false, None, Seq::empty())]);
        r
    }

    /// The form that logs work on an issue.
    pub fn add_worklog(key: String) -> (r: Modal)
        ensures
            fresh_form(r, ModalKind::AddWorklog { key }),
            field_views(r.fields@) == seq![
                fv("Time spent  (e.g. 2h, 30m, 1d, 1h 30m)"@, false, Some("required"@), Seq::empty()),
                fv("Date  (YYYY-MM-DD, blank = today)"@, false, Some("blank = today"@), Seq::empty()),
                fv("Start time  (HH:MM, blank = now)"@, false, Some("blank = now"@), Seq::empty()),
                fv("Comment  (optional)"@, true, Some(""@), Seq::empty()),
            ],
    {
        let fields = vec![
            field("Time spent  (e.g. 2h, 30m, 1d, 1h 30m)", false, Some("required"), String::new()),
            field("Date  (YYYY-MM-DD, blank = today)", false, Some("blank = today"), String::new()),
            field("Start time  (HH:MM, blank = now)", false, Some("blank = now"), String::new()),
            field("Comment  (optional)", true, Some(""), String::new()),
        ];
        let r = form(ModalKind::AddWorklog { key }, fields);
        assert(field_views(r.fields@) =~= seq![
            fv("Time spent  (e.g. 2h, 30m, 1d, 1h 30m)"@, false, Some("required"@), Seq::empty()),
            fv("Date  (YYYY-MM-DD, blank = today)"@, false, Some("blank = today"@), Seq::empty()),
            fv("Start time  (HH:MM, blank = now)"@, false, Some("blank = now"@), Seq::empty()),
            fv("Comment  (optional)"@, true, Some(""@), Seq::empty()),
        ]);
        r
    }

    /// The form that logs the same work on each day of a range.
    pub fn add_bulk_worklog(key: String) -> (r: Modal)
        ensures
            fresh_form(r, ModalKind::AddBulkWorklog { key }),
            field_views(r.fields@) == seq![
                fv("Time spent  (e.g. 2h, 30m, 1d, 1h 30m)"@, false, Some("required"@), Seq::empty()),
                fv("From date  (YYYY-MM-DD)"@, false, Some("required"@), Seq::empty()),
                fv("To date  (YYYY-MM-DD)"@, false, Some("required"@), Seq::empty()),
                fv("Start time  (HH:MM, optional)"@, false, Some("blank = now"@), Seq::empty()),
                fv("Exclude weekends  (y/N)"@, false, Some("n"@), Seq::empty()),
                fv("Comment  (optional)"@, true, Some(""@), Seq::empty()),
            ],
    {
        let fields = vec![
            field("Time spent  (e.g. 2h, 30m, 1d, 1h 30m)", false, Some("required"), String::new()),
            field("From date  (YYYY-MM-DD)", false, Some("required"), String::new()),
            field("To date  (YYYY-MM-DD)", false, Some("required"), String::new()),
            field("Start time  (HH:MM, optional)", false, Some("blank = now"), String::new()),
            field("Exclude weekends  (y/N)", false, Some("n"), String::new()),
            field("Comment  (optional)", true, Some(""), String::new()),
        ];
        let r = form(ModalKind::AddBulkWorklog { key }, fields);
        assert(field_views(r.fields@) =~= seq![
            fv("Time spent  (e.g. 2h, 30m, 1d, 1h 30m)"@, false, Some("required"@), Seq::empty()),
            fv("From date  (YYYY-MM-DD)"@, false, Some("required"@), Seq::empty()),
            fv("To date  (YYYY-MM-DD)"@, false, Some("required"@), Seq::empty()),
            fv("Start time  (HH:MM, optional)"@, false, Some("blank = now"@), Seq::empty()),
            fv("Exclude weekends  (y/N)"@, false, Some("n"@), Seq::empty()),
            fv("Comment  (optional)"@, true, Some(""@), Seq::empty()),
        ]);
        r
    }
}

impl Modal {
    /// The form that creates a fix version of a project.
    pub fn create_project_version(project_key: String) -> (r: Modal)
        ensures
            fresh_form(r, ModalKind::CreateProjectVersion { project_key }),
            field_views(r.fields@) == seq![
                fv("Name"@, false, Some("v1.2.0"@), Seq::empty()),
                fv("Description  (optional)"@, true, Some("optional"@), Seq::empty()),
                fv("Start date  (YYYY-MM-DD)"@, false, Some("optional YYYY-MM-DD"@), Seq::empty()),
                fv("Release date  (YYYY-MM-DD)"@, false, Some("optional YYYY-MM-DD"@), Seq::empty()),
                fv("Released  (y/N)"@, false, Some("y / n"@), "n"@),
                fv("Archived  (y/N)"@, false, Some("y / n"@), "n"@),
            ],
    {
        let fields = vec![
            field("Name", false, Some("v1.2.0"), String::new()),
            field("Description  (optional)", true, Some("optional"), String::new()),
            field("Start date  (YYYY-MM-DD)", false, Some("optional YYYY-MM-DD"), String::new()),
            field("Release date  (YYYY-MM-DD)", false, Some("optional YYYY-MM-DD"), String::new()),
            field("Released  (y/N)", false, Some("y / n"), text_of("n")),
            field("Archived  (y/N)", false, Some("y / n"), text_of("n")),
        ];
        let r = form(ModalKind::CreateProjectVersion { project_key }, fields);
        assert(field_views(r.fields@) =~= seq![
            fv("Name"@, false, Some("v1.2.0"@), Seq::empty()),
            fv("Description  (optional)"@, true, Some("optional"@), Seq::empty()),
            fv("Start date  (YYYY-MM-DD)"@, false, Some("optional YYYY-MM-DD"@), Seq::empty()),
            fv("Release date  (YYYY-MM-DD)"@, false, Some("optional YYYY-MM-DD"@), Seq::empty()),
            fv("Released  (y/N)"@, false, Some("y / n"@), "n"@),
            fv("Archived  (y/N)"@, false, Some("y / n"@), "n"@),
        ]);
        r
    }

    /// The form that edits a fix version, filled with its current values.
    pub fn edit_project_version(project_key: String, version: ProjectVersion) -> (r: Modal)
        ensures
            fresh_form(
                r,
                ModalKind::EditProjectVersion {
                    project_key,
                    version_id: version.id,
                    version_name: version.name,
                },
            ),
            field_views(r.fields@) == seq![
                fv("Name"@, false, None, version.name@),
                fv("Description  (blank = clear)"@, true, Some("blank = clear"@), or_empty(version.description)),
                fv(
                    "Start date  (YYYY-MM-DD, blank = clear)"@,
                    false,
                    Some("blank = clear"@),
                    or_empty(version.start_date),
                ),
                fv(
                    "Release date  (YYYY-MM-DD, blank = clear)"@,
                    false,
                    Some("blank = clear"@),
                    or_empty(version.release_date),
                ),
                fv("Released  (y/N)"@, false, Some("y / n"@), yes_no(version.released)),
                fv("Archived  (y/N)"@, false, Some("y / n"@), yes_no(version.archived)),
            ],
    {
        let ghost v = version;
        let fields = vec![
            field("Name", false, None, text_of(version.name.as_str())),
            field("Description  (blank = clear)", true, Some("blank = clear"), owned_or_empty(&version.description)),
            field(
                "Start date  (YYYY-MM-DD, blank = clear)",
                false,
                Some("blank = clear"),
                owned_or_empty(&version.start_date),
            ),
            field(
                "Release date  (YYYY-MM-DD, blank = clear)",
                false,
                Some("blank = clear"),
                owned_or_empty(&version.release_date),
            ),
            field("Released  (y/N)", false, Some("y / n"), yn(version.released)),
            field("Archived  (y/N)", false, Some("y / n"), yn(version.archived)),
        ];
        let r = form(
            ModalKind::EditProjectVersion { project_key, version_id: version.id, version_name: version.name },
            fields,
        );
        assert(field_views(r.fields@) =~= seq![
            fv("Name"@, false, None, v.name@),
            fv("Description  (blank = clear)"@, true, Some("blank = clear"@), or_empty(v.description)),
            fv("Start date  (YYYY-MM-DD, blank = clear)"@, false, Some("blank = clear"@), or_empty(v.start_date)),
            fv(
                "Release date  (YYYY-MM-DD, blank = clear)"@,
                false,
                Some("blank = clear"@),
                or_empty(v.release_date),
            ),
            fv("Released  (y/N)"@, false, Some("y / n"@), yes_no(v.released)),
            fv("Archived  (y/N)"@, false, Some("y / n"@), yes_no(v.archived)),
        ]);
        r
    }

    /// The form that creates a sprint in a project.
    pub fn create_sprint(project_key: String) -> (r: Modal)
        ensures
            fresh_form(r, ModalKind::CreateSprint { project_key }),
            field_views(r.fields@) == seq![
                fv("Board id  (optional)"@, false, Some("optional if project has one scrum board"@), Seq::empty()),
                fv("Name"@, false, Some("Sprint 24"@), Seq::empty()),
                fv("Goal  (optional)"@, true, Some("optional"@), Seq::empty()),
                fv("Start date  (YYYY-MM-DD)"@, false, Some("optional YYYY-MM-DD"@), Seq::empty()),
                fv("End date  (YYYY-MM-DD)"@, false, Some("optional YYYY-MM-DD"@), Seq::empty()),
            ],
    {
        let fields = vec![
            field("Board id  (optional)", false, Some("optional if project has one scrum board"), String::new()),
            field("Name", false, Some("Sprint 24"), String::new()),
            field("Goal  (optional)", true, Some("optional"), String::new()),
            field("Start date  (YYYY-MM-DD)", false, Some("optional YYYY-MM-DD"), String::new()),
            field("End date  (YYYY-MM-DD)", false, Some("optional YYYY-MM-DD"), String::new()),
        ];
        let r = form(ModalKind::CreateSprint { project_key }, fields);
        assert(field_views(r.fields@) =~= seq![
            fv("Board id  (optional)"@, false, Some("optional if project has one scrum board"@), Seq::empty()),
            fv("Name"@, false, Some("Sprint 24"@), Seq::empty()),
            fv("Goal  (optional)"@, true, Some("optional"@), Seq::empty()),
            fv("Start date  (YYYY-MM-DD)"@, false, Some("optional YYYY-MM-DD"@), Seq::empty()),
            fv("End date  (YYYY-MM-DD)"@, false, Some("optional YYYY-MM-DD"@), Seq::empty()),
        ]);
        r
    }

    /// The form that edits a sprint, filled with its current values (dates
    /// cut to their first ten characters).
    pub fn edit_sprint(project_key: String, sprint: Sprint) -> (r: Modal)
        ensures
            fresh_form(r, ModalKind::EditSprint { project_key, sprint_id: sprint.id, sprint_name: sprint.name }),
            field_views(r.fields@) == seq![
                fv("Name"@, false, None, sprint.name@),
                fv("Goal  (blank = clear)"@, true, Some("blank = clear"@), or_empty(sprint.goal)),
                fv(
                    "Start date  (YYYY-MM-DD, blank = clear)"@,
                    false,
                    Some("blank = clear"@),
                    date_prefix(sprint.start_date),
                ),
                fv(
                    "End date  (YYYY-MM-DD, blank = clear)"@,
                    false,
                    Some("blank = clear"@),
                    date_prefix(sprint.end_date),
                ),
            ],
    {
        let ghost sp = sprint;
        let fields = vec![
            field("Name", false, None, text_of(sprint.name.as_str())),
            field("Goal  (blank = clear)", true, Some("blank = clear"), owned_or_empty(&sprint.goal)),
            field(
                "Start date  (YYYY-MM-DD, blank = clear)",
                false,
                Some("blank = clear"),
                date_or_empty(&sprint.start_date),
            ),
            field("End date  (YYYY-MM-DD, blank = clear)", false, Some("blank = clear"), date_or_empty(&sprint.end_date)),
        ];
        let r = form(ModalKind::EditSprint { project_key, sprint_id: sprint.id, sprint_name: sprint.name }, fields);
        assert(field_views(r.fields@) =~= seq![
            fv("Name"@, false, None, sp.name@),
            fv("Goal  (blank = clear)"@, true, Some("blank = clear"@), or_empty(sp.goal)),
            fv("Start date  (YYYY-MM-DD, blank = clear)"@, false, Some("blank = clear"@), date_prefix(sp.start_date)),
            fv("End date  (YYYY-MM-DD, blank = clear)"@, false, Some("blank = clear"@), date_prefix(sp.end_date)),
        ]);
        r
    }

    /// The form that starts a sprint: its goal, a start date (blank for
    /// today) and its end date.
    pub fn start_sprint(project_key: String, sprint: Sprint) -> (r: Modal)
        ensures
            fresh_form(
                r,
                ModalKind::StartSprint {
                    project_key,
                    sprint_id: sprint.id,
                    sprint_name: sprint.name,
                    current_goal: sprint.goal,
                },
            ),
            field_views(r.fields@) == seq![
                fv("Goal  (optional)"@, true, Some("optional"@), or_empty(sprint.goal)),
                fv("Start date  (blank = today)"@, false, Some("default: today (YYYY-MM-DD)"@), Seq::empty()),
                fv("End date  (YYYY-MM-DD)"@, false, Some("required YYYY-MM-DD"@), date_prefix(sprint.end_date)),
            ],
    {
        let ghost sp = sprint;
        let fields = vec![
            field("Goal  (optional)", true, Some("optional"), owned_or_empty(&sprint.goal)),
            field("Start date  (blank = today)", false, Some("default: today (YYYY-MM-DD)"), String::new()),
            field("End date  (YYYY-MM-DD)", false, Some("required YYYY-MM-DD"), date_or_empty(&sprint.end_date)),
        ];
        let r = form(
            ModalKind::StartSprint {
                project_key,
                sprint_id: sprint.id,
                sprint_name: sprint.name,
                current_goal: sprint.goal,
            },
            fields,
        );
        assert(field_views(r.fields@) =~= seq![
            fv("Goal  (optional)"@, true, Some("optional"@), or_empty(sp.goal)),
            fv("Start date  (blank = today)"@, false, Some("default: today (YYYY-MM-DD)"@), Seq::empty()),
            fv("End date  (YYYY-MM-DD)"@, false, Some("required YYYY-MM-DD"@), date_prefix(sp.end_date)),
        ]);
        r
    }

    /// The form that completes a sprint: the completion date (blank for
    /// today) and its end date.
    pub fn complete_sprint(project_key: String, sprint: Sprint) -> (r: Modal)
        ensures
            fresh_form(r, ModalKind::CompleteSprint { project_key, sprint_id: sprint.id, sprint_name: sprint.name }),
            field_views(r.fields@) == seq![
                fv("Complete date  (blank = today)"@, false, Some("default: today (YYYY-MM-DD)"@), Seq::empty()),
                fv(
                    "End date  (blank = complete date)"@,
                    false,
                    Some("blank = use complete date"@),
                    date_prefix(sprint.end_date),
                ),
            ],
    {
        let ghost sp = sprint;
        let fields = vec![
            field("Complete date  (blank = today)", false, Some("default: today (YYYY-MM-DD)"), String::new()),
            field(
                "End date  (blank = complete date)",
                false,
                Some("blank = use complete date"),
                date_or_empty(&sprint.end_date),
            ),
        ];
        let r = form(
            ModalKind::CompleteSprint { project_key, sprint_id: sprint.id, sprint_name: sprint.name },
            fields,
        );
        assert(field_views(r.fields@) =~= seq![
            fv("Complete date  (blank = today)"@, false, Some("default: today (YYYY-MM-DD)"@), Seq::empty()),
            fv("End date  (blank = complete date)"@, false, Some("blank = use complete date"@), date_prefix(sp.end_date)),
        ]);
        r
    }

    /// The form that deletes a sprint once its name is typed.
    pub fn delete_sprint(project_key: String, sprint: Sprint) -> (r: Modal)
        ensures
            fresh_form(r, ModalKind::DeleteSprint { project_key, sprint_id: sprint.id, sprint_name: sprint.name }),
            field_views(r.fields@) == seq![
                fv("Type the sprint name to confirm delete"@, false, Some(sprint.name@), Seq::empty()),
            ],
    {
        let ghost sp = sprint;
        let fields = vec![
            field("Type the sprint name to confirm delete", false, Some(sprint.name.as_str()), String::new()),
        ];
        let r = form(
            ModalKind::DeleteSprint { project_key, sprint_id: sprint.id, sprint_name: sprint.name },
            fields,
        );
        assert(field_views(r.fields@) =~= seq![
            fv("Type the sprint name to confirm delete"@, false, Some(sp.name@), Seq::empty()),
        ]);
        r
    }

    /// The form that changes an issue's type, starting from the current one.
    pub fn change_issue_type(key: String, current_project: String, current_issue_type: String) -> (r: Modal)
        ensures
            fresh_form(r, ModalKind::ChangeIssueType { key, current_project }),
            field_views(r.fields@) == seq![
                fv(
                    "Target issue type name"@,
                    false,
                    Some("Task / Story / Bug / Epic / ..."@),
                    current_issue_type@,
                ),
            ],
    {
        let fields = vec![
            field("Target issue type name", false, Some("Task / Story / Bug / Epic / ..."), current_issue_type),
        ];
        let r = form(ModalKind::ChangeIssueType { key, current_project }, fields);
        assert(field_views(r.fields@) =~= seq![
            fv("Target issue type name"@, false, Some("Task / Story / Bug / Epic / ..."@), current_issue_type@),
        ]);
        r
    }

    /// The form that moves an issue to another project, keeping its type
    /// name unless another is typed.
    pub fn move_issue(key: String, current_project: String, current_issue_type: String) -> (r: Modal)
        ensures
            fresh_form(r, ModalKind::MoveIssue { key, current_issue_type }),
            field_views(r.fields@) == seq![
                fv("Target project key"@, false, Some("target project key, e.g. OTHER"@), Seq::empty()),
                fv(
                    "Target issue type name  (blank = keep current type name)"@,
                    false,
                    Some("blank = keep current issue type name"@),
                    current_issue_type@,
                ),
            ],
    {
        let ghost t = current_issue_type;
        let fields = vec![
            field("Target project key", false, Some("target project key, e.g. OTHER"), String::new()),
            field(
                "Target issue type name  (blank = keep current type name)",
                false,
                Some("blank = keep current issue type name"),
                text_of(current_issue_type.as_str()),
            ),
        ];
        let r = form(ModalKind::MoveIssue { key, current_issue_type }, fields);
        assert(field_views(r.fields@) =~= seq![
            fv("Target project key"@, false, Some("target project key, e.g. OTHER"@), Seq::empty()),
            fv(
                "Target issue type name  (blank = keep current type name)"@,
                false,
                Some("blank = keep current issue type name"@),
                t@,
            ),
        ]);
        r
    }
}

} // verus!
