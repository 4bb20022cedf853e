//! Screen geometry of the TUI that does not depend on the layout solver: hit
//! testing of clicks, the footer's buttons and text, and how the help popup
//! packs its sections into one or two columns.
use vstd::prelude::*;

use crate::text::{chars_of, decimal, push_decimal, push_str, starts_with, views};
use crate::tui_app::{Focus, Mode};
use crate::tui_prefs::DetailTab;

verus! {

/// A rectangle of terminal cells.
#[derive(Clone, Copy, Debug, PartialEq, Eq, Structural)]
pub struct Rect {
    pub x: u16,
    pub y: u16,
    pub width: u16,
    pub height: u16,
}

/// `a + b` on `u16`, held at the largest value.
pub open spec fn sat_add(a: u16, b: int) -> u16 {
    if a + b <= u16::MAX {
        (a + b) as u16
    } else {
        u16::MAX
    }
}

/// `a - b` on `u16`, held at zero.
pub open spec fn sat_sub(a: u16, b: int) -> u16 {
    if a - b >= 0 {
        (a - b) as u16
    } else {
        0
    }
}

/// Whether the cell at `col`, `row` lies in `r` (its far edges computed with
/// saturation).
pub open spec fn rect_holds(r: Rect, col: u16, row: u16) -> bool {
    &&& col >= r.x
    &&& col < sat_add(r.x, r.width as int)
    &&& row >= r.y
    &&& row < sat_add(r.y, r.height as int)
}

/// Whether the cell at `col`, `row` lies in `r`.
pub fn contains(r: &Rect, col: u16, row: u16) -> (b: bool)
    ensures
        b == rect_holds(*r, col, row),
{
    col >= r.x && col < r.x.saturating_add(r.width) && row >= r.y && row < r.y.saturating_add(r.height)
}

/// Whether the cell at `col`, `row` lies in `rect`, when there is one.
pub fn point_in(rect: Option<Rect>, col: u16, row: u16) -> (b: bool)
    ensures
        b == match rect {
            Some(r) => rect_holds(r, col, row),
            None => false,
        },
{
    match rect {
        Some(r) => contains(&r, col, row),
        None => false,
    }
}

/// Where a picker list is drawn, for turning a clicked row into an option.
#[derive(Clone, Copy, Debug, PartialEq, Eq, Structural)]
pub struct PickerHit {
    /// The inner area, without borders, where rows are drawn.
    pub area: Rect,
    /// The list's scroll offset: the option shown on the first row.
    pub offset: usize,
    /// How many options the picker has.
    pub count: usize,
}

/// The picker area inside a bordered widget whose outer area is `area`: one
/// cell in from every side.
pub fn picker_hit_for_bordered(area: Rect, offset: usize, count: usize) -> (r: PickerHit)
    ensures
        r == (PickerHit {
            area: Rect {
                x: sat_add(area.x, 1),
                y: sat_add(area.y, 1),
                width: sat_sub(area.width, 2),
                height: sat_sub(area.height, 2),
            },
            offset,
            count,
        }),
{
    PickerHit {
        area: Rect {
            x: area.x.saturating_add(1),
            y: area.y.saturating_add(1),
            width: area.width.saturating_sub(2),
            height: area.height.saturating_sub(2),
        },
        offset,
        count,
    }
}

impl PickerHit {
    /// The option on row `row`: none on a border or past the last option.
    pub fn row_to_index(&self, row: u16) -> (r: Option<usize>)
        ensures
            r == if row < self.area.y || row >= sat_add(self.area.y, self.area.height as int) {
                None
            } else {
                let idx = self.offset + (row - self.area.y);
                if idx < self.count {
                    Some(idx as usize)
                } else {
                    None
                }
            },
    {
        if row < self.area.y || row >= self.area.y.saturating_add(self.area.height) {
            return None;
        }
        let visible = (row - self.area.y) as usize;
        let idx = self.offset.saturating_add(visible);
        if idx < self.count {
            Some(idx)
        } else {
            None
        }
    }
}

/// The key hints the footer shows in each mode.
pub open spec fn footer_hint_of(mode: Mode, focus: Focus) -> Seq<char> {
    match mode {
        Mode::Browse => if focus == Focus::Detail {
            " ↑/↓:scroll  PgUp/PgDn:fast scroll  Home:top  ←/→:tab  Esc:back  t:transition  e:edit  y:type  M:move  a:assign  ;:comment  ::bulk-comment  w:worklog  b:bulk-log  m:comps  v:versions  u:upload  o:browser  ?:help  q:quit"@
        } else {
            " j/k:move  Enter:detail  p:queries  n:mentions  R:mark-read  T:theme  S:server  g:config  t:transition  C:columns  c:create  e:edit  y:type  M:move  a:assign  ;:comment  ::bulk-comment  w:worklog  b:bulk-log  l:labels  m:comps  v:versions  u:upload  o:browser  r:refresh  /:search  ?:help  q:quit"@
        },
        Mode::Search => " Type JQL  Enter:search  Esc:cancel"@,
        Mode::Transition => " j/k:move  Enter:execute  Esc:cancel"@,
        Mode::Help => " Any key: close"@,
        Mode::ProjectVersionBrowser => " type:filter  j/k:move  Enter:refresh  n:new  e:edit  Esc:close"@,
        Mode::ColumnPicker => " ↑/↓:move  Space:toggle  type:filter  Tab:clear  Enter:save  Esc:cancel"@,
        Mode::AssigneePicker => " type:search  j/k:move  Enter:assign  Esc:cancel"@,
        Mode::ComponentPicker => " type:search  j/k:move  Space:toggle  Enter:save  Esc:cancel"@,
        Mode::FixVersionPicker => " type:search  j/k:move  Space:toggle  Enter:save  Esc:cancel"@,
        Mode::SprintPicker => " type:filter  j/k:move  Enter:assign to sprint  Esc:cancel"@,
        Mode::SavedJqlPicker => " ↑/↓:move  Enter:run  type:filter  Tab:clear  c:new  e:edit  d:delete  Esc:cancel"@,
        Mode::ThemePicker => " j/k:move  Enter:apply theme  Esc:cancel"@,
        Mode::Modal => " Tab:next field  Ctrl+S:submit  Enter:submit/non-multiline or newline/multiline  Esc:cancel"@,
        _ => " Esc:back"@,
    }
}

/// The key hints the footer shows in a mode.
pub fn footer_hint(mode: Mode, focus: Focus) -> (r: &'static str)
    ensures
        r@ == footer_hint_of(mode, focus),
{
    match mode {
        Mode::Browse => if focus == Focus::Detail {
            " ↑/↓:scroll  PgUp/PgDn:fast scroll  Home:top  ←/→:tab  Esc:back  t:transition  e:edit  y:type  M:move  a:assign  ;:comment  ::bulk-comment  w:worklog  b:bulk-log  m:comps  v:versions  u:upload  o:browser  ?:help  q:quit"
        } else {
            " j/k:move  Enter:detail  p:queries  n:mentions  R:mark-read  T:theme  S:server  g:config  t:transition  C:columns  c:create  e:edit  y:type  M:move  a:assign  ;:comment  ::bulk-comment  w:worklog  b:bulk-log  l:labels  m:comps  v:versions  u:upload  o:browser  r:refresh  /:search  ?:help  q:quit"
        },
        Mode::Search => " Type JQL  Enter:search  Esc:cancel",
        Mode::Transition => " j/k:move  Enter:execute  Esc:cancel",
        Mode::Help => " Any key: close",
        Mode::ProjectVersionBrowser => " type:filter  j/k:move  Enter:refresh  n:new  e:edit  Esc:close",
        Mode::ColumnPicker => " ↑/↓:move  Space:toggle  type:filter  Tab:clear  Enter:save  Esc:cancel",
        Mode::AssigneePicker => " type:search  j/k:move  Enter:assign  Esc:cancel",
        Mode::ComponentPicker => " type:search  j/k:move  Space:toggle  Enter:save  Esc:cancel",
        Mode::FixVersionPicker => " type:search  j/k:move  Space:toggle  Enter:save  Esc:cancel",
        Mode::SprintPicker => " type:filter  j/k:move  Enter:assign to sprint  Esc:cancel",
        Mode::SavedJqlPicker => " ↑/↓:move  Enter:run  type:filter  Tab:clear  c:new  e:edit  d:delete  Esc:cancel",
        Mode::ThemePicker => " j/k:move  Enter:apply theme  Esc:cancel",
        Mode::Modal => " Tab:next field  Ctrl+S:submit  Enter:submit/non-multiline or newline/multiline  Esc:cancel",
        _ => " Esc:back",
    }
}

/// How the footer shows the status line.
#[derive(Clone, Copy, Debug, PartialEq, Eq, Structural)]
pub enum FooterTone {
    /// An error: white on red, after a cross.
    Error,
    /// A new release: black on yellow.
    Update,
    /// Any other message: black on green.
    Info,
}

/// The footer's status text and tone, or none when the footer shows its hints.
pub open spec fn footer_status_of(status: Option<(Seq<char>, bool)>) -> Option<(Seq<char>, FooterTone)> {
    match status {
        Some((msg, true)) => Some((" ✗ "@ + msg, FooterTone::Error)),
        Some((msg, false)) => Some(
            (
                " "@ + msg,
                if starts_with(msg, "Update available:"@) {
                    FooterTone::Update
                } else {
                    FooterTone::Info
                },
            ),
        ),
        None => None,
    }
}

/// The footer's status text and tone, or none when it shows its hints.
pub fn footer_status(status: &Option<(String, bool)>) -> (r: Option<(String, FooterTone)>)
    ensures
        match r {
            Some((t, tone)) => footer_status_of(
                match status {
                    Some((m, e)) => Some((m@, *e)),
                    None => None,
                },
            ) == Some((t@, tone)),
            None => status is None,
        },
{
    match status {
        Some((msg, is_error)) => {
            let mut t = String::new();
            if *is_error {
                push_str(&mut t, " ✗ ");
                push_str(&mut t, msg.as_str());
                Some((t, FooterTone::Error))
            } else {
                push_str(&mut t, " ");
                push_str(&mut t, msg.as_str());
                let m = chars_of(msg.as_str());
                let p = chars_of("Update available:");
                let tone = if crate::text::starts_with_chars(&m, &p) {
                    FooterTone::Update
                } else {
                    FooterTone::Info
                };
                Some((t, tone))
            }
        },
        None => None,
    }
}

/// The footer's notifications button label for `unread` unread mentions.
pub open spec fn notif_label_of(unread: nat) -> Seq<char> {
    " [🔔 "@ + decimal(unread) + "] "@
}

/// Where the footer draws its parts: the hints, the help button at the right
/// edge, and the notifications button left of it when mentions are unread.
#[derive(Clone, Copy, Debug, PartialEq, Eq, Structural)]
pub struct FooterLayout {
    pub text: Rect,
    pub help: Rect,
    pub notif: Option<Rect>,
}

/// The footer's layout in `area` with `unread` unread mentions. The help
/// button is five cells wide; the notifications button is its label's length
/// plus one, for the wide bell.
pub open spec fn footer_layout_of(area: Rect, unread: nat) -> FooterLayout {
    let help_w: u16 = 5;
    let notif_w = sat_add(notif_label_of(unread).len() as u16, 1);
    let buttons_w = if unread > 0 {
        sat_add(help_w, notif_w as int)
    } else {
        help_w
    };
    let help = Rect {
        x: sat_sub(sat_add(area.x, area.width as int), help_w as int),
        y: area.y,
        width: help_w,
        height: 1,
    };
    FooterLayout {
        text: Rect { x: area.x, y: area.y, width: sat_sub(area.width, buttons_w as int), height: area.height },
        help,
        notif: if unread > 0 {
            Some(Rect { x: sat_sub(help.x, notif_w as int), y: area.y, width: notif_w, height: 1 })
        } else {
            None
        },
    }
}

/// The footer's notifications button label.
pub fn notif_label(unread: u64) -> (r: String)
    ensures
        r@ == notif_label_of(unread as nat),
{
    let mut s = String::new();
    push_str(&mut s, " [🔔 ");
    push_decimal(&mut s, unread);
    push_str(&mut s, "] ");
    s
}

/// Lays out the footer in `area` with `unread` unread mentions.
pub fn footer_layout(area: Rect, unread: u64) -> (r: FooterLayout)
    ensures
        r == footer_layout_of(area, unread as nat),
{
    let help_w: u16 = 5;
    let label = notif_label(unread);
    let n = chars_of(label.as_str()).len();
    proof {
        reveal_strlit(" [🔔 ");
        reveal_strlit("] ");
        reveal_with_fuel(crate::text::ten_pow, 21);
        assert(u64::MAX < crate::text::ten_pow(20));
        crate::text::lemma_decimal_len(unread as nat, 20);
    }
    assert(n <= 26);
    let notif_w = (n as u16).saturating_add(1);
    let buttons_w = if unread > 0 {
        help_w.saturating_add(notif_w)
    } else {
        help_w
    };
    let help = Rect {
        x: area.x.saturating_add(area.width).saturating_sub(help_w),
        y: area.y,
        width: help_w,
        height: 1,
    };
    FooterLayout {
        text: Rect { x: area.x, y: area.y, width: area.width.saturating_sub(buttons_w), height: area.height },
        help,
        notif: if unread > 0 {
            Some(Rect { x: help.x.saturating_sub(notif_w), y: area.y, width: notif_w, height: 1 })
        } else {
            None
        },
    }
}

/// The help popup's sections: a heading line, then one line per shortcut.
pub open spec fn help_sections_of() -> Seq<Seq<Seq<char>>> {
    seq![
        seq![
            "Issue List:"@,
            "  ↑/k       Move up"@,
            "  ↓/j       Move down"@,
            "  Enter     Open split detail view"@,
            "  a         Assign selected issue"@,
            "  b         Add bulk worklog (confirm before submit)"@,
            "  c         Create new issue"@,
            "  C         Column settings"@,
            "  e         Edit selected issue"@,
            "  g         Show config file"@,
            "  l         Set labels"@,
            "  m         Edit components"@,
            "  M         Move issue to another project (native, not clone+delete)"@,
            "  n         Scan and open Jira mention notifications"@,
            "  o         Open issue in browser"@,
            "  p         Open saved queries (run/create/edit/delete)"@,
            "  q         Quit the TUI"@,
            "  r         Refresh list"@,
            "  R         Mark selected notification issue as read"@,
            "  s         Add to sprint"@,
            "  S         Show server info"@,
            "  t         Transition issue"@,
            "  T         Open theme picker"@,
            "  u         Upload attachment"@,
            "  v         Edit fix versions"@,
            "  V         Browse project fix versions + backlog preview"@,
            "            Enter refreshes preview, n creates, e edits metadata"@,
            "  w         Add single worklog"@,
            "  y         Change issue type (native Jira move semantics)"@,
            "  /         Search with JQL"@,
            "  :         Add the same comment to many issues (JQL or explicit keys)"@,
            "  ;         Add comment"@,
            "  ?         Show help"@,
        ],
        seq![
            "Detail View:"@,
            "  Esc / q   Back to list"@,
            "  ←/→ / Tab Switch detail tabs"@,
            "  Summary / Versions / Comments / Worklog / Attachments / Subtasks / Links"@,
            "  e,y,M,a,;,w,b,m,v,s,u,t,o also work from detail view"@,
        ],
        seq![
            "Mouse:"@,
            "  Click row             Select issue"@,
            "  Double-click row      Open detail view"@,
            "  Click detail tab      Switch tab"@,
            "  Click detail pane     Focus detail (from list)"@,
            "  Click picker option   Apply (single-select) / toggle (multi-select)"@,
            "  Click outside popup   Close popup (same as Esc)"@,
            "  Click [?] / [🔔]      Open help / notifications"@,
            "  Drag splitter         Resize list/detail (saved in prefs)"@,
            "  Scroll wheel          Move selection in list or picker"@,
        ],
    ]
}

/// The help popup's sections.
pub fn help_sections() -> (r: Vec<Vec<&'static str>>)
    ensures
        r@.map_values(|sec: Vec<&'static str>| sec@.map_values(|l: &'static str| l@)) == help_sections_of(),
{
    let a: Vec<&'static str> = vec![
        "Issue List:",
        "  ↑/k       Move up",
        "  ↓/j       Move down",
        "  Enter     Open split detail view",
        "  a         Assign selected issue",
        "  b         Add bulk worklog (confirm before submit)",
        "  c         Create new issue",
        "  C         Column settings",
        "  e         Edit selected issue",
        "  g         Show config file",
        "  l         Set labels",
        "  m         Edit components",
        "  M         Move issue to another project (native, not clone+delete)",
        "  n         Scan and open Jira mention notifications",
        "  o         Open issue in browser",
        "  p         Open saved queries (run/create/edit/delete)",
        "  q         Quit the TUI",
        "  r         Refresh list",
        "  R         Mark selected notification issue as read",
        "  s         Add to sprint",
        "  S         Show server info",
        "  t         Transition issue",
        "  T         Open theme picker",
        "  u         Upload attachment",
        "  v         Edit fix versions",
        "  V         Browse project fix versions + backlog preview",
        "            Enter refreshes preview, n creates, e edits metadata",
        "  w         Add single worklog",
        "  y         Change issue type (native Jira move semantics)",
        "  /         Search with JQL",
        "  :         Add the same comment to many issues (JQL or explicit keys)",
        "  ;         Add comment",
        "  ?         Show help",
    ];
    let b: Vec<&'static str> = vec![
        "Detail View:",
        "  Esc / q   Back to list",
        "  ←/→ / Tab Switch detail tabs",
        "  Summary / Versions / Comments / Worklog / Attachments / Subtasks / Links",
        "  e,y,M,a,;,w,b,m,v,s,u,t,o also work from detail view",
    ];
    let c: Vec<&'static str> = vec![
        "Mouse:",
        "  Click row             Select issue",
        "  Double-click row      Open detail view",
        "  Click detail tab      Switch tab",
        "  Click detail pane     Focus detail (from list)",
        "  Click picker option   Apply (single-select) / toggle (multi-select)",
        "  Click outside popup   Close popup (same as Esc)",
        "  Click [?] / [🔔]      Open help / notifications",
        "  Drag splitter         Resize list/detail (saved in prefs)",
        "  Scroll wheel          Move selection in list or picker",
    ];
    let r = vec![a, b, c];
    assert(r@[0]@.map_values(|l: &'static str| l@) =~= help_sections_of()[0]);
    assert(r@[1]@.map_values(|l: &'static str| l@) =~= help_sections_of()[1]);
    assert(r@[2]@.map_values(|l: &'static str| l@) =~= help_sections_of()[2]);
    assert(r@.map_values(|sec: Vec<&'static str>| sec@.map_values(|l: &'static str| l@)) =~= help_sections_of());
    r
}

/// The sum of `lens`.
pub open spec fn lens_sum(lens: Seq<u16>) -> int
    decreases lens.len(),
{
    if lens.len() == 0 {
        0
    } else {
        lens_sum(lens.drop_last()) + lens.last()
    }
}

/// The lines of the help text in one column: the header, the sections with a
/// blank line between two, then a blank line and the closing hint.
pub open spec fn help_total(header: int, lens: Seq<u16>) -> int {
    header + lens_sum(lens) + if lens.len() > 0 {
        lens.len() - 1
    } else {
        0
    } + 2
}

/// The height of the left column holding the header and the first `i`
/// sections, each followed by a blank line.
pub open spec fn left_height(header: int, lens: Seq<u16>, i: int) -> int {
    header + lens_sum(lens.take(i)) + i
}

/// The first section that does not fit under the earlier ones in a left
/// column of height `inner`, from section `i` on; the number of sections when
/// all fit.
pub open spec fn split_from(header: int, lens: Seq<u16>, inner: int, i: int) -> int
    decreases lens.len() - i,
{
    if i >= lens.len() || i < 0 {
        lens.len() as int
    } else if left_height(header, lens, i + 1) > inner {
        i
    } else {
        split_from(header, lens, inner, i + 1)
    }
}

/// The height of the right column holding the sections from `s` on, with a
/// blank line between two, then a blank line and the closing hint.
pub open spec fn right_height(lens: Seq<u16>, s: int) -> int {
    lens_sum(lens) - lens_sum(lens.take(s)) + (lens.len() - s - 1) + 2
}

/// How the help popup lays out its text.
#[derive(Clone, Copy, Debug, PartialEq, Eq, Structural)]
pub enum HelpLayout {
    /// One column, scrolled down by `scroll` lines; `scrolls` when the text
    /// is too long, and the popup then shows the scroll keys.
    OneColumn { scroll: u16, scrolls: bool },
    /// Two columns: the header and the sections before `split_at` on the
    /// left, the rest and the closing hint on the right.
    TwoColumns { split_at: usize },
}

/// The help popup's layout for a header of `header` lines, sections of
/// `lens` lines, an inner height of `inner` and a requested scroll: one column
/// when the text fits; else two columns when the sections split into a left
/// column that fits (filled greedily) and a right column that fits too; else
/// one column, scrolled by at most the overflow.
pub open spec fn help_layout_of(header: int, lens: Seq<u16>, inner: u16, scroll: u16) -> HelpLayout {
    let total = help_total(header, lens);
    if total <= inner {
        HelpLayout::OneColumn { scroll: 0, scrolls: false }
    } else {
        let s = split_from(header, lens, inner as int, 0);
        if 0 < s < lens.len() && right_height(lens, s) <= inner {
            HelpLayout::TwoColumns { split_at: s as usize }
        } else {
            HelpLayout::OneColumn {
                scroll: if scroll <= total - inner {
                    scroll
                } else {
                    (total - inner) as u16
                },
                scrolls: true,
            }
        }
    }
}

proof fn lemma_lens_sum_take(lens: Seq<u16>, i: int)
    requires
        0 <= i < lens.len(),
    ensures
        lens_sum(lens.take(i + 1)) == lens_sum(lens.take(i)) + lens[i],
        lens_sum(lens.take(i)) >= 0,
{
    assert(lens.take(i + 1).drop_last() =~= lens.take(i));
    lemma_lens_sum_nonneg(lens.take(i));
}

proof fn lemma_lens_sum_nonneg(lens: Seq<u16>)
    ensures
        lens_sum(lens) >= 0,
    decreases lens.len(),
{
    if lens.len() > 0 {
        lemma_lens_sum_nonneg(lens.drop_last());
    }
}

proof fn lemma_lens_sum_prefix(lens: Seq<u16>, i: int)
    requires
        0 <= i <= lens.len(),
    ensures
        lens_sum(lens.take(i)) <= lens_sum(lens),
    decreases lens.len() - i,
{
    if i < lens.len() {
        lemma_lens_sum_take(lens, i);
        lemma_lens_sum_prefix(lens, i + 1);
    } else {
        assert(lens.take(i) =~= lens);
    }
}

/// Lays out the help popup.
pub fn help_layout(header: u16, lens: &Vec<u16>, inner: u16, scroll: u16) -> (r: HelpLayout)
    requires
        help_total(header as int, lens@) <= u16::MAX,
    ensures
        r == help_layout_of(header as int, lens@, inner, scroll),
{
    let n = lens.len();
    let mut sum: u32 = 0;
    let mut i: usize = 0;
    proof {
        lemma_lens_sum_nonneg(lens@);
    }
    while i < n
        invariant
            i <= n,
            n == lens@.len(),
            sum == lens_sum(lens@.take(i as int)),
            help_total(header as int, lens@) <= u16::MAX,
        decreases n - i,
    {
        proof {
            lemma_lens_sum_take(lens@, i as int);
            lemma_lens_sum_prefix(lens@, i + 1);
        }
        sum = sum + lens[i] as u32;
        i = i + 1;
    }
    assert(lens@.take(n as int) =~= lens@);
    let seps: u32 = if n > 0 {
        (n - 1) as u32
    } else {
        0
    };
    let total: u32 = header as u32 + sum + seps + 2;
    assert(total == help_total(header as int, lens@));
    if total <= inner as u32 {
        return HelpLayout::OneColumn { scroll: 0, scrolls: false };
    }
    let total16 = total as u16;
    let mut col1: u32 = header as u32;
    let mut split_at: usize = n;
    let mut k: usize = 0;
    while k < n
        invariant_except_break
            split_at == n,
        invariant
            k <= n,
            n == lens@.len(),
            col1 == left_height(header as int, lens@, k as int),
            split_from(header as int, lens@, inner as int, 0) == split_from(
                header as int,
                lens@,
                inner as int,
                k as int,
            ),
            help_total(header as int, lens@) <= u16::MAX,
        ensures
            split_at == split_from(header as int, lens@, inner as int, 0),
        decreases n - k,
    {
        proof {
            lemma_lens_sum_take(lens@, k as int);
            lemma_lens_sum_prefix(lens@, k + 1);
        }
        let next = col1 + lens[k] as u32 + 1;
        assert(next == left_height(header as int, lens@, k + 1));
        if next > inner as u32 {
            split_at = k;
            break;
        }
        col1 = next;
        k = k + 1;
    }
    assert(split_at == split_from(header as int, lens@, inner as int, 0));
    if split_at > 0 && split_at < n {
        let mut rest: u32 = 0;
        let mut j: usize = split_at;
        proof {
            lemma_lens_sum_prefix(lens@, split_at as int);
            lemma_lens_sum_nonneg(lens@);
            lemma_lens_sum_nonneg(lens@.take(split_at as int));
        }
        while j < n
            invariant
                split_at <= j <= n,
                n == lens@.len(),
                rest == lens_sum(lens@.take(j as int)) - lens_sum(lens@.take(split_at as int)),
                lens_sum(lens@.take(split_at as int)) <= lens_sum(lens@),
                help_total(header as int, lens@) <= u16::MAX,
                0 <= lens_sum(lens@) <= u16::MAX,
                lens_sum(lens@.take(split_at as int)) >= 0,
            decreases n - j,
        {
            proof {
                lemma_lens_sum_take(lens@, j as int);
                lemma_lens_sum_prefix(lens@, j + 1);
            }
            rest = rest + lens[j] as u32;
            j = j + 1;
        }
        assert(lens@.take(n as int) =~= lens@);
        assert(rest <= u16::MAX);
        let col2: u32 = rest + (n - split_at - 1) as u32 + 2;
        if col2 <= inner as u32 {
            return HelpLayout::TwoColumns { split_at };
        }
    }
    let max_scroll = total16 - inner;
    HelpLayout::OneColumn {
        scroll: if scroll <= max_scroll {
            scroll
        } else {
            max_scroll
        },
        scrolls: true,
    }
}

/// The detail tabs, in order.
pub open spec fn tab_sequence() -> Seq<DetailTab> {
    seq![
        DetailTab::Summary,
        DetailTab::Versions,
        DetailTab::Comments,
        DetailTab::Worklog,
        DetailTab::Attachments,
        DetailTab::Subtasks,
        DetailTab::Links,
    ]
}

/// The cells a tab's header takes: its label with a space on each side.
pub open spec fn tab_width(t: DetailTab) -> u16 {
    match t {
        DetailTab::Summary => 9,
        DetailTab::Versions => 10,
        DetailTab::Comments => 10,
        DetailTab::Worklog => 9,
        DetailTab::Attachments => 13,
        DetailTab::Subtasks => 10,
        DetailTab::Links => 7,
    }
}

/// Where the tab headers go on row `y`, from column `cursor` on: each tab
/// that still fits before `limit` takes its width; one that does not is left
/// out and the next is tried.
pub open spec fn tab_rects(tabs: Seq<DetailTab>, cursor: u16, limit: u16, y: u16) -> Seq<(Rect, DetailTab)>
    decreases tabs.len(),
{
    if tabs.len() == 0 {
        Seq::empty()
    } else {
        let t = tabs[0];
        let w = tab_width(t);
        if sat_add(cursor, w as int) > limit {
            tab_rects(tabs.drop_first(), cursor, limit, y)
        } else {
            seq![(Rect { x: cursor, y, width: w, height: 1 }, t)] + tab_rects(
                tabs.drop_first(),
                sat_add(cursor, w as int),
                limit,
                y,
            )
        }
    }
}

/// The click targets of the detail tabs in the bordered header `header`:
/// the tabs start inside the border and must end within its inner width.
pub open spec fn detail_tab_rects_of(header: Rect) -> Seq<(Rect, DetailTab)> {
    let x0 = sat_add(header.x, 1);
    tab_rects(tab_sequence(), x0, sat_add(x0, sat_sub(header.width, 2) as int), sat_add(header.y, 1))
}

fn tab_width_exec(t: DetailTab) -> (r: u16)
    ensures
        r == tab_width(t),
{
    let l = t.label();
    proof {
        reveal_strlit("Summary");
        reveal_strlit("Versions");
        reveal_strlit("Comments");
        reveal_strlit("Worklog");
        reveal_strlit("Attachments");
        reveal_strlit("Subtasks");
        reveal_strlit("Links");
    }
    (l.unicode_len() as u16) + 2
}

/// The click targets of the detail tabs in the bordered header `header`.
pub fn detail_tab_rects(header: Rect) -> (r: Vec<(Rect, DetailTab)>)
    ensures
        r@ == detail_tab_rects_of(header),
{
    let tabs = DetailTab::all();
    let ghost ts = tabs@;
    assert(ts =~= tab_sequence()) by {
        assert forall|i: int| 0 <= i < 7 implies ts[i] == tab_sequence()[i] by {
            assert(ts[i] == crate::tui_prefs::tab_at(i));
        }
    }
    let x0 = header.x.saturating_add(1);
    let limit = x0.saturating_add(header.width.saturating_sub(2));
    let y = header.y.saturating_add(1);
    let mut cursor = x0;
    let mut out: Vec<(Rect, DetailTab)> = Vec::new();
    let mut i: usize = 0;
    assert(ts.skip(0) =~= ts);
    while i < tabs.len()
        invariant
            i <= ts.len(),
            ts == tabs@,
            ts == tab_sequence(),
            out@ + tab_rects(ts.skip(i as int), cursor, limit, y) == detail_tab_rects_of(header),
            limit == sat_add(sat_add(header.x, 1), sat_sub(header.width, 2) as int),
            y == sat_add(header.y, 1),
        decreases ts.len() - i,
    {
        let t = tabs[i];
        let w = tab_width_exec(t);
        assert(ts.skip(i as int)[0] == t);
        assert(ts.skip(i as int).drop_first() =~= ts.skip(i + 1));
        let end = cursor.saturating_add(w);
        if end <= limit {
            let ghost before = out@;
            out.push((Rect { x: cursor, y, width: w, height: 1 }, t));
            assert(out@ =~= before + seq![(Rect { x: cursor, y, width: w, height: 1 }, t)]);
            cursor = end;
        }
        i = i + 1;
    }
    assert(ts.skip(i as int) =~= Seq::<DetailTab>::empty());
    assert(out@ =~= out@ + Seq::<(Rect, DetailTab)>::empty());
    out
}

} // verus!
