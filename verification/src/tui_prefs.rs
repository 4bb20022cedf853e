//! TUI preferences (visible columns, saved queries, theme), themes and the
//! tabs of the detail pane.
use vstd::prelude::*;

use crate::columns::{builtin_ids, default_column_ids};
use crate::issue_input::{dedup, distinct};
use crate::model::JsonValue;
use crate::text::{chars_of, push_str, str_eq, trim, trim_bounds, views};

verus! {

/// The colour themes of the TUI.
#[derive(Clone, Copy, Debug, PartialEq, Eq, Structural)]
pub enum ThemeName {
    Default,
    Dracula,
    Nord,
    Solarized,
    Gruvbox,
    GithubLight,
}

/// The themes, in the order offered.
pub open spec fn all_themes() -> Seq<ThemeName> {
    seq![
        ThemeName::Default,
        ThemeName::Dracula,
        ThemeName::Nord,
        ThemeName::Solarized,
        ThemeName::Gruvbox,
        ThemeName::GithubLight,
    ]
}

/// The position of a theme in the order offered.
pub open spec fn theme_position(t: ThemeName) -> nat {
    match t {
        ThemeName::Default => 0,
        ThemeName::Dracula => 1,
        ThemeName::Nord => 2,
        ThemeName::Solarized => 3,
        ThemeName::Gruvbox => 4,
        ThemeName::GithubLight => 5,
    }
}

/// A colour of a theme.
#[derive(Clone, Copy, Debug, PartialEq, Eq, Structural)]
pub enum ThemeColor {
    White,
    Blue,
    Cyan,
    DarkGray,
    Yellow,
    Rgb(u8, u8, u8),
}

/// The colours of a theme.
#[derive(Clone, Copy, Debug, PartialEq, Eq, Structural)]
pub struct Palette {
    pub header_fg: ThemeColor,
    pub header_bg: ThemeColor,
    pub accent: ThemeColor,
    pub muted: ThemeColor,
    pub focus_border: ThemeColor,
    pub blur_border: ThemeColor,
    pub highlight: ThemeColor,
    pub tab_active: ThemeColor,
    pub tab_inactive: ThemeColor,
}

/// The colours of each theme.
pub open spec fn palette_of(t: ThemeName) -> Palette {
    match t {
        ThemeName::Default => Palette {
            header_fg: ThemeColor::White,
            header_bg: ThemeColor::Blue,
            accent: ThemeColor::Cyan,
            muted: ThemeColor::DarkGray,
            focus_border: ThemeColor::Cyan,
            blur_border: ThemeColor::DarkGray,
            highlight: ThemeColor::DarkGray,
            tab_active: ThemeColor::Yellow,
            tab_inactive: ThemeColor::DarkGray,
        },
        ThemeName::Dracula => Palette {
            header_fg: ThemeColor::Rgb(248, 248, 242),
            header_bg: ThemeColor::Rgb(98, 114, 164),
            accent: ThemeColor::Rgb(189, 147, 249),
            muted: ThemeColor::Rgb(98, 114, 164),
            focus_border: ThemeColor::Rgb(255, 121, 198),
            blur_border: ThemeColor::Rgb(68, 71, 90),
            highlight: ThemeColor::Rgb(68, 71, 90),
            tab_active: ThemeColor::Rgb(255, 184, 108),
            tab_inactive: ThemeColor::Rgb(98, 114, 164),
        },
        ThemeName::Nord => Palette {
            header_fg: ThemeColor::Rgb(236, 239, 244),
            header_bg: ThemeColor::Rgb(59, 66, 82),
            accent: ThemeColor::Rgb(136, 192, 208),
            muted: ThemeColor::Rgb(76, 86, 106),
            focus_border: ThemeColor::Rgb(143, 188, 187),
            blur_border: ThemeColor::Rgb(76, 86, 106),
            highlight: ThemeColor::Rgb(67, 76, 94),
            tab_active: ThemeColor::Rgb(235, 203, 139),
            tab_inactive: ThemeColor::Rgb(76, 86, 106),
        },
        ThemeName::Solarized => Palette {
            header_fg: ThemeColor::Rgb(253, 246, 227),
            header_bg: ThemeColor::Rgb(7, 54, 66),
            accent: ThemeColor::Rgb(38, 139, 210),
            muted: ThemeColor::Rgb(101, 123, 131),
            focus_border: ThemeColor::Rgb(42, 161, 152),
            blur_border: ThemeColor::Rgb(88, 110, 117),
            highlight: ThemeColor::Rgb(7, 54, 66),
            tab_active: ThemeColor::Rgb(181, 137, 0),
            tab_inactive: ThemeColor::Rgb(101, 123, 131),
        },
        ThemeName::Gruvbox => Palette {
            header_fg: ThemeColor::Rgb(235, 219, 178),
            header_bg: ThemeColor::Rgb(60, 56, 54),
            accent: ThemeColor::Rgb(131, 165, 152),
            muted: ThemeColor::Rgb(146, 131, 116),
            focus_border: ThemeColor::Rgb(184, 187, 38),
            blur_border: ThemeColor::Rgb(80, 73, 69),
            highlight: ThemeColor::Rgb(80, 73, 69),
            tab_active: ThemeColor::Rgb(250, 189, 47),
            tab_inactive: ThemeColor::Rgb(146, 131, 116),
        },
        ThemeName::GithubLight => Palette {
            header_fg: ThemeColor::Rgb(36, 41, 47),
            header_bg: ThemeColor::Rgb(246, 248, 250),
            accent: ThemeColor::Rgb(9, 105, 218),
            muted: ThemeColor::Rgb(87, 96, 106),
            focus_border: ThemeColor::Rgb(9, 105, 218),
            blur_border: ThemeColor::Rgb(208, 215, 222),
            highlight: ThemeColor::Rgb(221, 244, 255),
            tab_active: ThemeColor::Rgb(130, 80, 223),
            tab_inactive: ThemeColor::Rgb(87, 96, 106),
        },
    }
}

impl ThemeName {
    /// The name shown for the theme.
    pub fn label(self) -> (r: &'static str)
        ensures
            r@ == match self {
                ThemeName::Default => "Default"@,
                ThemeName::Dracula => "Dracula"@,
                ThemeName::Nord => "Nord"@,
                ThemeName::Solarized => "Solarized"@,
                ThemeName::Gruvbox => "Gruvbox"@,
                ThemeName::GithubLight => "GitHub Light"@,
            },
    {
        match self {
            ThemeName::Default => "Default",
            ThemeName::Dracula => "Dracula",
            ThemeName::Nord => "Nord",
            ThemeName::Solarized => "Solarized",
            ThemeName::Gruvbox => "Gruvbox",
            ThemeName::GithubLight => "GitHub Light",
        }
    }

    /// The themes, in the order offered.
    pub fn all() -> (r: Vec<ThemeName>)
        ensures
            r@ == all_themes(),
    {
        let r = vec![
            ThemeName::Default,
            ThemeName::Dracula,
            ThemeName::Nord,
            ThemeName::Solarized,
            ThemeName::Gruvbox,
            ThemeName::GithubLight,
        ];
        assert(r@ =~= all_themes());
        r
    }

    /// The position of the theme in the order offered.
    pub fn position(self) -> (r: usize)
        ensures
            r == theme_position(self),
            all_themes()[r as int] == self,
    {
        match self {
            ThemeName::Default => 0,
            ThemeName::Dracula => 1,
            ThemeName::Nord => 2,
            ThemeName::Solarized => 3,
            ThemeName::Gruvbox => 4,
            ThemeName::GithubLight => 5,
        }
    }

    /// The theme at a position of the order offered, if any.
    pub fn at(i: usize) -> (r: Option<ThemeName>)
        ensures
            i < 6 ==> r == Some(all_themes()[i as int]),
            i >= 6 ==> r is None,
    {
        if i == 0 {
            Some(ThemeName::Default)
        } else if i == 1 {
            Some(ThemeName::Dracula)
        } else if i == 2 {
            Some(ThemeName::Nord)
        } else if i == 3 {
            Some(ThemeName::Solarized)
        } else if i == 4 {
            Some(ThemeName::Gruvbox)
        } else if i == 5 {
            Some(ThemeName::GithubLight)
        } else {
            None
        }
    }

    /// The colours of the theme.
    pub fn palette(self) -> (r: Palette)
        ensures
            r == palette_of(self),
    {
        match self {
            ThemeName::Default => Palette {
                header_fg: ThemeColor::White,
                header_bg: ThemeColor::Blue,
                accent: ThemeColor::Cyan,
                muted: ThemeColor::DarkGray,
                focus_border: ThemeColor::Cyan,
                blur_border: ThemeColor::DarkGray,
                highlight: ThemeColor::DarkGray,
                tab_active: ThemeColor::Yellow,
                tab_inactive: ThemeColor::DarkGray,
            },
            ThemeName::Dracula => Palette {
                header_fg: ThemeColor::Rgb(248, 248, 242),
                header_bg: ThemeColor::Rgb(98, 114, 164),
                accent: ThemeColor::Rgb(189, 147, 249),
                muted: ThemeColor::Rgb(98, 114, 164),
                focus_border: ThemeColor::Rgb(255, 121, 198),
                blur_border: ThemeColor::Rgb(68, 71, 90),
                highlight: ThemeColor::Rgb(68, 71, 90),
                tab_active: ThemeColor::Rgb(255, 184, 108),
                tab_inactive: ThemeColor::Rgb(98, 114, 164),
            },
            ThemeName::Nord => Palette {
                header_fg: ThemeColor::Rgb(236, 239, 244),
                header_bg: ThemeColor::Rgb(59, 66, 82),
                accent: ThemeColor::Rgb(136, 192, 208),
                muted: ThemeColor::Rgb(76, 86, 106),
                focus_border: ThemeColor::Rgb(143, 188, 187),
                blur_border: ThemeColor::Rgb(76, 86, 106),
                highlight: ThemeColor::Rgb(67, 76, 94),
                tab_active: ThemeColor::Rgb(235, 203, 139),
                tab_inactive: ThemeColor::Rgb(76, 86, 106),
            },
            ThemeName::Solarized => Palette {
                header_fg: ThemeColor::Rgb(253, 246, 227),
                header_bg: ThemeColor::Rgb(7, 54, 66),
                accent: ThemeColor::Rgb(38, 139, 210),
                muted: ThemeColor::Rgb(101, 123, 131),
                focus_border: ThemeColor::Rgb(42, 161, 152),
                blur_border: ThemeColor::Rgb(88, 110, 117),
                highlight: ThemeColor::Rgb(7, 54, 66),
                tab_active: ThemeColor::Rgb(181, 137, 0),
                tab_inactive: ThemeColor::Rgb(101, 123, 131),
            },
            ThemeName::Gruvbox => Palette {
                header_fg: ThemeColor::Rgb(235, 219, 178),
                header_bg: ThemeColor::Rgb(60, 56, 54),
                accent: ThemeColor::Rgb(131, 165, 152),
                muted: ThemeColor::Rgb(146, 131, 116),
                focus_border: ThemeColor::Rgb(184, 187, 38),
                blur_border: ThemeColor::Rgb(80, 73, 69),
                highlight: ThemeColor::Rgb(80, 73, 69),
                tab_active: ThemeColor::Rgb(250, 189, 47),
                tab_inactive: ThemeColor::Rgb(146, 131, 116),
            },
            ThemeName::GithubLight => Palette {
                header_fg: ThemeColor::Rgb(36, 41, 47),
                header_bg: ThemeColor::Rgb(246, 248, 250),
                accent: ThemeColor::Rgb(9, 105, 218),
                muted: ThemeColor::Rgb(87, 96, 106),
                focus_border: ThemeColor::Rgb(9, 105, 218),
                blur_border: ThemeColor::Rgb(208, 215, 222),
                highlight: ThemeColor::Rgb(221, 244, 255),
                tab_active: ThemeColor::Rgb(130, 80, 223),
                tab_inactive: ThemeColor::Rgb(87, 96, 106),
            },
    }
    }
}

impl Default for ThemeName {
    fn default() -> (r: ThemeName)
        ensures
            r == ThemeName::Default,
    {
        ThemeName::Default
    }
}

/// The tabs of the detail pane.
#[derive(Clone, Copy, Debug, PartialEq, Eq, Structural)]
pub enum DetailTab {
    Summary,
    Versions,
    Comments,
    Worklog,
    Attachments,
    Subtasks,
    Links,
}

/// The position of a tab.
pub open spec fn tab_index(t: DetailTab) -> int {
    match t {
        DetailTab::Summary => 0,
        DetailTab::Versions => 1,
        DetailTab::Comments => 2,
        DetailTab::Worklog => 3,
        DetailTab::Attachments => 4,
        DetailTab::Subtasks => 5,
        DetailTab::Links => 6,
    }
}

/// The tab at a position (taken modulo the number of tabs).
pub open spec fn tab_at(i: int) -> DetailTab {
    let k = i % 7;
    if k == 0 {
        DetailTab::Summary
    } else if k == 1 {
        DetailTab::Versions
    } else if k == 2 {
        DetailTab::Comments
    } else if k == 3 {
        DetailTab::Worklog
    } else if k == 4 {
        DetailTab::Attachments
    } else if k == 5 {
        DetailTab::Subtasks
    } else {
        DetailTab::Links
    }
}

impl DetailTab {
    /// The name shown on the tab.
    pub fn label(self) -> (r: &'static str)
        ensures
            r@ == match self {
                DetailTab::Summary => "Summary"@,
                DetailTab::Versions => "Versions"@,
                DetailTab::Comments => "Comments"@,
                DetailTab::Worklog => "Worklog"@,
                DetailTab::Attachments => "Attachments"@,
                DetailTab::Subtasks => "Subtasks"@,
                DetailTab::Links => "Links"@,
            },
    {
        match self {
            DetailTab::Summary => "Summary",
            DetailTab::Versions => "Versions",
            DetailTab::Comments => "Comments",
            DetailTab::Worklog => "Worklog",
            DetailTab::Attachments => "Attachments",
            DetailTab::Subtasks => "Subtasks",
            DetailTab::Links => "Links",
        }
    }

    /// The tabs, in order.
    pub fn all() -> (r: Vec<DetailTab>)
        ensures
            r@.len() == 7,
            forall|i: int| 0 <= i < 7 ==> r@[i] == tab_at(i),
    {
        vec![
            DetailTab::Summary,
            DetailTab::Versions,
            DetailTab::Comments,
            DetailTab::Worklog,
            DetailTab::Attachments,
            DetailTab::Subtasks,
            DetailTab::Links,
        ]
    }

    /// The position of the tab.
    pub fn index(self) -> (r: usize)
        ensures
            r == tab_index(self),
    {
        match self {
            DetailTab::Summary => 0,
            DetailTab::Versions => 1,
            DetailTab::Comments => 2,
            DetailTab::Worklog => 3,
            DetailTab::Attachments => 4,
            DetailTab::Subtasks => 5,
            DetailTab::Links => 6,
        }
    }

    fn from_index(i: usize) -> (r: DetailTab)
        requires
            i < 7,
        ensures
            r == tab_at(i as int),
    {
        if i == 0 {
            DetailTab::Summary
        } else if i == 1 {
            DetailTab::Versions
        } else if i == 2 {
            DetailTab::Comments
        } else if i == 3 {
            DetailTab::Worklog
        } else if i == 4 {
            DetailTab::Attachments
        } else if i == 5 {
            DetailTab::Subtasks
        } else {
            DetailTab::Links
        }
    }

    /// The tab to the right, wrapping to the first.
    pub fn next(self) -> (r: DetailTab)
        ensures
            r == tab_at(tab_index(self) + 1),
    {
        DetailTab::from_index((self.index() + 1) % 7)
    }

    /// The tab to the left, wrapping to the last.
    pub fn prev(self) -> (r: DetailTab)
        ensures
            r == tab_at(tab_index(self) + 6),
    {
        DetailTab::from_index((self.index() + 7 - 1) % 7)
    }
}

/// Moving to the next tab and back returns to the same tab, and so does moving
/// back then forward.
pub proof fn law_tab_next_prev(t: DetailTab)
    ensures
        tab_at(tab_index(tab_at(tab_index(t) + 1)) + 6) == t,
        tab_at(tab_index(tab_at(tab_index(t) + 6)) + 1) == t,
{
}

/// Moving to the next tab seven times returns to the same tab.
pub proof fn law_tab_cycle(t: DetailTab)
    ensures
        tab_at(tab_index(t) + 7) == t,
{
}

/// A saved query: a name and its JQL.
pub struct SavedJql {
    pub name: String,
    pub jql: String,
}

/// What the TUI remembers between runs.
pub struct TuiPreferences {
    pub visible_columns: Vec<String>,
    pub saved_jqls: Vec<SavedJql>,
    pub theme: ThemeName,
}

fn saved(name: &str, jql: &str) -> (r: SavedJql)
    ensures
        r.name@ == name@,
        r.jql@ == jql@,
{
    let mut n = String::new();
    push_str(&mut n, name);
    let mut j = String::new();
    push_str(&mut j, jql);
    SavedJql { name: n, jql: j }
}

/// The saved queries offered before the user saves any.
pub open spec fn default_saved_jqls() -> Seq<(Seq<char>, Seq<char>)> {
    seq![
        ("My open issues"@, "assignee = currentUser() AND resolution = Unresolved ORDER BY updated DESC"@),
        ("Updated this week"@, "updated >= -7d ORDER BY updated DESC"@),
        ("Recently created"@, "created >= -7d ORDER BY created DESC"@),
    ]
}

/// The content of saved queries.
pub open spec fn saved_views(v: Seq<SavedJql>) -> Seq<(Seq<char>, Seq<char>)> {
    v.map_values(|s: SavedJql| (s.name@, s.jql@))
}

impl Default for TuiPreferences {
    fn default() -> (r: TuiPreferences)
        ensures
            views(r.visible_columns@) == builtin_ids(),
            saved_views(r.saved_jqls@) == default_saved_jqls(),
            r.theme == ThemeName::Default,
    {
        let saved_jqls = vec![
            saved("My open issues", "assignee = currentUser() AND resolution = Unresolved ORDER BY updated DESC"),
            saved("Updated this week", "updated >= -7d ORDER BY updated DESC"),
            saved("Recently created", "created >= -7d ORDER BY created DESC"),
        ];
        assert(saved_views(saved_jqls@) =~= default_saved_jqls());
        TuiPreferences { visible_columns: default_column_ids(), saved_jqls, theme: ThemeName::Default }
    }
}

/// The texts of `s` that are not blank, in order.
pub open spec fn non_blank(s: Seq<Seq<char>>) -> Seq<Seq<char>>
    decreases s.len(),
{
    if s.len() == 0 {
        Seq::empty()
    } else if trim(s.last()).len() == 0 {
        non_blank(s.drop_last())
    } else {
        non_blank(s.drop_last()).push(s.last())
    }
}

/// The saved queries whose name and JQL are both not blank, in order.
pub open spec fn usable_saved(s: Seq<SavedJql>) -> Seq<SavedJql>
    decreases s.len(),
{
    if s.len() == 0 {
        Seq::empty()
    } else if trim(s.last().name@).len() > 0 && trim(s.last().jql@).len() > 0 {
        usable_saved(s.drop_last()).push(s.last())
    } else {
        usable_saved(s.drop_last())
    }
}

/// The visible columns once normalized: duplicates and blank ids dropped, the
/// built-in columns when nothing is left, and the summary column always shown.
pub open spec fn normalized_columns(cols: Seq<Seq<char>>) -> Seq<Seq<char>> {
    let kept = non_blank(dedup(cols));
    let filled = if kept.len() == 0 {
        builtin_ids()
    } else {
        kept
    };
    if filled.contains("summary"@) {
        filled
    } else {
        filled.push("summary"@)
    }
}

fn is_blank(s: &str) -> (r: bool)
    ensures
        r == (trim(s@).len() == 0),
{
    let v = chars_of(s);
    let (a, b) = trim_bounds(&v);
    a == b
}

fn holds_text(v: &Vec<String>, t: &str) -> (r: bool)
    ensures
        r == views(v@).contains(t@),
{
    let mut i: usize = 0;
    while i < v.len()
        invariant
            i <= v@.len(),
            forall|k: int| 0 <= k < i ==> v@[k]@ != t@,
        decreases v@.len() - i,
    {
        if str_eq(v[i].as_str(), t) {
            assert(views(v@)[i as int] == t@);
            return true;
        }
        i = i + 1;
    }
    assert forall|k: int| 0 <= k < views(v@).len() implies views(v@)[k] != t@ by {
        assert(views(v@)[k] == v@[k]@);
    }
    false
}

impl TuiPreferences {
    /// Cleans loaded preferences: each visible column once, no blank column
    /// ids, the built-in columns when none is left, the summary column always
    /// shown, and no saved query with a blank name or JQL.
    pub fn normalize(&mut self)
        ensures
            views(final(self).visible_columns@) == normalized_columns(views(old(self).visible_columns@)),
            final(self).saved_jqls@ == usable_saved(old(self).saved_jqls@),
            final(self).theme == old(self).theme,
    {
        let ghost cols = views(self.visible_columns@);
        // Keep the first occurrence of each column.
        let mut unique: Vec<String> = Vec::new();
        let mut i: usize = 0;
        while i < self.visible_columns.len()
            invariant
                i <= self.visible_columns@.len(),
                cols == views(self.visible_columns@),
                views(unique@) == dedup(cols.take(i as int)),
            decreases self.visible_columns@.len() - i,
        {
            let c = self.visible_columns[i].as_str();
            assert(cols.take(i + 1).drop_last() =~= cols.take(i as int));
            assert(cols.take(i + 1).last() == c@);
            if !holds_text(&unique, c) {
                let ghost before = views(unique@);
                unique.push(self.visible_columns[i].clone());
                assert(views(unique@) =~= before.push(c@));
            }
            i = i + 1;
        }
        assert(cols.take(i as int) =~= cols);
        // Drop blank ids.
        let mut kept: Vec<String> = Vec::new();
        let mut j: usize = 0;
        while j < unique.len()
            invariant
                j <= unique@.len(),
                views(kept@) == non_blank(views(unique@).take(j as int)),
            decreases unique@.len() - j,
        {
            let ghost u = views(unique@);
            assert(u.take(j + 1).drop_last() =~= u.take(j as int));
            assert(u.take(j + 1).last() == unique@[j as int]@);
            if !is_blank(unique[j].as_str()) {
                let ghost before = views(kept@);
                kept.push(unique[j].clone());
                assert(views(kept@) =~= before.push(unique@[j as int]@));
            }
            j = j + 1;
        }
        assert(views(unique@).take(j as int) =~= views(unique@));
        if kept.len() == 0 {
            kept = default_column_ids();
        }
        if !holds_text(&kept, "summary") {
            let ghost before = views(kept@);
            let mut s = String::new();
            push_str(&mut s, "summary");
            kept.push(s);
            assert(views(kept@) =~= before.push("summary"@));
        }
        self.visible_columns = kept;
        // Keep saved queries with a name and a query.
        let ghost all = self.saved_jqls@;
        let mut rest: Vec<SavedJql> = Vec::new();
        std::mem::swap(&mut rest, &mut self.saved_jqls);
        let n = rest.len();
        let mut out: Vec<SavedJql> = Vec::new();
        let mut k: usize = 0;
        while k < n
            invariant
                n == all.len(),
                k <= n,
                rest@ == all.skip(k as int),
                out@ == usable_saved(all.take(k as int)),
            decreases n - k,
        {
            let s = rest.remove(0);
            assert(s == all[k as int]);
            assert(rest@ =~= all.skip(k + 1));
            assert(all.take(k + 1).drop_last() =~= all.take(k as int));
            assert(all.take(k + 1).last() == s);
            if !is_blank(s.name.as_str()) && !is_blank(s.jql.as_str()) {
                out.push(s);
            }
            k = k + 1;
        }
        assert(all.take(n as int) =~= all);
        self.saved_jqls = out;
    }
}

proof fn lemma_non_blank_sub(s: Seq<Seq<char>>)
    ensures
        forall|t: Seq<char>| #[trigger] non_blank(s).contains(t) ==> s.contains(t) && trim(t).len() > 0,
        distinct(s) ==> distinct(non_blank(s)),
    decreases s.len(),
{
    if s.len() > 0 {
        let d = s.drop_last();
        lemma_non_blank_sub(d);
        assert forall|t: Seq<char>| #[trigger] non_blank(s).contains(t) implies s.contains(t) && trim(t).len() > 0 by {
            if non_blank(d).contains(t) {
                let k = choose|k: int| 0 <= k < d.len() && d[k] == t;
                assert(s[k] == t);
            } else {
                assert(non_blank(s) == non_blank(d).push(s.last()));
                let k = choose|k: int| 0 <= k < non_blank(s).len() && non_blank(s)[k] == t;
                assert(k == non_blank(d).len());
                assert(s[s.len() - 1] == t);
            }
        }
        if distinct(s) && trim(s.last()).len() > 0 {
            assert(distinct(d)) by {
                assert forall|i: int, j: int| 0 <= i < j < d.len() implies d[i] != d[j] by {
                    assert(d[i] == s[i] && d[j] == s[j]);
                }
            }
            let n = non_blank(d);
            assert(!n.contains(s.last())) by {
                if n.contains(s.last()) {
                    let k = choose|k: int| 0 <= k < d.len() && d[k] == s.last();
                    assert(s[k] == s[s.len() - 1]);
                }
            }
            assert forall|i: int, j: int| 0 <= i < j < n.push(s.last()).len() implies n.push(s.last())[i] != n.push(s.last())[j] by {
                if j == n.len() {
                    assert(n.push(s.last())[i] == n[i]);
                }
            }
        } else if distinct(s) {
            assert forall|i: int, j: int| 0 <= i < j < d.len() implies d[i] != d[j] by {
                assert(d[i] == s[i] && d[j] == s[j]);
            }
        }
    }
}

proof fn lemma_dedup_of_distinct(s: Seq<Seq<char>>)
    requires
        distinct(s),
    ensures
        dedup(s) == s,
    decreases s.len(),
{
    if s.len() > 0 {
        let d = s.drop_last();
        assert forall|i: int, j: int| 0 <= i < j < d.len() implies d[i] != d[j] by {
            assert(d[i] == s[i] && d[j] == s[j]);
        }
        lemma_dedup_of_distinct(d);
        assert(!d.contains(s.last())) by {
            if d.contains(s.last()) {
                let k = choose|k: int| 0 <= k < d.len() && d[k] == s.last();
                assert(s[k] == s[s.len() - 1]);
            }
        }
        assert(d.push(s.last()) =~= s);
    }
}

proof fn lemma_non_blank_of_filled(s: Seq<Seq<char>>)
    requires
        forall|i: int| 0 <= i < s.len() ==> trim(#[trigger] s[i]).len() > 0,
    ensures
        non_blank(s) == s,
    decreases s.len(),
{
    if s.len() > 0 {
        let d = s.drop_last();
        assert forall|i: int| 0 <= i < d.len() implies trim(#[trigger] d[i]).len() > 0 by {
            assert(d[i] == s[i]);
        }
        lemma_non_blank_of_filled(d);
        assert(trim(s[s.len() - 1]).len() > 0);
        assert(d.push(s.last()) =~= s);
    }
}

proof fn lemma_usable_saved_again(s: Seq<SavedJql>)
    ensures
        usable_saved(usable_saved(s)) == usable_saved(s),
        forall|i: int| 0 <= i < usable_saved(s).len() ==> trim((#[trigger] usable_saved(s)[i]).name@).len() > 0
            && trim(usable_saved(s)[i].jql@).len() > 0,
    decreases s.len(),
{
    if s.len() > 0 {
        let d = s.drop_last();
        lemma_usable_saved_again(d);
        let u = usable_saved(d);
        if trim(s.last().name@).len() > 0 && trim(s.last().jql@).len() > 0 {
            assert(u.push(s.last()).drop_last() =~= u);
            assert forall|i: int| 0 <= i < u.push(s.last()).len() implies trim((#[trigger] u.push(s.last())[i]).name@).len() > 0
                && trim(u.push(s.last())[i].jql@).len() > 0 by {
                if i < u.len() {
                    assert(u.push(s.last())[i] == u[i]);
                }
            }
        }
    }
}

proof fn lemma_builtin_ids_shape()
    ensures
        distinct(builtin_ids()),
        builtin_ids().contains("summary"@),
        forall|i: int| 0 <= i < builtin_ids().len() ==> trim(#[trigger] builtin_ids()[i]).len() > 0,
{
    reveal_strlit("key");
    reveal_strlit("issuetype");
    reveal_strlit("priority");
    reveal_strlit("status");
    reveal_strlit("assignee");
    reveal_strlit("reporter");
    reveal_strlit("project");
    reveal_strlit("created");
    reveal_strlit("updated");
    reveal_strlit("labels");
    reveal_strlit("components");
    reveal_strlit("fixVersions");
    reveal_strlit("summary");
    let b = builtin_ids();
    assert(b[12] == "summary"@);
    assert forall|i: int, j: int| 0 <= i < j < b.len() implies b[i] != b[j] by {
        assert(b[i][0] != b[j][0] || b[i][1] != b[j][1] || b[i][2] != b[j][2]);
    }
    assert forall|i: int| 0 <= i < b.len() implies trim(#[trigger] b[i]).len() > 0 by {
        assert(!crate::text::is_ws(b[i][0]));
        assert(!crate::text::is_ws(b[i].last()));
        crate::text::lemma_trim_kept(b[i]);
    }
}

/// Normalizing preferences twice changes nothing more than normalizing them
/// once; normalized columns are distinct, none is blank, and the summary
/// column is among them; no normalized saved query has a blank name or JQL.
pub proof fn law_normalize_idempotent(cols: Seq<Seq<char>>, saved: Seq<SavedJql>)
    ensures
        normalized_columns(normalized_columns(cols)) == normalized_columns(cols),
        usable_saved(usable_saved(saved)) == usable_saved(saved),
        distinct(normalized_columns(cols)),
        normalized_columns(cols).contains("summary"@),
        forall|i: int| 0 <= i < normalized_columns(cols).len() ==> trim(#[trigger] normalized_columns(cols)[i]).len() > 0,
        forall|i: int| 0 <= i < usable_saved(saved).len() ==> trim((#[trigger] usable_saved(saved)[i]).name@).len() > 0
            && trim(usable_saved(saved)[i].jql@).len() > 0,
{
    lemma_usable_saved_again(saved);
    crate::issue_input::law_issue_keys_distinct(cols);
    lemma_non_blank_sub(dedup(cols));
    lemma_builtin_ids_shape();
    let kept = non_blank(dedup(cols));
    let filled = if kept.len() == 0 {
        builtin_ids()
    } else {
        kept
    };
    assert(distinct(filled));
    assert forall|i: int| 0 <= i < filled.len() implies trim(#[trigger] filled[i]).len() > 0 by {
        if kept.len() > 0 {
            assert(kept.contains(filled[i]));
        }
    }
    let out = normalized_columns(cols);
    proof_summary_nonblank();
    if !filled.contains("summary"@) {
        assert(out == filled.push("summary"@));
        assert forall|i: int, j: int| 0 <= i < j < out.len() implies out[i] != out[j] by {
            if j == filled.len() {
                assert(out[i] == filled[i]);
            } else {
                assert(out[i] == filled[i] && out[j] == filled[j]);
            }
        }
        assert(out[filled.len() as int] == "summary"@);
        assert forall|i: int| 0 <= i < out.len() implies trim(#[trigger] out[i]).len() > 0 by {
            if i < filled.len() {
                assert(out[i] == filled[i]);
            }
        }
    }
    assert(distinct(out));
    assert(out.contains("summary"@));
    lemma_dedup_of_distinct(out);
    lemma_non_blank_of_filled(out);
    assert(out.len() > 0);
}

proof fn proof_summary_nonblank()
    ensures
        trim("summary"@).len() > 0,
{
    reveal_strlit("summary");
    assert(!crate::text::is_ws("summary"@[0]));
    assert(!crate::text::is_ws("summary"@.last()));
    crate::text::lemma_trim_kept("summary"@);
}

/// The column id of a stored column entry: legacy entries named after the old
/// column kinds map to their ids, other texts are kept, non-texts dropped.
pub open spec fn legacy_id_of(v: crate::model::JsonView) -> Option<Seq<char>> {
    match v {
        crate::model::JsonView::Str(s) => Some(
            if s == "Key"@ {
                "key"@
            } else if s == "Type"@ {
                "issuetype"@
            } else if s == "Priority"@ {
                "priority"@
            } else if s == "Status"@ {
                "status"@
            } else if s == "Assignee"@ {
                "assignee"@
            } else if s == "Reporter"@ {
                "reporter"@
            } else if s == "Project"@ {
                "project"@
            } else if s == "Created"@ {
                "created"@
            } else if s == "Updated"@ {
                "updated"@
            } else if s == "Labels"@ {
                "labels"@
            } else if s == "Components"@ {
                "components"@
            } else if s == "FixVersions"@ {
                "fixVersions"@
            } else if s == "Summary"@ {
                "summary"@
            } else {
                s
            },
        ),
        _ => None,
    }
}

/// Reads a stored column entry, accepting the legacy column names.
pub fn legacy_to_id(v: JsonValue) -> (r: Option<String>)
    ensures
        match r {
            Some(s) => legacy_id_of(v.deep()) == Some(s@),
            None => legacy_id_of(v.deep()) is None,
        },
{
    let s = match v {
        JsonValue::Str(s) => s,
        _ => return None,
    };
    let t = s.as_str();
    let mapped: &str = if str_eq(t, "Key") {
        "key"
    } else if str_eq(t, "Type") {
        "issuetype"
    } else if str_eq(t, "Priority") {
        "priority"
    } else if str_eq(t, "Status") {
        "status"
    } else if str_eq(t, "Assignee") {
        "assignee"
    } else if str_eq(t, "Reporter") {
        "reporter"
    } else if str_eq(t, "Project") {
        "project"
    } else if str_eq(t, "Created") {
        "created"
    } else if str_eq(t, "Updated") {
        "updated"
    } else if str_eq(t, "Labels") {
        "labels"
    } else if str_eq(t, "Components") {
        "components"
    } else if str_eq(t, "FixVersions") {
        "fixVersions"
    } else if str_eq(t, "Summary") {
        "summary"
    } else {
        t
    };
    let mut out = String::new();
    push_str(&mut out, mapped);
    Some(out)
}

} // verus!
