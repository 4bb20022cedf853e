//! How fix versions are printed on the command line: a version's metadata,
//! the listing of a project's versions, and a version's summary under an
//! issue with its open backlog.
use vstd::prelude::*;

use crate::model::{Issue, ProjectVersion};
use crate::sprints::{date_lines, eq_ignore_ascii_case, same_name};
use crate::text::{decimal, join, join_strings, push_decimal, push_str, str_eq, trim, trim_str, views};
use crate::versions::{first_ten_bytes, short10, short_date_ok, state_word, VersionBacklogPreview};

verus! {

/// Both dates of a version can be cut to the day.
pub open spec fn version_dates_ok(v: ProjectVersion) -> bool {
    short_date_ok(v.start_date) && short_date_ok(v.release_date)
}

/// The description line of a version, when its description is not blank.
pub open spec fn description_lines(d: Option<String>) -> Seq<Seq<char>> {
    match d {
        Some(t) => if trim(t@).len() > 0 {
            seq!["  Description: "@ + trim(t@)]
        } else {
            Seq::empty()
        },
        None => Seq::empty(),
    }
}

/// The lines describing a version of `project`: a heading when `prefix` is
/// given, its state, its dates cut to the day, and its description.
pub open spec fn metadata_lines_of(project: Seq<char>, v: ProjectVersion, prefix: Option<Seq<char>>) -> Seq<Seq<char>> {
    (match prefix {
        Some(p) => seq![p + " — "@ + project + " / "@ + v.name@],
        None => Seq::empty(),
    }) + seq!["  Status: "@ + state_word(v)] + date_lines("  Start: "@, v.start_date) + date_lines(
        "  Release: "@,
        v.release_date,
    ) + description_lines(v.description)
}

fn push_line(lines: &mut Vec<String>, a: &str, b: &str)
    ensures
        views(final(lines)@) == views(old(lines)@).push(a@ + b@),
{
    let mut l = String::new();
    push_str(&mut l, a);
    push_str(&mut l, b);
    lines.push(l);
    assert(views(lines@) =~= views(old(lines)@).push(a@ + b@));
}

fn state_text(v: &ProjectVersion) -> (r: &'static str)
    ensures
        r@ == state_word(*v),
{
    if v.archived {
        "archived"
    } else if v.released {
        "released"
    } else {
        "unreleased"
    }
}

/// The lines describing a version.
pub fn version_metadata_lines(project_key: &str, v: &ProjectVersion, prefix: Option<&str>) -> (r: Vec<String>)
    requires
        version_dates_ok(*v),
    ensures
        views(r@) == metadata_lines_of(
            project_key@,
            *v,
            match prefix {
                Some(p) => Some(p@),
                None => None,
            },
        ),
{
    let mut lines: Vec<String> = Vec::new();
    match prefix {
        Some(p) => {
            let mut l = String::new();
            push_str(&mut l, p);
            push_str(&mut l, " — ");
            push_str(&mut l, project_key);
            push_str(&mut l, " / ");
            push_str(&mut l, v.name.as_str());
            lines.push(l);
        },
        None => {},
    }
    let ghost l0 = views(lines@);
    push_line(&mut lines, "  Status: ", state_text(v));
    let ghost l1 = views(lines@);
    match &v.start_date {
        Some(d) => {
            let c = first_ten_bytes(d.as_str());
            push_line(&mut lines, "  Start: ", c.as_str());
        },
        None => {},
    }
    let ghost l2 = views(lines@);
    match &v.release_date {
        Some(d) => {
            let c = first_ten_bytes(d.as_str());
            push_line(&mut lines, "  Release: ", c.as_str());
        },
        None => {},
    }
    let ghost l3 = views(lines@);
    match &v.description {
        Some(d) => {
            let t = trim_str(d.as_str());
            if t.unicode_len() > 0 {
                push_line(&mut lines, "  Description: ", t.as_str());
            }
        },
        None => {},
    }
    assert(l1 =~= l0 + seq!["  Status: "@ + state_word(*v)]);
    assert(l2 =~= l1 + date_lines("  Start: "@, v.start_date));
    assert(l3 =~= l2 + date_lines("  Release: "@, v.release_date));
    assert(views(lines@) =~= l3 + description_lines(v.description));
    lines
}

/// The details of a version in the project listing: its state, then its
/// start and release dates cut to the day.
pub open spec fn listing_details(v: ProjectVersion) -> Seq<Seq<char>> {
    seq![state_word(v)] + (match v.start_date {
        Some(d) => seq!["start "@ + short10(d@)],
        None => Seq::empty(),
    }) + match v.release_date {
        Some(d) => seq!["release "@ + short10(d@)],
        None => Seq::empty(),
    }
}

/// The line of a version in the project listing.
pub open spec fn listing_line_of(v: ProjectVersion) -> Seq<char> {
    "  • "@ + v.name@ + " ["@ + join(listing_details(v), " | "@) + "]"@
}

/// The line of a version in the project listing.
pub fn version_listing_line(v: &ProjectVersion) -> (r: String)
    requires
        version_dates_ok(*v),
    ensures
        r@ == listing_line_of(*v),
{
    let mut details: Vec<String> = Vec::new();
    let mut s = String::new();
    push_str(&mut s, state_text(v));
    details.push(s);
    let ghost d0 = views(details@);
    match &v.start_date {
        Some(d) => {
            let c = first_ten_bytes(d.as_str());
            push_line(&mut details, "start ", c.as_str());
        },
        None => {},
    }
    let ghost d1 = views(details@);
    match &v.release_date {
        Some(d) => {
            let c = first_ten_bytes(d.as_str());
            push_line(&mut details, "release ", c.as_str());
        },
        None => {},
    }
    assert(d0 =~= seq![state_word(*v)]);
    assert(views(details@) =~= listing_details(*v));
    let j = join_strings(&details, " | ");
    let mut line = String::new();
    push_str(&mut line, "  • ");
    push_str(&mut line, v.name.as_str());
    push_str(&mut line, " [");
    push_str(&mut line, j.as_str());
    push_str(&mut line, "]");
    line
}

/// The position of the version named `name`: the first with exactly that
/// name, else the first with that name ignoring ASCII case.
pub open spec fn version_position(vs: Seq<ProjectVersion>, name: Seq<char>) -> Option<int> {
    if exists|i: int| 0 <= i < vs.len() && vs[i].name@ == name {
        Some(choose|i: int| 0 <= i < vs.len() && vs[i].name@ == name && forall|j: int| 0 <= j < i ==> vs[j].name@ != name)
    } else if exists|i: int| 0 <= i < vs.len() && same_name(vs[i].name@, name) {
        Some(
            choose|i: int|
                0 <= i < vs.len() && same_name(vs[i].name@, name) && forall|j: int|
                    0 <= j < i ==> !same_name(vs[j].name@, name),
        )
    } else {
        None
    }
}

/// The version named `name` among `versions`.
pub fn find_version(versions: &Vec<ProjectVersion>, name: &str) -> (r: Option<usize>)
    ensures
        match r {
            Some(i) => i < versions@.len() && (versions@[i as int].name@ == name@ && forall|j: int|
                0 <= j < i ==> versions@[j].name@ != name@) || (!(exists|k: int|
                0 <= k < versions@.len() && versions@[k].name@ == name@) && same_name(
                versions@[i as int].name@,
                name@,
            ) && forall|j: int| 0 <= j < i ==> !same_name(versions@[j].name@, name@)),
            None => forall|k: int|
                0 <= k < versions@.len() ==> !same_name(#[trigger] versions@[k].name@, name@),
        },
{
    let mut i: usize = 0;
    while i < versions.len()
        invariant
            i <= versions@.len(),
            forall|j: int| 0 <= j < i ==> versions@[j].name@ != name@,
        decreases versions@.len() - i,
    {
        if str_eq(versions[i].name.as_str(), name) {
            return Some(i);
        }
        i = i + 1;
    }
    let mut k: usize = 0;
    while k < versions.len()
        invariant
            k <= versions@.len(),
            forall|j: int| 0 <= j < versions@.len() ==> versions@[j].name@ != name@,
            forall|j: int| 0 <= j < k ==> !same_name(versions@[j].name@, name@),
        decreases versions@.len() - k,
    {
        if eq_ignore_ascii_case(versions[k].name.as_str(), name) {
            return Some(k);
        }
        k = k + 1;
    }
    None
}

/// The lines of a backlog preview under a version: the open count, then the
/// open issues or a note that there are none, then how many more are open.
pub open spec fn preview_lines_of(p: VersionBacklogPreview) -> Seq<Seq<char>> {
    seq!["      Open backlog: "@ + decimal(p.total_open as nat)] + if p.issues@.len() == 0 {
        seq!["        ✓ No open backlog items"@]
    } else {
        p.issues@.map_values(
            |i: Issue| "        - "@ + i.key@ + " ["@ + i.status@ + "] "@ + i.summary@,
        ) + if p.total_open > p.issues@.len() {
            seq!["        … "@ + decimal((p.total_open - p.issues@.len()) as nat) + " more"@]
        } else {
            Seq::empty()
        }
    }
}

/// The lines of a backlog preview under a version.
pub fn version_preview_lines(p: &VersionBacklogPreview) -> (r: Vec<String>)
    ensures
        views(r@) == preview_lines_of(*p),
{
    let mut lines: Vec<String> = Vec::new();
    let mut head = String::new();
    push_str(&mut head, "      Open backlog: ");
    push_decimal(&mut head, p.total_open);
    lines.push(head);
    if p.issues.len() == 0 {
        let mut l = String::new();
        push_str(&mut l, "        ✓ No open backlog items");
        lines.push(l);
        assert(views(lines@) =~= preview_lines_of(*p));
        return lines;
    }
    let ghost l0 = views(lines@);
    let ghost f = |i: Issue| "        - "@ + i.key@ + " ["@ + i.status@ + "] "@ + i.summary@;
    let mut k: usize = 0;
    while k < p.issues.len()
        invariant
            k <= p.issues@.len(),
            views(lines@) == l0 + p.issues@.take(k as int).map_values(f),
            f == (|i: Issue| "        - "@ + i.key@ + " ["@ + i.status@ + "] "@ + i.summary@),
        decreases p.issues@.len() - k,
    {
        let it = &p.issues[k];
        let mut l = String::new();
        push_str(&mut l, "        - ");
        push_str(&mut l, it.key.as_str());
        push_str(&mut l, " [");
        push_str(&mut l, it.status.as_str());
        push_str(&mut l, "] ");
        push_str(&mut l, it.summary.as_str());
        let ghost before = views(lines@);
        lines.push(l);
        assert(views(lines@) =~= before.push(f(p.issues@[k as int])));
        k = k + 1;
        assert(p.issues@.take(k as int).map_values(f) =~= p.issues@.take(k - 1).map_values(f).push(
            f(p.issues@[k - 1]),
        ));
    }
    assert(p.issues@.take(k as int) =~= p.issues@);
    assert(l0 =~= seq!["      Open backlog: "@ + decimal(p.total_open as nat)]);
    let ghost mid = views(lines@);
    let n = p.issues.len() as u64;
    if p.total_open > n {
        let mut l = String::new();
        push_str(&mut l, "        … ");
        push_decimal(&mut l, p.total_open - n);
        push_str(&mut l, " more");
        lines.push(l);
        assert(views(lines@) =~= mid.push("        … "@ + decimal((p.total_open - p.issues@.len()) as nat) + " more"@));
    }
    assert(views(lines@) =~= preview_lines_of(*p));
    lines
}

/// The summary line of a fix version of an issue: its name with its state
/// and release date when the project's versions hold one of that name.
pub open spec fn summary_line_of(name: Seq<char>, v: Option<ProjectVersion>) -> Seq<char> {
    match v {
        Some(v) => "    • "@ + v.name@ + " ("@ + join(
            seq![state_word(v)] + match v.release_date {
                Some(d) => seq!["release "@ + short10(d@)],
                None => Seq::empty(),
            },
            ", "@,
        ) + ")"@,
        None => "    • "@ + name,
    }
}

/// The summary line of a fix version of an issue, from the project's version
/// of that name if any.
pub fn version_summary_line(name: &str, v: Option<&ProjectVersion>) -> (r: String)
    requires
        match v {
            Some(v) => short_date_ok(v.release_date),
            None => true,
        },
    ensures
        r@ == summary_line_of(
            name@,
            match v {
                Some(v) => Some(*v),
                None => None,
            },
        ),
{
    let mut line = String::new();
    push_str(&mut line, "    • ");
    match v {
        Some(v) => {
            let mut badges: Vec<String> = Vec::new();
            let mut s = String::new();
            push_str(&mut s, state_text(v));
            badges.push(s);
            let ghost b0 = views(badges@);
            match &v.release_date {
                Some(d) => {
                    let c = first_ten_bytes(d.as_str());
                    push_line(&mut badges, "release ", c.as_str());
                },
                None => {},
            }
            assert(b0 =~= seq![state_word(*v)]);
            assert(views(badges@) =~= seq![state_word(*v)] + match v.release_date {
                Some(d) => seq!["release "@ + short10(d@)],
                None => Seq::empty(),
            });
            push_str(&mut line, v.name.as_str());
            push_str(&mut line, " (");
            let j = join_strings(&badges, ", ");
            push_str(&mut line, j.as_str());
            push_str(&mut line, ")");
        },
        None => push_str(&mut line, name),
    }
    line
}

/// The report on one fix version's open backlog: a heading, the version's
/// metadata when the project has it, the open count, a blank line, then the
/// open issues or a note that there are none.
pub open spec fn backlog_report_of(
    project: Seq<char>,
    name: Seq<char>,
    meta: Option<ProjectVersion>,
    total: u64,
    issues: Seq<Issue>,
) -> Seq<Seq<char>> {
    seq!["Fix version backlog — "@ + project + " / "@ + name] + (match meta {
        Some(v) => metadata_lines_of(project, v, None),
        None => Seq::empty(),
    }) + seq!["  Open backlog: "@ + decimal(total as nat), Seq::empty()] + if issues.len() == 0 {
        seq!["  ✓ No open backlog items"@]
    } else {
        issues.map_values(|i: Issue| "  - "@ + i.key@ + " ["@ + i.status@ + "] "@ + i.summary@)
    }
}

/// The report on one fix version's open backlog.
pub fn version_backlog_report(
    project_key: &str,
    version_name: &str,
    meta: Option<&ProjectVersion>,
    total: u64,
    issues: &Vec<Issue>,
) -> (r: Vec<String>)
    requires
        match meta {
            Some(v) => version_dates_ok(*v),
            None => true,
        },
    ensures
        views(r@) == backlog_report_of(
            project_key@,
            version_name@,
            match meta {
                Some(v) => Some(*v),
                None => None,
            },
            total,
            issues@,
        ),
{
    let mut lines: Vec<String> = Vec::new();
    let mut head = String::new();
    push_str(&mut head, "Fix version backlog — ");
    push_str(&mut head, project_key);
    push_str(&mut head, " / ");
    push_str(&mut head, version_name);
    lines.push(head);
    let ghost l0 = views(lines@);
    match meta {
        Some(v) => {
            let m = version_metadata_lines(project_key, v, None);
            let mut k: usize = 0;
            while k < m.len()
                invariant
                    k <= m@.len(),
                    views(lines@) == l0 + views(m@).take(k as int),
                decreases m@.len() - k,
            {
                let ghost before = views(lines@);
                let mut c = String::new();
                push_str(&mut c, m[k].as_str());
                lines.push(c);
                assert(views(lines@) =~= before.push(m@[k as int]@));
                k = k + 1;
                assert(views(m@).take(k as int) =~= views(m@).take(k - 1).push(m@[k - 1]@));
            }
            assert(views(m@).take(k as int) =~= views(m@));
        },
        None => {},
    }
    let ghost l1 = views(lines@);
    assert(l0 =~= seq!["Fix version backlog — "@ + project_key@ + " / "@ + version_name@]);
    assert(l1 =~= l0 + match meta {
        Some(v) => metadata_lines_of(project_key@, *v, None),
        None => Seq::<Seq<char>>::empty(),
    });
    let mut open = String::new();
    push_str(&mut open, "  Open backlog: ");
    push_decimal(&mut open, total);
    lines.push(open);
    lines.push(String::new());
    let ghost l2 = views(lines@);
    assert(l2 =~= l1 + seq!["  Open backlog: "@ + decimal(total as nat), Seq::empty()]);
    if issues.len() == 0 {
        let mut l = String::new();
        push_str(&mut l, "  ✓ No open backlog items");
        lines.push(l);
    } else {
        let ghost f = |i: Issue| "  - "@ + i.key@ + " ["@ + i.status@ + "] "@ + i.summary@;
        let mut k: usize = 0;
        while k < issues.len()
            invariant
                k <= issues@.len(),
                views(lines@) == l2 + issues@.take(k as int).map_values(f),
                f == (|i: Issue| "  - "@ + i.key@ + " ["@ + i.status@ + "] "@ + i.summary@),
            decreases issues@.len() - k,
        {
            let it = &issues[k];
            let mut l = String::new();
            push_str(&mut l, "  - ");
            push_str(&mut l, it.key.as_str());
            push_str(&mut l, " [");
            push_str(&mut l, it.status.as_str());
            push_str(&mut l, "] ");
            push_str(&mut l, it.summary.as_str());
            let ghost before = views(lines@);
            lines.push(l);
            assert(views(lines@) =~= before.push(f(issues@[k as int])));
            k = k + 1;
            assert(issues@.take(k as int).map_values(f) =~= issues@.take(k - 1).map_values(f).push(
                f(issues@[k - 1]),
            ));
        }
        assert(issues@.take(k as int) =~= issues@);
    }
    assert(views(lines@) =~= backlog_report_of(
        project_key@,
        version_name@,
        match meta {
            Some(v) => Some(*v),
            None => None,
        },
        total,
        issues@,
    ));
    lines
}

/// The listing of a project's fix versions: a heading, a blank line, one line
/// per version, a blank line, then three tips.
pub open spec fn versions_report_of(project: Seq<char>, vs: Seq<ProjectVersion>) -> Seq<Seq<char>> {
    seq!["Project fix versions — "@ + project, Seq::empty()] + vs.map_values(|v: ProjectVersion| listing_line_of(v))
        + seq![
        Seq::empty(),
        "Tip: run `jirac issue versions -p "@ + project + " --version \"<name>\"` to preview backlog for one fix version."@,
        "Tip: add `--set-name`, `--description`, `--set-start-date YYYY-MM-DD`, `--set-release-date YYYY-MM-DD`, `--released`, or `--archived` with --version to update metadata."@,
        "Tip: add `--create --version \"<name>\"` to create a new fix version in the project."@,
    ]
}

/// The listing of a project's fix versions.
pub fn versions_report(project_key: &str, versions: &Vec<ProjectVersion>) -> (r: Vec<String>)
    requires
        forall|i: int| 0 <= i < versions@.len() ==> version_dates_ok(#[trigger] versions@[i]),
    ensures
        views(r@) == versions_report_of(project_key@, versions@),
{
    let mut lines: Vec<String> = Vec::new();
    let mut head = String::new();
    push_str(&mut head, "Project fix versions — ");
    push_str(&mut head, project_key);
    lines.push(head);
    lines.push(String::new());
    let ghost l0 = views(lines@);
    let mut k: usize = 0;
    while k < versions.len()
        invariant
            k <= versions@.len(),
            forall|i: int| 0 <= i < versions@.len() ==> version_dates_ok(#[trigger] versions@[i]),
            views(lines@) == l0 + versions@.take(k as int).map_values(|v: ProjectVersion| listing_line_of(v)),
        decreases versions@.len() - k,
    {
        let l = version_listing_line(&versions[k]);
        let ghost before = views(lines@);
        lines.push(l);
        assert(views(lines@) =~= before.push(listing_line_of(versions@[k as int])));
        k = k + 1;
        assert(versions@.take(k as int).map_values(|v: ProjectVersion| listing_line_of(v)) =~= versions@.take(
            k - 1,
        ).map_values(|v: ProjectVersion| listing_line_of(v)).push(listing_line_of(versions@[k - 1])));
    }
    assert(versions@.take(k as int) =~= versions@);
    let ghost l1 = views(lines@);
    lines.push(String::new());
    let mut t1 = String::new();
    push_str(&mut t1, "Tip: run `jirac issue versions -p ");
    push_str(&mut t1, project_key);
    push_str(&mut t1, " --version \"<name>\"` to preview backlog for one fix version.");
    lines.push(t1);
    let mut t2 = String::new();
    push_str(
        &mut t2,
        "Tip: add `--set-name`, `--description`, `--set-start-date YYYY-MM-DD`, `--set-release-date YYYY-MM-DD`, `--released`, or `--archived` with --version to update metadata.",
    );
    lines.push(t2);
    let mut t3 = String::new();
    push_str(&mut t3, "Tip: add `--create --version \"<name>\"` to create a new fix version in the project.");
    lines.push(t3);
    assert(l0 =~= seq!["Project fix versions — "@ + project_key@, Seq::empty()]);
    assert(views(lines@) =~= versions_report_of(project_key@, versions@));
    lines
}

} // verus!
