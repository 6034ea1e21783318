//! Execution plans: the Markdown documents under `docs/exec-plan/` of a
//! repository, with a title and a status in their header.
//!
//! Plans with status [`RUNNABLE_STATUS`] can be started as tasks.

use vstd::prelude::*;

use crate::sorting::{
    is_order, is_sorted, law_sort_orders_the_same_items, lemma_sort_map, lemma_text_le_total,
    lemma_text_le_transitive, order_of, sort, stable_sort, text_le, text_not_after, Sortable,
};
use crate::text::{
    begins_with, concat2, concat3, cut_at_first, cut_at_last, last_of,
    law_cuts_leave_the_character_out, law_first_is_found, law_last_is_found,
    law_parts_of_a_text_are_found, law_trimmed_texts_stay, lemma_split_nonempty,
    lemma_split_one_more, lemma_split_one_piece, lemma_views_push, lines, lines_of, opt_view,
    rsplit_once, same, split, split_at_char, split_once_either, starts_with, strip_prefix, trim,
    trimmed, views, without_prefix,
};

verus! {

/// Status of a plan that is ready to be picked up for execution.
pub const RUNNABLE_STATUS: &'static str = "待运行";

/// Where the plans of a repository are.
pub const PLAN_ROOT: &'static str = "docs/exec-plan";

/// Why a plan cannot be read.
#[derive(Debug, PartialEq, Eq)]
pub enum ExecPlanError {
    InvalidPath(String),
    Io(String),
}

impl ExecPlanError {
    /// The message of this error.
    pub fn message(&self) -> (text: String)
        ensures
            text@ == match self {
                ExecPlanError::InvalidPath(path) => "invalid plan path: "@ + path@,
                ExecPlanError::Io(message) => message@,
            },
    {
        match self {
            ExecPlanError::InvalidPath(path) => concat2("invalid plan path: ", path),
            ExecPlanError::Io(message) => message.clone(),
        }
    }
}

/// A plan document.
#[derive(Debug, PartialEq, Eq)]
pub struct ExecPlanDoc {
    /// Path within the repository, such as `docs/exec-plan/agents/foo.md`.
    pub path: String,
    /// First-level heading.
    pub title: String,
    /// Header field `状态`.
    pub status: String,
    /// Header field `最近更新`.
    pub updated: Option<String>,
}

/// Model of [`ExecPlanDoc`].
pub struct PlanView {
    pub path: Seq<char>,
    pub title: Seq<char>,
    pub status: Seq<char>,
    pub updated: Option<Seq<char>>,
}

impl View for ExecPlanDoc {
    type V = PlanView;

    open spec fn view(&self) -> PlanView {
        PlanView {
            path: self.path@,
            title: self.title@,
            status: self.status@,
            updated: opt_view(self.updated),
        }
    }
}

// ---------------------------------------------------------------------------
// Headers
// ---------------------------------------------------------------------------

/// What the header of a plan says so far.
pub struct HeaderView {
    pub title: Option<Seq<char>>,
    pub status: Option<Seq<char>>,
    pub updated: Option<Seq<char>>,
}

/// The key and the value of a header line `- <key>：<value>`, either colon.
pub open spec fn header_field(line: Seq<char>) -> Option<(Seq<char>, Seq<char>)> {
    match without_prefix(line, "- "@) {
        Some(rest) => match cut_at_first(rest, ':', '：') {
            Some((key, value)) => Some((trimmed(key), trimmed(value))),
            None => None,
        },
        None => None,
    }
}

/// What one more line says: the first heading is the title, and later fields
/// overrule earlier ones.
pub open spec fn header_step(before: HeaderView, line: Seq<char>) -> HeaderView {
    if before.title is None && begins_with(line, "# "@) {
        HeaderView { title: Some(trimmed(line.skip("# "@.len() as int))), ..before }
    } else {
        match header_field(line) {
            Some((key, value)) => if key == "状态"@ {
                HeaderView { status: Some(value), ..before }
            } else if key == "最近更新"@ {
                HeaderView { updated: Some(value), ..before }
            } else {
                before
            },
            None => before,
        }
    }
}

/// What the lines of a header say.
pub open spec fn header_of(lines: Seq<Seq<char>>) -> HeaderView
    decreases lines.len(),
{
    if lines.len() == 0 {
        HeaderView { title: None, status: None, updated: None }
    } else {
        header_step(header_of(lines.drop_last()), lines.last())
    }
}

/// The lines before the first section.
pub open spec fn header_lines(lines: Seq<Seq<char>>) -> Seq<Seq<char>>
    decreases lines.len(),
{
    if lines.len() == 0 {
        lines
    } else {
        let before = header_lines(lines.drop_last());
        if before.len() == lines.len() - 1 && !begins_with(lines.last(), "## "@) {
            lines
        } else {
            before
        }
    }
}

/// The plan that a document is; none where its header has no status.
pub open spec fn plan_of(relative_path: Seq<char>, content: Seq<char>) -> Option<PlanView> {
    let header = header_of(header_lines(lines_of(content)));
    match header.status {
        Some(status) => Some(
            PlanView {
                path: relative_path,
                title: match header.title {
                    Some(title) => title,
                    None => relative_path,
                },
                status,
                updated: header.updated,
            },
        ),
        None => None,
    }
}

/// The model of an optional plan.
pub open spec fn opt_plan(plan: Option<ExecPlanDoc>) -> Option<PlanView> {
    match plan {
        Some(plan) => Some(plan@),
        None => None,
    }
}

proof fn lemma_header_lines(lines: Seq<Seq<char>>, len: int)
    requires
        0 <= len <= lines.len(),
        header_lines(lines.take(len)) == lines.take(len),
        len < lines.len() ==> begins_with(lines[len], "## "@),
    ensures
        header_lines(lines) == lines.take(len),
    decreases lines.len(),
{
    if len == lines.len() {
        assert(lines.take(len) =~= lines);
    } else if len == lines.len() - 1 {
        assert(lines.drop_last() =~= lines.take(len));
    } else {
        assert(lines.drop_last().take(len) =~= lines.take(len));
        lemma_header_lines(lines.drop_last(), len);
    }
}

/// Parses title, status and date from the Markdown of a plan.
///
/// Header lines are only recognized before the first `## ` section. Without a
/// status header the document is no plan.
pub fn parse_plan(relative_path: &str, content: &str) -> (plan: Option<ExecPlanDoc>)
    ensures
        opt_plan(plan) == plan_of(relative_path@, content@),
{
    let lines = lines(content);
    let ghost all = views(lines@);
    let mut title: Option<String> = None;
    let mut status: Option<String> = None;
    let mut updated: Option<String> = None;
    let mut i: usize = 0;
    assert(all.take(0) =~= Seq::empty());
    while i < lines.len() && !starts_with(&lines[i], "## ")
        invariant
            i <= lines@.len(),
            all == views(lines@),
            header_lines(all.take(i as int)) == all.take(i as int),
            (HeaderView {
                title: opt_view(title),
                status: opt_view(status),
                updated: opt_view(updated),
            }) == header_of(all.take(i as int)),
        decreases lines@.len() - i,
    {
        let line = &lines[i];
        proof {
            let seen = all.take(i + 1);
            assert(seen.drop_last() =~= all.take(i as int));
            assert(seen.last() == line@);
        }
        let heading = if title.is_none() {
            strip_prefix(line, "# ")
        } else {
            None
        };
        match heading {
            Some(rest) => {
                title = Some(trim(&rest));
            },
            None => {
                if let Some(rest) = strip_prefix(line, "- ") {
                    if let Some((key, value)) = split_once_either(&rest, ':', '：') {
                        let key = trim(&key);
                        if same(&key, "状态") {
                            status = Some(trim(&value));
                        } else if same(&key, "最近更新") {
                            updated = Some(trim(&value));
                        }
                    }
                }
            },
        }
        i = i + 1;
    }
    proof {
        lemma_header_lines(all, i as int);
    }
    match status {
        Some(status) => Some(
            ExecPlanDoc {
                path: relative_path.to_owned(),
                title: match title {
                    Some(title) => title,
                    None => relative_path.to_owned(),
                },
                status,
                updated,
            },
        ),
        None => None,
    }
}

proof fn lemma_header_of_cut(lines: Seq<Seq<char>>, section: int)
    requires
        0 <= section < lines.len(),
        begins_with(lines[section], "## "@),
    ensures
        header_lines(lines) == header_lines(lines.take(section)),
        header_lines(lines).len() <= section,
    decreases lines.len(),
{
    if section == lines.len() - 1 {
        assert(lines.drop_last() =~= lines.take(section));
        lemma_header_lines_len(lines.drop_last());
    } else {
        lemma_header_of_cut(lines.drop_last(), section);
        assert(lines.drop_last().take(section) =~= lines.take(section));
    }
}

proof fn lemma_header_lines_len(lines: Seq<Seq<char>>)
    ensures
        header_lines(lines).len() <= lines.len(),
    decreases lines.len(),
{
    if lines.len() > 0 {
        lemma_header_lines_len(lines.drop_last());
    }
}

/// Nothing after the first section counts: two documents with the same lines
/// before a section line have the same header.
pub proof fn law_sections_are_ignored(left: Seq<Seq<char>>, right: Seq<Seq<char>>, section: int)
    requires
        0 <= section < left.len(),
        section < right.len(),
        left.take(section) == right.take(section),
        begins_with(left[section], "## "@),
        begins_with(right[section], "## "@),
    ensures
        header_of(header_lines(left)) == header_of(header_lines(right)),
{
    lemma_header_of_cut(left, section);
    lemma_header_of_cut(right, section);
}

/// A header that says nothing has no title, no status and no date. The first
/// heading is the title, and a later one changes nothing. A line such as
/// `- 状态：待运行` sets the status, with either colon, and so does
/// `- 最近更新：…` the date; each counts without the white space around it. Other
/// lines say nothing.
pub proof fn law_header_lines_say_title_status_and_date(
    lines: Seq<Seq<char>>,
    line: Seq<char>,
    value: Seq<char>,
)
    ensures
        header_of(Seq::empty()) == (HeaderView { title: None, status: None, updated: None }),
        header_of(lines).title is None ==> header_of(lines.push("# "@ + value)) == (HeaderView {
            title: Some(trimmed(value)),
            status: header_of(lines).status,
            updated: header_of(lines).updated,
        }),
        header_of(lines).title is Some ==> header_of(lines.push("# "@ + value)) == header_of(lines),
        header_of(lines.push("- "@ + "状态"@ + seq!['：'] + value)) == (HeaderView {
            title: header_of(lines).title,
            status: Some(trimmed(value)),
            updated: header_of(lines).updated,
        }),
        header_of(lines.push("- "@ + "状态"@ + seq![':'] + value)) == header_of(
            lines.push("- "@ + "状态"@ + seq!['：'] + value),
        ),
        header_of(lines.push("- "@ + "最近更新"@ + seq!['：'] + value)) == (HeaderView {
            title: header_of(lines).title,
            status: header_of(lines).status,
            updated: Some(trimmed(value)),
        }),
        header_of(lines.push("- "@ + "最近更新"@ + seq![':'] + value)) == header_of(
            lines.push("- "@ + "最近更新"@ + seq!['：'] + value),
        ),
        !begins_with(line, "# "@) && !begins_with(line, "- "@) ==> header_of(lines.push(line))
            == header_of(lines),
{
    reveal_strlit("# ");
    reveal_strlit("- ");
    reveal_strlit("状态");
    reveal_strlit("最近更新");
    assert(lines.push(line).drop_last() =~= lines);
    let heading = "# "@ + value;
    assert(lines.push(heading).drop_last() =~= lines);
    law_parts_of_a_text_are_found(Seq::empty(), "# "@, value);
    assert(heading.skip("# "@.len() as int) =~= value);
    assert(!begins_with(heading, "- "@)) by {
        assert(heading[0] == '#');
        if begins_with(heading, "- "@) {
            assert(heading.subrange(0, 2)[0] == '-');
        }
    }
    assert("状态"@ != "最近更新"@) by {
        assert("状态"@.len() == 2 && "最近更新"@.len() == 4);
    }
    lemma_field_line(lines, "状态"@, ':', value);
    lemma_field_line(lines, "状态"@, '：', value);
    lemma_field_line(lines, "最近更新"@, ':', value);
    lemma_field_line(lines, "最近更新"@, '：', value);
}

proof fn lemma_field_line(lines: Seq<Seq<char>>, key: Seq<char>, colon: char, value: Seq<char>)
    requires
        colon == ':' || colon == '：',
        key == "状态"@ || key == "最近更新"@,
    ensures
        header_of(lines.push("- "@ + key + seq![colon] + value)) == ({
            let before = header_of(lines);
            if key == "状态"@ {
                HeaderView { status: Some(trimmed(value)), ..before }
            } else {
                HeaderView { updated: Some(trimmed(value)), ..before }
            }
        }),
{
    reveal_strlit("# ");
    reveal_strlit("- ");
    reveal_strlit("状态");
    reveal_strlit("最近更新");
    let line = "- "@ + key + seq![colon] + value;
    let rest = key + seq![colon] + value;
    assert(lines.push(line).drop_last() =~= lines);
    assert(line =~= "- "@ + rest);
    law_parts_of_a_text_are_found(Seq::empty(), "- "@, rest);
    assert(!begins_with(line, "# "@)) by {
        assert(line[0] == '-');
        if begins_with(line, "# "@) {
            assert(line.subrange(0, 2)[0] == '#');
        }
    }
    law_first_is_found(rest, ':', '：');
    let at = key.len() as int;
    assert(rest[at] == colon);
    assert forall|k: int| 0 <= k < at implies #[trigger] rest[k] != ':' && rest[k] != '：' by {
        assert(rest[k] == key[k]);
    }
    assert(rest.take(at) =~= key);
    assert(rest.skip(at + 1) =~= value);
    law_trimmed_texts_stay(key);
}

/// The header of a document is what stands before its first section, all of it.
pub proof fn law_header_ends_at_the_first_section(lines: Seq<Seq<char>>, section: int)
    requires
        0 <= section <= lines.len(),
        section < lines.len() ==> begins_with(lines[section], "## "@),
        forall|k: int| 0 <= k < section ==> !begins_with(#[trigger] lines[k], "## "@),
    ensures
        header_lines(lines) == lines.take(section),
{
    lemma_no_section(lines.take(section));
    lemma_header_lines(lines, section);
}

proof fn lemma_no_section(lines: Seq<Seq<char>>)
    requires
        forall|k: int| 0 <= k < lines.len() ==> !begins_with(#[trigger] lines[k], "## "@),
    ensures
        header_lines(lines) == lines,
    decreases lines.len(),
{
    if lines.len() > 0 {
        let rest = lines.drop_last();
        assert(forall|k: int| 0 <= k < rest.len() ==> #[trigger] rest[k] == lines[k]);
        lemma_no_section(rest);
    }
}

/// A document is a plan exactly where its header has a status. The plan has its
/// path, the title of the header or else its path for one, the status and the
/// date of the header.
pub proof fn law_plans_have_a_status(path: Seq<char>, content: Seq<char>)
    ensures
        ({
            let header = header_of(header_lines(lines_of(content)));
            &&& header.status is None ==> plan_of(path, content) is None
            &&& header.status matches Some(status) ==> (plan_of(path, content) matches Some(plan)
                && plan.path == path && plan.status == status && plan.updated == header.updated
                && match header.title {
                Some(title) => plan.title == title,
                None => plan.title == path,
            })
        }),
{
}

// ---------------------------------------------------------------------------
// Selection
// ---------------------------------------------------------------------------

/// A document of a repository: its path within it, and its content.
#[derive(Debug, PartialEq, Eq)]
pub struct PlanFile {
    pub path: String,
    pub content: String,
}

impl Sortable for ExecPlanDoc {
    open spec fn precedes(self, other: ExecPlanDoc) -> bool {
        text_le(self.path@, other.path@)
    }

    fn may_precede(&self, other: &ExecPlanDoc) -> (may: bool) {
        text_not_after(&self.path, &other.path)
    }
}

/// The plans with a status among documents.
pub open spec fn plans_with_status(files: Seq<PlanFile>, wanted: Seq<char>) -> Seq<PlanView>
    decreases files.len(),
{
    if files.len() == 0 {
        Seq::empty()
    } else {
        let before = plans_with_status(files.drop_last(), wanted);
        match plan_of(files.last().path@, files.last().content@) {
            Some(plan) => if plan.status == wanted {
                before.push(plan)
            } else {
                before
            },
            None => before,
        }
    }
}

/// The models of plans.
pub open spec fn plan_views(plans: Seq<ExecPlanDoc>) -> Seq<PlanView> {
    plans.map_values(|plan: ExecPlanDoc| plan@)
}

/// The order of plans, by path.
pub open spec fn by_path() -> spec_fn(PlanView, PlanView) -> bool {
    |a: PlanView, b: PlanView| text_le(a.path, b.path)
}

proof fn lemma_sort_views(plans: Seq<ExecPlanDoc>)
    ensures
        plan_views(stable_sort(plans, order_of::<ExecPlanDoc>())) == stable_sort(
            plan_views(plans),
            by_path(),
        ),
{
    lemma_sort_map(
        plans,
        |plan: ExecPlanDoc| plan@,
        order_of::<ExecPlanDoc>(),
        by_path(),
    );
}

/// The plans with a status among the documents of a repository, by path.
pub fn scan_plans(files: &Vec<PlanFile>, wanted_status: &str) -> (plans: Vec<ExecPlanDoc>)
    ensures
        plan_views(plans@) == stable_sort(plans_with_status(files@, wanted_status@), by_path()),
{
    let mut plans: Vec<ExecPlanDoc> = Vec::new();
    let mut i: usize = 0;
    assert(plan_views(plans@) =~= Seq::empty());
    while i < files.len()
        invariant
            i <= files@.len(),
            plan_views(plans@) == plans_with_status(files@.take(i as int), wanted_status@),
        decreases files@.len() - i,
    {
        proof {
            let seen = files@.take(i + 1);
            assert(seen.drop_last() =~= files@.take(i as int));
            assert(seen.last() == files@[i as int]);
        }
        if let Some(plan) = parse_plan(&files[i].path, &files[i].content) {
            if same(&plan.status, wanted_status) {
                let ghost before = plans@;
                plans.push(plan);
                assert(plan_views(plans@) =~= plan_views(before).push(plan@));
            }
        }
        i = i + 1;
    }
    assert(files@.take(files@.len() as int) =~= files@);
    proof {
        lemma_sort_views(plans@);
    }
    sort(plans)
}

/// The order of plans is one.
pub proof fn lemma_by_path_is_order()
    ensures
        is_order(by_path()),
{
    let le = by_path();
    assert forall|a: PlanView, b: PlanView| #[trigger] le(a, b) || le(b, a) by {
        lemma_text_le_total(a.path, b.path);
    }
    assert forall|a: PlanView, b: PlanView, c: PlanView| #[trigger] le(a, b) && #[trigger] le(
        b,
        c,
    ) implies le(a, c) by {
        lemma_text_le_transitive(a.path, b.path, c.path);
    }
}

/// A scan lists its plans by path, and lists each plan with the wanted status
/// as often as it is there, and nothing else.
pub proof fn law_scan_lists_the_wanted_plans(files: Seq<PlanFile>, wanted: Seq<char>)
    ensures
        ({
            let listed = stable_sort(plans_with_status(files, wanted), by_path());
            &&& is_sorted(listed, by_path())
            &&& listed.to_multiset() == plans_with_status(files, wanted).to_multiset()
        }),
        forall|i: int|
            0 <= i < plans_with_status(files, wanted).len() ==> (#[trigger] plans_with_status(
                files,
                wanted,
            )[i]).status == wanted,
    decreases files.len(),
{
    lemma_by_path_is_order();
    law_sort_orders_the_same_items(plans_with_status(files, wanted), by_path());
    if files.len() > 0 {
        law_scan_lists_the_wanted_plans(files.drop_last(), wanted);
        let before = plans_with_status(files.drop_last(), wanted);
        assert forall|i: int| 0 <= i < plans_with_status(files, wanted).len() implies (
        #[trigger] plans_with_status(files, wanted)[i]).status == wanted by {
            if i < before.len() {
                assert(before[i].status == wanted);
            }
        }
    }
}

/// A scan lists the plan of every document that has the wanted status, and what
/// it lists is such a plan. Plans are listed in the order of their paths.
pub proof fn law_scan_finds_every_wanted_plan(files: Seq<PlanFile>, wanted: Seq<char>)
    ensures
        forall|i: int|
            0 <= i < files.len() ==> (plan_of(
                (#[trigger] files[i]).path@,
                files[i].content@,
            ) matches Some(plan) ==> (plan.status == wanted ==> plans_with_status(
                files,
                wanted,
            ).contains(plan))),
        forall|k: int|
            0 <= k < plans_with_status(files, wanted).len() ==> exists|i: int|
                0 <= i < files.len() && plan_of((#[trigger] files[i]).path@, files[i].content@)
                    == Some(#[trigger] plans_with_status(files, wanted)[k]),
        forall|i: int, j: int|
            0 <= i < j < stable_sort(plans_with_status(files, wanted), by_path()).len() ==> text_le(
                (#[trigger] stable_sort(plans_with_status(files, wanted), by_path())[i]).path,
                (#[trigger] stable_sort(plans_with_status(files, wanted), by_path())[j]).path,
            ),
{
    law_scan_lists_the_wanted_plans(files, wanted);
    lemma_every_wanted_plan(files, wanted);
}

proof fn lemma_every_wanted_plan(files: Seq<PlanFile>, wanted: Seq<char>)
    ensures
        forall|i: int|
            0 <= i < files.len() ==> (plan_of(
                (#[trigger] files[i]).path@,
                files[i].content@,
            ) matches Some(plan) ==> (plan.status == wanted ==> plans_with_status(
                files,
                wanted,
            ).contains(plan))),
        forall|k: int|
            0 <= k < plans_with_status(files, wanted).len() ==> exists|i: int|
                0 <= i < files.len() && plan_of((#[trigger] files[i]).path@, files[i].content@)
                    == Some(#[trigger] plans_with_status(files, wanted)[k]),
    decreases files.len(),
{
    if files.len() > 0 {
        let rest = files.drop_last();
        let last = files.last();
        let before = plans_with_status(rest, wanted);
        let all = plans_with_status(files, wanted);
        lemma_every_wanted_plan(rest, wanted);
        assert(forall|k: int| 0 <= k < before.len() ==> #[trigger] all[k] == before[k]);
        assert forall|i: int| 0 <= i < files.len() implies (plan_of(
            (#[trigger] files[i]).path@,
            files[i].content@,
        ) matches Some(plan) ==> (plan.status == wanted ==> all.contains(plan))) by {
            if let Some(plan) = plan_of(files[i].path@, files[i].content@) {
                if plan.status == wanted {
                    if i < rest.len() {
                        assert(rest[i] == files[i]);
                        assert(before.contains(plan));
                        let k = choose|k: int| 0 <= k < before.len() && before[k] == plan;
                        assert(all[k] == plan);
                    } else {
                        assert(all[before.len() as int] == plan);
                    }
                }
            }
        }
        assert forall|k: int| 0 <= k < all.len() implies exists|i: int|
            0 <= i < files.len() && plan_of((#[trigger] files[i]).path@, files[i].content@) == Some(
                #[trigger] all[k],
            ) by {
            if k < before.len() {
                assert(all[k] == before[k]);
                let i = choose|i: int|
                    0 <= i < rest.len() && plan_of((#[trigger] rest[i]).path@, rest[i].content@)
                        == Some(before[k]);
                assert(files[i] == rest[i]);
            } else {
                assert(files[files.len() - 1] == last);
            }
        }
    }
}

// ---------------------------------------------------------------------------
// Paths
// ---------------------------------------------------------------------------

/// The extension of a file name: what follows its last dot, unless that is its
/// first character.
pub open spec fn extension_of(name: Seq<char>) -> Option<Seq<char>> {
    match cut_at_last(name, '.') {
        Some((stem, extension)) => if stem.len() > 0 {
            Some(extension)
        } else {
            None
        },
        None => None,
    }
}

/// Whether a file name has the extension of a Markdown document.
pub open spec fn is_markdown(name: Seq<char>) -> bool {
    extension_of(name) == Some("md"@)
}

/// The components that a path names: its pieces between slashes without the
/// empty ones and the dots.
pub open spec fn named_components(pieces: Seq<Seq<char>>) -> Seq<Seq<char>>
    decreases pieces.len(),
{
    if pieces.len() == 0 {
        pieces
    } else {
        let before = named_components(pieces.drop_last());
        if pieces.last().len() == 0 || pieces.last() == "."@ {
            before
        } else {
            before.push(pieces.last())
        }
    }
}

/// The components of a path.
pub open spec fn components_of(path: Seq<char>) -> Seq<Seq<char>> {
    named_components(split_at_char(path, '/'))
}

/// Whether a path is relative and goes nowhere but down: it begins neither
/// with a slash nor with a dot component, and no component is a double dot.
pub open spec fn goes_down(path: Seq<char>) -> bool {
    let pieces = split_at_char(path, '/');
    &&& !begins_with(path, "/"@)
    &&& pieces[0] != "."@
    &&& forall|i: int| 0 <= i < pieces.len() ==> #[trigger] pieces[i] != ".."@
}

/// Whether a path is that of a plan: down from the repository into
/// `docs/exec-plan`, to a Markdown document.
pub open spec fn is_plan_path(path: Seq<char>) -> bool {
    let components = components_of(path);
    &&& goes_down(path)
    &&& components.len() >= 2
    &&& components[0] == "docs"@
    &&& components[1] == "exec-plan"@
    &&& is_markdown(components.last())
}

/// Whether a file name has the extension of a Markdown document.
pub fn has_markdown_extension(name: &str) -> (markdown: bool)
    ensures
        markdown == is_markdown(name@),
{
    match rsplit_once(name, '.') {
        Some((stem, extension)) => !stem.as_str().is_empty() && same(&extension, "md"),
        None => false,
    }
}

fn keep_named(pieces: &Vec<String>) -> (components: Vec<String>)
    ensures
        views(components@) == named_components(views(pieces@)),
{
    let mut components: Vec<String> = Vec::new();
    let mut i: usize = 0;
    assert(views(components@) =~= Seq::empty());
    while i < pieces.len()
        invariant
            i <= pieces@.len(),
            views(components@) == named_components(views(pieces@).take(i as int)),
        decreases pieces@.len() - i,
    {
        proof {
            let seen = views(pieces@).take(i + 1);
            assert(seen.drop_last() =~= views(pieces@).take(i as int));
            assert(seen.last() == pieces@[i as int]@);
        }
        if !pieces[i].as_str().is_empty() && !same(&pieces[i], ".") {
            let piece = pieces[i].clone();
            proof {
                lemma_views_push(components@, piece);
            }
            components.push(piece);
        }
        i = i + 1;
    }
    assert(views(pieces@).take(pieces@.len() as int) =~= views(pieces@));
    components
}

fn path_goes_down(path: &str, pieces: &Vec<String>) -> (down: bool)
    requires
        views(pieces@) == split_at_char(path@, '/'),
        pieces@.len() >= 1,
    ensures
        down == goes_down(path@),
{
    let ghost all = views(pieces@);
    assert(all[0] == pieces@[0]@);
    if starts_with(path, "/") || same(&pieces[0], ".") {
        return false;
    }
    let mut i: usize = 0;
    while i < pieces.len()
        invariant
            i <= pieces@.len(),
            all == views(pieces@),
            all == split_at_char(path@, '/'),
            forall|k: int| 0 <= k < i ==> #[trigger] all[k] != ".."@,
        decreases pieces@.len() - i,
    {
        assert(all[i as int] == pieces@[i as int]@);
        if same(&pieces[i], "..") {
            return false;
        }
        i = i + 1;
    }
    true
}

/// Accepts the paths of plans and no others.
pub fn validate_plan_path(relative_path: &str) -> (valid: Result<(), ExecPlanError>)
    ensures
        valid is Ok <==> is_plan_path(relative_path@),
        valid matches Err(error) ==> error matches ExecPlanError::InvalidPath(path) && path@
            == relative_path@,
{
    let pieces = split(relative_path, '/');
    let components = keep_named(&pieces);
    let ghost named = components_of(relative_path@);
    assert(named.len() == components@.len());
    let valid = if !path_goes_down(relative_path, &pieces) || components.len() < 2 {
        false
    } else {
        assert(named[0] == components@[0]@);
        assert(named[1] == components@[1]@);
        assert(named.last() == components@.last()@);
        same(&components[0], "docs") && same(&components[1], "exec-plan") && has_markdown_extension(
            &components[components.len() - 1],
        )
    };
    if valid {
        Ok(())
    } else {
        Err(ExecPlanError::InvalidPath(relative_path.to_owned()))
    }
}

/// Whether one path lies within another, component by component.
pub open spec fn lies_within(path: Seq<char>, directory: Seq<char>) -> bool {
    components_of(directory).is_prefix_of(components_of(path))
}

/// Whether one absolute, canonical path lies within another.
pub fn is_within(path: &str, directory: &str) -> (within: bool)
    ensures
        within == lies_within(path@, directory@),
{
    let inner = keep_named(&split(path, '/'));
    let outer = keep_named(&split(directory, '/'));
    let ghost long = views(inner@);
    let ghost short = views(outer@);
    assert(long.len() == inner@.len());
    assert(short.len() == outer@.len());
    if outer.len() > inner.len() {
        return false;
    }
    let mut i: usize = 0;
    while i < outer.len()
        invariant
            i <= outer@.len() <= inner@.len(),
            long == views(inner@),
            short == views(outer@),
            long == components_of(path@),
            short == components_of(directory@),
            forall|k: int| 0 <= k < i ==> #[trigger] short[k] == long[k],
        decreases outer@.len() - i,
    {
        assert(short[i as int] == outer@[i as int]@);
        assert(long[i as int] == inner@[i as int]@);
        if !same(&outer[i], &inner[i]) {
            assert(short != long.subrange(0, short.len() as int)) by {
                assert(long.subrange(0, short.len() as int)[i as int] == long[i as int]);
            }
            return false;
        }
        i = i + 1;
    }
    assert(short =~= long.subrange(0, short.len() as int));
    true
}

/// Accepts a plan only where its canonical path lies within the repository and
/// within its plan directory, so that a link cannot lead out of either.
pub fn confirm_plan_location(
    relative_path: &str,
    canonical: &str,
    canonical_root: &str,
    canonical_plan_root: &str,
) -> (confirmed: Result<(), ExecPlanError>)
    ensures
        confirmed is Ok <==> lies_within(canonical@, canonical_root@) && lies_within(
            canonical@,
            canonical_plan_root@,
        ),
        confirmed matches Err(error) ==> error matches ExecPlanError::InvalidPath(path) && path@
            == relative_path@,
{
    if is_within(canonical, canonical_root) && is_within(canonical, canonical_plan_root) {
        Ok(())
    } else {
        Err(ExecPlanError::InvalidPath(relative_path.to_owned()))
    }
}

// ---------------------------------------------------------------------------
// The plan directory
// ---------------------------------------------------------------------------

/// An entry of the plan directory.
#[derive(Debug, PartialEq, Eq)]
pub enum PlanEntry {
    Directory { name: String, entries: Vec<PlanEntry> },
    File { name: String },
    Other,
}

/// The path of something in a directory.
pub open spec fn path_within(prefix: Seq<char>, name: Seq<char>) -> Seq<char> {
    prefix + "/"@ + name
}

/// The paths of the Markdown documents among the first entries, directories
/// in place; directories named `archive` are left out.
pub open spec fn document_paths(entries: Seq<PlanEntry>, prefix: Seq<char>) -> Seq<Seq<char>>
    decreases entries,
{
    if entries.len() == 0 {
        Seq::empty()
    } else {
        let rest = entries.subrange(0, entries.len() - 1);
        let before = document_paths(rest, prefix);
        match entries[entries.len() - 1] {
            PlanEntry::Directory { name, entries: inner } => if name@ == "archive"@ {
                before
            } else {
                before + document_paths(inner@, path_within(prefix, name@))
            },
            PlanEntry::File { name } => if is_markdown(name@) {
                before.push(path_within(prefix, name@))
            } else {
                before
            },
            PlanEntry::Other => before,
        }
    }
}

/// Archived plans are not listed: a directory named `archive` leaves no trace,
/// whatever is in it.
pub proof fn law_archived_plans_are_not_listed(
    first: Seq<PlanEntry>,
    archive: PlanEntry,
    rest: Seq<PlanEntry>,
    prefix: Seq<char>,
)
    requires
        archive matches PlanEntry::Directory { name, .. } && name@ == "archive"@,
    ensures
        document_paths(first.push(archive) + rest, prefix) == document_paths(first + rest, prefix),
    decreases rest.len(),
{
    let with = first.push(archive) + rest;
    let without = first + rest;
    if rest.len() == 0 {
        assert(with.subrange(0, with.len() - 1) =~= without);
        assert(with[with.len() - 1] == archive);
    } else {
        let fewer = rest.drop_last();
        law_archived_plans_are_not_listed(first, archive, fewer, prefix);
        assert(with.subrange(0, with.len() - 1) =~= first.push(archive) + fewer);
        assert(without.subrange(0, without.len() - 1) =~= first + fewer);
        assert(with[with.len() - 1] == rest.last());
        assert(without[without.len() - 1] == rest.last());
    }
}

/// The paths of the Markdown documents in a directory whose path is `prefix`.
pub fn collect(entries: &Vec<PlanEntry>, prefix: &str) -> (paths: Vec<String>)
    ensures
        views(paths@) == document_paths(entries@, prefix@),
    decreases entries@,
{
    let mut paths: Vec<String> = Vec::new();
    let mut i: usize = 0;
    assert(views(paths@) =~= Seq::empty());
    while i < entries.len()
        invariant
            i <= entries@.len(),
            views(paths@) == document_paths(entries@.take(i as int), prefix@),
        decreases entries@.len() - i,
    {
        proof {
            let seen = entries@.take(i + 1);
            assert(seen.subrange(0, seen.len() - 1) =~= entries@.take(i as int));
            assert(seen[seen.len() - 1] == entries@[i as int]);
        }
        match &entries[i] {
            PlanEntry::Directory { name, entries: inner } => {
                if !same(name, "archive") {
                    let directory = concat3(prefix, "/", name);
                    proof {
                        assert(decreases_to!(entries@ => entries@[i as int]));
                        assert(decreases_to!(entries@[i as int] => entries@[i as int]->entries));
                        assert(decreases_to!(*inner => inner@));
                    }
                    let mut below = collect(inner, &directory);
                    let ghost before = paths@;
                    let ghost added = below@;
                    paths.append(&mut below);
                    assert(views(paths@) =~= views(before) + views(added));
                }
            },
            PlanEntry::File { name } => {
                if has_markdown_extension(name) {
                    let path = concat3(prefix, "/", name);
                    proof {
                        lemma_views_push(paths@, path);
                    }
                    paths.push(path);
                }
            },
            PlanEntry::Other => {},
        }
        i = i + 1;
    }
    assert(entries@.take(entries@.len() as int) =~= entries@);
    paths
}

/// Whether a name is one that a directory can hold.
pub open spec fn is_entry_name(name: Seq<char>) -> bool {
    name.len() > 0 && !name.contains('/') && name != "."@ && name != ".."@
}

/// Whether the names in a directory, and in the directories below, are ones
/// that directories can hold.
pub open spec fn are_entry_names(entries: Seq<PlanEntry>) -> bool
    decreases entries,
{
    if entries.len() == 0 {
        true
    } else {
        let rest = entries.subrange(0, entries.len() - 1);
        are_entry_names(rest) && match entries[entries.len() - 1] {
            PlanEntry::Directory { name, entries: inner } => is_entry_name(name@)
                && are_entry_names(inner@),
            PlanEntry::File { name } => is_entry_name(name@),
            PlanEntry::Other => true,
        }
    }
}

/// Whether a path leads down from the repository to its plan directory, or
/// further.
pub open spec fn is_plan_directory(path: Seq<char>) -> bool {
    let components = components_of(path);
    &&& goes_down(path)
    &&& components.len() >= 2
    &&& components[0] == "docs"@
    &&& components[1] == "exec-plan"@
}

proof fn lemma_path_within(prefix: Seq<char>, name: Seq<char>)
    requires
        is_plan_directory(prefix),
        is_entry_name(name),
    ensures
        is_plan_directory(path_within(prefix, name)),
        components_of(path_within(prefix, name)).last() == name,
{
    reveal_strlit("/");
    let path = path_within(prefix, name);
    assert(path =~= prefix.push('/') + name);
    lemma_split_one_more(prefix, '/', name);
    lemma_split_nonempty(prefix, '/');
    let outer = split_at_char(prefix, '/');
    let pieces = split_at_char(path, '/');
    assert(pieces == outer.push(name));
    assert(pieces.drop_last() =~= outer);
    assert(components_of(path) == components_of(prefix).push(name));
    if prefix.len() == 0 {
        assert(outer =~= seq![Seq::empty()]);
        assert(outer.drop_last() =~= Seq::empty());
        assert(named_components(outer.drop_last()).len() == 0);
        assert(components_of(prefix).len() == 0);
    }
    assert(prefix.subrange(0, 1) =~= seq![prefix[0]]);
    assert(path.subrange(0, 1) =~= seq![prefix[0]]);
    assert("/"@ =~= seq!['/']);
    assert(!begins_with(path, "/"@));
    assert(pieces[0] == outer[0]);
    assert forall|i: int| 0 <= i < pieces.len() implies #[trigger] pieces[i] != ".."@ by {
        if i < outer.len() {
            assert(pieces[i] == outer[i]);
        }
    }
}

proof fn lemma_plan_root()
    ensures
        is_plan_directory(PLAN_ROOT@),
{
    reveal_strlit("docs/exec-plan");
    reveal_strlit("docs");
    reveal_strlit("exec-plan");
    reveal_strlit("/");
    reveal_strlit(".");
    reveal_strlit("..");
    assert(PLAN_ROOT@ =~= "docs"@.push('/') + "exec-plan"@);
    assert(!"docs"@.contains('/'));
    assert(!"exec-plan"@.contains('/'));
    lemma_split_one_piece("docs"@, '/');
    lemma_split_one_more("docs"@, '/', "exec-plan"@);
    let pieces = split_at_char(PLAN_ROOT@, '/');
    assert(pieces == seq!["docs"@].push("exec-plan"@));
    assert("docs"@.len() == 4 && "exec-plan"@.len() == 9 && "."@.len() == 1 && ".."@.len() == 2);
    assert(pieces.drop_last() =~= seq!["docs"@]);
    assert(seq!["docs"@].drop_last() =~= Seq::empty());
    reveal_with_fuel(named_components, 3);
    assert(components_of(PLAN_ROOT@) =~= seq!["docs"@, "exec-plan"@]);
    assert(PLAN_ROOT@.subrange(0, 1)[0] == 'd');
    assert("/"@[0] == '/');
}

proof fn lemma_listed_paths(entries: Seq<PlanEntry>, prefix: Seq<char>)
    requires
        are_entry_names(entries),
        is_plan_directory(prefix),
    ensures
        forall|i: int|
            0 <= i < document_paths(entries, prefix).len() ==> is_plan_path(
                #[trigger] document_paths(entries, prefix)[i],
            ),
    decreases entries,
{
    if entries.len() > 0 {
        let rest = entries.subrange(0, entries.len() - 1);
        let last = entries[entries.len() - 1];
        lemma_listed_paths(rest, prefix);
        let before = document_paths(rest, prefix);
        let all = document_paths(entries, prefix);
        match last {
            PlanEntry::Directory { name, entries: inner } => {
                if name@ != "archive"@ {
                    lemma_path_within(prefix, name@);
                    assert(decreases_to!(entries => entries[entries.len() - 1]));
                    assert(decreases_to!(last => last->entries));
                    assert(decreases_to!(inner => inner@));
                    lemma_listed_paths(inner@, path_within(prefix, name@));
                    let below = document_paths(inner@, path_within(prefix, name@));
                    assert forall|i: int| 0 <= i < all.len() implies is_plan_path(
                        #[trigger] all[i],
                    ) by {
                        if i < before.len() {
                            assert(all[i] == before[i]);
                        } else {
                            assert(all[i] == below[i - before.len()]);
                        }
                    }
                }
            },
            PlanEntry::File { name } => {
                if is_markdown(name@) {
                    lemma_path_within(prefix, name@);
                    assert forall|i: int| 0 <= i < all.len() implies is_plan_path(
                        #[trigger] all[i],
                    ) by {
                        if i < before.len() {
                            assert(all[i] == before[i]);
                        }
                    }
                }
            },
            PlanEntry::Other => {},
        }
    }
}

/// Every document that a scan of the plan directory finds has a path that is
/// accepted as that of a plan, so that what is listed can also be read.
pub proof fn law_listed_plans_can_be_read(entries: Seq<PlanEntry>, at: int)
    requires
        are_entry_names(entries),
        0 <= at < document_paths(entries, PLAN_ROOT@).len(),
    ensures
        is_plan_path(document_paths(entries, PLAN_ROOT@)[at]),
{
    lemma_plan_root();
    lemma_listed_paths(entries, PLAN_ROOT@);
}

/// A file name with something before the ending `.md` is that of a Markdown
/// document; one with another ending, or none, is not.
pub proof fn law_markdown_ends_in_md(stem: Seq<char>, extension: Seq<char>)
    requires
        !extension.contains('.'),
    ensures
        is_markdown(stem + seq!['.'] + extension) <==> stem.len() > 0 && extension == "md"@,
        !stem.contains('.') ==> !is_markdown(stem),
{
    law_cuts_leave_the_character_out(stem, '.', extension);
    law_last_is_found(stem, '.');
    if let Some(at) = last_of(stem, '.') {
        assert(stem.contains(stem[at]));
    }
}

/// The path of a plan leads down from the repository: one that begins with a
/// slash or a dot, or goes up anywhere, is none. Neither is one whose first two
/// components are not `docs` and `exec-plan`, nor one that ends in no Markdown
/// document.
pub proof fn law_other_paths_are_no_plans(path: Seq<char>, at: int)
    ensures
        begins_with(path, "/"@) ==> !is_plan_path(path),
        split_at_char(path, '/')[0] == "."@ ==> !is_plan_path(path),
        0 <= at < split_at_char(path, '/').len() && split_at_char(path, '/')[at] == ".."@
            ==> !is_plan_path(path),
        is_plan_path(path) ==> components_of(path).len() >= 2 && components_of(path)[0] == "docs"@
            && components_of(path)[1] == "exec-plan"@,
        is_plan_path(path) ==> is_markdown(components_of(path).last()),
{
}

/// The components of a path are its pieces between slashes, in their order; the
/// empty ones and the dots name nothing.
pub proof fn law_components_are_named_pieces(pieces: Seq<Seq<char>>, piece: Seq<char>)
    ensures
        named_components(Seq::empty()) == Seq::<Seq<char>>::empty(),
        piece.len() == 0 || piece == "."@ ==> named_components(pieces.push(piece))
            == named_components(pieces),
        piece.len() > 0 && piece != "."@ ==> named_components(pieces.push(piece))
            == named_components(pieces).push(piece),
{
    assert(pieces.push(piece).drop_last() =~= pieces);
}

/// What stands in a directory lies within it, and so does the directory itself.
/// What lies within it shares all its components.
pub proof fn law_entries_lie_within_their_directory(
    directory: Seq<char>,
    name: Seq<char>,
    other: Seq<char>,
    at: int,
)
    requires
        !name.contains('/'),
    ensures
        lies_within(directory, directory),
        lies_within(directory.push('/') + name, directory),
        0 <= at < components_of(directory).len() && (at >= components_of(other).len()
            || components_of(other)[at] != components_of(directory)[at]) ==> !lies_within(
            other,
            directory,
        ),
{
    let components = components_of(directory);
    lemma_split_one_more(directory, '/', name);
    law_components_are_named_pieces(split_at_char(directory, '/'), name);
    assert(components =~= components.subrange(0, components.len() as int));
    assert(components =~= components.push(name).subrange(0, components.len() as int));
    if lies_within(other, directory) && 0 <= at < components.len() {
        assert(components == components_of(other).subrange(0, components.len() as int));
        assert(components[at] == components_of(other)[at]);
    }
}

/// The documents of a directory are listed one entry after the other. A Markdown
/// file is listed under its path, a directory gives what it holds, and nothing
/// else is listed.
pub proof fn law_documents_are_listed_by_entry(
    entries: Seq<PlanEntry>,
    more: Seq<PlanEntry>,
    prefix: Seq<char>,
    name: String,
    inner: Vec<PlanEntry>,
)
    ensures
        document_paths(Seq::empty(), prefix) == Seq::<Seq<char>>::empty(),
        document_paths(entries + more, prefix) == document_paths(entries, prefix) + document_paths(
            more,
            prefix,
        ),
        is_markdown(name@) ==> document_paths(seq![(PlanEntry::File { name })], prefix) == seq![
            prefix + "/"@ + name@,
        ],
        !is_markdown(name@) ==> document_paths(seq![(PlanEntry::File { name })], prefix) == Seq::<
            Seq<char>,
        >::empty(),
        name@ != "archive"@ ==> document_paths(
            seq![(PlanEntry::Directory { name, entries: inner })],
            prefix,
        ) == document_paths(inner@, prefix + "/"@ + name@),
        name@ == "archive"@ ==> document_paths(
            seq![(PlanEntry::Directory { name, entries: inner })],
            prefix,
        ) == Seq::<Seq<char>>::empty(),
        document_paths(seq![PlanEntry::Other], prefix) == Seq::<Seq<char>>::empty(),
{
    lemma_documents_split(entries, more, prefix);
    let none = Seq::<Seq<char>>::empty();
    let file = seq![(PlanEntry::File { name })];
    let directory = seq![(PlanEntry::Directory { name, entries: inner })];
    let other = seq![PlanEntry::Other];
    assert(file.subrange(0, 0) =~= Seq::empty());
    assert(directory.subrange(0, 0) =~= Seq::empty());
    assert(other.subrange(0, 0) =~= Seq::empty());
    assert(document_paths(Seq::empty(), prefix) == none);
    assert(none.push(prefix + "/"@ + name@) =~= seq![prefix + "/"@ + name@]);
    assert(none + document_paths(inner@, prefix + "/"@ + name@) =~= document_paths(
        inner@,
        prefix + "/"@ + name@,
    ));
}

proof fn lemma_documents_split(entries: Seq<PlanEntry>, more: Seq<PlanEntry>, prefix: Seq<char>)
    ensures
        document_paths(entries + more, prefix) == document_paths(entries, prefix) + document_paths(
            more,
            prefix,
        ),
    decreases more.len(),
{
    let all = entries + more;
    if more.len() == 0 {
        assert(all =~= entries);
        assert(document_paths(entries, prefix) + document_paths(more, prefix) =~= document_paths(
            entries,
            prefix,
        ));
    } else {
        let rest = more.subrange(0, more.len() - 1);
        lemma_documents_split(entries, rest, prefix);
        assert(all.subrange(0, all.len() - 1) =~= entries + rest);
        assert(all[all.len() - 1] == more[more.len() - 1]);
        assert(document_paths(all, prefix) =~= document_paths(entries, prefix) + document_paths(
            more,
            prefix,
        ));
    }
}

/// The model of [`ExecPlanDoc`] holds what the value does, part by part.
pub proof fn law_model_of_exec_plan_doc(value: ExecPlanDoc)
    ensures
        value@.path == value.path@,
        value@.title == value.title@,
        value@.status == value.status@,
        value@.updated == opt_view(value.updated),
{
}

} // verus!
