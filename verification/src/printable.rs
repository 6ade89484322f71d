//! What is shown of a plan: its rows `target <- source`, grouped by the rule
//! that they come from, the groups in the order of their titles, and the
//! left column filled up so that the arrows stand below each other.

use vstd::prelude::*;
use vstd::string::*;
use crate::cache::CachedPlan;
use crate::mapping::Mapping;
use crate::mapping::MappingView;
use crate::mapping::PairView;
use crate::mapping::Plan;
use crate::mapping::Rule;
use crate::mapping::RuleView;
use crate::order::lemma_bytes_le_connected;
use crate::order::lemma_bytes_le_transitive;
use crate::order::lemma_text_le_antisymmetric;
use crate::order::str_eq;
use crate::order::str_le;
use crate::order::text_le;
use crate::text::pad_right;
use crate::text::padded;
use crate::text::relative;
use crate::text::relative_to;
use vstd::utf8::encode_utf8;

verus! {

/// The two columns of a row, in contracts: left and right.
pub type RowView = (Seq<char>, Seq<char>);

/// The title of the group of a rule.
pub open spec fn title_of(rule: RuleView) -> Seq<char> {
    "rule: "@ + rule.left + " = "@ + rule.right
}

/// The columns of the row of a pair: the target, indented, and the source,
/// both as seen from `root`.
pub open spec fn columns(pair: PairView, root: Seq<char>) -> RowView {
    ("  "@ + relative(pair.0, root), relative(pair.1, root))
}

/// The rows of a mapping, one per pair.
pub open spec fn rows_of(mapping: MappingView, root: Seq<char>) -> Seq<RowView> {
    mapping.pairs().map_values(|pair: PairView| columns(pair, root))
}

/// The rows of the mappings of `plan` whose rule has the title `title`, in
/// the order of the plan.
pub open spec fn rows_under(plan: Seq<MappingView>, title: Seq<char>, root: Seq<char>) -> Seq<
    RowView,
>
    decreases plan.len(),
{
    if plan.len() == 0 {
        Seq::empty()
    } else {
        let before = rows_under(plan.drop_last(), title, root);
        if title_of(plan.last().rule()) == title {
            before + rows_of(plan.last(), root)
        } else {
            before
        }
    }
}

/// The length of the longest left column among `rows`.
pub open spec fn widest(rows: Seq<RowView>) -> nat
    decreases rows.len(),
{
    if rows.len() == 0 {
        0
    } else {
        let before = widest(rows.drop_last());
        if rows.last().0.len() > before {
            rows.last().0.len()
        } else {
            before
        }
    }
}

/// The length of the longest left column among all the rows of `plan`.
pub open spec fn width_of(plan: Seq<MappingView>, root: Seq<char>) -> nat
    decreases plan.len(),
{
    if plan.len() == 0 {
        0
    } else {
        let before = width_of(plan.drop_last(), root);
        let here = widest(rows_of(plan.last(), root));
        if here > before {
            here
        } else {
            before
        }
    }
}

/// A row as it is shown: the left column filled up to `width`, an arrow, the
/// right column.
pub open spec fn rendered(row: RowView, width: nat) -> Seq<char> {
    padded(row.0, width) + " <- "@ + row.1
}

/// Whether `a` comes strictly before `b` in the order of texts.
pub open spec fn text_lt(a: Seq<char>, b: Seq<char>) -> bool {
    text_le(a, b) && a != b
}

/// The rows of one rule, not yet filled up.
#[derive(Debug, PartialEq, Eq)]
pub struct Group {
    pub title: String,
    pub rows: Vec<(String, String)>,
}

/// What a [`Group`] is in contracts.
pub struct GroupView {
    pub title: Seq<char>,
    pub rows: Seq<RowView>,
}

impl View for Group {
    type V = GroupView;

    open spec fn view(&self) -> GroupView {
        GroupView { title: self.title@, rows: self.rows.deep_view() }
    }
}

impl DeepView for Group {
    type V = GroupView;

    open spec fn deep_view(&self) -> GroupView {
        self.view()
    }
}

/// The rows of one rule as they are shown.
#[derive(Debug, PartialEq, Eq)]
pub struct Section {
    pub title: String,
    pub rows: Vec<String>,
}

/// What a [`Section`] is in contracts.
pub struct SectionView {
    pub title: Seq<char>,
    pub rows: Seq<Seq<char>>,
}

impl View for Section {
    type V = SectionView;

    open spec fn view(&self) -> SectionView {
        SectionView { title: self.title@, rows: self.rows.deep_view() }
    }
}

impl DeepView for Section {
    type V = SectionView;

    open spec fn deep_view(&self) -> SectionView {
        self.view()
    }
}

/// Whether a rule of `plan` has the title `title`.
pub open spec fn has_title(plan: Seq<MappingView>, title: Seq<char>) -> bool {
    exists|m: int| 0 <= m < plan.len() && title_of((#[trigger] plan[m]).rule()) == title
}

/// Whether one of `groups` has the title `title`.
pub open spec fn has_group(groups: Seq<GroupView>, title: Seq<char>) -> bool {
    exists|i: int| 0 <= i < groups.len() && (#[trigger] groups[i]).title == title
}

/// Whether the titles of `groups` stand in their strict order.
pub open spec fn titles_ascend(groups: Seq<GroupView>) -> bool {
    forall|i: int, j: int|
        0 <= i < j < groups.len() ==> text_lt(
            (#[trigger] groups[i]).title,
            (#[trigger] groups[j]).title,
        )
}

/// Whether `groups` are the groups of `plan`: one for each title that a rule
/// of the plan has, in the strict order of the titles, each with the rows of
/// all the mappings under that title.
pub open spec fn groups_of(groups: Seq<GroupView>, plan: Seq<MappingView>, root: Seq<char>) -> bool {
    &&& titles_ascend(groups)
    &&& forall|i: int| 0 <= i < groups.len() ==> has_title(plan, (#[trigger] groups[i]).title)
    &&& forall|m: int|
        0 <= m < plan.len() ==> has_group(groups, title_of((#[trigger] plan[m]).rule()))
    &&& forall|i: int|
        0 <= i < groups.len() ==> (#[trigger] groups[i]).rows == rows_under(
            plan,
            groups[i].title,
            root,
        )
}

/// Whether `sections` show `groups` with the left column filled up to
/// `width`.
pub open spec fn shows(sections: Seq<SectionView>, groups: Seq<GroupView>, width: nat) -> bool {
    &&& sections.len() == groups.len()
    &&& forall|i: int|
        0 <= i < sections.len() ==> (#[trigger] sections[i]).title == groups[i].title
            && sections[i].rows == groups[i].rows.map_values(|row: RowView| rendered(row, width))
}

/// Whether `sections` are what is shown of `plan` as seen from `root`.
pub open spec fn printed(sections: Seq<SectionView>, plan: Seq<MappingView>, root: Seq<char>) -> bool {
    exists|groups: Seq<GroupView>|
        groups_of(groups, plan, root) && shows(sections, groups, width_of(plan, root))
}

/// The title of the group of `rule`.
pub fn title(rule: &Rule) -> (text: String)
    ensures
        text@ == title_of(rule@),
{
    String::from_str("rule: ").concat(rule.left.as_str()).concat(" = ").concat(
        rule.right.as_str(),
    )
}

/// The rows of `mapping` as seen from `root`, and the length of the longest
/// left column among them.
pub fn rows_for(mapping: &Mapping, root: &str) -> (made: (Vec<(String, String)>, usize))
    ensures
        made.0.deep_view() == rows_of(mapping@, root@),
        made.1 == widest(rows_of(mapping@, root@)),
{
    let mut pairs: Vec<(String, String)> = Vec::new();
    mapping.push_pairs(&mut pairs);
    assert(pairs.deep_view() =~= mapping@.pairs());
    let mut rows: Vec<(String, String)> = Vec::new();
    let mut width: usize = 0;
    let mut i: usize = 0;
    let ghost all = rows_of(mapping@, root@);
    assert(all.take(0) =~= Seq::empty());
    while i < pairs.len()
        invariant
            i <= pairs.len(),
            pairs.deep_view() == mapping@.pairs(),
            all == rows_of(mapping@, root@),
            rows.deep_view() == all.take(i as int),
            width == widest(all.take(i as int)),
        decreases pairs.len() - i,
    {
        let left = String::from_str("  ").concat(relative_to(pairs[i].0.as_str(), root).as_str());
        let right = relative_to(pairs[i].1.as_str(), root);
        let len = left.as_str().unicode_len();
        let ghost before = rows.deep_view();
        proof {
            let next = all.take(i + 1);
            assert(next.drop_last() =~= all.take(i as int));
            assert(pairs.deep_view()[i as int] == (pairs[i as int].0@, pairs[i as int].1@));
            assert(next.last() == (left@, right@));
        }
        if len > width {
            width = len;
        }
        rows.push((left, right));
        proof {
            assert(rows.deep_view() =~= before.push(all[i as int]));
            assert(rows.deep_view() =~= all.take(i + 1));
        }
        i += 1;
    }
    assert(all.take(i as int) =~= all);
    (rows, width)
}

/// The strict order of texts is transitive.
proof fn lemma_text_lt_transitive(a: Seq<char>, b: Seq<char>, c: Seq<char>)
    requires
        text_lt(a, b),
        text_lt(b, c),
    ensures
        text_lt(a, c),
{
    lemma_bytes_le_transitive(encode_utf8(a), encode_utf8(b), encode_utf8(c));
    if a == c {
        lemma_text_le_antisymmetric(a, b);
    }
}

/// Of two different texts one comes strictly before the other.
proof fn lemma_text_lt_connected(a: Seq<char>, b: Seq<char>)
    requires
        a != b,
    ensures
        text_lt(a, b) || text_lt(b, a),
{
    lemma_bytes_le_connected(encode_utf8(a), encode_utf8(b));
}

/// A title that no rule of the plan has is over no row.
proof fn lemma_no_title_no_rows(plan: Seq<MappingView>, title: Seq<char>, root: Seq<char>)
    requires
        !has_title(plan, title),
    ensures
        rows_under(plan, title, root) == Seq::<RowView>::empty(),
    decreases plan.len(),
{
    if plan.len() > 0 {
        assert(title_of(plan[plan.len() - 1].rule()) != title);
        assert forall|m: int| 0 <= m < plan.drop_last().len() implies title_of(
            (#[trigger] plan.drop_last()[m]).rule(),
        ) != title by {
            assert(plan.drop_last()[m] == plan[m]);
        }
        lemma_no_title_no_rows(plan.drop_last(), title, root);
    }
}

/// The groups stay the groups of the plan when a mapping is added to the plan
/// and its rows are added to the group that has its title.
proof fn lemma_group_grows(
    groups: Seq<GroupView>,
    plan: Seq<MappingView>,
    mapping: MappingView,
    root: Seq<char>,
    k: int,
)
    requires
        groups_of(groups, plan, root),
        0 <= k < groups.len(),
        groups[k].title == title_of(mapping.rule()),
    ensures
        groups_of(
            groups.update(
                k,
                GroupView { title: groups[k].title, rows: groups[k].rows + rows_of(mapping, root) },
            ),
            plan.push(mapping),
            root,
        ),
{
    let title = title_of(mapping.rule());
    let grown = groups.update(
        k,
        GroupView { title: groups[k].title, rows: groups[k].rows + rows_of(mapping, root) },
    );
    let longer = plan.push(mapping);
    assert(longer.drop_last() =~= plan);
    assert(longer.last() == mapping);
    assert forall|i: int, j: int| 0 <= i < j < grown.len() implies text_lt(
        (#[trigger] grown[i]).title,
        (#[trigger] grown[j]).title,
    ) by {
        assert(grown[i].title == groups[i].title);
        assert(grown[j].title == groups[j].title);
    }
    assert forall|i: int| 0 <= i < grown.len() implies has_title(
        longer,
        (#[trigger] grown[i]).title,
    ) by {
        assert(grown[i].title == groups[i].title);
        assert(has_title(plan, groups[i].title));
        let m = choose|m: int|
            0 <= m < plan.len() && title_of((#[trigger] plan[m]).rule()) == groups[i].title;
        assert(longer[m] == plan[m]);
    }
    assert forall|m: int| 0 <= m < longer.len() implies has_group(
        grown,
        title_of((#[trigger] longer[m]).rule()),
    ) by {
        if m < plan.len() {
            assert(longer[m] == plan[m]);
            assert(has_group(groups, title_of(plan[m].rule())));
            let i = choose|i: int|
                0 <= i < groups.len() && (#[trigger] groups[i]).title == title_of(
                    plan[m].rule(),
                );
            assert(grown[i].title == groups[i].title);
        } else {
            assert(grown[k].title == title);
        }
    }
    assert forall|i: int| 0 <= i < grown.len() implies (#[trigger] grown[i]).rows == rows_under(
        longer,
        grown[i].title,
        root,
    ) by {
        if i != k {
            assert(grown[i] == groups[i]);
            if i < k {
                assert(text_lt(groups[i].title, groups[k].title));
            } else {
                assert(text_lt(groups[k].title, groups[i].title));
            }
        }
    }
}

/// The groups stay the groups of the plan when a mapping is added to the plan
/// whose title no group has, and a group of its rows is put where its title
/// belongs.
proof fn lemma_group_enters(
    groups: Seq<GroupView>,
    plan: Seq<MappingView>,
    mapping: MappingView,
    root: Seq<char>,
    k: int,
)
    requires
        groups_of(groups, plan, root),
        0 <= k <= groups.len(),
        forall|j: int| 0 <= j < k ==> text_lt((#[trigger] groups[j]).title, title_of(mapping.rule())),
        k < groups.len() ==> !text_lt(groups[k].title, title_of(mapping.rule())) && groups[k].title
            != title_of(mapping.rule()),
    ensures
        groups_of(
            groups.insert(
                k,
                GroupView { title: title_of(mapping.rule()), rows: rows_of(mapping, root) },
            ),
            plan.push(mapping),
            root,
        ),
{
    let title = title_of(mapping.rule());
    let entered = groups.insert(k, GroupView { title, rows: rows_of(mapping, root) });
    let longer = plan.push(mapping);
    assert(longer.drop_last() =~= plan);
    assert(longer.last() == mapping);
    assert forall|j: int| k <= j < groups.len() implies text_lt(
        title,
        (#[trigger] groups[j]).title,
    ) by {
        lemma_text_lt_connected(groups[k].title, title);
        if j > k {
            assert(text_lt(groups[k].title, groups[j].title));
            lemma_text_lt_transitive(title, groups[k].title, groups[j].title);
        }
    }
    assert(!has_group(groups, title)) by {
        if has_group(groups, title) {
            let i = choose|i: int| 0 <= i < groups.len() && (#[trigger] groups[i]).title == title;
            if i < k {
                assert(text_lt(groups[i].title, title));
            } else {
                assert(text_lt(title, groups[i].title));
            }
        }
    }
    assert(!has_title(plan, title)) by {
        if has_title(plan, title) {
            let m = choose|m: int|
                0 <= m < plan.len() && title_of((#[trigger] plan[m]).rule()) == title;
            assert(has_group(groups, title_of(plan[m].rule())));
        }
    }
    lemma_no_title_no_rows(plan, title, root);
    assert forall|i: int, j: int| 0 <= i < j < entered.len() implies text_lt(
        (#[trigger] entered[i]).title,
        (#[trigger] entered[j]).title,
    ) by {
        if j < k {
            assert(entered[i] == groups[i] && entered[j] == groups[j]);
        } else if j == k {
            assert(entered[i] == groups[i]);
        } else if i == k {
            assert(entered[j] == groups[j - 1]);
        } else if i < k {
            assert(entered[i] == groups[i] && entered[j] == groups[j - 1]);
        } else {
            assert(entered[i] == groups[i - 1] && entered[j] == groups[j - 1]);
        }
    }
    assert forall|i: int| 0 <= i < entered.len() implies has_title(
        longer,
        (#[trigger] entered[i]).title,
    ) by {
        if i == k {
            assert(title_of(longer[plan.len() as int].rule()) == title);
        } else {
            let old = if i < k { i } else { i - 1 };
            assert(entered[i] == groups[old]);
            assert(has_title(plan, groups[old].title));
            let m = choose|m: int|
                0 <= m < plan.len() && title_of((#[trigger] plan[m]).rule()) == groups[old].title;
            assert(longer[m] == plan[m]);
        }
    }
    assert forall|m: int| 0 <= m < longer.len() implies has_group(
        entered,
        title_of((#[trigger] longer[m]).rule()),
    ) by {
        if m < plan.len() {
            assert(longer[m] == plan[m]);
            assert(has_group(groups, title_of(plan[m].rule())));
            let i = choose|i: int|
                0 <= i < groups.len() && (#[trigger] groups[i]).title == title_of(
                    plan[m].rule(),
                );
            let new = if i < k { i } else { i + 1 };
            assert(entered[new] == groups[i]);
        } else {
            assert(entered[k].title == title);
        }
    }
    assert forall|i: int| 0 <= i < entered.len() implies (#[trigger] entered[i]).rows
        == rows_under(longer, entered[i].title, root) by {
        if i == k {
            assert(rows_under(longer, title, root) =~= rows_of(mapping, root));
        } else {
            let old = if i < k { i } else { i - 1 };
            assert(entered[i] == groups[old]);
            if old < k {
                assert(text_lt(groups[old].title, title));
            } else {
                assert(text_lt(title, groups[old].title));
            }
        }
    }
}

/// The groups of `plan` as seen from `root`, and the length of the longest
/// left column among all their rows.
pub fn group_rows(plan: &Plan, root: &str) -> (made: (Vec<Group>, usize))
    ensures
        groups_of(made.0.deep_view(), plan@, root@),
        made.1 == width_of(plan@, root@),
{
    let mut groups: Vec<Group> = Vec::new();
    let mut width: usize = 0;
    let mut n: usize = 0;
    assert(plan@.take(0) =~= Seq::empty());
    assert(groups.deep_view() =~= Seq::<GroupView>::empty());
    while n < plan.mappings.len()
        invariant
            n <= plan.mappings.len(),
            groups_of(groups.deep_view(), plan@.take(n as int), root@),
            width == width_of(plan@.take(n as int), root@),
        decreases plan.mappings.len() - n,
    {
        let mapping = &plan.mappings[n];
        let name = title(mapping.rule());
        let (mut rows, here) = rows_for(mapping, root);
        let ghost before = groups.deep_view();
        let ghost sofar = plan@.take(n as int);
        proof {
            assert(plan@.take(n + 1) =~= sofar.push(mapping@));
            assert(plan@.take(n + 1).drop_last() =~= sofar);
        }
        if here > width {
            width = here;
        }
        let mut k: usize = 0;
        while k < groups.len() && str_le(groups[k].title.as_str(), name.as_str()) && !str_eq(
            groups[k].title.as_str(),
            name.as_str(),
        )
            invariant
                k <= groups.len(),
                groups.deep_view() == before,
                forall|j: int| 0 <= j < k ==> text_lt((#[trigger] before[j]).title, name@),
            decreases groups.len() - k,
        {
            assert(before[k as int].title == groups[k as int].title@);
            k += 1;
        }
        if k < groups.len() && str_eq(groups[k].title.as_str(), name.as_str()) {
            let mut group = groups.remove(k);
            let ghost held = group.rows.deep_view();
            group.rows.append(&mut rows);
            proof {
                assert(group.rows.deep_view() =~= held + rows_of(mapping@, root@));
                assert(before[k as int].title == name@);
                lemma_group_grows(before, sofar, mapping@, root@, k as int);
            }
            groups.insert(k, group);
            proof {
                assert(groups.deep_view() =~= before.update(
                    k as int,
                    GroupView {
                        title: before[k as int].title,
                        rows: before[k as int].rows + rows_of(mapping@, root@),
                    },
                ));
            }
        } else {
            proof {
                if k < groups.len() {
                    assert(before[k as int].title == groups[k as int].title@);
                }
                lemma_group_enters(before, sofar, mapping@, root@, k as int);
            }
            groups.insert(k, Group { title: name, rows });
            proof {
                assert(groups.deep_view() =~= before.insert(
                    k as int,
                    GroupView { title: title_of(mapping@.rule()), rows: rows_of(mapping@, root@) },
                ));
            }
        }
        n += 1;
    }
    assert(plan@.take(n as int) =~= plan@);
    (groups, width)
}

/// Shows `groups` with the left column filled up to `width`.
pub fn render(groups: Vec<Group>, width: usize) -> (sections: Vec<Section>)
    ensures
        shows(sections.deep_view(), groups.deep_view(), width as nat),
{
    let mut sections: Vec<Section> = Vec::new();
    let mut i: usize = 0;
    while i < groups.len()
        invariant
            i <= groups.len(),
            shows(sections.deep_view(), groups.deep_view().take(i as int), width as nat),
        decreases groups.len() - i,
    {
        let group = &groups[i];
        let mut rows: Vec<String> = Vec::new();
        let mut j: usize = 0;
        let ghost shown = group.rows.deep_view().map_values(
            |row: RowView| rendered(row, width as nat),
        );
        while j < group.rows.len()
            invariant
                j <= group.rows.len(),
                shown == group.rows.deep_view().map_values(
                    |row: RowView| rendered(row, width as nat),
                ),
                rows.deep_view() == shown.take(j as int),
            decreases group.rows.len() - j,
        {
            let row = &group.rows[j];
            let line = pad_right(row.0.clone(), width).concat(" <- ").concat(row.1.as_str());
            let ghost held = rows.deep_view();
            rows.push(line);
            proof {
                assert(group.rows.deep_view()[j as int] == (row.0@, row.1@));
                assert(rows.deep_view() =~= held.push(shown[j as int]));
                assert(rows.deep_view() =~= shown.take(j + 1));
            }
            j += 1;
        }
        let ghost held = sections.deep_view();
        proof {
            assert(shown.take(j as int) =~= shown);
        }
        sections.push(Section { title: group.title.clone(), rows });
        proof {
            let upto = groups.deep_view().take(i + 1);
            assert(sections.deep_view() =~= held.push(
                SectionView { title: group.title@, rows: shown },
            ));
            assert(upto[i as int] == group@);
            assert forall|m: int| 0 <= m < sections.deep_view().len() implies (
            #[trigger] sections.deep_view()[m]).title == upto[m].title && sections.deep_view()[m].rows
                == upto[m].rows.map_values(|row: RowView| rendered(row, width as nat)) by {
                if m < i {
                    assert(sections.deep_view()[m] == held[m]);
                    assert(upto[m] == groups.deep_view().take(i as int)[m]);
                }
            }
        }
        i += 1;
    }
    assert(groups.deep_view().take(i as int) =~= groups.deep_view());
    sections
}

impl CachedPlan {
    /// What is shown of the plan, as seen from `root`: one section for each
    /// rule, the sections in the order of their titles, each row as
    /// `target <- source` with the arrows below each other.
    pub fn pretty_print(&self, root: &str) -> (sections: Vec<Section>)
        ensures
            printed(sections.deep_view(), self@.plan, root@),
    {
        let (groups, width) = group_rows(self.as_inner(), root);
        render(groups, width)
    }
}

} // verus!
