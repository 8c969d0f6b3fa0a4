//! Row loaders: from raw store rows to value objects.
//!
//! One loader per entity.  Each is a pure function of the rows it is given:
//! branches map one to one, connections keep only rows whose enabled flag is
//! true, and steps are filtered to one build definition's enabled rows and
//! ordered ascending by the explicit order column.

use vstd::prelude::*;

use crate::configuration::Branch;
use crate::configuration::BranchV;
use crate::configuration::BuildDefinition;
use crate::configuration::BuildDefinitionV;
use crate::configuration::Diagnostic;
use crate::configuration::DiagnosticV;
use crate::configuration::Step;
use crate::configuration::StepV;
use crate::rows::clone_opt_string;
use crate::rows::flag_is_true;
use crate::rows::parse_flag;
use crate::rows::BranchRow;
use crate::rows::BranchRowV;
use crate::rows::DefinitionRow;
use crate::rows::DefinitionRowV;
use crate::rows::LinkRow;
use crate::rows::LinkRowV;
use crate::rows::StepRow;
use crate::rows::StepRowV;

verus! {

/// The branch a branch row materializes as: its columns, with no build
/// definitions attached yet.
pub open spec fn branch_of_row(r: BranchRowV) -> BranchV {
    BranchV {
        name: r.name,
        last_known_commit: r.last_known_commit,
        description: r.description,
        build_definitions: Seq::empty(),
    }
}

/// What [`load_branches`] returns: one branch per row, in store order.
pub open spec fn branches_of(rows: Seq<BranchRowV>) -> Seq<BranchV> {
    rows.map_values(|r: BranchRowV| branch_of_row(r))
}

proof fn lemma_branches_of_push(rows: Seq<BranchRowV>, r: BranchRowV)
    ensures
        branches_of(rows.push(r)) == branches_of(rows).push(branch_of_row(r)),
{
    assert(branches_of(rows.push(r)) =~= branches_of(rows).push(branch_of_row(r)));
}

/// Materializes one branch per row, in store order, each with optional
/// columns carried over and an empty build-definition list.
pub fn load_branches(rows: &Vec<BranchRow>) -> (branches: Vec<Branch>)
    ensures
        branches.deep_view() == branches_of(rows.deep_view()),
{
    let ghost rows_v = rows.deep_view();
    let mut branches: Vec<Branch> = Vec::new();
    let mut i: usize = 0;
    while i < rows.len()
        invariant
            i <= rows.len(),
            rows_v == rows.deep_view(),
            branches@.len() == i,
            branches.deep_view() == branches_of(rows_v.take(i as int)),
        decreases rows.len() - i,
    {
        let ghost prev = branches.deep_view();
        let row = &rows[i];
        let branch = Branch {
            name: row.name.clone(),
            last_known_commit: clone_opt_string(&row.last_known_commit),
            description: clone_opt_string(&row.description),
            build_definitions: Vec::new(),
        };
        proof {
            assert(branch.deep_view() =~~= branch_of_row(rows_v[i as int]));
        }
        branches.push(branch);
        proof {
            assert(branches.deep_view() =~~= prev.push(branch_of_row(rows_v[i as int])));
            assert(rows_v.take(i + 1) =~= rows_v.take(i as int).push(rows_v[i as int]));
            lemma_branches_of_push(rows_v.take(i as int), rows_v[i as int]);
        }
        i = i + 1;
    }
    proof {
        assert(rows_v.take(rows_v.len() as int) =~= rows_v);
    }
    branches
}

/// What [`load_connections`] returns: the (branch name, build definition
/// name) pairs of the rows whose enabled flag is true, in store order.
pub open spec fn enabled_links(rows: Seq<LinkRowV>) -> Seq<(Seq<char>, Seq<char>)>
    decreases rows.len(),
{
    if rows.len() == 0 {
        Seq::empty()
    } else {
        let rest = enabled_links(rows.drop_last());
        if flag_is_true(rows.last().enabled) {
            rest.push((rows.last().branch_name, rows.last().build_definition))
        } else {
            rest
        }
    }
}

/// Keeps only the link rows marked enabled, as (branch name, build
/// definition name) connections, in store order.
pub fn load_connections(rows: &Vec<LinkRow>) -> (connections: Vec<(String, String)>)
    ensures
        connections.deep_view() == enabled_links(rows.deep_view()),
{
    let ghost rows_v = rows.deep_view();
    let mut connections: Vec<(String, String)> = Vec::new();
    let mut i: usize = 0;
    while i < rows.len()
        invariant
            i <= rows.len(),
            rows_v == rows.deep_view(),
            connections.deep_view() == enabled_links(rows_v.take(i as int)),
        decreases rows.len() - i,
    {
        let row = &rows[i];
        if parse_flag(row.enabled.as_str()) {
            connections.push((row.branch_name.clone(), row.build_definition.clone()));
        }
        proof {
            assert(rows_v.take(i + 1).drop_last() =~= rows_v.take(i as int));
            assert(rows_v.take(i + 1).last() == rows_v[i as int]);
            if flag_is_true(rows_v[i as int].enabled) {
                assert(connections.deep_view() =~= enabled_links(rows_v.take(i + 1)));
            }
        }
        i = i + 1;
    }
    proof {
        assert(rows_v.take(rows_v.len() as int) =~= rows_v);
    }
    connections
}

/// The connection `c` is what some link row whose enabled flag is true
/// holds: that row's branch and build-definition names.
pub open spec fn connection_from_rows(rows: Seq<LinkRowV>, c: (Seq<char>, Seq<char>)) -> bool {
    exists|j: int|
        0 <= j < rows.len() && flag_is_true(#[trigger] rows[j].enabled) && c == (
            rows[j].branch_name,
            rows[j].build_definition,
        )
}

/// Every connection comes from a link row whose enabled flag is true, and
/// carries that row's branch and build-definition names: rows marked
/// disabled contribute nothing.
pub proof fn lemma_enabled_links_from_enabled_rows(rows: Seq<LinkRowV>)
    ensures
        forall|m: int|
            0 <= m < enabled_links(rows).len() ==> connection_from_rows(
                rows,
                #[trigger] enabled_links(rows)[m],
            ),
    decreases rows.len(),
{
    if rows.len() > 0 {
        let prefix = rows.drop_last();
        lemma_enabled_links_from_enabled_rows(prefix);
        let rest = enabled_links(prefix);
        assert forall|m: int| 0 <= m < enabled_links(rows).len() implies connection_from_rows(
            rows,
            enabled_links(rows)[m],
        ) by {
            if flag_is_true(rows.last().enabled) && m == rest.len() {
                let j = rows.len() - 1;
                assert(rows.last() == rows[j]);
                assert(enabled_links(rows)[m] == (rows[j].branch_name, rows[j].build_definition));
            } else {
                assert(enabled_links(rows)[m] == rest[m]);
                assert(connection_from_rows(prefix, rest[m]));
                let j = choose|j: int|
                    0 <= j < prefix.len() && flag_is_true(#[trigger] prefix[j].enabled) && rest[m]
                        == (prefix[j].branch_name, prefix[j].build_definition);
                assert(prefix[j] == rows[j]);
                assert(flag_is_true(rows[j].enabled));
            }
        }
    }
}

/// True of a step row that [`load_steps`] keeps for the build definition
/// named `build`: the row belongs to that definition and its enabled flag
/// is true.
pub open spec fn step_row_kept(r: StepRowV, build: Seq<char>) -> bool {
    r.build_name == build && flag_is_true(r.enabled)
}

/// The rows kept for `build`, in store order.
pub open spec fn kept_rows(rows: Seq<StepRowV>, build: Seq<char>) -> Seq<StepRowV>
    decreases rows.len(),
{
    if rows.len() == 0 {
        Seq::empty()
    } else {
        let rest = kept_rows(rows.drop_last(), build);
        if step_row_kept(rows.last(), build) {
            rest.push(rows.last())
        } else {
            rest
        }
    }
}

/// Inserts `r` behind every row whose order value is at most `r`'s: the
/// insertion step of a stable insertion sort by the order column.
pub open spec fn place_row(s: Seq<StepRowV>, r: StepRowV) -> Seq<StepRowV>
    decreases s.len(),
{
    if s.len() == 0 {
        seq![r]
    } else if s.last().step_order <= r.step_order {
        s.push(r)
    } else {
        place_row(s.drop_last(), r).push(s.last())
    }
}

/// Stable insertion sort of step rows, ascending by the order column: rows
/// with equal order values keep their mutual store order.
pub open spec fn sort_rows(s: Seq<StepRowV>) -> Seq<StepRowV>
    decreases s.len(),
{
    if s.len() == 0 {
        s
    } else {
        place_row(sort_rows(s.drop_last()), s.last())
    }
}

/// Ascending by the explicit order column.
pub open spec fn ordered_by_step_order(s: Seq<StepRowV>) -> bool {
    forall|i: int, j: int| 0 <= i <= j < s.len() ==> s[i].step_order <= s[j].step_order
}

/// The step a kept row materializes as: the may-fail flag parsed, the
/// bookkeeping columns dropped.
pub open spec fn step_of_row(r: StepRowV) -> StepV {
    StepV {
        name: r.name,
        description: r.description,
        command: r.command,
        rollback_command: r.rollback_command,
        may_fail: flag_is_true(r.may_fail),
    }
}

/// Each row of `s` materialized as a step, in order.
pub open spec fn materialized(s: Seq<StepRowV>) -> Seq<StepV> {
    s.map_values(|r: StepRowV| step_of_row(r))
}

proof fn lemma_materialized_push(s: Seq<StepRowV>, r: StepRowV)
    ensures
        materialized(s.push(r)) == materialized(s).push(step_of_row(r)),
{
    assert(materialized(s.push(r)) =~= materialized(s).push(step_of_row(r)));
}

/// What [`load_steps`] returns for `build`: the kept rows, sorted by the
/// order column, materialized as steps.
pub open spec fn steps_of(rows: Seq<StepRowV>, build: Seq<char>) -> Seq<StepV> {
    materialized(sort_rows(kept_rows(rows, build)))
}

/// Two adjacent rows share an order value.  On a sorted sequence this is
/// exactly: some order value occurs twice.
pub open spec fn has_order_tie(s: Seq<StepRowV>) -> bool {
    exists|i: int|
        0 <= i && i + 1 < s.len() && (#[trigger] s[i].step_order) == s[i + 1].step_order
}

/// The diagnostics [`load_steps`] emits for `build`: one warning when kept
/// rows tie on the order column, since the schema forbids ties and the
/// mutual order of the tied steps is undefined.
pub open spec fn step_diags(rows: Seq<StepRowV>, build: Seq<char>) -> Seq<DiagnosticV> {
    if has_order_tie(sort_rows(kept_rows(rows, build))) {
        seq![DiagnosticV::DuplicateStepOrder { build_definition: build }]
    } else {
        Seq::empty()
    }
}

/// Placing `r` at position `j` is what [`place_row`] does, provided
/// everything from `j` on has a larger order value and the element just
/// before `j`, if any, does not.
proof fn lemma_place_row_at(s: Seq<StepRowV>, r: StepRowV, j: int)
    requires
        0 <= j <= s.len(),
        forall|k: int| j <= k < s.len() ==> s[k].step_order > r.step_order,
        j > 0 ==> s[j - 1].step_order <= r.step_order,
    ensures
        place_row(s, r) == s.insert(j, r),
    decreases s.len(),
{
    if j == s.len() {
        if s.len() == 0 {
            assert(place_row(s, r) =~= s.insert(j, r));
        } else {
            assert(s.last().step_order <= r.step_order);
            assert(place_row(s, r) =~= s.insert(j, r));
        }
    } else {
        assert(s.last().step_order > r.step_order);
        assert(forall|k: int| j <= k < s.drop_last().len() ==> s.drop_last()[k].step_order
            > r.step_order);
        assert(j > 0 ==> s.drop_last()[j - 1].step_order <= r.step_order);
        lemma_place_row_at(s.drop_last(), r, j);
        assert(place_row(s, r) == place_row(s.drop_last(), r).push(s.last()));
        assert(s.drop_last().insert(j, r).push(s.last()) =~= s.insert(j, r));
    }
}

/// Inserts a cloned row into `sorted` at the position a stable insertion
/// sort gives it.
fn insert_row(sorted: &mut Vec<StepRow>, row: StepRow)
    ensures
        final(sorted).deep_view() == place_row(old(sorted).deep_view(), row.deep_view()),
{
    let ghost s = sorted.deep_view();
    let mut j: usize = sorted.len();
    while j > 0 && sorted[j - 1].step_order > row.step_order
        invariant
            j <= sorted.len(),
            s == sorted.deep_view(),
            sorted@.len() == s.len(),
            forall|k: int| j <= k < s.len() ==> s[k].step_order > row.deep_view().step_order,
        decreases j,
    {
        j = j - 1;
    }
    proof {
        lemma_place_row_at(s, row.deep_view(), j as int);
    }
    sorted.insert(j, row);
    proof {
        assert(sorted.deep_view() =~~= s.insert(j as int, row.deep_view()));
    }
}

/// Materializes one kept row as a step.
fn make_step(row: &StepRow) -> (s: Step)
    ensures
        s.deep_view() == step_of_row(row.deep_view()),
{
    Step {
        name: row.name.clone(),
        description: clone_opt_string(&row.description),
        command: row.command.clone(),
        rollback_command: clone_opt_string(&row.rollback_command),
        may_fail: parse_flag(row.may_fail.as_str()),
    }
}

/// Returns the steps of the build definition named `build_definition_name`:
/// exactly the rows owned by it whose enabled flag is true, ascending by
/// the explicit order column.  Rows tying on the order column keep their
/// store order and cause one warning diagnostic, since the schema does not
/// permit ties.
pub fn load_steps(
    rows: &Vec<StepRow>,
    build_definition_name: &String,
    diagnostics: &mut Vec<Diagnostic>,
) -> (steps: Vec<Step>)
    ensures
        steps.deep_view() == steps_of(rows.deep_view(), build_definition_name@),
        final(diagnostics).deep_view() == old(diagnostics).deep_view() + step_diags(
            rows.deep_view(),
            build_definition_name@,
        ),
{
    let ghost rows_v = rows.deep_view();
    let ghost build = build_definition_name@;
    let mut sorted: Vec<StepRow> = Vec::new();
    let mut i: usize = 0;
    while i < rows.len()
        invariant
            i <= rows.len(),
            rows_v == rows.deep_view(),
            sorted.deep_view() == sort_rows(kept_rows(rows_v.take(i as int), build)),
            build == build_definition_name@,
        decreases rows.len() - i,
    {
        let row = &rows[i];
        let keep = row.build_name == *build_definition_name && parse_flag(row.enabled.as_str());
        if keep {
            insert_row(&mut sorted, row.clone());
        }
        proof {
            let prefix = kept_rows(rows_v.take(i as int), build);
            assert(rows_v.take(i + 1).drop_last() =~= rows_v.take(i as int));
            assert(rows_v.take(i + 1).last() == rows_v[i as int]);
            if step_row_kept(rows_v[i as int], build) {
                assert(kept_rows(rows_v.take(i + 1), build) == prefix.push(rows_v[i as int]));
                assert(prefix.push(rows_v[i as int]).drop_last() =~= prefix);
                assert(sort_rows(prefix.push(rows_v[i as int])) == place_row(
                    sort_rows(prefix),
                    rows_v[i as int],
                ));
            } else {
                assert(kept_rows(rows_v.take(i + 1), build) == prefix);
            }
        }
        i = i + 1;
    }
    proof {
        assert(rows_v.take(rows_v.len() as int) =~= rows_v);
    }
    let ghost sorted_v = sorted.deep_view();
    let mut tie = false;
    let mut j: usize = 1;
    while j < sorted.len()
        invariant
            1 <= j,
            sorted_v == sorted.deep_view(),
            sorted@.len() == sorted_v.len(),
            tie <==> exists|k: int|
                0 <= k && k + 1 < j && k + 1 < sorted_v.len() && (
                #[trigger] sorted_v[k].step_order) == sorted_v[k + 1].step_order,
        decreases sorted.len() - j,
    {
        if sorted[j - 1].step_order == sorted[j].step_order {
            tie = true;
            proof {
                assert(sorted_v[j - 1].step_order == sorted_v[j as int].step_order);
            }
        }
        j = j + 1;
    }
    proof {
        assert(tie == has_order_tie(sorted_v));
    }
    if tie {
        diagnostics.push(
            Diagnostic::DuplicateStepOrder { build_definition: build_definition_name.clone() },
        );
        proof {
            assert(diagnostics.deep_view() =~= old(diagnostics).deep_view() + step_diags(
                rows_v,
                build,
            ));
        }
    } else {
        proof {
            assert(diagnostics.deep_view() =~= old(diagnostics).deep_view() + step_diags(
                rows_v,
                build,
            ));
        }
    }
    let mut steps: Vec<Step> = Vec::new();
    let mut k: usize = 0;
    while k < sorted.len()
        invariant
            k <= sorted.len(),
            sorted_v == sorted.deep_view(),
            sorted@.len() == sorted_v.len(),
            steps@.len() == k,
            steps.deep_view() == materialized(sorted_v.take(k as int)),
        decreases sorted.len() - k,
    {
        let ghost prev = steps.deep_view();
        let step = make_step(&sorted[k]);
        steps.push(step);
        proof {
            assert(steps.deep_view() =~~= prev.push(step_of_row(sorted_v[k as int])));
            assert(sorted_v.take(k + 1) =~= sorted_v.take(k as int).push(sorted_v[k as int]));
            lemma_materialized_push(sorted_v.take(k as int), sorted_v[k as int]);
        }
        k = k + 1;
    }
    proof {
        assert(sorted_v.take(sorted_v.len() as int) =~= sorted_v);
    }
    steps
}

/// Every element of `place_row(s, r)` is an element of `s` or is `r`.
proof fn lemma_place_row_elems(s: Seq<StepRowV>, r: StepRowV)
    ensures
        forall|m: int|
            0 <= m < place_row(s, r).len() ==> (exists|k: int|
                0 <= k < s.len() && #[trigger] place_row(s, r)[m] == s[k]) || place_row(s, r)[m]
                == r,
        place_row(s, r).len() == s.len() + 1,
    decreases s.len(),
{
    if s.len() == 0 {
    } else if s.last().step_order <= r.step_order {
        assert forall|m: int| 0 <= m < place_row(s, r).len() implies (exists|k: int|
            0 <= k < s.len() && #[trigger] place_row(s, r)[m] == s[k]) || place_row(s, r)[m]
            == r by {
            if m < s.len() {
                assert(place_row(s, r)[m] == s[m]);
            }
        }
    } else {
        lemma_place_row_elems(s.drop_last(), r);
        let rest = place_row(s.drop_last(), r);
        assert forall|m: int| 0 <= m < place_row(s, r).len() implies (exists|k: int|
            0 <= k < s.len() && #[trigger] place_row(s, r)[m] == s[k]) || place_row(s, r)[m]
            == r by {
            if m < rest.len() {
                assert(place_row(s, r)[m] == rest[m]);
                if exists|k: int| 0 <= k < s.drop_last().len() && #[trigger] rest[m]
                    == s.drop_last()[k] {
                    let k = choose|k: int|
                        0 <= k < s.drop_last().len() && #[trigger] rest[m] == s.drop_last()[k];
                    assert(s.drop_last()[k] == s[k]);
                }
            } else {
                assert(place_row(s, r)[m] == s.last());
                assert(s.last() == s[s.len() - 1]);
            }
        }
    }
}

/// Placing a row into a sequence that is ordered by the order column keeps
/// it ordered.
proof fn lemma_place_row_ordered(s: Seq<StepRowV>, r: StepRowV)
    requires
        ordered_by_step_order(s),
    ensures
        ordered_by_step_order(place_row(s, r)),
    decreases s.len(),
{
    if s.len() == 0 {
    } else if s.last().step_order <= r.step_order {
    } else {
        assert(ordered_by_step_order(s.drop_last()));
        lemma_place_row_ordered(s.drop_last(), r);
        lemma_place_row_elems(s.drop_last(), r);
        let rest = place_row(s.drop_last(), r);
        assert forall|m: int| 0 <= m < rest.len() implies rest[m].step_order
            <= s.last().step_order by {
            if exists|k: int| 0 <= k < s.drop_last().len() && #[trigger] rest[m]
                == s.drop_last()[k] {
                let k = choose|k: int|
                    0 <= k < s.drop_last().len() && #[trigger] rest[m] == s.drop_last()[k];
                assert(s[k].step_order <= s[s.len() - 1].step_order);
            } else {
                assert(rest[m] == r);
            }
        }
    }
}

/// A stable insertion sort leaves the rows ordered by the order column.
proof fn lemma_sort_rows_ordered(s: Seq<StepRowV>)
    ensures
        ordered_by_step_order(sort_rows(s)),
    decreases s.len(),
{
    if s.len() > 0 {
        lemma_sort_rows_ordered(s.drop_last());
        lemma_place_row_ordered(sort_rows(s.drop_last()), s.last());
    }
}

/// Every kept row belongs to `build` and is enabled.
proof fn lemma_kept_rows_kept(rows: Seq<StepRowV>, build: Seq<char>)
    ensures
        forall|m: int|
            0 <= m < kept_rows(rows, build).len() ==> step_row_kept(
                #[trigger] kept_rows(rows, build)[m],
                build,
            ),
    decreases rows.len(),
{
    if rows.len() > 0 {
        lemma_kept_rows_kept(rows.drop_last(), build);
        let rest = kept_rows(rows.drop_last(), build);
        assert forall|m: int| 0 <= m < kept_rows(rows, build).len() implies step_row_kept(
            #[trigger] kept_rows(rows, build)[m],
            build,
        ) by {
            if m < rest.len() {
                assert(kept_rows(rows, build)[m] == rest[m]);
                assert(step_row_kept(rest[m], build));
            } else {
                assert(kept_rows(rows, build)[m] == rows.last());
            }
        }
    }
}

/// Sorting keeps the rows' contents: every row of the result is a row of
/// the input.
proof fn lemma_sort_rows_elems(s: Seq<StepRowV>)
    ensures
        forall|m: int|
            0 <= m < sort_rows(s).len() ==> exists|k: int|
                0 <= k < s.len() && #[trigger] sort_rows(s)[m] == s[k],
        sort_rows(s).len() == s.len(),
    decreases s.len(),
{
    if s.len() > 0 {
        lemma_sort_rows_elems(s.drop_last());
        lemma_place_row_elems(sort_rows(s.drop_last()), s.last());
        let rest = sort_rows(s.drop_last());
        assert forall|m: int| 0 <= m < sort_rows(s).len() implies exists|k: int|
            0 <= k < s.len() && #[trigger] sort_rows(s)[m] == s[k] by {
            if exists|k: int| 0 <= k < rest.len() && #[trigger] sort_rows(s)[m] == rest[k] {
                let k = choose|k: int| 0 <= k < rest.len() && #[trigger] sort_rows(s)[m] == rest[k];
                let k2 = choose|k2: int| 0 <= k2 < s.drop_last().len() && #[trigger] rest[k]
                    == s.drop_last()[k2];
                assert(s.drop_last()[k2] == s[k2]);
            } else {
                assert(sort_rows(s)[m] == s.last());
                assert(s.last() == s[s.len() - 1]);
            }
        }
    }
}

/// The step rows a build definition materializes its steps from are sorted
/// ascending by the store's explicit order column, and every one of them
/// belongs to that definition with its enabled flag true: a disabled step
/// never appears.  [`steps_of`] is exactly this row sequence materialized
/// elementwise.
pub proof fn lemma_steps_ordered_and_enabled(rows: Seq<StepRowV>, build: Seq<char>)
    ensures
        ordered_by_step_order(sort_rows(kept_rows(rows, build))),
        forall|m: int|
            0 <= m < sort_rows(kept_rows(rows, build)).len() ==> step_row_kept(
                #[trigger] sort_rows(kept_rows(rows, build))[m],
                build,
            ),
        steps_of(rows, build) == materialized(sort_rows(kept_rows(rows, build))),
{
    let kept = kept_rows(rows, build);
    lemma_sort_rows_ordered(kept);
    lemma_kept_rows_kept(rows, build);
    lemma_sort_rows_elems(kept);
    assert forall|m: int| 0 <= m < sort_rows(kept).len() implies step_row_kept(
        #[trigger] sort_rows(kept)[m],
        build,
    ) by {
        let k = choose|k: int| 0 <= k < kept.len() && #[trigger] sort_rows(kept)[m] == kept[k];
        assert(step_row_kept(kept[k], build));
    }
}

/// The build definition a definition row materializes as: its columns,
/// with the steps [`load_steps`] gives it.
pub open spec fn definition_of(d: DefinitionRowV, step_rows: Seq<StepRowV>) -> BuildDefinitionV {
    BuildDefinitionV { name: d.name, description: d.description, steps: steps_of(step_rows, d.name) }
}

/// What [`load_build_definitions`] returns: one build definition per row,
/// in store order, each with its steps.
pub open spec fn definitions_of(defs: Seq<DefinitionRowV>, step_rows: Seq<StepRowV>) -> Seq<
    BuildDefinitionV,
> {
    defs.map_values(|d: DefinitionRowV| definition_of(d, step_rows))
}

proof fn lemma_definitions_of_push(defs: Seq<DefinitionRowV>, d: DefinitionRowV, step_rows: Seq<StepRowV>)
    ensures
        definitions_of(defs.push(d), step_rows) == definitions_of(defs, step_rows).push(
            definition_of(d, step_rows),
        ),
{
    assert(definitions_of(defs.push(d), step_rows) =~= definitions_of(defs, step_rows).push(
        definition_of(d, step_rows),
    ));
}

/// The diagnostics [`load_build_definitions`] emits: those of each build
/// definition's step loading, in store order.
pub open spec fn definition_diags(defs: Seq<DefinitionRowV>, step_rows: Seq<StepRowV>) -> Seq<
    DiagnosticV,
>
    decreases defs.len(),
{
    if defs.len() == 0 {
        Seq::empty()
    } else {
        definition_diags(defs.drop_last(), step_rows) + step_diags(step_rows, defs.last().name)
    }
}

/// Materializes one build definition per row, in store order, loading each
/// one's steps from the step rows.
pub fn load_build_definitions(
    definition_rows: &Vec<DefinitionRow>,
    step_rows: &Vec<StepRow>,
    diagnostics: &mut Vec<Diagnostic>,
) -> (definitions: Vec<BuildDefinition>)
    ensures
        definitions.deep_view() == definitions_of(definition_rows.deep_view(), step_rows.deep_view()),
        final(diagnostics).deep_view() == old(diagnostics).deep_view() + definition_diags(
            definition_rows.deep_view(),
            step_rows.deep_view(),
        ),
{
    let ghost defs_v = definition_rows.deep_view();
    let ghost steps_v = step_rows.deep_view();
    let mut definitions: Vec<BuildDefinition> = Vec::new();
    let mut i: usize = 0;
    while i < definition_rows.len()
        invariant
            i <= definition_rows.len(),
            defs_v == definition_rows.deep_view(),
            steps_v == step_rows.deep_view(),
            definitions@.len() == i,
            definitions.deep_view() == definitions_of(defs_v.take(i as int), steps_v),
            diagnostics.deep_view() == old(diagnostics).deep_view() + definition_diags(
                defs_v.take(i as int),
                steps_v,
            ),
        decreases definition_rows.len() - i,
    {
        let ghost prev = definitions.deep_view();
        let d = &definition_rows[i];
        let steps = load_steps(step_rows, &d.name, diagnostics);
        let definition = BuildDefinition {
            name: d.name.clone(),
            description: clone_opt_string(&d.description),
            steps,
        };
        proof {
            assert(definition.deep_view() =~~= definition_of(defs_v[i as int], steps_v));
        }
        definitions.push(definition);
        proof {
            assert(definitions.deep_view() =~~= prev.push(definition_of(defs_v[i as int], steps_v)));
            assert(defs_v.take(i + 1) =~= defs_v.take(i as int).push(defs_v[i as int]));
            lemma_definitions_of_push(defs_v.take(i as int), defs_v[i as int], steps_v);
            assert(defs_v.take(i + 1).drop_last() =~= defs_v.take(i as int));
            assert(diagnostics.deep_view() =~= old(diagnostics).deep_view() + definition_diags(
                defs_v.take(i + 1),
                steps_v,
            ));
        }
        i = i + 1;
    }
    proof {
        assert(defs_v.take(defs_v.len() as int) =~= defs_v);
    }
    definitions
}

} // verus!
