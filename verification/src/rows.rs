//! Raw rows of the relational store, as plain values.
//!
//! One struct per table, mirroring the nullable columns of the store.  The
//! caller reads the tables and fills these; every rule about which rows count
//! and in what order lives in the verified loaders, not in the store queries.

use vstd::prelude::*;

verus! {

/// A row of the branches table.
#[derive(Debug)]
pub struct BranchRow {
    pub name: String,
    pub last_known_commit: Option<String>,
    pub description: Option<String>,
}

/// Mathematical model of a [`BranchRow`].
#[verifier::ext_equal]
pub struct BranchRowV {
    pub name: Seq<char>,
    pub last_known_commit: Option<Seq<char>>,
    pub description: Option<Seq<char>>,
}

impl DeepView for BranchRow {
    type V = BranchRowV;

    open spec fn deep_view(&self) -> BranchRowV {
        BranchRowV {
            name: self.name.deep_view(),
            last_known_commit: self.last_known_commit.deep_view(),
            description: self.description.deep_view(),
        }
    }
}

/// A row of the build-definitions table.
#[derive(Debug)]
pub struct DefinitionRow {
    pub name: String,
    pub description: Option<String>,
}

/// Mathematical model of a [`DefinitionRow`].
#[verifier::ext_equal]
pub struct DefinitionRowV {
    pub name: Seq<char>,
    pub description: Option<Seq<char>>,
}

impl DeepView for DefinitionRow {
    type V = DefinitionRowV;

    open spec fn deep_view(&self) -> DefinitionRowV {
        DefinitionRowV {
            name: self.name.deep_view(),
            description: self.description.deep_view(),
        }
    }
}

/// A row of the steps table.  `enabled` and `may_fail` are the store's
/// free-form textual flags; `build_name` names the owning build definition
/// and `step_order` is the explicit execution-order column.
#[derive(Debug)]
pub struct StepRow {
    pub name: String,
    pub description: Option<String>,
    pub command: String,
    pub rollback_command: Option<String>,
    pub enabled: String,
    pub may_fail: String,
    pub build_name: String,
    pub step_order: i64,
}

/// Mathematical model of a [`StepRow`].
#[verifier::ext_equal]
pub struct StepRowV {
    pub name: Seq<char>,
    pub description: Option<Seq<char>>,
    pub command: Seq<char>,
    pub rollback_command: Option<Seq<char>>,
    pub enabled: Seq<char>,
    pub may_fail: Seq<char>,
    pub build_name: Seq<char>,
    pub step_order: i64,
}

impl DeepView for StepRow {
    type V = StepRowV;

    open spec fn deep_view(&self) -> StepRowV {
        StepRowV {
            name: self.name.deep_view(),
            description: self.description.deep_view(),
            command: self.command.deep_view(),
            rollback_command: self.rollback_command.deep_view(),
            enabled: self.enabled.deep_view(),
            may_fail: self.may_fail.deep_view(),
            build_name: self.build_name.deep_view(),
            step_order: self.step_order,
        }
    }
}

/// A row of the branch/build-definition link table.
#[derive(Debug)]
pub struct LinkRow {
    pub branch_name: String,
    pub build_definition: String,
    pub enabled: String,
}

/// Mathematical model of a [`LinkRow`].
#[verifier::ext_equal]
pub struct LinkRowV {
    pub branch_name: Seq<char>,
    pub build_definition: Seq<char>,
    pub enabled: Seq<char>,
}

impl DeepView for LinkRow {
    type V = LinkRowV;

    open spec fn deep_view(&self) -> LinkRowV {
        LinkRowV {
            branch_name: self.branch_name.deep_view(),
            build_definition: self.build_definition.deep_view(),
            enabled: self.enabled.deep_view(),
        }
    }
}

/// Everything one load reads from the store: the singleton repository
/// record (one string per row) and the four entity tables.
#[derive(Debug)]
pub struct StoreSnapshot {
    pub repository_rows: Vec<String>,
    pub branch_rows: Vec<BranchRow>,
    pub definition_rows: Vec<DefinitionRow>,
    pub step_rows: Vec<StepRow>,
    pub link_rows: Vec<LinkRow>,
}

/// Mathematical model of a [`StoreSnapshot`].
#[verifier::ext_equal]
pub struct StoreSnapshotV {
    pub repository_rows: Seq<Seq<char>>,
    pub branch_rows: Seq<BranchRowV>,
    pub definition_rows: Seq<DefinitionRowV>,
    pub step_rows: Seq<StepRowV>,
    pub link_rows: Seq<LinkRowV>,
}

impl DeepView for StoreSnapshot {
    type V = StoreSnapshotV;

    open spec fn deep_view(&self) -> StoreSnapshotV {
        StoreSnapshotV {
            repository_rows: self.repository_rows.deep_view(),
            branch_rows: self.branch_rows.deep_view(),
            definition_rows: self.definition_rows.deep_view(),
            step_rows: self.step_rows.deep_view(),
            link_rows: self.link_rows.deep_view(),
        }
    }
}

/// Clones an optional string, keeping its value exactly.
pub fn clone_opt_string(o: &Option<String>) -> (r: Option<String>)
    ensures
        r == *o,
{
    match o {
        Option::Some(s) => Option::Some(s.clone()),
        Option::None => Option::None,
    }
}

impl Clone for StepRow {
    fn clone(&self) -> (r: StepRow)
        ensures
            r == *self,
    {
        StepRow {
            name: self.name.clone(),
            description: clone_opt_string(&self.description),
            command: self.command.clone(),
            rollback_command: clone_opt_string(&self.rollback_command),
            enabled: self.enabled.clone(),
            may_fail: self.may_fail.clone(),
            build_name: self.build_name.clone(),
            step_order: self.step_order,
        }
    }
}

/// The store keeps enabled/may-fail flags as free-form text.  A flag counts
/// as true exactly when it spells the literal `TRUE` in any mix of case;
/// every other value, malformed ones included, silently counts as false.
pub open spec fn flag_is_true(s: Seq<char>) -> bool {
    &&& s.len() == 4
    &&& (s[0] == 'T' || s[0] == 't')
    &&& (s[1] == 'R' || s[1] == 'r')
    &&& (s[2] == 'U' || s[2] == 'u')
    &&& (s[3] == 'E' || s[3] == 'e')
}

/// Parses a textual flag of the store: true exactly for `TRUE`,
/// case-insensitively; anything else is false.
pub fn parse_flag(s: &str) -> (r: bool)
    ensures
        r == flag_is_true(s@),
{
    let n = s.unicode_len();
    if n != 4 {
        return false;
    }
    let c0 = s.get_char(0);
    let c1 = s.get_char(1);
    let c2 = s.get_char(2);
    let c3 = s.get_char(3);
    (c0 == 'T' || c0 == 't') && (c1 == 'R' || c1 == 'r') && (c2 == 'U' || c2 == 'u') && (c3 == 'E'
        || c3 == 'e')
}

} // verus!
