//! The configuration facade: one call from a store snapshot to the
//! resolved graph.
//!
//! [`Configuration::resolve`] runs the row loaders and the assembler in a
//! fixed order and translates a store without a repository record into the
//! error taxonomy.  The result is all-or-nothing: the one tolerated
//! inconsistency is a dangling link, which is reported as a diagnostic
//! while the load still succeeds.

use vstd::prelude::*;

use crate::assembly::assemble;
use crate::assembly::assemble_diags;
use crate::assembly::assemble_spec;
use crate::configuration::Configuration;
use crate::configuration::ConfigurationError;
use crate::configuration::ConfigurationErrorV;
use crate::configuration::ConfigurationV;
use crate::configuration::Diagnostic;
use crate::configuration::DiagnosticV;
use crate::loaders::branches_of;
use crate::loaders::definition_diags;
use crate::loaders::definitions_of;
use crate::loaders::enabled_links;
use crate::loaders::load_branches;
use crate::loaders::load_build_definitions;
use crate::loaders::load_connections;
use crate::rows::StoreSnapshot;
use crate::rows::StoreSnapshotV;

verus! {

/// The detail a load reports when the store holds no repository record.
pub open spec fn no_repository_record_detail() -> Seq<char> {
    "no repository record in the store"@
}

/// The configuration a snapshot with a repository record resolves to: the
/// first repository row as the repository path, one branch per branch row,
/// and every branch assembled from the loaded definitions and the enabled
/// links.
pub open spec fn resolve_spec(s: StoreSnapshotV) -> ConfigurationV {
    assemble_spec(
        ConfigurationV { repo_path: s.repository_rows[0], branches: branches_of(s.branch_rows) },
        definitions_of(s.definition_rows, s.step_rows),
        enabled_links(s.link_rows),
    )
}

/// The diagnostics one resolution emits, in emission order: step-order
/// warnings while definitions load, then each branch's dangling links.
pub open spec fn resolve_diags(s: StoreSnapshotV) -> Seq<DiagnosticV> {
    definition_diags(s.definition_rows, s.step_rows) + assemble_diags(
        branches_of(s.branch_rows),
        definitions_of(s.definition_rows, s.step_rows),
        enabled_links(s.link_rows),
    )
}

impl Configuration {
    /// Resolves a store snapshot into a configuration graph.
    ///
    /// Succeeds exactly when the snapshot holds a repository record; a
    /// store without one is semantically invalid and the whole load fails
    /// with [`ConfigurationError::BadConfiguration`], emitting nothing.  On
    /// success the result is [`resolve_spec`] of the snapshot and the
    /// emitted diagnostics are [`resolve_diags`]: dangling links never fail
    /// a load.
    pub fn resolve(snapshot: &StoreSnapshot, diagnostics: &mut Vec<Diagnostic>) -> (r: Result<
        Configuration,
        ConfigurationError,
    >)
        ensures
            r is Ok <==> snapshot.repository_rows@.len() > 0,
            r is Ok ==> (r->Ok_0).deep_view() == resolve_spec(snapshot.deep_view())
                && final(diagnostics).deep_view() == old(diagnostics).deep_view() + resolve_diags(
                snapshot.deep_view(),
            ),
            r is Err ==> (r->Err_0).deep_view() == ConfigurationErrorV::BadConfiguration(
                no_repository_record_detail(),
            ) && *final(diagnostics) == *old(diagnostics),
    {
        let ghost s = snapshot.deep_view();
        if snapshot.repository_rows.len() == 0 {
            return Result::Err(
                ConfigurationError::BadConfiguration("no repository record in the store".to_owned()),
            );
        }
        let repo_path = snapshot.repository_rows[0].clone();
        let branches = load_branches(&snapshot.branch_rows);
        let configuration = Configuration { repo_path, branches };
        let ghost cfg_v = configuration.deep_view();
        proof {
            assert(cfg_v =~~= ConfigurationV {
                repo_path: s.repository_rows[0],
                branches: branches_of(s.branch_rows),
            });
        }
        let definitions = load_build_definitions(
            &snapshot.definition_rows,
            &snapshot.step_rows,
            diagnostics,
        );
        let connections = load_connections(&snapshot.link_rows);
        let assembled = assemble(configuration, &definitions, &connections, diagnostics);
        proof {
            assert(diagnostics.deep_view() =~= old(diagnostics).deep_view() + resolve_diags(s));
        }
        Result::Ok(assembled)
    }
}

/// A resolved configuration's repository path is exactly the store's
/// repository-record value: the first row of the singleton record table.
pub proof fn lemma_repo_path_from_record(s: StoreSnapshotV)
    ensures
        resolve_spec(s).repo_path == s.repository_rows[0],
{
}

/// Loading is idempotent: the resolved graph is a function of the snapshot
/// alone, so two loads against an unchanged store produce structurally
/// equal configurations.
pub proof fn lemma_resolve_deterministic(
    s: StoreSnapshotV,
    c1: ConfigurationV,
    c2: ConfigurationV,
)
    requires
        c1 == resolve_spec(s),
        c2 == resolve_spec(s),
    ensures
        c1 == c2,
{
}

} // verus!
