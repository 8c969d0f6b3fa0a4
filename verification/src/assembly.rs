//! The graph assembler: attaching build definitions to branches.
//!
//! For each branch, every connection naming that branch is resolved to the
//! first loaded build definition bearing the connection's definition name
//! and appended to the branch, in connection order.  A connection whose
//! definition does not exist is a dangling link: it is reported as an
//! error-level diagnostic and skipped, never failing the load.

use vstd::prelude::*;

use crate::configuration::Branch;
use crate::configuration::BranchV;
use crate::configuration::BuildDefinition;
use crate::configuration::BuildDefinitionV;
use crate::configuration::Configuration;
use crate::configuration::ConfigurationV;
use crate::configuration::Diagnostic;
use crate::configuration::DiagnosticV;
use crate::rows::clone_opt_string;

verus! {

/// The first build definition of `defs` named `name`, if any.  Duplicate
/// names are not guarded against: resolution deliberately uses the first
/// match.
pub open spec fn find_definition_spec(defs: Seq<BuildDefinitionV>, name: Seq<char>) -> Option<
    BuildDefinitionV,
>
    decreases defs.len(),
{
    if defs.len() == 0 {
        Option::None
    } else if defs.first().name == name {
        Option::Some(defs.first())
    } else {
        find_definition_spec(defs.drop_first(), name)
    }
}

proof fn lemma_find_definition_skip(defs: Seq<BuildDefinitionV>, name: Seq<char>, i: int)
    requires
        0 <= i <= defs.len(),
        forall|k: int| 0 <= k < i ==> (#[trigger] defs[k].name) != name,
    ensures
        find_definition_spec(defs, name) == find_definition_spec(defs.skip(i), name),
    decreases i,
{
    if i > 0 {
        assert(defs[0].name != name);
        assert(defs.first() == defs[0]);
        assert forall|k: int| 0 <= k < i - 1 implies (#[trigger] defs.drop_first()[k].name)
            != name by {
            assert(defs.drop_first()[k] == defs[k + 1]);
        }
        lemma_find_definition_skip(defs.drop_first(), name, i - 1);
        assert(defs.drop_first().skip(i - 1) =~= defs.skip(i));
    } else {
        assert(defs.skip(0) =~= defs);
    }
}

/// Returns a copy of the first build definition of `definitions` named
/// `name`, or nothing when no definition bears that name.
pub fn find_definition(definitions: &Vec<BuildDefinition>, name: &String) -> (r: Option<
    BuildDefinition,
>)
    ensures
        r.deep_view() == find_definition_spec(definitions.deep_view(), name@),
{
    let ghost defs_v = definitions.deep_view();
    let mut i: usize = 0;
    while i < definitions.len()
        invariant
            i <= definitions.len(),
            defs_v == definitions.deep_view(),
            forall|k: int| 0 <= k < i ==> (#[trigger] defs_v[k].name) != name@,
        decreases definitions.len() - i,
    {
        if definitions[i].name == *name {
            proof {
                lemma_find_definition_skip(defs_v, name@, i as int);
                assert(defs_v.skip(i as int).first() == defs_v[i as int]);
            }
            return Option::Some(definitions[i].clone());
        }
        i = i + 1;
    }
    proof {
        lemma_find_definition_skip(defs_v, name@, defs_v.len() as int);
        assert(defs_v.skip(defs_v.len() as int) =~= Seq::<BuildDefinitionV>::empty());
    }
    Option::None
}

/// The build definitions the assembler appends to the branch named
/// `branch`: for each connection naming that branch, in order, the first
/// loaded definition bearing the connection's definition name; connections
/// whose definition does not exist contribute nothing.
pub open spec fn attach_spec(
    defs: Seq<BuildDefinitionV>,
    connections: Seq<(Seq<char>, Seq<char>)>,
    branch: Seq<char>,
) -> Seq<BuildDefinitionV>
    decreases connections.len(),
{
    if connections.len() == 0 {
        Seq::empty()
    } else {
        let rest = attach_spec(defs, connections.drop_last(), branch);
        if connections.last().0 == branch {
            match find_definition_spec(defs, connections.last().1) {
                Option::Some(d) => rest.push(d),
                Option::None => rest,
            }
        } else {
            rest
        }
    }
}

/// The dangling links of the branch named `branch`: the connections naming
/// it whose build definition does not exist, each reported as one
/// error-level diagnostic, in connection order.
pub open spec fn dangling_spec(
    defs: Seq<BuildDefinitionV>,
    connections: Seq<(Seq<char>, Seq<char>)>,
    branch: Seq<char>,
) -> Seq<DiagnosticV>
    decreases connections.len(),
{
    if connections.len() == 0 {
        Seq::empty()
    } else {
        let rest = dangling_spec(defs, connections.drop_last(), branch);
        if connections.last().0 == branch && find_definition_spec(defs, connections.last().1)
            is None {
            rest.push(
                DiagnosticV::DanglingLink {
                    branch_name: connections.last().0,
                    build_definition: connections.last().1,
                },
            )
        } else {
            rest
        }
    }
}

/// What the assembler makes of one branch: the branch itself, with the
/// resolved build definitions appended to whatever it already carried.
pub open spec fn assemble_branch_spec(
    b: BranchV,
    defs: Seq<BuildDefinitionV>,
    connections: Seq<(Seq<char>, Seq<char>)>,
) -> BranchV {
    BranchV {
        name: b.name,
        last_known_commit: b.last_known_commit,
        description: b.description,
        build_definitions: b.build_definitions + attach_spec(defs, connections, b.name),
    }
}

/// What [`assemble`] returns: the configuration with every branch
/// assembled, branches and repository path otherwise untouched.
pub open spec fn assemble_spec(
    c: ConfigurationV,
    defs: Seq<BuildDefinitionV>,
    connections: Seq<(Seq<char>, Seq<char>)>,
) -> ConfigurationV {
    ConfigurationV {
        repo_path: c.repo_path,
        branches: c.branches.map_values(|b: BranchV| assemble_branch_spec(b, defs, connections)),
    }
}

/// The diagnostics [`assemble`] emits: each branch's dangling links, in
/// branch order.
pub open spec fn assemble_diags(
    branches: Seq<BranchV>,
    defs: Seq<BuildDefinitionV>,
    connections: Seq<(Seq<char>, Seq<char>)>,
) -> Seq<DiagnosticV>
    decreases branches.len(),
{
    if branches.len() == 0 {
        Seq::empty()
    } else {
        assemble_diags(branches.drop_last(), defs, connections) + dangling_spec(
            defs,
            connections,
            branches.last().name,
        )
    }
}

/// Clones a vector of build definitions, keeping its contents exactly.
fn clone_definitions(definitions: &Vec<BuildDefinition>) -> (r: Vec<BuildDefinition>)
    ensures
        r.deep_view() == definitions.deep_view(),
{
    let ghost defs_v = definitions.deep_view();
    let mut r: Vec<BuildDefinition> = Vec::new();
    let mut i: usize = 0;
    while i < definitions.len()
        invariant
            i <= definitions.len(),
            defs_v == definitions.deep_view(),
            r@.len() == i,
            r.deep_view() == defs_v.take(i as int),
        decreases definitions.len() - i,
    {
        let ghost prev = r.deep_view();
        r.push(definitions[i].clone());
        proof {
            assert(r.deep_view() =~~= prev.push(defs_v[i as int]));
            assert(defs_v.take(i + 1) =~= defs_v.take(i as int).push(defs_v[i as int]));
        }
        i = i + 1;
    }
    proof {
        assert(defs_v.take(defs_v.len() as int) =~= defs_v);
    }
    r
}

/// Assembles one branch: resolves every connection naming it, appends the
/// found definitions in connection order, and reports each dangling link.
fn attach_to_branch(
    branch: &Branch,
    definitions: &Vec<BuildDefinition>,
    connections: &Vec<(String, String)>,
    diagnostics: &mut Vec<Diagnostic>,
) -> (r: Branch)
    ensures
        r.deep_view() == assemble_branch_spec(
            branch.deep_view(),
            definitions.deep_view(),
            connections.deep_view(),
        ),
        final(diagnostics).deep_view() == old(diagnostics).deep_view() + dangling_spec(
            definitions.deep_view(),
            connections.deep_view(),
            branch.deep_view().name,
        ),
{
    let ghost defs_v = definitions.deep_view();
    let ghost conns_v = connections.deep_view();
    let ghost name_v = branch.deep_view().name;
    let mut build_definitions = clone_definitions(&branch.build_definitions);
    proof {
        assert(build_definitions.deep_view() =~= branch.deep_view().build_definitions
            + attach_spec(defs_v, conns_v.take(0), name_v));
    }
    let mut j: usize = 0;
    while j < connections.len()
        invariant
            j <= connections.len(),
            defs_v == definitions.deep_view(),
            conns_v == connections.deep_view(),
            name_v == branch.deep_view().name,
            build_definitions.deep_view() == branch.deep_view().build_definitions + attach_spec(
                defs_v,
                conns_v.take(j as int),
                name_v,
            ),
            diagnostics.deep_view() == old(diagnostics).deep_view() + dangling_spec(
                defs_v,
                conns_v.take(j as int),
                name_v,
            ),
        decreases connections.len() - j,
    {
        let ghost prev = build_definitions.deep_view();
        let ghost prev_diags = diagnostics.deep_view();
        let connection = &connections[j];
        proof {
            assert(conns_v.take(j + 1).drop_last() =~= conns_v.take(j as int));
            assert(conns_v.take(j + 1).last() == conns_v[j as int]);
            assert(conns_v[j as int] == (connection.0@, connection.1@));
        }
        if connection.0 == branch.name {
            match find_definition(definitions, &connection.1) {
                Option::Some(definition) => {
                    build_definitions.push(definition);
                    proof {
                        assert(build_definitions.deep_view() =~~= prev.push(
                            find_definition_spec(defs_v, conns_v[j as int].1)->Some_0,
                        ));
                        assert(build_definitions.deep_view() =~= branch.deep_view().build_definitions
                            + attach_spec(defs_v, conns_v.take(j + 1), name_v));
                    }
                },
                Option::None => {
                    diagnostics.push(
                        Diagnostic::DanglingLink {
                            branch_name: connection.0.clone(),
                            build_definition: connection.1.clone(),
                        },
                    );
                    proof {
                        assert(diagnostics.deep_view() =~~= prev_diags.push(
                            DiagnosticV::DanglingLink {
                                branch_name: conns_v[j as int].0,
                                build_definition: conns_v[j as int].1,
                            },
                        ));
                        assert(diagnostics.deep_view() =~= old(diagnostics).deep_view()
                            + dangling_spec(defs_v, conns_v.take(j + 1), name_v));
                    }
                },
            }
        }
        proof {
            assert(build_definitions.deep_view() =~= branch.deep_view().build_definitions
                + attach_spec(defs_v, conns_v.take(j + 1), name_v));
            assert(diagnostics.deep_view() =~= old(diagnostics).deep_view() + dangling_spec(
                defs_v,
                conns_v.take(j + 1),
                name_v,
            ));
        }
        j = j + 1;
    }
    proof {
        assert(conns_v.take(conns_v.len() as int) =~= conns_v);
    }
    let r = Branch {
        name: branch.name.clone(),
        last_known_commit: clone_opt_string(&branch.last_known_commit),
        description: clone_opt_string(&branch.description),
        build_definitions,
    };
    proof {
        assert(r.deep_view() =~~= assemble_branch_spec(branch.deep_view(), defs_v, conns_v));
    }
    r
}

/// Attaches build definitions to every branch of the configuration
/// according to the resolved connections, reporting dangling links as
/// diagnostics and never failing on them.
pub fn assemble(
    configuration: Configuration,
    definitions: &Vec<BuildDefinition>,
    connections: &Vec<(String, String)>,
    diagnostics: &mut Vec<Diagnostic>,
) -> (r: Configuration)
    ensures
        r.deep_view() == assemble_spec(
            configuration.deep_view(),
            definitions.deep_view(),
            connections.deep_view(),
        ),
        final(diagnostics).deep_view() == old(diagnostics).deep_view() + assemble_diags(
            configuration.deep_view().branches,
            definitions.deep_view(),
            connections.deep_view(),
        ),
{
    let ghost cfg_v = configuration.deep_view();
    let ghost defs_v = definitions.deep_view();
    let ghost conns_v = connections.deep_view();
    let Configuration { repo_path, branches } = configuration;
    let mut assembled: Vec<Branch> = Vec::new();
    let mut i: usize = 0;
    while i < branches.len()
        invariant
            i <= branches.len(),
            branches.deep_view() == cfg_v.branches,
            defs_v == definitions.deep_view(),
            conns_v == connections.deep_view(),
            assembled@.len() == i,
            assembled.deep_view() == cfg_v.branches.take(i as int).map_values(
                |b: BranchV| assemble_branch_spec(b, defs_v, conns_v),
            ),
            diagnostics.deep_view() == old(diagnostics).deep_view() + assemble_diags(
                cfg_v.branches.take(i as int),
                defs_v,
                conns_v,
            ),
        decreases branches.len() - i,
    {
        let ghost prev = assembled.deep_view();
        let branch = attach_to_branch(&branches[i], definitions, connections, diagnostics);
        assembled.push(branch);
        proof {
            let bs = cfg_v.branches;
            assert(bs.take(i + 1).drop_last() =~= bs.take(i as int));
            assert(bs.take(i + 1).last() == bs[i as int]);
            assert(assembled.deep_view() =~~= prev.push(
                assemble_branch_spec(bs[i as int], defs_v, conns_v),
            ));
            assert(assembled.deep_view() =~= bs.take(i + 1).map_values(
                |b: BranchV| assemble_branch_spec(b, defs_v, conns_v),
            ));
        }
        i = i + 1;
    }
    proof {
        assert(cfg_v.branches.take(cfg_v.branches.len() as int) =~= cfg_v.branches);
    }
    let r = Configuration { repo_path, branches: assembled };
    proof {
        assert(r.deep_view() =~~= assemble_spec(cfg_v, defs_v, conns_v));
    }
    r
}

/// Everything the assembler attaches to a branch is reachable through a
/// connection of that branch: each attached build definition is the first
/// loaded definition bearing the name of some connection that names the
/// branch.  Together with [`attach_spec`]'s order — one entry per resolved
/// connection, in connection order — and
/// [`crate::loaders::lemma_enabled_links_from_enabled_rows`], a branch
/// carries exactly the definitions reachable via enabled links.
pub proof fn lemma_attached_reachable(
    defs: Seq<BuildDefinitionV>,
    connections: Seq<(Seq<char>, Seq<char>)>,
    branch: Seq<char>,
)
    ensures
        forall|m: int|
            0 <= m < attach_spec(defs, connections, branch).len() ==> attached_from_connection(
                defs,
                connections,
                branch,
                #[trigger] attach_spec(defs, connections, branch)[m],
            ),
    decreases connections.len(),
{
    if connections.len() > 0 {
        let prefix = connections.drop_last();
        lemma_attached_reachable(defs, prefix, branch);
        let rest = attach_spec(defs, prefix, branch);
        assert forall|m: int| 0 <= m < attach_spec(defs, connections, branch).len() implies
            attached_from_connection(
            defs,
            connections,
            branch,
            attach_spec(defs, connections, branch)[m],
        ) by {
            if m < rest.len() {
                assert(attach_spec(defs, connections, branch)[m] == rest[m]);
                assert(attached_from_connection(defs, prefix, branch, rest[m]));
                let j = choose|j: int|
                    0 <= j < prefix.len() && (#[trigger] prefix[j]).0 == branch
                        && find_definition_spec(defs, prefix[j].1) == Option::Some(rest[m]);
                assert(prefix[j] == connections[j]);
            } else {
                let j = connections.len() - 1;
                assert(connections.last() == connections[j]);
                assert(find_definition_spec(defs, connections[j].1) == Option::Some(
                    attach_spec(defs, connections, branch)[m],
                ));
            }
        }
    }
}

/// The build definition `d` is what some connection of `branch` resolves
/// to: the first definition bearing that connection's definition name.
pub open spec fn attached_from_connection(
    defs: Seq<BuildDefinitionV>,
    connections: Seq<(Seq<char>, Seq<char>)>,
    branch: Seq<char>,
    d: BuildDefinitionV,
) -> bool {
    exists|j: int|
        0 <= j < connections.len() && (#[trigger] connections[j]).0 == branch
            && find_definition_spec(defs, connections[j].1) == Option::Some(d)
}

} // verus!