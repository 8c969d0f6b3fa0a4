//! The resolved configuration graph and the error taxonomy.
//!
//! A [`Configuration`] is the root value a successful load returns: the
//! watched repository's path plus its branches, each carrying the build
//! definitions attached to it, each of those an ordered sequence of steps.
//! All of it is plain data, created fresh by one load and never mutated
//! afterwards.

use vstd::prelude::*;

verus! {

/// One executable unit inside a build definition.  `command` is the
/// instruction to run; `rollback_command`, when present, runs on failure;
/// a step with `may_fail` set does not abort its build definition when it
/// fails.
#[derive(Debug)]
pub struct Step {
    pub name: String,
    pub description: Option<String>,
    pub command: String,
    pub rollback_command: Option<String>,
    pub may_fail: bool,
}

/// Mathematical model of a [`Step`].
#[verifier::ext_equal]
pub struct StepV {
    pub name: Seq<char>,
    pub description: Option<Seq<char>>,
    pub command: Seq<char>,
    pub rollback_command: Option<Seq<char>>,
    pub may_fail: bool,
}

impl DeepView for Step {
    type V = StepV;

    open spec fn deep_view(&self) -> StepV {
        StepV {
            name: self.name.deep_view(),
            description: self.description.deep_view(),
            command: self.command.deep_view(),
            rollback_command: self.rollback_command.deep_view(),
            may_fail: self.may_fail,
        }
    }
}

impl Clone for Step {
    fn clone(&self) -> (r: Step)
        ensures
            r == *self,
    {
        Step {
            name: self.name.clone(),
            description: crate::rows::clone_opt_string(&self.description),
            command: self.command.clone(),
            rollback_command: crate::rows::clone_opt_string(&self.rollback_command),
            may_fail: self.may_fail,
        }
    }
}

/// A named, ordered sequence of steps: one buildable pipeline.
#[derive(Debug)]
pub struct BuildDefinition {
    pub name: String,
    pub description: Option<String>,
    pub steps: Vec<Step>,
}

/// Mathematical model of a [`BuildDefinition`].
#[verifier::ext_equal]
pub struct BuildDefinitionV {
    pub name: Seq<char>,
    pub description: Option<Seq<char>>,
    pub steps: Seq<StepV>,
}

impl DeepView for BuildDefinition {
    type V = BuildDefinitionV;

    open spec fn deep_view(&self) -> BuildDefinitionV {
        BuildDefinitionV {
            name: self.name.deep_view(),
            description: self.description.deep_view(),
            steps: self.steps.deep_view(),
        }
    }
}

impl Clone for BuildDefinition {
    fn clone(&self) -> (r: BuildDefinition)
        ensures
            r.deep_view() == self.deep_view(),
    {
        let mut steps: Vec<Step> = Vec::new();
        let mut i: usize = 0;
        while i < self.steps.len()
            invariant
                i <= self.steps.len(),
                steps@ == self.steps@.take(i as int),
            decreases self.steps.len() - i,
        {
            steps.push(self.steps[i].clone());
            proof {
                assert(self.steps@.take(i + 1) =~= self.steps@.take(i as int).push(
                    self.steps@[i as int],
                ));
            }
            i = i + 1;
        }
        proof {
            assert(steps@ =~= self.steps@);
            assert(steps.deep_view() =~= self.steps.deep_view());
        }
        BuildDefinition {
            name: self.name.clone(),
            description: crate::rows::clone_opt_string(&self.description),
            steps,
        }
    }
}

/// A watched branch.  `last_known_commit` is absent for a branch never
/// built; `build_definitions` is filled by the assembler from the enabled
/// links of the store.
#[derive(Debug)]
pub struct Branch {
    pub name: String,
    pub last_known_commit: Option<String>,
    pub description: Option<String>,
    pub build_definitions: Vec<BuildDefinition>,
}

/// Mathematical model of a [`Branch`].
#[verifier::ext_equal]
pub struct BranchV {
    pub name: Seq<char>,
    pub last_known_commit: Option<Seq<char>>,
    pub description: Option<Seq<char>>,
    pub build_definitions: Seq<BuildDefinitionV>,
}

impl DeepView for Branch {
    type V = BranchV;

    open spec fn deep_view(&self) -> BranchV {
        BranchV {
            name: self.name.deep_view(),
            last_known_commit: self.last_known_commit.deep_view(),
            description: self.description.deep_view(),
            build_definitions: self.build_definitions.deep_view(),
        }
    }
}

/// The root of the resolved graph: the repository path of the store's
/// singleton repository record, and the branches in store iteration order.
#[derive(Debug)]
pub struct Configuration {
    pub repo_path: String,
    pub branches: Vec<Branch>,
}

/// Mathematical model of a [`Configuration`].
#[verifier::ext_equal]
pub struct ConfigurationV {
    pub repo_path: Seq<char>,
    pub branches: Seq<BranchV>,
}

impl DeepView for Configuration {
    type V = ConfigurationV;

    open spec fn deep_view(&self) -> ConfigurationV {
        ConfigurationV {
            repo_path: self.repo_path.deep_view(),
            branches: self.branches.deep_view(),
        }
    }
}

/// A leveled event a load emits without failing: an enabled link whose
/// build definition does not exist (error level), or two enabled steps of
/// one build definition sharing the same order value, which leaves their
/// mutual order undefined (warning level).
#[derive(Debug)]
pub enum Diagnostic {
    DanglingLink { branch_name: String, build_definition: String },
    DuplicateStepOrder { build_definition: String },
}

/// Mathematical model of a [`Diagnostic`].
#[verifier::ext_equal]
pub enum DiagnosticV {
    DanglingLink { branch_name: Seq<char>, build_definition: Seq<char> },
    DuplicateStepOrder { build_definition: Seq<char> },
}

impl DeepView for Diagnostic {
    type V = DiagnosticV;

    open spec fn deep_view(&self) -> DiagnosticV {
        match self {
            Diagnostic::DanglingLink { branch_name, build_definition } => DiagnosticV::DanglingLink {
                branch_name: branch_name.deep_view(),
                build_definition: build_definition.deep_view(),
            },
            Diagnostic::DuplicateStepOrder { build_definition } => DiagnosticV::DuplicateStepOrder {
                build_definition: build_definition.deep_view(),
            },
        }
    }
}

/// Why a load failed.  Any of these aborts the whole load; partial graphs
/// are never returned.
#[derive(Debug)]
pub enum ConfigurationError {
    /// The store path itself is invalid or unreachable.
    NotFound(String),
    /// A required table is absent from an otherwise openable store.
    MissingTable(String),
    /// Some other, unclassified store failure.
    GenericError,
    /// The store is structurally present but semantically invalid, e.g. it
    /// holds no repository record.
    BadConfiguration(String),
}

/// Mathematical model of a [`ConfigurationError`].
#[verifier::ext_equal]
pub enum ConfigurationErrorV {
    NotFound(Seq<char>),
    MissingTable(Seq<char>),
    GenericError,
    BadConfiguration(Seq<char>),
}

impl DeepView for ConfigurationError {
    type V = ConfigurationErrorV;

    open spec fn deep_view(&self) -> ConfigurationErrorV {
        match self {
            ConfigurationError::NotFound(p) => ConfigurationErrorV::NotFound(p.deep_view()),
            ConfigurationError::MissingTable(t) => ConfigurationErrorV::MissingTable(t.deep_view()),
            ConfigurationError::GenericError => ConfigurationErrorV::GenericError,
            ConfigurationError::BadConfiguration(d) => ConfigurationErrorV::BadConfiguration(
                d.deep_view(),
            ),
        }
    }
}

/// What the store itself can report while it is being read, as plain
/// values: the path it could not open, the table it does not have, or an
/// unclassified failure.  The caller that talks to the store builds these;
/// [`ConfigurationError::from`] translates them into the load's taxonomy.
#[derive(Debug)]
pub enum StoreError {
    InvalidPath(String),
    MissingTable(String),
    Other,
}

/// Mathematical model of a [`StoreError`].
#[verifier::ext_equal]
pub enum StoreErrorV {
    InvalidPath(Seq<char>),
    MissingTable(Seq<char>),
    Other,
}

impl DeepView for StoreError {
    type V = StoreErrorV;

    open spec fn deep_view(&self) -> StoreErrorV {
        match self {
            StoreError::InvalidPath(p) => StoreErrorV::InvalidPath(p.deep_view()),
            StoreError::MissingTable(t) => StoreErrorV::MissingTable(t.deep_view()),
            StoreError::Other => StoreErrorV::Other,
        }
    }
}

impl From<StoreError> for ConfigurationError {
    /// An invalid path becomes [`ConfigurationError::NotFound`] carrying
    /// that path, a missing table [`ConfigurationError::MissingTable`]
    /// carrying that table's name, and anything else
    /// [`ConfigurationError::GenericError`].
    fn from(error: StoreError) -> (r: ConfigurationError) {
        match error {
            StoreError::InvalidPath(path) => ConfigurationError::NotFound(path),
            StoreError::MissingTable(table) => ConfigurationError::MissingTable(table),
            StoreError::Other => ConfigurationError::GenericError,
        }
    }
}

impl vstd::std_specs::convert::FromSpecImpl<StoreError> for ConfigurationError {
    open spec fn obeys_from_spec() -> bool {
        true
    }

    open spec fn from_spec(error: StoreError) -> ConfigurationError {
        match error {
            StoreError::InvalidPath(path) => ConfigurationError::NotFound(path),
            StoreError::MissingTable(table) => ConfigurationError::MissingTable(table),
            StoreError::Other => ConfigurationError::GenericError,
        }
    }
}

} // verus!
