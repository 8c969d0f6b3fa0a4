use yalci::loaders::load_connections;
use yalci::loaders::load_steps;
use yalci::rows::parse_flag;
use yalci::Branch;
use yalci::BranchRow;
use yalci::Configuration;
use yalci::ConfigurationError;
use yalci::DefinitionRow;
use yalci::Diagnostic;
use yalci::LinkRow;
use yalci::StepRow;
use yalci::StoreError;
use yalci::StoreSnapshot;

fn step_row(name: &str, build: &str, order: i64, enabled: &str, may_fail: &str) -> StepRow {
    StepRow {
        name: name.to_string(),
        description: None,
        command: format!("run {}", name),
        rollback_command: None,
        enabled: enabled.to_string(),
        may_fail: may_fail.to_string(),
        build_name: build.to_string(),
        step_order: order,
    }
}

fn link_row(branch: &str, definition: &str, enabled: &str) -> LinkRow {
    LinkRow {
        branch_name: branch.to_string(),
        build_definition: definition.to_string(),
        enabled: enabled.to_string(),
    }
}

fn branch_row(name: &str) -> BranchRow {
    BranchRow { name: name.to_string(), last_known_commit: None, description: None }
}

fn definition_row(name: &str) -> DefinitionRow {
    DefinitionRow { name: name.to_string(), description: None }
}

fn snapshot(
    branches: Vec<BranchRow>,
    definitions: Vec<DefinitionRow>,
    steps: Vec<StepRow>,
    links: Vec<LinkRow>,
) -> StoreSnapshot {
    StoreSnapshot {
        repository_rows: vec!["/srv/repo".to_string()],
        branch_rows: branches,
        definition_rows: definitions,
        step_rows: steps,
        link_rows: links,
    }
}

#[test]
fn end_to_end_example() {
    let s = StoreSnapshot {
        repository_rows: vec!["/home/fuszenecker/dev/SemperCI".to_string()],
        branch_rows: vec![branch_row("master")],
        definition_rows: vec![definition_row("CI build")],
        step_rows: vec![
            StepRow {
                name: "build".to_string(),
                description: None,
                command: "cargo build --release".to_string(),
                rollback_command: None,
                enabled: "TRUE".to_string(),
                may_fail: "FALSE".to_string(),
                build_name: "CI build".to_string(),
                step_order: 1,
            },
            StepRow {
                name: "test".to_string(),
                description: None,
                command: "cargo test --release".to_string(),
                rollback_command: None,
                enabled: "TRUE".to_string(),
                may_fail: "FALSE".to_string(),
                build_name: "CI build".to_string(),
                step_order: 2,
            },
        ],
        link_rows: vec![link_row("master", "CI build", "TRUE")],
    };
    let mut diagnostics: Vec<Diagnostic> = Vec::new();
    let configuration = Configuration::resolve(&s, &mut diagnostics).unwrap();
    assert_eq!(1, configuration.branches.len());
    assert_eq!(1, configuration.branches[0].build_definitions.len());
    let definition = &configuration.branches[0].build_definitions[0];
    assert_eq!("CI build", definition.name);
    assert_eq!(2, definition.steps.len());
    assert_eq!("build", definition.steps[0].name);
    assert_eq!("test", definition.steps[1].name);
    assert_eq!("cargo test --release", definition.steps[1].command);
    assert!(!definition.steps[1].may_fail);
    assert!(diagnostics.is_empty());
}

#[test]
fn dangling_link_is_tolerated() {
    let s = snapshot(
        vec![branch_row("master")],
        vec![definition_row("CI build")],
        vec![step_row("build", "CI build", 1, "TRUE", "FALSE")],
        vec![link_row("master", "no such definition", "TRUE")],
    );
    let mut diagnostics: Vec<Diagnostic> = Vec::new();
    let configuration = Configuration::resolve(&s, &mut diagnostics).unwrap();
    assert!(configuration.branches[0].build_definitions.is_empty());
    assert_eq!(1, diagnostics.len());
    match &diagnostics[0] {
        Diagnostic::DanglingLink { branch_name, build_definition } => {
            assert_eq!("master", branch_name);
            assert_eq!("no such definition", build_definition);
        }
        _ => assert!(false),
    }
}

#[test]
fn missing_repository_record_fails() {
    let mut s = snapshot(vec![branch_row("master")], Vec::new(), Vec::new(), Vec::new());
    s.repository_rows = Vec::new();
    let mut diagnostics: Vec<Diagnostic> = Vec::new();
    let r = Configuration::resolve(&s, &mut diagnostics);
    match r {
        Err(ConfigurationError::BadConfiguration(detail)) => {
            assert_eq!("no repository record in the store", detail);
        }
        _ => assert!(false),
    }
    assert!(diagnostics.is_empty());
}

#[test]
fn invalid_path_maps_to_not_found() {
    let e = ConfigurationError::from(StoreError::InvalidPath("bogus.db".to_string()));
    match e {
        ConfigurationError::NotFound(path) => assert_eq!("bogus.db", path),
        _ => assert!(false),
    }
}

#[test]
fn missing_table_maps_to_missing_table() {
    let e = ConfigurationError::from(StoreError::MissingTable("CONFIGURATION".to_string()));
    match e {
        ConfigurationError::MissingTable(table) => assert_eq!("CONFIGURATION", table),
        _ => assert!(false),
    }
}

#[test]
fn other_store_failure_maps_to_generic_error() {
    let e = ConfigurationError::from(StoreError::Other);
    assert!(matches!(e, ConfigurationError::GenericError));
}

#[test]
fn flags_parse_case_insensitively() {
    assert!(parse_flag("TRUE"));
    assert!(parse_flag("true"));
    assert!(parse_flag("True"));
    assert!(parse_flag("tRuE"));
    assert!(!parse_flag("FALSE"));
    assert!(!parse_flag("yes"));
    assert!(!parse_flag(""));
    assert!(!parse_flag("TRUEX"));
    assert!(!parse_flag("TRU"));
}

#[test]
fn disabled_steps_are_invisible() {
    let rows = vec![
        step_row("one", "b", 1, "TRUE", "FALSE"),
        step_row("two", "b", 2, "FALSE", "FALSE"),
        step_row("three", "b", 3, "anything", "FALSE"),
        step_row("four", "other", 4, "TRUE", "FALSE"),
    ];
    let mut diagnostics: Vec<Diagnostic> = Vec::new();
    let steps = load_steps(&rows, &"b".to_string(), &mut diagnostics);
    assert_eq!(1, steps.len());
    assert_eq!("one", steps[0].name);
    assert!(diagnostics.is_empty());
}

#[test]
fn steps_come_out_sorted_by_order_column() {
    let rows = vec![
        step_row("late", "b", 30, "TRUE", "FALSE"),
        step_row("early", "b", 10, "true", "FALSE"),
        step_row("middle", "b", 20, "True", "FALSE"),
    ];
    let mut diagnostics: Vec<Diagnostic> = Vec::new();
    let steps = load_steps(&rows, &"b".to_string(), &mut diagnostics);
    assert_eq!(3, steps.len());
    assert_eq!("early", steps[0].name);
    assert_eq!("middle", steps[1].name);
    assert_eq!("late", steps[2].name);
    assert!(diagnostics.is_empty());
}

#[test]
fn tied_step_order_is_flagged_and_stable() {
    let rows = vec![
        step_row("first", "b", 5, "TRUE", "FALSE"),
        step_row("second", "b", 5, "TRUE", "FALSE"),
    ];
    let mut diagnostics: Vec<Diagnostic> = Vec::new();
    let steps = load_steps(&rows, &"b".to_string(), &mut diagnostics);
    assert_eq!(2, steps.len());
    assert_eq!("first", steps[0].name);
    assert_eq!("second", steps[1].name);
    assert_eq!(1, diagnostics.len());
    match &diagnostics[0] {
        Diagnostic::DuplicateStepOrder { build_definition } => assert_eq!("b", build_definition),
        _ => assert!(false),
    }
}

#[test]
fn may_fail_parses_permissively() {
    let rows = vec![
        step_row("a", "b", 1, "TRUE", "true"),
        step_row("c", "b", 2, "TRUE", "maybe"),
    ];
    let mut diagnostics: Vec<Diagnostic> = Vec::new();
    let steps = load_steps(&rows, &"b".to_string(), &mut diagnostics);
    assert!(steps[0].may_fail);
    assert!(!steps[1].may_fail);
}

#[test]
fn disabled_links_contribute_nothing() {
    let rows = vec![
        link_row("master", "a", "TRUE"),
        link_row("master", "b", "FALSE"),
        link_row("master", "c", "true"),
        link_row("master", "d", "disabled"),
    ];
    let connections = load_connections(&rows);
    assert_eq!(2, connections.len());
    assert_eq!(("master".to_string(), "a".to_string()), connections[0]);
    assert_eq!(("master".to_string(), "c".to_string()), connections[1]);
}

#[test]
fn attachments_follow_link_order() {
    let s = snapshot(
        vec![branch_row("master")],
        vec![definition_row("a"), definition_row("b")],
        Vec::new(),
        vec![
            link_row("master", "b", "TRUE"),
            link_row("master", "a", "TRUE"),
            link_row("master", "b", "TRUE"),
        ],
    );
    let mut diagnostics: Vec<Diagnostic> = Vec::new();
    let configuration = Configuration::resolve(&s, &mut diagnostics).unwrap();
    let names: Vec<&str> = configuration.branches[0]
        .build_definitions
        .iter()
        .map(|d| d.name.as_str())
        .collect();
    assert_eq!(vec!["b", "a", "b"], names);
}

#[test]
fn first_definition_wins_on_duplicate_names() {
    let s = snapshot(
        vec![branch_row("master")],
        vec![
            DefinitionRow { name: "dup".to_string(), description: Some("first".to_string()) },
            DefinitionRow { name: "dup".to_string(), description: Some("second".to_string()) },
        ],
        Vec::new(),
        vec![link_row("master", "dup", "TRUE")],
    );
    let mut diagnostics: Vec<Diagnostic> = Vec::new();
    let configuration = Configuration::resolve(&s, &mut diagnostics).unwrap();
    let attached = &configuration.branches[0].build_definitions;
    assert_eq!(1, attached.len());
    assert_eq!(Some("first".to_string()), attached[0].description);
}

fn assert_step_eq(a: &yalci::Step, b: &yalci::Step) {
    assert_eq!(a.name, b.name);
    assert_eq!(a.description, b.description);
    assert_eq!(a.command, b.command);
    assert_eq!(a.rollback_command, b.rollback_command);
    assert_eq!(a.may_fail, b.may_fail);
}

fn assert_branch_eq(a: &Branch, b: &Branch) {
    assert_eq!(a.name, b.name);
    assert_eq!(a.last_known_commit, b.last_known_commit);
    assert_eq!(a.description, b.description);
    assert_eq!(a.build_definitions.len(), b.build_definitions.len());
    for (da, db) in a.build_definitions.iter().zip(b.build_definitions.iter()) {
        assert_eq!(da.name, db.name);
        assert_eq!(da.description, db.description);
        assert_eq!(da.steps.len(), db.steps.len());
        for (sa, sb) in da.steps.iter().zip(db.steps.iter()) {
            assert_step_eq(sa, sb);
        }
    }
}

#[test]
fn resolving_twice_gives_structurally_equal_configurations() {
    let s = snapshot(
        vec![branch_row("master"), branch_row("devel")],
        vec![definition_row("a"), definition_row("b")],
        vec![
            step_row("one", "a", 2, "TRUE", "FALSE"),
            step_row("two", "a", 1, "TRUE", "TRUE"),
            step_row("three", "b", 1, "TRUE", "FALSE"),
        ],
        vec![
            link_row("master", "a", "TRUE"),
            link_row("devel", "b", "TRUE"),
            link_row("devel", "missing", "TRUE"),
        ],
    );
    let mut diagnostics1: Vec<Diagnostic> = Vec::new();
    let mut diagnostics2: Vec<Diagnostic> = Vec::new();
    let c1 = Configuration::resolve(&s, &mut diagnostics1).unwrap();
    let c2 = Configuration::resolve(&s, &mut diagnostics2).unwrap();
    assert_eq!(c1.repo_path, c2.repo_path);
    assert_eq!(c1.branches.len(), c2.branches.len());
    for (ba, bb) in c1.branches.iter().zip(c2.branches.iter()) {
        assert_branch_eq(ba, bb);
    }
    assert_eq!(diagnostics1.len(), diagnostics2.len());
}

#[test]
fn branch_columns_carry_over() {
    let s = snapshot(
        vec![BranchRow {
            name: "master".to_string(),
            last_known_commit: Some("0123abcd".to_string()),
            description: Some("the main line".to_string()),
        }],
        Vec::new(),
        Vec::new(),
        Vec::new(),
    );
    let mut diagnostics: Vec<Diagnostic> = Vec::new();
    let configuration = Configuration::resolve(&s, &mut diagnostics).unwrap();
    let branch = &configuration.branches[0];
    assert_eq!(Some("0123abcd".to_string()), branch.last_known_commit);
    assert_eq!(Some("the main line".to_string()), branch.description);
    assert!(branch.build_definitions.is_empty());
}
