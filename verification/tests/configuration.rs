use yalci::loaders::load_build_definitions;
use yalci::loaders::load_steps;
use yalci::Configuration;
use yalci::Diagnostic;
use yalci::DefinitionRow;
use yalci::BranchRow;
use yalci::LinkRow;
use yalci::StepRow;
use yalci::StoreSnapshot;

fn ci_step_rows() -> Vec<StepRow> {
    vec![
        StepRow {
            name: "build".to_string(),
            description: Some("Building with Cargo".to_string()),
            command: "cargo build --release".to_string(),
            rollback_command: None,
            enabled: "TRUE".to_string(),
            may_fail: "FALSE".to_string(),
            build_name: "CI build".to_string(),
            step_order: 1,
        },
        StepRow {
            name: "test".to_string(),
            description: Some("Testing with Cargo".to_string()),
            command: "cargo test --release".to_string(),
            rollback_command: None,
            enabled: "TRUE".to_string(),
            may_fail: "FALSE".to_string(),
            build_name: "CI build".to_string(),
            step_order: 2,
        },
    ]
}

fn ci_snapshot() -> StoreSnapshot {
    StoreSnapshot {
        repository_rows: vec!["/home/fuszenecker/dev/SemperCI".to_string()],
        branch_rows: vec![BranchRow {
            name: "master".to_string(),
            last_known_commit: None,
            description: None,
        }],
        definition_rows: vec![DefinitionRow {
            name: "CI build".to_string(),
            description: Some("Continuous integration build definition".to_string()),
        }],
        step_rows: ci_step_rows(),
        link_rows: vec![LinkRow {
            branch_name: "master".to_string(),
            build_definition: "CI build".to_string(),
            enabled: "TRUE".to_string(),
        }],
    }
}

#[test]
fn check_repo_path() {
    let mut diagnostics: Vec<Diagnostic> = Vec::new();
    let configuration = Configuration::resolve(&ci_snapshot(), &mut diagnostics).unwrap();
    assert_eq!("/home/fuszenecker/dev/SemperCI", configuration.repo_path);
}

#[test]
fn check_master_branch() {
    let mut diagnostics: Vec<Diagnostic> = Vec::new();
    let configuration = Configuration::resolve(&ci_snapshot(), &mut diagnostics).unwrap();
    assert_eq!("master", configuration.branches[0].name);
}

#[test]
fn load_build_steps_by_build_name() {
    let rows = ci_step_rows();
    let mut diagnostics: Vec<Diagnostic> = Vec::new();
    let steps = load_steps(&rows, &String::from("CI build"), &mut diagnostics);
    assert!(!steps.is_empty());
    assert_eq!(2, steps.len());
    assert_eq!(String::from("test"), steps[1].name);

    match steps[1].description {
        Some(ref d) => assert_eq!(String::from("Testing with Cargo"), *d),
        _ => assert!(false),
    }

    assert_eq!(String::from("cargo test --release"), steps[1].command);
    assert!(steps[1].rollback_command.is_none());
    assert!(!steps[1].may_fail);
}

#[test]
fn load_build_definitions_test() {
    let definition_rows = vec![DefinitionRow {
        name: "CI build".to_string(),
        description: Some("Continuous integration build definition".to_string()),
    }];
    let step_rows = ci_step_rows();
    let mut diagnostics: Vec<Diagnostic> = Vec::new();
    let defs = load_build_definitions(&definition_rows, &step_rows, &mut diagnostics);

    assert!(!defs.is_empty());
    assert_eq!(1, defs.len());
    assert_eq!("CI build", defs[0].name);

    match defs[0].description {
        Some(ref d) => assert_eq!("Continuous integration build definition", d),
        _ => assert!(false),
    }

    let steps = &defs[0].steps;

    assert!(!steps.is_empty());
    assert_eq!(2, steps.len());
    assert_eq!(String::from("test"), steps[1].name);

    match steps[1].description {
        Some(ref d) => assert_eq!(String::from("Testing with Cargo"), *d),
        _ => assert!(false),
    }

    assert_eq!(String::from("cargo test --release"), steps[1].command);
    assert!(steps[1].rollback_command.is_none());
    assert!(!steps[1].may_fail);
}
