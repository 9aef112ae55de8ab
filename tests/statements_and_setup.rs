use pg_vectors_setup::distance::{negative_dot_product, nearest_rows, squared_euclidean};
use pg_vectors_setup::setup::{advance, first_step, is_over, Outcome, Step};
use pg_vectors_setup::sql::{
    alter_system_set, configure_statements, create_extension, distance_queries, enable_statement, COSINE_QUERY,
    NEAREST_QUERY, NEGATIVE_DOT_QUERY, SQUARED_EUCLIDEAN_QUERY,
};

#[test]
fn configuration_statements() {
    assert_eq!(
        configure_statements(),
        vec![
            "ALTER SYSTEM SET shared_preload_libraries = \"vectors.so\"".to_string(),
            "ALTER SYSTEM SET search_path = \"$user\", public, vectors".to_string(),
        ]
    );
    assert_eq!(alter_system_set("work_mem", "'64MB'"), "ALTER SYSTEM SET work_mem = '64MB'");
}

#[test]
fn activation_statement() {
    assert_eq!(enable_statement(), "CREATE EXTENSION vectors;");
    assert_eq!(create_extension("hstore"), "CREATE EXTENSION hstore;");
}

#[test]
fn demonstration_queries() {
    assert_eq!(distance_queries(), vec![SQUARED_EUCLIDEAN_QUERY, NEGATIVE_DOT_QUERY, COSINE_QUERY]);
    assert!(NEAREST_QUERY.contains("ORDER BY embedding <-> '[3,2,1]' LIMIT 5"));
}

fn run(db_exists: bool, installed: bool) -> Vec<Step> {
    let mut steps = Vec::new();
    let mut step = first_step();
    while !is_over(step) {
        steps.push(step);
        let outcome = match step {
            Step::CheckDatabase => Outcome::Answer(db_exists),
            Step::CheckInstalled => Outcome::Answer(installed),
            _ => Outcome::Done,
        };
        step = advance(step, outcome);
    }
    steps.push(step);
    steps
}

#[test]
fn fresh_setup_creates_database_and_installs() {
    assert_eq!(
        run(false, false),
        vec![
            Step::SetupServer,
            Step::StartServer,
            Step::CheckDatabase,
            Step::CreateDatabase,
            Step::Connect,
            Step::CheckInstalled,
            Step::Install,
            Step::Configure,
            Step::StopServer,
            Step::RestartServer,
            Step::Reconnect,
            Step::EnableExtension,
            Step::CreateTable,
            Step::InsertData,
            Step::ShowDistances,
            Step::SearchNearest,
            Step::Finished,
        ]
    );
}

#[test]
fn second_setup_skips_creation_and_installation() {
    assert_eq!(
        run(true, true),
        vec![
            Step::SetupServer,
            Step::StartServer,
            Step::CheckDatabase,
            Step::Connect,
            Step::CheckInstalled,
            Step::CreateTable,
            Step::InsertData,
            Step::ShowDistances,
            Step::SearchNearest,
            Step::Finished,
        ]
    );
}

#[test]
fn library_file_present_means_installed() {
    assert_eq!(advance(Step::CheckInstalled, Outcome::Answer(true)), Step::CreateTable);
    assert_eq!(advance(Step::CheckInstalled, Outcome::Answer(false)), Step::Install);
}

#[test]
fn any_error_is_fatal() {
    assert_eq!(advance(Step::Install, Outcome::Error), Step::Failed);
    assert_eq!(advance(Step::CheckDatabase, Outcome::Error), Step::Failed);
    assert_eq!(advance(Step::Failed, Outcome::Done), Step::Failed);
    assert_eq!(advance(Step::Finished, Outcome::Error), Step::Finished);
    assert!(is_over(Step::Failed));
    assert!(!is_over(Step::Reconnect));
}

#[test]
fn outcome_of_wrong_kind_is_fatal() {
    assert_eq!(advance(Step::CheckDatabase, Outcome::Done), Step::Failed);
    assert_eq!(advance(Step::Configure, Outcome::Answer(true)), Step::Failed);
}

#[test]
fn restart_is_followed_by_reconnect() {
    assert_eq!(advance(Step::StopServer, Outcome::Done), Step::RestartServer);
    assert_eq!(advance(Step::RestartServer, Outcome::Done), Step::Reconnect);
    assert_eq!(advance(Step::Reconnect, Outcome::Done), Step::EnableExtension);
}

#[test]
fn distances_of_demo_vectors() {
    let a = vec![1, 2, 3];
    let b = vec![3, 2, 1];
    assert_eq!(squared_euclidean(&a, &b), 8);
    assert_eq!(negative_dot_product(&a, &b), -10);
    assert_eq!(squared_euclidean(&a, &a), 0);
}

#[test]
fn distances_at_extremes() {
    let a = vec![i32::MIN, i32::MAX];
    let b = vec![i32::MAX, i32::MIN];
    assert_eq!(squared_euclidean(&a, &b), 2 * (u32::MAX as i128) * (u32::MAX as i128));
    assert_eq!(negative_dot_product(&a, &b), -2 * (i32::MIN as i128) * (i32::MAX as i128));
    assert_eq!(squared_euclidean(&Vec::new(), &Vec::new()), 0);
}

#[test]
fn nearest_row_comes_first() {
    let rows = vec![vec![1, 2, 3], vec![4, 5, 6]];
    assert_eq!(nearest_rows(&rows, &vec![3, 2, 1], 5), vec![0, 1]);
}

#[test]
fn nearest_rows_of_demo_table() {
    let rows = vec![vec![4, 5, 6], vec![1, 2, 3], vec![4, 5, 6], vec![1, 2, 3]];
    assert_eq!(nearest_rows(&rows, &vec![3, 2, 1], 5), vec![1, 3, 0, 2]);
    assert_eq!(nearest_rows(&rows, &vec![3, 2, 1], 2), vec![1, 3]);
    assert_eq!(nearest_rows(&rows, &vec![3, 2, 1], 0), Vec::<usize>::new());
    assert_eq!(nearest_rows(&Vec::new(), &vec![3, 2, 1], 5), Vec::<usize>::new());
}
