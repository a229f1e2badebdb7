use nu_plugin_gitql::pipeline::OutputFormat;
use nu_plugin_gitql::{Gitql, GitqlPlugin};

#[test]
fn test_examples() {
    let examples = Gitql.examples();
    assert_eq!(examples.len(), 4);
    for example in &examples {
        assert!(example.example.starts_with("gitql"));
        assert!(example.example.starts_with(&format!("{} '", Gitql.name())));
        assert!(example.example.ends_with('\''));
        assert!(!example.description.is_empty());
    }
    assert_eq!(examples[0].example, "gitql 'show tables'");
    assert_eq!(examples[0].description, "Show the tables available to be queried");
    assert_eq!(examples[1].example, "gitql 'select * from refs limit 10'");
    assert_eq!(examples[1].description, "Show the first 10 refs");
    assert_eq!(examples[2].example, "gitql 'desribe commits'");
    assert_eq!(
        examples[3].example,
        r#"gitql 'SELECT title, datetime FROM commits WHERE commit_conventional(title) = "feat"'"#
    );
}

#[test]
fn command_name_and_description() {
    assert_eq!(Gitql.name(), "gitql");
    assert_eq!(Gitql.description(), "Use gitql to query git repositories");
}

#[test]
fn command_signature() {
    let signature = Gitql.signature();
    assert_eq!(signature.name, "gitql");
    assert_eq!(signature.required, "query");
    assert_eq!(signature.required_description, "gitql query string");
}

#[test]
fn plugin_has_one_command() {
    assert_eq!(GitqlPlugin.commands(), vec![Gitql]);
}

#[test]
fn default_arguments_of_a_query() {
    let arguments = Gitql.arguments("/work/repo".to_string());
    assert_eq!(arguments.repos, vec!["/work/repo".to_string()]);
    assert_eq!(arguments.output_format, OutputFormat::Render);
    assert!(!arguments.pagination);
    assert_eq!(arguments.page_size, 10);
    assert!(!arguments.analysis);
}

#[test]
fn plugin_version() {
    assert_eq!(GitqlPlugin.version(), "0.1.0");
}
