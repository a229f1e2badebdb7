use nu_plugin_gitql::repos::{invalid_repositories_label, RepositoryValidation};

fn run(outcomes: &[Result<(), &str>]) -> (Result<usize, String>, usize) {
    let mut validation = RepositoryValidation::new(outcomes.len());
    let mut tried = 0;
    while let Some(index) = validation.next() {
        assert_eq!(index, tried);
        tried += 1;
        match outcomes[index] {
            Ok(()) => validation.opened(),
            Err(message) => validation.failed(message.to_string()),
        }
    }
    (validation.finish(), tried)
}

#[test]
fn all_paths_open() {
    assert_eq!(run(&[Ok(()), Ok(()), Ok(())]), (Ok(3), 3));
}

#[test]
fn no_paths_at_all() {
    assert_eq!(run(&[]), (Ok(0), 0));
    assert_eq!(RepositoryValidation::new(0).next(), None);
}

#[test]
fn first_failure_ends_the_validation() {
    let (outcome, tried) = run(&[Ok(()), Err("not a repository"), Ok(()), Err("later")]);
    assert_eq!(outcome, Err("not a repository".to_string()));
    assert_eq!(tried, 2);
}

#[test]
fn failure_of_the_first_path() {
    let (outcome, tried) = run(&[Err("missing"), Ok(())]);
    assert_eq!(outcome, Err("missing".to_string()));
    assert_eq!(tried, 1);
}

#[test]
fn paths_are_opened_in_order() {
    let mut validation = RepositoryValidation::new(2);
    assert_eq!(validation.next(), Some(0));
    validation.opened();
    assert_eq!(validation.next(), Some(1));
    validation.opened();
    assert_eq!(validation.next(), None);
    assert_eq!(validation.finish(), Ok(2));
}

#[test]
fn label_of_a_failed_validation() {
    assert_eq!(invalid_repositories_label(), "Invalid repositories paths");
}
