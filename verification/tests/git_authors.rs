use git_mit::git_authors::{
    expires_in, failed_initials, get_author_config, get_timeout, unknown_initials_message,
    AuthorConfigSource,
};

#[test]
fn failed_initials_are_those_not_found() {
    let initials = vec!["ae".to_string(), "bt".to_string(), "se".to_string()];
    let selected = vec![Some("Annie"), None, None];
    assert_eq!(failed_initials(&selected, &initials), vec!["bt".to_string(), "se".to_string()]);
    let all_found = vec![Some(1), Some(2), Some(3)];
    assert!(failed_initials(&all_found, &initials).is_empty());
    let none: Vec<Option<u8>> = vec![];
    assert!(failed_initials(&none, &initials).is_empty());
}

#[test]
fn unknown_initials_message_lists_them() {
    let failed = vec!["bt".to_string(), "se".to_string()];
    assert_eq!(
        unknown_initials_message(&failed),
        "\nCould not find the initials bt, se.\n\nYou can fix this by checking the initials are in the configuration file.\n"
    );
}

#[test]
fn timeout_is_read_in_minutes() {
    assert_eq!(get_timeout(Some("60")), 60);
    assert_eq!(get_timeout(Some("+5")), 5);
    assert_eq!(get_timeout(Some("0")), 0);
    assert_eq!(expires_in(60).as_secs(), 3600);
}

#[test]
fn command_takes_precedence_over_file() {
    assert_eq!(
        get_author_config(Some("cat authors.yml".to_string()), "/home/a/authors.yml".to_string()),
        AuthorConfigSource::Command("cat authors.yml".to_string())
    );
    assert_eq!(
        get_author_config(None, "/home/a/authors.yml".to_string()),
        AuthorConfigSource::File("/home/a/authors.yml".to_string())
    );
}
