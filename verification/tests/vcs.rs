use git_mit::vcs::{
    coauthor_config_key, get_vcs_coauthor_config, get_vcs_coauthors_config, has_vcs_coauthor,
    CoauthorsReadError, InMemory, Vcs, VcsError,
};

fn with_coauthors(coauthors: &[(&str, &str)]) -> InMemory {
    let mut config = InMemory::new();
    for (index, (name, email)) in coauthors.iter().enumerate() {
        config.set_str(&format!("mit.author.coauthors.{}.name", index), name);
        config.set_str(&format!("mit.author.coauthors.{}.email", index), email);
    }
    config
}

#[test]
fn coauthor_key_is_formatted() {
    assert_eq!(coauthor_config_key(0, "name"), "mit.author.coauthors.0.name");
    assert_eq!(coauthor_config_key(42, "email"), "mit.author.coauthors.42.email");
    assert_eq!(coauthor_config_key(-7, "name"), "mit.author.coauthors.-7.name");
    assert_eq!(
        coauthor_config_key(i32::MAX, "signingkey"),
        format!("mit.author.coauthors.{}.signingkey", i32::MAX)
    );
}

#[test]
fn in_memory_reads_what_was_written() {
    let mut config = InMemory::new();
    assert_eq!(config.get_str("mit.author.coauthors.0.name"), Ok(None));
    config.set_str("a.b", "one");
    config.set_str("c.d", "two");
    config.set_str("a.b", "three");
    assert_eq!(config.get_str("a.b"), Ok(Some("three".to_string())));
    assert_eq!(config.get_str("c.d"), Ok(Some("two".to_string())));
    assert_eq!(config.get_str("e.f"), Ok(None));
}

#[test]
fn coauthor_config_is_read_by_index() {
    let config = with_coauthors(&[("Annie Example", "annie@example.com")]);
    assert_eq!(
        get_vcs_coauthor_config(&config, "name", 0),
        Ok(Some("Annie Example".to_string()))
    );
    assert_eq!(get_vcs_coauthor_config(&config, "name", 1), Ok(None));
}

#[test]
fn coauthor_needs_name_and_email() {
    let mut config = with_coauthors(&[("Annie Example", "annie@example.com")]);
    config.set_str("mit.author.coauthors.1.name", "Joe Bloggs");
    assert!(has_vcs_coauthor(&config, 0));
    assert!(!has_vcs_coauthor(&config, 1));
    config.set_str("mit.author.coauthors.1.email", "joe@example.com");
    assert!(has_vcs_coauthor(&config, 1));
    assert!(!has_vcs_coauthor(&config, 2));
    assert!(!has_vcs_coauthor(&config, -1));
}

#[test]
fn coauthors_config_reads_each_coauthor_in_order() {
    let mut config = with_coauthors(&[
        ("Annie Example", "annie@example.com"),
        ("Joe Bloggs", "joe@example.com"),
    ]);
    config.set_str("mit.author.coauthors.1.signingkey", "ABC123");
    config.set_str("mit.author.coauthors.3.name", "Not Reached");
    config.set_str("mit.author.coauthors.3.email", "not@example.com");
    assert_eq!(
        get_vcs_coauthors_config(&config, "name"),
        Ok(vec![Some("Annie Example".to_string()), Some("Joe Bloggs".to_string())])
    );
    assert_eq!(
        get_vcs_coauthors_config(&config, "signingkey"),
        Ok(vec![None, Some("ABC123".to_string())])
    );
    assert_eq!(get_vcs_coauthors_config(&InMemory::new(), "name"), Ok(vec![]));
}

#[test]
fn coauthors_config_gives_back_the_first_failed_read() {
    let mut config = with_coauthors(&[
        ("Annie Example", "annie@example.com"),
        ("Joe Bloggs", "joe@example.com"),
    ]);
    let first = VcsError { message: "not a string: mit.author.coauthors.0.signingkey".to_string() };
    let second = VcsError { message: "not a string: mit.author.coauthors.1.signingkey".to_string() };
    config.set_unreadable("mit.author.coauthors.0.signingkey", first.clone());
    config.set_unreadable("mit.author.coauthors.1.signingkey", second);
    assert_eq!(
        get_vcs_coauthors_config(&config, "signingkey"),
        Err(CoauthorsReadError {
            context: "failed to read ".to_string(),
            layers: 2,
            source: first.clone(),
        })
    );
    assert_eq!(get_vcs_coauthor_config(&config, "signingkey", 0), Err(first));
    assert_eq!(get_vcs_coauthors_config(&config, "email").unwrap().len(), 2);
}

#[test]
fn failed_read_of_the_last_coauthor_has_one_context() {
    let mut config = with_coauthors(&[
        ("Annie Example", "annie@example.com"),
        ("Joe Bloggs", "joe@example.com"),
        ("Sam Example", "sam@example.com"),
    ]);
    let error = VcsError { message: "not a string".to_string() };
    config.set_unreadable("mit.author.coauthors.2.signingkey", error.clone());
    assert_eq!(
        get_vcs_coauthors_config(&config, "signingkey"),
        Err(CoauthorsReadError { context: "failed to read ".to_string(), layers: 1, source: error })
    );
}

#[test]
fn unreadable_name_means_no_coauthor() {
    let mut config = with_coauthors(&[("Annie Example", "annie@example.com")]);
    config.set_unreadable(
        "mit.author.coauthors.0.name",
        VcsError { message: "not a string".to_string() },
    );
    assert!(!has_vcs_coauthor(&config, 0));
    assert_eq!(get_vcs_coauthors_config(&config, "name"), Ok(vec![]));
}
