use swarm::error::SwarmError;
use swarm::repos::{
    index_migration_statements, render_meta_toml, Repository, RepositoryStore, SwarmPaths,
};

fn repo(host: &str, owner: &str, name: &str, alias: Option<&str>) -> Repository {
    Repository {
        host: host.to_string(),
        owner: owner.to_string(),
        name: name.to_string(),
        alias: alias.map(str::to_string),
        remote_url: None,
        collapsed: false,
    }
}

fn store() -> RepositoryStore {
    RepositoryStore::open("/data", vec![]).unwrap()
}

#[test]
fn shorthand_repo_defaults_to_https_remote() {
    let repo = Repository {
        host: "github".to_string(),
        owner: "penberg".to_string(),
        name: "swarm".to_string(),
        alias: None,
        remote_url: None,
        collapsed: false,
    };

    assert_eq!(repo.remote_url(), "https://github.com/penberg/swarm.git");
}

#[test]
fn parses_https_remote_url() {
    let repo = Repository::parse("https://github.com/penberg/swarm.git", None).unwrap();

    assert_eq!(
        (repo.host.as_str(), repo.owner.as_str(), repo.name.as_str()),
        ("github.com", "penberg", "swarm")
    );
    assert_eq!(
        repo.remote_url.as_deref(),
        Some("https://github.com/penberg/swarm.git")
    );
}

#[test]
fn parses_ssh_remote_url() {
    let repo = Repository::parse("git@github.com:penberg/swarm.git", None).unwrap();

    assert_eq!(
        (repo.host.as_str(), repo.owner.as_str(), repo.name.as_str()),
        ("github.com", "penberg", "swarm")
    );
    assert_eq!(
        repo.remote_url.as_deref(),
        Some("git@github.com:penberg/swarm.git")
    );
}

#[test]
fn parses_ssh_scheme_remote_url() {
    let repo = Repository::parse("ssh://git@github.com/penberg/swarm.git", None).unwrap();

    assert_eq!(
        (repo.host.as_str(), repo.owner.as_str(), repo.name.as_str()),
        ("github.com", "penberg", "swarm")
    );
    assert_eq!(
        repo.remote_url.as_deref(),
        Some("ssh://git@github.com/penberg/swarm.git")
    );
}

#[test]
fn canonical_name_reads_back() {
    let first = Repository::parse(" github.com/penberg/swarm ", None).unwrap();
    assert_eq!(first.canonical(), "github.com/penberg/swarm");
    assert_eq!(first.alias.as_deref(), Some("swarm"));
    assert_eq!(first.remote_url, None);
    let second = Repository::parse(&first.canonical(), Some("other")).unwrap();
    assert_eq!(second.canonical(), "github.com/penberg/swarm");
    assert_eq!(second.alias.as_deref(), Some("other"));
    assert_eq!(second.display_name(), "other");
}

#[test]
fn remote_url_reads_back() {
    let first = repo("codeberg", "a", "b", None);
    assert_eq!(first.remote_url(), "https://codeberg.org/a/b.git");
    let second = Repository::parse(&first.remote_url(), None).unwrap();
    assert_eq!(second.canonical(), "codeberg.org/a/b");
    assert_eq!(second.remote_url(), first.remote_url());
}

#[test]
fn names_that_are_no_repository_are_refused() {
    for input in ["", "swarm", "a/b", "a/b/c/d", "a//c", "a b/c/d", "https://github.com", "x:y"] {
        let error = Repository::parse(input, None).err().expect(input);
        assert_eq!(
            error.message(),
            format!("invalid repository `{input}`; expected host/owner/name")
        );
        assert_eq!(error.exit_code(), 2);
    }
}

#[test]
fn added_repositories_are_found_by_alias_and_name() {
    let mut store = store();
    let added = store.add("github.com/penberg/swarm", None).unwrap();
    assert_eq!(added.alias.as_deref(), Some("swarm"));
    store.add("github.com/penberg/other", Some("o")).unwrap();
    assert_eq!(
        store.resolve_repository("swarm").unwrap().canonical(),
        "github.com/penberg/swarm"
    );
    assert_eq!(
        store.resolve_repository("github.com/penberg/other").unwrap().canonical(),
        "github.com/penberg/other"
    );
    assert!(store.resolve_repository("nothing").is_none());
    let error = store.require_repository("nothing").err().unwrap();
    assert_eq!(error.message(), "repository `nothing` not found");
    assert_eq!(error.exit_code(), 3);
}

#[test]
fn duplicates_are_refused() {
    let mut store = store();
    store.add("github.com/penberg/swarm", None).unwrap();
    let error = store.add("github.com/penberg/swarm", Some("again")).err().unwrap();
    assert_eq!(
        error.message(),
        "repository `github.com/penberg/swarm` already exists"
    );
    assert_eq!(error.exit_code(), 4);
    let error = store.add("github.com/other/swarm", None).err().unwrap();
    assert_eq!(error.message(), "alias `swarm` already exists");
    assert_eq!(error.exit_code(), 4);
    assert_eq!(store.list().len(), 1);
}

#[test]
fn repositories_are_listed_by_host_owner_and_name() {
    let mut store = store();
    store.add("github.com/b/x", Some("1")).unwrap();
    store.add("github.com/a/z", Some("2")).unwrap();
    store.add("codeberg.org/z/y", Some("3")).unwrap();
    store.add("github.com/a/c", Some("4")).unwrap();
    let names: Vec<String> = store.list().iter().map(|r| r.canonical()).collect();
    assert_eq!(
        names,
        vec!["codeberg.org/z/y", "github.com/a/c", "github.com/a/z", "github.com/b/x"]
    );
}

#[test]
fn removing_undoes_adding() {
    let mut store = store();
    store.add("github.com/a/b", None).unwrap();
    let before: Vec<String> = store.list().iter().map(|r| r.canonical()).collect();
    store.add("github.com/a/c", None).unwrap();
    let removed = store.remove("c").unwrap();
    assert_eq!(removed.canonical(), "github.com/a/c");
    let after: Vec<String> = store.list().iter().map(|r| r.canonical()).collect();
    assert_eq!(before, after);
    assert!(matches!(store.remove("c"), Err(SwarmError::RepositoryNotFound(_))));
}

#[test]
fn expanding_undoes_collapsing() {
    let mut store = store();
    store.add("github.com/a/b", None).unwrap();
    store.collapse("b").unwrap();
    assert!(store.list()[0].collapsed);
    store.expand("github.com/a/b").unwrap();
    assert!(!store.list()[0].collapsed);
}

#[test]
fn an_alias_comes_before_a_name() {
    let mut store = store();
    store.add("github.com/a/b", Some("github.com/c/d")).unwrap();
    store.add("github.com/c/d", None).unwrap();
    assert_eq!(
        store.resolve_repository("github.com/c/d").unwrap().canonical(),
        "github.com/a/b"
    );
}

#[test]
fn directories_follow_the_canonical_name() {
    let paths = SwarmPaths::new("/home/x/.local/share/swarm");
    let swarm = repo("github.com", "penberg", "swarm", Some("s"));
    assert_eq!(paths.index_db_path, "/home/x/.local/share/swarm/index.db");
    assert_eq!(
        paths.repo_dir(&swarm),
        "/home/x/.local/share/swarm/repos/github.com/penberg/swarm"
    );
    assert_eq!(
        paths.repo_db_path(&swarm),
        "/home/x/.local/share/swarm/repos/github.com/penberg/swarm/repo.db"
    );
    let store = store();
    assert_eq!(
        store.bare_repo_path(&swarm),
        "/data/repos/github.com/penberg/swarm/source.git"
    );
    assert_eq!(
        store.workspaces_dir(&swarm),
        "/data/repos/github.com/penberg/swarm/workspaces"
    );
    assert_eq!(
        store.sessions_dir(&swarm),
        "/data/repos/github.com/penberg/swarm/sessions"
    );
}

#[test]
fn metadata_is_written_as_the_manual_shows_it() {
    let swarm = repo("github.com", "penberg", "swarm", Some("swarm"));
    assert_eq!(
        render_meta_toml(&swarm),
        "host = \"github.com\"\nowner = \"penberg\"\nname = \"swarm\"\ncanonical = \"github.com/penberg/swarm\"\nalias = \"swarm\"\n"
    );
}

#[test]
fn metadata_values_are_escaped() {
    let swarm = repo("h", "o", "n\"\\\n", None);
    assert!(render_meta_toml(&swarm).contains("name = \"n\\\"\\\\\\n\"\n"));
}

#[test]
fn an_index_gets_the_columns_that_it_lacks() {
    let old = vec!["host".to_string(), "owner".to_string()];
    let names: Vec<String> = index_migration_statements(&old)
        .into_iter()
        .map(|(name, _)| name)
        .collect();
    assert_eq!(names, vec!["add collapsed column", "add remote_url column"]);
    let new = vec!["collapsed".to_string(), "remote_url".to_string()];
    assert!(index_migration_statements(&new).is_empty());
}

#[test]
fn rows_that_clash_cannot_be_opened() {
    let rows = vec![
        repo("h", "o", "n", Some("a")),
        repo("h", "o", "m", Some("a")),
    ];
    assert!(RepositoryStore::open("/data", rows).is_err());
}
