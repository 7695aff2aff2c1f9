//! Repositories: how they are written, where they live on disk, and the index
//! of those that are known.

use crate::error;
use crate::error::{SwarmError, SwarmErrorView};
use crate::paths;
use crate::seqs;
use crate::text;
use vstd::prelude::*;

verus! {

/// A repository on a forge.
#[derive(Debug)]
pub struct Repository {
    pub host: String,
    pub owner: String,
    pub name: String,
    pub alias: Option<String>,
    pub remote_url: Option<String>,
    pub collapsed: bool,
}

/// What a `Repository` holds.
#[verifier::ext_equal]
pub struct RepositoryView {
    pub host: Seq<char>,
    pub owner: Seq<char>,
    pub name: Seq<char>,
    pub alias: Option<Seq<char>>,
    pub remote_url: Option<Seq<char>>,
    pub collapsed: bool,
}

impl View for Repository {
    type V = RepositoryView;

    open spec fn view(&self) -> RepositoryView {
        RepositoryView {
            host: self.host@,
            owner: self.owner@,
            name: self.name@,
            alias: self.alias.deep_view(),
            remote_url: self.remote_url.deep_view(),
            collapsed: self.collapsed,
        }
    }
}

impl DeepView for Repository {
    type V = RepositoryView;

    open spec fn deep_view(&self) -> RepositoryView {
        self@
    }
}

impl Clone for Repository {
    fn clone(&self) -> (r: Self)
        ensures
            r@ == self@,
    {
        Repository {
            host: self.host.clone(),
            owner: self.owner.clone(),
            name: self.name.clone(),
            alias: self.alias.clone(),
            remote_url: self.remote_url.clone(),
            collapsed: self.collapsed,
        }
    }
}

/// What identifies a repository: its host, its owner and its name.
pub open spec fn identity(repo: RepositoryView) -> (Seq<char>, Seq<char>, Seq<char>) {
    (repo.host, repo.owner, repo.name)
}

/// `host/owner/name`.
pub open spec fn canonical_name(repo: RepositoryView) -> Seq<char> {
    repo.host + "/"@ + repo.owner + "/"@ + repo.name
}

/// The host that a short host name stands for.
pub open spec fn remote_host(host: Seq<char>) -> Seq<char> {
    if host == "github"@ {
        "github.com"@
    } else if host == "gitlab"@ {
        "gitlab.com"@
    } else if host == "codeberg"@ {
        "codeberg.org"@
    } else if host == "bitbucket"@ {
        "bitbucket.org"@
    } else {
        host
    }
}

/// The remote that a repository is fetched from: the one that was given, else
/// the one that its identity gives.
pub open spec fn fetch_url(repo: RepositoryView) -> Seq<char> {
    match repo.remote_url {
        Some(url) => url,
        None => "https://"@ + remote_host(repo.host) + "/"@ + repo.owner + "/"@ + repo.name
            + ".git"@,
    }
}

/// The name by which a repository is shown: its alias, else its name.
pub open spec fn shown_name(repo: RepositoryView) -> Seq<char> {
    match repo.alias {
        Some(alias) => alias,
        None => repo.name,
    }
}

/// The owner and the name in the path of a remote. A `.git` behind the name is
/// no part of it.
pub open spec fn owner_and_name(path: Seq<char>) -> Option<(Seq<char>, Seq<char>)> {
    match text::halves(text::trimmed_char(path, '/'), '/') {
        None => None,
        Some((owner, rest)) => {
            let name = match text::without_suffix(rest, ".git"@) {
                Some(name) => name,
                None => rest,
            };
            if owner.len() == 0 || rest.contains('/') || name.len() == 0 || text::has_whitespace(
                owner,
            ) || text::has_whitespace(name) {
                None
            } else {
                Some((owner, name))
            }
        },
    }
}

/// The host of an authority, without the user before it.
pub open spec fn authority_host(authority: Seq<char>) -> Seq<char> {
    match text::last_halves(authority, '@') {
        Some((_, host)) => host,
        None => authority,
    }
}

/// The identity that an authority and a path give.
pub open spec fn remote_identity(authority: Seq<char>, path: Seq<char>) -> Option<
    (Seq<char>, Seq<char>, Seq<char>),
> {
    match owner_and_name(path) {
        Some((owner, name)) => Some((authority_host(authority), owner, name)),
        None => None,
    }
}

/// The identity in a remote: `scheme://authority/owner/name`, or
/// `authority:owner/name` with no `/` before the `:`.
pub open spec fn remote_reference(input: Seq<char>) -> Option<(Seq<char>, Seq<char>, Seq<char>)> {
    match text::find_pattern(input, "://"@) {
        Some(i) => match text::halves(input.skip(i + 3), '/') {
            Some((authority, path)) => if authority.len() == 0 || path.len() == 0 {
                None
            } else {
                remote_identity(authority, path)
            },
            None => None,
        },
        None => {
            let colon = text::index_of(input, ':');
            let slash = text::index_of(input, '/');
            if colon < slash < input.len() {
                remote_identity(input.take(colon), input.skip(colon + 1))
            } else {
                None
            }
        },
    }
}

/// Whether a text can be a part of a canonical name.
pub open spec fn plain_part(part: Seq<char>) -> bool {
    part.len() > 0 && !text::has_whitespace(part)
}

/// The identity in a canonical name.
pub open spec fn canonical_reference(input: Seq<char>) -> Option<
    (Seq<char>, Seq<char>, Seq<char>),
> {
    let parts = text::pieces(input, '/');
    if parts.len() == 3 && plain_part(text::trimmed(parts[0])) && plain_part(
        text::trimmed(parts[1]),
    ) && plain_part(text::trimmed(parts[2])) {
        Some((text::trimmed(parts[0]), text::trimmed(parts[1]), text::trimmed(parts[2])))
    } else {
        None
    }
}

/// The alias of a new repository: the one that was asked for, unless it is
/// blank, else the repository's name.
pub open spec fn chosen_alias(alias: Option<Seq<char>>, name: Seq<char>) -> Seq<char> {
    match alias {
        Some(alias) => if text::trimmed(alias).len() > 0 {
            text::trimmed(alias)
        } else {
            name
        },
        None => name,
    }
}

/// The repository that a text names. A remote is kept as it was written.
pub open spec fn parsed_repository(input: Seq<char>, alias: Option<Seq<char>>) -> Result<
    RepositoryView,
    SwarmErrorView,
> {
    let reference = text::trimmed(input);
    match remote_reference(reference) {
        Some((host, owner, name)) => Ok(
            RepositoryView {
                host,
                owner,
                name,
                alias: Some(chosen_alias(alias, name)),
                remote_url: Some(reference),
                collapsed: false,
            },
        ),
        None => match canonical_reference(reference) {
            Some((host, owner, name)) => Ok(
                RepositoryView {
                    host,
                    owner,
                    name,
                    alias: Some(chosen_alias(alias, name)),
                    remote_url: None,
                    collapsed: false,
                },
            ),
            None => Err(SwarmErrorView::InvalidRepository(reference)),
        },
    }
}

fn parse_owner_and_name(path: &str) -> (r: Option<(String, String)>)
    ensures
        match r {
            Some(p) => owner_and_name(path@) == Some((p.0@, p.1@)),
            None => owner_and_name(path@) is None,
        },
{
    let path = text::trim_matches(path, '/');
    match text::split_once(path, '/') {
        None => None,
        Some((owner, rest)) => {
            let name = match text::strip_suffix(rest, ".git") {
                Some(name) => name,
                None => rest,
            };
            if owner.unicode_len() == 0 || text::contains_char(rest, '/') || name.unicode_len() == 0
                || text::contains_whitespace(owner) || text::contains_whitespace(name) {
                None
            } else {
                Some((owner.to_owned(), name.to_owned()))
            }
        },
    }
}

fn split_remote_authority_and_path(input: &str) -> (r: Option<(&str, &str)>)
    ensures
        match r {
            Some(p) => text::halves(input@, '/') == Some((p.0@, p.1@)) && p.0@.len() > 0
                && p.1@.len() > 0,
            None => text::halves(input@, '/') matches Some(p) ==> p.0.len() == 0 || p.1.len() == 0,
        },
{
    match text::split_once(input, '/') {
        None => None,
        Some((authority, path)) => if authority.unicode_len() == 0 || path.unicode_len() == 0 {
            None
        } else {
            Some((authority, path))
        },
    }
}

fn parse_authority_and_path(authority: &str, path: &str) -> (r: Option<(String, String, String)>)
    ensures
        match r {
            Some(p) => remote_identity(authority@, path@) == Some((p.0@, p.1@, p.2@)),
            None => remote_identity(authority@, path@) is None,
        },
{
    let host = match text::rsplit_once(authority, '@') {
        Some((_, host)) => host,
        None => authority,
    };
    match parse_owner_and_name(path) {
        Some((owner, name)) => Some((host.to_owned(), owner, name)),
        None => None,
    }
}

fn parse_remote_reference(input: &str) -> (r: Option<(String, String, String)>)
    ensures
        match r {
            Some(p) => remote_reference(input@) == Some((p.0@, p.1@, p.2@)),
            None => remote_reference(input@) is None,
        },
{
    proof {
        reveal_strlit("://");
        text::lemma_index_of(input@, ':');
        text::lemma_index_of(input@, '/');
    }
    let n: usize = input.unicode_len();
    if let Some(i) = text::find_text(input, "://") {
        let remainder = input.substring_char(i + 3, n);
        proof {
            assert(remainder@ =~= input@.skip(i + 3));
        }
        return match split_remote_authority_and_path(remainder) {
            Some((authority, path)) => parse_authority_and_path(authority, path),
            None => None,
        };
    }
    match (text::find(input, ':'), text::find(input, '/')) {
        (Some(colon), Some(slash)) => if colon > slash {
            None
        } else {
            let authority = input.substring_char(0, colon);
            let path = input.substring_char(colon + 1, n);
            proof {
                assert(authority@ =~= input@.take(colon as int));
                assert(path@ =~= input@.skip(colon + 1));
            }
            parse_authority_and_path(authority, path)
        },
        _ => None,
    }
}

fn parse_canonical_reference(input: &str) -> (r: Option<(String, String, String)>)
    ensures
        match r {
            Some(p) => canonical_reference(input@) == Some((p.0@, p.1@, p.2@)),
            None => canonical_reference(input@) is None,
        },
{
    let parts = text::split(input, '/');
    let ghost pieces = parts.deep_view();
    if parts.len() != 3 {
        return None;
    }
    proof {
        assert(pieces[0] == parts@[0]@);
        assert(pieces[1] == parts@[1]@);
        assert(pieces[2] == parts@[2]@);
    }
    let host = text::trim(parts[0].as_str());
    let owner = text::trim(parts[1].as_str());
    let name = text::trim(parts[2].as_str());
    if host.unicode_len() == 0 || owner.unicode_len() == 0 || name.unicode_len() == 0
        || text::contains_whitespace(host) || text::contains_whitespace(owner)
        || text::contains_whitespace(name) {
        None
    } else {
        Some((host.to_owned(), owner.to_owned(), name.to_owned()))
    }
}

fn choose_alias(alias: Option<&str>, name: &str) -> (r: String)
    ensures
        r@ == chosen_alias(alias.deep_view(), name@),
{
    match alias {
        Some(alias) => {
            let alias = text::trim(alias);
            if alias.unicode_len() > 0 {
                alias.to_owned()
            } else {
                name.to_owned()
            }
        },
        None => name.to_owned(),
    }
}

fn resolve_remote_host(host: &str) -> (r: String)
    ensures
        r@ == remote_host(host@),
{
    if text::same(host, "github") {
        "github.com".to_owned()
    } else if text::same(host, "gitlab") {
        "gitlab.com".to_owned()
    } else if text::same(host, "codeberg") {
        "codeberg.org".to_owned()
    } else if text::same(host, "bitbucket") {
        "bitbucket.org".to_owned()
    } else {
        host.to_owned()
    }
}

impl Repository {
    /// Reads a canonical name or a remote.
    pub fn parse(input: &str, alias: Option<&str>) -> (r: Result<Self, SwarmError>)
        ensures
            error::result_view(r) == parsed_repository(input@, alias.deep_view()),
    {
        let input = text::trim(input);
        if let Some((host, owner, name)) = parse_remote_reference(input) {
            let alias = choose_alias(alias, name.as_str());
            return Ok(
                Repository {
                    host,
                    owner,
                    name,
                    alias: Some(alias),
                    remote_url: Some(input.to_owned()),
                    collapsed: false,
                },
            );
        }
        match parse_canonical_reference(input) {
            Some((host, owner, name)) => {
                let alias = choose_alias(alias, name.as_str());
                Ok(
                    Repository {
                        host,
                        owner,
                        name,
                        alias: Some(alias),
                        remote_url: None,
                        collapsed: false,
                    },
                )
            },
            None => Err(SwarmError::InvalidRepository(input.to_owned())),
        }
    }

    /// The canonical name of the repository.
    pub fn canonical(&self) -> (r: String)
        ensures
            r@ == canonical_name(self@),
    {
        let mut out = self.host.clone();
        out.append("/");
        out.append(self.owner.as_str());
        out.append("/");
        out.append(self.name.as_str());
        out
    }

    /// The remote that the repository is fetched from.
    pub fn remote_url(&self) -> (r: String)
        ensures
            r@ == fetch_url(self@),
    {
        match &self.remote_url {
            Some(url) => url.clone(),
            None => {
                let host = resolve_remote_host(self.host.as_str());
                let mut out = "https://".to_owned();
                out.append(host.as_str());
                out.append("/");
                out.append(self.owner.as_str());
                out.append("/");
                out.append(self.name.as_str());
                out.append(".git");
                out
            },
        }
    }

    /// The name by which the repository is shown.
    pub fn display_name(&self) -> (r: String)
        ensures
            r@ == shown_name(self@),
    {
        match &self.alias {
            Some(alias) => alias.clone(),
            None => self.name.clone(),
        }
    }
}

/// Where swarm keeps its state.
#[derive(Debug)]
pub struct SwarmPaths {
    pub data_dir: String,
    pub repos_dir: String,
    pub index_db_path: String,
}

/// What a `SwarmPaths` holds.
#[verifier::ext_equal]
pub struct SwarmPathsView {
    pub data_dir: Seq<char>,
    pub repos_dir: Seq<char>,
    pub index_db_path: Seq<char>,
}

impl View for SwarmPaths {
    type V = SwarmPathsView;

    open spec fn view(&self) -> SwarmPathsView {
        SwarmPathsView {
            data_dir: self.data_dir@,
            repos_dir: self.repos_dir@,
            index_db_path: self.index_db_path@,
        }
    }
}

impl DeepView for SwarmPaths {
    type V = SwarmPathsView;

    open spec fn deep_view(&self) -> SwarmPathsView {
        self@
    }
}

impl Clone for SwarmPaths {
    fn clone(&self) -> (r: Self)
        ensures
            r@ == self@,
    {
        SwarmPaths {
            data_dir: self.data_dir.clone(),
            repos_dir: self.repos_dir.clone(),
            index_db_path: self.index_db_path.clone(),
        }
    }
}

/// The layout below a data directory.
pub open spec fn layout(data_dir: Seq<char>) -> SwarmPathsView {
    SwarmPathsView {
        data_dir,
        repos_dir: paths::joined_path(data_dir, "repos"@),
        index_db_path: paths::joined_path(data_dir, "index.db"@),
    }
}

/// The directory of a repository: `<host>/<owner>/<name>` below the
/// repositories' directory.
pub open spec fn repository_dir(repos_dir: Seq<char>, repo: RepositoryView) -> Seq<char> {
    paths::joined_path(
        paths::joined_path(paths::joined_path(repos_dir, repo.host), repo.owner),
        repo.name,
    )
}

impl SwarmPaths {
    /// The layout below a data directory.
    pub fn new(data_dir: &str) -> (r: Self)
        ensures
            r@ == layout(data_dir@),
    {
        SwarmPaths {
            data_dir: data_dir.to_owned(),
            repos_dir: paths::join_path(data_dir, "repos"),
            index_db_path: paths::join_path(data_dir, "index.db"),
        }
    }

    /// The directory of a repository.
    pub fn repo_dir(&self, repo: &Repository) -> (r: String)
        ensures
            r@ == repository_dir(self@.repos_dir, repo@),
    {
        let host_dir = paths::join_path(self.repos_dir.as_str(), repo.host.as_str());
        let owner_dir = paths::join_path(host_dir.as_str(), repo.owner.as_str());
        paths::join_path(owner_dir.as_str(), repo.name.as_str())
    }

    /// The database of a repository.
    pub fn repo_db_path(&self, repo: &Repository) -> (r: String)
        ensures
            r@ == paths::joined_path(repository_dir(self@.repos_dir, repo@), "repo.db"@),
    {
        paths::join_path(self.repo_dir(repo).as_str(), "repo.db")
    }

    /// The metadata file of a repository.
    pub fn repo_meta_path(&self, repo: &Repository) -> (r: String)
        ensures
            r@ == paths::joined_path(repository_dir(self@.repos_dir, repo@), "meta.toml"@),
    {
        paths::join_path(self.repo_dir(repo).as_str(), "meta.toml")
    }
}

/// One line of a metadata file.
pub open spec fn meta_line(key: Seq<char>, value: Seq<char>) -> Seq<char> {
    key + " = "@ + value + "\n"@
}

/// The metadata file that holds the given values.
pub open spec fn meta_toml(
    host: Seq<char>,
    owner: Seq<char>,
    name: Seq<char>,
    canonical: Seq<char>,
    alias: Option<Seq<char>>,
    remote_url: Option<Seq<char>>,
) -> Seq<char> {
    let head = meta_line("host"@, host) + meta_line("owner"@, owner) + meta_line("name"@, name)
        + meta_line("canonical"@, canonical);
    let named = match alias {
        Some(alias) => head + meta_line("alias"@, alias),
        None => head,
    };
    match remote_url {
        Some(url) => named + meta_line("remote_url"@, url),
        None => named,
    }
}

/// An optional text in quotes.
pub open spec fn quoted_option(value: Option<Seq<char>>) -> Option<Seq<char>> {
    match value {
        Some(v) => Some(text::quoted_text(v)),
        None => None,
    }
}

/// Writes one line of a metadata file.
pub fn render_meta_line(key: &str, value: &str) -> (r: String)
    ensures
        r@ == meta_line(key@, value@),
{
    let mut out = key.to_owned();
    out.append(" = ");
    out.append(value);
    out.append("\n");
    out
}

/// Writes a metadata file from values that are already in quotes.
pub fn render_meta_values(
    host: &str,
    owner: &str,
    name: &str,
    canonical: &str,
    alias: Option<&str>,
    remote_url: Option<&str>,
) -> (r: String)
    ensures
        r@ == meta_toml(
            host@,
            owner@,
            name@,
            canonical@,
            alias.deep_view(),
            remote_url.deep_view(),
        ),
{
    let mut out = render_meta_line("host", host);
    out.append(render_meta_line("owner", owner).as_str());
    out.append(render_meta_line("name", name).as_str());
    out.append(render_meta_line("canonical", canonical).as_str());
    if let Some(alias) = alias {
        out.append(render_meta_line("alias", alias).as_str());
    }
    if let Some(url) = remote_url {
        out.append(render_meta_line("remote_url", url).as_str());
    }
    out
}

/// The metadata file of a repository.
pub fn render_meta_toml(repo: &Repository) -> (r: String)
    ensures
        r@ == meta_toml(
            text::quoted_text(repo@.host),
            text::quoted_text(repo@.owner),
            text::quoted_text(repo@.name),
            text::quoted_text(canonical_name(repo@)),
            quoted_option(repo@.alias),
            quoted_option(repo@.remote_url),
        ),
{
    let host = text::quote(repo.host.as_str());
    let owner = text::quote(repo.owner.as_str());
    let name = text::quote(repo.name.as_str());
    let canonical = text::quote(repo.canonical().as_str());
    let alias: Option<String> = match &repo.alias {
        Some(alias) => Some(text::quote(alias.as_str())),
        None => None,
    };
    let url: Option<String> = match &repo.remote_url {
        Some(url) => Some(text::quote(url.as_str())),
        None => None,
    };
    let alias_text: Option<&str> = match &alias {
        Some(alias) => Some(alias.as_str()),
        None => None,
    };
    let url_text: Option<&str> = match &url {
        Some(url) => Some(url.as_str()),
        None => None,
    };
    render_meta_values(
        host.as_str(),
        owner.as_str(),
        name.as_str(),
        canonical.as_str(),
        alias_text,
        url_text,
    )
}

/// Whether a column is among those of a table.
pub fn has_column(columns: &Vec<String>, column: &str) -> (r: bool)
    ensures
        r == columns.deep_view().contains(column@),
{
    let mut i: usize = 0;
    while i < columns.len()
        invariant
            i <= columns.len(),
            forall|j: int| 0 <= j < i ==> columns@[j]@ != column@,
        decreases columns.len() - i,
    {
        if text::same(columns[i].as_str(), column) {
            proof {
                assert(columns.deep_view()[i as int] == column@);
            }
            return true;
        }
        i += 1;
    }
    proof {
        assert forall|j: int| 0 <= j < columns.deep_view().len() implies columns.deep_view()[j]
            != column@ by {
            assert(columns.deep_view()[j] == columns@[j]@);
        }
    }
    false
}

/// What an index that was made by an earlier version still lacks: each
/// statement, with the name of the operation it performs.
pub open spec fn index_migrations(columns: Seq<Seq<char>>) -> Seq<(Seq<char>, Seq<char>)> {
    let collapsed = if columns.contains("collapsed"@) {
        seq![]
    } else {
        seq![
            (
                "add collapsed column"@,
                "ALTER TABLE repos ADD COLUMN collapsed INTEGER NOT NULL DEFAULT 0"@,
            ),
        ]
    };
    if columns.contains("remote_url"@) {
        collapsed
    } else {
        collapsed.push(
            ("add remote_url column"@, "ALTER TABLE repos ADD COLUMN remote_url TEXT"@),
        )
    }
}

/// The statements that bring an index with the given columns up to date.
pub fn index_migration_statements(columns: &Vec<String>) -> (r: Vec<(String, String)>)
    ensures
        r.deep_view() == index_migrations(columns.deep_view()),
{
    let mut out: Vec<(String, String)> = Vec::new();
    if !has_column(columns, "collapsed") {
        out.push(
            (
                "add collapsed column".to_owned(),
                "ALTER TABLE repos ADD COLUMN collapsed INTEGER NOT NULL DEFAULT 0".to_owned(),
            ),
        );
    }
    if !has_column(columns, "remote_url") {
        out.push(
            (
                "add remote_url column".to_owned(),
                "ALTER TABLE repos ADD COLUMN remote_url TEXT".to_owned(),
            ),
        );
    }
    out
}

/// The repositories that are known, by host, owner and name.
#[derive(Debug)]
pub struct RepositoryStore {
    pub paths: SwarmPaths,
    pub rows: Vec<Repository>,
}

/// What a `RepositoryStore` holds.
#[verifier::ext_equal]
pub struct RepositoryStoreView {
    pub paths: SwarmPathsView,
    pub rows: Seq<RepositoryView>,
}

impl View for RepositoryStore {
    type V = RepositoryStoreView;

    open spec fn view(&self) -> RepositoryStoreView {
        RepositoryStoreView {
            paths: self.paths@,
            rows: self.rows.deep_view(),
        }
    }
}

impl DeepView for RepositoryStore {
    type V = RepositoryStoreView;

    open spec fn deep_view(&self) -> RepositoryStoreView {
        self@
    }
}

impl Clone for RepositoryStore {
    fn clone(&self) -> (r: Self)
        ensures
            r@ == self@,
    {
        RepositoryStore {
            paths: self.paths.clone(),
            rows: self.rows.clone(),
        }
    }
}

/// Whether an identity comes before another one.
pub open spec fn identity_before(
    a: (Seq<char>, Seq<char>, Seq<char>),
    b: (Seq<char>, Seq<char>, Seq<char>),
) -> bool {
    ||| text::before(a.0, b.0)
    ||| a.0 == b.0 && text::before(a.1, b.1)
    ||| a.0 == b.0 && a.1 == b.1 && text::before(a.2, b.2)
}

/// Tells repositories with a given identity.
pub open spec fn has_identity(
    id: (Seq<char>, Seq<char>, Seq<char>),
) -> spec_fn(RepositoryView) -> bool {
    |r: RepositoryView| identity(r) == id
}

/// Tells repositories with a given alias.
pub open spec fn has_alias(alias: Seq<char>) -> spec_fn(RepositoryView) -> bool {
    |r: RepositoryView| r.alias == Some(alias)
}

/// Tells repositories that come after a given identity.
pub open spec fn comes_after(
    id: (Seq<char>, Seq<char>, Seq<char>),
) -> spec_fn(RepositoryView) -> bool {
    |r: RepositoryView| identity_before(id, identity(r))
}

/// Repositories in the order of their identities, so that no identity occurs
/// twice.
pub open spec fn ordered(rows: Seq<RepositoryView>) -> bool {
    forall|i: int, j: int|
        0 <= i < j < rows.len() ==> identity_before(
            identity(#[trigger] rows[i]),
            identity(#[trigger] rows[j]),
        )
}

/// No alias is shared by two repositories.
pub open spec fn aliases_unique(rows: Seq<RepositoryView>) -> bool {
    forall|i: int, j: int|
        0 <= i < j < rows.len() && (#[trigger] rows[i]).alias is Some ==> rows[i].alias != (
        #[trigger] rows[j]).alias
}

/// The rows with a repository put in its place.
pub open spec fn with_repository(
    rows: Seq<RepositoryView>,
    repo: RepositoryView,
) -> Seq<RepositoryView> {
    rows.insert(seqs::first_index(rows, comes_after(identity(repo))), repo)
}

/// Why a repository cannot be put among the rows.
pub open spec fn conflict(rows: Seq<RepositoryView>, repo: RepositoryView) -> Option<
    SwarmErrorView,
> {
    if seqs::any(rows, has_identity(identity(repo))) {
        Some(SwarmErrorView::DuplicateRepository(canonical_name(repo)))
    } else {
        match repo.alias {
            Some(alias) => if seqs::any(rows, has_alias(alias)) {
                Some(SwarmErrorView::DuplicateAlias(alias))
            } else {
                None
            },
            None => None,
        }
    }
}

/// The repository that a reference names: by alias first, then by identity.
pub open spec fn resolved(rows: Seq<RepositoryView>, reference: Seq<char>) -> Option<
    RepositoryView,
> {
    match seqs::first(rows, has_alias(reference)) {
        Some(repo) => Some(repo),
        None => match parsed_repository(reference, Some("placeholder"@)) {
            Ok(repo) => seqs::first(rows, has_identity(identity(repo))),
            Err(_) => None,
        },
    }
}

/// The rows with the flag of one repository set.
pub open spec fn with_collapsed(
    rows: Seq<RepositoryView>,
    id: (Seq<char>, Seq<char>, Seq<char>),
    collapsed: bool,
) -> Seq<RepositoryView> {
    Seq::new(
        rows.len(),
        |i: int|
            if identity(rows[i]) == id {
                RepositoryView { collapsed, ..rows[i] }
            } else {
                rows[i]
            },
    )
}

/// The rows without one repository.
pub open spec fn without_repository(
    rows: Seq<RepositoryView>,
    id: (Seq<char>, Seq<char>, Seq<char>),
) -> Seq<RepositoryView> {
    let i = seqs::first_index(rows, has_identity(id));
    if i < rows.len() {
        rows.remove(i)
    } else {
        rows
    }
}

pub proof fn lemma_identity_before(
    a: (Seq<char>, Seq<char>, Seq<char>),
    b: (Seq<char>, Seq<char>, Seq<char>),
)
    ensures
        !(identity_before(a, b) && identity_before(b, a)),
        a == b <==> !identity_before(a, b) && !identity_before(b, a),
{
    text::lemma_before_total(a.0, b.0);
    text::lemma_before_total(a.1, b.1);
    text::lemma_before_total(a.2, b.2);
}

pub proof fn lemma_identity_before_transitive(
    a: (Seq<char>, Seq<char>, Seq<char>),
    b: (Seq<char>, Seq<char>, Seq<char>),
    c: (Seq<char>, Seq<char>, Seq<char>),
)
    requires
        identity_before(a, b),
        identity_before(b, c),
    ensures
        identity_before(a, c),
{
    if text::before(a.0, b.0) && text::before(b.0, c.0) {
        text::lemma_before_transitive(a.0, b.0, c.0);
    } else if a.0 == b.0 && b.0 == c.0 {
        if text::before(a.1, b.1) && text::before(b.1, c.1) {
            text::lemma_before_transitive(a.1, b.1, c.1);
        } else if a.1 == b.1 && b.1 == c.1 {
            if text::before(a.2, b.2) && text::before(b.2, c.2) {
                text::lemma_before_transitive(a.2, b.2, c.2);
            }
        }
    }
}

fn same_identity(a: &Repository, b: &Repository) -> (r: bool)
    ensures
        r == (identity(a@) == identity(b@)),
{
    a.host == b.host && a.owner == b.owner && a.name == b.name
}

fn is_identity_before(a: &Repository, b: &Repository) -> (r: bool)
    ensures
        r == identity_before(identity(a@), identity(b@)),
{
    text::is_before(a.host.as_str(), b.host.as_str()) || (a.host == b.host && text::is_before(
        a.owner.as_str(),
        b.owner.as_str(),
    )) || (a.host == b.host && a.owner == b.owner && text::is_before(
        a.name.as_str(),
        b.name.as_str(),
    ))
}

/// The index with a repository put in its place keeps the order and the aliases
/// apart, and holds nothing else that is new.
pub proof fn lemma_with_repository(rows: Seq<RepositoryView>, repo: RepositoryView)
    requires
        ordered(rows),
        aliases_unique(rows),
        conflict(rows, repo) is None,
    ensures
        ordered(with_repository(rows, repo)),
        aliases_unique(with_repository(rows, repo)),
        with_repository(rows, repo).to_multiset() == rows.to_multiset().insert(repo),
{
    let id = identity(repo);
    let p = comes_after(id);
    let k = seqs::first_index(rows, p);
    seqs::lemma_first_index(rows, p);
    let out = with_repository(rows, repo);
    assert forall|i: int| 0 <= i < rows.len() implies identity(#[trigger] rows[i]) != id && (
    repo.alias is Some ==> rows[i].alias != repo.alias) by {
        assert(!has_identity(id)(rows[i]));
        if repo.alias is Some {
            assert(!has_alias(repo.alias->0)(rows[i]));
        }
    }
    assert forall|i: int| 0 <= i < k implies identity_before(identity(#[trigger] rows[i]), id) by {
        assert(!p(rows[i]));
        lemma_identity_before(identity(rows[i]), id);
    }
    assert forall|i: int| k <= i < rows.len() implies identity_before(
        id,
        identity(#[trigger] rows[i]),
    ) by {
        if i > k {
            lemma_identity_before_transitive(id, identity(rows[k]), identity(rows[i]));
        }
    }
    assert forall|i: int, j: int| 0 <= i < j < out.len() implies identity_before(
        identity(#[trigger] out[i]),
        identity(#[trigger] out[j]),
    ) by {
        if i < k && j > k {
            assert(out[i] == rows[i] && out[j] == rows[j - 1]);
        } else if i > k {
            assert(out[i] == rows[i - 1] && out[j] == rows[j - 1]);
        } else if i == k {
            assert(out[j] == rows[j - 1]);
        } else {
            assert(out[i] == rows[i]);
        }
    }
    assert forall|i: int, j: int|
        0 <= i < j < out.len() && (#[trigger] out[i]).alias is Some implies out[i].alias != (
    #[trigger] out[j]).alias by {
        if i < k && j > k {
            assert(out[i] == rows[i] && out[j] == rows[j - 1]);
        } else if i > k {
            assert(out[i] == rows[i - 1] && out[j] == rows[j - 1]);
        } else if i == k {
            assert(out[j] == rows[j - 1]);
        } else {
            assert(out[i] == rows[i]);
        }
    }
    rows.to_multiset_ensures();
    vstd::seq_lib::to_multiset_insert(rows, k, repo);
}

/// Setting the flag of one repository keeps the order and the aliases.
pub proof fn lemma_with_collapsed(
    rows: Seq<RepositoryView>,
    id: (Seq<char>, Seq<char>, Seq<char>),
    collapsed: bool,
)
    requires
        ordered(rows),
        aliases_unique(rows),
    ensures
        ordered(with_collapsed(rows, id, collapsed)),
        aliases_unique(with_collapsed(rows, id, collapsed)),
{
    let out = with_collapsed(rows, id, collapsed);
    assert forall|i: int| 0 <= i < out.len() implies identity(#[trigger] out[i]) == identity(
        rows[i],
    ) && out[i].alias == rows[i].alias by {}
    assert forall|i: int, j: int| 0 <= i < j < out.len() implies identity_before(
        identity(#[trigger] out[i]),
        identity(#[trigger] out[j]),
    ) by {
        assert(identity_before(identity(rows[i]), identity(rows[j])));
    }
}

impl RepositoryStore {
    /// The index is in order, and no identity and no alias occurs twice.
    pub open spec fn wf(&self) -> bool {
        ordered(self@.rows) && aliases_unique(self@.rows)
    }

    /// The index over the rows that were read from a data directory. Rows that
    /// share an identity or an alias are refused.
    pub fn open(data_dir: &str, rows: Vec<Repository>) -> (r: Result<Self, SwarmError>)
        ensures
            match load_conflict(rows.deep_view(), 0) {
                None => r matches Ok(store) && store.wf() && store@.paths == layout(data_dir@)
                    && store@.rows.to_multiset() == rows.deep_view().to_multiset(),
                Some(e) => r matches Err(x) && x@ == e,
            },
    {
        let mut store = RepositoryStore { paths: SwarmPaths::new(data_dir), rows: Vec::new() };
        let ghost all = rows.deep_view();
        let mut i: usize = 0;
        proof {
            assert(store@.rows =~= seq![]);
            assert(all.take(0) =~= store@.rows);
        }
        while i < rows.len()
            invariant
                i <= rows.len(),
                all == rows.deep_view(),
                store.wf(),
                store@.paths == layout(data_dir@),
                store@.rows.to_multiset() == all.take(i as int).to_multiset(),
                load_conflict(all, 0) == load_conflict(all, i as int),
            decreases rows.len() - i,
        {
            let ghost before = store@.rows;
            proof {
                assert(all[i as int] == rows@[i as int]@);
                lemma_conflict_order(before, all.take(i as int), all[i as int]);
            }
            match store.insert(rows[i].clone()) {
                Ok(()) => {},
                Err(e) => {
                    return Err(e);
                },
            }
            proof {
                lemma_with_repository(before, all[i as int]);
                assert(all.take(i + 1) =~= all.take(i as int).push(all[i as int]));
                vstd::seq_lib::to_multiset_build(all.take(i as int), all[i as int]);
            }
            i += 1;
        }
        proof {
            assert(all.take(all.len() as int) =~= all);
        }
        Ok(store)
    }

    fn find_repository(&self, repo: &Repository) -> (r: Option<usize>)
        ensures
            match r {
                Some(i) => i == seqs::first_index(self@.rows, has_identity(identity(repo@))) && i
                    < self.rows.len(),
                None => seqs::first_index(self@.rows, has_identity(identity(repo@)))
                    == self.rows.len() && !seqs::any(self@.rows, has_identity(identity(repo@))),
            },
            r is Some <==> seqs::any(self@.rows, has_identity(identity(repo@))),
    {
        let ghost p = has_identity(identity(repo@));
        let mut i: usize = 0;
        while i < self.rows.len()
            invariant
                i <= self.rows.len(),
                p == has_identity(identity(repo@)),
                forall|j: int| 0 <= j < i ==> !p(#[trigger] self@.rows[j]),
            decreases self.rows.len() - i,
        {
            if same_identity(&self.rows[i], repo) {
                proof {
                    seqs::lemma_first_index_is(self@.rows, p, i as int);
                }
                return Some(i);
            }
            i += 1;
        }
        proof {
            seqs::lemma_first_index_is(self@.rows, p, i as int);
        }
        None
    }

    fn find_by_alias(&self, alias: &str) -> (r: Option<usize>)
        ensures
            match r {
                Some(i) => i == seqs::first_index(self@.rows, has_alias(alias@)) && i
                    < self.rows.len(),
                None => seqs::first_index(self@.rows, has_alias(alias@)) == self.rows.len(),
            },
            r is Some <==> seqs::any(self@.rows, has_alias(alias@)),
    {
        let ghost p = has_alias(alias@);
        let mut i: usize = 0;
        while i < self.rows.len()
            invariant
                i <= self.rows.len(),
                p == has_alias(alias@),
                forall|j: int| 0 <= j < i ==> !p(#[trigger] self@.rows[j]),
            decreases self.rows.len() - i,
        {
            let found: bool = match &self.rows[i].alias {
                Some(a) => text::same(a.as_str(), alias),
                None => false,
            };
            if found {
                proof {
                    seqs::lemma_first_index_is(self@.rows, p, i as int);
                }
                return Some(i);
            }
            i += 1;
        }
        proof {
            seqs::lemma_first_index_is(self@.rows, p, i as int);
        }
        None
    }

    fn insert(&mut self, repo: Repository) -> (r: Result<(), SwarmError>)
        requires
            old(self).wf(),
        ensures
            final(self).wf(),
            final(self)@.paths == old(self)@.paths,
            match conflict(old(self)@.rows, repo@) {
                Some(e) => error::result_view(r) == Err::<(), SwarmErrorView>(e) && final(self)@.rows == old(self)@.rows,
                None => r is Ok && final(self)@.rows == with_repository(old(self)@.rows, repo@),
            },
    {
        if self.find_repository(&repo).is_some() {
            return Err(SwarmError::DuplicateRepository(repo.canonical()));
        }
        if let Some(alias) = &repo.alias {
            if self.find_by_alias(alias.as_str()).is_some() {
                return Err(SwarmError::DuplicateAlias(alias.clone()));
            }
        }
        let ghost rows = self@.rows;
        let ghost p = comes_after(identity(repo@));
        let ghost new = repo@;
        let mut i: usize = 0;
        while i < self.rows.len() && !is_identity_before(&repo, &self.rows[i])
            invariant
                i <= self.rows.len(),
                rows == self@.rows,
                p == comes_after(identity(repo@)),
                forall|j: int| 0 <= j < i ==> !p(#[trigger] rows[j]),
            decreases self.rows.len() - i,
        {
            i += 1;
        }
        proof {
            seqs::lemma_first_index_is(rows, p, i as int);
            lemma_with_repository(rows, new);
        }
        self.rows.insert(i, repo);
        proof {
            assert(self@.rows =~= with_repository(rows, new));
        }
        Ok(())
    }

    /// Registers a repository.
    pub fn add(&mut self, repository: &str, alias: Option<&str>) -> (r: Result<
        Repository,
        SwarmError,
    >)
        requires
            old(self).wf(),
        ensures
            final(self).wf(),
            final(self)@.paths == old(self)@.paths,
            match parsed_repository(repository@, alias.deep_view()) {
                Err(e) => error::result_view(r) == Err::<RepositoryView, _>(e) && final(self)@
                    == old(self)@,
                Ok(repo) => match conflict(old(self)@.rows, repo) {
                    Some(e) => error::result_view(r) == Err::<RepositoryView, _>(e) && final(self)@
                        == old(self)@,
                    None => error::result_view(r) == Ok::<_, SwarmErrorView>(repo) && final(self)@.rows == with_repository(old(self)@.rows, repo),
                },
            },
    {
        let repo = Repository::parse(repository, alias)?;
        match self.insert(repo.clone()) {
            Ok(()) => Ok(repo),
            Err(e) => Err(e),
        }
    }

    /// The repositories that are known, in order.
    pub fn list(&self) -> (r: Vec<Repository>)
        ensures
            r.deep_view() == self@.rows,
    {
        self.rows.clone()
    }

    /// The position of the repository that a reference names.
    fn resolve(&self, reference: &str) -> (r: Option<usize>)
        ensures
            match r {
                Some(i) => i < self.rows.len() && resolved(self@.rows, reference@) == Some(
                    self@.rows[i as int],
                ),
                None => resolved(self@.rows, reference@) is None,
            },
    {
        if let Some(i) = self.find_by_alias(reference) {
            return Some(i);
        }
        match Repository::parse(reference, Some("placeholder")) {
            Ok(repo) => self.find_repository(&repo),
            Err(_) => None,
        }
    }

    /// The repository that a reference names, by alias first.
    pub fn resolve_repository(&self, reference: &str) -> (r: Option<Repository>)
        ensures
            r.deep_view() == resolved(self@.rows, reference@),
    {
        match self.resolve(reference) {
            Some(i) => Some(self.rows[i].clone()),
            None => None,
        }
    }

    /// The repository that a reference names, or the error that it is not known.
    pub fn require_repository(&self, reference: &str) -> (r: Result<Repository, SwarmError>)
        ensures
            error::result_view(r) == required(self@.rows, reference@),
    {
        match self.resolve(reference) {
            Some(i) => Ok(self.rows[i].clone()),
            None => Err(SwarmError::RepositoryNotFound(reference.to_owned())),
        }
    }

    /// Forgets a repository.
    pub fn remove(&mut self, repository: &str) -> (r: Result<Repository, SwarmError>)
        requires
            old(self).wf(),
        ensures
            final(self).wf(),
            final(self)@.paths == old(self)@.paths,
            error::result_view(r) == required(old(self)@.rows, repository@),
            match resolved(old(self)@.rows, repository@) {
                Some(repo) => final(self)@.rows == without_repository(
                    old(self)@.rows,
                    identity(repo),
                ),
                None => final(self)@.rows == old(self)@.rows,
            },
    {
        match self.resolve(repository) {
            None => Err(SwarmError::RepositoryNotFound(repository.to_owned())),
            Some(i) => {
                let ghost rows = self@.rows;
                let ghost id = identity(rows[i as int]);
                let repo = self.rows.remove(i);
                proof {
                    assert forall|j: int| 0 <= j < i implies !has_identity(id)(
                        #[trigger] rows[j],
                    ) by {
                        lemma_identity_before(identity(rows[j]), id);
                    }
                    seqs::lemma_first_index_is(rows, has_identity(id), i as int);
                    assert(self@.rows =~= rows.remove(i as int));
                }
                Ok(repo)
            },
        }
    }

    fn set_collapsed(&mut self, repository: &str, collapsed: bool) -> (r: Result<
        Repository,
        SwarmError,
    >)
        requires
            old(self).wf(),
        ensures
            final(self).wf(),
            final(self)@.paths == old(self)@.paths,
            match resolved(old(self)@.rows, repository@) {
                Some(repo) => error::result_view(r) == Ok::<_, SwarmErrorView>(
                    (RepositoryView { collapsed, ..repo }),
                ) && final(self)@.rows == with_collapsed(
                    old(self)@.rows,
                    identity(repo),
                    collapsed,
                ),
                None => error::result_view(r) == Err::<RepositoryView, _>(
                    SwarmErrorView::RepositoryNotFound(repository@),
                ) && final(self)@.rows == old(self)@.rows,
            },
    {
        match self.resolve(repository) {
            None => Err(SwarmError::RepositoryNotFound(repository.to_owned())),
            Some(i) => {
                let ghost rows = self@.rows;
                let ghost id = identity(rows[i as int]);
                let mut repo = self.rows[i].clone();
                repo.collapsed = collapsed;
                let stored = repo.clone();
                self.rows.set(i, stored);
                proof {
                    assert forall|j: int| 0 <= j < rows.len() && j != i implies identity(
                        #[trigger] rows[j],
                    ) != id by {
                        lemma_identity_before(identity(rows[j]), id);
                        if j < i {
                            assert(identity_before(identity(rows[j]), identity(rows[i as int])));
                        } else {
                            assert(identity_before(identity(rows[i as int]), identity(rows[j])));
                        }
                    }
                    assert(self@.rows =~= with_collapsed(rows, id, collapsed));
                    lemma_with_collapsed(rows, id, collapsed);
                }
                Ok(repo)
            },
        }
    }

    /// Marks a repository as collapsed.
    pub fn collapse(&mut self, repository: &str) -> (r: Result<Repository, SwarmError>)
        requires
            old(self).wf(),
        ensures
            final(self).wf(),
            final(self)@.paths == old(self)@.paths,
            match resolved(old(self)@.rows, repository@) {
                Some(repo) => error::result_view(r) == Ok::<_, SwarmErrorView>(
                    (RepositoryView { collapsed: true, ..repo }),
                ) && final(self)@.rows == with_collapsed(old(self)@.rows, identity(repo), true),
                None => error::result_view(r) == Err::<RepositoryView, _>(
                    SwarmErrorView::RepositoryNotFound(repository@),
                ) && final(self)@.rows == old(self)@.rows,
            },
    {
        self.set_collapsed(repository, true)
    }

    /// Marks a repository as expanded.
    pub fn expand(&mut self, repository: &str) -> (r: Result<Repository, SwarmError>)
        requires
            old(self).wf(),
        ensures
            final(self).wf(),
            final(self)@.paths == old(self)@.paths,
            match resolved(old(self)@.rows, repository@) {
                Some(repo) => error::result_view(r) == Ok::<_, SwarmErrorView>(
                    (RepositoryView { collapsed: false, ..repo }),
                ) && final(self)@.rows == with_collapsed(old(self)@.rows, identity(repo), false),
                None => error::result_view(r) == Err::<RepositoryView, _>(
                    SwarmErrorView::RepositoryNotFound(repository@),
                ) && final(self)@.rows == old(self)@.rows,
            },
    {
        self.set_collapsed(repository, false)
    }

    /// The directory of a repository.
    pub fn repo_dir(&self, repo: &Repository) -> (r: String)
        ensures
            r@ == repository_dir(self@.paths.repos_dir, repo@),
    {
        self.paths.repo_dir(repo)
    }

    /// The database of a repository.
    pub fn repo_db_path(&self, repo: &Repository) -> (r: String)
        ensures
            r@ == paths::joined_path(repository_dir(self@.paths.repos_dir, repo@), "repo.db"@),
    {
        self.paths.repo_db_path(repo)
    }

    /// The directory of a repository's workspaces.
    pub fn workspaces_dir(&self, repo: &Repository) -> (r: String)
        ensures
            r@ == paths::joined_path(repository_dir(self@.paths.repos_dir, repo@), "workspaces"@),
    {
        paths::join_path(self.paths.repo_dir(repo).as_str(), "workspaces")
    }

    /// The bare clone of a repository.
    pub fn bare_repo_path(&self, repo: &Repository) -> (r: String)
        ensures
            r@ == paths::joined_path(repository_dir(self@.paths.repos_dir, repo@), "source.git"@),
    {
        paths::join_path(self.paths.repo_dir(repo).as_str(), "source.git")
    }

    /// The directory of a repository's sessions.
    pub fn sessions_dir(&self, repo: &Repository) -> (r: String)
        ensures
            r@ == paths::joined_path(repository_dir(self@.paths.repos_dir, repo@), "sessions"@),
    {
        paths::join_path(self.paths.repo_dir(repo).as_str(), "sessions")
    }
}

/// The repository that a reference names, or the error that it is not known.
pub open spec fn required(rows: Seq<RepositoryView>, reference: Seq<char>) -> Result<
    RepositoryView,
    SwarmErrorView,
> {
    match resolved(rows, reference) {
        Some(repo) => Ok(repo),
        None => Err(SwarmErrorView::RepositoryNotFound(reference)),
    }
}

/// Why the rows from position `i` on cannot all be put into one index.
pub open spec fn load_conflict(rows: Seq<RepositoryView>, i: int) -> Option<SwarmErrorView>
    decreases rows.len() - i,
{
    if i < 0 || i >= rows.len() {
        None
    } else {
        match conflict(rows.take(i), rows[i]) {
            Some(e) => Some(e),
            None => load_conflict(rows, i + 1),
        }
    }
}

/// Whether rows can take a repository depends on what they hold, not on their
/// order.
proof fn lemma_conflict_order(
    a: Seq<RepositoryView>,
    b: Seq<RepositoryView>,
    repo: RepositoryView,
)
    requires
        a.to_multiset() == b.to_multiset(),
    ensures
        conflict(a, repo) == conflict(b, repo),
{
    seqs::lemma_any_order(a, b, has_identity(identity(repo)));
    if repo.alias is Some {
        seqs::lemma_any_order(a, b, has_alias(repo.alias->0));
    }
}

/// Whether a text can be the owner or the name of a repository, or a host: not
/// empty, without white space and without a `/`.
pub open spec fn segment(part: Seq<char>) -> bool {
    plain_part(part) && !part.contains('/')
}

proof fn lemma_three_segments(host: Seq<char>, owner: Seq<char>, name: Seq<char>)
    requires
        segment(host),
        segment(owner),
        segment(name),
    ensures
        ({
            let s = host + "/"@ + owner + "/"@ + name;
            &&& text::pieces(s, '/') == seq![host, owner, name]
            &&& text::halves(s, '/') == Some((host, owner + "/"@ + name))
            &&& text::trimmed(s) == s
            &&& text::find_pattern(s, "://"@) is None
            &&& s.len() == host.len() + owner.len() + name.len() + 2
        }),
{
    reveal_strlit("/");
    reveal_strlit("://");
    let s = host + "/"@ + owner + "/"@ + name;
    let tail = owner + "/"@ + name;
    assert(tail =~= owner.push('/') + name);
    assert(s =~= host.push('/') + tail);
    text::lemma_pieces_single(name, '/');
    text::lemma_pieces_head(owner, '/', name);
    text::lemma_pieces_head(host, '/', tail);
    assert(seq![host] + (seq![owner] + seq![name]) =~= seq![host, owner, name]);
    assert(s[0] == host[0]);
    assert(s.last() == name.last());
    assert(!text::whitespace(host[0]));
    assert(!text::whitespace(name[name.len() - 1]));
    text::lemma_trimmed_fixed(s);
    text::lemma_find_pattern(s, "://"@);
    if let Some(i) = text::find_pattern(s, "://"@) {
        let t = s.skip(i);
        assert("://"@ =~= t.subrange(0, 3));
        assert("://"@[1] == t.subrange(0, 3)[1] && "://"@[2] == t.subrange(0, 3)[2]);
        assert(t[1] == s[i + 1] && t[2] == s[i + 2]);
        assert(s[i + 1] == '/' && s[i + 2] == '/');
        let h = host.len();
        let o = owner.len();
        assert forall|k: int| 0 <= k < s.len() && #[trigger] s[k] == '/' implies k == h || k == h
            + 1 + o by {
            if k < h {
                assert(s[k] == host[k]);
                assert(host.contains(host[k]));
            } else if h < k < h + 1 + o {
                assert(s[k] == owner[k - h - 1]);
                assert(owner.contains(owner[k - h - 1]));
            } else if k > h + 1 + o {
                assert(s[k] == name[k - h - o - 2]);
                assert(name.contains(name[k - h - o - 2]));
            }
        }
    }
}

/// A canonical name reads back as the identity that it was written for. The one
/// exception is a host whose first `:` is its last character, which reads as
/// the authority of a remote.
pub proof fn law_canonical_name_reads_back(repo: RepositoryView, alias: Option<Seq<char>>)
    requires
        segment(repo.host),
        segment(repo.owner),
        segment(repo.name),
        text::index_of(repo.host, ':') + 1 != repo.host.len(),
    ensures
        parsed_repository(canonical_name(repo), alias) == Ok::<RepositoryView, SwarmErrorView>(
            (RepositoryView {
                host: repo.host,
                owner: repo.owner,
                name: repo.name,
                alias: Some(chosen_alias(alias, repo.name)),
                remote_url: None,
                collapsed: false,
            }),
        ),
{
    let host = repo.host;
    let owner = repo.owner;
    let name = repo.name;
    let s = canonical_name(repo);
    reveal_strlit("/");
    lemma_three_segments(host, owner, name);
    assert(remote_reference(s) is None) by {
        let tail = owner + "/"@ + name;
        assert(s =~= host.push('/') + tail);
        assert forall|j: int| 0 <= j < host.len() implies s[j] != '/' by {
            assert(s[j] == host[j]);
            assert(host.contains(host[j]));
        }
        text::lemma_index_of_is(s, '/', host.len() as int);
        text::lemma_index_of(s, ':');
        let colon = text::index_of(s, ':');
        if colon < host.len() {
            assert forall|j: int| 0 <= j < colon implies host[j] != ':' by {
                assert(s[j] == host[j]);
            }
            assert(host[colon] == s[colon]);
            text::lemma_index_of_is(host, ':', colon);
            let h2 = host.skip(colon + 1);
            let path = s.skip(colon + 1);
            assert(path =~= h2.push('/') + tail);
            assert(path[0] == host[colon + 1]);
            assert(host.contains(host[colon + 1]));
            assert(path.last() == name.last());
            assert(name.contains(name.last()));
            assert(text::trimmed_char(path, '/') == path);
            assert forall|j: int| 0 <= j < h2.len() implies h2[j] != '/' by {
                assert(h2[j] == host[colon + 1 + j]);
                assert(host.contains(host[colon + 1 + j]));
            }
            text::lemma_pieces_head(h2, '/', tail);
            assert(tail[owner.len() as int] == '/');
            assert(tail.contains('/'));
        }
    }
    assert(canonical_reference(s) == Some((host, owner, name))) by {
        text::lemma_trimmed_fixed(host);
        text::lemma_trimmed_fixed(owner);
        text::lemma_trimmed_fixed(name);
        assert(!text::whitespace(host[0]) && !text::whitespace(host[host.len() - 1]));
        assert(!text::whitespace(owner[0]) && !text::whitespace(owner[owner.len() - 1]));
        assert(!text::whitespace(name[0]) && !text::whitespace(name[name.len() - 1]));
    }
}

/// The host that a short name stands for is a host.
proof fn lemma_remote_host(host: Seq<char>)
    requires
        segment(host),
        !host.contains('@'),
    ensures
        remote_host(host).len() > 0,
        !remote_host(host).contains('/'),
        !remote_host(host).contains('@'),
{
    reveal_strlit("github.com");
    reveal_strlit("gitlab.com");
    reveal_strlit("codeberg.org");
    reveal_strlit("bitbucket.org");
}

/// Where a name is followed by `.git`, the suffix is no part of the name.
proof fn lemma_url_path(owner: Seq<char>, name: Seq<char>)
    requires
        segment(owner),
        segment(name),
    ensures
        owner_and_name(owner + "/"@ + name + ".git"@) == Some((owner, name)),
        (owner + "/"@ + name + ".git"@).len() > 0,
{
    reveal_strlit("/");
    reveal_strlit(".git");
    let file = name + ".git"@;
    let path = owner + "/"@ + name + ".git"@;
    assert(path =~= owner.push('/') + file);
    assert(path[0] == owner[0]);
    assert(owner.contains(owner[0]));
    assert(path.last() == 't');
    assert(text::trimmed_char(path, '/') == path);
    text::lemma_pieces_head(owner, '/', file);
    assert forall|j: int| 0 <= j < file.len() implies file[j] != '/' by {
        if j < name.len() {
            assert(file[j] == name[j]);
            assert(name.contains(name[j]));
        }
    }
    assert(file.subrange(file.len() - 4, file.len() as int) =~= ".git"@);
    assert(file.take(file.len() - 4) =~= name);
}

proof fn lemma_url_reads_back(host: Seq<char>, owner: Seq<char>, name: Seq<char>)
    requires
        host.len() > 0,
        !host.contains('/'),
        !host.contains('@'),
        segment(owner),
        segment(name),
    ensures
        ({
            let url = "https://"@ + host + "/"@ + owner + "/"@ + name + ".git"@;
            &&& text::trimmed(url) == url
            &&& remote_reference(url) == Some((host, owner, name))
        }),
{
    let url = "https://"@ + host + "/"@ + owner + "/"@ + name + ".git"@;
    let path = owner + "/"@ + name + ".git"@;
    let rest = host + "/"@ + path;
    assert(url =~= "https://"@ + rest);
    lemma_url_path(owner, name);
    assert(text::halves(rest, '/') == Some((host, path))) by {
        reveal_strlit("/");
        assert(rest =~= host.push('/') + path);
        text::lemma_pieces_head(host, '/', path);
    }
    assert(text::trimmed(url) == url) by {
        reveal_strlit("https://");
        reveal_strlit(".git");
        assert(url[0] == 'h' && url.last() == 't');
        text::lemma_trimmed_fixed(url);
    }
    assert(text::find_pattern(url, "://"@) == Some(5int) && url.skip(8) == rest) by {
        reveal_strlit("https://");
        reveal_strlit("://");
        text::lemma_find_pattern(url, "://"@);
        assert("://"@ =~= url.skip(5).subrange(0, 3));
        let found = text::find_pattern(url, "://"@);
        assert(found is Some);
        let i = found->0;
        if i < 5 {
            assert("://"@[0] == url.skip(i).subrange(0, 3)[0]);
            assert(url[i] == ':');
        }
        if i > 5 {
            assert(!"://"@.is_prefix_of(url.skip(5)));
        }
        assert(url.skip(8) =~= rest);
    }
    assert forall|j: int| 0 <= j < host.len() implies host[j] != '@' by {
        assert(host.contains(host[j]));
    }
    text::lemma_last_index_of_is(host, '@', -1);
}

/// The remote that an identity gives reads back as that identity, with the host
/// that the short name stands for.
pub proof fn law_remote_url_reads_back(repo: RepositoryView, alias: Option<Seq<char>>)
    requires
        segment(repo.host),
        !repo.host.contains('@'),
        segment(repo.owner),
        segment(repo.name),
        repo.remote_url is None,
    ensures
        parsed_repository(fetch_url(repo), alias) == Ok::<RepositoryView, SwarmErrorView>(
            (RepositoryView {
                host: remote_host(repo.host),
                owner: repo.owner,
                name: repo.name,
                alias: Some(chosen_alias(alias, repo.name)),
                remote_url: Some(fetch_url(repo)),
                collapsed: false,
            }),
        ),
{
    lemma_remote_host(repo.host);
    lemma_url_reads_back(remote_host(repo.host), repo.owner, repo.name);
}

/// A repository that was added is found by its alias.
pub proof fn law_added_repository_is_found_by_alias(
    rows: Seq<RepositoryView>,
    repo: RepositoryView,
)
    requires
        ordered(rows),
        aliases_unique(rows),
        conflict(rows, repo) is None,
        repo.alias is Some,
    ensures
        resolved(with_repository(rows, repo), repo.alias->0) == Some(repo),
{
    lemma_with_repository(rows, repo);
    let out = with_repository(rows, repo);
    let p = comes_after(identity(repo));
    seqs::lemma_first_index(rows, p);
    let k = seqs::first_index(rows, p);
    let a = has_alias(repo.alias->0);
    assert(out[k] == repo);
    assert forall|j: int| 0 <= j < k implies !a(#[trigger] out[j]) by {
        assert(out[j].alias is Some ==> out[j].alias != out[k].alias);
    }
    seqs::lemma_first_index_is(out, a, k);
}

/// A repository that was added is found by its canonical name, unless another
/// one has that text for an alias.
pub proof fn law_added_repository_is_found_by_name(rows: Seq<RepositoryView>, repo: RepositoryView)
    requires
        ordered(rows),
        aliases_unique(rows),
        conflict(rows, repo) is None,
        segment(repo.host),
        segment(repo.owner),
        segment(repo.name),
        text::index_of(repo.host, ':') + 1 != repo.host.len(),
        !seqs::any(with_repository(rows, repo), has_alias(canonical_name(repo))),
    ensures
        resolved(with_repository(rows, repo), canonical_name(repo)) == Some(repo),
{
    lemma_with_repository(rows, repo);
    let out = with_repository(rows, repo);
    law_canonical_name_reads_back(repo, Some("placeholder"@));
    seqs::lemma_first_index(out, has_alias(canonical_name(repo)));
    let p = comes_after(identity(repo));
    seqs::lemma_first_index(rows, p);
    let k = seqs::first_index(rows, p);
    let a = has_identity(identity(repo));
    assert(out[k] == repo);
    assert forall|j: int| 0 <= j < k implies !a(#[trigger] out[j]) by {
        lemma_identity_before(identity(out[j]), identity(out[k]));
    }
    seqs::lemma_first_index_is(out, a, k);
}

/// An alias is looked up before an identity: where some repository has the
/// reference for its alias, one with that alias is found.
pub proof fn law_alias_comes_first(rows: Seq<RepositoryView>, reference: Seq<char>)
    requires
        seqs::any(rows, has_alias(reference)),
    ensures
        resolved(rows, reference) matches Some(repo) && repo.alias == Some(reference)
            && rows.contains(repo),
{
    seqs::lemma_first_index(rows, has_alias(reference));
}

/// A repository that is already known, or whose alias is taken, is refused.
pub proof fn law_duplicates_are_refused(rows: Seq<RepositoryView>, repo: RepositoryView)
    ensures
        rows.contains(repo) ==> conflict(rows, repo) is Some,
        conflict(rows, repo) is Some <==> exists|i: int|
            0 <= i < rows.len() && (identity(#[trigger] rows[i]) == identity(repo) || (
            repo.alias is Some && rows[i].alias == repo.alias)),
{
    if rows.contains(repo) {
        let i = choose|i: int| 0 <= i < rows.len() && rows[i] == repo;
        assert(has_identity(identity(repo))(rows[i]));
    }
    if conflict(rows, repo) is Some {
        if seqs::any(rows, has_identity(identity(repo))) {
            let i = choose|i: int|
                0 <= i < rows.len() && has_identity(identity(repo))(#[trigger] rows[i]);
            assert(identity(rows[i]) == identity(repo));
        } else {
            let i = choose|i: int|
                0 <= i < rows.len() && has_alias(repo.alias->0)(#[trigger] rows[i]);
            assert(rows[i].alias == repo.alias);
        }
    }
    if exists|i: int|
        0 <= i < rows.len() && (identity(#[trigger] rows[i]) == identity(repo) || (
        repo.alias is Some && rows[i].alias == repo.alias)) {
        let i = choose|i: int|
            0 <= i < rows.len() && (identity(#[trigger] rows[i]) == identity(repo) || (
            repo.alias is Some && rows[i].alias == repo.alias));
        if identity(rows[i]) == identity(repo) {
            assert(has_identity(identity(repo))(rows[i]));
        } else {
            assert(has_alias(repo.alias->0)(rows[i]));
        }
    }
}

/// Forgetting a repository that was just added gives the rows back.
pub proof fn law_remove_undoes_add(rows: Seq<RepositoryView>, repo: RepositoryView)
    requires
        ordered(rows),
        aliases_unique(rows),
        conflict(rows, repo) is None,
    ensures
        without_repository(with_repository(rows, repo), identity(repo)) == rows,
{
    lemma_with_repository(rows, repo);
    let out = with_repository(rows, repo);
    let p = comes_after(identity(repo));
    seqs::lemma_first_index(rows, p);
    let k = seqs::first_index(rows, p);
    let a = has_identity(identity(repo));
    assert(out[k] == repo);
    assert forall|j: int| 0 <= j < k implies !a(#[trigger] out[j]) by {
        lemma_identity_before(identity(out[j]), identity(out[k]));
    }
    seqs::lemma_first_index_is(out, a, k);
    assert(out.remove(k) =~= rows);
}

/// Forgetting a repository leaves every other one and nothing of it.
pub proof fn law_removed_repository_is_gone(
    rows: Seq<RepositoryView>,
    id: (Seq<char>, Seq<char>, Seq<char>),
)
    requires
        ordered(rows),
    ensures
        !seqs::any(without_repository(rows, id), has_identity(id)),
        forall|repo: RepositoryView|
            identity(repo) != id ==> (#[trigger] rows.contains(repo) <==> without_repository(
                rows,
                id,
            ).contains(repo)),
{
    let a = has_identity(id);
    seqs::lemma_first_index(rows, a);
    let k = seqs::first_index(rows, a);
    let out = without_repository(rows, id);
    if k < rows.len() {
        assert forall|j: int| 0 <= j < out.len() implies !a(#[trigger] out[j]) by {
            if j >= k {
                assert(out[j] == rows[j + 1]);
                assert(identity_before(identity(rows[k]), identity(rows[j + 1])));
                lemma_identity_before(identity(rows[k]), identity(rows[j + 1]));
            } else {
                assert(out[j] == rows[j]);
            }
        }
        assert forall|repo: RepositoryView| identity(repo) != id implies (
        #[trigger] rows.contains(repo) <==> out.contains(repo)) by {
            if rows.contains(repo) {
                let i = choose|i: int| 0 <= i < rows.len() && rows[i] == repo;
                if i < k {
                    assert(out[i] == repo);
                } else {
                    assert(i != k);
                    assert(out[i - 1] == repo);
                }
            }
            if out.contains(repo) {
                let i = choose|i: int| 0 <= i < out.len() && out[i] == repo;
                if i < k {
                    assert(rows[i] == repo);
                } else {
                    assert(rows[i + 1] == repo);
                }
            }
        }
    }
}

/// Collapsing changes nothing but the flag, and expanding undoes it.
pub proof fn law_expand_undoes_collapse(
    rows: Seq<RepositoryView>,
    id: (Seq<char>, Seq<char>, Seq<char>),
)
    ensures
        with_collapsed(with_collapsed(rows, id, true), id, false) == with_collapsed(
            rows,
            id,
            false,
        ),
        (forall|i: int|
            0 <= i < rows.len() && identity(#[trigger] rows[i]) == id ==> !rows[i].collapsed)
            ==> with_collapsed(with_collapsed(rows, id, true), id, false) == rows,
{
    let up = with_collapsed(rows, id, true);
    assert forall|i: int| 0 <= i < rows.len() implies identity(#[trigger] up[i]) == identity(
        rows[i],
    ) by {}
    assert(with_collapsed(up, id, false) =~= with_collapsed(rows, id, false));
    if forall|i: int|
        0 <= i < rows.len() && identity(#[trigger] rows[i]) == id ==> !rows[i].collapsed {
        assert(with_collapsed(rows, id, false) =~= rows);
    }
}

proof fn lemma_repository_dir(repos_dir: Seq<char>, repo: RepositoryView) -> (base: Seq<char>)
    requires
        segment(repo.host),
        segment(repo.owner),
        segment(repo.name),
    ensures
        repository_dir(repos_dir, repo) == base + canonical_name(repo),
        base == (if repos_dir.len() == 0 || repos_dir.last() == '/' {
            repos_dir
        } else {
            repos_dir.push('/')
        }),
{
    reveal_strlit("/");
    let base = if repos_dir.len() == 0 || repos_dir.last() == '/' {
        repos_dir
    } else {
        repos_dir.push('/')
    };
    assert(repo.host.contains(repo.host[0]));
    assert(repo.owner.contains(repo.owner[0]));
    assert(repo.name.contains(repo.name[0]));
    assert(repo.host.contains(repo.host.last()));
    assert(repo.owner.contains(repo.owner.last()));
    let d = paths::joined_path(repos_dir, repo.host);
    assert(d == base + repo.host);
    assert(d.last() == repo.host.last());
    let e = paths::joined_path(d, repo.owner);
    assert(e == d.push('/') + repo.owner);
    assert(e.last() == repo.owner.last());
    assert(repository_dir(repos_dir, repo) =~= base + canonical_name(repo));
    base
}

/// Two repositories share a directory only if they share their identity: the
/// place on disk is that of the identity, whatever the alias.
pub proof fn law_repository_dirs_are_apart(
    repos_dir: Seq<char>,
    a: RepositoryView,
    b: RepositoryView,
)
    requires
        segment(a.host),
        segment(a.owner),
        segment(a.name),
        segment(b.host),
        segment(b.owner),
        segment(b.name),
    ensures
        repository_dir(repos_dir, a) == repository_dir(repos_dir, b) <==> identity(a) == identity(
            b,
        ),
{
    let base = lemma_repository_dir(repos_dir, a);
    let same_base = lemma_repository_dir(repos_dir, b);
    lemma_three_segments(a.host, a.owner, a.name);
    lemma_three_segments(b.host, b.owner, b.name);
    if repository_dir(repos_dir, a) == repository_dir(repos_dir, b) {
        let x = canonical_name(a);
        let y = canonical_name(b);
        assert(x =~= (base + x).skip(base.len() as int));
        assert(y =~= (base + y).skip(base.len() as int));
        let p = text::pieces(x, '/');
        assert(p[0] == a.host && p[1] == a.owner && p[2] == a.name);
        assert(p[0] == b.host && p[1] == b.owner && p[2] == b.name);
    }
}

proof fn lemma_remote_path(owner: Seq<char>, name: Seq<char>, suffix: Seq<char>)
    requires
        segment(owner),
        segment(name),
        suffix == ".git"@ || (suffix.len() == 0 && !".git"@.is_suffix_of(name)),
    ensures
        owner_and_name(owner + "/"@ + name + suffix) == Some((owner, name)),
{
    if suffix == ".git"@ {
        lemma_url_path(owner, name);
    } else {
        reveal_strlit("/");
        let path = owner + "/"@ + name;
        assert(owner + "/"@ + name + suffix =~= path);
        assert(path =~= owner.push('/') + name);
        assert(path[0] == owner[0]);
        assert(owner.contains(owner[0]));
        assert(path.last() == name.last());
        assert(name.contains(name.last()));
        assert(text::trimmed_char(path, '/') == path);
        text::lemma_pieces_head(owner, '/', name);
    }
}

proof fn lemma_authority(user: Seq<char>, host: Seq<char>)
    requires
        !host.contains('@'),
    ensures
        authority_host(user + seq!['@'] + host) == host,
        authority_host(host) == host,
{
    text::law_cutting_at_a_character(user, '@', host);
    text::law_cutting_at_a_character(host, '@', host);
}

/// A remote is read as the host behind a user that may stand before it, the owner and the
/// name, with `.git` behind it or without, whatever its scheme, and is kept as it was
/// written.
#[verifier::spinoff_prover]
#[verifier::rlimit(40)]
pub proof fn law_remotes_are_read(
    scheme: Seq<char>,
    user: Option<Seq<char>>,
    host: Seq<char>,
    owner: Seq<char>,
    name: Seq<char>,
    suffix: Seq<char>,
    alias: Option<Seq<char>>,
)
    requires
        scheme.len() > 0,
        !text::whitespace(scheme[0]),
        !scheme.contains(':'),
        user matches Some(user) ==> !user.contains('/'),
        host.len() > 0,
        !host.contains('/'),
        !host.contains('@'),
        segment(owner),
        segment(name),
        suffix == ".git"@ || (suffix.len() == 0 && !".git"@.is_suffix_of(name)),
    ensures
        ({
            let authority = match user {
                Some(user) => user + seq!['@'] + host,
                None => host,
            };
            let url = scheme + "://"@ + authority + "/"@ + owner + "/"@ + name + suffix;
            parsed_repository(url, alias) == Ok::<RepositoryView, SwarmErrorView>(
                (RepositoryView {
                    host,
                    owner,
                    name,
                    alias: Some(chosen_alias(alias, name)),
                    remote_url: Some(url),
                    collapsed: false,
                }),
            )
        }),
{
    reveal_strlit("/");
    reveal_strlit("://");
    reveal_strlit(".git");
    let authority = match user {
        Some(user) => user + seq!['@'] + host,
        None => host,
    };
    let path = owner + "/"@ + name + suffix;
    let rest = authority + "/"@ + path;
    let url = scheme + "://"@ + authority + "/"@ + owner + "/"@ + name + suffix;
    assert(url =~= scheme + "://"@ + rest);
    lemma_remote_path(owner, name, suffix);
    lemma_authority(
        match user {
            Some(user) => user,
            None => seq![],
        },
        host,
    );
    assert(!authority.contains('/')) by {
        if authority.contains('/') {
            let k = choose|k: int| 0 <= k < authority.len() && authority[k] == '/';
            match user {
                Some(user) => {
                    if k < user.len() {
                        assert(user.contains(user[k]));
                    } else if k > user.len() {
                        assert(host.contains(host[k - user.len() - 1]));
                    }
                },
                None => {},
            }
        }
    }
    assert(rest =~= authority.push('/') + path);
    text::lemma_pieces_head(authority, '/', path);
    assert(url[0] == scheme[0]);
    assert(url.last() == if suffix.len() > 0 {
        't'
    } else {
        name.last()
    });
    assert(!text::whitespace(name[name.len() - 1]));
    text::lemma_trimmed_fixed(url);
    let n = scheme.len() as int;
    text::lemma_find_pattern(url, "://"@);
    assert(url.skip(n).subrange(0, 3) =~= "://"@);
    assert("://"@.is_prefix_of(url.skip(n)));
    let found = text::find_pattern(url, "://"@);
    assert(found is Some);
    let i = found->0;
    if i < n {
        assert("://"@[0] == url.skip(i).subrange(0, 3)[0]);
        assert(url[i] == ':');
        assert(scheme.contains(scheme[i]));
    }
    assert(i == n);
    assert(url.skip(n + 3) =~= rest);
    assert(path.len() > 0);
}

/// The short form of a remote, `host:owner/name` with a user before the host or without, is
/// read in the same way.
#[verifier::spinoff_prover]
#[verifier::rlimit(40)]
pub proof fn law_short_remotes_are_read(
    user: Option<Seq<char>>,
    host: Seq<char>,
    owner: Seq<char>,
    name: Seq<char>,
    suffix: Seq<char>,
    alias: Option<Seq<char>>,
)
    requires
        user matches Some(user) ==> user.len() > 0 && !text::whitespace(user[0]) && !user.contains(
            '/',
        ) && !user.contains(':'),
        host.len() > 0,
        !text::whitespace(host[0]),
        !host.contains('/'),
        !host.contains('@'),
        !host.contains(':'),
        segment(owner),
        segment(name),
        suffix == ".git"@ || (suffix.len() == 0 && !".git"@.is_suffix_of(name)),
    ensures
        ({
            let authority = match user {
                Some(user) => user + seq!['@'] + host,
                None => host,
            };
            let remote = authority + ":"@ + owner + "/"@ + name + suffix;
            parsed_repository(remote, alias) == Ok::<RepositoryView, SwarmErrorView>(
                (RepositoryView {
                    host,
                    owner,
                    name,
                    alias: Some(chosen_alias(alias, name)),
                    remote_url: Some(remote),
                    collapsed: false,
                }),
            )
        }),
{
    reveal_strlit("/");
    reveal_strlit(":");
    reveal_strlit("://");
    reveal_strlit(".git");
    let authority = match user {
        Some(user) => user + seq!['@'] + host,
        None => host,
    };
    let path = owner + "/"@ + name + suffix;
    let remote = authority + ":"@ + owner + "/"@ + name + suffix;
    assert(remote =~= authority + ":"@ + path);
    lemma_remote_path(owner, name, suffix);
    lemma_authority(
        match user {
            Some(user) => user,
            None => seq![],
        },
        host,
    );
    let n = authority.len() as int;
    assert forall|k: int| 0 <= k < n implies remote[k] != '/' && remote[k] != ':' by {
        match user {
            Some(user) => {
                if k < user.len() {
                    assert(user.contains(user[k]));
                    assert(remote[k] == user[k]);
                } else if k > user.len() {
                    assert(host.contains(host[k - user.len() - 1]));
                }
            },
            None => {
                assert(host.contains(host[k]));
            },
        }
    }
    assert(remote[n] == ':');
    text::lemma_index_of_is(remote, ':', n);
    let slash = n + 1 + owner.len();
    assert forall|k: int| 0 <= k < slash implies remote[k] != '/' by {
        if k > n {
            assert(owner.contains(owner[k - n - 1]));
        }
    }
    assert(remote[slash] == '/');
    text::lemma_index_of_is(remote, '/', slash);
    text::lemma_find_pattern(remote, "://"@);
    if let Some(i) = text::find_pattern(remote, "://"@) {
        let t = remote.skip(i).subrange(0, 3);
        assert("://"@ =~= t);
        assert(t[1] == '/' && t[2] == '/');
        assert(remote[i + 1] == '/' && remote[i + 2] == '/');
        assert forall|k: int| slash < k < remote.len() implies remote[k] != '/' by {
            let at = k - slash - 1;
            if at < name.len() {
                assert(name.contains(name[at]));
            }
        }
        assert(i + 1 == slash);
        assert(false);
    }
    assert(remote.take(n) =~= authority);
    assert(remote.skip(n + 1) =~= path);
    assert(remote[0] == authority[0]);
    assert(remote.last() == if suffix.len() > 0 {
        't'
    } else {
        name.last()
    });
    assert(!text::whitespace(name[name.len() - 1]));
    text::lemma_trimmed_fixed(remote);
}

/// White space around what is added does not count, and what names no repository is refused
/// as it reads without it.
pub proof fn law_repository_is_read_without_white_space(
    front: Seq<char>,
    input: Seq<char>,
    back: Seq<char>,
    alias: Option<Seq<char>>,
)
    requires
        text::blank(front),
        text::blank(back),
        input.len() > 0 ==> !text::whitespace(input[0]) && !text::whitespace(input.last()),
    ensures
        parsed_repository(front + input + back, alias) == parsed_repository(input, alias),
        parsed_repository(input, alias) matches Err(e) ==> e == SwarmErrorView::InvalidRepository(
            input,
        ),
        !input.contains('/') ==> parsed_repository(input, alias) is Err,
{
    text::law_trimming_keeps_the_inside(front, input, back);
    text::lemma_trimmed_fixed(input);
    if !input.contains('/') {
        text::lemma_pieces_single(input, '/');
        text::lemma_index_of(input, '/');
        if text::index_of(input, '/') < input.len() {
            assert(input.contains(input[text::index_of(input, '/')]));
        }
        reveal_strlit("://");
        text::lemma_find_pattern(input, "://"@);
        if let Some(i) = text::find_pattern(input, "://"@) {
            let t = input.skip(i).subrange(0, 3);
            assert("://"@ =~= t);
            assert(t[1] == input[i + 1]);
            assert(input.contains(input[i + 1]));
        }
    }
}

/// A repository gets the alias that was asked for, without white space around it; a blank one
/// counts as none, and without one the repository's name takes its place.
pub proof fn law_alias_is_the_one_asked_for(
    front: Seq<char>,
    alias: Seq<char>,
    back: Seq<char>,
    name: Seq<char>,
)
    requires
        text::blank(front),
        text::blank(back),
        alias.len() > 0 ==> !text::whitespace(alias[0]) && !text::whitespace(alias.last()),
    ensures
        alias.len() > 0 ==> chosen_alias(Some(front + alias + back), name) == alias,
        chosen_alias(Some(front), name) == name,
        chosen_alias(None, name) == name,
{
    text::law_trimming_keeps_the_inside(front, alias, back);
    text::lemma_trimmed_blank(front);
}

/// A repository is fetched from the remote that was given; without one, over `https` from the
/// host that its short name stands for.
pub proof fn law_remote_written_out(repo: RepositoryView)
    ensures
        repo.remote_url matches Some(url) ==> fetch_url(repo) == url,
        repo.remote_url is None ==> fetch_url(repo) == "https://"@ + remote_host(repo.host) + "/"@
            + repo.owner + "/"@ + repo.name + ".git"@,
        remote_host("github"@) == "github.com"@,
        remote_host("gitlab"@) == "gitlab.com"@,
        remote_host("codeberg"@) == "codeberg.org"@,
        remote_host("bitbucket"@) == "bitbucket.org"@,
        !seq!["github"@, "gitlab"@, "codeberg"@, "bitbucket"@].contains(repo.host) ==> remote_host(
            repo.host,
        ) == repo.host,
        canonical_name(repo) == repo.host + "/"@ + repo.owner + "/"@ + repo.name,
        shown_name(repo) == (if repo.alias is Some {
            repo.alias->0
        } else {
            repo.name
        }),
{
    reveal_strlit("github");
    reveal_strlit("gitlab");
    reveal_strlit("codeberg");
    reveal_strlit("bitbucket");
    assert("github"@[3] == 'h' && "gitlab"@[3] == 'l');
    assert("codeberg"@.len() == 8 && "bitbucket"@.len() == 9 && "github"@.len() == 6
        && "gitlab"@.len() == 6);
    let known = seq!["github"@, "gitlab"@, "codeberg"@, "bitbucket"@];
    assert(known[0] == "github"@ && known[1] == "gitlab"@ && known[2] == "codeberg"@ && known[3]
        == "bitbucket"@);
}

/// The state is kept below the data directory: the repositories in `repos`, the index in
/// `index.db`, and each repository in the directory of its host, its owner and its name.
pub proof fn law_layout_written_out(data_dir: Seq<char>, repo: RepositoryView)
    requires
        data_dir.len() > 0,
        data_dir.last() != '/',
        segment(repo.host),
        segment(repo.owner),
        segment(repo.name),
    ensures
        layout(data_dir) == (SwarmPathsView {
            data_dir,
            repos_dir: data_dir + "/repos"@,
            index_db_path: data_dir + "/index.db"@,
        }),
        repository_dir(layout(data_dir).repos_dir, repo) == data_dir + "/repos/"@ + repo.host
            + "/"@ + repo.owner + "/"@ + repo.name,
{
    reveal_strlit("repos");
    reveal_strlit("/repos");
    reveal_strlit("/repos/");
    reveal_strlit("index.db");
    reveal_strlit("/index.db");
    reveal_strlit("/");
    assert(data_dir.push('/') + "repos"@ =~= data_dir + "/repos"@);
    assert(data_dir.push('/') + "index.db"@ =~= data_dir + "/index.db"@);
    let base = lemma_repository_dir(layout(data_dir).repos_dir, repo);
    assert(base + canonical_name(repo) =~= data_dir + "/repos/"@ + repo.host + "/"@ + repo.owner
        + "/"@ + repo.name);
}

/// The metadata of a repository, line by line: an alias and a remote only where there are any.
pub proof fn law_metadata_written_out(
    host: Seq<char>,
    owner: Seq<char>,
    name: Seq<char>,
    canonical: Seq<char>,
    alias: Seq<char>,
    remote_url: Seq<char>,
)
    ensures
        ({
            let head = "host = "@ + host + "\nowner = "@ + owner + "\nname = "@ + name
                + "\ncanonical = "@ + canonical + "\n"@;
            &&& meta_toml(host, owner, name, canonical, None, None) == head
            &&& meta_toml(host, owner, name, canonical, Some(alias), None) == head + "alias = "@
                + alias + "\n"@
            &&& meta_toml(host, owner, name, canonical, None, Some(remote_url)) == head
                + "remote_url = "@ + remote_url + "\n"@
            &&& meta_toml(host, owner, name, canonical, Some(alias), Some(remote_url)) == head
                + "alias = "@ + alias + "\nremote_url = "@ + remote_url + "\n"@
        }),
{
    reveal_strlit("host");
    reveal_strlit("host = ");
    reveal_strlit("owner");
    reveal_strlit("\nowner = ");
    reveal_strlit("name");
    reveal_strlit("\nname = ");
    reveal_strlit("canonical");
    reveal_strlit("\ncanonical = ");
    reveal_strlit("alias");
    reveal_strlit("alias = ");
    reveal_strlit("remote_url");
    reveal_strlit("remote_url = ");
    reveal_strlit("\nremote_url = ");
    reveal_strlit(" = ");
    reveal_strlit("\n");
    let a = "host = "@ + host;
    assert(meta_line("host"@, host) =~= a + "\n"@);
    let b = a + "\nowner = "@ + owner;
    assert(a + "\n"@ + meta_line("owner"@, owner) =~= b + "\n"@);
    let c = b + "\nname = "@ + name;
    assert(b + "\n"@ + meta_line("name"@, name) =~= c + "\n"@);
    let head = c + "\ncanonical = "@ + canonical + "\n"@;
    assert(c + "\n"@ + meta_line("canonical"@, canonical) =~= head);
    let aliased = head + "alias = "@ + alias;
    assert(head + meta_line("alias"@, alias) =~= aliased + "\n"@);
    assert(head + meta_line("remote_url"@, remote_url) =~= head + "remote_url = "@ + remote_url
        + "\n"@);
    assert(aliased + "\n"@ + meta_line("remote_url"@, remote_url) =~= aliased + "\nremote_url = "@
        + remote_url + "\n"@);
}

/// An index gets exactly the columns that it lacks, `collapsed` before `remote_url`.
pub proof fn law_index_migrations_written_out(columns: Seq<Seq<char>>)
    ensures
        ({
            let collapsed = (
                "add collapsed column"@,
                "ALTER TABLE repos ADD COLUMN collapsed INTEGER NOT NULL DEFAULT 0"@,
            );
            let remote = (
                "add remote_url column"@,
                "ALTER TABLE repos ADD COLUMN remote_url TEXT"@,
            );
            let has = |column: Seq<char>| exists|i: int|
                0 <= i < columns.len() && #[trigger] columns[i] == column;
            index_migrations(columns) == (if has("collapsed"@) {
                Seq::<(Seq<char>, Seq<char>)>::empty()
            } else {
                seq![collapsed]
            }) + (if has("remote_url"@) {
                Seq::<(Seq<char>, Seq<char>)>::empty()
            } else {
                seq![remote]
            })
        }),
{
    assert(index_migrations(columns) =~= (if columns.contains("collapsed"@) {
        Seq::<(Seq<char>, Seq<char>)>::empty()
    } else {
        seq![
            (
                "add collapsed column"@,
                "ALTER TABLE repos ADD COLUMN collapsed INTEGER NOT NULL DEFAULT 0"@,
            ),
        ]
    }) + (if columns.contains("remote_url"@) {
        Seq::<(Seq<char>, Seq<char>)>::empty()
    } else {
        seq![("add remote_url column"@, "ALTER TABLE repos ADD COLUMN remote_url TEXT"@)]
    }));
}

/// A repository that is refused is refused for the first of two reasons: one with its identity
/// is known, or one with its alias.
pub proof fn law_reasons_to_refuse(rows: Seq<RepositoryView>, repo: RepositoryView)
    ensures
        ({
            let known = exists|i: int|
                0 <= i < rows.len() && (#[trigger] rows[i]).host == repo.host && rows[i].owner
                    == repo.owner && rows[i].name == repo.name;
            let taken = repo.alias is Some && exists|i: int|
                0 <= i < rows.len() && (#[trigger] rows[i]).alias == repo.alias;
            conflict(rows, repo) == (if known {
                Some(
                    SwarmErrorView::DuplicateRepository(
                        repo.host + "/"@ + repo.owner + "/"@ + repo.name,
                    ),
                )
            } else if taken {
                Some(SwarmErrorView::DuplicateAlias(repo.alias->0))
            } else {
                None
            })
        }),
{
}

/// A reference is an alias first; where no repository has it, it is read as the name of one,
/// and the repository with that identity is found.
pub proof fn law_references_are_resolved(rows: Seq<RepositoryView>, reference: Seq<char>)
    ensures
        match resolved(rows, reference) {
            Some(repo) => rows.contains(repo) && (repo.alias == Some(reference) || ((forall|i: int|
                0 <= i < rows.len() ==> (#[trigger] rows[i]).alias != Some(reference))
                && (parsed_repository(reference, None) matches Ok(named) && named.host == repo.host
                && named.owner == repo.owner && named.name == repo.name))),
            None => (forall|i: int|
                0 <= i < rows.len() ==> (#[trigger] rows[i]).alias != Some(reference)) && (
            parsed_repository(reference, None) matches Ok(named) ==> forall|i: int|
                0 <= i < rows.len() ==> !((#[trigger] rows[i]).host == named.host && rows[i].owner
                    == named.owner && rows[i].name == named.name)),
        },
        required(rows, reference) == (match resolved(rows, reference) {
            Some(repo) => Ok(repo),
            None => Err(SwarmErrorView::RepositoryNotFound(reference)),
        }),
{
    seqs::lemma_first_index(rows, has_alias(reference));
    let i = seqs::first_index(rows, has_alias(reference));
    if i < rows.len() {
        assert(rows.contains(rows[i]));
    } else {
        assert forall|k: int| 0 <= k < rows.len() implies (#[trigger] rows[k]).alias != Some(
            reference,
        ) by {
            assert(!has_alias(reference)(rows[k]));
        }
        if let Ok(named) = parsed_repository(reference, Some("placeholder"@)) {
            let id = identity(named);
            seqs::lemma_first_index(rows, has_identity(id));
            let j = seqs::first_index(rows, has_identity(id));
            if j < rows.len() {
                assert(rows.contains(rows[j]));
            } else {
                assert forall|k: int| 0 <= k < rows.len() implies !((#[trigger] rows[k]).host
                    == named.host && rows[k].owner == named.owner && rows[k].name == named.name) by {
                    assert(!has_identity(id)(rows[k]));
                }
            }
        }
    }
}

/// Collapsing or expanding a repository sets its flag, and changes nothing else of it and
/// nothing of any other.
pub proof fn law_collapsing_sets_one_flag(
    rows: Seq<RepositoryView>,
    id: (Seq<char>, Seq<char>, Seq<char>),
    collapsed: bool,
    i: int,
)
    requires
        0 <= i < rows.len(),
    ensures
        ({
            let after = with_collapsed(rows, id, collapsed);
            &&& after.len() == rows.len()
            &&& after[i] == (RepositoryView {
                collapsed: if (rows[i].host, rows[i].owner, rows[i].name) == id {
                    collapsed
                } else {
                    rows[i].collapsed
                },
                ..rows[i]
            })
        }),
{
}

/// Repositories are ordered by their hosts, then by their owners, then by their names.
pub proof fn law_order_of_repositories(a: RepositoryView, b: RepositoryView)
    ensures
        identity_before(identity(a), identity(b)) <==> (if a.host != b.host {
            text::before(a.host, b.host)
        } else if a.owner != b.owner {
            text::before(a.owner, b.owner)
        } else {
            text::before(a.name, b.name)
        }),
{
    text::lemma_before_total(a.host, b.host);
    text::lemma_before_total(a.owner, b.owner);
}

/// What is read has an owner and a name of at least one character, without a separator and
/// without white space, and a host without a separator. A remote is kept as it was written,
/// without white space around it. Anything else is three parts with a separator between them,
/// neither fewer nor more: the host, the owner and the name, each with or without white space
/// around it.
pub proof fn law_what_is_read_is_plain(
    input: Seq<char>,
    alias: Option<Seq<char>>,
    repo: RepositoryView,
)
    requires
        parsed_repository(input, alias) == Ok::<RepositoryView, SwarmErrorView>(repo),
    ensures
        repo.owner.len() > 0 && !repo.owner.contains('/') && !text::has_whitespace(repo.owner),
        repo.name.len() > 0 && !repo.name.contains('/') && !text::has_whitespace(repo.name),
        !repo.host.contains('/'),
        !repo.collapsed,
        repo.remote_url matches Some(url) ==> url == text::trimmed(input),
        repo.remote_url is None ==> ({
            let parts = text::pieces(text::trimmed(input), '/');
            &&& parts.len() == 3
            &&& repo.host == text::trimmed(parts[0])
            &&& repo.owner == text::trimmed(parts[1])
            &&& repo.name == text::trimmed(parts[2])
            &&& repo.host.len() > 0 && !text::has_whitespace(repo.host)
        }),
{
    let reference = text::trimmed(input);
    match remote_reference(reference) {
        Some(_) => {
            lemma_remote_is_plain(reference);
        },
        None => {
            let parts = text::pieces(reference, '/');
            text::law_pieces_make_up_the_text(reference, '/');
            assert(!parts[0].contains('/') && !parts[1].contains('/') && !parts[2].contains('/'));
            lemma_trimmed_without(parts[0], '/');
            lemma_trimmed_without(parts[1], '/');
            lemma_trimmed_without(parts[2], '/');
        },
    }
}

proof fn lemma_trimmed_without(s: Seq<char>, c: char)
    requires
        !s.contains(c),
    ensures
        !text::trimmed(s).contains(c),
{
    text::lemma_trimmed(s);
    let t = text::trimmed(s);
    let i = choose|i: int|
        0 <= i && i + t.len() <= s.len() && t == #[trigger] s.subrange(i, i + t.len());
    if t.contains(c) {
        let k = choose|k: int| 0 <= k < t.len() && t[k] == c;
        assert(s[i + k] == c);
    }
}

proof fn lemma_remote_is_plain(reference: Seq<char>)
    requires
        remote_reference(reference) is Some,
    ensures
        ({
            let (host, owner, name) = remote_reference(reference)->0;
            &&& owner.len() > 0 && !owner.contains('/') && !text::has_whitespace(owner)
            &&& name.len() > 0 && !name.contains('/') && !text::has_whitespace(name)
            &&& !host.contains('/')
        }),
{
    match text::find_pattern(reference, "://"@) {
        Some(i) => {
            let rest = reference.skip(i + 3);
            let (authority, path) = text::halves(rest, '/')->0;
            text::lemma_index_of(rest, '/');
            assert forall|k: int| 0 <= k < authority.len() implies authority[k] != '/' by {
                assert(authority[k] == rest[k]);
            }
            lemma_host_is_plain(authority);
            lemma_path_is_plain(path);
        },
        None => {
            let colon = text::index_of(reference, ':');
            let slash = text::index_of(reference, '/');
            text::lemma_index_of(reference, ':');
            text::lemma_index_of(reference, '/');
            let authority = reference.take(colon);
            assert forall|k: int| 0 <= k < authority.len() implies authority[k] != '/' by {
                assert(authority[k] == reference[k]);
            }
            lemma_host_is_plain(authority);
            lemma_path_is_plain(reference.skip(colon + 1));
        },
    }
}

proof fn lemma_host_is_plain(authority: Seq<char>)
    requires
        !authority.contains('/'),
    ensures
        !authority_host(authority).contains('/'),
{
    if let Some((_, host)) = text::last_halves(authority, '@') {
        text::lemma_last_index_of(authority, '@');
        let at = text::last_index_of(authority, '@');
        assert(host == authority.skip(at + 1));
        if host.contains('/') {
            let k = choose|k: int| 0 <= k < host.len() && host[k] == '/';
            assert(authority[at + 1 + k] == '/');
        }
    }
}

proof fn lemma_path_is_plain(path: Seq<char>)
    requires
        owner_and_name(path) is Some,
    ensures
        ({
            let (owner, name) = owner_and_name(path)->0;
            &&& owner.len() > 0 && !owner.contains('/') && !text::has_whitespace(owner)
            &&& name.len() > 0 && !name.contains('/') && !text::has_whitespace(name)
        }),
{
    let inner = text::trimmed_char(path, '/');
    let (owner, rest) = text::halves(inner, '/')->0;
    text::lemma_index_of(inner, '/');
    if owner.contains('/') {
        let k = choose|k: int| 0 <= k < owner.len() && owner[k] == '/';
        assert(inner[k] == '/');
    }
    let name = (owner_and_name(path)->0).1;
    if name.contains('/') {
        let k = choose|k: int| 0 <= k < name.len() && name[k] == '/';
        assert(rest[k] == name[k]);
        assert(rest.contains(rest[k]));
    }
}

/// An index is opened exactly where no two of its rows share an identity or an alias.
pub proof fn law_index_is_opened_without_duplicates(rows: Seq<RepositoryView>)
    ensures
        load_conflict(rows, 0) is None <==> forall|i: int, j: int|
            0 <= i < j < rows.len() ==> !((#[trigger] rows[i]).host == (#[trigger] rows[j]).host
                && rows[i].owner == rows[j].owner && rows[i].name == rows[j].name) && (
            rows[j].alias is Some ==> rows[i].alias != rows[j].alias),
{
    lemma_load_conflict(rows, 0);
    if load_conflict(rows, 0) is None {
        assert forall|i: int, j: int| 0 <= i < j < rows.len() implies !((#[trigger] rows[i]).host
            == (#[trigger] rows[j]).host && rows[i].owner == rows[j].owner && rows[i].name
            == rows[j].name) && (rows[j].alias is Some ==> rows[i].alias != rows[j].alias) by {
            assert(conflict(rows.take(j), rows[j]) is None);
            law_reasons_to_refuse(rows.take(j), rows[j]);
            assert(rows.take(j)[i] == rows[i]);
        }
    } else {
        let j = choose|j: int|
            0 <= j < rows.len() && conflict(rows.take(j), #[trigger] rows[j]) is Some;
        law_reasons_to_refuse(rows.take(j), rows[j]);
        let front = rows.take(j);
        let known = exists|i: int|
            0 <= i < front.len() && (#[trigger] front[i]).host == rows[j].host && front[i].owner
                == rows[j].owner && front[i].name == rows[j].name;
        if known {
            let i = choose|i: int|
                0 <= i < front.len() && (#[trigger] front[i]).host == rows[j].host
                    && front[i].owner == rows[j].owner && front[i].name == rows[j].name;
            assert(front[i] == rows[i]);
        } else {
            let i = choose|i: int|
                0 <= i < front.len() && (#[trigger] front[i]).alias == rows[j].alias;
            assert(front[i] == rows[i]);
        }
    }
}

proof fn lemma_load_conflict(rows: Seq<RepositoryView>, from: int)
    requires
        0 <= from <= rows.len(),
    ensures
        load_conflict(rows, from) is None <==> forall|j: int|
            from <= j < rows.len() ==> conflict(rows.take(j), #[trigger] rows[j]) is None,
    decreases rows.len() - from,
{
    if from < rows.len() {
        lemma_load_conflict(rows, from + 1);
        assert(load_conflict(rows, from) is None <==> conflict(rows.take(from), rows[from]) is None
            && load_conflict(rows, from + 1) is None);
    }
}

/// Where an index is not opened, the error is that of the first row that has what a row before
/// it has.
pub proof fn law_first_duplicate_is_told(rows: Seq<RepositoryView>, j: int)
    requires
        0 <= j < rows.len(),
        load_conflict(rows.take(j), 0) is None,
        conflict(rows.take(j), rows[j]) is Some,
    ensures
        load_conflict(rows, 0) == conflict(rows.take(j), rows[j]),
{
    lemma_load_conflict(rows.take(j), 0);
    lemma_first_duplicate(rows, 0, j);
}

proof fn lemma_first_duplicate(rows: Seq<RepositoryView>, from: int, j: int)
    requires
        0 <= from <= j < rows.len(),
        forall|i: int|
            0 <= i < j ==> conflict(rows.take(j).take(i), #[trigger] rows.take(j)[i]) is None,
        conflict(rows.take(j), rows[j]) is Some,
    ensures
        load_conflict(rows, from) == conflict(rows.take(j), rows[j]),
    decreases j - from,
{
    if from < j {
        assert(rows.take(j)[from] == rows[from]);
        assert(rows.take(j).take(from) =~= rows.take(from));
        lemma_first_duplicate(rows, from + 1, j);
    }
}

} // verus!
