//! Where the headers of the terminal library are, and what is read and written to
//! bind them.

use crate::paths;
use crate::text;
use vstd::prelude::*;

verus! {

/// What a search for the headers begins with: a directory that is given, or one to
/// search for builds of the library.
#[derive(Debug)]
pub enum HeaderSearch {
    Given(String),
    Builds(String),
    Rootless,
}

/// What a `HeaderSearch` holds.
#[verifier::ext_equal]
pub enum HeaderSearchView {
    Given(Seq<char>),
    Builds(Seq<char>),
    Rootless,
}

impl View for HeaderSearch {
    type V = HeaderSearchView;

    open spec fn view(&self) -> HeaderSearchView {
        match self {
            HeaderSearch::Given(a) => HeaderSearchView::Given(a@),
            HeaderSearch::Builds(a) => HeaderSearchView::Builds(a@),
            HeaderSearch::Rootless => HeaderSearchView::Rootless,
        }
    }
}

impl DeepView for HeaderSearch {
    type V = HeaderSearchView;

    open spec fn deep_view(&self) -> HeaderSearchView {
        self@
    }
}

impl Clone for HeaderSearch {
    fn clone(&self) -> (r: Self)
        ensures
            r@ == self@,
    {
        match self {
            HeaderSearch::Given(a) => HeaderSearch::Given(a.clone()),
            HeaderSearch::Builds(a) => HeaderSearch::Builds(a.clone()),
            HeaderSearch::Rootless => HeaderSearch::Rootless,
        }
    }
}

/// What is read and written to bind the headers.
#[derive(Debug)]
pub struct BindingPlan {
    pub header: String,
    pub search_arg: String,
    pub output: String,
}

/// What a `BindingPlan` holds.
#[verifier::ext_equal]
pub struct BindingPlanView {
    pub header: Seq<char>,
    pub search_arg: Seq<char>,
    pub output: Seq<char>,
}

impl View for BindingPlan {
    type V = BindingPlanView;

    open spec fn view(&self) -> BindingPlanView {
        BindingPlanView {
            header: self.header@,
            search_arg: self.search_arg@,
            output: self.output@,
        }
    }
}

impl DeepView for BindingPlan {
    type V = BindingPlanView;

    open spec fn deep_view(&self) -> BindingPlanView {
        self@
    }
}

impl Clone for BindingPlan {
    fn clone(&self) -> (r: Self)
        ensures
            r@ == self@,
    {
        BindingPlan {
            header: self.header.clone(),
            search_arg: self.search_arg.clone(),
            output: self.output.clone(),
        }
    }
}

/// The directory two above another one.
pub open spec fn grandparent(path: Seq<char>) -> Option<Seq<char>> {
    match paths::parent_path(path) {
        Some(parent) => paths::parent_path(parent),
        None => None,
    }
}

/// Where the search for the headers begins: a directory that is named outright, else
/// the one in the sources, else the builds under the root of the project, which is
/// two directories above the crate.
pub open spec fn search_start(
    headers: Option<Seq<char>>,
    sources: Option<Seq<char>>,
    crate_dir: Seq<char>,
) -> HeaderSearchView {
    match headers {
        Some(dir) => HeaderSearchView::Given(dir),
        None => match sources {
            Some(dir) => HeaderSearchView::Given(
                paths::joined_path(paths::joined_path(dir, "zig-out"@), "include"@),
            ),
            None => match grandparent(crate_dir) {
                Some(root) => HeaderSearchView::Builds(
                    paths::joined_path(
                        paths::joined_path(paths::joined_path(root, "target"@), "debug"@),
                        "build"@,
                    ),
                ),
                None => HeaderSearchView::Rootless,
            },
        },
    }
}

/// Decides where the search for the headers begins.
pub fn header_search(
    headers: Option<String>,
    sources: Option<String>,
    crate_dir: &str,
) -> (r: HeaderSearch)
    ensures
        r@ == search_start(headers.deep_view(), sources.deep_view(), crate_dir@),
{
    if let Some(dir) = headers {
        return HeaderSearch::Given(dir);
    }
    if let Some(dir) = sources {
        let out = paths::join_path(dir.as_str(), "zig-out");
        return HeaderSearch::Given(paths::join_path(out.as_str(), "include"));
    }
    let root: Option<String> = match paths::parent(crate_dir) {
        Some(parent) => paths::parent(parent.as_str()),
        None => None,
    };
    match root {
        Some(root) => {
            let target = paths::join_path(root.as_str(), "target");
            let debug = paths::join_path(target.as_str(), "debug");
            HeaderSearch::Builds(paths::join_path(debug.as_str(), "build"))
        },
        None => HeaderSearch::Rootless,
    }
}

/// The directory of headers in a build of the library, if a directory is one.
pub open spec fn build_headers(name: Seq<char>, path: Seq<char>) -> Option<Seq<char>> {
    if text::without_prefix(name, "libghostty-vt-sys-"@) is Some {
        Some(
            paths::joined_path(
                paths::joined_path(paths::joined_path(path, "out"@), "ghostty-install"@),
                "include"@,
            ),
        )
    } else {
        None
    }
}

/// The directory of headers in a build of the library.
pub fn headers_of_build(name: &str, path: &str) -> (r: Option<String>)
    ensures
        r.deep_view() == build_headers(name@, path@),
{
    match text::strip_prefix(name, "libghostty-vt-sys-") {
        Some(_) => {
            let out = paths::join_path(path, "out");
            let install = paths::join_path(out.as_str(), "ghostty-install");
            Some(paths::join_path(install.as_str(), "include"))
        },
        None => None,
    }
}

/// The header in a directory of headers.
pub open spec fn header_in(dir: Seq<char>) -> Seq<char> {
    paths::joined_path(paths::joined_path(dir, "ghostty"@), "vt.h"@)
}

/// The header in a directory of headers.
pub fn header_path(dir: &str) -> (r: String)
    ensures
        r@ == header_in(dir@),
{
    let ghostty = paths::join_path(dir, "ghostty");
    paths::join_path(ghostty.as_str(), "vt.h")
}

/// What is read and written to bind the headers in a directory.
pub fn binding_plan(dir: &str, crate_dir: &str) -> (r: BindingPlan)
    ensures
        r@ == (BindingPlanView {
            header: header_in(dir@),
            search_arg: "-I"@ + dir@,
            output: paths::joined_path(paths::joined_path(crate_dir@, "src"@), "bindings.rs"@),
        }),
{
    let mut search_arg = "-I".to_owned();
    search_arg.append(dir);
    let src = paths::join_path(crate_dir, "src");
    BindingPlan {
        header: header_path(dir),
        search_arg,
        output: paths::join_path(src.as_str(), "bindings.rs"),
    }
}

/// Headers that are named outright are taken; else those that the sources were built to; else
/// they are searched for among the builds of the project, two directories above the crate.
pub proof fn law_headers_are_searched_for(
    dir: Seq<char>,
    sources: Option<Seq<char>>,
    source_dir: Seq<char>,
    root: Seq<char>,
    parent: Seq<char>,
    name: Seq<char>,
)
    requires
        source_dir.len() > 0,
        source_dir.last() != '/',
        root.len() > 0,
        root.last() != '/',
        root.last() != '.',
        parent.len() > 0,
        !parent.contains('/'),
        parent.last() != '.',
        name.len() > 0,
        !name.contains('/'),
        name.last() != '.',
    ensures
        ({
            let crate_dir = root + seq!['/'] + parent + seq!['/'] + name;
            &&& search_start(Some(dir), sources, crate_dir) == HeaderSearchView::Given(dir)
            &&& search_start(None, Some(source_dir), crate_dir) == HeaderSearchView::Given(
                source_dir + "/zig-out/include"@,
            )
            &&& search_start(None, None, crate_dir) == HeaderSearchView::Builds(
                root + "/target/debug/build"@,
            )
            &&& search_start(None, None, seq!['/']) == HeaderSearchView::Rootless
        }),
{
    reveal_strlit("zig-out");
    reveal_strlit("include");
    reveal_strlit("/zig-out/include");
    reveal_strlit("target");
    reveal_strlit("debug");
    reveal_strlit("build");
    reveal_strlit("/target/debug/build");
    let base = root + seq!['/'] + parent;
    assert(parent.contains(parent.last()));
    assert(base.last() == parent.last());
    assert(seq!['.'].last() == '.');
    assert(seq!['.', '.'].last() == '.');
    paths::law_names_come_off_again(base, name, name);
    paths::law_names_come_off_again(root, parent, parent);
    paths::law_names_at_the_root(name);
    let out = source_dir.push('/') + "zig-out"@;
    assert(out.last() == 't');
    assert(out.push('/') + "include"@ =~= source_dir + "/zig-out/include"@);
    let a = root.push('/') + "target"@;
    assert(a.last() == 't');
    let b = a.push('/') + "debug"@;
    assert(b.last() == 'g');
    assert(b.push('/') + "build"@ =~= root + "/target/debug/build"@);
}

/// A build of the library is a directory whose name begins with `libghostty-vt-sys-`, and its
/// headers are in `out/ghostty-install/include`. What is bound is `ghostty/vt.h` there.
pub proof fn law_headers_of_builds(
    hash: Seq<char>,
    name: Seq<char>,
    path: Seq<char>,
    dir: Seq<char>,
)
    requires
        path.len() > 0,
        path.last() != '/',
        dir.len() > 0,
        dir.last() != '/',
    ensures
        build_headers("libghostty-vt-sys-"@ + hash, path) == Some(
            path + "/out/ghostty-install/include"@,
        ),
        !"libghostty-vt-sys-"@.is_prefix_of(name) ==> build_headers(name, path) is None,
        header_in(dir) == dir + "/ghostty/vt.h"@,
{
    reveal_strlit("libghostty-vt-sys-");
    reveal_strlit("out");
    reveal_strlit("ghostty-install");
    reveal_strlit("include");
    reveal_strlit("/out/ghostty-install/include");
    reveal_strlit("ghostty");
    reveal_strlit("vt.h");
    reveal_strlit("/ghostty/vt.h");
    text::law_prefixes_and_suffixes("libghostty-vt-sys-"@, hash);
    let a = path.push('/') + "out"@;
    assert(a.last() == 't');
    let b = a.push('/') + "ghostty-install"@;
    assert(b.last() == 'l');
    assert(b.push('/') + "include"@ =~= path + "/out/ghostty-install/include"@);
    let c = dir.push('/') + "ghostty"@;
    assert(c.last() == 'y');
    assert(c.push('/') + "vt.h"@ =~= dir + "/ghostty/vt.h"@);
}

} // verus!
