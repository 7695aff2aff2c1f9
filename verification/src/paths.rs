//! File system paths as texts, with `/` between their components.

use crate::text;
use vstd::prelude::*;

verus! {

/// Whether a path starts at the root.
pub open spec fn absolute(path: Seq<char>) -> bool {
    path.len() > 0 && path[0] == '/'
}

/// A path below another one. An absolute path stands for itself.
pub open spec fn joined_path(base: Seq<char>, path: Seq<char>) -> Seq<char> {
    if absolute(path) {
        path
    } else if base.len() == 0 || base.last() == '/' {
        base + path
    } else {
        base.push('/') + path
    }
}

/// A path without the separators and the `.` components at its end.
pub open spec fn tail_trimmed(path: Seq<char>) -> Seq<char>
    decreases path.len(),
{
    if path.len() > 1 && path.last() == '/' {
        tail_trimmed(path.drop_last())
    } else if path.len() > 1 && path.last() == '.' && path[path.len() - 2] == '/' {
        tail_trimmed(path.drop_last())
    } else {
        path
    }
}

/// A path without its last component. The root and the empty path have none.
pub open spec fn parent_path(path: Seq<char>) -> Option<Seq<char>> {
    let t = tail_trimmed(path);
    if t.len() == 0 || t == seq!['/'] {
        None
    } else {
        let i = text::last_index_of(t, '/');
        if i < 0 {
            Some(Seq::empty())
        } else {
            Some(tail_trimmed(t.take(i + 1)))
        }
    }
}

/// The last component of a path, where it is a name.
pub open spec fn last_name(path: Seq<char>) -> Option<Seq<char>> {
    let t = tail_trimmed(path);
    let name = t.skip(text::last_index_of(t, '/') + 1);
    if name.len() == 0 || name == seq!['.'] || name == seq!['.', '.'] {
        None
    } else {
        Some(name)
    }
}

/// Puts a path below another one.
pub fn join_path(base: &str, path: &str) -> (r: String)
    ensures
        r@ == joined_path(base@, path@),
{
    let p = text::chars_of(path);
    if p.len() > 0 && p[0] == '/' {
        return path.to_owned();
    }
    let b = text::chars_of(base);
    let mut out = base.to_owned();
    if b.len() > 0 && b[b.len() - 1] != '/' {
        out.push('/');
    }
    out.append(path);
    out
}

fn tail_trim(path: &str) -> (r: &str)
    ensures
        r@ == tail_trimmed(path@),
{
    let cs = text::chars_of(path);
    let mut n: usize = cs.len();
    proof {
        assert(path@.take(n as int) =~= path@);
    }
    while n > 1 && (cs[n - 1] == '/' || (cs[n - 1] == '.' && cs[n - 2] == '/'))
        invariant
            n <= cs.len(),
            cs@ == path@,
            tail_trimmed(path@) == tail_trimmed(path@.take(n as int)),
        decreases n,
    {
        proof {
            let t = path@.take(n as int);
            assert(t.last() == path@[n - 1]);
            assert(t[t.len() - 2] == path@[n - 2]);
            assert(t.drop_last() =~= path@.take(n - 1));
        }
        n -= 1;
    }
    proof {
        let t = path@.take(n as int);
        if n > 1 {
            assert(t.last() == path@[n - 1]);
            assert(t[t.len() - 2] == path@[n - 2]);
        }
        assert(path@.subrange(0, n as int) =~= t);
    }
    path.substring_char(0, n)
}

/// The path without its last component.
pub fn parent(path: &str) -> (r: Option<String>)
    ensures
        r.deep_view() == parent_path(path@),
{
    let t = tail_trim(path);
    let cs = text::chars_of(t);
    proof {
        if t@ == seq!['/'] {
            assert(t@[0] == '/');
        }
        if t@.len() == 1 && t@[0] == '/' {
            assert(t@ =~= seq!['/']);
        }
    }
    if cs.len() == 0 || (cs.len() == 1 && cs[0] == '/') {
        return None;
    }
    match text::rfind(t, '/') {
        None => Some(String::new()),
        Some(i) => {
            proof {
                assert(t@.subrange(0, i + 1) =~= t@.take(i + 1));
            }
            Some(tail_trim(t.substring_char(0, i + 1)).to_owned())
        },
    }
}

/// The last component of the path, where it is a name.
pub fn file_name(path: &str) -> (r: Option<String>)
    ensures
        r.deep_view() == last_name(path@),
{
    let t = tail_trim(path);
    let n: usize = t.unicode_len();
    let start: usize = match text::rfind(t, '/') {
        None => 0,
        Some(i) => i + 1,
    };
    let name = t.substring_char(start, n);
    proof {
        assert(name@ =~= t@.skip(start as int));
        reveal_strlit(".");
        reveal_strlit("..");
        assert("."@ =~= seq!['.']);
        assert(".."@ =~= seq!['.', '.']);
    }
    if name.unicode_len() == 0 || text::same(name, ".") || text::same(name, "..") {
        None
    } else {
        Some(name.to_owned())
    }
}

/// A path with another name in the place of its last one.
pub open spec fn renamed_path(path: Seq<char>, name: Seq<char>) -> Seq<char> {
    match (last_name(path), parent_path(path)) {
        (Some(_), Some(parent)) => joined_path(parent, name),
        _ => joined_path(path, name),
    }
}

/// The path with another name in the place of its last one.
pub fn with_file_name(path: &str, name: &str) -> (r: String)
    ensures
        r@ == renamed_path(path@, name@),
{
    match (file_name(path), parent(path)) {
        (Some(_), Some(parent)) => join_path(parent.as_str(), name),
        _ => join_path(path, name),
    }
}

/// A path below another one is written with one `/` between them; an absolute path stands for
/// itself.
pub proof fn law_joining_paths(base: Seq<char>, path: Seq<char>)
    ensures
        path.len() > 0 && path[0] == '/' ==> joined_path(base, path) == path,
        !(path.len() > 0 && path[0] == '/') && base.len() > 0 && base.last() != '/'
            ==> joined_path(base, path) == base + seq!['/'] + path,
        !(path.len() > 0 && path[0] == '/') && base.len() > 0 && base.last() == '/'
            ==> joined_path(base, path) == base + path,
        !(path.len() > 0 && path[0] == '/') && base.len() == 0 ==> joined_path(base, path) == path,
{
    assert(base.push('/') + path =~= base + seq!['/'] + path);
    if base.len() == 0 {
        assert(base + path =~= path);
    }
}

/// A name that was put below a path comes off again: the path is its parent, and the name is
/// its last component. The path must not end in a separator or in `.`, and the name is one
/// component other than `.` and `..`.
pub proof fn law_names_come_off_again(base: Seq<char>, name: Seq<char>, other: Seq<char>)
    requires
        base.len() > 0,
        base.last() != '/',
        base.last() != '.',
        name.len() > 0,
        !name.contains('/'),
        name != seq!['.'],
        name != seq!['.', '.'],
    ensures
        parent_path(base + seq!['/'] + name) == Some(base),
        last_name(base + seq!['/'] + name) == Some(name),
        renamed_path(base + seq!['/'] + name, other) == joined_path(base, other),
        parent_path(base + seq!['/'] + name + seq!['/']) == Some(base),
        last_name(base + seq!['/'] + name + seq!['/']) == Some(name),
{
    let s = base + seq!['/'] + name;
    let n = name.len() as int;
    assert(name.contains(name.last()));
    assert(s.last() == name.last());
    assert(n == 1 ==> name =~= seq![name[0]]);
    assert(s[s.len() - 2] == if n == 1 {
        '/'
    } else {
        name[n - 2]
    });
    if n >= 2 {
        assert(name.contains(name[n - 2]));
    }
    if n == 1 && name[0] == '.' {
        assert(name =~= seq!['.']);
    }
    assert(tail_trimmed(s) == s);
    let with = s + seq!['/'];
    assert(with.drop_last() =~= s);
    assert(tail_trimmed(with) == s);
    assert forall|j: int| base.len() < j < s.len() implies s[j] != '/' by {
        assert(name.contains(name[j - base.len() - 1]));
    }
    assert(s[base.len() as int] == '/');
    text::lemma_last_index_of_is(s, '/', base.len() as int);
    let head = s.take(base.len() as int + 1);
    assert(head.drop_last() =~= base);
    assert(head.last() == '/');
    assert(tail_trimmed(base) == base);
    assert(tail_trimmed(head) == base);
    assert(s.len() > 1);
    assert(s.skip(base.len() as int + 1) =~= name);
}

/// At the root a name stands behind a single `/`, and the root has no parent and no name.
pub proof fn law_names_at_the_root(name: Seq<char>)
    requires
        name.len() > 0,
        !name.contains('/'),
        name != seq!['.'],
        name != seq!['.', '.'],
    ensures
        parent_path(seq!['/'] + name) == Some(seq!['/']),
        last_name(seq!['/'] + name) == Some(name),
        parent_path(name) == Some(Seq::<char>::empty()),
        last_name(name) == Some(name),
        parent_path(seq!['/']) is None,
        parent_path(seq![]) is None,
        last_name(seq!['/']) is None,
{
    let s = seq!['/'] + name;
    let n = name.len() as int;
    assert(name.contains(name.last()));
    assert(s.last() == name.last());
    if n >= 2 {
        assert(name.contains(name[n - 2]));
        assert(s[s.len() - 2] == name[n - 2]);
    } else {
        assert(name =~= seq![name[0]]);
    }
    assert(tail_trimmed(s) == s);
    assert(tail_trimmed(name) == name);
    assert forall|j: int| 0 < j < s.len() implies s[j] != '/' by {
        assert(name.contains(name[j - 1]));
    }
    text::lemma_last_index_of_is(s, '/', 0);
    assert(s.take(1) =~= seq!['/']);
    assert(s.skip(1) =~= name);
    assert forall|j: int| -1 < j < name.len() implies name[j] != '/' by {
        assert(name.contains(name[j]));
    }
    text::lemma_last_index_of_is(name, '/', -1);
    assert(name.skip(0) =~= name);
    let root = seq!['/'];
    assert(tail_trimmed(root) == root);
    text::lemma_last_index_of_is(root, '/', 0);
    assert(root.skip(1) =~= Seq::<char>::empty());
    assert(tail_trimmed(Seq::<char>::empty()) =~= Seq::<char>::empty());
    assert(s.len() > 1);
}

/// Separators and `.` at the end of a path change neither its parent nor its name, and `..` is
/// no name.
pub proof fn law_ends_of_paths_do_not_count(path: Seq<char>)
    requires
        path.len() > 0,
    ensures
        parent_path(path + seq!['/']) == parent_path(path),
        last_name(path + seq!['/']) == last_name(path),
        parent_path(path + seq!['/', '.']) == parent_path(path),
        last_name(path + seq!['/', '.']) == last_name(path),
        path.last() != '/' ==> last_name(path + seq!['/', '.', '.']) is None,
{
    let slash = path + seq!['/'];
    assert(slash.last() == '/');
    assert(slash.drop_last() =~= path);
    let dot = path + seq!['/', '.'];
    assert(dot.last() == '.');
    assert(dot[dot.len() - 2] == '/');
    assert(dot.drop_last() =~= slash);
    assert(tail_trimmed(slash) == tail_trimmed(path));
    assert(tail_trimmed(dot) == tail_trimmed(slash));
    let up = path + seq!['/', '.', '.'];
    assert(up.last() == '.' && up[up.len() - 2] == '.');
    assert(tail_trimmed(up) == up);
    let n = path.len() as int;
    assert(up[n] == '/' && up[n + 1] == '.' && up[n + 2] == '.');
    text::lemma_last_index_of_is(up, '/', n);
    assert(up.skip(n + 1) =~= seq!['.', '.']);
}

} // verus!
