//! Paths, as texts: how one is resolved against a directory, and which directory a configuration
//! stands in.

use crate::text;
use vstd::prelude::*;
use vstd::string::*;

verus! {

/// `path` behind `dir`, with a `/` in between where the directory does not end in one.
pub open spec fn path_in(dir: Seq<char>, path: Seq<char>) -> Seq<char> {
    if dir.len() == 0 || dir.last() == '/' {
        dir + path
    } else {
        dir + seq!['/'] + path
    }
}

/// `s` holds the character `c`.
pub open spec fn holds(s: Seq<char>, c: char) -> bool {
    exists|i: int| 0 <= i < s.len() && s[i] == c
}

/// `name` can be the last component of a path: it is not empty, holds no separator and is not `.`.
pub open spec fn is_component(name: Seq<char>) -> bool {
    &&& name.len() > 0
    &&& !holds(name, '/')
    &&& name != seq!['.']
}

/// `dir` ends in a component of its own: it is not empty, and ends neither in a separator nor in
/// a `.` component behind one.
pub open spec fn ends_in_component(dir: Seq<char>) -> bool {
    &&& dir.len() > 0
    &&& dir.last() != '/'
    &&& !(dir.len() > 1 && dir[dir.len() - 1] == '.' && dir[dir.len() - 2] == '/')
}

/// A path that is read the same way on every platform: no `\` stands in it, and it starts neither
/// with a drive, such as `C:`, nor with two separators.
pub open spec fn is_portable(path: Seq<char>) -> bool {
    &&& !holds(path, '\\')
    &&& !(path.len() > 1 && path[1] == ':')
    &&& !(path.len() > 1 && path[0] == '/' && path[1] == '/')
}

/// `r` is `path` behind `dir`, with the separator of the platform in between where one is needed.
pub open spec fn is_behind(dir: Seq<char>, path: Seq<char>, r: Seq<char>) -> bool {
    if dir.len() == 0 || dir.last() == '/' {
        r == dir + path
    } else {
        r == dir + seq!['/'] + path || r == dir + seq!['\\'] + path
    }
}

/// What is known of `path` as seen from a portable `dir`: it is the path itself or stands behind
/// the directory. An absolute path stays as it is; any other that is portable is put behind the
/// directory.
pub open spec fn is_join(dir: Seq<char>, path: Seq<char>, r: Seq<char>) -> bool {
    is_portable(dir) ==> {
        &&& r == path || is_behind(dir, path, r)
        &&& path.len() > 0 && path[0] == '/' ==> r == path
        &&& is_portable(path) && !(path.len() > 0 && path[0] == '/') ==> is_behind(dir, path, r)
    }
}

/// `Path::join`: a path that has a root replaces the directory, as one with a drive does, and any
/// other is put behind it. Which separator is put in between, whether a path that holds a `\` or
/// starts with a drive has a root, and how a directory of that kind is gone on from differs between
/// platforms and is left unsaid.
#[verifier::external_body]
pub(crate) fn join(dir: &str, path: &str) -> (r: String)
    ensures
        is_join(dir@, path@, r@),
{
    std::path::Path::new(dir).join(path).to_string_lossy().into_owned()
}

/// The place of the first separator at or after `from`; the length of the path where there is none.
pub open spec fn part_end(path: Seq<char>, from: int) -> int
    decreases path.len() - from,
{
    if from >= path.len() {
        path.len() as int
    } else if path[from] == '/' {
        from
    } else {
        part_end(path, from + 1)
    }
}

/// What stands between the separators of a path, from `from` on.
pub open spec fn parts_from(path: Seq<char>, from: int) -> Seq<Seq<char>>
    decreases path.len() - from,
    via parts_from_decreases
{
    if from < 0 || part_end(path, from) >= path.len() {
        seq![path.subrange(from, path.len() as int)]
    } else {
        seq![path.subrange(from, part_end(path, from))] + parts_from(
            path,
            part_end(path, from) + 1,
        )
    }
}

#[via_fn]
proof fn parts_from_decreases(path: Seq<char>, from: int) {
    if 0 <= from <= path.len() {
        lemma_part_end(path, from);
    }
}

/// Where a part ends: not before its start.
proof fn lemma_part_end(path: Seq<char>, from: int)
    requires
        0 <= from <= path.len(),
    ensures
        from <= part_end(path, from) <= path.len(),
    decreases path.len() - from,
{
    if from < path.len() && path[from] != '/' {
        lemma_part_end(path, from + 1);
    }
}

/// The components of a path: the root of an absolute path, or a `.` at the start of any other, and
/// then what stands between the separators. Doubled separators, a separator at the end and any
/// other `.` add nothing.
pub open spec fn components(path: Seq<char>) -> Seq<Seq<char>> {
    let names = parts_from(path, 0).filter(|part: Seq<char>| part.len() > 0 && part != seq!['.']);
    if path.len() > 0 && path[0] == '/' {
        seq![seq!['/']] + names
    } else if parts_from(path, 0)[0] == seq!['.'] {
        seq![seq!['.']] + names
    } else {
        names
    }
}

/// A path that is not empty has a component.
proof fn lemma_has_component(path: Seq<char>)
    ensures
        (components(path).len() == 0) == (path.len() == 0),
{
    let parts = parts_from(path, 0);
    let pred = |part: Seq<char>| part.len() > 0 && part != seq!['.'];
    lemma_part_end(path, 0);
    assert(parts[0] == path.subrange(0, part_end(path, 0)));
    if path.len() == 0 {
        assert(parts =~~= seq![Seq::<char>::empty()]);
        reveal_with_fuel(Seq::filter, 2);
        assert(parts.drop_last().len() == 0);
        assert(!pred(parts.last()));
    } else if path[0] != '/' {
        lemma_part_end(path, 1);
        assert(parts[0].len() > 0);
        if parts[0] != seq!['.'] {
            parts.lemma_filter_contains(pred, 0);
        }
    }
}

/// What is known of the parent of a path. It is a part of the path from its start, shorter than
/// the path, and the empty path has none. Where the path is portable, its parent has the components
/// of the path without the last one, and there is none where the path has no component but the
/// root. There, a path of one component has the empty parent, and `dir/name` has the parent `dir`,
/// as `/name` has the parent `/`.
pub open spec fn is_parent(path: Seq<char>, parent: Option<Seq<char>>) -> bool {
    &&& path.len() == 0 ==> parent is None
    &&& parent matches Some(p) ==> p.len() < path.len() && p == path.take(p.len() as int)
    &&& is_portable(path) ==> {
        if components(path).len() == 0 || components(path) == seq![seq!['/']] {
            parent is None
        } else {
            parent matches Some(p) && components(p) == components(path).drop_last()
        }
    }
    &&& is_portable(path) && path.len() > 0 && !holds(path, '/') ==> parent == Some(
        Seq::<char>::empty(),
    )
    &&& forall|dir: Seq<char>, name: Seq<char>|
        is_portable(path) && is_component(name) && ends_in_component(dir) && path
            == #[trigger] path_in(dir, name) ==> parent == Some(dir)
    &&& forall|name: Seq<char>|
        is_portable(path) && is_component(name) && path == #[trigger] path_in(seq!['/'], name)
            ==> parent == Some(seq!['/'])
}

/// `Path::parent`: the path without its final component, if there is one, with the components that
/// `Path::components` documents. How a path is split in which `\` stands, or that starts with a
/// drive or with two separators, differs between platforms and is left unsaid.
#[verifier::external_body]
pub(crate) fn parent_of(path: &str) -> (r: Option<String>)
    ensures
        is_parent(path@, text::opt(r)),
{
    std::path::Path::new(path).parent().map(|p| p.to_string_lossy().into_owned())
}

/// The directory that suite paths are resolved against, given the parent of the configuration's
/// path: that parent, or `.` where there is none or it is empty.
pub open spec fn root_from(parent: Option<Seq<char>>) -> Seq<char> {
    match parent {
        Some(p) => if p.len() > 0 {
            p
        } else {
            seq!['.']
        },
        None => seq!['.'],
    }
}

/// Picks the root directory, given the parent of the configuration's path.
pub fn root_of_parent(parent: Option<String>) -> (r: String)
    ensures
        r@ == root_from(text::opt(parent)),
{
    if let Some(p) = parent {
        if !p.as_str().is_empty() {
            return p;
        }
    }
    proof {
        reveal_strlit(".");
        assert("."@ =~= seq!['.']);
    }
    ".".to_owned()
}

/// The directory that suite paths are resolved against: that of the configuration file.
pub fn config_root(path: &str) -> (r: String)
    ensures
        exists|parent: Option<Seq<char>>|
            #[trigger] is_parent(path@, parent) && r@ == root_from(parent),
        is_portable(path@) ==> if components(path@).len() > 1 {
            components(r@) == components(path@).drop_last()
        } else {
            r@ == seq!['.']
        },
{
    let parent: Option<String> = parent_of(path);
    proof {
        if parent is Some {
            lemma_has_component(parent->0@);
        }
    }
    root_of_parent(parent)
}

/// Suite paths are resolved against the directory that the configuration stands in, and against the
/// working directory where its path names none.
pub proof fn law_root_of_a_run(parent: Option<Seq<char>>)
    ensures
        parent is Some && parent->0.len() > 0 ==> root_from(parent) == parent->0,
        parent is None || parent->0.len() == 0 ==> root_from(parent) == "."@,
{
    reveal_strlit(".");
    assert("."@ =~= seq!['.']);
}

} // verus!
