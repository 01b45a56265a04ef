//! Unix paths as text.

use vstd::prelude::*;

use crate::text::{chars_of, string_of};

verus! {

/// Whether `path` starts at the root.
pub open spec fn absolute(path: Seq<char>) -> bool {
    path.len() > 0 && path[0] == '/'
}

/// `path` as seen from the directory `base`.
pub open spec fn path_under(base: Seq<char>, path: Seq<char>) -> Seq<char> {
    if absolute(path) {
        path
    } else if base.len() > 0 && base.last() != '/' {
        base + "/"@ + path
    } else {
        base + path
    }
}

/// `path` made absolute in the directory `dir`, where there is one.
pub open spec fn absolute_path(path: Seq<char>, dir: Option<Seq<char>>) -> Seq<char> {
    match dir {
        Some(base) if !absolute(path) => path_under(base, path),
        _ => path,
    }
}

/// How many characters the root, or a leading `.`, takes.
pub open spec fn root_len(path: Seq<char>) -> int {
    if absolute(path) {
        1
    } else if path.len() > 0 && path[0] == '.' && (path.len() == 1 || path[1] == '/') {
        1
    } else {
        0
    }
}

/// Where the last component of `path` begins, at `floor` or behind.
pub open spec fn last_component(path: Seq<char>, floor: int) -> int
    decreases path.len(),
{
    if path.len() <= floor || path.len() == 0 {
        floor
    } else if path.last() == '/' {
        path.len() as int
    } else {
        last_component(path.drop_last(), floor)
    }
}

/// `path` without its last component and the separator in front of that.
pub open spec fn without_last(path: Seq<char>) -> Seq<char> {
    let start = last_component(path, root_len(path));
    if start > root_len(path) {
        path.take(start - 1)
    } else {
        path.take(start)
    }
}

/// Whether the last component of `path` is a name: neither empty nor `.`.
pub open spec fn ends_in_name(path: Seq<char>) -> bool {
    let start = last_component(path, root_len(path));
    &&& start < path.len()
    &&& !(start == path.len() - 1 && path.last() == '.')
}

/// The last component holds no separator, and one stands in front of it.
pub proof fn lemma_last_component(path: Seq<char>, floor: int)
    requires
        0 <= floor <= path.len(),
    ensures
        floor <= last_component(path, floor) <= path.len(),
        last_component(path, floor) > floor ==> path[last_component(path, floor) - 1] == '/',
        forall|i: int| last_component(path, floor) <= i < path.len() ==> #[trigger] path[i] != '/',
    decreases path.len(),
{
    if path.len() > floor && path.last() != '/' {
        let shorter = path.drop_last();
        lemma_last_component(shorter, floor);
        let start = last_component(path, floor);
        assert forall|i: int| start <= i < path.len() implies #[trigger] path[i] != '/' by {
            if i < path.len() - 1 {
                assert(shorter[i] == path[i]);
            }
        }
    }
}

/// `path` without separators and `.` components at its end.
pub open spec fn tidy(path: Seq<char>) -> Seq<char>
    decreases path.len(),
{
    proof {
        if path.len() > root_len(path) {
            lemma_last_component(path, root_len(path));
        }
    }
    if path.len() > root_len(path) && !ends_in_name(path) {
        tidy(without_last(path))
    } else {
        path
    }
}

/// The directory that `path` stands in: `path` without its final component. There is
/// none for the root and for an empty path.
pub open spec fn parent(path: Seq<char>) -> Option<Seq<char>> {
    let path = tidy(path);
    if path.len() > root_len(path) {
        Some(tidy(without_last(path)))
    } else if path.len() > 0 && !absolute(path) {
        Some(seq![])
    } else {
        None
    }
}

/// Tests whether `path` starts at the root.
pub fn is_absolute(path: &str) -> (b: bool)
    ensures
        b == absolute(path@),
{
    let chars = chars_of(path);
    chars.len() > 0 && chars[0] == '/'
}

/// `path` as seen from the directory `base`.
pub fn join_path(base: &str, path: &str) -> (whole: String)
    ensures
        whole@ == path_under(base@, path@),
{
    if is_absolute(path) {
        return path.to_owned();
    }
    let chars = chars_of(base);
    let n: usize = chars.len();
    let mut whole: String = base.to_owned();
    if n > 0 && chars[n - 1] != '/' {
        whole.push_str("/");
    }
    whole.push_str(path);
    whole
}

/// `path` made absolute in the directory `base`, or without one in the working
/// directory `cwd`.
pub fn absolute_path_in(path: &str, base: Option<&str>, cwd: Option<&str>) -> (whole: String)
    ensures
        whole@ == absolute_path(path@, directory(base, cwd)),
{
    if is_absolute(path) {
        return path.to_owned();
    }
    match base {
        Some(dir) => join_path(dir, path),
        None => match cwd {
            Some(dir) => join_path(dir, path),
            None => path.to_owned(),
        },
    }
}

/// The directory that paths are relative to: `base`, or without one `cwd`.
pub open spec fn directory(base: Option<&str>, cwd: Option<&str>) -> Option<Seq<char>> {
    match base {
        Some(dir) => Some(dir@),
        None => match cwd {
            Some(dir) => Some(dir@),
            None => None,
        },
    }
}

/// Paths are relative to the directory of the chat where it has one, and otherwise to the
/// working directory.
pub proof fn law_base_goes_before_working_directory(base: &str, cwd: Option<&str>)
    ensures
        directory(Some(base), cwd) == Some(base@),
        cwd matches Some(dir) ==> directory(None, cwd) == Some(dir@),
        cwd is None ==> directory(None, cwd) is None,
{
}

fn root_len_of(chars: &Vec<char>, n: usize) -> (k: usize)
    requires
        n <= chars@.len(),
    ensures
        k == root_len(chars@.take(n as int)),
        k <= n,
{
    if n > 0 && chars[0] == '/' {
        1
    } else if n > 0 && chars[0] == '.' && (n == 1 || chars[1] == '/') {
        1
    } else {
        0
    }
}

fn last_component_of(chars: &Vec<char>, n: usize, floor: usize) -> (start: usize)
    requires
        floor <= n <= chars@.len(),
    ensures
        start == last_component(chars@.take(n as int), floor as int),
        floor <= start <= n,
{
    let mut start: usize = n;
    while start > floor && chars[start - 1] != '/'
        invariant
            floor <= start <= n <= chars@.len(),
            last_component(chars@.take(n as int), floor as int) == last_component(
                chars@.take(start as int),
                floor as int,
            ),
        decreases start,
    {
        assert(chars@.take(start as int).drop_last() == chars@.take(start - 1));
        start = start - 1;
    }
    start
}

fn without_last_of(chars: &Vec<char>, n: usize) -> (m: usize)
    requires
        root_len(chars@.take(n as int)) < n <= chars@.len(),
    ensures
        m <= n,
        chars@.take(m as int) == without_last(chars@.take(n as int)),
{
    let floor: usize = root_len_of(chars, n);
    let start: usize = last_component_of(chars, n, floor);
    if start > floor {
        assert(chars@.take(n as int).take(start - 1) == chars@.take(start - 1));
        start - 1
    } else {
        assert(chars@.take(n as int).take(start as int) == chars@.take(start as int));
        start
    }
}

fn tidy_of(chars: &Vec<char>, n: usize) -> (m: usize)
    requires
        n <= chars@.len(),
    ensures
        m <= n,
        chars@.take(m as int) == tidy(chars@.take(n as int)),
{
    let mut m: usize = n;
    loop
        invariant
            m <= n <= chars@.len(),
            tidy(chars@.take(m as int)) == tidy(chars@.take(n as int)),
        decreases m,
    {
        let floor: usize = root_len_of(chars, m);
        if m <= floor {
            return m;
        }
        let start: usize = last_component_of(chars, m, floor);
        proof {
            lemma_last_component(chars@.take(m as int), floor as int);
        }
        if start < m && !(start == m - 1 && chars[m - 1] == '.') {
            return m;
        }
        m = without_last_of(chars, m);
    }
}

/// The directory that `path` stands in.
pub fn parent_of(path: &str) -> (dir: Option<String>)
    ensures
        match dir {
            Some(dir) => parent(path@) == Some(dir@),
            None => parent(path@) is None,
        },
{
    let chars = chars_of(path);
    let n: usize = chars.len();
    assert(chars@.take(n as int) == path@);
    let m: usize = tidy_of(&chars, n);
    let floor: usize = root_len_of(&chars, m);
    if m > floor {
        let k: usize = without_last_of(&chars, m);
        let end: usize = tidy_of(&chars, k);
        let dir = string_of(&chars, 0, end);
        assert(dir@ == chars@.take(end as int));
        Some(dir)
    } else if m > 0 && chars[0] != '/' {
        Some(String::new())
    } else {
        None
    }
}

/// A relative path stands below the directory that it is seen from, with one slash
/// between them where the directory does not end with one; an absolute path stands where
/// it is.
pub proof fn law_relative_paths_stand_below(dir: Seq<char>, path: Seq<char>)
    ensures
        path.len() > 0 && path[0] == '/' ==> path_under(dir, path) == path && absolute_path(
            path,
            Some(dir),
        ) == path,
        (path.len() == 0 || path[0] != '/') ==> {
            &&& dir.len() > 0 && dir.last() != '/' ==> path_under(dir, path) == dir + seq!['/']
                + path
            &&& dir.len() > 0 && dir.last() == '/' ==> path_under(dir, path) == dir + path
            &&& dir.len() == 0 ==> path_under(dir, path) == path
            &&& absolute_path(path, Some(dir)) == path_under(dir, path)
        },
        absolute_path(path, None) == path,
{
    reveal_strlit("/");
    assert("/"@ =~= seq!['/']);
    if dir.len() == 0 {
        assert(dir + path =~= path);
    }
}

proof fn lemma_last_component_is(path: Seq<char>, floor: int, at: int)
    requires
        0 <= floor <= at <= path.len(),
        at > floor ==> path[at - 1] == '/',
        forall|i: int| at <= i < path.len() ==> #[trigger] path[i] != '/',
    ensures
        last_component(path, floor) == at,
{
    lemma_last_component(path, floor);
    let found = last_component(path, floor);
    if found < at {
        assert(path[at - 1] != '/');
    } else if at < found {
        assert(path[found - 1] != '/');
    }
}

/// Whether `dir` ends with the name of a directory: neither with a slash nor with a
/// component that is only a dot.
pub open spec fn names_a_directory(dir: Seq<char>) -> bool {
    &&& dir.len() > 0
    &&& dir.last() != '/'
    &&& !(dir.last() == '.' && (dir.len() == 1 || dir[dir.len() - 2] == '/'))
}

proof fn lemma_name_is_tidy(dir: Seq<char>)
    requires
        names_a_directory(dir),
    ensures
        tidy(dir) == dir,
        dir.len() > root_len(dir),
{
    lemma_last_component(dir, root_len(dir));
}

/// A path stands in the directory that it has in front of its last slash: a file stands
/// in the directory that its name was put behind, in the root where there is no other, and
/// a bare name in the directory that is left unnamed. Slashes behind a path and `.`
/// components at its end change nothing.
pub proof fn law_parent(dir: Seq<char>, name: Seq<char>)
    requires
        name.len() > 0,
        !name.contains('/'),
        !(name.len() == 1 && name[0] == '.'),
    ensures
        names_a_directory(dir) ==> parent(dir + seq!['/'] + name) == Some(dir),
        parent(seq!['/'] + name) == Some(seq!['/']),
        parent(name) == Some(Seq::<char>::empty()),
        parent(seq!['/']) is None,
        parent(Seq::<char>::empty()) is None,
{
    assert forall|i: int| 0 <= i < name.len() implies #[trigger] name[i] != '/' by {}
    if names_a_directory(dir) {
        let path = dir + seq!['/'] + name;
        let at = dir.len() + 1;
        assert forall|i: int| at <= i < path.len() implies #[trigger] path[i] != '/' by {
            assert(path[i] == name[i - at]);
        }
        assert(path[at - 1] == '/');
        assert(path.last() == name.last());
        lemma_last_component_is(path, root_len(path), at as int);
        assert(path.take(dir.len() as int) =~= dir);
        lemma_name_is_tidy(dir);
    }
    let below = seq!['/'] + name;
    assert forall|i: int| 1 <= i < below.len() implies #[trigger] below[i] != '/' by {
        assert(below[i] == name[i - 1]);
    }
    assert(below.last() == name.last());
    lemma_last_component_is(below, 1, 1);
    assert(below.take(1) =~= seq!['/']);
    assert(tidy(seq!['/']) == seq!['/']);
    lemma_last_component_is(name, 0, 0);
    assert(root_len(name) == 0);
    assert(name.take(0) =~= Seq::<char>::empty());
}

/// Where the directory in front of the name is not written in the shortest way, it is
/// shortened: slashes and `.` components at its end are left out, down to the root or a
/// leading dot.
pub proof fn law_parent_is_tidy(dir: Seq<char>, name: Seq<char>)
    requires
        dir.len() > 0,
        name.len() > 0,
        !name.contains('/'),
        !(name.len() == 1 && name[0] == '.'),
    ensures
        parent(dir + seq!['/'] + name) == Some(tidy(dir)),
        tidy(dir + seq!['/']) == tidy(dir),
        tidy(dir + seq!['/', '.']) == tidy(dir),
        names_a_directory(dir) ==> tidy(dir) == dir,
        tidy(seq!['/']) == seq!['/'],
        tidy(seq!['.']) == seq!['.'],
{
    let path = dir + seq!['/'] + name;
    let at = dir.len() + 1;
    assert forall|i: int| at <= i < path.len() implies #[trigger] path[i] != '/' by {
        assert(path[i] == name[i - at]);
        assert(name.contains(name[i - at]));
    }
    assert(path[at - 1] == '/');
    assert(path.last() == name.last());
    lemma_last_component_is(path, root_len(path), at as int);
    assert(path.take(dir.len() as int) =~= dir);
    let closed = dir + seq!['/'];
    assert(closed.last() == '/');
    lemma_last_component_is(closed, root_len(closed), closed.len() as int);
    assert(closed.take(dir.len() as int) =~= dir);
    let dotted = dir + seq!['/', '.'];
    assert(dotted[dir.len() as int] == '/');
    assert(dotted.last() == '.');
    lemma_last_component_is(dotted, root_len(dotted), at as int);
    assert(dotted.take(dir.len() as int) =~= dir);
    if names_a_directory(dir) {
        lemma_name_is_tidy(dir);
    }
}

/// Slashes behind a path do not change where it stands.
pub proof fn law_parent_ignores_slashes(path: Seq<char>)
    requires
        path.len() > 0,
    ensures
        parent(path + seq!['/']) == parent(path),
{
    let longer = path + seq!['/'];
    if path.len() == 1 && path[0] == '.' {
        lemma_last_component_is(longer, 1, 2);
        assert(longer.take(1) =~= path);
        assert(tidy(longer) == tidy(path));
    } else {
        assert(root_len(longer) == root_len(path));
        assert(longer.last() == '/');
        lemma_last_component_is(longer, root_len(longer), longer.len() as int);
        assert(longer.take(path.len() as int) =~= path);
        assert(without_last(longer) == path);
        assert(tidy(longer) == tidy(path));
    }
}

/// A path that was made absolute in an absolute directory is absolute, and making it
/// absolute again, in that directory or another, changes nothing.
pub proof fn law_absolute_path_is_final(
    path: Seq<char>,
    dir: Seq<char>,
    second: Option<Seq<char>>,
)
    requires
        absolute(dir),
    ensures
        absolute(absolute_path(path, Some(dir))),
        absolute_path(absolute_path(path, Some(dir)), second) == absolute_path(path, Some(dir)),
{
}

} // verus!
