//! The tree display of a sort's moves.
//!
//! The destinations of the moves, each split into its path components, are
//! shown as a tree drawn with box-drawing characters, as the `tree` command
//! does: at each level the directories come first, in name order, then the
//! files, in name order.

use vstd::prelude::*;
use vstd::string::*;

use crate::organize::MoveRecord;
use crate::text::{
    char_seq_lt, lemma_char_seq_lt_asymmetric, lemma_char_seq_lt_irreflexive, lemma_char_seq_lt_total, lemma_char_seq_lt_transitive,
    str_eq, str_lt, strictly_sorted, views,
};

verus! {

/// What `Path::components` returns for a path, each component as text.
pub uninterp spec fn path_components_of(path: Seq<char>) -> Seq<Seq<char>>;

/// `Path::new(path).components()`, each component as text. Claims that the
/// result is `path_components_of` of the argument.
#[verifier::external_body]
pub(crate) fn path_components(path: &str) -> (r: Vec<String>)
    ensures
        views(r@) == path_components_of(path@),
{
    std::path::Path::new(path).components().map(|c| c.as_os_str().to_string_lossy().into_owned()).collect()
}

/// `s` with `x` placed before the first element that comes strictly after it.
pub open spec fn insert_sorted(s: Seq<Seq<char>>, x: Seq<char>) -> Seq<Seq<char>>
    decreases s.len(),
{
    if s.len() == 0 {
        seq![x]
    } else if char_seq_lt(x, s[0]) {
        seq![x] + s
    } else {
        seq![s[0]] + insert_sorted(s.drop_first(), x)
    }
}

/// `s` in ascending order (a stable insertion sort).
pub open spec fn sorted_seq(s: Seq<Seq<char>>) -> Seq<Seq<char>>
    decreases s.len(),
{
    if s.len() == 0 {
        s
    } else {
        insert_sorted(sorted_seq(s.drop_last()), s.last())
    }
}

/// The names of the directories at this level, each once, in the order of
/// their first path.
pub open spec fn dir_names(paths: Seq<Seq<Seq<char>>>) -> Seq<Seq<char>>
    decreases paths.len(),
{
    if paths.len() == 0 {
        Seq::empty()
    } else {
        let before = dir_names(paths.drop_last());
        let p = paths.last();
        if p.len() >= 2 && !before.contains(p[0]) {
            before.push(p[0])
        } else {
            before
        }
    }
}

/// The names of the files at this level, in the order of their paths.
pub open spec fn file_names(paths: Seq<Seq<Seq<char>>>) -> Seq<Seq<char>>
    decreases paths.len(),
{
    if paths.len() == 0 {
        Seq::empty()
    } else {
        let before = file_names(paths.drop_last());
        let p = paths.last();
        if p.len() == 1 {
            before.push(p[0])
        } else {
            before
        }
    }
}

/// The paths below the directory `dir`, without their first component.
pub open spec fn sub_paths(paths: Seq<Seq<Seq<char>>>, dir: Seq<char>) -> Seq<Seq<Seq<char>>>
    decreases paths.len(),
{
    if paths.len() == 0 {
        Seq::empty()
    } else {
        let before = sub_paths(paths.drop_last(), dir);
        let p = paths.last();
        if p.len() >= 2 && p[0] == dir {
            before.push(p.drop_first())
        } else {
            before
        }
    }
}

/// The connector in front of a node.
pub open spec fn connector(last: bool) -> Seq<char> {
    if last {
        "└── "@
    } else {
        "├── "@
    }
}

/// The prefix of the lines below a directory node.
pub open spec fn child_prefix(prefix: Seq<char>, last: bool) -> Seq<char> {
    if last {
        prefix + "    "@
    } else {
        prefix + "│   "@
    }
}

/// The lines of the tree of `paths`, drawn below `prefix`; `fuel` bounds the
/// depth that is drawn.
pub open spec fn tree_lines(paths: Seq<Seq<Seq<char>>>, prefix: Seq<char>, fuel: nat) -> Seq<
    Seq<char>,
>
    decreases fuel, 0int,
{
    if fuel == 0 {
        Seq::empty()
    } else {
        let dirs = sorted_seq(dir_names(paths));
        let files = sorted_seq(file_names(paths));
        let count: int = (dirs.len() + files.len()) as int;
        dir_lines(paths, dirs, 0, count, prefix, (fuel - 1) as nat) + file_lines(
            files,
            dirs.len() as int,
            count,
            prefix,
        )
    }
}

/// The lines of the directory nodes from the `i`-th on, each followed by its
/// subtree.
pub open spec fn dir_lines(
    paths: Seq<Seq<Seq<char>>>,
    dirs: Seq<Seq<char>>,
    i: int,
    count: int,
    prefix: Seq<char>,
    fuel: nat,
) -> Seq<Seq<char>>
    decreases fuel, dirs.len() - i,
{
    if i < 0 || i >= dirs.len() {
        Seq::empty()
    } else {
        let last = i == count - 1;
        seq![prefix + connector(last) + dirs[i] + "/"@] + tree_lines(
            sub_paths(paths, dirs[i]),
            child_prefix(prefix, last),
            fuel,
        ) + dir_lines(paths, dirs, i + 1, count, prefix, fuel)
    }
}

/// The lines of the file nodes; `start` is the position of the first file
/// among all nodes of the level.
pub open spec fn file_lines(files: Seq<Seq<char>>, start: int, count: int, prefix: Seq<char>) -> Seq<
    Seq<char>,
>
    decreases files.len(),
{
    if files.len() == 0 {
        Seq::empty()
    } else {
        file_lines(files.drop_last(), start, count, prefix).push(
            prefix + connector(start + files.len() - 1 == count - 1) + files.last(),
        )
    }
}

/// The greatest number of components of a path.
pub open spec fn max_len(paths: Seq<Seq<Seq<char>>>) -> nat
    decreases paths.len(),
{
    if paths.len() == 0 {
        0
    } else {
        let m = max_len(paths.drop_last());
        if paths.last().len() > m {
            paths.last().len()
        } else {
            m
        }
    }
}

/// The components of every destination.
pub open spec fn record_paths(actions: Seq<MoveRecord>) -> Seq<Seq<Seq<char>>> {
    actions.map_values(|a: MoveRecord| path_components_of(a.dest_relative@))
}

/// The components of each path.
pub open spec fn path_views(paths: Seq<Vec<String>>) -> Seq<Seq<Seq<char>>> {
    paths.map_values(|p: Vec<String>| views(p@))
}

/// Placing `x` at `p` is inserting it in order, when everything before `p`
/// does not come after `x` and the element at `p` does.
proof fn lemma_insert_sorted_at(s: Seq<Seq<char>>, x: Seq<char>, p: int)
    requires
        0 <= p <= s.len(),
        forall|t: int| 0 <= t < p ==> !char_seq_lt(x, #[trigger] s[t]),
        p < s.len() ==> char_seq_lt(x, s[p]),
    ensures
        insert_sorted(s, x) == s.insert(p, x),
    decreases p,
{
    if p == 0 {
        if s.len() == 0 {
            assert(s.insert(0, x) =~= seq![x]);
        } else {
            assert(s.insert(0, x) =~= seq![x] + s);
        }
    } else {
        let t = s.drop_first();
        assert forall|k: int| 0 <= k < p - 1 implies !char_seq_lt(x, #[trigger] t[k]) by {
            assert(t[k] == s[k + 1]);
        }
        if p < s.len() {
            assert(t[p - 1] == s[p]);
        }
        assert(!char_seq_lt(x, s[0]));
        lemma_insert_sorted_at(t, x, p - 1);
        assert(seq![s[0]] + t.insert(p - 1, x) =~= s.insert(p, x));
    }
}

/// Put `x` into the sorted `out` before the first name that comes after it.
fn insert_name(out: &mut Vec<String>, x: String)
    ensures
        views(final(out)@) == insert_sorted(views(old(out)@), x@),
{
    let ghost before = views(out@);
    let mut p: usize = 0;
    while p < out.len() && !str_lt(x.as_str(), out[p].as_str())
        invariant
            p <= out@.len(),
            before == views(out@),
            forall|t: int| 0 <= t < p ==> !char_seq_lt(x@, #[trigger] before[t]),
        decreases out@.len() - p,
    {
        p = p + 1;
    }
    proof {
        lemma_insert_sorted_at(before, x@, p as int);
    }
    let ghost xv = x@;
    out.insert(p, x);
    assert(views(out@) =~= before.insert(p as int, xv));
}

/// The names in ascending order (see [`sorted_seq`]).
pub fn sort_names(names: &Vec<String>) -> (r: Vec<String>)
    ensures
        views(r@) == sorted_seq(views(names@)),
{
    let n = names.len();
    let mut out: Vec<String> = Vec::new();
    let mut i: usize = 0;
    assert(views(names@).take(0) =~= Seq::<Seq<char>>::empty());
    while i < n
        invariant
            n == names@.len(),
            i <= n,
            views(out@) == sorted_seq(views(names@).take(i as int)),
        decreases n - i,
    {
        let ghost t = views(names@).take(i + 1);
        assert(t.drop_last() =~= views(names@).take(i as int));
        assert(t.last() == names@[i as int]@);
        insert_name(&mut out, names[i].clone());
        i = i + 1;
    }
    assert(views(names@).take(n as int) =~= views(names@));
    out
}

/// Whether `name` is among `names`.
fn contains_name(names: &Vec<String>, name: &str) -> (r: bool)
    ensures
        r == views(names@).contains(name@),
{
    let mut i: usize = 0;
    while i < names.len()
        invariant
            i <= names@.len(),
            forall|t: int| 0 <= t < i ==> views(names@)[t] != name@,
        decreases names@.len() - i,
    {
        if str_eq(names[i].as_str(), name) {
            assert(views(names@)[i as int] == name@);
            return true;
        }
        i = i + 1;
    }
    false
}

/// The directory names of the level (see [`dir_names`]).
fn collect_dir_names(paths: &Vec<Vec<String>>) -> (r: Vec<String>)
    ensures
        views(r@) == dir_names(path_views(paths@)),
{
    let mut out: Vec<String> = Vec::new();
    let mut i: usize = 0;
    assert(path_views(paths@).take(0) =~= Seq::<Seq<Seq<char>>>::empty());
    while i < paths.len()
        invariant
            i <= paths@.len(),
            views(out@) == dir_names(path_views(paths@).take(i as int)),
        decreases paths@.len() - i,
    {
        let ghost t = path_views(paths@).take(i + 1);
        assert(t.drop_last() =~= path_views(paths@).take(i as int));
        assert(t.last() == views(paths@[i as int]@));
        let p = &paths[i];
        if p.len() >= 2 && !contains_name(&out, p[0].as_str()) {
            let ghost before = views(out@);
            out.push(p[0].clone());
            assert(views(out@) =~= before.push(p@[0]@));
        }
        i = i + 1;
    }
    assert(path_views(paths@).take(paths@.len() as int) =~= path_views(paths@));
    out
}

/// The file names of the level (see [`file_names`]).
fn collect_file_names(paths: &Vec<Vec<String>>) -> (r: Vec<String>)
    ensures
        views(r@) == file_names(path_views(paths@)),
{
    let mut out: Vec<String> = Vec::new();
    let mut i: usize = 0;
    assert(path_views(paths@).take(0) =~= Seq::<Seq<Seq<char>>>::empty());
    while i < paths.len()
        invariant
            i <= paths@.len(),
            views(out@) == file_names(path_views(paths@).take(i as int)),
        decreases paths@.len() - i,
    {
        let ghost t = path_views(paths@).take(i + 1);
        assert(t.drop_last() =~= path_views(paths@).take(i as int));
        assert(t.last() == views(paths@[i as int]@));
        let p = &paths[i];
        if p.len() == 1 {
            let ghost before = views(out@);
            out.push(p[0].clone());
            assert(views(out@) =~= before.push(p@[0]@));
        }
        i = i + 1;
    }
    assert(path_views(paths@).take(paths@.len() as int) =~= path_views(paths@));
    out
}

/// The path without its first component.
fn tail_of(p: &Vec<String>) -> (r: Vec<String>)
    requires
        p@.len() >= 1,
    ensures
        views(r@) == views(p@).drop_first(),
{
    let mut out: Vec<String> = Vec::new();
    let mut k: usize = 1;
    while k < p.len()
        invariant
            1 <= k <= p@.len(),
            views(out@) == views(p@).subrange(1, k as int),
        decreases p@.len() - k,
    {
        let ghost before = views(out@);
        out.push(p[k].clone());
        assert(views(out@) =~= before.push(p@[k as int]@));
        assert(views(p@)[k as int] == p@[k as int]@);
        assert(views(out@) =~= views(p@).subrange(1, k + 1));
        k = k + 1;
    }
    assert(views(out@) =~= views(p@).drop_first());
    out
}

/// The paths below `dir` (see [`sub_paths`]).
fn collect_sub_paths(paths: &Vec<Vec<String>>, dir: &str) -> (r: Vec<Vec<String>>)
    ensures
        path_views(r@) == sub_paths(path_views(paths@), dir@),
{
    let mut out: Vec<Vec<String>> = Vec::new();
    let mut i: usize = 0;
    assert(path_views(paths@).take(0) =~= Seq::<Seq<Seq<char>>>::empty());
    while i < paths.len()
        invariant
            i <= paths@.len(),
            path_views(out@) == sub_paths(path_views(paths@).take(i as int), dir@),
        decreases paths@.len() - i,
    {
        let ghost t = path_views(paths@).take(i + 1);
        assert(t.drop_last() =~= path_views(paths@).take(i as int));
        assert(t.last() == views(paths@[i as int]@));
        let p = &paths[i];
        if p.len() >= 2 && str_eq(p[0].as_str(), dir) {
            let ghost before = path_views(out@);
            let tail = tail_of(p);
            out.push(tail);
            assert(path_views(out@) =~= before.push(views(p@).drop_first()));
        }
        i = i + 1;
    }
    assert(path_views(paths@).take(paths@.len() as int) =~= path_views(paths@));
    out
}

/// Each path adds at most one name to the level.
proof fn lemma_names_len(paths: Seq<Seq<Seq<char>>>)
    ensures
        dir_names(paths).len() + file_names(paths).len() <= paths.len(),
    decreases paths.len(),
{
    if paths.len() > 0 {
        lemma_names_len(paths.drop_last());
    }
}

/// Appending a vector of lines.
fn append_lines(out: &mut Vec<String>, more: Vec<String>)
    ensures
        views(final(out)@) == views(old(out)@) + views(more@),
{
    let mut more = more;
    let ghost a = out@;
    let ghost b = more@;
    out.append(&mut more);
    assert(views(out@) =~= views(a) + views(b));
}

/// The line of one node: `prefix`, the connector, the name, and `suffix`.
fn node_line(prefix: &str, last: bool, name: &str, suffix: &str) -> (r: String)
    ensures
        r@ == prefix@ + connector(last) + name@ + suffix@,
{
    let mut line = String::from_str(prefix);
    if last {
        line.append("└── ");
    } else {
        line.append("├── ");
    }
    line.append(name);
    line.append(suffix);
    assert(line@ =~= prefix@ + connector(last) + name@ + suffix@);
    line
}

/// The lines of the tree of `paths` below `prefix` (see [`tree_lines`]).
pub fn render_tree(paths: &Vec<Vec<String>>, prefix: &str, fuel: u64) -> (r: Vec<String>)
    ensures
        views(r@) == tree_lines(path_views(paths@), prefix@, fuel as nat),
    decreases fuel, 0int,
{
    if fuel == 0 {
        return Vec::new();
    }
    let n_paths = paths.len();
    let dir_list = collect_dir_names(paths);
    let file_list = collect_file_names(paths);
    let dirs = sort_names(&dir_list);
    let files = sort_names(&file_list);
    proof {
        lemma_names_len(path_views(paths@));
        assert(dir_names(path_views(paths@)).len() == sorted_seq(dir_names(path_views(paths@))).len()) by {
            lemma_sorted_seq_len(dir_names(path_views(paths@)));
        }
        assert(file_names(path_views(paths@)).len() == sorted_seq(file_names(path_views(paths@))).len()) by {
            lemma_sorted_seq_len(file_names(path_views(paths@)));
        }
        assert(views(dirs@).len() == dirs@.len());
        assert(views(files@).len() == files@.len());
        assert(path_views(paths@).len() == n_paths);
    }
    let count = dirs.len() + files.len();
    let mut out = render_dirs(paths, &dirs, 0, count, prefix, fuel - 1);
    let file_part = render_files(&files, dirs.len(), count, prefix);
    append_lines(&mut out, file_part);
    out
}

/// The lines of the directory nodes from the `i`-th on (see [`dir_lines`]).
fn render_dirs(
    paths: &Vec<Vec<String>>,
    dirs: &Vec<String>,
    i: usize,
    count: usize,
    prefix: &str,
    fuel: u64,
) -> (r: Vec<String>)
    requires
        i <= dirs@.len() <= count,
    ensures
        views(r@) == dir_lines(
            path_views(paths@),
            views(dirs@),
            i as int,
            count as int,
            prefix@,
            fuel as nat,
        ),
    decreases fuel, dirs@.len() - i,
{
    if i >= dirs.len() {
        return Vec::new();
    }
    let last = i == count - 1;
    let name = &dirs[i];
    let mut out: Vec<String> = Vec::new();
    out.push(node_line(prefix, last, name.as_str(), "/"));
    let sub = collect_sub_paths(paths, name.as_str());
    let mut inner_prefix = String::from_str(prefix);
    if last {
        inner_prefix.append("    ");
    } else {
        inner_prefix.append("│   ");
    }
    let below = render_tree(&sub, inner_prefix.as_str(), fuel);
    append_lines(&mut out, below);
    let rest = render_dirs(paths, dirs, i + 1, count, prefix, fuel);
    append_lines(&mut out, rest);
    proof {
        reveal_strlit("/");
        assert(views(dirs@)[i as int] == name@);
    }
    out
}

/// The lines of the file nodes (see [`file_lines`]).
fn render_files(files: &Vec<String>, start: usize, count: usize, prefix: &str) -> (r: Vec<String>)
    requires
        start + files@.len() == count,
    ensures
        views(r@) == file_lines(views(files@), start as int, count as int, prefix@),
{
    let mut out: Vec<String> = Vec::new();
    let mut k: usize = 0;
    assert(views(files@).take(0) =~= Seq::<Seq<char>>::empty());
    while k < files.len()
        invariant
            start + files@.len() == count,
            k <= files@.len(),
            views(out@) == file_lines(views(files@).take(k as int), start as int, count as int, prefix@),
        decreases files@.len() - k,
    {
        let ghost t = views(files@).take(k + 1);
        assert(t.drop_last() =~= views(files@).take(k as int));
        assert(t.last() == files@[k as int]@);
        let last = start + k == count - 1;
        let line = node_line(prefix, last, files[k].as_str(), "");
        let ghost before = views(out@);
        out.push(line);
        proof {
            reveal_strlit("");
            assert(views(out@) =~= before.push(line@));
        }
        k = k + 1;
    }
    assert(views(files@).take(files@.len() as int) =~= views(files@));
    out
}

/// `s` is in ascending order: no name comes strictly before an earlier one.
pub open spec fn ascending(s: Seq<Seq<char>>) -> bool {
    forall|i: int, j: int| 0 <= i < j < s.len() ==> !char_seq_lt(#[trigger] s[j], #[trigger] s[i])
}

/// "Not before" is transitive.
proof fn lemma_not_below_transitive(a: Seq<char>, b: Seq<char>, c: Seq<char>)
    requires
        !char_seq_lt(b, a),
        !char_seq_lt(c, b),
    ensures
        !char_seq_lt(c, a),
{
    if char_seq_lt(c, a) {
        if a == b {
        } else {
            lemma_char_seq_lt_total(a, b);
            lemma_char_seq_lt_transitive(c, a, b);
        }
    }
}

/// Inserting in order adds exactly the inserted name.
proof fn lemma_insert_sorted_multiset(s: Seq<Seq<char>>, x: Seq<char>)
    ensures
        insert_sorted(s, x).to_multiset() == s.to_multiset().insert(x),
    decreases s.len(),
{
    broadcast use vstd::seq_lib::to_multiset_build, vstd::seq_lib::to_multiset_insert;
    broadcast use vstd::multiset::group_multiset_axioms;

    if s.len() == 0 {
        assert(seq![x] =~= s.push(x));
    } else if char_seq_lt(x, s[0]) {
        assert(seq![x] + s =~= s.insert(0, x));
    } else {
        let t = s.drop_first();
        lemma_insert_sorted_multiset(t, x);
        let u = insert_sorted(t, x);
        assert(seq![s[0]] + u =~= u.insert(0, s[0]));
        assert(s =~= t.insert(0, s[0]));
        assert(u.insert(0, s[0]).to_multiset() == u.to_multiset().insert(s[0]));
        assert(t.insert(0, s[0]).to_multiset() == t.to_multiset().insert(s[0]));
        assert(t.to_multiset().insert(x).insert(s[0]) =~= t.to_multiset().insert(s[0]).insert(x));
    }
}

/// Every name of `insert_sorted(s, x)` is not before `y` when those of `s`
/// and `x` are not.
proof fn lemma_insert_sorted_not_below(s: Seq<Seq<char>>, x: Seq<char>, y: Seq<char>)
    requires
        forall|k: int| 0 <= k < s.len() ==> !char_seq_lt(#[trigger] s[k], y),
        !char_seq_lt(x, y),
    ensures
        forall|k: int|
            0 <= k < insert_sorted(s, x).len() ==> !char_seq_lt(#[trigger] insert_sorted(s, x)[k], y),
    decreases s.len(),
{
    if s.len() > 0 && !char_seq_lt(x, s[0]) {
        let t = s.drop_first();
        assert forall|k: int| 0 <= k < t.len() implies !char_seq_lt(#[trigger] t[k], y) by {
            assert(t[k] == s[k + 1]);
        }
        lemma_insert_sorted_not_below(t, x, y);
        let u = insert_sorted(t, x);
        assert forall|k: int| 0 <= k < insert_sorted(s, x).len() implies !char_seq_lt(
            #[trigger] insert_sorted(s, x)[k],
            y,
        ) by {
            if k > 0 {
                assert(insert_sorted(s, x)[k] == u[k - 1]);
            }
        }
    } else if s.len() > 0 {
        assert forall|k: int| 0 <= k < insert_sorted(s, x).len() implies !char_seq_lt(
            #[trigger] insert_sorted(s, x)[k],
            y,
        ) by {
            if k > 0 {
                assert(insert_sorted(s, x)[k] == s[k - 1]);
            }
        }
    }
}

/// Inserting in order keeps a sequence ascending.
proof fn lemma_insert_sorted_ascending(s: Seq<Seq<char>>, x: Seq<char>)
    requires
        ascending(s),
    ensures
        ascending(insert_sorted(s, x)),
    decreases s.len(),
{
    let r = insert_sorted(s, x);
    if s.len() == 0 {
    } else if char_seq_lt(x, s[0]) {
        assert forall|i: int, j: int| 0 <= i < j < r.len() implies !char_seq_lt(
            #[trigger] r[j],
            #[trigger] r[i],
        ) by {
            if i == 0 {
                assert(r[j] == s[j - 1]);
                if j - 1 > 0 {
                    assert(!char_seq_lt(s[j - 1], s[0]));
                } else {
                    lemma_char_seq_lt_irreflexive(s[0]);
                }
                lemma_char_seq_lt_asymmetric(x, s[0]);
                lemma_not_below_transitive(x, s[0], s[j - 1]);
            } else {
                assert(r[i] == s[i - 1]);
                assert(r[j] == s[j - 1]);
            }
        }
    } else {
        let t = s.drop_first();
        assert forall|i: int, j: int| 0 <= i < j < t.len() implies !char_seq_lt(
            #[trigger] t[j],
            #[trigger] t[i],
        ) by {
            assert(t[i] == s[i + 1]);
            assert(t[j] == s[j + 1]);
        }
        lemma_insert_sorted_ascending(t, x);
        assert forall|k: int| 0 <= k < t.len() implies !char_seq_lt(#[trigger] t[k], s[0]) by {
            assert(t[k] == s[k + 1]);
        }
        lemma_insert_sorted_not_below(t, x, s[0]);
        let u = insert_sorted(t, x);
        assert forall|i: int, j: int| 0 <= i < j < r.len() implies !char_seq_lt(
            #[trigger] r[j],
            #[trigger] r[i],
        ) by {
            assert(r[j] == u[j - 1]);
            if i > 0 {
                assert(r[i] == u[i - 1]);
            }
        }
    }
}

/// Sorting a sequence of names gives the same names (as a multiset) in
/// ascending order: the tree lists each level's names sorted, none lost and
/// none added.
pub proof fn law_sorted_seq_is_ascending_permutation(s: Seq<Seq<char>>)
    ensures
        ascending(sorted_seq(s)),
        sorted_seq(s).to_multiset() == s.to_multiset(),
    decreases s.len(),
{
    broadcast use vstd::seq_lib::to_multiset_build;

    if s.len() > 0 {
        law_sorted_seq_is_ascending_permutation(s.drop_last());
        lemma_insert_sorted_ascending(sorted_seq(s.drop_last()), s.last());
        lemma_insert_sorted_multiset(sorted_seq(s.drop_last()), s.last());
        assert(s =~= s.drop_last().push(s.last()));
    } else {
        assert(sorted_seq(s) == s);
    }
}

/// A directory is named once per level.
proof fn lemma_dir_names_distinct(paths: Seq<Seq<Seq<char>>>)
    ensures
        dir_names(paths).no_duplicates(),
    decreases paths.len(),
{
    if paths.len() > 0 {
        lemma_dir_names_distinct(paths.drop_last());
        let before = dir_names(paths.drop_last());
        let p = paths.last();
        if p.len() >= 2 && !before.contains(p[0]) {
            assert forall|i: int, j: int|
                0 <= i < before.push(p[0]).len() && 0 <= j < before.push(p[0]).len() && i != j
                implies before.push(p[0])[i] != before.push(p[0])[j] by {
                if i == before.len() {
                    assert(before[j] == before.push(p[0])[j]);
                } else if j == before.len() {
                    assert(before[i] == before.push(p[0])[i]);
                }
            }
        }
    }
}

/// At each level of the tree the directories are listed in strictly
/// ascending name order, each once, and so are the names of the level's
/// files in ascending order (a file name may repeat).
pub proof fn law_level_names_ordered(paths: Seq<Seq<Seq<char>>>)
    ensures
        strictly_sorted(sorted_seq(dir_names(paths))),
        sorted_seq(dir_names(paths)).to_multiset() == dir_names(paths).to_multiset(),
        ascending(sorted_seq(file_names(paths))),
        sorted_seq(file_names(paths)).to_multiset() == file_names(paths).to_multiset(),
{
    let d = dir_names(paths);
    let sd = sorted_seq(d);
    law_sorted_seq_is_ascending_permutation(d);
    law_sorted_seq_is_ascending_permutation(file_names(paths));
    lemma_dir_names_distinct(paths);
    d.lemma_multiset_has_no_duplicates();
    sd.lemma_multiset_has_no_duplicates_conv();
    assert forall|i: int, j: int| 0 <= i < j < sd.len() implies char_seq_lt(
        #[trigger] sd[i],
        #[trigger] sd[j],
    ) by {
        assert(!char_seq_lt(sd[j], sd[i]));
        assert(sd[i] != sd[j]);
        lemma_char_seq_lt_total(sd[i], sd[j]);
    }
}

/// Whether `line` ends with `x`.
pub open spec fn ends_with(line: Seq<char>, x: Seq<char>) -> bool {
    line.len() >= x.len() && line.subrange(line.len() - x.len(), line.len() as int) == x
}

/// Whether some line of `lines` ends with `x`.
pub open spec fn shows(lines: Seq<Seq<char>>, x: Seq<char>) -> bool {
    exists|k: int| 0 <= k < lines.len() && ends_with(#[trigger] lines[k], x)
}

/// A line shown by a part of the lines is shown by the whole.
proof fn lemma_shows_concat(a: Seq<Seq<char>>, b: Seq<Seq<char>>, x: Seq<char>)
    ensures
        shows(a, x) ==> shows(a + b, x),
        shows(b, x) ==> shows(a + b, x),
{
    if shows(a, x) {
        let k = choose|k: int| 0 <= k < a.len() && ends_with(#[trigger] a[k], x);
        assert((a + b)[k] == a[k]);
    }
    if shows(b, x) {
        let k = choose|k: int| 0 <= k < b.len() && ends_with(#[trigger] b[k], x);
        assert((a + b)[a.len() + k] == b[k]);
    }
}

/// A one-component path puts its name among the files of the level.
proof fn lemma_file_names_has(paths: Seq<Seq<Seq<char>>>, p: Seq<Seq<char>>)
    requires
        paths.contains(p),
        p.len() == 1,
    ensures
        file_names(paths).contains(p[0]),
    decreases paths.len(),
{
    if paths.last() == p {
        assert(file_names(paths) == file_names(paths.drop_last()).push(p[0]));
        assert(file_names(paths).last() == p[0]);
    } else {
        let k = choose|k: int| 0 <= k < paths.len() && paths[k] == p;
        assert(paths.drop_last()[k] == p);
        lemma_file_names_has(paths.drop_last(), p);
        let before = file_names(paths.drop_last());
        let j = choose|j: int| 0 <= j < before.len() && before[j] == p[0];
        if paths.last().len() == 1 {
            assert(file_names(paths)[j] == before[j]);
        }
    }
}

/// A longer path puts its first component among the directories of the
/// level.
proof fn lemma_dir_names_has(paths: Seq<Seq<Seq<char>>>, p: Seq<Seq<char>>)
    requires
        paths.contains(p),
        p.len() >= 2,
    ensures
        dir_names(paths).contains(p[0]),
    decreases paths.len(),
{
    let before = dir_names(paths.drop_last());
    if paths.last() == p {
        if !before.contains(p[0]) {
            assert(dir_names(paths).last() == p[0]);
        }
    } else {
        let k = choose|k: int| 0 <= k < paths.len() && paths[k] == p;
        assert(paths.drop_last()[k] == p);
        lemma_dir_names_has(paths.drop_last(), p);
        let j = choose|j: int| 0 <= j < before.len() && before[j] == p[0];
        let q = paths.last();
        if q.len() >= 2 && !before.contains(q[0]) {
            assert(dir_names(paths)[j] == before[j]);
        }
    }
}

/// A longer path continues below its first component.
proof fn lemma_sub_paths_has(paths: Seq<Seq<Seq<char>>>, p: Seq<Seq<char>>)
    requires
        paths.contains(p),
        p.len() >= 2,
    ensures
        sub_paths(paths, p[0]).contains(p.drop_first()),
    decreases paths.len(),
{
    let before = sub_paths(paths.drop_last(), p[0]);
    if paths.last() == p {
        assert(sub_paths(paths, p[0]).last() == p.drop_first());
    } else {
        let k = choose|k: int| 0 <= k < paths.len() && paths[k] == p;
        assert(paths.drop_last()[k] == p);
        lemma_sub_paths_has(paths.drop_last(), p);
        let j = choose|j: int| 0 <= j < before.len() && before[j] == p.drop_first();
        let q = paths.last();
        if q.len() >= 2 && q[0] == p[0] {
            assert(sub_paths(paths, p[0])[j] == before[j]);
        }
    }
}

/// A name is among the sorted names exactly when it is among the names.
proof fn lemma_sorted_seq_contains(s: Seq<Seq<char>>, x: Seq<char>)
    requires
        s.contains(x),
    ensures
        sorted_seq(s).contains(x),
{
    broadcast use vstd::seq_lib::to_multiset_contains;

    law_sorted_seq_is_ascending_permutation(s);
    assert(s.to_multiset().count(x) > 0);
    assert(sorted_seq(s).to_multiset().count(x) > 0);
}

/// The line of the `k`-th file of a level.
proof fn lemma_file_lines_at(files: Seq<Seq<char>>, start: int, count: int, prefix: Seq<char>, k: int)
    requires
        0 <= k < files.len(),
    ensures
        file_lines(files, start, count, prefix).len() == files.len(),
        file_lines(files, start, count, prefix)[k] == prefix + connector(start + k == count - 1)
            + files[k],
    decreases files.len(),
{
    lemma_file_lines_len(files.drop_last(), start, count, prefix);
    if k < files.len() - 1 {
        lemma_file_lines_at(files.drop_last(), start, count, prefix, k);
    }
}

/// A level has one file line per file.
proof fn lemma_file_lines_len(files: Seq<Seq<char>>, start: int, count: int, prefix: Seq<char>)
    ensures
        file_lines(files, start, count, prefix).len() == files.len(),
    decreases files.len(),
{
    if files.len() > 0 {
        lemma_file_lines_len(files.drop_last(), start, count, prefix);
    }
}

/// The lines below the `i`-th directory are among the directory lines from
/// the `j`-th on.
proof fn lemma_dir_lines_shows(
    paths: Seq<Seq<Seq<char>>>,
    dirs: Seq<Seq<char>>,
    j: int,
    i: int,
    count: int,
    prefix: Seq<char>,
    fuel: nat,
    x: Seq<char>,
)
    requires
        0 <= j <= i < dirs.len(),
        shows(tree_lines(sub_paths(paths, dirs[i]), child_prefix(prefix, i == count - 1), fuel), x),
    ensures
        shows(dir_lines(paths, dirs, j, count, prefix, fuel), x),
    decreases i - j,
{
    let head = seq![prefix + connector(j == count - 1) + dirs[j] + "/"@];
    let below = tree_lines(sub_paths(paths, dirs[j]), child_prefix(prefix, j == count - 1), fuel);
    let rest = dir_lines(paths, dirs, j + 1, count, prefix, fuel);
    assert(dir_lines(paths, dirs, j, count, prefix, fuel) == head + below + rest);
    if j == i {
        lemma_shows_concat(head, below, x);
        lemma_shows_concat(head + below, rest, x);
    } else {
        lemma_dir_lines_shows(paths, dirs, j + 1, i, count, prefix, fuel, x);
        lemma_shows_concat(head + below, rest, x);
    }
}

/// Every path of at most `fuel` components has a line of the tree that ends
/// with its last component.
proof fn lemma_tree_shows_path(
    paths: Seq<Seq<Seq<char>>>,
    prefix: Seq<char>,
    fuel: nat,
    p: Seq<Seq<char>>,
)
    requires
        paths.contains(p),
        1 <= p.len() <= fuel,
    ensures
        shows(tree_lines(paths, prefix, fuel), p.last()),
    decreases p.len(),
{
    let dirs = sorted_seq(dir_names(paths));
    let files = sorted_seq(file_names(paths));
    let count: int = (dirs.len() + files.len()) as int;
    let dpart = dir_lines(paths, dirs, 0, count, prefix, (fuel - 1) as nat);
    let fpart = file_lines(files, dirs.len() as int, count, prefix);
    assert(tree_lines(paths, prefix, fuel) == dpart + fpart);
    if p.len() == 1 {
        lemma_file_names_has(paths, p);
        lemma_sorted_seq_contains(file_names(paths), p[0]);
        let k = choose|k: int| 0 <= k < files.len() && files[k] == p[0];
        lemma_file_lines_at(files, dirs.len() as int, count, prefix, k);
        let line = fpart[k];
        let a = prefix + connector(dirs.len() + k == count - 1);
        assert(line == a + p[0]);
        assert(line.subrange(line.len() - p[0].len(), line.len() as int) =~= p[0]);
        assert(ends_with(fpart[k], p.last()));
        lemma_shows_concat(dpart, fpart, p.last());
    } else {
        lemma_dir_names_has(paths, p);
        lemma_sorted_seq_contains(dir_names(paths), p[0]);
        let i = choose|i: int| 0 <= i < dirs.len() && dirs[i] == p[0];
        lemma_sub_paths_has(paths, p);
        let rest = p.drop_first();
        assert(rest.last() == p.last());
        lemma_tree_shows_path(
            sub_paths(paths, dirs[i]),
            child_prefix(prefix, i == count - 1),
            (fuel - 1) as nat,
            rest,
        );
        lemma_dir_lines_shows(paths, dirs, 0, i, count, prefix, (fuel - 1) as nat, p.last());
        lemma_shows_concat(dpart, fpart, p.last());
    }
}

/// The greatest number of components bounds every path.
proof fn lemma_max_len_bounds(paths: Seq<Seq<Seq<char>>>, k: int)
    requires
        0 <= k < paths.len(),
    ensures
        paths[k].len() <= max_len(paths),
    decreases paths.len(),
{
    if k < paths.len() - 1 {
        lemma_max_len_bounds(paths.drop_last(), k);
    }
}

/// Nothing of a destination is cut off: the tree of the moves is drawn deep
/// enough for every destination, and for each move some line ends with the
/// last component of its destination (the file's name).
pub proof fn law_tree_shows_every_destination(actions: Seq<MoveRecord>, i: int)
    requires
        0 <= i < actions.len(),
        record_paths(actions)[i].len() > 0,
    ensures
        record_paths(actions)[i].len() <= max_len(record_paths(actions)),
        shows(
            tree_lines(record_paths(actions), ""@, max_len(record_paths(actions))),
            record_paths(actions)[i].last(),
        ),
{
    let paths = record_paths(actions);
    lemma_max_len_bounds(paths, i);
    assert(paths.contains(paths[i]));
    lemma_tree_shows_path(paths, ""@, max_len(paths), paths[i]);
}

/// Sorting keeps the number of names.
proof fn lemma_sorted_seq_len(s: Seq<Seq<char>>)
    ensures
        sorted_seq(s).len() == s.len(),
    decreases s.len(),
{
    if s.len() > 0 {
        lemma_sorted_seq_len(s.drop_last());
        lemma_insert_sorted_len(sorted_seq(s.drop_last()), s.last());
    }
}

/// Inserting adds one element.
proof fn lemma_insert_sorted_len(s: Seq<Seq<char>>, x: Seq<char>)
    ensures
        insert_sorted(s, x).len() == s.len() + 1,
    decreases s.len(),
{
    if s.len() > 0 && !char_seq_lt(x, s[0]) {
        lemma_insert_sorted_len(s.drop_first(), x);
    }
}

/// The lines that show the moves' destinations as a tree, top to bottom;
/// none for no moves.
pub fn print_move_tree(actions: &Vec<MoveRecord>) -> (r: Vec<String>)
    ensures
        views(r@) == tree_lines(record_paths(actions@), ""@, max_len(record_paths(actions@))),
{
    let mut paths: Vec<Vec<String>> = Vec::new();
    let mut depth: u64 = 0;
    let mut i: usize = 0;
    assert(record_paths(actions@).take(0) =~= Seq::<Seq<Seq<char>>>::empty());
    while i < actions.len()
        invariant
            i <= actions@.len(),
            path_views(paths@) == record_paths(actions@).take(i as int),
            depth == max_len(record_paths(actions@).take(i as int)),
        decreases actions@.len() - i,
    {
        let comps = path_components(actions[i].dest_relative.as_str());
        let ghost t = record_paths(actions@).take(i + 1);
        assert(t.drop_last() =~= record_paths(actions@).take(i as int));
        assert(t.last() == views(comps@));
        if comps.len() as u64 > depth {
            depth = comps.len() as u64;
        }
        let ghost before = path_views(paths@);
        paths.push(comps);
        assert(path_views(paths@) =~= before.push(t.last()));
        i = i + 1;
    }
    assert(record_paths(actions@).take(actions@.len() as int) =~= record_paths(actions@));
    proof {
        reveal_strlit("");
    }
    render_tree(&paths, "", depth)
}

} // verus!
