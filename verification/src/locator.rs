//! Discovery of the executable in the directory tree of an unpacked release.
//!
//! The tree is a snapshot taken by the caller, in directory-listing order.
//! The search goes from the most specific layout to the least: a `bin`
//! directory, a file named like the tool, then a ranking of every plausible
//! file in the tree.

use vstd::prelude::*;
use vstd::string::*;
use vstd::utf8::encode_utf8;
use crate::platform::texts;
use crate::text::{contains, index_of, occurs_in, same_text, starts_with, strip_suffix};

verus! {

/// One entry of a directory: a regular file, or a directory with its entries.
#[derive(Debug)]
pub enum Node {
    File { name: String },
    Dir { name: String, children: Vec<Node> },
}

/// What a search through one directory's entries looks for.
#[derive(Clone, Copy, Debug)]
pub enum Want<'a> {
    /// A directory named `bin`.
    BinDir,
    /// A file whose name starts with the given text.
    FilePrefixed(&'a str),
    /// Any file.
    AnyFile,
    /// A file with exactly the given name.
    FileNamed(&'a str),
}

/// A file that may be the executable: the directories that lead to it from
/// the root of the tree, and its name.
#[derive(Debug)]
pub struct Candidate {
    pub dir: Vec<String>,
    pub name: String,
}

impl Candidate {
    /// The names from the root of the tree down to the file.
    pub open spec fn path(&self) -> Seq<Seq<char>> {
        texts(self.dir@).push(self.name@)
    }
}

/// The path of each candidate of a list.
pub open spec fn paths_of(c: Seq<Candidate>) -> Seq<Seq<Seq<char>>> {
    Seq::new(c.len(), |i: int| c[i].path())
}

/// The name of an entry.
pub open spec fn node_name(n: Node) -> Seq<char> {
    match n {
        Node::File { name } => name@,
        Node::Dir { name, children } => name@,
    }
}

/// The entries of a directory; a file has none.
pub open spec fn node_children(n: Node) -> Seq<Node> {
    match n {
        Node::File { name } => Seq::empty(),
        Node::Dir { name, children } => children@,
    }
}

/// The tool name that a working directory's name stands for: the name
/// without its `_temp` ending, and the empty name where it has no such ending.
pub open spec fn expected_name(dir_name: Seq<char>) -> Seq<char> {
    if "_temp"@.is_suffix_of(dir_name) {
        dir_name.take(dir_name.len() - "_temp"@.len())
    } else {
        Seq::empty()
    }
}

/// What a search looks for, over the characters of the names.
pub enum Wanted {
    BinDir,
    FilePrefixed(Seq<char>),
    AnyFile,
    FileNamed(Seq<char>),
}

impl<'a> View for Want<'a> {
    type V = Wanted;

    open spec fn view(&self) -> Wanted {
        match *self {
            Want::BinDir => Wanted::BinDir,
            Want::FilePrefixed(prefix) => Wanted::FilePrefixed(prefix@),
            Want::AnyFile => Wanted::AnyFile,
            Want::FileNamed(name) => Wanted::FileNamed(name@),
        }
    }
}

/// The entry is what the search looks for.
pub open spec fn wanted(w: Wanted, n: Node) -> bool {
    match w {
        Wanted::BinDir => n is Dir && node_name(n) == "bin"@,
        Wanted::FilePrefixed(prefix) => n is File && prefix.is_prefix_of(node_name(n)),
        Wanted::AnyFile => n is File,
        Wanted::FileNamed(name) => n is File && node_name(n) == name,
    }
}

/// The position of the first wanted entry, in listing order.
pub open spec fn first_wanted(entries: Seq<Node>, w: Wanted) -> Option<int>
    decreases entries.len(),
{
    if entries.len() == 0 {
        None
    } else if first_wanted(entries.drop_last(), w) is Some {
        first_wanted(entries.drop_last(), w)
    } else if wanted(w, entries.last()) {
        Some(entries.len() - 1)
    } else {
        None
    }
}

/// A file of this name is documentation or hidden, never the executable.
pub open spec fn is_excluded(name: Seq<char>) -> bool {
    ||| "."@.is_prefix_of(name)
    ||| "LICENSE"@.is_prefix_of(name)
    ||| "README"@.is_prefix_of(name)
    ||| occurs_in(".md"@, name)
    ||| occurs_in(".txt"@, name)
}

/// The paths of the candidate files among the first `n` entries and below
/// them, depth first in listing order. Every directory is entered, one
/// named `bin` like any other.
pub open spec fn walk(entries: Seq<Node>, n: nat, prefix: Seq<Seq<char>>) -> Seq<Seq<Seq<char>>>
    decreases entries, n,
{
    if n == 0 || n > entries.len() {
        Seq::empty()
    } else {
        let before = walk(entries, (n - 1) as nat, prefix);
        match entries[n - 1] {
            Node::File { name } => if is_excluded(name@) {
                before
            } else {
                before.push(prefix.push(name@))
            },
            Node::Dir { name, children } => before + walk(
                children@,
                children@.len(),
                prefix.push(name@),
            ),
        }
    }
}

/// All candidate paths of a tree.
pub open spec fn candidate_paths(entries: Seq<Node>) -> Seq<Seq<Seq<char>>> {
    walk(entries, entries.len(), Seq::empty())
}

/// The position of the first path whose last name is the given one.
pub open spec fn first_named(paths: Seq<Seq<Seq<char>>>, name: Seq<char>) -> Option<int>
    decreases paths.len(),
{
    if paths.len() == 0 {
        None
    } else if first_named(paths.drop_last(), name) is Some {
        first_named(paths.drop_last(), name)
    } else if paths.last().len() > 0 && paths.last().last() == name {
        Some(paths.len() - 1)
    } else {
        None
    }
}

/// The name has a dot in it.
pub open spec fn has_extension(name: Seq<char>) -> bool {
    occurs_in("."@, name)
}

/// The length of a name as it is measured for ranking: in bytes of its
/// UTF-8 form, as far as a machine word counts them.
pub open spec fn name_length(name: Seq<char>) -> usize {
    encode_utf8(name).len() as usize
}

/// A file named `a` is a likelier executable than one named `b`: a name
/// without a dot goes before one with a dot, and among names alike in that
/// the shorter goes first. This is a heuristic, kept as it is.
pub open spec fn outranks(a: Seq<char>, b: Seq<char>) -> bool {
    ||| !has_extension(a) && has_extension(b)
    ||| has_extension(a) == has_extension(b) && name_length(a) < name_length(b)
}

/// The last name of a path; the empty name for the empty path.
pub open spec fn file_name(path: Seq<Seq<char>>) -> Seq<char> {
    if path.len() > 0 {
        path.last()
    } else {
        Seq::empty()
    }
}

/// The position of the likeliest executable among the paths: the earliest
/// one that no other outranks.
pub open spec fn best_position(paths: Seq<Seq<Seq<char>>>) -> int
    decreases paths.len(),
{
    if paths.len() <= 1 {
        0
    } else {
        let b = best_position(paths.drop_last());
        if outranks(file_name(paths.last()), file_name(paths[b])) {
            paths.len() - 1
        } else {
            b
        }
    }
}

/// The path of the executable in a tree, for an expected tool name.
///
/// In order: the first file in `bin` whose name starts with the expected
/// name; the first file in `bin`; a file of the expected name at the root;
/// the first candidate of the expected name anywhere; the likeliest
/// candidate; nothing where there is no candidate.
pub open spec fn located(expected: Seq<char>, entries: Seq<Node>) -> Option<Seq<Seq<char>>> {
    let bin = first_wanted(entries, Wanted::BinDir);
    let in_bin = if bin is Some {
        node_children(entries[bin->0])
    } else {
        Seq::empty()
    };
    let named_in_bin = first_wanted(in_bin, Wanted::FilePrefixed(expected));
    let any_in_bin = first_wanted(in_bin, Wanted::AnyFile);
    let direct = first_wanted(entries, Wanted::FileNamed(expected));
    let paths = candidate_paths(entries);
    let exact = first_named(paths, expected);
    if named_in_bin is Some {
        Some(seq!["bin"@, node_name(in_bin[named_in_bin->0])])
    } else if any_in_bin is Some {
        Some(seq!["bin"@, node_name(in_bin[any_in_bin->0])])
    } else if direct is Some {
        Some(seq![expected])
    } else if exact is Some {
        Some(paths[exact->0])
    } else if paths.len() > 0 {
        Some(paths[best_position(paths)])
    } else {
        None
    }
}

/// The first wanted entry is wanted, and no entry before it is; where
/// there is none, no entry is wanted.
pub proof fn lemma_first_wanted_is_first(entries: Seq<Node>, w: Wanted)
    ensures
        match first_wanted(entries, w) {
            Some(i) => 0 <= i < entries.len() && wanted(w, entries[i]) && forall|j: int|
                0 <= j < i ==> !wanted(w, #[trigger] entries[j]),
            None => forall|j: int| 0 <= j < entries.len() ==> !wanted(w, #[trigger] entries[j]),
        },
    decreases entries.len(),
{
    if entries.len() > 0 {
        lemma_first_wanted_is_first(entries.drop_last(), w);
        assert(forall|j: int|
            0 <= j < entries.len() - 1 ==> entries.drop_last()[j] == #[trigger] entries[j]);
    }
}

/// What is first among the first `n` entries is first among all.
pub proof fn lemma_first_wanted_extends(entries: Seq<Node>, n: int, w: Wanted)
    requires
        0 <= n <= entries.len(),
        first_wanted(entries.take(n), w) is Some,
    ensures
        first_wanted(entries, w) == first_wanted(entries.take(n), w),
    decreases entries.len() - n,
{
    if n < entries.len() {
        assert(entries.take(n + 1).drop_last() =~= entries.take(n));
        lemma_first_wanted_extends(entries, n + 1, w);
    } else {
        assert(entries.take(n) =~= entries);
    }
}

/// What is the first path of a name among the first `n` paths is the first among all.
pub proof fn lemma_first_named_extends(paths: Seq<Seq<Seq<char>>>, n: int, name: Seq<char>)
    requires
        0 <= n <= paths.len(),
        first_named(paths.take(n), name) is Some,
    ensures
        first_named(paths, name) == first_named(paths.take(n), name),
    decreases paths.len() - n,
{
    if n < paths.len() {
        assert(paths.take(n + 1).drop_last() =~= paths.take(n));
        lemma_first_named_extends(paths, n + 1, name);
    } else {
        assert(paths.take(n) =~= paths);
    }
}

/// Ranking picks the earliest path that none outranks: no path outranks
/// the one at the best position, and that one outranks every path before it.
pub proof fn lemma_best_position_is_best(paths: Seq<Seq<Seq<char>>>)
    requires
        paths.len() > 0,
    ensures
        0 <= best_position(paths) < paths.len(),
        forall|j: int|
            0 <= j < paths.len() ==> !outranks(
                file_name(#[trigger] paths[j]),
                file_name(paths[best_position(paths)]),
            ),
        forall|j: int|
            0 <= j < best_position(paths) ==> outranks(
                file_name(paths[best_position(paths)]),
                file_name(#[trigger] paths[j]),
            ),
    decreases paths.len(),
{
    if paths.len() > 1 {
        let front = paths.drop_last();
        lemma_best_position_is_best(front);
        assert(forall|j: int| 0 <= j < front.len() ==> front[j] == #[trigger] paths[j]);
    }
}

/// The path leads through directories of the tree to one of its files.
pub open spec fn names_file(entries: Seq<Node>, path: Seq<Seq<char>>) -> bool
    decreases path.len(),
{
    path.len() > 0 && exists|i: int|
        0 <= i < entries.len() && node_name(#[trigger] entries[i]) == path[0] && if path.len()
            == 1 {
            entries[i] is File
        } else {
            entries[i] is Dir && names_file(node_children(entries[i]), path.drop_first())
        }
}

/// Every candidate path starts with the prefix it was collected under and
/// goes on to a file of the tree whose name is not excluded.
pub proof fn lemma_walk_names_files(entries: Seq<Node>, n: nat, prefix: Seq<Seq<char>>, k: int)
    requires
        n <= entries.len(),
        0 <= k < walk(entries, n, prefix).len(),
    ensures
        walk(entries, n, prefix)[k].len() > prefix.len(),
        walk(entries, n, prefix)[k].take(prefix.len() as int) == prefix,
        names_file(entries, walk(entries, n, prefix)[k].skip(prefix.len() as int)),
        !is_excluded(walk(entries, n, prefix)[k].last()),
    decreases entries, n,
{
    let before = walk(entries, (n - 1) as nat, prefix);
    let p = walk(entries, n, prefix)[k];
    if k < before.len() {
        lemma_walk_names_files(entries, (n - 1) as nat, prefix, k);
    } else {
        match entries[n - 1] {
            Node::File { name } => {
                assert(p == prefix.push(name@));
                assert(p.take(prefix.len() as int) =~= prefix);
                assert(p.skip(prefix.len() as int) =~= seq![name@]);
                assert(node_name(entries[n - 1]) == name@);
            },
            Node::Dir { name, children } => {
                let below = prefix.push(name@);
                let j = k - before.len();
                lemma_walk_names_files(children@, children@.len(), below, j);
                assert(p == walk(children@, children@.len(), below)[j]);
                assert(p.take(prefix.len() as int) =~= p.take(below.len() as int).take(
                    prefix.len() as int,
                ));
                assert(p.take(prefix.len() as int) =~= prefix);
                let rest = p.skip(prefix.len() as int);
                assert(rest[0] == p.take(below.len() as int)[prefix.len() as int]);
                assert(rest.drop_first() =~= p.skip(below.len() as int));
                assert(node_name(entries[n - 1]) == rest[0]);
                assert(node_children(entries[n - 1]) == children@);
            },
        }
    }
}

/// What is located is a file of the tree: the result, where there is one,
/// leads through directories of the tree to one of its files.
pub proof fn lemma_located_names_file(expected: Seq<char>, entries: Seq<Node>)
    ensures
        located(expected, entries) matches Some(p) ==> names_file(entries, p),
{
    let bin = first_wanted(entries, Wanted::BinDir);
    let in_bin = if bin is Some {
        node_children(entries[bin->0])
    } else {
        Seq::empty()
    };
    let named_in_bin = first_wanted(in_bin, Wanted::FilePrefixed(expected));
    let any_in_bin = first_wanted(in_bin, Wanted::AnyFile);
    let direct = first_wanted(entries, Wanted::FileNamed(expected));
    let paths = candidate_paths(entries);
    let exact = first_named(paths, expected);
    lemma_first_wanted_is_first(entries, Wanted::BinDir);
    lemma_first_wanted_is_first(in_bin, Wanted::FilePrefixed(expected));
    lemma_first_wanted_is_first(in_bin, Wanted::AnyFile);
    lemma_first_wanted_is_first(entries, Wanted::FileNamed(expected));
    if named_in_bin is Some || any_in_bin is Some {
        let k = if named_in_bin is Some {
            named_in_bin->0
        } else {
            any_in_bin->0
        };
        let p = seq!["bin"@, node_name(in_bin[k])];
        assert(p.drop_first() =~= seq![node_name(in_bin[k])]);
        assert(names_file(in_bin, p.drop_first()));
        assert(node_name(entries[bin->0]) == p[0]);
    } else if direct is Some {
        assert(node_name(entries[direct->0]) == seq![expected][0]);
    } else if paths.len() > 0 {
        let x = if exact is Some {
            lemma_first_named_is_first(paths, expected);
            exact->0
        } else {
            lemma_best_position_is_best(paths);
            best_position(paths)
        };
        lemma_walk_names_files(entries, entries.len(), Seq::empty(), x);
        assert(paths[x].skip(0) =~= paths[x]);
    } else {
        lemma_first_named_is_first(paths, expected);
    }
}

/// A `bin` directory that holds a file decides the search: the result is a
/// file in it, whatever else the tree holds.
pub proof fn lemma_bin_takes_priority(expected: Seq<char>, entries: Seq<Node>, b: int, k: int)
    requires
        first_wanted(entries, Wanted::BinDir) == Some(b),
        0 <= k < node_children(entries[b]).len(),
        node_children(entries[b])[k] is File,
    ensures
        located(expected, entries) matches Some(p) && p.len() == 2 && p[0] == "bin"@
            && names_file(node_children(entries[b]), seq![p[1]]),
{
    let in_bin = node_children(entries[b]);
    lemma_first_wanted_is_first(in_bin, Wanted::FilePrefixed(expected));
    lemma_first_wanted_is_first(in_bin, Wanted::AnyFile);
    assert(wanted(Wanted::AnyFile, in_bin[k]));
    let named_in_bin = first_wanted(in_bin, Wanted::FilePrefixed(expected));
    let any_in_bin = first_wanted(in_bin, Wanted::AnyFile);
    let x = if named_in_bin is Some {
        named_in_bin->0
    } else {
        any_in_bin->0
    };
    assert(node_name(in_bin[x]) == seq![node_name(in_bin[x])][0]);
}

/// The first path of a name has that name, and no path before it has;
/// where there is none, no path has the name.
pub proof fn lemma_first_named_is_first(paths: Seq<Seq<Seq<char>>>, name: Seq<char>)
    ensures
        match first_named(paths, name) {
            Some(i) => 0 <= i < paths.len() && paths[i].len() > 0 && paths[i].last() == name
                && forall|j: int|
                0 <= j < i ==> !((#[trigger] paths[j]).len() > 0 && paths[j].last() == name),
            None => forall|j: int|
                0 <= j < paths.len() ==> !((#[trigger] paths[j]).len() > 0 && paths[j].last()
                    == name),
        },
    decreases paths.len(),
{
    if paths.len() > 0 {
        lemma_first_named_is_first(paths.drop_last(), name);
        assert(forall|j: int|
            0 <= j < paths.len() - 1 ==> paths.drop_last()[j] == #[trigger] paths[j]);
    }
}

/// The tool name that a working directory's name stands for.
pub fn expected_tool_name(dir_name: &str) -> (r: &str)
    ensures
        r@ == expected_name(dir_name@),
{
    match strip_suffix(dir_name, "_temp") {
        Some(rest) => {
            proof {
                assert(rest@ =~= (rest@ + "_temp"@).take(rest@.len() as int));
                assert("_temp"@.is_suffix_of(rest@ + "_temp"@)) by {
                    let whole = rest@ + "_temp"@;
                    assert(whole.subrange(whole.len() - "_temp"@.len(), whole.len() as int)
                        =~= "_temp"@);
                }
            }
            rest
        },
        None => {
            proof {
                reveal_strlit("");
                assert(""@ =~= Seq::<char>::empty());
            }
            ""
        },
    }
}

/// Whether an entry is what a search looks for.
pub fn is_wanted(want: Want, node: &Node) -> (b: bool)
    ensures
        b == wanted(want@, *node),
{
    match node {
        Node::File { name } => match want {
            Want::BinDir => false,
            Want::FilePrefixed(prefix) => starts_with(name.as_str(), prefix),
            Want::AnyFile => true,
            Want::FileNamed(wanted_name) => same_text(name.as_str(), wanted_name),
        },
        Node::Dir { name, .. } => match want {
            Want::BinDir => same_text(name.as_str(), "bin"),
            _ => false,
        },
    }
}

/// The position of the first wanted entry of a directory, in listing order.
pub fn find_first(entries: &Vec<Node>, want: Want) -> (r: Option<usize>)
    ensures
        index_of(r) == first_wanted(entries@, want@),
        r matches Some(i) ==> i < entries.len(),
{
    let mut i: usize = 0;
    assert(entries@.take(0) =~= Seq::empty());
    while i < entries.len()
        invariant
            i <= entries.len(),
            first_wanted(entries@.take(i as int), want@) is None,
        decreases entries.len() - i,
    {
        proof {
            assert(entries@.take(i + 1).drop_last() =~= entries@.take(i as int));
        }
        if is_wanted(want, &entries[i]) {
            proof {
                lemma_first_wanted_extends(entries@, i + 1, want@);
            }
            return Some(i);
        }
        i += 1;
    }
    assert(entries@.take(entries.len() as int) =~= entries@);
    None
}

/// The position of the first candidate of the given name.
pub fn find_named(candidates: &Vec<Candidate>, name: &str) -> (r: Option<usize>)
    ensures
        index_of(r) == first_named(paths_of(candidates@), name@),
        r matches Some(i) ==> i < candidates.len(),
{
    let ghost paths = paths_of(candidates@);
    let mut i: usize = 0;
    assert(paths.take(0) =~= Seq::empty());
    while i < candidates.len()
        invariant
            i <= candidates.len(),
            paths == paths_of(candidates@),
            first_named(paths.take(i as int), name@) is None,
        decreases candidates.len() - i,
    {
        proof {
            assert(paths.take(i + 1).drop_last() =~= paths.take(i as int));
            assert(paths.take(i + 1).last() == candidates[i as int].path());
        }
        if same_text(candidates[i].name.as_str(), name) {
            proof {
                lemma_first_named_extends(paths, i + 1, name@);
            }
            return Some(i);
        }
        i += 1;
    }
    assert(paths.take(candidates.len() as int) =~= paths);
    None
}

/// Whether a file named `a` is a likelier executable than one named `b`.
pub fn is_likelier(a: &str, b: &str) -> (r: bool)
    ensures
        r == outranks(a@, b@),
{
    let a_ext = contains(a, ".");
    let b_ext = contains(b, ".");
    if a_ext != b_ext {
        !a_ext
    } else {
        a.len() < b.len()
    }
}

/// The position of the likeliest executable among the candidates, or
/// nothing where there is no candidate.
pub fn best_candidate(candidates: &Vec<Candidate>) -> (r: Option<usize>)
    ensures
        r is None <==> candidates.len() == 0,
        r matches Some(b) ==> b < candidates.len() && b as int == best_position(
            paths_of(candidates@),
        ),
{
    if candidates.len() == 0 {
        return None;
    }
    let ghost paths = paths_of(candidates@);
    let mut best: usize = 0;
    let mut i: usize = 1;
    while i < candidates.len()
        invariant
            1 <= i <= candidates.len(),
            paths == paths_of(candidates@),
            best < i,
            best == best_position(paths.take(i as int)),
        decreases candidates.len() - i,
    {
        proof {
            assert(paths.take(i + 1).drop_last() =~= paths.take(i as int));
            assert(paths.take(i + 1).last() == candidates[i as int].path());
            assert(paths.take(i as int)[best as int] == candidates[best as int].path());
        }
        if is_likelier(candidates[i].name.as_str(), candidates[best].name.as_str()) {
            best = i;
        }
        i += 1;
    }
    assert(paths.take(candidates.len() as int) =~= paths);
    Some(best)
}

/// A copy of a list of names.
pub fn copy_names(names: &Vec<String>) -> (r: Vec<String>)
    ensures
        texts(r@) == texts(names@),
{
    let mut r: Vec<String> = Vec::new();
    let mut i: usize = 0;
    while i < names.len()
        invariant
            i <= names.len(),
            r.len() == i,
            forall|j: int| 0 <= j < i ==> (#[trigger] r[j])@ == names[j]@,
        decreases names.len() - i,
    {
        r.push(names[i].clone());
        i += 1;
    }
    assert(texts(r@) =~= texts(names@));
    r
}

/// Whether a file of this name is left out of the candidates.
pub fn is_excluded_name(name: &str) -> (b: bool)
    ensures
        b == is_excluded(name@),
{
    starts_with(name, ".") || starts_with(name, "LICENSE") || starts_with(name, "README")
        || contains(name, ".md") || contains(name, ".txt")
}

/// Appends to `candidates` the candidate files among the entries and below
/// them, depth first in listing order. `prefix` names the directories that
/// lead to the entries.
pub fn search_directory(entries: &Vec<Node>, prefix: &Vec<String>, candidates: &mut Vec<Candidate>)
    ensures
        paths_of(final(candidates)@) == paths_of(old(candidates)@) + walk(
            entries@,
            entries@.len(),
            texts(prefix@),
        ),
    decreases entries,
{
    let ghost start = paths_of(candidates@);
    let mut i: usize = 0;
    assert(paths_of(candidates@) =~= start + walk(entries@, 0, texts(prefix@)));
    while i < entries.len()
        invariant
            i <= entries.len(),
            paths_of(candidates@) == start + walk(entries@, i as nat, texts(prefix@)),
        decreases entries.len() - i,
    {
        let ghost so_far = paths_of(candidates@);
        match &entries[i] {
            Node::File { name } => {
                if !is_excluded_name(name.as_str()) {
                    candidates.push(Candidate { dir: copy_names(prefix), name: name.clone() });
                    assert(paths_of(candidates@) =~= so_far.push(texts(prefix@).push(name@)));
                }
            },
            Node::Dir { name, children } => {
                let mut below = copy_names(prefix);
                below.push(name.clone());
                assert(texts(below@) =~= texts(prefix@).push(name@));
                search_directory(children, &below, candidates);
            },
        }
        assert(paths_of(candidates@) =~= start + walk(entries@, (i + 1) as nat, texts(prefix@)));
        i += 1;
    }
}

/// The names of a candidate's path, from the root of the tree down to the file.
pub fn path_of(candidate: &Candidate) -> (r: Vec<String>)
    ensures
        texts(r@) == candidate.path(),
{
    let mut r = copy_names(&candidate.dir);
    r.push(candidate.name.clone());
    assert(texts(r@) =~= candidate.path());
    r
}

/// The path of a file in the `bin` directory.
fn path_in_bin(name: &String) -> (r: Vec<String>)
    ensures
        texts(r@) == seq!["bin"@, name@],
{
    let mut r: Vec<String> = Vec::new();
    r.push("bin".to_owned());
    r.push(name.clone());
    assert(texts(r@) =~= seq!["bin"@, name@]);
    r
}

/// The characters of a path, where there is one.
pub open spec fn path_text(r: Option<Vec<String>>) -> Option<Seq<Seq<char>>> {
    match r {
        Some(p) => Some(texts(p@)),
        None => None,
    }
}

/// Finds the executable in the tree of an unpacked release.
///
/// `dir_name` is the name of the directory the release was unpacked into and
/// `entries` are its entries. The result names the file by the names that
/// lead to it from that directory.
pub fn find_executable_recursively(dir_name: &str, entries: &Vec<Node>) -> (r: Option<Vec<String>>)
    ensures
        path_text(r) == located(expected_name(dir_name@), entries@),
{
    let expected = expected_tool_name(dir_name);
    if let Some(b) = find_first(entries, Want::BinDir) {
        proof {
            lemma_first_wanted_is_first(entries@, Wanted::BinDir);
        }
        if let Node::Dir { children, .. } = &entries[b] {
            if let Some(k) = find_first(children, Want::FilePrefixed(expected)) {
                proof {
                    lemma_first_wanted_is_first(children@, Wanted::FilePrefixed(expected@));
                }
                if let Node::File { name } = &children[k] {
                    return Some(path_in_bin(name));
                }
            }
            if let Some(k) = find_first(children, Want::AnyFile) {
                proof {
                    lemma_first_wanted_is_first(children@, Wanted::AnyFile);
                }
                if let Node::File { name } = &children[k] {
                    return Some(path_in_bin(name));
                }
            }
        }
    }
    if find_first(entries, Want::FileNamed(expected)).is_some() {
        let mut r: Vec<String> = Vec::new();
        r.push(expected.to_owned());
        assert(texts(r@) =~= seq![expected@]);
        return Some(r);
    }
    let mut candidates: Vec<Candidate> = Vec::new();
    let root: Vec<String> = Vec::new();
    assert(texts(root@) =~= Seq::empty());
    assert(paths_of(candidates@) =~= Seq::empty());
    search_directory(entries, &root, &mut candidates);
    assert(paths_of(candidates@) =~= candidate_paths(entries@));
    if let Some(x) = find_named(&candidates, expected) {
        return Some(path_of(&candidates[x]));
    }
    match best_candidate(&candidates) {
        Some(b) => Some(path_of(&candidates[b])),
        None => None,
    }
}

} // verus!
