//! The names and addresses an installation works with: the tool name that
//! a repository stands for, the working directory, and the release pages.

use vstd::prelude::*;
use vstd::string::*;
use crate::locator::expected_name;
use crate::text::last_segment;

verus! {

/// How many of the characters are `c`.
pub open spec fn count_of(s: Seq<char>, c: char) -> nat
    decreases s.len(),
{
    if s.len() == 0 {
        0
    } else {
        count_of(s.drop_last(), c) + if s.last() == c {
            1nat
        } else {
            0nat
        }
    }
}

/// The name of the tool that a repository holds: what follows the last `/`
/// of its path, or the whole path where it has none.
pub fn tool_name_of(repo: &str) -> (name: String)
    ensures
        name@ == last_segment(repo@),
{
    let n: usize = repo.unicode_len();
    let mut start: usize = 0;
    let mut i: usize = 0;
    assert(repo@.take(0) =~= Seq::empty());
    assert(repo@.subrange(0, 0) =~= Seq::empty());
    while i < n
        invariant
            n == repo@.len(),
            start <= i <= n,
            last_segment(repo@.take(i as int)) == repo@.subrange(start as int, i as int),
        decreases n - i,
    {
        let c = repo.get_char(i);
        proof {
            assert(repo@.take(i + 1).drop_last() =~= repo@.take(i as int));
            assert(repo@.take(i + 1).last() == c);
        }
        if c == '/' {
            start = i + 1;
            assert(repo@.subrange(start as int, i + 1) =~= Seq::empty());
        } else {
            assert(repo@.subrange(start as int, i + 1) =~= repo@.subrange(
                start as int,
                i as int,
            ).push(c));
        }
        i += 1;
    }
    assert(repo@.take(n as int) =~= repo@);
    repo.substring_char(start, n).to_owned()
}

/// Whether a repository path has the form `owner/repo`: exactly one `/`.
pub fn is_repo_path(repo: &str) -> (b: bool)
    ensures
        b == (count_of(repo@, '/') == 1),
{
    let n: usize = repo.unicode_len();
    let mut slashes: usize = 0;
    let mut i: usize = 0;
    assert(repo@.take(0) =~= Seq::empty());
    while i < n
        invariant
            n == repo@.len(),
            i <= n,
            slashes <= i,
            slashes == count_of(repo@.take(i as int), '/'),
        decreases n - i,
    {
        let c = repo.get_char(i);
        proof {
            assert(repo@.take(i + 1).drop_last() =~= repo@.take(i as int));
            assert(repo@.take(i + 1).last() == c);
        }
        if c == '/' {
            slashes += 1;
        }
        i += 1;
    }
    assert(repo@.take(n as int) =~= repo@);
    slashes == 1
}

/// The name of the directory a release is unpacked into while a tool is
/// installed.
pub fn temp_dir_name(tool: &str) -> (name: String)
    ensures
        name@ == tool@ + "_temp"@,
{
    let mut name: String = tool.to_owned();
    name.append("_temp");
    name
}

/// The executable looked for in a tool's working directory is named like
/// the tool.
pub proof fn lemma_temp_dir_names_its_tool(tool: Seq<char>)
    ensures
        expected_name(tool + "_temp"@) == tool,
{
    let whole = tool + "_temp"@;
    assert(whole.subrange(whole.len() - "_temp"@.len(), whole.len() as int) =~= "_temp"@);
    assert(whole.take(whole.len() - "_temp"@.len()) =~= tool);
}

/// The permission bits of an installed executable: the owner may read,
/// write and run it, everyone else may read and run it.
pub fn executable_mode() -> (mode: u32)
    ensures
        mode == 0o755,
        mode & 0o111 == 0o111,
{
    assert(0o755u32 & 0o111u32 == 0o111u32) by (bit_vector);
    0o755
}

/// The address of the latest release of a repository.
pub fn latest_release_url(repo: &str) -> (url: String)
    ensures
        url@ == "https://api.github.com/repos/"@ + repo@ + "/releases/latest"@,
{
    let mut url: String = "https://api.github.com/repos/".to_owned();
    url.append(repo);
    url.append("/releases/latest");
    url
}

/// The address of the release of a repository under a tag.
pub fn tagged_release_url(repo: &str, version: &str) -> (url: String)
    ensures
        url@ == "https://api.github.com/repos/"@ + repo@ + "/releases/tags/"@ + version@,
{
    let mut url: String = "https://api.github.com/repos/".to_owned();
    url.append(repo);
    url.append("/releases/tags/");
    url.append(version);
    url
}

} // verus!
