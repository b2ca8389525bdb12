//! The catalog of known tools: a list that maps a tool's name to the
//! repository that publishes it.

use vstd::prelude::*;
use vstd::hash_map::StringHashMap;
use crate::text::{contains, occurs_in, same_text};

verus! {

/// One known tool.
#[derive(Debug)]
pub struct CliTool {
    pub name: String,
    pub repo: String,
    pub description: String,
}

/// The known tools, in the order they were added.
#[derive(Debug)]
pub struct CliToolsConfig {
    pub tools: Vec<CliTool>,
}

/// Why the catalog refused something.
#[derive(Clone, Copy, Debug, PartialEq, Eq, Structural)]
pub enum CatalogError {
    /// A tool of that name is in the catalog already.
    DuplicateName,
    /// No tool of that name is in the catalog.
    UnknownTool,
}

/// The name, repository and description of a tool, as characters.
pub open spec fn tool_texts(t: CliTool) -> (Seq<char>, Seq<char>, Seq<char>) {
    (t.name@, t.repo@, t.description@)
}

/// The texts of each tool of a list.
pub open spec fn catalog_texts(tools: Seq<CliTool>) -> Seq<(Seq<char>, Seq<char>, Seq<char>)> {
    Seq::new(tools.len(), |i: int| tool_texts(tools[i]))
}

/// A tool of that name is in the list.
pub open spec fn has_tool(tools: Seq<CliTool>, name: Seq<char>) -> bool {
    exists|i: int| 0 <= i < tools.len() && (#[trigger] tools[i]).name@ == name
}

/// The map from each tool's name to its repository. Of two tools of one
/// name the later one counts.
pub open spec fn tools_map(tools: Seq<CliTool>) -> Map<Seq<char>, Seq<char>>
    decreases tools.len(),
{
    if tools.len() == 0 {
        Map::empty()
    } else {
        tools_map(tools.drop_last()).insert(tools.last().name@, tools.last().repo@)
    }
}

/// The characters of each value of a map of strings.
pub open spec fn repo_texts(m: Map<Seq<char>, String>) -> Map<Seq<char>, Seq<char>> {
    m.map_values(|s: String| s@)
}

/// The repository that a request names: the request itself where it is a
/// repository path, else the catalog's entry for it.
pub open spec fn requested_repo(request: Seq<char>, m: Map<Seq<char>, Seq<char>>) -> Option<
    Seq<char>,
> {
    if occurs_in("/"@, request) {
        Some(request)
    } else if m.contains_key(request) {
        Some(m[request])
    } else {
        None
    }
}

/// The names in the map are the names of the tools.
pub proof fn lemma_tools_map_names(tools: Seq<CliTool>, name: Seq<char>)
    ensures
        tools_map(tools).contains_key(name) <==> has_tool(tools, name),
    decreases tools.len(),
{
    if tools.len() > 0 {
        let front = tools.drop_last();
        lemma_tools_map_names(front, name);
        if has_tool(front, name) {
            let i = choose|i: int| 0 <= i < front.len() && (#[trigger] front[i]).name@ == name;
            assert(tools[i].name@ == name);
        }
        if tools.last().name@ == name {
            assert(tools[tools.len() - 1].name@ == name);
        }
        if has_tool(tools, name) {
            let i = choose|i: int| 0 <= i < tools.len() && (#[trigger] tools[i]).name@ == name;
            if i < front.len() {
                assert(front[i].name@ == name);
            }
        }
    }
}

/// Whether a tool of that name is in the catalog.
pub fn is_known(config: &CliToolsConfig, name: &str) -> (b: bool)
    ensures
        b == has_tool(config.tools@, name@),
{
    let mut i: usize = 0;
    while i < config.tools.len()
        invariant
            i <= config.tools.len(),
            forall|j: int| 0 <= j < i ==> (#[trigger] config.tools[j]).name@ != name@,
        decreases config.tools.len() - i,
    {
        if same_text(config.tools[i].name.as_str(), name) {
            return true;
        }
        i += 1;
    }
    false
}

/// Adds a tool to the catalog, unless one of that name is in it already.
pub fn add_cli_tool(config: &mut CliToolsConfig, name: &str, repo: &str, description: &str) -> (r:
    Result<(), CatalogError>)
    ensures
        match r {
            Ok(_) => !has_tool(old(config).tools@, name@) && catalog_texts(final(config).tools@)
                == catalog_texts(old(config).tools@).push((name@, repo@, description@)),
            Err(e) => e == CatalogError::DuplicateName && has_tool(old(config).tools@, name@)
                && *final(config) == *old(config),
        },
{
    if is_known(config, name) {
        return Err(CatalogError::DuplicateName);
    }
    let ghost before = catalog_texts(config.tools@);
    config.tools.push(
        CliTool { name: name.to_owned(), repo: repo.to_owned(), description: description.to_owned() },
    );
    assert(catalog_texts(config.tools@) =~= before.push((name@, repo@, description@)));
    Ok(())
}

/// The map from each tool's name to its repository.
pub fn load_cli_tools(config: &CliToolsConfig) -> (m: StringHashMap<String>)
    ensures
        repo_texts(m@) == tools_map(config.tools@),
{
    let mut m: StringHashMap<String> = StringHashMap::new();
    let mut i: usize = 0;
    assert(config.tools@.take(0) =~= Seq::empty());
    assert(repo_texts(m@) =~= tools_map(config.tools@.take(0)));
    while i < config.tools.len()
        invariant
            i <= config.tools.len(),
            repo_texts(m@) == tools_map(config.tools@.take(i as int)),
        decreases config.tools.len() - i,
    {
        let tool = &config.tools[i];
        let ghost before = m@;
        m.insert(tool.name.clone(), tool.repo.clone());
        proof {
            assert(config.tools@.take(i + 1).drop_last() =~= config.tools@.take(i as int));
            assert(repo_texts(m@) =~= repo_texts(before).insert(tool.name@, tool.repo@));
        }
        i += 1;
    }
    assert(config.tools@.take(config.tools.len() as int) =~= config.tools@);
    m
}

/// The repository to install from for a request that is either a repository
/// path or the name of a known tool.
pub fn resolve_repo(request: &str, known: &StringHashMap<String>) -> (r: Result<
    String,
    CatalogError,
>)
    ensures
        match r {
            Ok(repo) => requested_repo(request@, repo_texts(known@)) == Some(repo@),
            Err(e) => e == CatalogError::UnknownTool && requested_repo(
                request@,
                repo_texts(known@),
            ) is None,
        },
{
    if contains(request, "/") {
        Ok(request.to_owned())
    } else {
        match known.get(request) {
            Some(repo) => Ok(repo.clone()),
            None => Err(CatalogError::UnknownTool),
        }
    }
}

} // verus!
