//! Selection of the one release asset that fits a platform.
//!
//! The search is positional: patterns in generation order, then file-name
//! endings, then assets in list order. The first asset that satisfies a
//! pattern at an ending is taken; nothing is scored.

use vstd::prelude::*;
use vstd::string::*;
use crate::platform::{
    arch_token, extension_list, os_token, texts, ArchKind, OsKind, PlatformDescriptor,
};
use crate::text::{contains, ends_with, index_of, lowercase, occurs_in, to_lowercase};

verus! {

/// One file uploaded to a release.
#[derive(Debug)]
pub struct Asset {
    pub name: String,
    pub browser_download_url: String,
    pub size: u64,
}

/// A release and its assets, in the order the hosting service lists them.
#[derive(Debug)]
pub struct Release {
    pub tag_name: String,
    pub assets: Vec<Asset>,
}

/// Why no asset was selected.
#[derive(Clone, Copy, Debug, PartialEq, Eq, Structural)]
pub enum ResolveError {
    /// No asset name fits the platform, with or without the tool's name.
    NoMatchingAsset { os: OsKind, arch: ArchKind },
}

/// The four ways an operating system and an architecture spelling are joined.
pub open spec fn joined_forms(os: Seq<char>, arch: Seq<char>) -> Seq<Seq<char>> {
    seq![os + "-"@ + arch, os + "_"@ + arch, os + arch, arch + "-"@ + os]
}

/// The joined forms of one operating system spelling with each architecture
/// spelling in turn.
pub open spec fn joined_patterns(os: Seq<char>, archs: Seq<Seq<char>>) -> Seq<Seq<char>>
    decreases archs.len(),
{
    if archs.len() == 0 {
        Seq::empty()
    } else {
        joined_patterns(os, archs.drop_last()) + joined_forms(os, archs.last())
    }
}

/// All search patterns in generation order: for each operating system
/// spelling its joined forms, then the spelling alone.
pub open spec fn search_patterns(oss: Seq<Seq<char>>, archs: Seq<Seq<char>>) -> Seq<Seq<char>>
    decreases oss.len(),
{
    if oss.len() == 0 {
        Seq::empty()
    } else {
        search_patterns(oss.drop_last(), archs) + joined_patterns(oss.last(), archs).push(
            oss.last(),
        )
    }
}

/// An asset name satisfies a pattern at an ending; with a tool name given,
/// the asset name must hold it too.
pub open spec fn name_matches(
    name: Seq<char>,
    tool: Option<Seq<char>>,
    pattern: Seq<char>,
    ending: Seq<char>,
) -> bool {
    &&& tool matches Some(t) ==> occurs_in(t, name)
    &&& occurs_in(pattern, name)
    &&& ending.is_suffix_of(name)
}

/// Pattern `p`, ending `e` and asset `a` exist and fit together.
pub open spec fn hit(
    names: Seq<Seq<char>>,
    tool: Option<Seq<char>>,
    patterns: Seq<Seq<char>>,
    endings: Seq<Seq<char>>,
    p: int,
    e: int,
    a: int,
) -> bool {
    &&& 0 <= p < patterns.len()
    &&& 0 <= e < endings.len()
    &&& 0 <= a < names.len()
    &&& name_matches(names[a], tool, patterns[p], endings[e])
}

/// The search reaches `(px, ex, ax)` before `(py, ey, ay)`.
pub open spec fn searched_before(px: int, ex: int, ax: int, py: int, ey: int, ay: int) -> bool {
    px < py || (px == py && (ex < ey || (ex == ey && ax < ay)))
}

/// `(p, e, a)` is a hit and the search reaches no hit before it.
pub open spec fn first_hit(
    names: Seq<Seq<char>>,
    tool: Option<Seq<char>>,
    patterns: Seq<Seq<char>>,
    endings: Seq<Seq<char>>,
    p: int,
    e: int,
    a: int,
) -> bool {
    &&& hit(names, tool, patterns, endings, p, e, a)
    &&& forall|py: int, ey: int, ay: int| #[trigger]
        hit(names, tool, patterns, endings, py, ey, ay) ==> !searched_before(py, ey, ay, p, e, a)
}

/// There is no hit at all.
pub open spec fn no_hit(
    names: Seq<Seq<char>>,
    tool: Option<Seq<char>>,
    patterns: Seq<Seq<char>>,
    endings: Seq<Seq<char>>,
) -> bool {
    forall|p: int, e: int, a: int| !#[trigger] hit(names, tool, patterns, endings, p, e, a)
}

/// `r` is the outcome of one pass: the asset of the first hit, or nothing
/// where there is no hit.
pub open spec fn is_selection(
    names: Seq<Seq<char>>,
    tool: Option<Seq<char>>,
    patterns: Seq<Seq<char>>,
    endings: Seq<Seq<char>>,
    r: Option<int>,
) -> bool {
    ||| r is None && no_hit(names, tool, patterns, endings)
    ||| exists|p: int, e: int, a: int| #[trigger]
        first_hit(names, tool, patterns, endings, p, e, a) && r == Some(a)
}

/// `r` is the outcome of both passes: the selection among the assets that
/// hold the tool's name where there is one, else the selection among all.
pub open spec fn is_resolution(
    names: Seq<Seq<char>>,
    tool: Seq<char>,
    patterns: Seq<Seq<char>>,
    endings: Seq<Seq<char>>,
    r: Option<int>,
) -> bool {
    ||| (r is Some && is_selection(names, Some(tool), patterns, endings, r))
    ||| (is_selection(names, Some(tool), patterns, endings, None) && is_selection(
        names,
        None,
        patterns,
        endings,
        r,
    ))
}

/// The lower-case form of each asset's name.
pub open spec fn lowered_names(assets: Seq<Asset>) -> Seq<Seq<char>> {
    Seq::new(assets.len(), |i: int| lowercase(assets[i].name@))
}

/// The characters of a tool name, where one is given.
pub open spec fn tool_text(tool: Option<&str>) -> Option<Seq<char>> {
    match tool {
        Some(t) => Some(t@),
        None => None,
    }
}

/// The text of the failure, which names the platform by its canonical tokens.
pub open spec fn error_text(e: ResolveError) -> Seq<char> {
    match e {
        ResolveError::NoMatchingAsset { os, arch } => "No suitable asset found for your platform ("@
            + os_token(os) + "-"@ + arch_token(arch) + ")"@,
    }
}

impl ResolveError {
    /// The text of the failure.
    pub fn message(&self) -> (s: String)
        ensures
            s@ == error_text(*self),
    {
        match self {
            ResolveError::NoMatchingAsset { os, arch } => {
                let mut s: String = "No suitable asset found for your platform (".to_owned();
                s.append(os.token());
                s.append("-");
                s.append(arch.token());
                s.append(")");
                s
            },
        }
    }
}

/// The search patterns of a platform, in generation order.
pub fn build_search_patterns(os_synonyms: &Vec<String>, arch_synonyms: &Vec<String>) -> (v: Vec<
    String,
>)
    ensures
        texts(v@) == search_patterns(texts(os_synonyms@), texts(arch_synonyms@)),
{
    let ghost oss = texts(os_synonyms@);
    let ghost archs = texts(arch_synonyms@);
    let mut v: Vec<String> = Vec::new();
    let mut i: usize = 0;
    assert(oss.take(0) =~= Seq::empty());
    assert(texts(v@) =~= search_patterns(oss.take(0), archs));
    while i < os_synonyms.len()
        invariant
            i <= os_synonyms.len(),
            oss == texts(os_synonyms@),
            archs == texts(arch_synonyms@),
            texts(v@) == search_patterns(oss.take(i as int), archs),
        decreases os_synonyms.len() - i,
    {
        let os: &String = &os_synonyms[i];
        let ghost before = texts(v@);
        let mut j: usize = 0;
        assert(archs.take(0) =~= Seq::empty());
        assert(texts(v@) =~= before + joined_patterns(os@, archs.take(0)));
        while j < arch_synonyms.len()
            invariant
                j <= arch_synonyms.len(),
                archs == texts(arch_synonyms@),
                texts(v@) == before + joined_patterns(os@, archs.take(j as int)),
            decreases arch_synonyms.len() - j,
        {
            let arch: &String = &arch_synonyms[j];
            let ghost so_far = texts(v@);
            let mut dashed: String = os.clone();
            dashed.append("-");
            dashed.append(arch.as_str());
            let mut underscored: String = os.clone();
            underscored.append("_");
            underscored.append(arch.as_str());
            let mut plain: String = os.clone();
            plain.append(arch.as_str());
            let mut reversed: String = arch.clone();
            reversed.append("-");
            reversed.append(os.as_str());
            v.push(dashed);
            v.push(underscored);
            v.push(plain);
            v.push(reversed);
            proof {
                assert(archs.take(j + 1).drop_last() =~= archs.take(j as int));
                assert(archs.take(j + 1).last() == arch@);
                assert(texts(v@) =~= so_far + joined_forms(os@, arch@));
                assert(texts(v@) =~= before + joined_patterns(os@, archs.take(j + 1)));
            }
            j += 1;
        }
        let ghost joined = texts(v@);
        v.push(os.clone());
        proof {
            assert(archs.take(arch_synonyms.len() as int) =~= archs);
            assert(texts(v@) =~= joined.push(os@));
            assert(oss.take(i + 1).drop_last() =~= oss.take(i as int));
            assert(oss.take(i + 1).last() == os@);
            assert(texts(v@) =~= before + joined_patterns(os@, archs).push(os@));
        }
        i += 1;
    }
    assert(oss.take(os_synonyms.len() as int) =~= oss);
    v
}

/// One pass of the search over asset names that are already in the form they
/// are compared in: the first asset, in search order, that satisfies a
/// pattern at an ending and, where a tool name is given, holds that name.
pub fn select_asset(
    names: &Vec<String>,
    tool: Option<&str>,
    patterns: &Vec<String>,
    endings: &Vec<String>,
) -> (r: Option<usize>)
    ensures
        is_selection(
            texts(names@),
            tool_text(tool),
            texts(patterns@),
            texts(endings@),
            index_of(r),
        ),
        r matches Some(i) ==> i < names.len(),
{
    let ghost ns = texts(names@);
    let ghost tl = tool_text(tool);
    let ghost ps = texts(patterns@);
    let ghost es = texts(endings@);
    let mut p: usize = 0;
    while p < patterns.len()
        invariant
            p <= patterns.len(),
            ns == texts(names@),
            tl == tool_text(tool),
            ps == texts(patterns@),
            es == texts(endings@),
            forall|py: int, ey: int, ay: int| #[trigger]
                hit(ns, tl, ps, es, py, ey, ay) ==> py >= p,
        decreases patterns.len() - p,
    {
        let mut e: usize = 0;
        while e < endings.len()
            invariant
                p < patterns.len(),
                e <= endings.len(),
                ns == texts(names@),
                tl == tool_text(tool),
                ps == texts(patterns@),
                es == texts(endings@),
                forall|py: int, ey: int, ay: int| #[trigger]
                    hit(ns, tl, ps, es, py, ey, ay) ==> py > p || (py == p && ey >= e),
            decreases endings.len() - e,
        {
            let mut a: usize = 0;
            while a < names.len()
                invariant
                    p < patterns.len(),
                    e < endings.len(),
                    a <= names.len(),
                    ns == texts(names@),
                    tl == tool_text(tool),
                    ps == texts(patterns@),
                    es == texts(endings@),
                    forall|py: int, ey: int, ay: int| #[trigger]
                        hit(ns, tl, ps, es, py, ey, ay) ==> !searched_before(
                            py,
                            ey,
                            ay,
                            p as int,
                            e as int,
                            a as int,
                        ),
                decreases names.len() - a,
            {
                let name: &str = names[a].as_str();
                let holds_tool = match tool {
                    Some(t) => contains(name, t),
                    None => true,
                };
                if holds_tool && contains(name, patterns[p].as_str()) && ends_with(
                    name,
                    endings[e].as_str(),
                ) {
                    assert(first_hit(ns, tl, ps, es, p as int, e as int, a as int));
                    return Some(a);
                }
                a += 1;
            }
            e += 1;
        }
        p += 1;
    }
    None
}

/// The lower-case form of each asset's name, in list order.
pub fn lower_names(assets: &Vec<Asset>) -> (names: Vec<String>)
    ensures
        texts(names@) == lowered_names(assets@),
{
    let mut names: Vec<String> = Vec::new();
    let mut i: usize = 0;
    while i < assets.len()
        invariant
            i <= assets.len(),
            names.len() == i,
            forall|j: int| 0 <= j < i ==> (#[trigger] names[j])@ == lowercase(assets[j].name@),
        decreases assets.len() - i,
    {
        names.push(to_lowercase(assets[i].name.as_str()));
        i += 1;
    }
    assert(texts(names@) =~= lowered_names(assets@));
    names
}

/// Both passes over names and a tool name that are already in lower case:
/// first among the assets that hold the tool's name, then among all.
pub fn resolve_lowered(
    names: &Vec<String>,
    tool: &str,
    patterns: &Vec<String>,
    endings: &Vec<String>,
) -> (r: Option<usize>)
    ensures
        is_resolution(texts(names@), tool@, texts(patterns@), texts(endings@), index_of(r)),
        r matches Some(i) ==> i < names.len(),
{
    match select_asset(names, Some(tool), patterns, endings) {
        Some(i) => Some(i),
        None => select_asset(names, None, patterns, endings),
    }
}

/// Selects the asset of a release for a tool on a platform, by index.
///
/// Asset names and the tool's name are compared in lower case. The failure
/// carries the platform's canonical tokens.
pub fn resolve(assets: &Vec<Asset>, tool_name: &str, platform: &PlatformDescriptor) -> (r: Result<
    usize,
    ResolveError,
>)
    ensures
        is_resolution(
            lowered_names(assets@),
            lowercase(tool_name@),
            search_patterns(texts(platform.os_synonyms@), texts(platform.arch_synonyms@)),
            extension_list(platform.os_canonical),
            match r {
                Ok(i) => Some(i as int),
                Err(_) => None,
            },
        ),
        r matches Ok(i) ==> i < assets.len(),
        r matches Err(e) ==> e == (ResolveError::NoMatchingAsset {
            os: platform.os_canonical,
            arch: platform.arch_canonical,
        }),
{
    let patterns = build_search_patterns(&platform.os_synonyms, &platform.arch_synonyms);
    let endings = platform.extensions();
    let names = lower_names(assets);
    let tool = to_lowercase(tool_name);
    match resolve_lowered(&names, tool.as_str(), &patterns, &endings) {
        Some(i) => Ok(i),
        None => Err(
            ResolveError::NoMatchingAsset {
                os: platform.os_canonical,
                arch: platform.arch_canonical,
            },
        ),
    }
}

/// Selects the asset of a release for a tool on a platform.
pub fn find_appropriate_asset<'a>(
    release: &'a Release,
    tool_name: &str,
    platform: &PlatformDescriptor,
) -> (r: Result<&'a Asset, ResolveError>)
    ensures
        match r {
            Ok(asset) => exists|i: int|
                0 <= i < release.assets.len() && *asset == #[trigger] release.assets[i]
                    && is_resolution(
                    lowered_names(release.assets@),
                    lowercase(tool_name@),
                    search_patterns(texts(platform.os_synonyms@), texts(platform.arch_synonyms@)),
                    extension_list(platform.os_canonical),
                    Some(i),
                ),
            Err(e) => e == (ResolveError::NoMatchingAsset {
                os: platform.os_canonical,
                arch: platform.arch_canonical,
            }) && is_resolution(
                lowered_names(release.assets@),
                lowercase(tool_name@),
                search_patterns(texts(platform.os_synonyms@), texts(platform.arch_synonyms@)),
                extension_list(platform.os_canonical),
                None,
            ),
        },
{
    match resolve(&release.assets, tool_name, platform) {
        Ok(i) => Ok(&release.assets[i]),
        Err(e) => Err(e),
    }
}

/// Each architecture spelling gives four patterns.
pub proof fn lemma_joined_patterns_len(os: Seq<char>, archs: Seq<Seq<char>>)
    ensures
        joined_patterns(os, archs).len() == 4 * archs.len(),
    decreases archs.len(),
{
    if archs.len() > 0 {
        lemma_joined_patterns_len(os, archs.drop_last());
    }
}

/// The joined forms of the `j`-th architecture spelling stand at
/// positions `4 * j` to `4 * j + 3`.
pub proof fn lemma_joined_pattern_at(os: Seq<char>, archs: Seq<Seq<char>>, j: int, f: int)
    requires
        0 <= j < archs.len(),
        0 <= f < 4,
    ensures
        joined_patterns(os, archs).len() == 4 * archs.len(),
        joined_patterns(os, archs)[4 * j + f] == joined_forms(os, archs[j])[f],
    decreases archs.len(),
{
    lemma_joined_patterns_len(os, archs);
    lemma_joined_patterns_len(os, archs.drop_last());
    if j < archs.len() - 1 {
        lemma_joined_pattern_at(os, archs.drop_last(), j, f);
    }
}

/// The number of search patterns: for each operating system spelling four
/// for each architecture spelling, and one more.
pub proof fn lemma_search_patterns_len(oss: Seq<Seq<char>>, archs: Seq<Seq<char>>)
    ensures
        search_patterns(oss, archs).len() == oss.len() * (4 * archs.len() + 1),
    decreases oss.len(),
{
    let w = 4 * archs.len() + 1;
    if oss.len() > 0 {
        lemma_search_patterns_len(oss.drop_last(), archs);
        lemma_joined_patterns_len(oss.last(), archs);
        assert((oss.len() - 1) * w + w == oss.len() * w) by (nonlinear_arith);
    } else {
        assert(0 * w == 0) by (nonlinear_arith);
    }
}

/// The generation order of the search patterns: the patterns of the `i`-th
/// operating system spelling stand together, after those of the spellings
/// before it; among them the joined forms of the `j`-th architecture
/// spelling come in the order dash, underscore, nothing, reversed with a
/// dash; and the operating system spelling alone comes last.
pub proof fn lemma_search_pattern_at(
    oss: Seq<Seq<char>>,
    archs: Seq<Seq<char>>,
    i: int,
    j: int,
    f: int,
)
    requires
        0 <= i < oss.len(),
        0 <= j < archs.len(),
        0 <= f < 4,
    ensures
        0 <= i * (4 * archs.len() + 1) + 4 * j + f < search_patterns(oss, archs).len(),
        search_patterns(oss, archs)[i * (4 * archs.len() + 1) + 4 * j + f] == joined_forms(
            oss[i],
            archs[j],
        )[f],
        0 <= i * (4 * archs.len() + 1) + 4 * archs.len() < search_patterns(oss, archs).len(),
        search_patterns(oss, archs)[i * (4 * archs.len() + 1) + 4 * archs.len()] == oss[i],
    decreases oss.len(),
{
    let w = 4 * archs.len() + 1;
    let front = oss.drop_last();
    lemma_search_patterns_len(oss, archs);
    lemma_search_patterns_len(front, archs);
    assert(0 <= i * w) by (nonlinear_arith)
        requires
            0 <= i,
            0 <= w,
    ;
    if i < oss.len() - 1 {
        lemma_search_pattern_at(front, archs, i, j, f);
        assert(front.len() * w <= oss.len() * w) by (nonlinear_arith)
            requires
                front.len() <= oss.len(),
                0 <= w,
        ;
    } else {
        lemma_joined_pattern_at(oss.last(), archs, j, f);
        assert(i * w == front.len() * w);
        assert((oss.len() - 1) * w + w == oss.len() * w) by (nonlinear_arith);
    }
}

/// Two outcomes of one pass over the same inputs are the same outcome.
pub proof fn lemma_selection_unique(
    names: Seq<Seq<char>>,
    tool: Option<Seq<char>>,
    patterns: Seq<Seq<char>>,
    endings: Seq<Seq<char>>,
    r1: Option<int>,
    r2: Option<int>,
)
    requires
        is_selection(names, tool, patterns, endings, r1),
        is_selection(names, tool, patterns, endings, r2),
    ensures
        r1 == r2,
{
    if r1 is Some {
        let (px, ex, ax) = choose|p: int, e: int, a: int| #[trigger]
            first_hit(names, tool, patterns, endings, p, e, a) && r1 == Some(a);
        assert(hit(names, tool, patterns, endings, px, ex, ax));
        if r2 is Some {
            let (py, ey, ay) = choose|p: int, e: int, a: int| #[trigger]
                first_hit(names, tool, patterns, endings, p, e, a) && r2 == Some(a);
            assert(hit(names, tool, patterns, endings, py, ey, ay));
            assert(!searched_before(px, ex, ax, py, ey, ay));
            assert(!searched_before(py, ey, ay, px, ex, ax));
        }
    } else if r2 is Some {
        let (py, ey, ay) = choose|p: int, e: int, a: int| #[trigger]
            first_hit(names, tool, patterns, endings, p, e, a) && r2 == Some(a);
        assert(hit(names, tool, patterns, endings, py, ey, ay));
    }
}

/// Resolution is a function of its inputs: for the same asset names, tool
/// name, patterns and endings there is one outcome, the same asset or the
/// same failure.
pub proof fn lemma_resolution_unique(
    names: Seq<Seq<char>>,
    tool: Seq<char>,
    patterns: Seq<Seq<char>>,
    endings: Seq<Seq<char>>,
    r1: Option<int>,
    r2: Option<int>,
)
    requires
        is_resolution(names, tool, patterns, endings, r1),
        is_resolution(names, tool, patterns, endings, r2),
    ensures
        r1 == r2,
{
    let first1 = r1 is Some && is_selection(names, Some(tool), patterns, endings, r1);
    let first2 = r2 is Some && is_selection(names, Some(tool), patterns, endings, r2);
    if first1 && first2 {
        lemma_selection_unique(names, Some(tool), patterns, endings, r1, r2);
    } else if first1 {
        lemma_selection_unique(names, Some(tool), patterns, endings, r1, None);
    } else if first2 {
        lemma_selection_unique(names, Some(tool), patterns, endings, r2, None);
    } else {
        lemma_selection_unique(names, None, patterns, endings, r1, r2);
    }
}

/// The tool's name takes precedence: where any asset that holds the tool's
/// name fits the platform, the resolved asset is the first hit among the
/// assets that hold it, wherever other fitting assets stand in the list.
pub proof fn lemma_tool_name_precedence(
    names: Seq<Seq<char>>,
    tool: Seq<char>,
    patterns: Seq<Seq<char>>,
    endings: Seq<Seq<char>>,
    r: Option<int>,
    p: int,
    e: int,
    a: int,
)
    requires
        is_resolution(names, tool, patterns, endings, r),
        hit(names, Some(tool), patterns, endings, p, e, a),
    ensures
        r is Some,
        is_selection(names, Some(tool), patterns, endings, r),
        0 <= r->0 < names.len(),
        occurs_in(tool, names[r->0]),
{
    assert(!no_hit(names, Some(tool), patterns, endings));
    let (px, ex, i) = choose|px: int, ex: int, i: int| #[trigger]
        first_hit(names, Some(tool), patterns, endings, px, ex, i) && r == Some(i);
    assert(hit(names, Some(tool), patterns, endings, px, ex, i));
}

/// What is resolved fits the platform: the name of the selected asset
/// satisfies one of the patterns at one of the endings.
pub proof fn lemma_resolved_asset_fits(
    names: Seq<Seq<char>>,
    tool: Seq<char>,
    patterns: Seq<Seq<char>>,
    endings: Seq<Seq<char>>,
    i: int,
)
    requires
        is_resolution(names, tool, patterns, endings, Some(i)),
    ensures
        0 <= i < names.len(),
        exists|p: int, e: int| #[trigger] hit(names, None, patterns, endings, p, e, i),
{
    let r = Some(i);
    if is_selection(names, Some(tool), patterns, endings, r) {
        let (px, ex, ax) = choose|px: int, ex: int, ax: int| #[trigger]
            first_hit(names, Some(tool), patterns, endings, px, ex, ax) && r == Some(ax);
        assert(hit(names, Some(tool), patterns, endings, px, ex, i));
        assert(hit(names, None, patterns, endings, px, ex, i));
    } else {
        let (px, ex, ax) = choose|px: int, ex: int, ax: int| #[trigger]
            first_hit(names, None, patterns, endings, px, ex, ax) && r == Some(ax);
        assert(hit(names, None, patterns, endings, px, ex, i));
    }
}

/// An asset that fits the platform is always resolved to something: the
/// failure comes exactly when no asset name satisfies any pattern at any
/// ending.
pub proof fn lemma_failure_means_no_fit(
    names: Seq<Seq<char>>,
    tool: Seq<char>,
    patterns: Seq<Seq<char>>,
    endings: Seq<Seq<char>>,
    r: Option<int>,
)
    requires
        is_resolution(names, tool, patterns, endings, r),
    ensures
        r is None <==> no_hit(names, None, patterns, endings),
{
    if r is Some {
        if is_selection(names, Some(tool), patterns, endings, r) {
            let (px, ex, i) = choose|px: int, ex: int, i: int| #[trigger]
                first_hit(names, Some(tool), patterns, endings, px, ex, i) && r == Some(i);
            assert(hit(names, Some(tool), patterns, endings, px, ex, i));
            assert(hit(names, None, patterns, endings, px, ex, i));
        } else {
            let (px, ex, i) = choose|px: int, ex: int, i: int| #[trigger]
                first_hit(names, None, patterns, endings, px, ex, i) && r == Some(i);
            assert(hit(names, None, patterns, endings, px, ex, i));
        }
    }
}

} // verus!
