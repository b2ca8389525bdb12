//! The platform a release asset is chosen for: canonical operating system
//! and processor tokens, and the spellings vendors use for them in file names.

use vstd::prelude::*;
use crate::text::same_text;

verus! {

/// The characters of each string of a list.
pub open spec fn texts(v: Seq<String>) -> Seq<Seq<char>> {
    Seq::new(v.len(), |i: int| v[i]@)
}

/// The operating systems that releases are told apart by.
#[derive(Clone, Copy, Debug, PartialEq, Eq, Structural)]
pub enum OsKind {
    Linux,
    Darwin,
    Windows,
    Unknown,
}

/// The processor architectures that releases are told apart by.
#[derive(Clone, Copy, Debug, PartialEq, Eq, Structural)]
pub enum ArchKind {
    X86_64,
    Arm64,
    X86,
    Unknown,
}

/// The canonical token of an operating system.
pub open spec fn os_token(os: OsKind) -> Seq<char> {
    match os {
        OsKind::Linux => "linux"@,
        OsKind::Darwin => "darwin"@,
        OsKind::Windows => "windows"@,
        OsKind::Unknown => "unknown"@,
    }
}

/// The canonical token of a processor architecture.
pub open spec fn arch_token(arch: ArchKind) -> Seq<char> {
    match arch {
        ArchKind::X86_64 => "x86_64"@,
        ArchKind::Arm64 => "arm64"@,
        ArchKind::X86 => "x86"@,
        ArchKind::Unknown => "unknown"@,
    }
}

/// The operating system that a build target's name stands for.
pub open spec fn classify_os(target: Seq<char>) -> OsKind {
    if target == "windows"@ {
        OsKind::Windows
    } else if target == "macos"@ {
        OsKind::Darwin
    } else if target == "linux"@ {
        OsKind::Linux
    } else {
        OsKind::Unknown
    }
}

/// The architecture that a build target's name stands for.
pub open spec fn classify_arch(target: Seq<char>) -> ArchKind {
    if target == "x86_64"@ {
        ArchKind::X86_64
    } else if target == "aarch64"@ {
        ArchKind::Arm64
    } else if target == "x86"@ {
        ArchKind::X86
    } else {
        ArchKind::Unknown
    }
}

/// The spellings of an operating system in asset names, most specific first.
pub open spec fn os_synonym_list(os: OsKind) -> Seq<Seq<char>> {
    match os {
        OsKind::Darwin => seq!["apple-darwin"@, "darwin"@, "macos"@, "mac"@, "osx"@],
        OsKind::Windows => seq!["pc-windows"@, "windows"@],
        OsKind::Linux => seq!["unknown-linux"@, "linux"@],
        OsKind::Unknown => seq!["unknown"@],
    }
}

/// The spellings of an architecture in asset names.
pub open spec fn arch_synonym_list(arch: ArchKind) -> Seq<Seq<char>> {
    match arch {
        ArchKind::X86_64 => seq!["x86_64"@, "amd64"@, "x64"@],
        ArchKind::Arm64 => seq!["arm64"@, "aarch64"@],
        ArchKind::X86 => seq!["x86"@],
        ArchKind::Unknown => seq!["unknown"@],
    }
}

/// The file-name endings looked for on an operating system, in search order.
/// The empty ending admits a bare binary.
pub open spec fn extension_list(os: OsKind) -> Seq<Seq<char>> {
    match os {
        OsKind::Windows => seq![".exe"@, ".zip"@, ".tar.gz"@, ".tgz"@],
        _ => seq![""@, ".tar.gz"@, ".tgz"@, ".zip"@],
    }
}

impl OsKind {
    /// The operating system that a build target's name stands for.
    pub fn from_target(target: &str) -> (os: OsKind)
        ensures
            os == classify_os(target@),
    {
        if same_text(target, "windows") {
            OsKind::Windows
        } else if same_text(target, "macos") {
            OsKind::Darwin
        } else if same_text(target, "linux") {
            OsKind::Linux
        } else {
            OsKind::Unknown
        }
    }

    /// The canonical token.
    pub fn token(self) -> (t: &'static str)
        ensures
            t@ == os_token(self),
    {
        match self {
            OsKind::Linux => "linux",
            OsKind::Darwin => "darwin",
            OsKind::Windows => "windows",
            OsKind::Unknown => "unknown",
        }
    }

    /// The spellings in asset names, most specific first.
    pub fn synonyms(self) -> (v: Vec<String>)
        ensures
            texts(v@) == os_synonym_list(self),
    {
        let mut v: Vec<String> = Vec::new();
        match self {
            OsKind::Darwin => {
                v.push("apple-darwin".to_owned());
                v.push("darwin".to_owned());
                v.push("macos".to_owned());
                v.push("mac".to_owned());
                v.push("osx".to_owned());
            },
            OsKind::Windows => {
                v.push("pc-windows".to_owned());
                v.push("windows".to_owned());
            },
            OsKind::Linux => {
                v.push("unknown-linux".to_owned());
                v.push("linux".to_owned());
            },
            OsKind::Unknown => {
                v.push("unknown".to_owned());
            },
        }
        assert(texts(v@) =~= os_synonym_list(self));
        v
    }

    /// The file-name endings to look for, in search order.
    pub fn extensions(self) -> (v: Vec<String>)
        ensures
            texts(v@) == extension_list(self),
    {
        let mut v: Vec<String> = Vec::new();
        match self {
            OsKind::Windows => {
                v.push(".exe".to_owned());
                v.push(".zip".to_owned());
                v.push(".tar.gz".to_owned());
                v.push(".tgz".to_owned());
            },
            _ => {
                v.push("".to_owned());
                v.push(".tar.gz".to_owned());
                v.push(".tgz".to_owned());
                v.push(".zip".to_owned());
            },
        }
        assert(texts(v@) =~= extension_list(self));
        v
    }
}

impl ArchKind {
    /// The architecture that a build target's name stands for.
    pub fn from_target(target: &str) -> (arch: ArchKind)
        ensures
            arch == classify_arch(target@),
    {
        if same_text(target, "x86_64") {
            ArchKind::X86_64
        } else if same_text(target, "aarch64") {
            ArchKind::Arm64
        } else if same_text(target, "x86") {
            ArchKind::X86
        } else {
            ArchKind::Unknown
        }
    }

    /// The canonical token.
    pub fn token(self) -> (t: &'static str)
        ensures
            t@ == arch_token(self),
    {
        match self {
            ArchKind::X86_64 => "x86_64",
            ArchKind::Arm64 => "arm64",
            ArchKind::X86 => "x86",
            ArchKind::Unknown => "unknown",
        }
    }

    /// The spellings in asset names.
    pub fn synonyms(self) -> (v: Vec<String>)
        ensures
            texts(v@) == arch_synonym_list(self),
    {
        let mut v: Vec<String> = Vec::new();
        match self {
            ArchKind::X86_64 => {
                v.push("x86_64".to_owned());
                v.push("amd64".to_owned());
                v.push("x64".to_owned());
            },
            ArchKind::Arm64 => {
                v.push("arm64".to_owned());
                v.push("aarch64".to_owned());
            },
            ArchKind::X86 => {
                v.push("x86".to_owned());
            },
            ArchKind::Unknown => {
                v.push("unknown".to_owned());
            },
        }
        assert(texts(v@) =~= arch_synonym_list(self));
        v
    }
}

/// What the resolver knows of the machine it selects an asset for.
#[derive(Debug)]
pub struct PlatformDescriptor {
    pub os_canonical: OsKind,
    pub arch_canonical: ArchKind,
    pub os_synonyms: Vec<String>,
    pub arch_synonyms: Vec<String>,
}

impl PlatformDescriptor {
    /// The synonym lists are those that belong to the canonical tokens.
    pub open spec fn well_formed(&self) -> bool {
        &&& texts(self.os_synonyms@) == os_synonym_list(self.os_canonical)
        &&& texts(self.arch_synonyms@) == arch_synonym_list(self.arch_canonical)
    }

    /// The descriptor of an operating system and an architecture.
    pub fn new(os: OsKind, arch: ArchKind) -> (p: PlatformDescriptor)
        ensures
            p.os_canonical == os,
            p.arch_canonical == arch,
            p.well_formed(),
    {
        PlatformDescriptor {
            os_canonical: os,
            arch_canonical: arch,
            os_synonyms: os.synonyms(),
            arch_synonyms: arch.synonyms(),
        }
    }

    /// The file-name endings to look for, in search order.
    pub fn extensions(&self) -> (v: Vec<String>)
        ensures
            texts(v@) == extension_list(self.os_canonical),
    {
        self.os_canonical.extensions()
    }
}

/// The canonical operating system and architecture tokens of a build target,
/// given by the target's own names for them.
pub fn get_platform_info(target_os: &str, target_arch: &str) -> (info: (String, String))
    ensures
        info.0@ == os_token(classify_os(target_os@)),
        info.1@ == arch_token(classify_arch(target_arch@)),
{
    let os = OsKind::from_target(target_os);
    let arch = ArchKind::from_target(target_arch);
    (os.token().to_owned(), arch.token().to_owned())
}

/// The descriptor of a build target, given by the target's own names for its
/// operating system and architecture.
pub fn describe_platform(target_os: &str, target_arch: &str) -> (p: PlatformDescriptor)
    ensures
        p.os_canonical == classify_os(target_os@),
        p.arch_canonical == classify_arch(target_arch@),
        p.well_formed(),
{
    PlatformDescriptor::new(OsKind::from_target(target_os), ArchKind::from_target(target_arch))
}

} // verus!
