//! Module lookup: picks, among the modules that the loader reported, the
//! first one whose name contains a query, and measures its mapped extent.

use vstd::prelude::*;

verus! {

/// One program header of a module: the virtual address of a segment and the
/// number of bytes it occupies in memory. The end of the segment always fits
/// in a machine word.
#[derive(Debug)]
pub struct ProgramHeader {
    vaddr: usize,
    memsz: usize,
}

impl ProgramHeader {
    #[verifier::type_invariant]
    spec fn fits(self) -> bool {
        self.vaddr + self.memsz <= usize::MAX
    }

    /// Virtual address at which the segment starts.
    pub closed spec fn vaddr(self) -> usize {
        self.vaddr
    }

    /// Size of the segment in memory.
    pub closed spec fn memsz(self) -> usize {
        self.memsz
    }

    /// First offset past the segment.
    pub open spec fn end(self) -> int {
        self.vaddr() + self.memsz()
    }

    /// Describes a segment. There is no header for a segment whose end would
    /// not fit in a machine word.
    pub fn new(vaddr: usize, memsz: usize) -> (r: Option<ProgramHeader>)
        ensures
            r is Some <==> vaddr + memsz <= usize::MAX,
            r matches Some(h) ==> h.vaddr() == vaddr && h.memsz() == memsz,
    {
        if memsz <= usize::MAX - vaddr {
            Some(ProgramHeader { vaddr, memsz })
        } else {
            None
        }
    }

    /// First offset past the segment.
    pub fn end_offset(&self) -> (r: usize)
        ensures
            r == self.end(),
    {
        proof {
            use_type_invariant(self);
        }
        self.vaddr + self.memsz
    }
}

/// A module as the loader reports it: its name (empty for the main
/// executable), its load address and its program headers.
#[derive(Debug)]
pub struct LoadedModule {
    pub name: String,
    pub base: usize,
    pub headers: Vec<ProgramHeader>,
}

/// The answer of a lookup: where a module starts, an upper bound on how far
/// its image reaches, and the name the loader gave it. It describes the
/// module at the instant of the lookup and nothing later.
#[derive(Debug)]
pub struct ModuleInfo {
    pub base: usize,
    pub size: usize,
    pub name: String,
}

/// `size` is the extent of a module with these headers: the largest segment
/// end, or 0 where there is no header. Gaps between segments are counted.
pub open spec fn is_extent(headers: Seq<ProgramHeader>, size: int) -> bool {
    &&& forall|i: int| 0 <= i < headers.len() ==> (#[trigger] headers[i]).end() <= size
    &&& size == 0 || exists|i: int| 0 <= i < headers.len() && (#[trigger] headers[i]).end() == size
}

/// `needle` occurs in `hay` as a contiguous run of characters.
pub open spec fn is_substring(hay: Seq<char>, needle: Seq<char>) -> bool {
    exists|i: int|
        0 <= i && i + needle.len() <= hay.len() && #[trigger] hay.subrange(i, i + needle.len())
            == needle
}

/// `s` begins with `prefix`.
pub open spec fn has_prefix(s: Seq<char>, prefix: Seq<char>) -> bool {
    s.len() >= prefix.len() && s.subrange(0, prefix.len() as int) == prefix
}

/// The marker of the current directory that a query may start with.
pub open spec fn local_prefix() -> Seq<char> {
    seq!['.', '/']
}

/// The query with a leading current-directory marker taken off.
pub open spec fn normalized(name: Seq<char>) -> Seq<char> {
    if has_prefix(name, local_prefix()) {
        name.subrange(2, name.len() as int)
    } else {
        name
    }
}

/// The query can be handed to the loader as a native name: it holds no
/// terminator character.
pub open spec fn encodable(query: Seq<char>) -> bool {
    forall|i: int| 0 <= i < query.len() ==> query[i] != '\0'
}

/// `info` describes `module`.
pub open spec fn describes(module: LoadedModule, info: ModuleInfo) -> bool {
    &&& info.base == module.base
    &&& info.name@ == module.name@
    &&& is_extent(module.headers@, info.size as int)
}

/// What a lookup of `name` among `modules` may answer: the description of
/// the first module whose name contains the normalized query, or nothing
/// where the query cannot be encoded or no module's name contains it.
pub open spec fn lookup_outcome(
    modules: Seq<LoadedModule>,
    name: Seq<char>,
    r: Option<ModuleInfo>,
) -> bool {
    let query = normalized(name);
    match r {
        Some(info) => {
            &&& encodable(query)
            &&& exists|i: int|
                {
                    &&& 0 <= i < modules.len()
                    &&& is_substring(#[trigger] modules[i].name@, query)
                    &&& describes(modules[i], info)
                    &&& forall|k: int| 0 <= k < i ==> !is_substring(modules[k].name@, query)
                }
        },
        None => {
            ||| !encodable(query)
            ||| forall|k: int| 0 <= k < modules.len() ==> !is_substring(modules[k].name@, query)
        },
    }
}

/// Trusted: `str::contains` with a string as the pattern. It answers whether
/// the pattern occurs in the string as a contiguous run of characters.
#[verifier::external_body]
fn str_contains(hay: &str, needle: &str) -> (r: bool)
    ensures
        r == is_substring(hay@, needle@),
{
    hay.contains(needle)
}

/// Trusted: `str::strip_prefix` with a string as the pattern. Where the
/// string begins with the prefix it hands out what follows the prefix, and
/// nothing otherwise.
#[verifier::external_body]
fn str_strip_prefix<'a>(s: &'a str, prefix: &str) -> (r: Option<&'a str>)
    ensures
        r is Some <==> has_prefix(s@, prefix@),
        r matches Some(rest) ==> rest@ == s@.subrange(prefix@.len() as int, s@.len() as int),
{
    s.strip_prefix(prefix)
}

/// Normalizes a query: takes off a leading current-directory marker and
/// rejects a query that holds a terminator character.
pub fn normalize_query(name: &str) -> (r: Option<&str>)
    ensures
        r is Some <==> encodable(normalized(name@)),
        r matches Some(query) ==> query@ == normalized(name@),
{
    proof {
        reveal_strlit("./");
        reveal_strlit("\0");
    }
    assert("./"@ =~= local_prefix());
    let query = match str_strip_prefix(name, "./") {
        Some(rest) => rest,
        None => name,
    };
    let found = str_contains(query, "\0");
    proof {
        let nul = "\0"@;
        assert(nul =~= seq!['\0']);
        if found {
            let i = choose|i: int|
                0 <= i && i + nul.len() <= query@.len() && #[trigger] query@.subrange(
                    i,
                    i + nul.len(),
                ) == nul;
            assert(query@.subrange(i, i + 1)[0] == '\0');
            assert(query@[i] == '\0');
        } else {
            assert forall|i: int| 0 <= i < query@.len() implies query@[i] != '\0' by {
                if query@[i] == '\0' {
                    assert(query@.subrange(i, i + 1) =~= nul);
                }
            }
        }
    }
    if found {
        None
    } else {
        Some(query)
    }
}

/// Measures a module: the largest end of its segments.
pub fn module_extent(headers: &[ProgramHeader]) -> (size: usize)
    ensures
        is_extent(headers@, size as int),
{
    let mut max_addr: usize = 0;
    let mut i: usize = 0;
    while i < headers.len()
        invariant
            i <= headers.len(),
            forall|k: int| 0 <= k < i ==> (#[trigger] headers@[k]).end() <= max_addr,
            max_addr == 0 || exists|k: int|
                0 <= k < i && (#[trigger] headers@[k]).end() == max_addr,
        decreases headers.len() - i,
    {
        let end = headers[i].end_offset();
        if end > max_addr {
            max_addr = end;
        }
        i += 1;
    }
    max_addr
}

/// Looks at one module during a walk: describes it where its name contains
/// the query, which ends the walk, and passes over it otherwise.
pub fn visit_module(module: &LoadedModule, query: &str) -> (r: Option<ModuleInfo>)
    ensures
        r is Some <==> is_substring(module.name@, query@),
        r matches Some(info) ==> describes(*module, info),
{
    if str_contains(module.name.as_str(), query) {
        Some(
            ModuleInfo {
                base: module.base,
                size: module_extent(module.headers.as_slice()),
                name: module.name.clone(),
            },
        )
    } else {
        None
    }
}

/// Finds the first module, in the order given, whose name contains the
/// normalized query.
pub fn find_module(modules: &[LoadedModule], name: &str) -> (r: Option<ModuleInfo>)
    ensures
        lookup_outcome(modules@, name@, r),
{
    let query = match normalize_query(name) {
        Some(query) => query,
        None => {
            return None;
        },
    };
    let mut i: usize = 0;
    while i < modules.len()
        invariant
            i <= modules.len(),
            query@ == normalized(name@),
            encodable(query@),
            forall|k: int| 0 <= k < i ==> !is_substring(modules@[k].name@, query@),
        decreases modules.len() - i,
    {
        if let Some(info) = visit_module(&modules[i], query) {
            return Some(info);
        }
        i += 1;
    }
    None
}

/// A name that no module's name contains resolves to nothing, whatever the
/// modules are.
pub proof fn lemma_unknown_name(modules: Seq<LoadedModule>, name: Seq<char>, r: Option<ModuleInfo>)
    requires
        forall|k: int|
            0 <= k < modules.len() ==> !is_substring(
                (#[trigger] modules[k]).name@,
                normalized(name),
            ),
        lookup_outcome(modules, name, r),
    ensures
        r is None,
{
}

/// A query that holds a terminator character resolves to nothing, whatever
/// the modules are.
pub proof fn lemma_unencodable_name(
    modules: Seq<LoadedModule>,
    name: Seq<char>,
    r: Option<ModuleInfo>,
)
    requires
        !encodable(normalized(name)),
        lookup_outcome(modules, name, r),
    ensures
        r is None,
{
}

} // verus!
