use vstd::prelude::*;

verus! {

/// Lowercase a single character, ASCII letters only; every other
/// character is left unchanged.
pub open spec fn lower_char(c: char) -> char {
    if 'A' <= c && c <= 'Z' {
        (((c as u32) + 32) as u8) as char
    } else {
        c
    }
}

/// A character sequence with every ASCII letter lowercased.
pub open spec fn lower_seq(s: Seq<char>) -> Seq<char> {
    s.map_values(|c: char| lower_char(c))
}

fn lower_char_exec(c: char) -> (r: char)
    ensures
        r == lower_char(c),
{
    let u = c as u32;
    if 65 <= u && u <= 90 {
        ((u + 32) as u8) as char
    } else {
        c
    }
}

/// ASCII-case-insensitive equality of two character sequences.
pub open spec fn eq_ci(a: Seq<char>, b: Seq<char>) -> bool {
    lower_seq(a) == lower_seq(b)
}

/// ASCII-case-insensitive equality of two strings.
pub fn eq_ignoring_case(a: &str, b: &str) -> (r: bool)
    ensures
        r == eq_ci(a@, b@),
{
    let alen = a.unicode_len();
    let blen = b.unicode_len();
    if alen != blen {
        proof {
            assert(lower_seq(a@).len() != lower_seq(b@).len());
        }
        return false;
    }
    let mut i: usize = 0;
    while i < alen
        invariant
            alen == a@.len(),
            blen == b@.len(),
            alen == blen,
            i <= alen,
            forall|j: int| 0 <= j < i ==> lower_char(a@[j]) == lower_char(b@[j]),
        decreases alen - i,
    {
        let ca = a.get_char(i);
        let cb = b.get_char(i);
        if lower_char_exec(ca) != lower_char_exec(cb) {
            proof {
                assert(lower_seq(a@)[i as int] != lower_seq(b@)[i as int]);
            }
            return false;
        }
        i += 1;
    }
    proof {
        assert(lower_seq(a@) =~= lower_seq(b@));
    }
    true
}

/// The kind of evidence a directory entry gives that the directory
/// belongs to a .NET project.
#[derive(Clone, Copy, Debug, PartialEq, Eq, Structural)]
pub enum FileType {
    ProjectJson,
    ProjectFile,
    GlobalJson,
    SolutionFile,
}

/// One entry of the directory listing, as the host exposes it: the file
/// name and the extension, either of which may be missing (a name that is
/// not valid text, or a name without an extension).
#[derive(Clone, Debug)]
pub struct DirectoryEntry {
    pub name: Option<String>,
    pub extension: Option<String>,
}

/// The character sequence of an optional string.
pub open spec fn opt_chars(o: Option<String>) -> Option<Seq<char>> {
    match o {
        Some(s) => Some(s@),
        None => None,
    }
}

/// The classification rule: the full file name decides `global.json` and
/// `project.json`, the extension decides solution and project files; all
/// comparisons ignore ASCII case. A name such as `sln` alone has no
/// extension and so matches nothing.
pub open spec fn spec_classify(name: Option<Seq<char>>, ext: Option<Seq<char>>) -> Option<
    FileType,
> {
    if name is Some && eq_ci(name->0, "global.json"@) {
        Some(FileType::GlobalJson)
    } else if name is Some && eq_ci(name->0, "project.json"@) {
        Some(FileType::ProjectJson)
    } else if ext is Some && eq_ci(ext->0, "sln"@) {
        Some(FileType::SolutionFile)
    } else if ext is Some && (eq_ci(ext->0, "csproj"@) || eq_ci(ext->0, "fsproj"@) || eq_ci(
        ext->0,
        "xproj"@,
    )) {
        Some(FileType::ProjectFile)
    } else {
        None
    }
}

/// Classification of a whole entry.
pub open spec fn classify_entry(e: DirectoryEntry) -> Option<FileType> {
    spec_classify(opt_chars(e.name), opt_chars(e.extension))
}

/// Decide whether one directory entry is .NET-relevant, and of which kind.
pub fn is_dotnet_relevant_file(entry: &DirectoryEntry) -> (r: Option<FileType>)
    ensures
        r == classify_entry(*entry),
{
    if let Some(name) = &entry.name {
        if eq_ignoring_case(name.as_str(), "global.json") {
            return Some(FileType::GlobalJson);
        }
        if eq_ignoring_case(name.as_str(), "project.json") {
            return Some(FileType::ProjectJson);
        }
    }
    if let Some(ext) = &entry.extension {
        if eq_ignoring_case(ext.as_str(), "sln") {
            return Some(FileType::SolutionFile);
        }
        if eq_ignoring_case(ext.as_str(), "csproj") || eq_ignoring_case(ext.as_str(), "fsproj")
            || eq_ignoring_case(ext.as_str(), "xproj") {
            return Some(FileType::ProjectFile);
        }
    }
    None
}

/// A classified entry: the position of the matching entry in the listing
/// it came from, paired with the kind of evidence it gives.
#[derive(Clone, Copy, Debug, PartialEq, Eq, Structural)]
pub struct ClassifiedFile {
    pub index: usize,
    pub kind: FileType,
}

/// The subsequence of classified entries of a listing, each tagged with
/// its position, in listing order.
pub open spec fn spec_filtered(entries: Seq<DirectoryEntry>) -> Seq<ClassifiedFile>
    decreases entries.len(),
{
    if entries.len() == 0 {
        Seq::empty()
    } else {
        let prefix = spec_filtered(entries.drop_last());
        match classify_entry(entries.last()) {
            Some(k) => prefix.push(
                ClassifiedFile { index: (entries.len() - 1) as usize, kind: k },
            ),
            None => prefix,
        }
    }
}

proof fn lemma_json_names_differ()
    ensures
        lower_seq("global.json"@) != lower_seq("project.json"@),
{
    reveal_strlit("global.json");
    reveal_strlit("project.json");
    assert(lower_seq("global.json"@)[0] == lower_char('g'));
    assert(lower_seq("project.json"@)[0] == lower_char('p'));
    assert(lower_char('g') == 'g');
    assert(lower_char('p') == 'p');
}

/// A file named `global.json` or `project.json`, in any casing of its
/// letters, classifies as GlobalJson or ProjectJson respectively, whatever
/// its extension.
pub proof fn lemma_classify_json_names(name: Seq<char>, ext: Option<Seq<char>>)
    ensures
        eq_ci(name, "global.json"@) ==> spec_classify(Some(name), ext) == Some(
            FileType::GlobalJson,
        ),
        eq_ci(name, "project.json"@) ==> spec_classify(Some(name), ext) == Some(
            FileType::ProjectJson,
        ),
{
    lemma_json_names_differ();
}

proof fn lemma_extension_literal_lengths()
    ensures
        lower_seq("sln"@).len() == 3,
        lower_seq("csproj"@).len() == 6,
        lower_seq("fsproj"@).len() == 6,
        lower_seq("xproj"@).len() == 5,
{
    reveal_strlit("sln");
    reveal_strlit("csproj");
    reveal_strlit("fsproj");
    reveal_strlit("xproj");
}

/// A file whose extension is `sln`, in any casing, classifies as a
/// solution file. The file name of such a file ends in `.sln`, so it is
/// neither of the two recognized json names; the hypothesis records that.
pub proof fn lemma_classify_solution(name: Option<Seq<char>>, ext: Seq<char>)
    requires
        eq_ci(ext, "sln"@),
        name matches Some(n) ==> !eq_ci(n, "global.json"@) && !eq_ci(n, "project.json"@),
    ensures
        spec_classify(name, Some(ext)) == Some(FileType::SolutionFile),
{
}

/// A file whose extension is `csproj`, `fsproj` or `xproj`, in any casing,
/// classifies as a project file. The file name of such a file ends in a
/// dot and that extension, so it is neither of the two recognized json
/// names; the hypothesis records that.
pub proof fn lemma_classify_project_file(name: Option<Seq<char>>, ext: Seq<char>)
    requires
        eq_ci(ext, "csproj"@) || eq_ci(ext, "fsproj"@) || eq_ci(ext, "xproj"@),
        name matches Some(n) ==> !eq_ci(n, "global.json"@) && !eq_ci(n, "project.json"@),
    ensures
        spec_classify(name, Some(ext)) == Some(FileType::ProjectFile),
{
    lemma_extension_literal_lengths();
}

/// The classified entries of a listing name real positions, at strictly
/// increasing indices (so no entry is classified twice), each carrying the
/// kind its entry classifies to.
pub open spec fn filtered_matches_listing(entries: Seq<DirectoryEntry>) -> bool {
    let flt = spec_filtered(entries);
    &&& forall|j: int|
        0 <= j < flt.len() ==> (#[trigger] flt[j]).index < entries.len() && classify_entry(
            entries[flt[j].index as int],
        ) == Some(flt[j].kind)
    &&& forall|j1: int, j2: int|
        #![trigger flt[j1], flt[j2]]
        0 <= j1 < j2 < flt.len() ==> flt[j1].index < flt[j2].index
}

/// Every classified file corresponds to exactly one entry of the listing
/// that matched a classification rule.
pub proof fn lemma_filtered_matches_listing(entries: Seq<DirectoryEntry>)
    requires
        entries.len() <= usize::MAX,
    ensures
        filtered_matches_listing(entries),
    decreases entries.len(),
{
    let flt = spec_filtered(entries);
    if entries.len() == 0 {
        assert(filtered_matches_listing(entries));
    } else {
        let dl = entries.drop_last();
        lemma_filtered_matches_listing(dl);
        let pf = spec_filtered(dl);
        let n = entries.len() as int;
        assert(forall|i: int| 0 <= i < n - 1 ==> dl[i] == entries[i]);
        assert(classify_entry(entries.last()) is Some ==> flt == pf.push(
            ClassifiedFile { index: (n - 1) as usize, kind: classify_entry(entries.last())->0 },
        ));
        assert(classify_entry(entries.last()) is None ==> flt == pf);
        assert forall|j: int|
            0 <= j < flt.len() implies (#[trigger] flt[j]).index < n && classify_entry(
            entries[flt[j].index as int],
        ) == Some(flt[j].kind) by {
            if j < pf.len() {
                assert(flt[j] == pf[j]);
                assert(pf[j].index < dl.len());
                assert(classify_entry(dl[pf[j].index as int]) == Some(pf[j].kind));
                assert(dl[pf[j].index as int] == entries[pf[j].index as int]);
            } else {
                assert(flt.len() != pf.len());
                assert(classify_entry(entries.last()) is Some);
                assert(flt[j] == ClassifiedFile {
                    index: (n - 1) as usize,
                    kind: classify_entry(entries.last())->0,
                });
                assert(flt[j].index == n - 1);
                assert(entries[n - 1] == entries.last());
            }
        }
        assert forall|j1: int, j2: int|
            #![trigger flt[j1], flt[j2]]
            0 <= j1 < j2 < flt.len() implies flt[j1].index < flt[j2].index by {
            if j2 < pf.len() {
                assert(flt[j1] == pf[j1] && flt[j2] == pf[j2]);
            } else {
                assert(flt.len() != pf.len());
                assert(classify_entry(entries.last()) is Some);
                assert(flt[j2] == ClassifiedFile {
                    index: (n - 1) as usize,
                    kind: classify_entry(entries.last())->0,
                });
                assert(flt[j1] == pf[j1]);
                assert(pf[j1].index < dl.len());
                assert(flt[j2].index == n - 1);
            }
        }
    }
}

/// No matching entry is missed: every entry that classifies to some kind
/// appears among the classified files under its own position.
pub proof fn lemma_filtered_complete(entries: Seq<DirectoryEntry>, i: int)
    requires
        entries.len() <= usize::MAX,
        0 <= i < entries.len(),
        classify_entry(entries[i]) is Some,
    ensures
        exists|j: int|
            0 <= j < spec_filtered(entries).len() && (#[trigger] spec_filtered(entries)[j]).index
                == i,
    decreases entries.len(),
{
    let flt = spec_filtered(entries);
    let dl = entries.drop_last();
    let pf = spec_filtered(dl);
    if i == entries.len() - 1 {
        assert(classify_entry(entries.last()) is Some);
        assert(flt[flt.len() - 1].index == i);
    } else {
        assert(dl[i] == entries[i]);
        lemma_filtered_complete(dl, i);
        let j0 = choose|j: int| 0 <= j < pf.len() && (#[trigger] pf[j]).index == i;
        assert(flt[j0] == pf[j0]);
        assert(flt[j0].index == i);
    }
}

/// Keep the .NET-relevant entries of a listing, classified and in order.
pub fn get_local_files_filtered(entries: &Vec<DirectoryEntry>) -> (r: Vec<ClassifiedFile>)
    ensures
        r@ == spec_filtered(entries@),
{
    let mut out: Vec<ClassifiedFile> = Vec::new();
    let n = entries.len();
    let mut i: usize = 0;
    while i < n
        invariant
            n == entries@.len(),
            i <= n,
            out@ == spec_filtered(entries@.take(i as int)),
        decreases n - i,
    {
        match is_dotnet_relevant_file(&entries[i]) {
            Some(k) => out.push(ClassifiedFile { index: i, kind: k }),
            None => (),
        }
        proof {
            let t = entries@.take(i + 1);
            assert(t.drop_last() =~= entries@.take(i as int));
            assert(t.last() == entries@[i as int]);
        }
        i += 1;
    }
    proof {
        assert(entries@.take(n as int) =~= entries@);
    }
    out
}

} // verus!
