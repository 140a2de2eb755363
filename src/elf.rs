//! Recognising ELF binaries by their leading bytes, and choosing the
//! candidate files of a directory walk.

use vstd::prelude::*;

verus! {

/// The four bytes that open every ELF file: `0x7F 'E' 'L' 'F'`.
pub open spec fn has_elf_magic(bytes: Seq<u8>) -> bool {
    &&& bytes.len() >= 4
    &&& bytes[0] == 0x7f
    &&& bytes[1] == 0x45
    &&& bytes[2] == 0x4c
    &&& bytes[3] == 0x46
}

/// Decides from a file's leading bytes whether it is an ELF binary.
///
/// `header` holds what could be read from the start of the file (at most
/// four bytes are looked at); a file that could not be read, or is shorter
/// than four bytes, is passed as a shorter slice and is never accepted.
pub fn is_elf(header: &[u8]) -> (r: bool)
    ensures
        r == has_elf_magic(header@),
        !has_elf_magic(header@) ==> !r,
        header@.len() < 4 ==> !r,
{
    header.len() >= 4 && header[0] == 0x7f && header[1] == 0x45 && header[2] == 0x4c
        && header[3] == 0x46
}

/// Whatever follows the magic bytes, the file is accepted.
pub proof fn lemma_magic_prefix_accepted(rest: Seq<u8>)
    ensures
        has_elf_magic(seq![0x7fu8, 0x45u8, 0x4cu8, 0x46u8] + rest),
{
    let s = seq![0x7fu8, 0x45u8, 0x4cu8, 0x46u8] + rest;
    assert(s[0] == 0x7f && s[1] == 0x45 && s[2] == 0x4c && s[3] == 0x46);
}

/// The directories the walk lists, in order.
pub fn scan_roots() -> (r: Vec<&'static str>)
    ensures
        r@.len() == 4,
        r@[0]@ == "/usr/bin"@,
        r@[1]@ == "/usr/lib"@,
        r@[2]@ == "/usr/local/bin"@,
        r@[3]@ == "/usr/local/lib"@,
{
    vec!["/usr/bin", "/usr/lib", "/usr/local/bin", "/usr/local/lib"]
}

/// One entry of a directory listing, as the walk observed it.
pub struct DirEntryInfo {
    /// The entry's full path.
    pub path: String,
    /// Whether the path names a regular file (symlinks followed).
    pub is_file: bool,
    /// The leading bytes that could be read from the file (empty when it
    /// could not be opened or read).
    pub header: Vec<u8>,
}

/// An entry is worth probing when it is a regular file that opens with the
/// ELF magic.
pub open spec fn is_candidate(e: DirEntryInfo) -> bool {
    e.is_file && has_elf_magic(e.header@)
}

/// The paths of the candidate entries of one listing, in listing order.
pub open spec fn listing_candidates(entries: Seq<DirEntryInfo>) -> Seq<Seq<char>>
    decreases entries.len(),
{
    if entries.len() == 0 {
        Seq::empty()
    } else {
        let earlier = listing_candidates(entries.drop_last());
        if is_candidate(entries.last()) {
            earlier.push(entries.last().path@)
        } else {
            earlier
        }
    }
}

/// The candidate paths of a whole walk: the roots in order, a root that
/// could not be listed (`None`) contributing nothing.
pub open spec fn walk_candidates(listings: Seq<Option<Vec<DirEntryInfo>>>) -> Seq<Seq<char>>
    decreases listings.len(),
{
    if listings.len() == 0 {
        Seq::empty()
    } else {
        let earlier = walk_candidates(listings.drop_last());
        match listings.last() {
            Some(entries) => earlier + listing_candidates(entries@),
            None => earlier,
        }
    }
}

/// The views of a sequence of strings.
pub open spec fn string_views(v: Seq<String>) -> Seq<Seq<char>> {
    v.map_values(|s: String| s@)
}

/// A walk over roots none of which could be listed finds nothing.
pub proof fn lemma_absent_roots_yield_nothing(listings: Seq<Option<Vec<DirEntryInfo>>>)
    requires
        forall|i: int| 0 <= i < listings.len() ==> (#[trigger] listings[i]) is None,
    ensures
        walk_candidates(listings).len() == 0,
    decreases listings.len(),
{
    if listings.len() > 0 {
        let prefix = listings.drop_last();
        assert forall|i: int| 0 <= i < prefix.len() implies (#[trigger] prefix[i]) is None by {
            assert(prefix[i] == listings[i]);
        }
        lemma_absent_roots_yield_nothing(prefix);
    }
}

/// Collects, from the listings of the configured roots, the paths of the
/// regular files that are ELF binaries, keeping the listing order. A root
/// that could not be listed is skipped.
pub fn collect_candidates(listings: &Vec<Option<Vec<DirEntryInfo>>>) -> (r: Vec<String>)
    ensures
        string_views(r@) == walk_candidates(listings@),
        (forall|i: int| 0 <= i < listings@.len() ==> (#[trigger] listings@[i]) is None) ==> r@.len()
            == 0,
{
    let mut out: Vec<String> = Vec::new();
    let n = listings.len();
    for i in 0..n
        invariant
            n == listings@.len(),
            string_views(out@) == walk_candidates(listings@.take(i as int)),
    {
        assert(listings@.take(i as int + 1).drop_last() =~= listings@.take(i as int));
        match &listings[i] {
            Some(entries) => {
                let ghost before = string_views(out@);
                let m = entries.len();
                for j in 0..m
                    invariant
                        m == entries@.len(),
                        string_views(out@) == before + listing_candidates(entries@.take(j as int)),
                {
                    assert(entries@.take(j as int + 1).drop_last() =~= entries@.take(j as int));
                    let e = &entries[j];
                    if e.is_file && is_elf(e.header.as_slice()) {
                        let ghost old_out = out@;
                        out.push(e.path.clone());
                        assert(string_views(out@) =~= string_views(old_out).push(e.path@));
                    }
                }
                assert(entries@.take(m as int) =~= entries@);
            },
            None => {},
        }
    }
    assert(listings@.take(n as int) =~= listings@);
    proof {
        if forall|i: int| 0 <= i < listings@.len() ==> (#[trigger] listings@[i]) is None {
            lemma_absent_roots_yield_nothing(listings@);
        }
    }
    out
}

} // verus!
