//! Where the document cache keeps extracted filing text:
//! `{home}/.corpex/cache/docs/{company_number}/{filing_id}.txt`. Reading and
//! writing the files is the caller's.
use vstd::prelude::*;
use crate::text;
use crate::export::{join_path, path_join};

verus! {

/// The cache folder under a home directory.
pub open spec fn cache_dir_of(home: Seq<char>) -> Seq<char> {
    join_path(join_path(join_path(home, ".corpex"@), "cache"@), "docs"@)
}

/// The cache folder under a home directory.
pub fn cache_dir(home: &str) -> (p: String)
    ensures
        p@ == cache_dir_of(home@),
{
    let a = path_join(home, ".corpex");
    let b = path_join(a.as_str(), "cache");
    path_join(b.as_str(), "docs")
}

/// The name of the file holding a filing's text.
pub fn cache_file_name(filing_id: &str) -> (f: String)
    ensures
        f@ == filing_id@ + ".txt"@,
{
    let mut f = text::owned(filing_id);
    text::push_str(&mut f, ".txt");
    f
}

/// The path of the file holding a filing's text.
pub fn cache_file_path(home: &str, company_number: &str, filing_id: &str) -> (p: String)
    ensures
        p@ == join_path(join_path(cache_dir_of(home@), company_number@), filing_id@ + ".txt"@),
{
    let dir = cache_dir(home);
    let company = path_join(dir.as_str(), company_number);
    path_join(company.as_str(), cache_file_name(filing_id).as_str())
}

/// `s` without all its trailing copies of `suffix` (`str::trim_end_matches`).
pub open spec fn strip_suffixes(s: Seq<char>, suffix: Seq<char>) -> Seq<char>
    decreases s.len(),
{
    if suffix.len() > 0 && text::ends_with(s, suffix) {
        strip_suffixes(s.subrange(0, s.len() - suffix.len()), suffix)
    } else {
        s
    }
}

/// The filing whose text a cache file holds: its name without the trailing
/// `.txt` (all of them), or `None` when it does not end in `.txt`.
pub open spec fn cached_id_of(file_name: Seq<char>) -> Option<Seq<char>> {
    if text::ends_with(file_name, ".txt"@) { Some(strip_suffixes(file_name, ".txt"@)) } else { None }
}

/// The filing a cache file is named after is found again from the file's
/// name, for every filing id that does not itself end in `.txt`.
pub proof fn cache_name_round_trip(filing_id: Seq<char>)
    requires
        !text::ends_with(filing_id, ".txt"@),
    ensures
        cached_id_of(filing_id + ".txt"@) == Some(filing_id),
{
    reveal_strlit(".txt");
    let f = filing_id + ".txt"@;
    assert(f.subrange(f.len() - 4, f.len() as int) =~= ".txt"@);
    assert(f.subrange(0, f.len() - 4) =~= filing_id);
    assert(text::ends_with(f, ".txt"@));
    assert(strip_suffixes(filing_id, ".txt"@) == filing_id);
}

/// The filing whose text a cache file holds, from the file's name.
pub fn cached_filing_id(file_name: &str) -> (r: Option<String>)
    ensures
        match r {
            Some(id) => cached_id_of(file_name@) == Some(id@),
            None => cached_id_of(file_name@) is None,
        },
{
    if !text::str_ends_with(file_name, ".txt") {
        return None;
    }
    let v = text::chars_of(file_name);
    let suffix = text::chars_of(".txt");
    let mut n: usize = v.len();
    proof {
        reveal_strlit(".txt");
        assert(v@.take(n as int) =~= v@);
    }
    while n >= suffix.len() && text::occurs_at_exec(&v, &suffix, n - suffix.len())
        invariant
            n <= v.len(),
            v@ == file_name@,
            suffix@ == ".txt"@,
            suffix.len() == 4,
            strip_suffixes(file_name@, ".txt"@) == strip_suffixes(v@.take(n as int), ".txt"@),
        decreases n,
    {
        proof {
            let t = v@.take(n as int);
            assert(t.subrange(t.len() - 4, t.len() as int) =~= v@.subrange(n - 4, n as int));
            assert(text::ends_with(t, ".txt"@));
            assert(t.subrange(0, t.len() - 4) =~= v@.take(n - 4));
        }
        n = n - suffix.len();
    }
    proof {
        let t = v@.take(n as int);
        if text::ends_with(t, ".txt"@) {
            assert(t.subrange(t.len() - 4, t.len() as int) =~= v@.subrange(n - 4, n as int));
            assert(text::occurs_at(v@, suffix@, n - 4));
        }
        assert(v@.subrange(0, n as int) =~= t);
    }
    Some(text::string_of(&v, 0, n))
}

} // verus!
