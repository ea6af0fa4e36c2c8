//! Package references and filenames: parsing `owner/repo@version`
//! references, sanitizing filenames, and naming downloaded source
//! archives.

use vstd::prelude::*;

verus! {

/// Index of the first occurrence of `c` in `s`, or -1 when absent.
pub open spec fn first_index_of(s: Seq<char>, c: char) -> int
    decreases s.len(),
{
    if s.len() == 0 {
        -1
    } else if s[0] == c {
        0
    } else {
        let r = first_index_of(s.drop_first(), c);
        if r == -1 {
            -1
        } else {
            r + 1
        }
    }
}

/// How many times `c` occurs in `s`.
pub open spec fn count_char(s: Seq<char>, c: char) -> int
    decreases s.len(),
{
    if s.len() == 0 {
        0int
    } else {
        count_char(s.drop_last(), c) + if s.last() == c {
            1int
        } else {
            0int
        }
    }
}

proof fn lemma_first_index_found(s: Seq<char>, c: char, i: int)
    requires
        0 <= i < s.len(),
        s[i] == c,
        forall|j: int| 0 <= j < i ==> s[j] != c,
    ensures
        first_index_of(s, c) == i,
    decreases i,
{
    if i == 0 {
    } else {
        assert(forall|j: int| 0 <= j < i - 1 ==> s.drop_first()[j] == s[j + 1]);
        lemma_first_index_found(s.drop_first(), c, i - 1);
    }
}

proof fn lemma_first_index_absent(s: Seq<char>, c: char)
    requires
        forall|j: int| 0 <= j < s.len() ==> s[j] != c,
    ensures
        first_index_of(s, c) == -1,
    decreases s.len(),
{
    if s.len() > 0 {
        assert(forall|j: int| 0 <= j < s.drop_first().len() ==> s.drop_first()[j] == s[j + 1]);
        lemma_first_index_absent(s.drop_first(), c);
    }
}

proof fn lemma_count_absent(s: Seq<char>, c: char)
    requires
        forall|j: int| 0 <= j < s.len() ==> s[j] != c,
    ensures
        count_char(s, c) == 0,
    decreases s.len(),
{
    if s.len() > 0 {
        assert(forall|j: int| 0 <= j < s.drop_last().len() ==> s.drop_last()[j] == s[j]);
        lemma_count_absent(s.drop_last(), c);
    }
}

/// Finds the first occurrence of `c` in `s`.
fn find_char(s: &str, c: char) -> (r: Option<usize>)
    ensures
        match r {
            Some(i) => {
                &&& first_index_of(s@, c) == i as int
                &&& i < s@.len()
                &&& s@[i as int] == c
                &&& forall|j: int| 0 <= j < i as int ==> s@[j] != c
            },
            None => {
                &&& first_index_of(s@, c) == -1
                &&& forall|j: int| 0 <= j < s@.len() ==> s@[j] != c
            },
        },
{
    let n = s.unicode_len();
    let mut i: usize = 0;
    while i < n
        invariant
            n == s@.len(),
            i <= n,
            forall|j: int| 0 <= j < i as int ==> s@[j] != c,
        decreases n - i,
    {
        let ch = s.get_char(i);
        if ch == c {
            proof {
                lemma_first_index_found(s@, c, i as int);
            }
            return Some(i);
        }
        i = i + 1;
    }
    proof {
        lemma_first_index_absent(s@, c);
    }
    None
}

/// Counts the occurrences of `c` in `s`.
fn count_occurrences(s: &str, c: char) -> (n: usize)
    ensures
        n as int == count_char(s@, c),
{
    let len = s.unicode_len();
    let mut n: usize = 0;
    let mut i: usize = 0;
    while i < len
        invariant
            len == s@.len(),
            i <= len,
            n <= i,
            n as int == count_char(s@.subrange(0, i as int), c),
        decreases len - i,
    {
        let ch = s.get_char(i);
        if ch == c {
            n = n + 1;
        }
        i = i + 1;
        proof {
            assert(s@.subrange(0, i as int).drop_last() =~= s@.subrange(0, i as int - 1));
            assert(s@.subrange(0, i as int).last() == s@[i as int - 1]);
        }
    }
    proof {
        assert(s@.subrange(0, s@.len() as int) =~= s@);
    }
    n
}

/// The reference fits the `owner/repo` or `owner/repo@version` shape:
/// a non-empty owner without '/' or '@' before the first '/', a
/// non-empty repo without '@' after it, and, if '@' follows, a
/// non-empty version behind it.
pub open spec fn slash_form_matches(s: Seq<char>) -> bool {
    let k = first_index_of(s, '/');
    let a = first_index_of(s, '@');
    &&& k >= 1
    &&& (a == -1 || a > k)
    &&& (if a == -1 {
        s.len() > k + 1
    } else {
        a >= k + 2 && a + 1 < s.len()
    })
}

/// What a package reference resolves to: owner, repository, and an
/// optional version. A reference that does not fit the
/// `owner/repo[@version]` shape falls back to the implied owner
/// "github": split at the '@' when there is exactly one, otherwise the
/// repository is the text before the first '@' (or the whole reference
/// when there is none) and the version is absent.
pub open spec fn parse_package_spec(s: Seq<char>) -> (Seq<char>, Seq<char>, Option<Seq<char>>) {
    let k = first_index_of(s, '/');
    let a = first_index_of(s, '@');
    if slash_form_matches(s) {
        if a == -1 {
            (s.subrange(0, k), s.subrange(k + 1, s.len() as int), None)
        } else {
            (s.subrange(0, k), s.subrange(k + 1, a), Some(s.subrange(a + 1, s.len() as int)))
        }
    } else {
        if count_char(s, '@') == 1 {
            ("github"@, s.subrange(0, a), Some(s.subrange(a + 1, s.len() as int)))
        } else if a == -1 {
            ("github"@, s, None)
        } else {
            ("github"@, s.subrange(0, a), None)
        }
    }
}

/// Splits a package reference into owner, repository and optional
/// version, as [`parse_package_spec`] describes.
pub fn parse_package(package: &str) -> (r: (String, String, Option<String>))
    ensures
        r.0@ == parse_package_spec(package@).0,
        r.1@ == parse_package_spec(package@).1,
        r.2 is Some <==> parse_package_spec(package@).2 is Some,
        r.2 is Some ==> r.2->0@ == parse_package_spec(package@).2->0,
{
    let n = package.unicode_len();
    let slash = find_char(package, '/');
    let at = find_char(package, '@');
    let matched: bool = match (slash, at) {
        (Some(k), Option::<usize>::None) => k >= 1 && k + 1 < n,
        (Some(k), Some(a)) => k >= 1 && a > k && a - k >= 2 && a + 1 < n,
        _ => false,
    };
    if matched {
        match (slash, at) {
            (Some(k), Option::<usize>::None) => {
                let owner = package.substring_char(0, k);
                let repo = package.substring_char(k + 1, n);
                (String::from_str(owner), String::from_str(repo), None)
            },
            (Some(k), Some(a)) => {
                let owner = package.substring_char(0, k);
                let repo = package.substring_char(k + 1, a);
                let version = package.substring_char(a + 1, n);
                (String::from_str(owner), String::from_str(repo), Some(String::from_str(version)))
            },
            _ => unreached(),
        }
    } else {
        let occurrences = count_occurrences(package, '@');
        if occurrences == 1 {
            match at {
                Some(a) => {
                    let repo = package.substring_char(0, a);
                    let version = package.substring_char(a + 1, n);
                    (
                        String::from_str("github"),
                        String::from_str(repo),
                        Some(String::from_str(version)),
                    )
                },
                Option::<usize>::None => {
                    proof {
                        lemma_count_absent(package@, '@');
                    }
                    unreached()
                },
            }
        } else {
            match at {
                Some(a) => {
                    let repo = package.substring_char(0, a);
                    (String::from_str("github"), String::from_str(repo), None)
                },
                Option::<usize>::None => {
                    (String::from_str("github"), String::from_str(package), None)
                },
            }
        }
    }
}

/// The character substitution applied to filenames: characters that are
/// path separators or special to shells or other filesystems become '-'.
pub open spec fn sanitize_char(c: char) -> char {
    if c == '@' || c == '/' || c == ':' || c == '*' || c == '?' || c == '"' || c == '<' || c == '>'
        || c == '|' {
        '-'
    } else {
        c
    }
}

/// A filename with every special character replaced by '-'.
pub open spec fn sanitized_chars(s: Seq<char>) -> Seq<char> {
    s.map_values(|c: char| sanitize_char(c))
}

/// Replaces the characters '@', '/', ':', '*', '?', '"', '<', '>' and
/// '|' in a filename with '-'.
pub fn sanitize_filename(name: &str) -> (r: String)
    ensures
        r@ == sanitized_chars(name@),
{
    let n = name.unicode_len();
    let mut r = String::new();
    let mut i: usize = 0;
    while i < n
        invariant
            n == name@.len(),
            i <= n,
            r@.len() == i as int,
            forall|j: int| 0 <= j < i as int ==> r@[j] == sanitize_char(name@[j]),
        decreases n - i,
    {
        let c = name.get_char(i);
        if c == '@' || c == '/' || c == ':' || c == '*' || c == '?' || c == '"' || c == '<' || c
            == '>' || c == '|' {
            proof {
                reveal_strlit("-");
            }
            r.append("-");
        } else {
            let piece = name.substring_char(i, i + 1);
            r.append(piece);
        }
        i = i + 1;
    }
    proof {
        assert(r@ =~= sanitized_chars(name@));
    }
    r
}

/// Which source archive of a release to download; the caller picks by
/// platform.
#[derive(Debug, Clone, Copy, PartialEq, Eq, Structural)]
pub enum ArchiveKind {
    Zip,
    TarGz,
}

/// The file extension of each archive kind.
pub fn archive_extension(kind: ArchiveKind) -> (e: &'static str)
    ensures
        e@ == match kind {
            ArchiveKind::Zip => "zip"@,
            ArchiveKind::TarGz => "tar.gz"@,
        },
{
    match kind {
        ArchiveKind::Zip => "zip",
        ArchiveKind::TarGz => "tar.gz",
    }
}

/// The output filename for a source-archive download:
/// `<sanitized package>-source.<extension>`.
pub fn source_filename(package: &str, kind: ArchiveKind) -> (r: String)
    ensures
        r@ == sanitized_chars(package@) + "-source."@ + match kind {
            ArchiveKind::Zip => "zip"@,
            ArchiveKind::TarGz => "tar.gz"@,
        },
{
    let mut r = sanitize_filename(package);
    r.append("-source.");
    let ext = archive_extension(kind);
    r.append(ext);
    proof {
        assert(r@ =~= sanitized_chars(package@) + "-source."@ + ext@);
    }
    r
}

} // verus!
