//! Path classification: file-name extensions, system directories and
//! reserved names, and the critical-file guard that exempts a file from
//! deletion.

use vstd::prelude::*;
use crate::text::{
    is_path_prefix, is_sep, lower_seq, path_starts_with, str_eq, to_lower_str,
};

verus! {

/// Index of the first character after the last path separator; 0 when the
/// path has no separator.
pub open spec fn name_start(p: Seq<char>) -> int
    decreases p.len(),
{
    if p.len() == 0 {
        0
    } else if is_sep(p.last()) {
        p.len() as int
    } else {
        name_start(p.drop_last())
    }
}

/// The final path component.
pub open spec fn file_name(p: Seq<char>) -> Seq<char> {
    p.subrange(name_start(p), p.len() as int)
}

/// Index of the last `.` in `s`, or -1 when there is none.
pub open spec fn last_dot(s: Seq<char>) -> int
    decreases s.len(),
{
    if s.len() == 0 {
        -1
    } else if s.last() == '.' {
        s.len() - 1
    } else {
        last_dot(s.drop_last())
    }
}

/// The extension of the final path component: the characters after its last
/// `.`, provided that dot is not the component's first character.
pub open spec fn extension_opt(p: Seq<char>) -> Option<Seq<char>> {
    let name = file_name(p);
    let d = last_dot(name);
    if d >= 1 {
        Some(name.subrange(d + 1, name.len() as int))
    } else {
        None
    }
}

/// The file-type tag a scan records: the lowercased extension, or "unknown".
pub open spec fn file_type_tag(p: Seq<char>) -> Seq<char> {
    match extension_opt(p) {
        Some(e) => lower_seq(e),
        None => "unknown"@,
    }
}

/// The path lies under one of the system directories.
pub open spec fn spec_is_system_dir(p: Seq<char>) -> bool {
    ||| is_path_prefix("C:\\Windows"@, p)
    ||| is_path_prefix("C:\\System Volume Information"@, p)
    ||| is_path_prefix("C:\\$Recycle.Bin"@, p)
}

/// The final component is a reserved name: hidden (leading dot) or one of
/// the shell metadata files.
pub open spec fn spec_is_reserved_name(p: Seq<char>) -> bool {
    let name = file_name(p);
    ||| (name.len() > 0 && name[0] == '.')
    ||| name == "desktop.ini"@
    ||| name == "thumbs.db"@
}

/// The path counts as a system file: under a system directory, or a
/// reserved file name.
pub open spec fn spec_is_system_file(p: Seq<char>) -> bool {
    spec_is_system_dir(p) || spec_is_reserved_name(p)
}

/// The path lies under one of the critical OS directories.
pub open spec fn spec_is_critical_path(p: Seq<char>) -> bool {
    ||| is_path_prefix("C:\\Windows\\System32"@, p)
    ||| is_path_prefix("C:\\Windows\\SysWOW64"@, p)
    ||| is_path_prefix("C:\\Windows\\WinSxS"@, p)
}

/// The extension (compared case-insensitively) marks a binary, driver or
/// library file.
pub open spec fn spec_is_critical_ext(e: Seq<char>) -> bool {
    ||| lower_seq(e) == "sys"@
    ||| lower_seq(e) == "dll"@
    ||| lower_seq(e) == "exe"@
    ||| lower_seq(e) == "drv"@
    ||| lower_seq(e) == "ocx"@
}

/// The path names a critical file: a critical extension, or a location
/// under a critical OS directory. Critical files are exempt from deletion.
pub open spec fn spec_is_critical_file(p: Seq<char>) -> bool {
    ||| (extension_opt(p) is Some && spec_is_critical_ext(extension_opt(p)->0))
    ||| spec_is_critical_path(p)
}

/// The path lies under a program-install directory.
pub open spec fn spec_is_program_files_path(p: Seq<char>) -> bool {
    ||| is_path_prefix("C:\\Program Files"@, p)
    ||| is_path_prefix("C:\\Program Files (x86)"@, p)
}

proof fn lemma_name_start_props(p: Seq<char>)
    ensures
        0 <= name_start(p) <= p.len(),
        forall|j: int| name_start(p) <= j < p.len() ==> !is_sep(p[j]),
        name_start(p) > 0 ==> is_sep(p[name_start(p) - 1]),
    decreases p.len(),
{
    if p.len() > 0 && !is_sep(p.last()) {
        lemma_name_start_props(p.drop_last());
        assert(forall|j: int|
            name_start(p) <= j < p.len() - 1 ==> p[j] == p.drop_last()[j] && !is_sep(p[j]));
    }
}

proof fn lemma_name_start_unique(p: Seq<char>, k: int)
    requires
        0 <= k <= p.len(),
        forall|j: int| k <= j < p.len() ==> !is_sep(p[j]),
        k > 0 ==> is_sep(p[k - 1]),
    ensures
        k == name_start(p),
    decreases p.len(),
{
    lemma_name_start_props(p);
    if p.len() == 0 {
    } else if is_sep(p.last()) {
        assert(k == p.len());
    } else {
        assert(k < p.len());
        lemma_name_start_unique(p.drop_last(), k);
    }
}

proof fn lemma_last_dot_props(s: Seq<char>)
    ensures
        -1 <= last_dot(s) < s.len(),
        last_dot(s) >= 0 ==> s[last_dot(s)] == '.',
        forall|j: int| last_dot(s) < j < s.len() ==> s[j] != '.',
    decreases s.len(),
{
    if s.len() > 0 && s.last() != '.' {
        lemma_last_dot_props(s.drop_last());
        assert(forall|j: int|
            last_dot(s) < j < s.len() - 1 ==> s[j] == s.drop_last()[j] && s[j] != '.');
    }
}

proof fn lemma_last_dot_unique(s: Seq<char>, d: int)
    requires
        -1 <= d < s.len(),
        d >= 0 ==> s[d] == '.',
        forall|j: int| d < j < s.len() ==> s[j] != '.',
    ensures
        d == last_dot(s),
    decreases s.len(),
{
    lemma_last_dot_props(s);
    if s.len() == 0 {
    } else if s.last() == '.' {
        assert(d == s.len() - 1);
    } else {
        assert(d < s.len() - 1);
        lemma_last_dot_unique(s.drop_last(), d);
    }
}

/// Index of the first character of the final path component.
pub fn find_name_start(path: &str) -> (k: usize)
    ensures
        k == name_start(path@),
{
    let n = path.unicode_len();
    let mut i: usize = n;
    while i > 0
        invariant
            0 <= i <= n,
            n == path@.len(),
            forall|j: int| i <= j < n ==> !is_sep(path@[j]),
        decreases i,
    {
        let c = path.get_char(i - 1);
        if c == '\\' || c == '/' {
            proof {
                lemma_name_start_unique(path@, i as int);
            }
            return i;
        }
        i = i - 1;
    }
    proof {
        lemma_name_start_unique(path@, 0);
    }
    0
}

/// The extension of the final path component, lowercased, when there is one.
pub fn extension_lower(path: &str) -> (r: Option<String>)
    ensures
        r is Some <==> extension_opt(path@) is Some,
        r is Some ==> r->0@ == lower_seq(extension_opt(path@)->0),
{
    let n = path.unicode_len();
    let ghost p = path@;
    let mut i: usize = n;
    while i > 0
        invariant
            0 <= i <= n,
            n == p.len(),
            p == path@,
            forall|j: int| i <= j < n ==> !is_sep(p[j]) && p[j] != '.',
        decreases i,
    {
        let c = path.get_char(i - 1);
        if c == '\\' || c == '/' {
            // the final component holds no dot at all
            proof {
                lemma_name_start_unique(p, i as int);
                lemma_last_dot_unique(file_name(p), -1);
            }
            return None;
        }
        if c == '.' {
            // the last dot of the path, with no separator to its right
            if i == 1 || {
                let b = path.get_char(i - 2);
                b == '\\' || b == '/'
            } {
                // the dot opens the final component: no extension
                proof {
                    lemma_name_start_unique(p, i - 1);
                    lemma_last_dot_unique(file_name(p), 0);
                }
                return None;
            }
            proof {
                lemma_name_start_props(p);
                assert(name_start(p) <= i - 2) by {
                    if name_start(p) == i - 1 {
                        assert(is_sep(p[i - 2]));
                    }
                    if name_start(p) > i - 1 {
                        assert(!is_sep(p[name_start(p) - 1]));
                    }
                }
                let ns = name_start(p);
                let name = file_name(p);
                assert(name[i - 1 - ns] == '.');
                assert(forall|j: int|
                    i - 1 - ns < j < name.len() ==> name[j] == p[ns + j] && name[j] != '.');
                lemma_last_dot_unique(name, i - 1 - ns);
                assert(extension_opt(p)->0 =~= p.subrange(i as int, n as int));
            }
            let ext = path.substring_char(i, n);
            return Some(to_lower_str(ext));
        }
        i = i - 1;
    }
    // no separator and no dot anywhere in the path
    proof {
        lemma_name_start_unique(p, 0);
        lemma_last_dot_unique(file_name(p), -1);
    }
    None
}

/// The file-type tag recorded for a path: lowercased extension or "unknown".
pub fn get_file_extension(path: &str) -> (t: String)
    ensures
        t@ == file_type_tag(path@),
{
    match extension_lower(path) {
        Some(e) => e,
        None => String::from_str("unknown"),
    }
}

/// Whether the path lies under a system directory.
pub fn is_system_directory(path: &str) -> (r: bool)
    ensures
        r == spec_is_system_dir(path@),
{
    path_starts_with(path, "C:\\Windows") || path_starts_with(path, "C:\\System Volume Information")
        || path_starts_with(path, "C:\\$Recycle.Bin")
}

/// Whether the path is classified as a system file: under a system
/// directory, or carrying a reserved file name.
pub fn is_system_file(path: &str) -> (r: bool)
    ensures
        r == spec_is_system_file(path@),
{
    if is_system_directory(path) {
        return true;
    }
    let ns = find_name_start(path);
    let n = path.unicode_len();
    proof {
        lemma_name_start_props(path@);
    }
    let name = path.substring_char(ns, n);
    if name.unicode_len() > 0 && name.get_char(0) == '.' {
        return true;
    }
    str_eq(name, "desktop.ini") || str_eq(name, "thumbs.db")
}

/// Whether the path lies under a critical OS directory.
pub fn is_critical_path(path: &str) -> (r: bool)
    ensures
        r == spec_is_critical_path(path@),
{
    path_starts_with(path, "C:\\Windows\\System32") || path_starts_with(
        path,
        "C:\\Windows\\SysWOW64",
    ) || path_starts_with(path, "C:\\Windows\\WinSxS")
}

/// Whether the path names a critical file, which the deleter must refuse.
pub fn is_critical_file(path: &str) -> (r: bool)
    ensures
        r == spec_is_critical_file(path@),
{
    let ext = extension_lower(path);
    match ext {
        Some(e) => {
            if str_eq(e.as_str(), "sys") || str_eq(e.as_str(), "dll") || str_eq(e.as_str(), "exe")
                || str_eq(e.as_str(), "drv") || str_eq(e.as_str(), "ocx") {
                return true;
            }
        },
        None => {},
    }
    is_critical_path(path)
}

/// Whether the path lies under a program-install directory.
pub fn is_program_files_path(path: &str) -> (r: bool)
    ensures
        r == spec_is_program_files_path(path@),
{
    path_starts_with(path, "C:\\Program Files") || path_starts_with(
        path,
        "C:\\Program Files (x86)",
    )
}

} // verus!
