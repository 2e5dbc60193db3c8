use vstd::prelude::*;

use crate::error::AppError;

verus! {

/// The separator between the components of a path.
pub open spec fn is_sep(c: char) -> bool {
    c == '/'
}

/// A path has a root when it begins with the separator.
pub open spec fn has_root(p: Seq<char>) -> bool {
    p.len() > 0 && is_sep(p[0])
}

/// A `..` component begins at position `i` of `p`.
pub open spec fn parent_component_at(p: Seq<char>, i: int) -> bool {
    &&& 0 <= i
    &&& i + 2 <= p.len()
    &&& p[i] == '.'
    &&& p[i + 1] == '.'
    &&& (i == 0 || is_sep(p[i - 1]))
    &&& (i + 2 == p.len() || is_sep(p[i + 2]))
}

/// Some component of `p` is `..`.
pub open spec fn has_parent_component(p: Seq<char>) -> bool {
    exists|i: int| #[trigger] parent_component_at(p, i)
}

/// `root` followed by `p`, with one separator between them where `root`
/// is non-empty and does not already end in one. An absolute `p` stands
/// for itself.
pub open spec fn join_spec(root: Seq<char>, p: Seq<char>) -> Seq<char> {
    if has_root(p) {
        p
    } else if root.len() == 0 || is_sep(root.last()) {
        root + p
    } else {
        root + seq!['/'] + p
    }
}

/// What confining `p` below `root` gives: an error for an absolute path or one
/// with a `..` component, else the two joined.
pub open spec fn secure_join_spec(root: Seq<char>, p: Seq<char>) -> Result<Seq<char>, AppError> {
    if has_root(p) || has_parent_component(p) {
        Err(AppError::PathSecurity)
    } else {
        Ok(join_spec(root, p))
    }
}

/// Whether `p` has a `..` component, found by one scan of its characters.
fn find_parent_component(p: &str) -> (r: bool)
    ensures
        r == has_parent_component(p@),
{
    let n = p.unicode_len();
    let mut i: usize = 0;
    while i < n
        invariant
            n == p@.len(),
            i <= n,
            forall|j: int| 0 <= j < i ==> !parent_component_at(p@, j),
        decreases n - i,
    {
        if n - i >= 2 && p.get_char(i) == '.' && p.get_char(i + 1) == '.' && (i == 0 || p.get_char(
            i - 1,
        ) == '/') && (i + 2 == n || p.get_char(i + 2) == '/') {
            assert(parent_component_at(p@, i as int));
            return true;
        }
        i = i + 1;
    }
    proof {
        assert forall|j: int| !#[trigger] parent_component_at(p@, j) by {
            if 0 <= j < i {
            }
        }
    }
    false
}

/// Joins two paths: `root`, a separator where one is needed, then `p`; an
/// absolute `p` replaces `root`.
pub fn join(root: &str, p: &str) -> (r: String)
    ensures
        r@ == join_spec(root@, p@),
{
    if p.unicode_len() > 0 && p.get_char(0) == '/' {
        return p.to_string();
    }
    let n = root.unicode_len();
    let mut r = root.to_string();
    if n > 0 && root.get_char(n - 1) != '/' {
        proof {
            reveal_strlit("/");
        }
        r.append("/");
    }
    r.append(p);
    r
}

/// Confines `unsafe_path` below `root`. The test is lexical: it refuses an
/// absolute path and any path with a `..` component, and follows no link.
pub fn secure_join(root: &str, unsafe_path: &str) -> (r: Result<String, AppError>)
    ensures
        r matches Ok(s) ==> secure_join_spec(root@, unsafe_path@) == Ok::<Seq<char>, AppError>(s@),
        r matches Err(e) ==> secure_join_spec(root@, unsafe_path@) == Err::<Seq<char>, AppError>(e),
{
    let n = unsafe_path.unicode_len();
    if n > 0 && unsafe_path.get_char(0) == '/' {
        return Err(AppError::PathSecurity);
    }
    if find_parent_component(unsafe_path) {
        return Err(AppError::PathSecurity);
    }
    Ok(join(root, unsafe_path))
}

/// Confines `file` below the directory `user_root` of `file_root`.
pub open spec fn normalize_spec(file_root: Seq<char>, user_root: Seq<char>, file: Seq<char>) -> Result<
    Seq<char>,
    AppError,
> {
    secure_join_spec(join_spec(file_root, user_root), file)
}

/// Resolves `file`, a path of the owner whose directory is `user_root`,
/// below `file_root`, refusing one that is absolute or climbs with `..`.
pub fn normailze_path(file_root: &str, user_root: &str, file: &str) -> (r: Result<String, AppError>)
    ensures
        r matches Ok(s) ==> normalize_spec(file_root@, user_root@, file@) == Ok::<
            Seq<char>,
            AppError,
        >(s@),
        r matches Err(e) ==> normalize_spec(file_root@, user_root@, file@) == Err::<
            Seq<char>,
            AppError,
        >(e),
{
    let user_abs_root = join(file_root, user_root);
    secure_join(user_abs_root.as_str(), file)
}

/// The owner-relative form of `p2` below `p1`, confined as by
/// `secure_join`.
pub fn rel_join(p1: &str, p2: &str) -> (r: Result<String, AppError>)
    ensures
        r matches Ok(s) ==> secure_join_spec(p1@, p2@) == Ok::<Seq<char>, AppError>(s@),
        r matches Err(e) ==> secure_join_spec(p1@, p2@) == Err::<Seq<char>, AppError>(e),
{
    secure_join(p1, p2)
}

/// Paths that are absolute or hold a `..` component are refused; any other
/// path resolves below the owner's root: the result begins with that root
/// and ends with the path itself, and is longer than the root where the
/// path is not empty.
pub proof fn lemma_confinement(file_root: Seq<char>, user_root: Seq<char>, file: Seq<char>)
    ensures
        has_root(file) || has_parent_component(file) ==> normalize_spec(file_root, user_root, file)
            == Err::<Seq<char>, AppError>(AppError::PathSecurity),
        !has_root(file) && !has_parent_component(file) ==> (normalize_spec(
            file_root,
            user_root,
            file,
        ) matches Ok(r) && {
            let base = join_spec(file_root, user_root);
            &&& base.len() + file.len() <= r.len()
            &&& r.subrange(0, base.len() as int) == base
            &&& r.subrange(r.len() - file.len(), r.len() as int) == file
            &&& (file.len() > 0 ==> base.len() < r.len())
        }),
{
    let base = join_spec(file_root, user_root);
    if !has_root(file) && !has_parent_component(file) {
        let r = join_spec(base, file);
        if base.len() == 0 || is_sep(base.last()) {
            assert(r.subrange(0, base.len() as int) =~= base);
            assert(r.subrange(r.len() - file.len(), r.len() as int) =~= file);
        } else {
            assert(r.subrange(0, base.len() as int) =~= base);
            assert(r.subrange(r.len() - file.len(), r.len() as int) =~= file);
        }
    }
}

/// One component of a canonical path begins at position `i`: a character
/// other than the separator, at the start or after a separator.
pub open spec fn component_start(p: Seq<char>, i: int) -> bool {
    0 <= i < p.len() && !is_sep(p[i]) && (i == 0 || is_sep(p[i - 1]))
}

/// How many components start before position `k`.
pub open spec fn starts_before(p: Seq<char>, k: int) -> nat
    decreases k,
{
    if k <= 0 {
        0
    } else {
        starts_before(p, k - 1) + if component_start(p, k - 1) {
            1nat
        } else {
            0nat
        }
    }
}

/// The number of components of a canonical path: its root, if it has one,
/// and each name between separators.
pub open spec fn depth(p: Seq<char>) -> nat {
    starts_before(p, p.len() as int) + if has_root(p) {
        1nat
    } else {
        0nat
    }
}

fn depth_of(p: &str) -> (r: u128)
    ensures
        r == depth(p@),
{
    let n = p.unicode_len();
    let mut k: usize = 0;
    let mut count: u128 = 0;
    while k < n
        invariant
            n == p@.len(),
            k <= n,
            count == starts_before(p@, k as int),
            count <= k,
        decreases n - k,
    {
        let c = p.get_char(k);
        if c != '/' && (k == 0 || p.get_char(k - 1) == '/') {
            count = count + 1;
        }
        k = k + 1;
    }
    if n > 0 && p.get_char(0) == '/' {
        count = count + 1;
    }
    count
}

/// The path that the strict confinement canonicalizes: `unsafe_path`
/// joined below `root`, refused where it is absolute.
pub fn strict_join_target(root: &str, unsafe_path: &str) -> (r: Result<String, AppError>)
    ensures
        has_root(unsafe_path@) ==> r == Err::<String, AppError>(AppError::PathSecurity),
        !has_root(unsafe_path@) ==> (r matches Ok(s) && s@ == join_spec(root@, unsafe_path@)),
{
    if unsafe_path.unicode_len() > 0 && unsafe_path.get_char(0) == '/' {
        return Err(AppError::PathSecurity);
    }
    Ok(join(root, unsafe_path))
}

/// The strict confinement, which also catches links that lead out of
/// `root`: `canonical_target` and `canonical_root` are what the file system
/// resolved `strict_join_target(root, unsafe_path)` and `root` to. The path
/// is refused where it is absolute or its resolution has fewer components
/// than the root's.
pub fn secure_join_strict(
    root: &str,
    unsafe_path: &str,
    canonical_target: &str,
    canonical_root: &str,
) -> (r: Result<String, AppError>)
    ensures
        has_root(unsafe_path@) || depth(canonical_target@) < depth(canonical_root@) ==> r == Err::<
            String,
            AppError,
        >(AppError::PathSecurity),
        !has_root(unsafe_path@) && depth(canonical_target@) >= depth(canonical_root@) ==> (r matches Ok(
            s,
        ) && s@ == join_spec(root@, unsafe_path@)),
{
    let target = strict_join_target(root, unsafe_path);
    match target {
        Err(e) => Err(e),
        Ok(t) => {
            if depth_of(canonical_target) < depth_of(canonical_root) {
                Err(AppError::PathSecurity)
            } else {
                Ok(t)
            }
        },
    }
}

/// A path without the `/` that marks a directory.
pub open spec fn trim_dir_mark_spec(s: Seq<char>) -> Seq<char> {
    if s.len() > 0 && s.last() == '/' {
        s.drop_last()
    } else {
        s
    }
}

/// The position of the last separator before position `k`, or -1.
pub open spec fn last_sep_before(s: Seq<char>, k: int) -> int
    decreases k,
{
    if k <= 0 {
        -1
    } else if s[k - 1] == '/' {
        k - 1
    } else {
        last_sep_before(s, k - 1)
    }
}

/// The last component of a path: what follows the last separator. An
/// empty path has the name `unknown`.
pub open spec fn entry_name_spec(p: Seq<char>) -> Seq<char> {
    if p.len() == 0 {
        "unknown"@
    } else {
        p.subrange(last_sep_before(p, p.len() as int) + 1, p.len() as int)
    }
}

/// The directory a path stands in: what precedes the last separator, or
/// the empty path where there is none.
pub open spec fn entry_parent_spec(p: Seq<char>) -> Seq<char> {
    let k = last_sep_before(p, p.len() as int);
    if k < 0 {
        Seq::empty()
    } else {
        p.subrange(0, k)
    }
}

proof fn lemma_last_sep_bounds(s: Seq<char>, k: int)
    requires
        k <= s.len(),
    ensures
        -1 <= last_sep_before(s, k) < k || (k <= 0 && last_sep_before(s, k) == -1),
    decreases k,
{
    if k > 0 && s[k - 1] != '/' {
        lemma_last_sep_bounds(s, k - 1);
    }
}

fn find_last_sep(s: &str) -> (r: (usize, bool))
    ensures
        r.1 ==> last_sep_before(s@, s@.len() as int) == r.0 as int,
        !r.1 ==> last_sep_before(s@, s@.len() as int) == -1,
{
    let n = s.unicode_len();
    let mut k = n;
    while k > 0 && s.get_char(k - 1) != '/'
        invariant
            k <= n == s@.len(),
            last_sep_before(s@, k as int) == last_sep_before(s@, n as int),
        decreases k,
    {
        k = k - 1;
    }
    if k == 0 {
        (0, false)
    } else {
        (k - 1, true)
    }
}

/// Drops the `/` that ends a directory's path.
pub fn trim_dir_mark(s: &str) -> (r: String)
    ensures
        r@ == trim_dir_mark_spec(s@),
{
    let n = s.unicode_len();
    if n > 0 && s.get_char(n - 1) == '/' {
        s.substring_char(0, n - 1).to_string()
    } else {
        s.to_string()
    }
}

/// The last component of a path.
pub fn entry_name(p: &str) -> (r: String)
    ensures
        r@ == entry_name_spec(p@),
{
    let n = p.unicode_len();
    if n == 0 {
        return "unknown".to_string();
    }
    let (k, found) = find_last_sep(p);
    proof {
        lemma_last_sep_bounds(p@, n as int);
    }
    if found {
        p.substring_char(k + 1, n).to_string()
    } else {
        p.to_string()
    }
}

/// The directory that a path stands in.
pub fn entry_parent(p: &str) -> (r: String)
    ensures
        r@ == entry_parent_spec(p@),
{
    let (k, found) = find_last_sep(p);
    proof {
        lemma_last_sep_bounds(p@, p@.len() as int);
    }
    if found {
        p.substring_char(0, k).to_string()
    } else {
        proof {
            reveal_strlit("");
        }
        "".to_string()
    }
}

} // verus!
