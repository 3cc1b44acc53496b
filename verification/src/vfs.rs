//! Per-tenant virtual filesystem: each tenant is confined to
//! `{base_path}/{tenant_id}`; traversal attempts are refused without touching
//! the disk.
use vstd::prelude::*;
use crate::text::{chars_of, contains_char, has_prefix, string_from_chars};
use crate::types::TenantId;

verus! {

/// `/` or `\`.
pub open spec fn is_sep(c: char) -> bool {
    c == '/' || c == '\\'
}

/// An ASCII letter.
pub open spec fn is_ascii_alpha(c: char) -> bool {
    ('a' <= c && c <= 'z') || ('A' <= c && c <= 'Z')
}

/// A Windows drive prefix such as `C:`, `C:/` or `C:\`.
pub open spec fn has_drive_prefix(r: Seq<char>) -> bool {
    &&& r.len() >= 2
    &&& is_ascii_alpha(r[0])
    &&& r[1] == ':'
    &&& (r.len() == 2 || is_sep(r[2]))
}

/// A `..` component (separated by `/` or `\`) starts at index `i`.
pub open spec fn dotdot_at(r: Seq<char>, i: int) -> bool {
    &&& 0 <= i
    &&& i + 2 <= r.len()
    &&& r[i] == '.'
    &&& r[i + 1] == '.'
    &&& (i == 0 || is_sep(r[i - 1]))
    &&& (i + 2 == r.len() || is_sep(r[i + 2]))
}

/// Some component of `r` is `..`.
pub open spec fn has_dotdot_component(r: Seq<char>) -> bool {
    exists|i: int| dotdot_at(r, i)
}

/// The relative-path policy: empty and `.` are allowed; NUL, `%`, a leading
/// separator, a drive prefix and any `..` component are refused.
pub open spec fn safe_relative(r: Seq<char>) -> bool {
    if r.len() == 0 || r == seq!['.'] {
        true
    } else if r.contains('\0') || r.contains('%') {
        false
    } else if is_sep(r[0]) {
        false
    } else if has_drive_prefix(r) {
        false
    } else {
        !has_dotdot_component(r)
    }
}

/// Unix path joining: an absolute `p` replaces `base`; otherwise a `/` is
/// inserted when `base` is non-empty and does not already end in one.
pub open spec fn path_join(base: Seq<char>, p: Seq<char>) -> Seq<char> {
    if p.len() > 0 && p[0] == '/' {
        p
    } else if base.len() > 0 && base.last() != '/' {
        base + seq!['/'] + p
    } else {
        base + p
    }
}

/// The tenant's root directory.
pub open spec fn tenant_root(base: Seq<char>, tenant: Seq<char>) -> Seq<char> {
    path_join(base, tenant)
}

/// The path that `relative` names inside the tenant's root.
pub open spec fn logical_path(base: Seq<char>, tenant: Seq<char>, relative: Seq<char>) -> Seq<char> {
    if relative.len() == 0 || relative == seq!['.'] {
        tenant_root(base, tenant)
    } else {
        path_join(tenant_root(base, tenant), relative)
    }
}

/// Whether `path` starts with all the components of `base`
/// (`std::path::Path::starts_with`).
pub uninterp spec fn path_has_prefix(path: Seq<char>, base: Seq<char>) -> bool;

/// Calls `std::path::Path::starts_with`, which compares whole components;
/// the contract names its result `path_has_prefix` of the two texts.
#[verifier::external_body]
fn path_starts_with(path: &str, base: &str) -> (r: bool)
    ensures
        r == path_has_prefix(path@, base@),
{
    std::path::Path::new(path).starts_with(base)
}

/// Calls `std::path::Path::canonicalize`. The outcome depends on what is on
/// disk, so nothing is stated of it.
#[verifier::external_body]
fn canonicalize(path: &str) -> (r: Option<String>) {
    match std::path::Path::new(path).canonicalize() {
        Ok(p) => Some(p.to_string_lossy().into_owned()),
        Err(_) => None,
    }
}

/// Calls `std::path::Path::exists`; the answer depends on the disk.
#[verifier::external_body]
fn path_exists(path: &str) -> (r: bool) {
    std::path::Path::new(path).exists()
}

/// Joins two paths with the Unix rules of `path_join`.
pub fn join_path(base: &Vec<char>, p: &Vec<char>) -> (r: Vec<char>)
    ensures
        r@ == path_join(base@, p@),
{
    if p.len() > 0 && p[0] == '/' {
        return p.clone();
    }
    let mut r = base.clone();
    if base.len() > 0 && base[base.len() - 1] != '/' {
        r.push('/');
    }
    let ghost pre = r@;
    let mut i: usize = 0;
    while i < p.len()
        invariant
            i <= p.len(),
            r@ == pre + p@.take(i as int),
        decreases p.len() - i,
    {
        r.push(p[i]);
        assert(pre + p@.take(i + 1) =~= pre + p@.take(i as int) + seq![p@[i as int]]);
        i = i + 1;
    }
    assert(p@.take(p.len() as int) =~= p@);
    proof {
        if base@.len() > 0 && base@.last() != '/' {
            assert(pre =~= base@ + seq!['/']);
        } else {
            assert(pre =~= base@);
        }
    }
    r
}

/// Whether a Windows drive prefix starts the text.
fn drive_prefix(r: &Vec<char>) -> (b: bool)
    ensures
        b == has_drive_prefix(r@),
{
    if r.len() < 2 {
        return false;
    }
    let c = r[0];
    let alpha = ('a' <= c && c <= 'z') || ('A' <= c && c <= 'Z');
    alpha && r[1] == ':' && (r.len() == 2 || r[2] == '/' || r[2] == '\\')
}

/// Whether some component of the text is `..`.
fn dotdot_component(r: &Vec<char>) -> (b: bool)
    ensures
        b == has_dotdot_component(r@),
{
    let mut i: usize = 0;
    while i < r.len()
        invariant
            i <= r.len(),
            forall|j: int| 0 <= j < i ==> !dotdot_at(r@, j),
        decreases r.len() - i,
    {
        if r.len() - i >= 2 && r[i] == '.' && r[i + 1] == '.'
            && (i == 0 || r[i - 1] == '/' || r[i - 1] == '\\')
            && (i + 2 == r.len() || r[i + 2] == '/' || r[i + 2] == '\\') {
            assert(dotdot_at(r@, i as int));
            return true;
        }
        i = i + 1;
    }
    assert forall|j: int| !dotdot_at(r@, j) by {
        if 0 <= j < r.len() {
        }
    }
    false
}

/// An optional string's characters.
pub open spec fn opt_text(o: Option<String>) -> Option<Seq<char>> {
    match o {
        Some(s) => Some(s@),
        None => None,
    }
}

/// The resolution decided from what the filesystem reported for the
/// logical path (`canonical`) and for the tenant root (`root`): with no
/// canonical form the logical path stands; otherwise the canonical path, if
/// the root canonicalises and the path lies under it.
pub open spec fn resolution(logical: Seq<char>, canonical: Option<Seq<char>>, root: Option<Seq<char>>) -> Option<Seq<char>> {
    match canonical {
        None => Some(logical),
        Some(c) => match root {
            None => None,
            Some(r) => if path_has_prefix(c, r) { Some(c) } else { None },
        },
    }
}

/// The answer for a tenant root that exists on disk (`exists`) or not.
pub open spec fn root_answer(root: Seq<char>, exists: bool) -> Option<Seq<char>> {
    if exists { Some(root) } else { None }
}

/// Default VFS: each tenant gets a subdirectory under a base path,
/// `{base_path}/{tenant_id}/{relative}`.
#[derive(Debug, Clone)]
pub struct DefaultTenantVfs {
    base_path: String,
}

/// Tenant-aware path resolution.
pub trait TenantVfs {
    /// Resolves a relative path within a tenant's VFS root.
    fn resolve_path(&self, tenant_id: &TenantId, relative: &str) -> Option<String>;

    /// The VFS root of a tenant, when it exists.
    fn vfs_root(&self, tenant_id: &TenantId) -> Option<String>;
}

impl DefaultTenantVfs {
    /// The base directory under which tenant roots live.
    pub closed spec fn base(&self) -> Seq<char> {
        self.base_path@
    }

    /// A VFS rooted at `base_path`.
    pub fn new(base_path: String) -> (v: DefaultTenantVfs)
        ensures
            v.base() == base_path@,
    {
        DefaultTenantVfs { base_path }
    }

    /// Whether a relative path is free of traversal (the policy of `safe_relative`).
    pub fn is_safe_relative(relative: &str) -> (b: bool)
        ensures
            b == safe_relative(relative@),
    {
        let r = chars_of(relative);
        if r.len() == 0 || (r.len() == 1 && r[0] == '.') {
            proof {
                if r@.len() == 1 {
                    assert(r@ =~= seq!['.']);
                }
            }
            return true;
        }
        assert(r@ != seq!['.']);
        if contains_char(&r, '\0') || contains_char(&r, '%') {
            return false;
        }
        if r[0] == '/' || r[0] == '\\' {
            return false;
        }
        if drive_prefix(&r) {
            return false;
        }
        !dotdot_component(&r)
    }

    /// The tenant's logically resolved path, or `None` when `relative` breaks
    /// the policy. Touches no filesystem.
    pub fn logical_resolve(&self, tenant_id: &TenantId, relative: &str) -> (r: Option<String>)
        ensures
            r is Some <==> safe_relative(relative@),
            r matches Some(p) ==> p@ == logical_path(self.base(), tenant_id@, relative@),
    {
        if !Self::is_safe_relative(relative) {
            return None;
        }
        let root = join_path(&chars_of(self.base_path.as_str()), &chars_of(tenant_id.as_str()));
        let rel = chars_of(relative);
        if rel.len() == 0 || (rel.len() == 1 && rel[0] == '.') {
            proof {
                if rel@.len() == 1 {
                    assert(rel@ =~= seq!['.']);
                }
            }
            return Some(string_from_chars(&root));
        }
        assert(rel@ != seq!['.']);
        let full = join_path(&root, &rel);
        Some(string_from_chars(&full))
    }

    /// The answer for a tenant root, given whether it exists on disk: the
    /// root itself when it exists, otherwise nothing.
    pub fn root_if_exists(root: String, exists: bool) -> (r: Option<String>)
        ensures
            exists ==> r == Some(root),
            !exists ==> r is None,
    {
        if exists { Some(root) } else { None }
    }

    /// Decides the resolution from what the filesystem reported: with no
    /// canonical form the logical path stands; otherwise the canonical path is
    /// accepted only when the tenant root canonicalises and the canonical
    /// path lies under it.
    pub fn resolve_from_canonical(
        logical: String,
        canonical: Option<String>,
        canonical_root: Option<String>,
    ) -> (r: Option<String>)
        ensures
            r == (match canonical {
                None => Some(logical),
                Some(c) => match canonical_root {
                    None => None,
                    Some(root) => if path_has_prefix(c@, root@) {
                        Some(c)
                    } else {
                        None
                    },
                },
            }),
    {
        match canonical {
            None => Some(logical),
            Some(c) => match canonical_root {
                None => None,
                Some(root) => {
                    if path_starts_with(c.as_str(), root.as_str()) {
                        Some(c)
                    } else {
                        None
                    }
                },
            },
        }
    }
}

impl TenantVfs for DefaultTenantVfs {
    /// Validates `relative`, joins it under the tenant root, and when the path
    /// exists on disk returns its canonical form provided it stays under the
    /// canonical tenant root.
    fn resolve_path(&self, tenant_id: &TenantId, relative: &str) -> (r: Option<String>)
        ensures
            !safe_relative(relative@) ==> r is None,
            safe_relative(relative@) ==> exists|canonical: Option<Seq<char>>, root: Option<Seq<char>>|
                opt_text(r) == #[trigger] resolution(logical_path(self.base(), tenant_id@, relative@), canonical, root),
    {
        let logical = match self.logical_resolve(tenant_id, relative) {
            None => return None,
            Some(p) => p,
        };
        let canonical = canonicalize(logical.as_str());
        let canonical_root = match canonical {
            None => None,
            Some(_) => {
                let root = join_path(&chars_of(self.base_path.as_str()), &chars_of(tenant_id.as_str()));
                canonicalize(string_from_chars(&root).as_str())
            },
        };
        let ghost lv = logical@;
        let ghost cv = opt_text(canonical);
        let ghost rv = opt_text(canonical_root);
        let r = Self::resolve_from_canonical(logical, canonical, canonical_root);
        assert(opt_text(r) == resolution(lv, cv, rv));
        r
    }

    /// The tenant root when it exists on disk.
    fn vfs_root(&self, tenant_id: &TenantId) -> (r: Option<String>)
        ensures
            r matches Some(p) ==> p@ == tenant_root(self.base(), tenant_id@),
            exists|exists_on_disk: bool| opt_text(r)
                == #[trigger] root_answer(tenant_root(self.base(), tenant_id@), exists_on_disk),
    {
        let root = string_from_chars(&join_path(&chars_of(self.base_path.as_str()), &chars_of(tenant_id.as_str())));
        let exists = path_exists(root.as_str());
        let ghost rv = root@;
        assert(rv == tenant_root(self.base(), tenant_id@));
        let r = Self::root_if_exists(root, exists);
        assert(opt_text(r) == root_answer(rv, exists));
        r
    }
}

/// Law: a path the policy admits stays inside the tenant's root: the
/// resolved path is the root, or the root followed (after a separator when
/// the root does not end in one) by the relative path, which is itself
/// relative, free of `..` components, NUL and `%`.
pub proof fn law_resolved_path_stays_in_root(base: Seq<char>, tenant: Seq<char>, relative: Seq<char>)
    requires
        safe_relative(relative),
    ensures
        ({
            let root = tenant_root(base, tenant);
            let sep = if root.len() > 0 && root.last() != '/' { seq!['/'] } else { Seq::<char>::empty() };
            if relative.len() == 0 || relative == seq!['.'] {
                logical_path(base, tenant, relative) == root
            } else {
                &&& logical_path(base, tenant, relative) == root + sep + relative
                &&& !is_sep(relative[0])
                &&& !has_dotdot_component(relative)
                &&& !relative.contains('\0')
            }
        }),
{
    let root = tenant_root(base, tenant);
    if !(relative.len() == 0 || relative == seq!['.']) {
        if root.len() > 0 && root.last() != '/' {
            assert(root + seq!['/'] + relative == root + seq!['/'] + relative);
        } else {
            assert(root + relative =~= root + Seq::<char>::empty() + relative);
        }
    }
}

/// Law: what a resolution returns stays under the tenant root. Either the
/// path does not exist (no canonical form) and the logical path is
/// returned, which begins with the tenant root; or the canonical path is
/// returned and it lies, component-wise, under the canonical tenant root.
/// A canonical path that leaves the canonical root (through a symlink, say)
/// is refused.
pub proof fn law_resolution_stays_in_root(
    base: Seq<char>,
    tenant: Seq<char>,
    relative: Seq<char>,
    canonical: Option<Seq<char>>,
    root: Option<Seq<char>>,
)
    requires
        safe_relative(relative),
    ensures
        ({
            let logical = logical_path(base, tenant, relative);
            match resolution(logical, canonical, root) {
                Some(p) => (canonical is None && p == logical && has_prefix(p, tenant_root(base, tenant)))
                    || (canonical == Some(p) && root is Some && path_has_prefix(p, root->0)),
                None => canonical is Some && (root is None || !path_has_prefix(canonical->0, root->0)),
            }
        }),
{
    law_resolved_path_stays_in_root(base, tenant, relative);
    let t = tenant_root(base, tenant);
    let logical = logical_path(base, tenant, relative);
    assert(logical.subrange(0, t.len() as int) =~= t);
}

/// Law: every plain relative path is admitted: one with no NUL and no `%`,
/// not starting with `/` or `\`, without a drive prefix (a letter, `:`,
/// then nothing or a separator) and with no component equal to `..`. Dot
/// files, names containing dots and names starting with `..` are all
/// admitted.
pub proof fn law_plain_relative_paths_admitted(r: Seq<char>)
    requires
        forall|i: int| 0 <= i < r.len() ==> r[i] != '\0' && r[i] != '%',
        r.len() > 0 ==> r[0] != '/' && r[0] != '\\',
        !(r.len() >= 2 && r[1] == ':' && (('a' <= r[0] <= 'z') || ('A' <= r[0] <= 'Z'))
            && (r.len() == 2 || r[2] == '/' || r[2] == '\\')),
        forall|i: int| 0 <= i && i + 2 <= r.len() && #[trigger] r[i] == '.' && r[i + 1] == '.'
            ==> !((i == 0 || r[i - 1] == '/' || r[i - 1] == '\\')
                && (i + 2 == r.len() || r[i + 2] == '/' || r[i + 2] == '\\')),
    ensures
        safe_relative(r),
{
    assert(!r.contains('\0'));
    assert(!r.contains('%'));
    assert(!has_dotdot_component(r)) by {
        if has_dotdot_component(r) {
            let i = choose|i: int| dotdot_at(r, i);
            assert(r[i] == '.' && r[i + 1] == '.');
        }
    }
}

} // verus!
