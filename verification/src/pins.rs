//! Pins (named collections of store paths) and the path check of uploads.

use vstd::prelude::*;
use crate::error::AppError;
use crate::sorting::str_views;
use crate::store_path::{
    basename_spec, byte_len, drv_id_prefix, drv_id_prefix_defined,
    drv_id_prefix_spec, extract_drv_id, extract_drv_id_spec,
};
use crate::text::{chars_of, owned, str_eq};

verus! {

/// The most paths one check request may hold.
pub const MAX_CHECK_PATHS: usize = 10000;

/// Every path's base name can be cut to its derivation id.
pub open spec fn check_paths_defined(paths: Seq<String>) -> bool {
    forall|i: int| 0 <= i < paths.len() ==> drv_id_prefix_defined(basename_spec(#[trigger] paths[i]@))
}

/// The derivation ids of the paths, in order.
pub open spec fn drv_ids_of_paths(paths: Seq<Seq<char>>) -> Seq<Seq<char>> {
    paths.map_values(|p: Seq<char>| extract_drv_id_spec(p))
}

/// Whether every path of a check request can be cut to its derivation id.
pub fn check_paths_ok(paths: &Vec<String>) -> (b: bool)
    ensures
        b == check_paths_defined(paths@),
{
    let mut i: usize = 0;
    while i < paths.len()
        invariant
            i <= paths.len(),
            forall|j: int| 0 <= j < i ==> drv_id_prefix_defined(basename_spec(#[trigger] paths@[j]@)),
        decreases paths.len() - i,
    {
        let b = crate::store_path::basename(paths[i].as_str());
        if !crate::store_path::drv_id_prefix_ok(b.as_str()) {
            return false;
        }
        i += 1;
    }
    true
}

/// The derivation ids to look up for a check request, or the error for a
/// request of more than 10,000 paths.
pub fn check_request_ids(paths: &Vec<String>) -> (r: Result<Vec<String>, AppError>)
    requires
        paths@.len() <= MAX_CHECK_PATHS ==> check_paths_defined(paths@),
    ensures
        paths@.len() > MAX_CHECK_PATHS ==> (r matches Err(AppError::BadRequest(m)) && m@
            == "Maximum 10,000 paths allowed"@),
        paths@.len() <= MAX_CHECK_PATHS ==> (r matches Ok(ids) && str_views(ids@)
            == drv_ids_of_paths(str_views(paths@))),
{
    if paths.len() > MAX_CHECK_PATHS {
        return Err(AppError::BadRequest(owned("Maximum 10,000 paths allowed")));
    }
    let mut ids: Vec<String> = Vec::new();
    let mut i: usize = 0;
    while i < paths.len()
        invariant
            i <= paths@.len(),
            check_paths_defined(paths@),
            str_views(ids@) == drv_ids_of_paths(str_views(paths@)).take(i as int),
        decreases paths@.len() - i,
    {
        let id = extract_drv_id(paths[i].as_str());
        let ghost before = ids@;
        ids.push(id);
        proof {
            assert(str_views(ids@) =~= str_views(before).push(id@));
            assert(drv_ids_of_paths(str_views(paths@)).take(i + 1) =~= drv_ids_of_paths(
                str_views(paths@),
            ).take(i as int).push(extract_drv_id_spec(paths@[i as int]@)));
        }
        i += 1;
    }
    proof {
        assert(drv_ids_of_paths(str_views(paths@)).take(paths@.len() as int) =~= drv_ids_of_paths(
            str_views(paths@),
        ));
    }
    Ok(ids)
}

/// The paths whose derivation id is not among `existing`, in order.
pub open spec fn needed_paths(paths: Seq<Seq<char>>, existing: Seq<Seq<char>>) -> Seq<Seq<char>>
    decreases paths.len(),
{
    if paths.len() == 0 {
        Seq::empty()
    } else if existing.contains(extract_drv_id_spec(paths.last())) {
        needed_paths(paths.drop_last(), existing)
    } else {
        needed_paths(paths.drop_last(), existing).push(paths.last())
    }
}

/// The paths needing upload are exactly the given paths whose derivation
/// id is not among the existing ones, in their order: a path is kept when
/// its id is missing from the cache and dropped when it is there. So with
/// an empty cache every path is needed.
pub proof fn law_needed_paths_are_the_missing(paths: Seq<Seq<char>>, existing: Seq<Seq<char>>)
    ensures
        needed_paths(paths, existing) == paths.filter(
            |p: Seq<char>| !existing.contains(extract_drv_id_spec(p)),
        ),
        existing.len() == 0 ==> needed_paths(paths, existing) == paths,
    decreases paths.len(),
{
    reveal_with_fuel(Seq::<_>::filter, 1);
    if paths.len() > 0 {
        law_needed_paths_are_the_missing(paths.drop_last(), existing);
        if existing.len() == 0 {
            assert(!existing.contains(extract_drv_id_spec(paths.last())));
            assert(paths.drop_last().push(paths.last()) =~= paths);
        }
    }
}

fn contains_str(v: &Vec<String>, x: &str) -> (b: bool)
    ensures
        b == str_views(v@).contains(x@),
{
    let mut i: usize = 0;
    while i < v.len()
        invariant
            i <= v@.len(),
            forall|j: int| 0 <= j < i ==> str_views(v@)[j] != x@,
        decreases v@.len() - i,
    {
        if str_eq(v[i].as_str(), x) {
            proof {
                assert(str_views(v@)[i as int] == x@);
            }
            return true;
        }
        i += 1;
    }
    false
}

/// The paths that need uploading: those whose derivation id the cache lacks.
pub fn paths_needing_upload(paths: &Vec<String>, existing: &Vec<String>) -> (need: Vec<String>)
    requires
        check_paths_defined(paths@),
    ensures
        str_views(need@) == needed_paths(str_views(paths@), str_views(existing@)),
{
    let mut need: Vec<String> = Vec::new();
    let mut i: usize = 0;
    proof {
        assert(str_views(paths@).take(0).len() == 0);
    }
    while i < paths.len()
        invariant
            i <= paths@.len(),
            check_paths_defined(paths@),
            str_views(need@) == needed_paths(str_views(paths@).take(i as int), str_views(existing@)),
        decreases paths@.len() - i,
    {
        let id = extract_drv_id(paths[i].as_str());
        let ghost t = str_views(paths@).take(i + 1);
        proof {
            assert(t.drop_last() == str_views(paths@).take(i as int));
            assert(t.last() == paths@[i as int]@);
        }
        if !contains_str(existing, id.as_str()) {
            let ghost before = need@;
            need.push(paths[i].clone());
            proof {
                assert(str_views(need@) =~= str_views(before).push(paths@[i as int]@));
            }
        }
        i += 1;
    }
    proof {
        assert(str_views(paths@).take(paths@.len() as int) == str_views(paths@));
    }
    need
}

/// A request to finalize a pin.
#[derive(Debug)]
pub struct FinalizePinRequest {
    pub roots: Vec<String>,
    pub name: String,
    pub desc: Option<String>,
    /// Milliseconds until the pin expires.
    pub expires: Option<i64>,
    /// Milliseconds to keep the pin after it is abandoned.
    pub leave_after_abandon: Option<i64>,
}

/// The request's roots can be cut to derivation ids.
pub open spec fn finalize_roots_defined(roots: Seq<String>) -> bool {
    forall|i: int| 0 <= i < roots.len() ==> drv_id_prefix_defined(#[trigger] roots[i]@)
}

/// Whether every root of a finalize request can be cut to its derivation id.
pub fn finalize_roots_ok(roots: &Vec<String>) -> (b: bool)
    ensures
        b == finalize_roots_defined(roots@),
{
    let mut i: usize = 0;
    while i < roots.len()
        invariant
            i <= roots.len(),
            forall|j: int| 0 <= j < i ==> drv_id_prefix_defined(#[trigger] roots@[j]@),
        decreases roots.len() - i,
    {
        if !crate::store_path::drv_id_prefix_ok(roots[i].as_str()) {
            return false;
        }
        i += 1;
    }
    true
}

/// The derivation ids of pin roots (their first 32 bytes), in order.
pub open spec fn root_ids(roots: Seq<Seq<char>>) -> Seq<Seq<char>> {
    roots.map_values(|r: Seq<char>| drv_id_prefix_spec(r))
}

/// The error message of an invalid finalize request, if any: no roots, a
/// name that is empty or longer than 128 bytes, or a description longer
/// than 1024 bytes.
pub open spec fn finalize_error_spec(req: FinalizePinRequest) -> Option<Seq<char>> {
    if req.roots@.len() == 0 {
        Some("At least one root required"@)
    } else if req.name@.len() == 0 || byte_len(req.name@) > 128 {
        Some("Name must be 1-128 characters"@)
    } else if req.desc matches Some(d) && byte_len(d@) > 1024 {
        Some("Description must be at most 1024 characters"@)
    } else {
        None
    }
}

/// Whether a string's UTF-8 length exceeds `limit` bytes.
fn longer_than(s: &str, limit: usize) -> (b: bool)
    requires
        limit < usize::MAX - 4,
    ensures
        b == (byte_len(s@) > limit),
{
    let v = chars_of(s);
    crate::store_path::byte_len_exceeds(&v, limit)
}

/// Checks a finalize request: roots given, name and description within
/// their limits.
pub fn check_finalize(req: &FinalizePinRequest) -> (r: Result<(), AppError>)
    ensures
        match finalize_error_spec(*req) {
            Some(m) => r matches Err(AppError::BadRequest(x)) && x@ == m,
            None => r is Ok,
        },
{
    if req.roots.len() == 0 {
        return Err(AppError::BadRequest(owned("At least one root required")));
    }
    if req.name.as_str().is_empty() || longer_than(req.name.as_str(), 128) {
        return Err(AppError::BadRequest(owned("Name must be 1-128 characters")));
    }
    match &req.desc {
        Some(d) => {
            if longer_than(d.as_str(), 1024) {
                return Err(AppError::BadRequest(owned("Description must be at most 1024 characters")));
            }
        },
        None => {},
    }
    Ok(())
}

/// Checks a finalize request and gives the derivation ids of its roots.
pub fn validate_finalize(req: &FinalizePinRequest) -> (r: Result<Vec<String>, AppError>)
    requires
        finalize_error_spec(*req) is None ==> finalize_roots_defined(req.roots@),
    ensures
        match finalize_error_spec(*req) {
            Some(m) => r matches Err(AppError::BadRequest(x)) && x@ == m,
            None => r matches Ok(ids) && str_views(ids@) == root_ids(str_views(req.roots@)),
        },
{
    match check_finalize(req) {
        Err(e) => return Err(e),
        Ok(()) => {},
    }
    let mut ids: Vec<String> = Vec::new();
    let mut i: usize = 0;
    while i < req.roots.len()
        invariant
            i <= req.roots@.len(),
            finalize_roots_defined(req.roots@),
            str_views(ids@) == root_ids(str_views(req.roots@)).take(i as int),
        decreases req.roots@.len() - i,
    {
        let id = drv_id_prefix(req.roots[i].as_str());
        let ghost before = ids@;
        ids.push(id);
        proof {
            assert(str_views(ids@) =~= str_views(before).push(id@));
            assert(root_ids(str_views(req.roots@)).take(i + 1) =~= root_ids(str_views(req.roots@)).take(
                i as int,
            ).push(drv_id_prefix_spec(req.roots@[i as int]@)));
        }
        i += 1;
    }
    proof {
        assert(root_ids(str_views(req.roots@)).take(req.roots@.len() as int) =~= root_ids(
            str_views(req.roots@),
        ));
    }
    Ok(ids)
}

/// All roots must be in the cache: as many derivations found as roots given.
pub fn check_roots_present(found: usize, roots: usize) -> (r: Result<(), AppError>)
    ensures
        found == roots ==> r is Ok,
        found != roots ==> (r matches Err(AppError::BadRequest(m)) && m@
            == "Some roots are not in the cache"@),
{
    if found != roots {
        Err(AppError::BadRequest(owned("Some roots are not in the cache")))
    } else {
        Ok(())
    }
}

/// The result of an update or delete that should have touched a row:
/// `NotFound(message)` when it touched none.
pub fn require_affected(rows: usize, message: &str) -> (r: Result<(), AppError>)
    ensures
        rows > 0 ==> r is Ok,
        rows == 0 ==> (r matches Err(AppError::NotFound(m)) && m@ == message@),
{
    if rows == 0 {
        Err(AppError::NotFound(owned(message)))
    } else {
        Ok(())
    }
}

/// Clearing a lock that does not exist is refused.
pub fn require_lock_cleared(rows: usize) -> (r: Result<(), AppError>)
    ensures
        rows > 0 ==> r is Ok,
        rows == 0 ==> r == Err::<(), AppError>(AppError::LockNotFound),
{
    if rows == 0 {
        Err(AppError::LockNotFound)
    } else {
        Ok(())
    }
}

/// `v` held to the range of `i64` (timestamps in milliseconds).
pub open spec fn saturate(v: int) -> int {
    if v > i64::MAX {
        i64::MAX as int
    } else if v < i64::MIN {
        i64::MIN as int
    } else {
        v
    }
}

/// The timestamp `ms` milliseconds after `now_ms`, held to the range of
/// `i64`.
pub fn time_after(now_ms: i64, ms: i64) -> (t: i64)
    ensures
        t == saturate(now_ms + ms),
{
    match now_ms.checked_add(ms) {
        Some(v) => v,
        None => if ms > 0 {
            i64::MAX
        } else {
            i64::MIN
        },
    }
}

/// When an abandoned pin expires: `leave_after_abandon` milliseconds after
/// the moment it is abandoned, or at that moment when it has none.
pub fn abandon_expiry(now_ms: i64, leave_after_abandon: Option<i64>) -> (t: i64)
    ensures
        t == saturate(
            now_ms + match leave_after_abandon {
                Some(l) => l as int,
                None => 0,
            },
        ),
{
    match leave_after_abandon {
        Some(l) => time_after(now_ms, l),
        None => now_ms,
    }
}

/// When a new pin expires: `expires` milliseconds after its creation, or
/// never.
pub fn pin_expiry(now_ms: i64, expires: Option<i64>) -> (t: Option<i64>)
    ensures
        match expires {
            Some(e) => t == Some(saturate(now_ms + e) as i64),
            None => t is None,
        },
{
    match expires {
        Some(e) => Some(time_after(now_ms, e)),
        None => None,
    }
}

/// How long an upload lock lasts after it is extended, in days.
pub const LOCK_TTL_DAYS: i64 = 2;

/// Milliseconds in a lock's lifetime (two days).
pub const LOCK_TTL_MS: i64 = 172800000;

/// The new deadline of a lock extended at `now_ms`: two days later.
pub fn lock_deadline(now_ms: i64) -> (t: i64)
    ensures
        t == saturate(now_ms + LOCK_TTL_DAYS * 86400000),
{
    time_after(now_ms, LOCK_TTL_MS)
}

} // verus!
