use vstd::prelude::*;

verus! {

/// The major, minor and patch numbers that `semver_parser::version::parse`
/// reads from `s`, where it reads a version at all.
pub uninterp spec fn version_numbers(s: Seq<char>) -> Option<(u64, u64, u64)>;

/// Relies on `semver_parser::version::parse`, which reads a semantic version
/// or fails; its pre-release and build parts are set aside here.
#[verifier::external_body]
fn parse_version(s: &str) -> (r: Option<(u64, u64, u64)>)
    ensures
        r == version_numbers(s@),
{
    semver_parser::version::parse(s).ok().map(|v| (v.major, v.minor, v.patch))
}

/// Whether release `remote` comes after release `local`, comparing major,
/// then minor, then patch numbers.
pub open spec fn is_newer(local: (u64, u64, u64), remote: (u64, u64, u64)) -> bool {
    local.0 < remote.0 || (local.0 == remote.0 && (local.1 < remote.1 || (local.1 == remote.1
        && local.2 < remote.2)))
}

/// Whether release `remote` comes after release `local`.
pub fn newer_release(local: (u64, u64, u64), remote: (u64, u64, u64)) -> (r: bool)
    ensures
        r == is_newer(local, remote),
{
    if local.0 != remote.0 {
        local.0 < remote.0
    } else if local.1 != remote.1 {
        local.1 < remote.1
    } else {
        local.2 < remote.2
    }
}

/// Whether the published version `remote` is a newer release than the
/// running version `local`; false where either is no version.
pub fn update_available(local: &str, remote: &str) -> (r: bool)
    ensures
        r == (version_numbers(local@) is Some && version_numbers(remote@) is Some && is_newer(
            version_numbers(local@)->0,
            version_numbers(remote@)->0,
        )),
{
    match (parse_version(local), parse_version(remote)) {
        (Some(l), Some(r)) => newer_release(l, r),
        _ => false,
    }
}

} // verus!
