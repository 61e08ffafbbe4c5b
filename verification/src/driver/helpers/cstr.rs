//! Paths in the form that system calls take.
use crate::error::{ErrorKind, IoError};
use vstd::prelude::*;

verus! {

/// The error of a path with a zero byte inside.
pub open spec fn nul_inside() -> IoError {
    IoError::Custom { kind: ErrorKind::InvalidInput, message: "data provided contains a nul byte" }
}

/// The bytes of a path, ended by a zero byte.
///
/// A path with a zero byte inside would be cut short, so it is refused.
pub fn cstr(path: Vec<u8>) -> (terminated: Result<Vec<u8>, IoError>)
    ensures
        terminated is Err <==> path@.contains(0u8),
        terminated matches Err(error) ==> error == nul_inside(),
        terminated matches Ok(terminated) ==> terminated@ == path@.push(0u8),
{
    let mut next: usize = 0;
    while next < path.len()
        invariant
            next <= path@.len(),
            forall|i: int| 0 <= i < next ==> path@[i] != 0u8,
        decreases path@.len() - next,
    {
        if path[next] == 0 {
            assert(path@[next as int] == 0u8);
            return Err(IoError::new(ErrorKind::InvalidInput, "data provided contains a nul byte"));
        }
        next += 1;
    }
    let mut terminated = path;
    terminated.push(0);
    Ok(terminated)
}

/// The UTF-16 units of a path, ended by a zero unit.
pub fn wide(path: Vec<u16>) -> (terminated: Vec<u16>)
    ensures
        terminated@ == path@.push(0u16),
{
    let mut terminated = path;
    terminated.push(0);
    terminated
}

/// A terminated path holds exactly one zero byte, the last one: reading up to
/// the first zero byte gives the path back.
pub proof fn law_terminator_is_the_first_zero(path: Seq<u8>)
    requires
        !path.contains(0u8),
    ensures
        path.push(0u8).last() == 0u8,
        forall|i: int| 0 <= i < path.len() ==> path.push(0u8)[i] != 0u8,
        path.push(0u8).drop_last() == path,
{
    assert(path.push(0u8).drop_last() =~= path);
    assert forall|i: int| 0 <= i < path.len() implies path.push(0u8)[i] != 0u8 by {
        assert(path.contains(path[i]));
    }
}

/// A path reaches the system whole: what is read up to the first zero byte is the
/// path itself. One that would be cut short is refused, and no other is.
pub proof fn law_path_reaches_the_system_whole(path: Vec<u8>, terminated: Result<Vec<u8>, IoError>)
    requires
        call_ensures(cstr, (path,), terminated),
    ensures
        terminated is Ok <==> !path@.contains(0u8),
        terminated matches Ok(bytes) ==> bytes@.len() == path@.len() + 1 && bytes@.last() == 0 && bytes@.drop_last()
            == path@,
        terminated matches Err(error) ==> error.spec_kind() == ErrorKind::InvalidInput,
{
    assert(path@.push(0u8).drop_last() =~= path@);
}

/// A wide path reaches the system with all its units, and a zero behind them.
pub proof fn law_wide_path_is_ended(path: Vec<u16>, terminated: Vec<u16>)
    requires
        call_ensures(wide, (path,), terminated),
    ensures
        terminated@.len() == path@.len() + 1,
        terminated@.last() == 0,
        terminated@.drop_last() == path@,
{
    assert(path@.push(0u16).drop_last() =~= path@);
}

} // verus!
