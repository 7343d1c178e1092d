//! The filesystem probes: whether a path exists on disk and what stands
//! there. These are the crate's only window onto the machine; nothing can
//! be promised about their outcome, and every caller states what holds
//! whatever comes back.

use vstd::prelude::*;

use std::path::Path;

use crate::error::PathError;

verus! {

/// Relies on `std::path::Path::exists`: asks the filesystem whether
/// anything is reachable at the path.
#[verifier::external_body]
pub(crate) fn fs_exists(path: &str) -> bool {
    Path::new(path).exists()
}

/// Relies on `std::path::Path::is_file`: asks the filesystem whether a
/// regular file stands at the path.
#[verifier::external_body]
pub(crate) fn fs_is_file(path: &str) -> bool {
    Path::new(path).is_file()
}

/// Relies on `std::path::Path::is_dir`: asks the filesystem whether a
/// directory stands at the path.
#[verifier::external_body]
pub(crate) fn fs_is_dir(path: &str) -> bool {
    Path::new(path).is_dir()
}


/// The conjunction of the two probe answers: something stands at the path
/// and it is of the expected kind. The existence checks decide through
/// this function, so what they return is tied to what the probes said.
pub fn probe_conjunction(exists: bool, kind_ok: bool) -> (r: bool)
    ensures
        r == (exists && kind_ok),
{
    exists && kind_ok
}

/// The folder validator's verdict over the probe answers: success exactly
/// when something stands at the path and it is a directory; otherwise the
/// error names which probe failed and carries the shown path.
pub fn folder_probe_verdict(exists: bool, is_folder: bool, shown: String) -> (r: Result<
    (),
    PathError,
>)
    ensures
        r is Ok <==> (exists && is_folder),
        !exists ==> (r matches Err(e) && e matches PathError::DoesNotExist { path } && path@
            == shown@),
        exists && !is_folder ==> (r matches Err(e) && e matches PathError::NotAFolder { path }
            && path@ == shown@),
{
    if !exists {
        Err(PathError::DoesNotExist { path: shown })
    } else if !is_folder {
        Err(PathError::NotAFolder { path: shown })
    } else {
        Ok(())
    }
}

/// The file validator's verdict over the probe answers: success exactly
/// when something stands at the path and it is a regular file.
pub fn file_probe_verdict(exists: bool, is_file: bool, shown: String) -> (r: Result<
    (),
    PathError,
>)
    ensures
        r is Ok <==> (exists && is_file),
        !exists ==> (r matches Err(e) && e matches PathError::DoesNotExist { path } && path@
            == shown@),
        exists && !is_file ==> (r matches Err(e) && e matches PathError::NotAFile { path }
            && path@ == shown@),
{
    if !exists {
        Err(PathError::DoesNotExist { path: shown })
    } else if !is_file {
        Err(PathError::NotAFile { path: shown })
    } else {
        Ok(())
    }
}

/// The bare existence verdict over the one probe answer.
pub fn exists_probe_verdict(exists: bool, shown: String) -> (r: Result<(), PathError>)
    ensures
        r is Ok <==> exists,
        !exists ==> (r matches Err(e) && e matches PathError::DoesNotExist { path } && path@
            == shown@),
{
    if !exists {
        Err(PathError::DoesNotExist { path: shown })
    } else {
        Ok(())
    }
}

} // verus!
