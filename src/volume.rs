use vstd::prelude::*;

verus! {

/// The storage volume that holds a path. Nothing is known of volumes on
/// this platform.
#[derive(Debug, Clone, Copy)]
pub struct Volume {}

/// Why no volume was found.
#[derive(PartialEq, Eq, Structural, Debug, Clone, Copy)]
pub enum VolumeError {
    /// Volume lookup is not available on this platform.
    NotImplemented,
}

impl Volume {
    /// The volume that holds `path`. The lookup is not available on this
    /// platform, so it always reports so; a session goes on without it.
    pub fn volume_for_path(_path: &String) -> (r: Result<Volume, VolumeError>)
        ensures
            r == Err::<Volume, VolumeError>(VolumeError::NotImplemented),
    {
        Err(VolumeError::NotImplemented)
    }
}

} // verus!
