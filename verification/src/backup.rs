//! Backups: the two actions of a package that write and read one, and the
//! volumes they are given.

use vstd::prelude::*;
use crate::action::ActionImplementation;
use crate::action::docker::Failure;
use crate::error::{Error, ErrorKind};
use crate::ordered_map::upsert;
use crate::volume::{backup_text, read_only_volumes, Volume, VolumeId, Volumes};

verus! {

/// The actions that make and restore a backup.
pub struct BackupActions {
    pub create: ActionImplementation,
    pub restore: ActionImplementation,
}

impl BackupActions {
    /// The volumes that the action that makes a backup is given: those of
    /// the package, each read-only, and the backup volume, writable.
    pub fn backup(&self, volumes: &Volumes) -> (r: Volumes)
        ensures
            r@ == upsert(
                read_only_volumes(volumes@),
                backup_text(),
                Volume::Backup { read_only: false },
            ),
    {
        let mut volumes = volumes.to_read_only();
        volumes.insert(&VolumeId::Backup, Volume::Backup { read_only: false });
        volumes
    }

    /// The volumes that the action that restores a backup is given: those
    /// of the package as they are, and the backup volume, read-only.
    pub fn restore(&self, volumes: Volumes) -> (r: Volumes)
        ensures
            r@ == upsert(volumes@, backup_text(), Volume::Backup { read_only: true }),
    {
        let mut volumes = volumes;
        volumes.insert(&VolumeId::Backup, Volume::Backup { read_only: true });
        volumes
    }

    /// What the end of the action that makes a backup means: a failed run
    /// is an error of kind `Backup` that carries its standard error.
    pub fn backup_outcome(&self, outcome: Result<(), Failure>) -> (r: Result<(), Error>)
        ensures
            r is Ok <==> outcome is Ok,
            r matches Err(e) ==> e.kind == ErrorKind::Backup && e.message == outcome->Err_0.stderr,
    {
        match outcome {
            Ok(()) => Ok(()),
            Err(f) => Err(Error::new(f.stderr, ErrorKind::Backup)),
        }
    }

    /// What the end of the action that restores a backup means: a failed
    /// run is an error of kind `Restore` that carries its standard error.
    pub fn restore_outcome(&self, outcome: Result<(), Failure>) -> (r: Result<(), Error>)
        ensures
            r is Ok <==> outcome is Ok,
            r matches Err(e) ==> e.kind == ErrorKind::Restore && e.message
                == outcome->Err_0.stderr,
    {
        match outcome {
            Ok(()) => Ok(()),
            Err(f) => Err(Error::new(f.stderr, ErrorKind::Restore)),
        }
    }
}

} // verus!
