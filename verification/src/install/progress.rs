//! How far an installation has come.

use vstd::prelude::*;

verus! {

/// The counters of an installation. None of them ever goes down, and none
/// of the flags is ever taken back.
#[derive(Clone, Copy, Debug, PartialEq, Eq, Structural)]
pub struct InstallProgress {
    /// The number of bytes of the package file, where it is known.
    pub size: Option<u64>,
    /// The number of bytes downloaded.
    pub downloaded: u64,
    /// Is the download complete?
    pub download_complete: bool,
    /// Has the package been validated?
    pub validated: bool,
    /// The number of bytes read while unpacking.
    pub read: u64,
    /// Is unpacking complete?
    pub read_complete: bool,
}

/// Has the installation come at least as far in `after` as in `before`?
pub open spec fn advanced(before: InstallProgress, after: InstallProgress) -> bool {
    &&& after.size == before.size
    &&& after.downloaded >= before.downloaded
    &&& before.download_complete ==> after.download_complete
    &&& before.validated ==> after.validated
    &&& after.read >= before.read
    &&& before.read_complete ==> after.read_complete
}

/// The start of an installation of a file of `size` bytes.
pub open spec fn started(size: Option<u64>) -> InstallProgress {
    InstallProgress {
        size,
        downloaded: 0,
        download_complete: false,
        validated: false,
        read: 0,
        read_complete: false,
    }
}

impl InstallProgress {
    /// The start of an installation of a file of `size` bytes.
    pub fn new(size: Option<u64>) -> (p: InstallProgress)
        ensures
            p == started(size),
    {
        InstallProgress {
            size,
            downloaded: 0,
            download_complete: false,
            validated: false,
            read: 0,
            read_complete: false,
        }
    }

    /// Counts `n` more bytes as downloaded; the count stops at the greatest
    /// number it can hold.
    pub fn downloaded(&mut self, n: u64)
        ensures
            advanced(*old(self), *final(self)),
            final(self).downloaded == if old(self).downloaded + n > u64::MAX {
                u64::MAX
            } else {
                (old(self).downloaded + n) as u64
            },
            *final(self) == (InstallProgress { downloaded: final(self).downloaded, ..*old(self) }),
    {
        self.downloaded = self.downloaded.saturating_add(n);
    }

    /// Marks the download as complete.
    pub fn download_complete(&mut self)
        ensures
            advanced(*old(self), *final(self)),
            *final(self) == (InstallProgress { download_complete: true, ..*old(self) }),
    {
        self.download_complete = true;
    }

    /// Counts `n` more bytes as read; the count stops at the greatest number
    /// it can hold.
    pub fn read(&mut self, n: u64)
        ensures
            advanced(*old(self), *final(self)),
            final(self).read == if old(self).read + n > u64::MAX {
                u64::MAX
            } else {
                (old(self).read + n) as u64
            },
            *final(self) == (InstallProgress { read: final(self).read, ..*old(self) }),
    {
        self.read = self.read.saturating_add(n);
    }

    /// Marks the package as validated.
    pub fn validated(&mut self)
        ensures
            advanced(*old(self), *final(self)),
            *final(self) == (InstallProgress { validated: true, ..*old(self) }),
    {
        self.validated = true;
    }

    /// Marks unpacking as complete.
    pub fn read_complete(&mut self)
        ensures
            advanced(*old(self), *final(self)),
            *final(self) == (InstallProgress { read_complete: true, ..*old(self) }),
    {
        self.read_complete = true;
    }
}

/// Progress only ever advances: advancing is reflexive and transitive.
pub proof fn progress_is_monotone(a: InstallProgress, b: InstallProgress, c: InstallProgress)
    ensures
        advanced(a, a),
        advanced(a, b) && advanced(b, c) ==> advanced(a, c),
{
}

} // verus!
