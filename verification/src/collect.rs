//! The walk over the source files: each file is removed as a duplicate,
//! queued for processing, or left alone.

use vstd::prelude::*;
use crate::dedup::{DuplicateTracker, observe, sha3_256};
use crate::naming::MediaKind;

verus! {

/// What becomes of a file met in the walk.
#[derive(Debug, Clone, Copy, PartialEq, Eq, Structural)]
pub enum Verdict {
    /// Same content as a file seen before: removed.
    Remove,
    /// Queued for processing.
    Process,
    /// Nothing to do with it.
    Skip,
}

/// Whether a file that is not a duplicate is queued: images when there is
/// something to do, videos also when videos are separated.
pub open spec fn wanted(kind: MediaKind, nothing_todo: bool, separate_videos: bool) -> bool {
    match kind {
        MediaKind::Video => !nothing_todo || separate_videos,
        MediaKind::Image => !nothing_todo,
    }
}

pub open spec fn bumped(c: Option<u64>) -> Option<u64> {
    match c {
        Some(n) => Some(if n == u64::MAX { n } else { (n + 1) as u64 }),
        None => None,
    }
}

/// The state of the walk.
#[derive(Debug)]
pub struct Collector {
    tracker: DuplicateTracker,
    clean: bool,
    nothing_todo: bool,
    separate_videos: bool,
    duplicates: Option<u64>,
}

impl Collector {
    pub closed spec fn seen(&self, kind: MediaKind) -> Set<Seq<u8>> {
        self.tracker.seen(kind)
    }

    pub closed spec fn removed(&self) -> Option<u64> {
        self.duplicates
    }

    pub closed spec fn cleaning(&self) -> bool {
        self.clean
    }

    pub closed spec fn idle(&self) -> bool {
        self.nothing_todo
    }

    pub closed spec fn separating(&self) -> bool {
        self.separate_videos
    }

    /// Starts the walk with the digests already seen (those of the output
    /// directory); duplicates are counted only when cleaning.
    pub fn new(tracker: DuplicateTracker, clean: bool, nothing_todo: bool, separate_videos: bool) -> (c: Collector)
        ensures
            forall|k: MediaKind| c.seen(k) == tracker.seen(k),
            c.removed() == (if clean { Some(0u64) } else { None }),
            c.cleaning() == clean,
            c.idle() == nothing_todo,
            c.separating() == separate_videos,
    {
        Collector {
            tracker,
            clean,
            nothing_todo,
            separate_videos,
            duplicates: if clean { Some(0) } else { None },
        }
    }

    /// The number of duplicates removed, when cleaning.
    pub fn duplicates(&self) -> (d: Option<u64>)
        ensures
            d == self.removed(),
    {
        self.duplicates
    }

    /// Decides on one file. When cleaning, `content` holds the file's bytes:
    /// a file whose digest was seen before for its kind is removed, any
    /// other has its digest recorded. A file that is not removed is queued
    /// when it is wanted.
    pub fn consider(&mut self, kind: MediaKind, content: Option<&[u8]>) -> (v: Verdict)
        ensures
            final(self).cleaning() == old(self).cleaning(),
            final(self).idle() == old(self).idle(),
            final(self).separating() == old(self).separating(),
            forall|k: MediaKind| k != kind ==> final(self).seen(k) == old(self).seen(k),
            match content {
                Some(c) if old(self).cleaning() => {
                    let (fresh, after) = observe(old(self).seen(kind), sha3_256(c@));
                    &&& final(self).seen(kind) == after
                    &&& v == (if !fresh {
                        Verdict::Remove
                    } else if wanted(kind, old(self).idle(), old(self).separating()) {
                        Verdict::Process
                    } else {
                        Verdict::Skip
                    })
                    &&& final(self).removed() == (if fresh {
                        old(self).removed()
                    } else {
                        bumped(old(self).removed())
                    })
                },
                _ => {
                    &&& final(self).seen(kind) == old(self).seen(kind)
                    &&& final(self).removed() == old(self).removed()
                    &&& v == (if wanted(kind, old(self).idle(), old(self).separating()) {
                        Verdict::Process
                    } else {
                        Verdict::Skip
                    })
                },
            },
    {
        if self.clean {
            if let Some(c) = content {
                let fresh = self.tracker.record_content(kind, c);
                if !fresh {
                    self.duplicates = match self.duplicates {
                        Some(n) => Some(if n == u64::MAX { n } else { n + 1 }),
                        None => None,
                    };
                    return Verdict::Remove;
                }
            }
        }
        let want = match kind {
            MediaKind::Video => !self.nothing_todo || self.separate_videos,
            MediaKind::Image => !self.nothing_todo,
        };
        if want {
            Verdict::Process
        } else {
            Verdict::Skip
        }
    }
}


/// A file that is not a duplicate is queued as follows: an image exactly
/// when the run is not idle, whether videos are separated or not; a video
/// when the run is not idle or videos are separated.
pub proof fn law_what_is_queued(idle: bool, separate_videos: bool)
    ensures
        wanted(MediaKind::Image, idle, separate_videos) == !idle,
        wanted(MediaKind::Image, idle, true) == wanted(MediaKind::Image, idle, false),
        wanted(MediaKind::Video, idle, separate_videos) == (!idle || separate_videos),
        separate_videos ==> wanted(MediaKind::Video, idle, separate_videos),
{
}

} // verus!
