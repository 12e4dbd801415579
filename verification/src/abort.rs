//! The abort signal: a flag that another thread raises to stop a search.

use vstd::prelude::*;
use std::sync::Arc;
use std::sync::atomic::AtomicBool;
use std::sync::atomic::Ordering;

verus! {

/// A handle on the abort flag of a searcher. The handle can be cloned and
/// moved to another thread; all clones share one flag.
///
/// The flag may change at any moment, so nothing is stated of what it holds:
/// the search is verified for every answer that [`AbortHandle::is_requested`]
/// may give.
pub struct AbortHandle {
    flag: Arc<AtomicBool>,
}

impl Clone for AbortHandle {
    /// Another handle on the same flag.
    fn clone(&self) -> AbortHandle {
        AbortHandle { flag: self.flag.clone() }
    }
}

impl AbortHandle {
    /// A handle on a new flag, which is not raised.
    pub(crate) fn new() -> AbortHandle {
        AbortHandle { flag: Arc::new(AtomicBool::new(false)) }
    }

    /// Raises the flag: a search that polls it stops at its next node.
    pub fn request(&self) {
        self.flag.store(true, Ordering::SeqCst);
    }

    /// Lowers the flag.
    pub(crate) fn clear(&self) {
        self.flag.store(false, Ordering::SeqCst);
    }

    /// Is the flag raised at this moment?
    pub fn is_requested(&self) -> bool {
        self.flag.load(Ordering::SeqCst)
    }
}

} // verus!
