//! The resource handle: sole owner of one open descriptor.
use vstd::prelude::*;

use std::sync::Arc;

verus! {

/// The descriptor value of a handle that has been released.
pub const CLOSED: i32 = -1;

/// Owns one platform descriptor, released at most once.
#[derive(Debug)]
pub struct Handle {
    fd: i32,
}

impl Handle {
    /// The descriptor held, or `CLOSED`.
    pub closed spec fn spec_fd(self) -> i32 {
        self.fd
    }

    /// A handle holds a valid descriptor or the closed sentinel.
    pub open spec fn wf(self) -> bool {
        self.spec_fd() >= 0 || self.spec_fd() == CLOSED
    }

    /// Whether the handle still holds an open descriptor.
    pub open spec fn is_open(self) -> bool {
        self.spec_fd() >= 0
    }

    /// Takes ownership of an open descriptor.
    pub(crate) fn open(fd: i32) -> (r: Handle)
        requires
            fd >= 0,
        ensures
            r.spec_fd() == fd,
            r.wf(),
    {
        Handle { fd }
    }

    /// Returns the raw descriptor.
    pub fn fd(&self) -> (r: i32)
        ensures
            r == self.spec_fd(),
    {
        self.fd
    }

    /// Releases the handle: hands out the descriptor to close if it is still
    /// open, and marks the handle closed so that no later release hands it out
    /// again.
    pub fn release(&mut self) -> (r: Option<i32>)
        requires
            old(self).wf(),
        ensures
            final(self).wf(),
            !final(self).is_open(),
            r == release_of(*old(self)).1,
            *final(self) == release_of(*old(self)).0,
    {
        if self.fd >= 0 {
            let fd = self.fd;
            self.fd = CLOSED;
            Some(fd)
        } else {
            None
        }
    }
}

/// Relies on std's `Arc::into_inner`: it gives back the value to the last
/// owner only, and of all owners of one value exactly one gets it, even when
/// they let go at the same time.
#[verifier::external_body]
fn into_last_owner(shared: Arc<Handle>) -> (r: Option<Handle>)
    ensures
        r matches Some(h) ==> h == *shared,
{
    Arc::into_inner(shared)
}

/// Lets go of one owner of a shared handle. The last owner to let go gets the
/// descriptor to close, if it is still open; every other owner gets `None`.
pub fn let_go(shared: Arc<Handle>) -> (r: Option<i32>)
    requires
        (*shared).wf(),
    ensures
        r matches Some(fd) ==> fd == (*shared).spec_fd() && fd >= 0,
{
    match into_last_owner(shared) {
        Some(h) => {
            let mut h = h;
            h.release()
        },
        None => None,
    }
}

/// One release of `h`: the handle afterwards, and the descriptor to close.
pub open spec fn release_of(h: Handle) -> (Handle, Option<i32>) {
    if h.is_open() {
        (closed_handle(), Some(h.spec_fd()))
    } else {
        (h, None)
    }
}

/// A handle whose descriptor has been released.
pub closed spec fn closed_handle() -> Handle {
    Handle { fd: CLOSED }
}

proof fn lemma_closed_handle()
    ensures
        closed_handle().spec_fd() == CLOSED,
{
}

/// The descriptors that `n` successive releases of `h` hand out, in order.
pub open spec fn releases(h: Handle, n: nat) -> Seq<Option<i32>>
    decreases n,
{
    if n == 0 {
        Seq::empty()
    } else {
        let (next, out) = release_of(h);
        seq![out] + releases(next, (n - 1) as nat)
    }
}

/// However many times a handle is released, its descriptor is handed out for
/// closing exactly once if it was open, and never if it was not: every
/// release after the first hands out nothing.
pub proof fn lemma_release_exactly_once(h: Handle, n: nat)
    requires
        h.wf(),
        n >= 1,
    ensures
        releases(h, n).len() == n,
        releases(h, n)[0] == (if h.is_open() { Some(h.spec_fd()) } else { None::<i32> }),
        forall|i: int| 1 <= i < n ==> (#[trigger] releases(h, n)[i]).is_none(),
    decreases n,
{
    lemma_closed_handle();
    let next = release_of(h).0;
    lemma_releases_len(next, (n - 1) as nat);
    if n > 1 {
        lemma_release_exactly_once(next, (n - 1) as nat);
        assert forall|i: int| 1 <= i < n implies (#[trigger] releases(h, n)[i]).is_none() by {
            assert(releases(h, n)[i] == releases(next, (n - 1) as nat)[i - 1]);
            if i > 1 {
                assert(releases(next, (n - 1) as nat)[i - 1].is_none());
            } else {
                assert(!next.is_open());
            }
        }
    }
}

proof fn lemma_releases_len(h: Handle, n: nat)
    ensures
        releases(h, n).len() == n,
    decreases n,
{
    if n > 0 {
        lemma_releases_len(release_of(h).0, (n - 1) as nat);
    }
}

} // verus!
