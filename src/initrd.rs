//! The initrd load-file responder: answers the kernel's "load this file"
//! queries from the initrd bytes held in memory, while its interface is
//! installed.
use crate::status::{Status, BUFFER_TOO_SMALL, NOT_FOUND, SUCCESS};
use vstd::prelude::*;

verus! {

/// Owns the initrd bytes for as long as the load-file interface that serves
/// them is installed.
pub struct InitrdLoader {
    initrd_data: Vec<u8>,
    installed: bool,
}

/// The answer to a load-file query: the status, and the size written back.
/// A query while the interface is not installed finds nothing; one without
/// a buffer, or with one smaller than the initrd, learns the exact size.
pub open spec fn query_answer(
    data: Seq<u8>,
    installed: bool,
    buffer_present: bool,
    buffer_size: usize,
) -> (u64, usize) {
    if !installed {
        (NOT_FOUND, buffer_size)
    } else if !buffer_present || buffer_size < data.len() {
        (BUFFER_TOO_SMALL, data.len() as usize)
    } else {
        (SUCCESS, data.len() as usize)
    }
}

impl InitrdLoader {
    /// The bytes served.
    pub closed spec fn contents(&self) -> Seq<u8> {
        self.initrd_data@
    }

    pub closed spec fn is_installed(&self) -> bool {
        self.installed
    }

    /// Takes ownership of the initrd bytes; the interface that serves them
    /// counts as installed from here on.
    pub fn new(initrd_data: Vec<u8>) -> (r: InitrdLoader)
        ensures
            r.contents() == initrd_data@,
            r.is_installed(),
    {
        InitrdLoader { initrd_data, installed: true }
    }

    /// Size of the initrd in bytes.
    pub fn size(&self) -> (r: usize)
        ensures
            r == self.contents().len(),
    {
        self.initrd_data.len()
    }

    pub fn installed(&self) -> (r: bool)
        ensures
            r == self.is_installed(),
    {
        self.installed
    }

    /// Answers a load-file query. `buffer_present` says whether the caller
    /// passed a buffer; `buffer` is that buffer, of `*buffer_size` bytes.
    /// On success the first `contents().len()` bytes of the buffer hold the
    /// initrd and the rest is left alone; otherwise the buffer is untouched.
    pub fn load_file(&self, buffer_size: &mut usize, buffer: &mut [u8], buffer_present: bool) -> (r:
        Status)
        requires
            buffer_present ==> *old(buffer_size) <= old(buffer)@.len(),
        ensures
            (r.code, *final(buffer_size)) == query_answer(
                self.contents(),
                self.is_installed(),
                buffer_present,
                *old(buffer_size),
            ),
            r.code == SUCCESS ==> final(buffer)@ == self.contents() + old(buffer)@.skip(
                self.contents().len() as int,
            ),
            r.code != SUCCESS ==> final(buffer)@ == old(buffer)@,
    {
        if !self.installed {
            return Status::new(NOT_FOUND);
        }
        let n = self.initrd_data.len();
        if !buffer_present || *buffer_size < n {
            *buffer_size = n;
            return Status::new(BUFFER_TOO_SMALL);
        }
        *buffer_size = n;
        let ghost orig = buffer@;
        let mut i: usize = 0;
        while i < n
            invariant
                n == self.initrd_data@.len(),
                n <= orig.len(),
                buffer@.len() == orig.len(),
                i <= n,
                forall|k: int|
                    0 <= k < orig.len() ==> #[trigger] buffer@[k] == if k < i {
                        self.initrd_data@[k]
                    } else {
                        orig[k]
                    },
            decreases n - i,
        {
            buffer[i] = self.initrd_data[i];
            i = i + 1;
        }
        assert(buffer@ =~= self.initrd_data@ + orig.skip(n as int));
        Status::new(SUCCESS)
    }

    /// Marks the interface removed: no query is answered with data after
    /// this, and the bytes are handed back.
    pub fn uninstall(&mut self) -> (r: Vec<u8>)
        requires
            old(self).is_installed(),
        ensures
            !final(self).is_installed(),
            r@ == old(self).contents(),
            final(self).contents().len() == 0,
    {
        self.installed = false;
        let mut data: Vec<u8> = Vec::new();
        std::mem::swap(&mut data, &mut self.initrd_data);
        data
    }
}

/// A size query is answered with the exact length of the initrd, and a read
/// into a large enough buffer copies exactly that many bytes.
pub proof fn lemma_size_query_exact(data: Seq<u8>, buffer_size: usize)
    requires
        data.len() <= usize::MAX,
    ensures
        query_answer(data, true, false, buffer_size) == (BUFFER_TOO_SMALL, data.len() as usize),
        buffer_size >= data.len() ==> query_answer(data, true, true, buffer_size) == (
            SUCCESS,
            data.len() as usize,
        ),
{
}

/// Once uninstalled, the interface answers every query with not-found.
pub proof fn lemma_query_after_uninstall(
    data: Seq<u8>,
    buffer_present: bool,
    buffer_size: usize,
)
    ensures
        query_answer(data, false, buffer_present, buffer_size).0 == NOT_FOUND,
{
}

} // verus!
