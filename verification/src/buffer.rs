//! Buffer ownership layer: an immutable, shareable byte buffer and a
//! bounds-checked window into it.
//!
//! A `Buffer` is created once from a fully-read input and never mutated;
//! sharing is by reference count, so any number of views may alias
//! overlapping regions of the same bytes.  A `BufferView` re-validates every
//! access against its own window length, never against the underlying
//! buffer, so a view cannot observe bytes outside its declared window.

use std::sync::Arc;
use vstd::prelude::*;
use vstd::slice::{slice_index_get, slice_subrange};

verus! {

/// Relies on `Arc::clone` (std): the clone shares the same allocation, so it
/// holds the same value as the original.
#[verifier::external_body]
pub(crate) fn arc_clone<T>(a: &Arc<T>) -> (r: Arc<T>)
    ensures
        r == *a,
{
    Arc::clone(a)
}

/// An immutable byte sequence with optional origin tag and name, the root of
/// all views.
#[derive(Debug, Clone)]
pub struct Buffer {
    pub uri: Option<String>,
    pub name: Option<String>,
    pub data: Vec<u8>,
}

impl View for Buffer {
    type V = Seq<u8>;

    open spec fn view(&self) -> Seq<u8> {
        self.data@
    }
}

impl Buffer {
    /// Takes ownership of a byte sequence and shares it by reference count.
    pub fn new(uri: Option<String>, name: Option<String>, data: Vec<u8>) -> (r: Arc<Buffer>)
        ensures
            r@ == data@,
            r.uri == uri,
            r.name == name,
    {
        Arc::new(Buffer { uri, name, data })
    }

    /// The buffer's full byte range as a read-only slice.
    #[inline(always)]
    pub fn as_slice(&self) -> (r: &[u8])
        ensures
            r@ == self@,
    {
        self.data.as_slice()
    }

    /// Number of bytes in the buffer.
    pub fn len(&self) -> (n: usize)
        ensures
            n == self@.len(),
    {
        self.data.len()
    }
}

/// A named window `[offset, offset + length)` into a shared buffer.  Its view
/// is the window's byte sequence; `wf()` says the window lies inside the
/// buffer, which construction establishes and nothing ever changes.
#[derive(Debug, Clone)]
pub struct BufferView {
    pub name: Option<String>,
    pub buffer: Arc<Buffer>,
    pub offset: usize,
    pub length: usize,
}

impl View for BufferView {
    type V = Seq<u8>;

    open spec fn view(&self) -> Seq<u8> {
        self.buffer@.subrange(self.offset as int, self.offset + self.length)
    }
}

impl BufferView {
    /// The window lies entirely inside the underlying buffer.
    pub open spec fn wf(&self) -> bool {
        self.offset + self.length <= self.buffer@.len()
    }

    /// Builds a window over `[offset, offset + length)` of `buffer`.
    ///
    /// A window that would reach past the end of the buffer is a programming
    /// error, not a recoverable condition, and is ruled out up front.
    pub fn new(name: Option<String>, buffer: Arc<Buffer>, offset: usize, length: usize) -> (r: Arc<
        BufferView,
    >)
        requires
            offset + length <= buffer@.len(),
        ensures
            r.wf(),
            r.name == name,
            r.buffer == buffer,
            r.offset == offset,
            r.length == length,
            r@ == buffer@.subrange(offset as int, offset + length),
    {
        Arc::new(BufferView { name, buffer, offset, length })
    }

    /// The window's full byte range as a read-only slice.
    #[inline(always)]
    pub fn as_slice(&self) -> (r: &[u8])
        requires
            self.wf(),
        ensures
            r@ == self@,
    {
        let whole = self.buffer.as_slice();
        let _n = whole.len();
        slice_subrange(whole, self.offset, self.offset + self.length)
    }

    /// The byte at window-relative position `i`, present exactly when `i`
    /// lies strictly inside the window.
    pub fn get(&self, i: usize) -> (r: Option<u8>)
        requires
            self.wf(),
        ensures
            i < self.length ==> r == Some(self@[i as int]),
            i >= self.length ==> r is None,
    {
        if i < self.length {
            let s = self.as_slice();
            Some(*slice_index_get(s, i))
        } else {
            None
        }
    }

    /// The window-relative byte range `[start, end)` as a slice, present
    /// exactly when the range is ordered and inside the window.
    pub fn subslice(&self, start: usize, end: usize) -> (r: Option<&[u8]>)
        requires
            self.wf(),
        ensures
            start <= end <= self.length ==> r is Some && r.unwrap()@ == self@.subrange(
                start as int,
                end as int,
            ),
            !(start <= end <= self.length) ==> r is None,
    {
        if start <= end && end <= self.length {
            let s = self.as_slice();
            Some(slice_subrange(s, start, end))
        } else {
            None
        }
    }
}

} // verus!

