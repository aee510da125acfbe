//! An immutable, cheaply shareable byte payload for outgoing requests.
//!
//! A `SharedBody` either borrows a byte slice that lives for the whole
//! process or holds a reference-counted heap buffer, so cloning never copies
//! the payload. Its bytes are handed over to the transport in one shot
//! through [`SharedBody::take_buf`], which yields a positioned read cursor
//! ([`SharedBuf`]).

use std::sync::Arc;
use vstd::prelude::*;
use vstd::string::StrSliceExecFns;

verus! {

/// Backing storage of a body: a reference-counted heap buffer or a borrowed
/// process-lifetime slice.
enum InnerBuf {
    Arc(Arc<Vec<u8>>),
    Static(&'static [u8]),
}

impl View for InnerBuf {
    type V = Seq<u8>;

    closed spec fn view(&self) -> Seq<u8> {
        match self {
            InnerBuf::Arc(v) => v@,
            InnerBuf::Static(s) => s@,
        }
    }
}

impl Clone for InnerBuf {
    fn clone(&self) -> (r: Self)
        ensures
            r@ == self@,
    {
        match self {
            InnerBuf::Arc(v) => InnerBuf::Arc(v.clone()),
            InnerBuf::Static(s) => InnerBuf::Static(s),
        }
    }
}

impl InnerBuf {
    fn len(&self) -> (n: usize)
        ensures
            n == self@.len(),
    {
        match self {
            InnerBuf::Arc(v) => v.len(),
            InnerBuf::Static(s) => s.len(),
        }
    }
}

/// An immutable request payload; its view is the byte sequence it holds.
///
/// The payload's content and length never change after construction, and
/// `len` is constant-time. An empty body comes in two observable flavours,
/// mirroring how the transport is driven: one constructed by [`SharedBody::empty`]
/// holds no buffer at all, while one built from an empty byte sequence holds
/// a zero-length buffer that is still handed over once.
pub struct SharedBody(Option<InnerBuf>);

impl View for SharedBody {
    type V = Seq<u8>;

    closed spec fn view(&self) -> Seq<u8> {
        match self.0 {
            Some(b) => b@,
            None => Seq::empty(),
        }
    }
}

impl SharedBody {
    /// True when the body holds a buffer to hand over, even a zero-length one.
    pub closed spec fn has_buf(&self) -> bool {
        self.0 is Some
    }

    /// The byte length of the payload.
    pub fn len(&self) -> (n: usize)
        ensures
            n == self@.len(),
    {
        match &self.0 {
            Some(b) => b.len(),
            None => 0,
        }
    }

    /// A body with no buffer at all; its length is zero.
    pub fn empty() -> (r: Self)
        ensures
            r@ == Seq::<u8>::empty(),
            !r.has_buf(),
    {
        SharedBody(None)
    }

    /// A body sharing an already reference-counted buffer.
    pub fn from_arc(buf: Arc<Vec<u8>>) -> (r: Self)
        ensures
            r@ == buf@,
            r.has_buf(),
    {
        SharedBody(Some(InnerBuf::Arc(buf)))
    }

    /// A body owning the given bytes behind a new reference count.
    pub fn from_vec(bytes: Vec<u8>) -> (r: Self)
        ensures
            r@ == bytes@,
            r.has_buf(),
    {
        SharedBody(Some(InnerBuf::Arc(Arc::new(bytes))))
    }

    /// A body holding the UTF-8 bytes of the given text.
    pub fn from_string(text: String) -> (r: Self)
        ensures
            r@ == vstd::utf8::encode_utf8(text@),
            r.has_buf(),
    {
        let bytes = text.as_str().as_bytes_vec();
        SharedBody(Some(InnerBuf::Arc(Arc::new(bytes))))
    }

    /// A body borrowing a process-lifetime slice; no allocation happens.
    pub fn from_static(bytes: &'static [u8]) -> (r: Self)
        ensures
            r@ == bytes@,
            r.has_buf(),
    {
        SharedBody(Some(InnerBuf::Static(bytes)))
    }

    /// Hand the payload over: the one-shot transfer of the body's bytes.
    ///
    /// Yields a cursor over the whole payload the first time a buffer is
    /// present and leaves the body with nothing further to give, so a second
    /// call yields `None`.
    pub fn take_buf(&mut self) -> (r: Option<SharedBuf>)
        ensures
            !final(self).has_buf(),
            final(self)@ == Seq::<u8>::empty(),
            old(self).has_buf() ==> (r matches Some(buf) && buf.wf() && buf.remaining_bytes()
                == old(self)@),
            !old(self).has_buf() ==> r is None,
    {
        match self.0.take() {
            Some(bytes) => Some(SharedBuf { bytes, pos: 0 }),
            None => None,
        }
    }
}

impl Clone for SharedBody {
    /// Cloning shares the payload; the clone holds the same bytes.
    fn clone(&self) -> (r: Self)
        ensures
            r@ == self@,
            r.has_buf() == self.has_buf(),
    {
        match &self.0 {
            Some(b) => SharedBody(Some(b.clone())),
            None => SharedBody(None),
        }
    }
}

impl Default for SharedBody {
    /// The default body is `SharedBody::empty()`.
    fn default() -> (r: Self)
        ensures
            r@ == Seq::<u8>::empty(),
            !r.has_buf(),
    {
        SharedBody::empty()
    }
}

/// A read cursor over a handed-over payload: the bytes plus how far the
/// transport has consumed them.
pub struct SharedBuf {
    bytes: InnerBuf,
    pos: usize,
}

impl SharedBuf {
    /// The cursor never points past the end of the buffer.
    pub closed spec fn wf(&self) -> bool {
        self.pos <= self.bytes@.len()
    }

    /// The bytes not yet consumed.
    pub closed spec fn remaining_bytes(&self) -> Seq<u8> {
        self.bytes@.skip(self.pos as int)
    }

    /// The whole underlying buffer, consumed part included.
    pub closed spec fn total_bytes(&self) -> Seq<u8> {
        self.bytes@
    }

    /// The total length of the underlying buffer, consumed or not.
    pub fn len(&self) -> (n: usize)
        ensures
            n == self.total_bytes().len(),
    {
        self.bytes.len()
    }

    /// How many bytes are left to read.
    pub fn remaining(&self) -> (n: usize)
        requires
            self.wf(),
        ensures
            n == self.remaining_bytes().len(),
    {
        self.bytes.len() - self.pos
    }

    /// The byte at offset `i` of the unconsumed tail.
    pub fn byte_at(&self, i: usize) -> (b: u8)
        requires
            self.wf(),
            i < self.remaining_bytes().len(),
        ensures
            b == self.remaining_bytes()[i as int],
    {
        let n = self.bytes.len();
        assert(self.pos + i < n);
        match &self.bytes {
            InnerBuf::Arc(v) => v[self.pos + i],
            InnerBuf::Static(s) => s[self.pos + i],
        }
    }

    /// A copy of the unconsumed tail.
    pub fn remaining_to_vec(&self) -> (r: Vec<u8>)
        requires
            self.wf(),
        ensures
            r@ == self.remaining_bytes(),
    {
        let n = self.remaining();
        let mut out: Vec<u8> = Vec::new();
        let mut i: usize = 0;
        while i < n
            invariant
                self.wf(),
                n == self.remaining_bytes().len(),
                i <= n,
                out@ == self.remaining_bytes().take(i as int),
            decreases n - i,
        {
            out.push(self.byte_at(i));
            assert(out@ =~= self.remaining_bytes().take(i + 1));
            i = i + 1;
        }
        assert(out@ =~= self.remaining_bytes());
        out
    }

    /// Consume `cnt` bytes, clamping at the end of the buffer.
    pub fn advance(&mut self, cnt: usize)
        requires
            old(self).wf(),
        ensures
            final(self).wf(),
            cnt <= old(self).remaining_bytes().len() ==> final(self).remaining_bytes() == old(
                self,
            ).remaining_bytes().skip(cnt as int),
            cnt > old(self).remaining_bytes().len() ==> final(self).remaining_bytes()
                == Seq::<u8>::empty(),
    {
        let left = self.bytes.len() - self.pos;
        if cnt < left {
            self.pos = self.pos + cnt;
            assert(self.remaining_bytes() =~= old(self).remaining_bytes().skip(cnt as int));
        } else {
            self.pos = self.bytes.len();
            assert(self.remaining_bytes() =~= Seq::<u8>::empty());
            if cnt <= left {
                assert(old(self).remaining_bytes().skip(cnt as int) =~= Seq::<u8>::empty());
            }
        }
    }
}

} // verus!
