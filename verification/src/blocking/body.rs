//! The streaming response-body adapter: an async, push-style stream of
//! chunks becomes a synchronous, pull-based byte source.
//!
//! A driving task, run by the caller on its background context, feeds the
//! stream's chunks through [`driver_step`] into a bounded channel of one
//! slot; [`Body`] is the reading end. Empty chunks are never forwarded, an
//! error is forwarded once and ends the stream, and memory is bounded by
//! one in-flight chunk plus the reader's leftover buffer.

use tokio::sync::mpsc::Receiver;
use vstd::prelude::*;

verus! {

#[verifier::external_type_specification]
#[verifier::external_body]
#[verifier::reject_recursive_types(T)]
pub struct ExReceiver<T>(Receiver<T>);

/// An error delivered by the response body stream, carried by its message.
#[derive(Debug)]
pub struct BodyError {
    pub message: String,
}

impl Clone for BodyError {
    /// The clone carries the same message.
    fn clone(&self) -> (r: Self)
        ensures
            r.message@ == self.message@,
    {
        BodyError { message: self.message.clone() }
    }
}

/// One item of the response body stream: a chunk of bytes, or the error
/// that ended the stream.
pub type ChunkItem = Result<Vec<u8>, BodyError>;

/// What the driving task does with one stream item.
pub enum DriverAction {
    /// Stop driving: the stream is finished.
    Stop,
    /// Forward nothing and pull the next item.
    Skip,
    /// Hand these bytes to the reader, then pull the next item.
    Forward(Vec<u8>),
    /// Hand this error to the reader, then stop; the stream is not pulled
    /// again after an error.
    ForwardErrorThenStop(BodyError),
}

/// Decide what to do with one item pulled from the stream: end of stream
/// stops the task, an empty chunk is skipped so the reader never wakes up
/// for nothing, bytes are forwarded, and an error is forwarded exactly
/// once before the task stops.
pub fn driver_step(item: Option<ChunkItem>) -> (r: DriverAction)
    ensures
        match item {
            None => r is Stop,
            Some(Ok(c)) => if c@.len() == 0 {
                r is Skip
            } else {
                (r matches DriverAction::Forward(f) && f == c)
            },
            Some(Err(e)) => (r matches DriverAction::ForwardErrorThenStop(f) && f == e),
        },
{
    match item {
        None => DriverAction::Stop,
        Some(Ok(c)) => if c.len() == 0 {
            DriverAction::Skip
        } else {
            DriverAction::Forward(c)
        },
        Some(Err(e)) => DriverAction::ForwardErrorThenStop(e),
    }
}

/// What the reader is handed when the stream delivers `items`: the
/// nonempty chunks in order, cut off after the first error.
pub open spec fn spec_forwarded(items: Seq<ChunkItem>) -> Seq<ChunkItem>
    decreases items.len(),
{
    if items.len() == 0 {
        Seq::empty()
    } else {
        match items.first() {
            Ok(c) => if c@.len() == 0 {
                spec_forwarded(items.drop_first())
            } else {
                seq![items.first()] + spec_forwarded(items.drop_first())
            },
            Err(e) => seq![items.first()],
        }
    }
}

/// The bytes of the stream: every chunk before the first error,
/// concatenated in order.
pub open spec fn spec_ok_bytes(items: Seq<ChunkItem>) -> Seq<u8>
    decreases items.len(),
{
    if items.len() == 0 {
        Seq::empty()
    } else {
        match items.first() {
            Ok(c) => c@ + spec_ok_bytes(items.drop_first()),
            Err(e) => Seq::empty(),
        }
    }
}

/// The first error of the stream, if any.
pub open spec fn spec_first_err(items: Seq<ChunkItem>) -> Option<BodyError>
    decreases items.len(),
{
    if items.len() == 0 {
        None
    } else {
        match items.first() {
            Ok(c) => spec_first_err(items.drop_first()),
            Err(e) => Some(e),
        }
    }
}

/// Dropping empty chunks and cutting after the first error loses nothing
/// the reader is owed: the forwarded stream carries the same bytes and the
/// same first error as the stream itself.
pub proof fn lemma_forwarded_preserves_content(items: Seq<ChunkItem>)
    ensures
        spec_ok_bytes(spec_forwarded(items)) == spec_ok_bytes(items),
        spec_first_err(spec_forwarded(items)) == spec_first_err(items),
    decreases items.len(),
{
    if items.len() > 0 {
        lemma_forwarded_preserves_content(items.drop_first());
        match items.first() {
            Ok(c) => {
                if c@.len() == 0 {
                    assert(c@ + spec_ok_bytes(items.drop_first()) =~= spec_ok_bytes(
                        items.drop_first(),
                    ));
                } else {
                    let f = spec_forwarded(items);
                    assert(f.first() == items.first());
                    assert(f.drop_first() =~= spec_forwarded(items.drop_first()));
                }
            },
            Err(e) => {
                let f = spec_forwarded(items);
                assert(f.first() == items.first());
                assert(f.drop_first() =~= Seq::<ChunkItem>::empty());
                assert(spec_ok_bytes(f) =~= Seq::<u8>::empty());
            },
        }
    }
}

/// The reader is never handed an empty chunk, and nothing follows an
/// error: an error, if one occurs, is forwarded exactly once, as the last
/// item.
pub proof fn lemma_forwarded_shape(items: Seq<ChunkItem>)
    ensures
        forall|i: int|
            0 <= i < spec_forwarded(items).len() ==> ((#[trigger] spec_forwarded(items)[i])
                matches Ok(c) ==> c@.len() > 0),
        forall|i: int|
            0 <= i < spec_forwarded(items).len() ==> ((#[trigger] spec_forwarded(items)[i]) is Err
                ==> i == spec_forwarded(items).len() - 1),
    decreases items.len(),
{
    if items.len() > 0 {
        lemma_forwarded_shape(items.drop_first());
        let f = spec_forwarded(items);
        match items.first() {
            Ok(c) => {
                if c@.len() > 0 {
                    assert(f.drop_first() =~= spec_forwarded(items.drop_first()));
                    assert forall|i: int| 1 <= i < f.len() implies f[i] == spec_forwarded(
                        items.drop_first(),
                    )[i - 1] by {}
                }
            },
            Err(e) => {},
        }
    }
}

/// A stream that fails delivers its first error as the very last item the
/// reader is handed: nothing follows it, so it is never repeated.
pub proof fn lemma_error_ends_stream(items: Seq<ChunkItem>)
    requires
        spec_first_err(items) is Some,
    ensures
        spec_forwarded(items).len() >= 1,
        spec_forwarded(items).last() matches Err(e) && Some(e) == spec_first_err(items),
    decreases items.len(),
{
    if items.len() > 0 {
        match items.first() {
            Ok(c) => {
                lemma_error_ends_stream(items.drop_first());
                if c@.len() > 0 {
                    let f = spec_forwarded(items);
                    let g = spec_forwarded(items.drop_first());
                    assert(f == seq![items.first()] + g);
                    assert(f.last() == g.last());
                }
            },
            Err(e) => {
                assert(spec_forwarded(items).last() == items.first());
            },
        }
    }
}

/// Run the driver's decisions over a whole stream of items, as the driving
/// task does item by item: what comes out is what the reader is handed.
pub fn drive_chunks(items: Vec<ChunkItem>) -> (out: Vec<ChunkItem>)
    ensures
        out@ == spec_forwarded(items@),
{
    let ghost orig = items@;
    let mut rest = items;
    let mut out: Vec<ChunkItem> = Vec::new();
    loop
        invariant_except_break
            spec_forwarded(orig) == out@ + spec_forwarded(rest@),
        ensures
            out@ == spec_forwarded(orig),
        decreases rest@.len(),
    {
        if rest.len() == 0 {
            proof {
                assert(rest@ =~= Seq::<ChunkItem>::empty());
                assert(out@ + spec_forwarded(rest@) =~= out@);
            }
            break ;
        }
        let ghost pre = rest@;
        let it = rest.remove(0);
        proof {
            assert(pre.drop_first() =~= rest@);
            assert(pre.first() == it);
        }
        match driver_step(Some(it)) {
            DriverAction::Stop => {
                proof {
                    assert(false);
                }
                break ;
            },
            DriverAction::Skip => {
                proof {
                    assert(out@ + spec_forwarded(pre) =~= out@ + spec_forwarded(rest@));
                }
            },
            DriverAction::Forward(c) => {
                let ghost out0 = out@;
                out.push(Ok(c));
                proof {
                    assert(spec_forwarded(pre) == seq![pre.first()] + spec_forwarded(rest@));
                    assert(out0 + spec_forwarded(pre) =~= out@ + spec_forwarded(rest@));
                }
            },
            DriverAction::ForwardErrorThenStop(e) => {
                let ghost out0 = out@;
                out.push(Err(e));
                proof {
                    assert(spec_forwarded(pre) == seq![pre.first()]);
                    assert(out0 + spec_forwarded(pre) =~= out@);
                }
                break ;
            },
        }
    }
    out
}

/// Drain a forwarded stream as the blocking reader does: the bytes before
/// the first error, and that error if there is one.
pub fn read_all(forwarded: Vec<ChunkItem>) -> (r: (Vec<u8>, Option<BodyError>))
    ensures
        r.0@ == spec_ok_bytes(forwarded@),
        r.1 == spec_first_err(forwarded@),
{
    let ghost orig = forwarded@;
    let mut rest = forwarded;
    let mut out: Vec<u8> = Vec::new();
    let mut err: Option<BodyError> = None;
    loop
        invariant_except_break
            err is None,
            spec_ok_bytes(orig) == out@ + spec_ok_bytes(rest@),
            spec_first_err(orig) == spec_first_err(rest@),
        ensures
            out@ == spec_ok_bytes(orig),
            err == spec_first_err(orig),
        decreases rest@.len(),
    {
        if rest.len() == 0 {
            proof {
                assert(rest@ =~= Seq::<ChunkItem>::empty());
                assert(out@ + spec_ok_bytes(rest@) =~= out@);
            }
            break ;
        }
        let ghost pre = rest@;
        let it = rest.remove(0);
        proof {
            assert(pre.drop_first() =~= rest@);
            assert(pre.first() == it);
        }
        match it {
            Ok(c) => {
                let ghost out0 = out@;
                let ghost cv = c@;
                let mut c = c;
                out.append(&mut c);
                proof {
                    assert(spec_ok_bytes(pre) == cv + spec_ok_bytes(rest@));
                    assert(out0 + spec_ok_bytes(pre) =~= out@ + spec_ok_bytes(rest@));
                }
            },
            Err(e) => {
                err = Some(e);
                proof {
                    assert(spec_ok_bytes(pre) =~= Seq::<u8>::empty());
                    assert(out@ + spec_ok_bytes(pre) =~= out@);
                }
                break ;
            },
        }
    }
    (out, err)
}

/// A body for HTTP responses read synchronously: the pull-based end of the
/// adapter. Reads serve buffered bytes first and otherwise park the
/// calling thread until the driving task hands over a chunk, an error, or
/// closes the channel, which reads as end of file.
pub struct Body {
    rx: Receiver<ChunkItem>,
    bytes: Vec<u8>,
    pos: usize,
}

/// Relies on tokio's `Receiver::blocking_recv`: it parks the thread until
/// an item arrives and yields `None` once the channel is closed and
/// drained. It panics inside an async context; the library calls it only
/// from the blocking read path below, which is meant for ordinary threads.
#[verifier::external_body]
fn recv_chunk(rx: &mut Receiver<ChunkItem>) -> Option<ChunkItem> {
    rx.blocking_recv()
}

impl Body {
    /// The cursor never points past the leftover buffer's end.
    pub closed spec fn wf(&self) -> bool {
        self.pos <= self.bytes@.len()
    }

    /// The bytes received but not yet read.
    pub closed spec fn buffered(&self) -> Seq<u8> {
        self.bytes@.skip(self.pos as int)
    }

    /// A reader over the receiving end of a body channel; nothing is
    /// buffered yet.
    pub fn new(rx: Receiver<ChunkItem>) -> (r: Self)
        ensures
            r.wf(),
            r.buffered() == Seq::<u8>::empty(),
    {
        let r = Body { rx, bytes: Vec::new(), pos: 0 };
        proof {
            assert(r.buffered() =~= Seq::<u8>::empty());
        }
        r
    }

    /// Replace the leftover buffer with a freshly received chunk.
    fn accept_chunk(&mut self, chunk: Vec<u8>)
        ensures
            final(self).wf(),
            final(self).buffered() == chunk@,
    {
        self.bytes = chunk;
        self.pos = 0;
        proof {
            assert(self.buffered() =~= self.bytes@);
        }
    }

    /// Serve up to `max` bytes from the leftover buffer.
    fn take_buffered(&mut self, max: usize) -> (r: Vec<u8>)
        requires
            old(self).wf(),
        ensures
            final(self).wf(),
            ({
                let k = if max <= old(self).buffered().len() {
                    max as int
                } else {
                    old(self).buffered().len() as int
                };
                r@ == old(self).buffered().take(k) && final(self).buffered() == old(
                    self,
                ).buffered().skip(k)
            }),
    {
        let total = self.bytes.len();
        let avail = total - self.pos;
        let k = if max <= avail {
            max
        } else {
            avail
        };
        let mut out: Vec<u8> = Vec::new();
        let mut i: usize = 0;
        while i < k
            invariant
                self.bytes@ == old(self).bytes@,
                self.pos == old(self).pos,
                old(self).wf(),
                total == old(self).bytes@.len(),
                k <= old(self).buffered().len(),
                i <= k,
                out@ == old(self).buffered().take(i as int),
            decreases k - i,
        {
            proof {
                assert(old(self).buffered().len() == old(self).bytes@.len() - old(self).pos);
                assert(self.pos + i < total);
            }
            out.push(self.bytes[self.pos + i]);
            proof {
                assert(old(self).buffered()[i as int] == old(self).bytes@[old(self).pos + i]);
                assert(out@ =~= old(self).buffered().take(i + 1));
            }
            i = i + 1;
        }
        self.pos = self.pos + k;
        proof {
            assert(self.buffered() =~= old(self).buffered().skip(k as int));
        }
        out
    }

    /// Read up to `max` bytes. Buffered bytes are served first, without
    /// blocking; with nothing buffered, the call parks until the driving
    /// task hands over a chunk, which is then served from, an error, which
    /// is returned once, or the closed channel, read as end of file: an
    /// empty result while `max` is positive means the body is finished.
    pub fn read(&mut self, max: usize) -> (r: Result<Vec<u8>, BodyError>)
        requires
            old(self).wf(),
        ensures
            final(self).wf(),
            (r matches Ok(v) ==> v@.len() <= max),
            (r matches Err(e) ==> old(self).buffered().len() == 0 && final(self).buffered()
                == old(self).buffered()),
            old(self).buffered().len() > 0 ==> (r matches Ok(v) && ({
                let k = if max <= old(self).buffered().len() {
                    max as int
                } else {
                    old(self).buffered().len() as int
                };
                v@ == old(self).buffered().take(k) && final(self).buffered() == old(
                    self,
                ).buffered().skip(k)
            })),
    {
        if self.pos >= self.bytes.len() {
            proof {
                assert(old(self).buffered().len() == 0);
            }
            match recv_chunk(&mut self.rx) {
                None => {
                    return Ok(Vec::new());
                },
                Some(Err(e)) => {
                    return Err(e);
                },
                Some(Ok(c)) => {
                    self.accept_chunk(c);
                },
            }
        }
        Ok(self.take_buffered(max))
    }
}

} // verus!
