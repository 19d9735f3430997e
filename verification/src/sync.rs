//! The two ends of a blocking byte pipe over a stream of chunks: a reader
//! that hands out the chunks it is fed, and a body that cuts what a blocking
//! source gives into chunks.
//!
//! Neither end waits. The reader says when it needs the next chunk, and the
//! caller fetches it; the body says what to read into, and the caller reads.

use vstd::prelude::*;

use crate::error::{Error, ErrorKind};

verus! {

/// The size of the chunks that a [`SyncBody`] emits: 16 KiB.
pub const CHUNK_SIZE: usize = 16384;

/// What a reader holds: the bytes of the latest chunk that were not read
/// yet, and whether the stream has ended.
pub struct StreamModel {
    /// The unread bytes of the latest chunk.
    pub unread: Seq<u8>,
    /// Whether the stream has ended, or failed.
    pub finished: bool,
}

/// The smaller of two lengths.
pub open spec fn smaller(a: nat, b: nat) -> nat {
    if a <= b {
        a
    } else {
        b
    }
}

/// The bytes of `chunks`, one chunk after the other.
pub open spec fn joined(chunks: Seq<Seq<u8>>) -> Seq<u8>
    decreases chunks.len(),
{
    if chunks.len() == 0 {
        Seq::empty()
    } else {
        chunks.first() + joined(chunks.drop_first())
    }
}

/// One read of a reader that is fed from `pending` whenever it needs a
/// chunk: the bytes read, and the reader and the chunks not yet fed
/// afterwards.
pub struct Drive {
    /// The bytes that the read put into the buffer.
    pub bytes: Seq<u8>,
    /// The reader after the read.
    pub stream: StreamModel,
    /// The chunks that were not fed yet.
    pub pending: Seq<Seq<u8>>,
}

impl StreamModel {
    /// A reader that was fed nothing yet.
    pub open spec fn fresh() -> StreamModel {
        StreamModel { unread: Seq::empty(), finished: false }
    }

    /// How many bytes a read into a buffer of `room` bytes takes.
    pub open spec fn taken(self, room: nat) -> nat {
        smaller(self.unread.len(), room)
    }

    /// What a read into a buffer of `room` bytes says: the count of bytes
    /// read, if any; zero where bytes are unread but the buffer has no
    /// room, and at the end of the stream; that the next chunk is needed
    /// only where nothing is unread and the stream has not ended.
    pub open spec fn step(self, room: nat) -> ReadStep {
        if self.taken(room) > 0 {
            ReadStep::Done(self.taken(room) as usize)
        } else if self.unread.len() > 0 || self.finished {
            ReadStep::Done(0)
        } else {
            ReadStep::NeedChunk
        }
    }

    /// The reader after a read into a buffer of `room` bytes.
    pub open spec fn after_read(self, room: nat) -> StreamModel {
        StreamModel { unread: self.unread.skip(self.taken(room) as int), ..self }
    }

    /// The reader after it was fed `chunk`: the chunk comes behind what is
    /// unread; a finished reader takes nothing in.
    pub open spec fn fed(self, chunk: Seq<u8>) -> StreamModel {
        if self.finished {
            self
        } else {
            StreamModel { unread: self.unread + chunk, ..self }
        }
    }

    /// The reader after the stream ended or failed. What is unread stays.
    pub open spec fn ended(self) -> StreamModel {
        StreamModel { finished: true, ..self }
    }

    /// The reader after it was fed `event`.
    pub open spec fn after_feed(self, event: StreamEvent) -> StreamModel {
        match event {
            StreamEvent::Chunk(chunk) => self.fed(chunk@),
            StreamEvent::End => self.ended(),
            StreamEvent::Failed(_) => self.ended(),
        }
    }

    /// Whether the reader is at the end: finished, with nothing unread.
    pub open spec fn at_end(self) -> bool {
        self.finished && self.unread.len() == 0
    }

    /// The bytes still to come out of a reader that will be fed `pending`
    /// and then the end: what is unread, and the chunks behind it unless
    /// the reader has finished.
    pub open spec fn remaining(self, pending: Seq<Seq<u8>>) -> Seq<u8> {
        if self.finished {
            self.unread
        } else {
            self.unread + joined(pending)
        }
    }

    /// One read into a buffer of `room` bytes, by a driver that feeds the
    /// reader the next of `pending`, or the end where none is left,
    /// whenever the reader needs a chunk, and reads again.
    pub open spec fn drive(self, pending: Seq<Seq<u8>>, room: nat) -> Drive
        decreases pending.len(),
    {
        if self.step(room) != ReadStep::NeedChunk {
            Drive {
                bytes: self.unread.take(self.taken(room) as int),
                stream: self.after_read(room),
                pending,
            }
        } else if pending.len() == 0 {
            Drive { bytes: Seq::empty(), stream: self.ended(), pending }
        } else {
            self.fed(pending.first()).drive(pending.drop_first(), room)
        }
    }

    /// All the bytes that a run of driven reads gives, one read for each
    /// of `rooms`.
    pub open spec fn run(self, pending: Seq<Seq<u8>>, rooms: Seq<nat>) -> Seq<u8>
        decreases rooms.len(),
    {
        if rooms.len() == 0 {
            Seq::empty()
        } else {
            let first = self.drive(pending, rooms.first());
            first.bytes + first.stream.run(first.pending, rooms.drop_first())
        }
    }
}

/// What a read says.
#[derive(Clone, Copy, Debug, PartialEq, Eq, Structural)]
pub enum ReadStep {
    /// So many bytes were read into the buffer. Zero bytes are read only at
    /// the end of the stream, or into a buffer without room.
    Done(usize),
    /// Nothing is unread and the stream has not ended: the reader must be
    /// fed.
    NeedChunk,
}

/// What the stream gave when it was asked for the next chunk.
#[derive(Debug)]
pub enum StreamEvent {
    /// A chunk.
    Chunk(Vec<u8>),
    /// The end of the stream.
    End,
    /// A failure, with its message.
    Failed(String),
}

/// A reader into a stream of chunks.
#[derive(Debug)]
pub struct SyncStream {
    chunk: Vec<u8>,
    position: usize,
    finished: bool,
}

impl View for SyncStream {
    type V = StreamModel;

    closed spec fn view(&self) -> StreamModel {
        StreamModel { unread: self.chunk@.skip(self.position as int), finished: self.finished }
    }
}

impl SyncStream {
    #[verifier::type_invariant]
    spec fn well_formed(&self) -> bool {
        self.position <= self.chunk.len()
    }

    /// A reader that was fed nothing yet.
    pub fn new() -> (stream: SyncStream)
        ensures
            stream@ == StreamModel::fresh(),
    {
        let stream = SyncStream { chunk: Vec::new(), position: 0, finished: false };
        assert(stream@.unread =~= Seq::empty());
        stream
    }

    /// Read what is unread into the front of `buf`, as far as there is
    /// room. The rest of `buf` stays as it was, and what did not fit stays
    /// unread.
    pub fn read(&mut self, buf: &mut [u8]) -> (step: ReadStep)
        ensures
            step == old(self)@.step(old(buf)@.len()),
            final(self)@ == old(self)@.after_read(old(buf)@.len()),
            final(buf)@ == old(self)@.unread.take(old(self)@.taken(old(buf)@.len()) as int)
                + old(buf)@.skip(old(self)@.taken(old(buf)@.len()) as int),
    {
        proof {
            use_type_invariant(&*self);
        }
        let ghost before = self@;
        let ghost room = buf@.len();
        let ghost initial = buf@;
        let left: usize = self.chunk.len() - self.position;
        let count: usize = if left <= buf.len() {
            left
        } else {
            buf.len()
        };
        let start: usize = self.position;
        let mut copied: usize = 0;
        while copied < count
            invariant
                copied <= count,
                count <= buf@.len(),
                buf@.len() == initial.len(),
                start + count <= self.chunk.len(),
                forall|i: int| 0 <= i < copied ==> buf@[i] == self.chunk@[start + i],
                forall|i: int| copied <= i < buf@.len() ==> buf@[i] == initial[i],
            decreases count - copied,
        {
            buf[copied] = self.chunk[start + copied];
            copied = copied + 1;
        }
        self.position = start + count;
        proof {
            assert(before.taken(room) == count);
            assert(self@.unread =~= before.unread.skip(count as int));
            assert(buf@ =~= before.unread.take(count as int) + initial.skip(count as int));
        }
        if count > 0 {
            ReadStep::Done(count)
        } else if left > 0 || self.finished {
            ReadStep::Done(0)
        } else {
            ReadStep::NeedChunk
        }
    }

    /// Take in what the stream gave. A chunk comes behind what is unread;
    /// the end finishes the stream; a failure finishes it and is handed back
    /// as an `Io` error with the failure's message. A finished reader takes
    /// no chunk in.
    pub fn feed(&mut self, event: StreamEvent) -> (result: Result<(), Error>)
        ensures
            final(self)@ == old(self)@.after_feed(event),
            match event {
                StreamEvent::Failed(message) => result matches Err(error) && error@ == (
                    ErrorKind::Io,
                    message@,
                ),
                _ => result is Ok,
            },
    {
        proof {
            use_type_invariant(&*self);
        }
        match event {
            StreamEvent::Chunk(chunk) => {
                if !self.finished {
                    let ghost before = self@;
                    let ghost fed = chunk@;
                    let mut current = SyncStream { chunk: Vec::new(), position: 0, finished: false };
                    core::mem::swap(self, &mut current);
                    proof {
                        use_type_invariant(&current);
                    }
                    let SyncStream { chunk: mut held, position, finished: _ } = current;
                    let next = if position == held.len() {
                        chunk
                    } else {
                        let mut chunk = chunk;
                        let mut unread = held.split_off(position);
                        unread.append(&mut chunk);
                        unread
                    };
                    assert(next@ =~= before.unread + fed);
                    let mut fresh = SyncStream { chunk: next, position: 0, finished: false };
                    core::mem::swap(self, &mut fresh);
                    assert(self@.unread =~= before.unread + fed);
                }
                Ok(())
            },
            StreamEvent::End => {
                self.finished = true;
                Ok(())
            },
            StreamEvent::Failed(message) => {
                self.finished = true;
                Err(Error::new(ErrorKind::Io, message))
            },
        }
    }

    /// Whether the stream has ended and nothing is left to read.
    pub fn is_at_end(&self) -> (at_end: bool)
        ensures
            at_end == self@.at_end(),
    {
        proof {
            use_type_invariant(self);
        }
        self.finished && self.position == self.chunk.len()
    }
}

/// A synchronous body that can be used with asynchronous code: a blocking
/// source of bytes, to be cut into chunks.
#[derive(Debug, Clone, Default)]
pub struct SyncBody<R> {
    reader: R,
}

impl<R> SyncBody<R> {
    /// The source of the body.
    pub closed spec fn source(&self) -> R {
        self.reader
    }

    /// Create a new body from a reader.
    pub fn new(body: R) -> (created: SyncBody<R>)
        ensures
            created.source() == body,
    {
        SyncBody { reader: body }
    }

    /// The source, to read from.
    pub fn reader_mut(&mut self) -> (reader: &mut R)
        ensures
            *reader == old(self).source(),
            final(self).source() == *final(reader),
    {
        &mut self.reader
    }

    /// The source, given back.
    pub fn into_inner(self) -> (reader: R)
        ensures
            reader == self.source(),
    {
        self.reader
    }

    /// A buffer for one read from the source: [`CHUNK_SIZE`] zero bytes.
    pub fn buffer(&self) -> (buffer: Vec<u8>)
        ensures
            buffer@ == Seq::new(CHUNK_SIZE as nat, |i: int| 0u8),
    {
        let buffer = vec![0u8; CHUNK_SIZE];
        assert(buffer@ =~= Seq::new(CHUNK_SIZE as nat, |i: int| 0u8));
        buffer
    }

    /// The chunk that one read makes: the first `size` bytes of `buffer`,
    /// all of it where `size` exceeds it; or `None`, the end of the stream,
    /// where the read gave no byte.
    pub fn chunk(&self, buffer: Vec<u8>, size: usize) -> (chunk: Option<Vec<u8>>)
        ensures
            chunk_is(buffer@, size, chunk),
    {
        if size > 0 {
            let mut buffer = buffer;
            let ghost read = buffer@;
            buffer.truncate(size);
            assert(buffer@ =~= read.take(smaller(size as nat, read.len()) as int));
            Some(buffer)
        } else {
            None
        }
    }
}

/// What a read of `size` bytes into `buffer` makes of a chunk.
pub open spec fn chunk_is(buffer: Seq<u8>, size: usize, chunk: Option<Vec<u8>>) -> bool {
    if size > 0 {
        chunk matches Some(bytes) && bytes@ == buffer.take(
            smaller(size as nat, buffer.len()) as int,
        )
    } else {
        chunk is None
    }
}

/// A reader at the end stays there: every read gives zero bytes, and
/// whatever it is fed changes nothing.
pub proof fn law_end_is_final(stream: StreamModel, room: nat, event: StreamEvent)
    requires
        stream.at_end(),
    ensures
        stream.step(room) == ReadStep::Done(0),
        stream.after_read(room) == stream,
        stream.after_feed(event) == stream,
{
    assert(stream.unread.skip(0) =~= stream.unread);
}

/// A read into a buffer with room gives zero bytes exactly at the end of
/// the stream; so after the first such read no read gives any byte.
pub proof fn law_zero_read_is_the_end(stream: StreamModel, room: nat)
    requires
        0 < room <= usize::MAX,
    ensures
        stream.step(room) == ReadStep::Done(0) <==> stream.at_end(),
        stream.step(room) == ReadStep::Done(0) ==> stream.after_read(room).at_end(),
{
    assert(stream.unread.skip(0) =~= stream.unread);
}

/// A read loses nothing, whatever the room: what it takes and what it
/// leaves unread are together what was unread before, and it asks for the
/// next chunk only where nothing is unread.
pub proof fn law_reads_keep_order(stream: StreamModel, room: nat)
    ensures
        stream.unread.take(stream.taken(room) as int) + stream.after_read(room).unread
            == stream.unread,
        stream.after_read(room).finished == stream.finished,
        stream.step(room) == ReadStep::NeedChunk ==> stream.unread.len() == 0,
{
    assert(stream.unread.take(stream.taken(room) as int) + stream.unread.skip(
        stream.taken(room) as int,
    ) =~= stream.unread);
}

/// A driven read hands out the front of what remains of the stream: its
/// bytes and what remains afterwards are together what remained before. It
/// reads no more than the buffer holds, and with room in the buffer it reads
/// nothing only where nothing remains.
pub proof fn law_driven_read_takes_the_front(
    stream: StreamModel,
    pending: Seq<Seq<u8>>,
    room: nat,
)
    ensures
        ({
            let read = stream.drive(pending, room);
            &&& read.bytes + read.stream.remaining(read.pending) == stream.remaining(pending)
            &&& read.bytes.len() <= room
            &&& room > 0 ==> (read.bytes.len() == 0 <==> stream.remaining(pending).len() == 0)
            &&& room > 0 && read.bytes.len() == 0 ==> read.stream.at_end()
        }),
    decreases pending.len(),
{
    let read = stream.drive(pending, room);
    if stream.step(room) != ReadStep::NeedChunk {
        let taken = stream.taken(room) as int;
        assert(stream.unread.take(taken) + stream.unread.skip(taken) =~= stream.unread);
        assert(read.bytes + read.stream.remaining(read.pending) =~= stream.remaining(pending));
    } else if pending.len() == 0 {
        assert(joined(pending) =~= Seq::<u8>::empty());
        assert(read.bytes + read.stream.remaining(read.pending) =~= stream.remaining(pending));
    } else {
        let next = stream.fed(pending.first());
        law_driven_read_takes_the_front(next, pending.drop_first(), room);
        assert(next.remaining(pending.drop_first()) =~= stream.remaining(pending));
    }
}

/// A run of driven reads hands out the stream, in order: what it gives is
/// the front of what remained, with nothing lost, repeated or reordered; and
/// once every read had room and the reads were as many as the bytes, it is
/// all that remained.
pub proof fn law_run_hands_out_the_stream(
    stream: StreamModel,
    pending: Seq<Seq<u8>>,
    rooms: Seq<nat>,
)
    ensures
        stream.run(pending, rooms).len() <= stream.remaining(pending).len(),
        stream.run(pending, rooms) == stream.remaining(pending).take(
            stream.run(pending, rooms).len() as int,
        ),
        (forall|i: int| 0 <= i < rooms.len() ==> rooms[i] > 0) && rooms.len()
            >= stream.remaining(pending).len() ==> stream.run(pending, rooms)
            == stream.remaining(pending),
    decreases rooms.len(),
{
    let all = stream.remaining(pending);
    if rooms.len() == 0 {
        assert(stream.run(pending, rooms) =~= all.take(0));
        assert(all.len() == 0 ==> all.take(0) =~= all);
    } else {
        let first = stream.drive(pending, rooms.first());
        let rest = first.stream.run(first.pending, rooms.drop_first());
        law_driven_read_takes_the_front(stream, pending, rooms.first());
        law_run_hands_out_the_stream(first.stream, first.pending, rooms.drop_first());
        let left = first.stream.remaining(first.pending);
        assert(first.bytes + left == all);
        assert(all.len() == first.bytes.len() + left.len());
        assert(stream.run(pending, rooms) == first.bytes + rest);
        assert(first.bytes + rest =~= all.take((first.bytes.len() + rest.len()) as int)) by {
            assert(rest == left.take(rest.len() as int));
            assert forall|i: int| 0 <= i < first.bytes.len() + rest.len() implies (first.bytes
                + rest)[i] == all[i] by {
                if i >= first.bytes.len() {
                    assert(rest[i - first.bytes.len()] == left[i - first.bytes.len()]);
                    assert((first.bytes + left)[i] == left[i - first.bytes.len()]);
                } else {
                    assert((first.bytes + left)[i] == first.bytes[i]);
                }
            }
        }
        if (forall|i: int| 0 <= i < rooms.len() ==> rooms[i] > 0) && rooms.len() >= all.len() {
            assert(rooms.first() == rooms[0]);
            assert forall|i: int| 0 <= i < rooms.drop_first().len() implies rooms.drop_first()[i]
                > 0 by {
                assert(rooms.drop_first()[i] == rooms[i + 1]);
            }
            if all.len() == 0 {
                assert(stream.run(pending, rooms) =~= all);
            } else {
                assert(first.bytes.len() > 0);
                assert(rest == left);
                assert(stream.run(pending, rooms) =~= all);
            }
        }
    }
}

} // verus!
