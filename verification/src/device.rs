//! A single virtual device: an identified, growable in-memory byte store with
//! offset-addressed reads and writes and a truncate-on-open-for-write policy.
//!
//! The host framework serializes access per device (each device sits behind
//! its own lock, held for the duration of one operation), so every operation
//! here acts on the whole store atomically: `write` takes `&mut self` and its
//! contract pins the entire resulting contents, which rules out observing or
//! producing a partially applied write.
use vstd::prelude::*;

verus! {

/// The errors a device or registry operation can return. Every failure is
/// reported synchronously to the caller; nothing is retried internally.
#[derive(Clone, Copy, PartialEq, Eq, Structural, Debug)]
pub enum Error {
    /// An offset/length combination is not representable in `usize`.
    InvalidArgument,
    /// The byte store or a device structure could not be allocated.
    AllocationFailure,
    /// The configured device count could not be validated.
    ConfigurationError,
    /// The host framework could not expose an endpoint for a device.
    RegistrationFailure,
}

/// The access mode a caller requested when opening a device.
#[derive(Clone, Copy, PartialEq, Eq, Structural, Debug)]
pub enum AccessMode {
    ReadOnly,
    WriteOnly,
    ReadWrite,
}

/// The low bits of an open-flags word that carry the access mode.
pub const ACCESS_MODE_MASK: u32 = 3;

/// Flag value for read-only access.
pub const FLAG_READ_ONLY: u32 = 0;

/// Flag value for write-only access.
pub const FLAG_WRITE_ONLY: u32 = 1;

impl AccessMode {
    /// Decodes the access mode from an open-flags word as the host framework
    /// encodes it: the two low bits select read-only, write-only or
    /// read-write.
    pub fn from_flags(flags: u32) -> (mode: AccessMode)
        ensures
            mode == AccessMode::WriteOnly <==> flags & ACCESS_MODE_MASK == FLAG_WRITE_ONLY,
            mode == AccessMode::ReadOnly <==> flags & ACCESS_MODE_MASK == FLAG_READ_ONLY,
    {
        let acc = flags & ACCESS_MODE_MASK;
        if acc == FLAG_WRITE_ONLY {
            AccessMode::WriteOnly
        } else if acc == FLAG_READ_ONLY {
            AccessMode::ReadOnly
        } else {
            AccessMode::ReadWrite
        }
    }
}

/// The byte a store holds at index `i` once it has grown: bytes below the old
/// end keep their value, bytes at or beyond it are zero-filled.
pub open spec fn grown_byte(contents: Seq<u8>, i: int) -> u8 {
    if 0 <= i < contents.len() {
        contents[i]
    } else {
        0u8
    }
}

/// The contents of a store after writing `data` at `offset`: the store grows
/// to `max(contents.len(), offset + data.len())`, the written span holds
/// `data`, every other index keeps its old byte or is zero-filled where the
/// write created a gap past the old end.
pub open spec fn write_spec(contents: Seq<u8>, data: Seq<u8>, offset: int) -> Seq<u8>
    recommends
        0 <= offset,
{
    let new_len = if offset + data.len() > contents.len() {
        offset + data.len()
    } else {
        contents.len() as int
    };
    Seq::new(
        new_len as nat,
        |i: int|
            if offset <= i < offset + data.len() {
                data[i - offset]
            } else {
                grown_byte(contents, i)
            },
    )
}

/// The bytes a read at `offset` with a destination of `capacity` bytes
/// returns: the next `min(capacity, contents.len() - offset)` stored bytes,
/// or nothing at all when `offset` is at or past the end of the store.
pub open spec fn read_spec(contents: Seq<u8>, offset: int, capacity: int) -> Seq<u8>
    recommends
        0 <= offset,
        0 <= capacity,
{
    if offset >= contents.len() {
        Seq::empty()
    } else {
        let n = if capacity <= contents.len() - offset {
            capacity
        } else {
            contents.len() - offset
        };
        contents.subrange(offset, offset + n)
    }
}

/// Law: after writing `data` at `offset`, the store holds at every index
/// exactly the byte most recently written there — the byte of this write
/// inside its span, the byte the store held before where the write did not
/// touch it, and a zero where the write created a gap between the old end and
/// `offset` — and the store ends at `max(old end, offset + data.len())`, so
/// nothing can be read at or past that point.
pub proof fn lemma_read_sees_last_write(contents: Seq<u8>, data: Seq<u8>, offset: int, i: int)
    requires
        0 <= offset,
    ensures
        offset <= i < offset + data.len() ==> write_spec(contents, data, offset)[i] == data[i
            - offset],
        contents.len() <= i < offset ==> write_spec(contents, data, offset)[i] == 0u8,
        0 <= i < contents.len() && !(offset <= i < offset + data.len()) ==> write_spec(
            contents,
            data,
            offset,
        )[i] == contents[i],
        write_spec(contents, data, offset).len() == vstd::math::max(
            contents.len() as int,
            offset + data.len(),
        ),
{
}

/// Law: a read exposes the stored bytes and nothing else — byte `k` of the
/// result is the store's byte at `offset + k`, the result never holds more
/// than `min(capacity, len - offset)` bytes, and an offset at or past the end
/// of the store yields zero bytes.
pub proof fn lemma_read_exact(contents: Seq<u8>, offset: int, capacity: int, k: int)
    requires
        0 <= offset,
        0 <= capacity,
    ensures
        0 <= k < read_spec(contents, offset, capacity).len() ==> read_spec(
            contents,
            offset,
            capacity,
        )[k] == contents[offset + k],
        read_spec(contents, offset, capacity).len() <= capacity,
        offset < contents.len() ==> read_spec(contents, offset, capacity).len() == vstd::math::min(
            capacity,
            contents.len() - offset,
        ),
        offset >= contents.len() ==> read_spec(contents, offset, capacity).len() == 0,
{
}

/// Law: writes to one store compose a whole write at a time. In the store
/// left by a first write followed by a second, every index inside the second
/// write's span holds the second write's byte, and every index inside the
/// first write's span and outside the second's holds the first write's byte:
/// the result is the sequential ordering of the two writes, never a byte-level
/// mix within either write's span.
pub proof fn lemma_writes_compose_sequentially(
    contents: Seq<u8>,
    first: Seq<u8>,
    first_offset: int,
    second: Seq<u8>,
    second_offset: int,
    i: int,
)
    requires
        0 <= first_offset,
        0 <= second_offset,
    ensures
        second_offset <= i < second_offset + second.len() ==> write_spec(
            write_spec(contents, first, first_offset),
            second,
            second_offset,
        )[i] == second[i - second_offset],
        first_offset <= i < first_offset + first.len() && !(second_offset <= i < second_offset
            + second.len()) ==> write_spec(
            write_spec(contents, first, first_offset),
            second,
            second_offset,
        )[i] == first[i - first_offset],
{
}

/// One independently addressable in-memory byte store with a stable ordinal
/// identity. The host framework wraps each device in its own lock and a
/// shared handle; this core sees one exclusive caller per operation.
pub struct Device {
    /// Immutable ordinal assigned at creation; identifies the device.
    pub number: usize,
    /// The stored bytes; initially empty, grown only by `write`.
    pub contents: Vec<u8>,
}

impl Device {
    /// Creates device `number` with an empty store.
    pub fn new(number: usize) -> (d: Device)
        ensures
            d.number == number,
            d.contents@ == Seq::<u8>::empty(),
    {
        Device { number, contents: Vec::new() }
    }

    /// Opens a session on the device with the requested access mode. A
    /// write-only open atomically empties the store; any other mode leaves it
    /// untouched. The host framework hands the session its shared handle;
    /// opening never fails here.
    pub fn open(&mut self, mode: AccessMode)
        ensures
            final(self).number == old(self).number,
            mode is WriteOnly ==> final(self).contents@ == Seq::<u8>::empty(),
            !(mode is WriteOnly) ==> final(self).contents@ == old(self).contents@,
    {
        match mode {
            AccessMode::WriteOnly => self.contents.clear(),
            _ => {},
        }
    }

    /// Reads from the store into a destination of `capacity` bytes, starting
    /// at absolute position `offset`. Returns the bytes read: exactly
    /// `min(capacity, len - offset)` of them, or none when `offset` is at or
    /// past the end, which signals end-of-data and is not an error. Fails
    /// only when `offset` is not representable in `usize`. The store never
    /// changes.
    pub fn read(&self, capacity: usize, offset: u64) -> (r: Result<Vec<u8>, Error>)
        ensures
            r is Ok <==> offset <= usize::MAX as u64,
            r matches Ok(out) ==> out@ == read_spec(self.contents@, offset as int, capacity as int),
            r matches Ok(out) ==> out@.len() <= capacity,
            r matches Ok(out) ==> (offset < self.contents@.len() ==> out@.len() == vstd::math::min(
                capacity as int,
                self.contents@.len() - offset,
            )),
            r matches Ok(out) ==> (offset >= self.contents@.len() ==> out@.len() == 0),
            r is Err ==> r == Err::<Vec<u8>, Error>(Error::InvalidArgument),
    {
        if offset > usize::MAX as u64 {
            return Err(Error::InvalidArgument);
        }
        let off = offset as usize;
        let mut out: Vec<u8> = Vec::new();
        if off >= self.contents.len() {
            return Ok(out);
        }
        let avail = self.contents.len() - off;
        let n = if capacity <= avail {
            capacity
        } else {
            avail
        };
        let mut i: usize = 0;
        while i < n
            invariant
                i <= n,
                off + n <= usize::MAX,
                off + n <= self.contents@.len(),
                n == vstd::math::min(capacity as int, self.contents@.len() - off),
                out@ == self.contents@.subrange(off as int, off + i),
            decreases n - i,
        {
            out.push(self.contents[off + i]);
            proof {
                assert(out@ =~= self.contents@.subrange(off as int, off + i + 1));
            }
            i = i + 1;
        }
        proof {
            assert(out@ =~= read_spec(self.contents@, off as int, capacity as int));
        }
        Ok(out)
    }

    /// Writes all of `data` into the store starting at absolute position
    /// `offset`, growing the store to `offset + data.len()` when that lies
    /// past the current end and zero-filling any gap between the old end and
    /// `offset`. On success returns exactly `data.len()` — there are no short
    /// writes — and this is the only operation that changes the store's
    /// length. Fails, leaving the store unchanged, exactly when
    /// `offset + data.len()` overflows `usize`.
    pub fn write(&mut self, data: &[u8], offset: u64) -> (r: Result<usize, Error>)
        ensures
            final(self).number == old(self).number,
            r is Ok <==> offset + data@.len() <= usize::MAX as u64,
            r matches Ok(n) ==> n == data@.len(),
            r is Ok ==> final(self).contents@ == write_spec(
                old(self).contents@,
                data@,
                offset as int,
            ),
            r is Ok ==> final(self).contents@.len() == vstd::math::max(
                old(self).contents@.len() as int,
                offset + data@.len(),
            ),
            r is Err ==> final(self).contents@ == old(self).contents@,
            r is Err ==> r == Err::<usize, Error>(Error::InvalidArgument),
    {
        if offset > usize::MAX as u64 {
            return Err(Error::InvalidArgument);
        }
        let off = offset as usize;
        let len = data.len();
        let new_len = match off.checked_add(len) {
            Some(n) => n,
            None => {
                return Err(Error::InvalidArgument);
            },
        };
        let ghost old_contents = self.contents@;
        let ghost full_len: int = if new_len > old_contents.len() {
            new_len as int
        } else {
            old_contents.len() as int
        };
        while self.contents.len() < new_len
            invariant
                self.number == old(self).number,
                old_contents.len() <= self.contents@.len() <= full_len,
                full_len == if new_len > old_contents.len() {
                    new_len as int
                } else {
                    old_contents.len() as int
                },
                forall|j: int|
                    0 <= j < self.contents@.len() ==> self.contents@[j] == grown_byte(
                        old_contents,
                        j,
                    ),
            decreases new_len - self.contents.len(),
        {
            self.contents.push(0u8);
        }
        let mut i: usize = 0;
        while i < len
            invariant
                self.number == old(self).number,
                i <= len,
                len == data@.len(),
                off + len == new_len,
                self.contents@.len() == full_len,
                new_len <= full_len,
                forall|j: int| off <= j < off + i ==> self.contents@[j] == data@[j - off],
                forall|j: int|
                    0 <= j < self.contents@.len() && !(off <= j < off + i)
                        ==> self.contents@[j] == grown_byte(old_contents, j),
            decreases len - i,
        {
            self.contents[off + i] = data[i];
            i = i + 1;
        }
        proof {
            assert(self.contents@ =~= write_spec(old_contents, data@, off as int));
        }
        Ok(len)
    }
}

} // verus!
