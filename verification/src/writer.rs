//! A writer that cannot leave its buffer.

use crate::error::PerpetualsError;
use vstd::prelude::*;

verus! {

/// `base` with the bytes from `at` on replaced by `part`, as far as `part`
/// reaches. The length stays that of `base`.
pub open spec fn overwrite(base: Seq<u8>, at: int, part: Seq<u8>) -> Seq<u8> {
    Seq::new(
        base.len(),
        |i: int|
            if at <= i < at + part.len() {
                part[i - at]
            } else {
                base[i]
            },
    )
}

/// Overwriting keeps the length, puts `part` at `at`, and leaves every byte
/// before `at` and behind the end of `part` as it was.
pub proof fn lemma_overwrite(base: Seq<u8>, at: int, part: Seq<u8>)
    requires
        0 <= at,
        at + part.len() <= base.len(),
    ensures
        overwrite(base, at, part).len() == base.len(),
        overwrite(base, at, part).subrange(0, at) == base.subrange(0, at),
        overwrite(base, at, part).subrange(at, at + part.len()) == part,
        overwrite(base, at, part).subrange(at + part.len(), base.len() as int) == base.subrange(
            at + part.len(),
            base.len() as int,
        ),
{
    let after = overwrite(base, at, part);
    assert(after.subrange(0, at) =~= base.subrange(0, at));
    assert(after.subrange(at, at + part.len()) =~= part);
    assert(after.subrange(at + part.len(), base.len() as int) =~= base.subrange(
        at + part.len(),
        base.len() as int,
    ));
}

/// A cursor over a buffer of fixed length. Bytes are written at the cursor,
/// which then moves past them; nothing is ever written beyond the end of the
/// buffer, and the buffer never grows.
///
/// The buffer is borrowed for as long as the writer lives. Every operation
/// states what the buffer holds when it returns, and that the writer still
/// holds the same borrow: what the lender finds in the end is what the last
/// operation left.
#[derive(Debug, Default)]
pub struct BpfWriter<T> {
    inner: T,
    pos: u64,
}

impl<T> BpfWriter<T> {
    /// The buffer that the writer holds.
    pub closed spec fn buffer(self) -> T {
        self.inner
    }

    /// The number of bytes written so far, which is where the next one goes.
    pub closed spec fn position(self) -> nat {
        self.pos as nat
    }

    /// Once the writer is no longer used, neither is its buffer.
    pub proof fn lemma_done(self)
        requires
            has_resolved(self),
        ensures
            has_resolved(self.buffer()),
    {
    }

    /// A writer at the start of `inner`.
    pub fn new(inner: T) -> (writer: Self)
        ensures
            writer.buffer() == inner,
            writer.position() == 0,
    {
        Self { inner, pos: 0 }
    }
}

/// Copies the first `n` bytes of `src` over the bytes of `dst` that start at
/// `at`, through `solana_program::program_memory::sol_memcpy`.
///
/// That function is `memcpy` on two slices: it copies `n` bytes from the
/// start of the source to the start of the destination, which is here the
/// tail of `dst` from `at`. It does not look at the lengths of the slices,
/// so both must hold `n` bytes. Nothing else of `dst` is written. Outside
/// the Solana runtime the copy is made by the syscall stubs of the
/// process; this is what the stubs do that the crate installs.
#[verifier::external_body]
fn copy_bytes(dst: &mut [u8], at: usize, src: &[u8], n: usize)
    requires
        at + n <= old(dst)@.len(),
        n <= src@.len(),
    ensures
        final(dst)@ == overwrite(old(dst)@, at as int, src@.subrange(0, n as int)),
{
    solana_program::program_memory::sol_memcpy(&mut dst[at..], src, n);
}

impl<'a> BpfWriter<&'a mut [u8]> {
    /// The number of bytes between the cursor and the end of the buffer.
    pub open spec fn room(self) -> nat {
        if self.position() < self.buffer()@.len() {
            (self.buffer()@.len() - self.position()) as nat
        } else {
            0
        }
    }

    /// How many of `len` bytes the writer takes: all of them if there is
    /// room, else as many as there is room for.
    pub open spec fn takes(self, len: nat) -> nat {
        if len <= self.room() {
            len
        } else {
            self.room()
        }
    }

    /// A buffer that is too short by any number of bytes takes fewer bytes
    /// than it is given, and one that is long enough takes them all.
    pub proof fn lemma_takes(self, len: nat)
        ensures
            len > self.room() ==> self.takes(len) < len,
            len <= self.room() ==> self.takes(len) == len,
            self.position() + self.takes(len) <= self.position() + self.room(),
    {
    }

    /// Writes as much of `buf` as there is room for and returns how many
    /// bytes that was: all of `buf` if it fits, else the part that reaches
    /// the end of the buffer, and nothing once the cursor is at the end.
    pub fn write(&mut self, buf: &[u8]) -> (written: usize)
        ensures
            written == old(self).takes(buf@.len()),
            final(self).position() == old(self).position() + written,
            final(self).buffer()@ == overwrite(
                old(self).buffer()@,
                old(self).position() as int,
                buf@.subrange(0, written as int),
            ),
            final(final(self).buffer())@ == final(old(self).buffer())@,
    {
        let len = self.inner.len();
        if self.pos >= len as u64 {
            assert(self.inner@ =~= overwrite(self.inner@, self.pos as int, buf@.subrange(0, 0)));
            return 0;
        }
        let at = self.pos as usize;
        let room = len - at;
        let amt = if room < buf.len() {
            room
        } else {
            buf.len()
        };
        copy_bytes(self.inner, at, buf, amt);
        self.pos = self.pos + amt as u64;
        amt
    }

    /// Writes all of `buf` or fails with `WriteZero`. It succeeds exactly if
    /// `buf` fits between the cursor and the end of the buffer. A failed
    /// call has still written the part that fits.
    pub fn write_all(&mut self, buf: &[u8]) -> (res: Result<(), PerpetualsError>)
        ensures
            buf@.len() <= old(self).room() ==> res == Ok::<(), PerpetualsError>(()),
            buf@.len() > old(self).room() ==> res == Err::<(), PerpetualsError>(
                PerpetualsError::WriteZero,
            ),
            final(self).position() == old(self).position() + old(self).takes(buf@.len()),
            final(self).buffer()@ == overwrite(
                old(self).buffer()@,
                old(self).position() as int,
                buf@.subrange(0, old(self).takes(buf@.len()) as int),
            ),
            final(final(self).buffer())@ == final(old(self).buffer())@,
    {
        if self.write(buf) == buf.len() {
            Ok(())
        } else {
            Err(PerpetualsError::WriteZero)
        }
    }

    /// Nothing is held back by the writer, so there is nothing to flush.
    pub fn flush(&mut self) -> (res: Result<(), PerpetualsError>)
        ensures
            res == Ok::<(), PerpetualsError>(()),
            final(self).position() == old(self).position(),
            final(self).buffer()@ == old(self).buffer()@,
            final(final(self).buffer())@ == final(old(self).buffer())@,
    {
        Ok(())
    }
}

} // verus!
