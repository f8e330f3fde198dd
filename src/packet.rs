use crate::plain::Plain;
use crate::{Error, IoKind};
use vstd::prelude::*;

/// The signal packet and its wire format
pub mod signal;

pub use signal::SyncSignalPacket;

verus! {

/// An owned, growable byte store.
#[derive(Debug, Clone)]
pub struct PacketBuf(Vec<u8>);

impl View for PacketBuf {
    type V = Seq<u8>;

    closed spec fn view(&self) -> Seq<u8> {
        self.0@
    }
}

impl Default for PacketBuf {
    fn default() -> (r: PacketBuf)
        ensures
            r@ == Seq::<u8>::empty(),
    {
        PacketBuf(Vec::new())
    }
}

impl PacketBuf {
    /// An empty buffer.
    pub fn new() -> (r: PacketBuf)
        ensures
            r@ == Seq::<u8>::empty(),
    {
        PacketBuf(Vec::new())
    }

    /// An empty buffer with room for `capacity` bytes.
    pub fn with_capacity(capacity: usize) -> (r: PacketBuf)
        ensures
            r@ == Seq::<u8>::empty(),
    {
        PacketBuf(Vec::with_capacity(capacity))
    }

    /// A buffer holding `bytes`.
    pub fn from_vec(bytes: Vec<u8>) -> (r: PacketBuf)
        ensures
            r@ == bytes@,
    {
        PacketBuf(bytes)
    }

    /// The bytes held, giving up the buffer.
    pub fn into_vec(self) -> (r: Vec<u8>)
        ensures
            r@ == self@,
    {
        self.0
    }

    /// A view of the bytes held.
    pub fn as_slice(&self) -> (r: &[u8])
        ensures
            r@ == self@,
    {
        self.0.as_slice()
    }

    /// A mutable view of the bytes held, for filling the buffer in place.
    pub fn as_mut_slice(&mut self) -> (r: &mut [u8])
        ensures
            r@ == old(self)@,
            final(self)@ == final(r)@,
    {
        self.0.as_mut_slice()
    }

    /// Appends `bytes` after the bytes held.
    pub fn extend_from_slice(&mut self, bytes: &[u8])
        ensures
            final(self)@ == old(self)@ + bytes@,
    {
        self.0.extend_from_slice(bytes);
        proof {
            assert(self.0@ =~= old(self)@ + bytes@);
        }
    }

    /// The number of bytes held.
    pub fn len(&self) -> (r: usize)
        ensures
            r == self@.len(),
    {
        self.0.len()
    }

    /// Whether no byte is held.
    pub fn is_empty(&self) -> (r: bool)
        ensures
            r == (self@.len() == 0),
    {
        self.0.len() == 0
    }
}

/// The in-memory bytes of `items`, one value after another.
pub open spec fn layout_of_seq<T: Plain>(items: Seq<T>) -> Seq<u8>
    decreases items.len(),
{
    if items.len() == 0 {
        Seq::empty()
    } else {
        layout_of_seq(items.drop_last()) + items.last().layout()
    }
}

/// A length-prefixed sequence: the count as a `usize`, then the values.
pub open spec fn sized_layout<T: Plain>(items: Seq<T>) -> Seq<u8> {
    (items.len() as usize).layout() + layout_of_seq(items)
}

/// The `n` values that lie one after another at the front of `b`.
pub open spec fn values_of<T: Plain>(b: Seq<u8>, n: nat) -> Seq<T> {
    Seq::new(n, |i: int| T::from_layout(b.subrange(i * T::width(), (i + 1) * T::width())))
}

/// `bytes` is a length-prefixed sequence that reads back as `items`: a `usize` prefix that
/// reads as the count, then exactly the bytes of the values.
pub open spec fn holds_sized<T: Plain>(bytes: Seq<u8>, items: Seq<T>) -> bool {
    &&& bytes.len() == usize::width() + items.len() * T::width()
    &&& usize::from_layout(bytes.take(usize::width() as int)) == items.len()
    &&& values_of::<T>(bytes.skip(usize::width() as int), items.len()) == items
}

/// What reading a length-prefixed sequence from the front of `rem` gives: the values and
/// the number of bytes taken, or `None` when the bytes end first.
pub open spec fn sized_outcome<T: Plain>(rem: Seq<u8>) -> Option<(Seq<T>, nat)> {
    let w = usize::width();
    if rem.len() < w {
        None
    } else {
        let n = usize::from_layout(rem.take(w as int)) as nat;
        if rem.len() < w + n * T::width() {
            None
        } else {
            Some((values_of::<T>(rem.skip(w as int), n), w + n * T::width()))
        }
    }
}

/// The error that reading past the end gives.
pub open spec fn eof() -> Error {
    Error::IO(IoKind::UnexpectedEof)
}

proof fn lemma_chunk_bounds(j: int, n: int, k: int)
    requires
        0 <= j < n,
        0 <= k,
    ensures
        j * k + k == (j + 1) * k,
        0 <= j * k,
        (j + 1) * k <= n * k,
{
    assert(j * k + k == (j + 1) * k) by (nonlinear_arith);
    assert(0 <= j * k) by (nonlinear_arith)
        requires
            0 <= j,
            0 <= k,
    ;
    assert((j + 1) * k <= n * k) by (nonlinear_arith)
        requires
            j + 1 <= n,
            0 <= k,
    ;
}

/// A length-prefixed sequence reads back as the values it was made of, whatever follows it.
pub proof fn lemma_sized_round_trip<T: Plain>(items: Seq<T>, bytes: Seq<u8>, rest: Seq<u8>)
    requires
        holds_sized(bytes, items),
    ensures
        sized_outcome::<T>(bytes + rest) == Some((items, bytes.len())),
{
    let w = usize::width() as int;
    let k = T::width() as int;
    let n = items.len() as int;
    let all = bytes + rest;
    assert(all.take(w) =~= bytes.take(w));
    let vs = values_of::<T>(all.skip(w), n as nat);
    assert forall|i: int| 0 <= i < n implies vs[i] == items[i] by {
        lemma_chunk_bounds(i, n, k);
        assert(all.skip(w).subrange(i * k, (i + 1) * k) =~= bytes.skip(w).subrange(
            i * k,
            (i + 1) * k,
        ));
    }
    assert(vs =~= items);
}

/// Appends values to a [`PacketBuf`], each as its in-memory bytes.
#[derive(Debug)]
pub struct PacketBufWriter {
    buf: PacketBuf,
}

impl View for PacketBufWriter {
    type V = Seq<u8>;

    /// Everything written so far.
    closed spec fn view(&self) -> Seq<u8> {
        self.buf@
    }
}

impl From<PacketBuf> for PacketBufWriter {
    fn from(value: PacketBuf) -> PacketBufWriter {
        PacketBufWriter { buf: value }
    }
}

impl vstd::std_specs::convert::FromSpecImpl<PacketBuf> for PacketBufWriter {
    open spec fn obeys_from_spec() -> bool {
        true
    }

    closed spec fn from_spec(v: PacketBuf) -> PacketBufWriter {
        PacketBufWriter { buf: v }
    }
}

impl PacketBufWriter {
    /// A writer that appends after the bytes of `buf`.
    pub fn new(buf: PacketBuf) -> (r: PacketBufWriter)
        ensures
            r@ == buf@,
    {
        PacketBufWriter { buf }
    }

    /// The buffer with everything written so far.
    pub fn into_inner(self) -> (r: PacketBuf)
        ensures
            r@ == self@,
    {
        self.buf
    }

    /// The buffer with everything written so far; writing to memory leaves nothing to
    /// flush, so this always succeeds.
    pub fn try_into_inner(self) -> (r: Result<PacketBuf, Error>)
        ensures
            r matches Ok(b) && b@ == self@,
    {
        Ok(self.buf)
    }

    /// Appends the in-memory bytes of `value`; returns how many were written.
    pub fn write<T: Plain>(&mut self, value: T) -> (r: Result<usize, Error>)
        ensures
            final(self)@ == old(self)@ + value.layout(),
            value.layout().len() == T::width(),
            T::from_layout(value.layout()) == value,
            r matches Ok(n) && n == T::width(),
    {
        let mut bytes = value.to_bytes();
        let n = bytes.len();
        self.buf.0.append(&mut bytes);
        Ok(n)
    }

    /// Appends a length-prefixed sequence: the count of `slice` as a `usize`, then the bytes
    /// of every value in order; returns how many bytes were written, prefix included.
    pub fn write_slice<T: Plain>(&mut self, slice: &[T]) -> (r: Result<usize, Error>)
        ensures
            final(self)@ == old(self)@ + sized_layout(slice@),
            holds_sized(sized_layout(slice@), slice@),
            r matches Ok(n) && n == sized_layout(slice@).len(),
    {
        let n = slice.len();
        let k = T::size();
        let mut out = n.to_bytes();
        let ghost w = usize::width() as int;
        let ghost prefix = out@;
        let mut i: usize = 0;
        while i < n
            invariant
                n == slice@.len(),
                k == T::width(),
                0 < k,
                0 <= i <= n,
                w == prefix.len(),
                prefix == (n as usize).layout(),
                usize::from_layout(prefix) == n,
                out@ == prefix + layout_of_seq(slice@.take(i as int)),
                out@.len() == w + i * k,
                forall|j: int|
                    0 <= j < i ==> #[trigger] T::from_layout(
                        out@.skip(w).subrange(j * k, (j + 1) * k),
                    ) == slice@[j],
            decreases n - i,
        {
            let v = slice[i];
            let mut bytes = v.to_bytes();
            let ghost before = out@;
            let ghost vb = bytes@;
            out.append(&mut bytes);
            proof {
                assert(slice@.take(i + 1).drop_last() =~= slice@.take(i as int));
                assert(slice@.take(i + 1).last() == v);
                assert(out@ =~= prefix + layout_of_seq(slice@.take(i + 1)));
                lemma_chunk_bounds(i as int, i + 1, k as int);
                assert(out@.len() == w + (i + 1) * k);
                assert forall|j: int| 0 <= j < i + 1 implies #[trigger] T::from_layout(
                    out@.skip(w).subrange(j * k, (j + 1) * k),
                ) == slice@[j] by {
                    lemma_chunk_bounds(j, i + 1, k as int);
                    lemma_chunk_bounds(j, i as int + 1, k as int);
                    if j < i {
                        lemma_chunk_bounds(j, i as int, k as int);
                        assert(out@.skip(w).subrange(j * k, (j + 1) * k) =~= before.skip(
                            w,
                        ).subrange(j * k, (j + 1) * k));
                    } else {
                        assert(out@.skip(w).subrange(j * k, (j + 1) * k) =~= vb);
                    }
                }
            }
            i = i + 1;
        }
        proof {
            assert(slice@.take(n as int) =~= slice@);
            let b = sized_layout(slice@);
            assert(b.take(w) =~= prefix);
            assert(values_of::<T>(b.skip(w), n as nat) =~= slice@);
        }
        let total = out.len();
        self.buf.0.append(&mut out);
        Ok(total)
    }

    /// Appends `bytes` as they are; returns how many were written.
    pub fn write_raw(&mut self, bytes: &[u8]) -> (r: usize)
        ensures
            final(self)@ == old(self)@ + bytes@,
            r == bytes@.len(),
    {
        self.buf.0.extend_from_slice(bytes);
        proof {
            assert(self.buf.0@ =~= old(self)@ + bytes@);
        }
        bytes.len()
    }

    /// Writing to memory leaves nothing to flush: this succeeds and changes nothing.
    pub fn flush(&mut self) -> (r: Result<(), Error>)
        ensures
            final(self)@ == old(self)@,
            r is Ok,
    {
        Ok(())
    }
}

/// Consumes values from the front of a [`PacketBuf`], each from its in-memory bytes.
#[derive(Debug)]
pub struct PacketBufReader {
    buf: PacketBuf,
    pos: usize,
}

impl View for PacketBufReader {
    type V = Seq<u8>;

    /// The bytes not read yet.
    closed spec fn view(&self) -> Seq<u8> {
        self.buf@.subrange(self.pos as int, self.buf@.len() as int)
    }
}

impl From<PacketBuf> for PacketBufReader {
    fn from(value: PacketBuf) -> PacketBufReader {
        PacketBufReader { buf: value, pos: 0 }
    }
}

impl vstd::std_specs::convert::FromSpecImpl<PacketBuf> for PacketBufReader {
    open spec fn obeys_from_spec() -> bool {
        true
    }

    closed spec fn from_spec(v: PacketBuf) -> PacketBufReader {
        PacketBufReader { buf: v, pos: 0 }
    }
}

impl PacketBufReader {
    #[verifier::type_invariant]
    closed spec fn cursor_in_bounds(&self) -> bool {
        self.pos <= self.buf@.len()
    }

    /// How many bytes have been consumed.
    pub closed spec fn position(&self) -> nat {
        self.pos as nat
    }

    /// A reader at the start of `buf`.
    pub fn new(buf: PacketBuf) -> (r: PacketBufReader)
        ensures
            r@ == buf@,
            r.position() == 0,
    {
        let r = PacketBufReader { buf, pos: 0 };
        assert(r@ =~= r.buf@);
        r
    }

    /// How many bytes are left.
    pub fn remaining(&self) -> (r: usize)
        ensures
            r == self@.len(),
    {
        proof {
            use_type_invariant(self);
        }
        self.buf.0.len() - self.pos
    }

    /// Takes `n` values off the front; there must be bytes for all of them.
    fn take_values<T: Plain>(&mut self, n: usize) -> (r: Vec<T>)
        requires
            n * T::width() <= old(self)@.len(),
        ensures
            r@ == values_of::<T>(old(self)@, n as nat),
            final(self)@ == old(self)@.skip((n * T::width()) as int),
            final(self).position() == old(self).position() + n * T::width(),
    {
        proof {
            use_type_invariant(&*self);
        }
        let k = T::size();
        let ghost start = self.pos as int;
        let ghost rem = old(self)@;
        let mut out: Vec<T> = Vec::new();
        let mut i: usize = 0;
        while i < n
            invariant
                k == T::width(),
                0 < k,
                0 <= i <= n,
                n * k <= rem.len(),
                self.buf@ == old(self).buf@,
                0 <= start <= self.buf@.len(),
                rem == self.buf@.subrange(start, self.buf@.len() as int),
                start + rem.len() == self.buf@.len(),
                self.pos == start + i * k,
                self.pos <= self.buf@.len(),
                out@ == values_of::<T>(rem, i as nat),
            decreases n - i,
        {
            proof {
                lemma_chunk_bounds(i as int, n as int, k as int);
                assert(self.pos + k <= self.buf@.len());
            }
            let bytes = self.buf.0.as_slice();
            let len = self.buf.0.len();
            assert(self.buf@.len() == len);
            let chunk = vstd::slice::slice_subrange(bytes, self.pos, self.pos + k);
            proof {
                assert(chunk@ =~= rem.subrange(i * k, (i + 1) * k));
            }
            let v = T::cast(chunk).unwrap();
            out.push(v);
            self.pos = self.pos + k;
            i = i + 1;
            proof {
                assert(out@ =~= values_of::<T>(rem, i as nat));
            }
        }
        proof {
            assert(self@ =~= rem.skip(n * k));
        }
        out
    }

    /// Reads one value from its in-memory bytes.
    ///
    /// Fails with an unexpected end, consuming nothing, when fewer than `T::width()`
    /// bytes are left.
    pub fn read<T: Plain>(&mut self) -> (r: Result<T, Error>)
        ensures
            old(self)@.len() < T::width() ==> r == Err::<T, Error>(eof()) && *final(self)
                == *old(self),
            old(self)@.len() >= T::width() ==> r == Ok::<T, Error>(
                T::from_layout(old(self)@.take(T::width() as int)),
            ) && final(self)@ == old(self)@.skip(T::width() as int) && final(self).position()
                == old(self).position() + T::width(),
    {
        let k = T::size();
        if self.remaining() < k {
            return Err(Error::IO(IoKind::UnexpectedEof));
        }
        let ghost rem = self@;
        let v = self.take_values::<T>(1);
        proof {
            assert(rem.take(k as int) =~= rem.subrange(0, k as int));
        }
        Ok(v[0])
    }

    /// Fills `buf` with the values that follow, one for each of its places; returns how
    /// many were read.
    ///
    /// Fails with an unexpected end, consuming nothing and leaving `buf` as it was, when
    /// the bytes left do not cover them all.
    pub fn read_slice<T: Plain>(&mut self, buf: &mut [T]) -> (r: Result<usize, Error>)
        ensures
            old(self)@.len() < old(buf)@.len() * T::width() ==> r == Err::<usize, Error>(eof())
                && *final(self) == *old(self) && final(buf)@ == old(buf)@,
            old(self)@.len() >= old(buf)@.len() * T::width() ==> r == Ok::<usize, Error>(
                old(buf)@.len() as usize,
            ) && final(buf)@ == values_of::<T>(old(self)@, old(buf)@.len()) && final(self)@
                == old(self)@.skip((old(buf)@.len() * T::width()) as int) && final(self).position()
                == old(self).position() + old(buf)@.len() * T::width(),
    {
        let n = buf.len();
        let k = T::size();
        let left = self.remaining();
        if n > left / k {
            proof {
                lemma_fits(n as int, left as int, k as int);
            }
            return Err(Error::IO(IoKind::UnexpectedEof));
        }
        proof {
            lemma_fits(n as int, left as int, k as int);
        }
        let vals = self.take_values::<T>(n);
        let mut i: usize = 0;
        while i < n
            invariant
                n == buf@.len(),
                vals@.len() == n,
                0 <= i <= n,
                forall|j: int| 0 <= j < i ==> buf@[j] == vals@[j],
            decreases n - i,
        {
            buf[i] = vals[i];
            i = i + 1;
        }
        proof {
            assert(buf@ =~= vals@);
        }
        Ok(n)
    }

    /// Reads a length-prefixed sequence: a `usize` count, then that many values.
    ///
    /// Fails with an unexpected end, consuming nothing, when the prefix or the values
    /// run past the end.
    pub fn read_sized<T: Plain>(&mut self) -> (r: Result<Vec<T>, Error>)
        ensures
            match sized_outcome::<T>(old(self)@) {
                None => r matches Err(e) && e == eof() && *final(self) == *old(self),
                Some((items, used)) => r matches Ok(v) && v@ == items && final(self)@ == old(
                    self,
                )@.skip(used as int) && final(self).position() == old(self).position() + used,
            },
    {
        proof {
            use_type_invariant(&*self);
        }
        let ghost rem = self@;
        let w = usize::size();
        let left = self.remaining();
        if left < w {
            return Err(Error::IO(IoKind::UnexpectedEof));
        }
        let bytes = self.buf.0.as_slice();
        let len = self.buf.0.len();
        assert(self.buf@.len() == len);
        let prefix = vstd::slice::slice_subrange(bytes, self.pos, self.pos + w);
        proof {
            assert(prefix@ =~= rem.take(w as int));
        }
        let n = usize::cast(prefix).unwrap();
        let k = T::size();
        if n > (left - w) / k {
            proof {
                lemma_fits(n as int, left - w, k as int);
            }
            return Err(Error::IO(IoKind::UnexpectedEof));
        }
        proof {
            lemma_fits(n as int, left - w, k as int);
        }
        self.pos = self.pos + w;
        proof {
            assert(self@ =~= rem.skip(w as int));
        }
        let vals = self.take_values::<T>(n);
        proof {
            assert(self@ =~= rem.skip(w + n * k));
        }
        Ok(vals)
    }

    /// Moves up to `n` bytes out as they are, fewer when fewer are left.
    pub fn read_raw(&mut self, n: usize) -> (r: Vec<u8>)
        ensures
            r@ == old(self)@.take(if n <= old(self)@.len() { n as int } else { old(self)@.len() as int }),
            final(self)@ == old(self)@.skip(r@.len() as int),
            final(self).position() == old(self).position() + r@.len(),
    {
        proof {
            use_type_invariant(&*self);
        }
        let left = self.remaining();
        let m = if n <= left { n } else { left };
        assert(self.pos + m <= self.buf@.len());
        let bytes = self.buf.0.as_slice();
        let len = self.buf.0.len();
        assert(self.buf@.len() == len);
        let chunk = vstd::slice::slice_subrange(bytes, self.pos, self.pos + m);
        let out = vstd::slice::slice_to_vec(chunk);
        let ghost rem = self@;
        self.pos = self.pos + m;
        proof {
            assert(out@ =~= rem.take(m as int));
            assert(self@ =~= rem.skip(m as int));
        }
        out
    }
}

/// A message type that frames itself into a [`PacketBuf`] and back.
pub trait PacketBufCodec: Sized {
    /// Frames `self` into a buffer.
    fn encode(self) -> Result<PacketBuf, Error>;

    /// Rebuilds a message from a buffer; fails when it is truncated or malformed.
    fn decode(buf: PacketBuf) -> Result<Self, Error>;
}

/// `n` values of `k` bytes fit in `left` bytes exactly when `n` is at most `left / k`.
proof fn lemma_fits(n: int, left: int, k: int)
    requires
        0 <= n,
        0 <= left,
        0 < k,
    ensures
        n <= left / k <==> n * k <= left,
{
    if n <= left / k {
        assert(n * k <= (left / k) * k) by (nonlinear_arith)
            requires
                n <= left / k,
                0 < k,
        ;
        assert((left / k) * k <= left) by (nonlinear_arith)
            requires
                0 <= left,
                0 < k,
        ;
    } else {
        assert(n * k > left) by (nonlinear_arith)
            requires
                n > left / k,
                0 < k,
                0 <= left,
        ;
    }
}

} // verus!
