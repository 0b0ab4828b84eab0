use vstd::prelude::*;

verus! {

/// `bytes::Bytes`, the immutable byte buffer that a value is serialized into.
#[verifier::external_type_specification]
#[verifier::external_body]
pub struct ExBytes(bytes::Bytes);

/// The bytes that a `bytes::Bytes` buffer holds, in order.
pub uninterp spec fn bytes_content(b: bytes::Bytes) -> Seq<u8>;

/// Relies on `impl From<Bytes> for Vec<u8>` of the `bytes` crate: the vector
/// holds exactly the bytes of the buffer, in the same order.
#[verifier::external_body]
fn bytes_into_vec(b: bytes::Bytes) -> (r: Vec<u8>)
    ensures
        r@ == bytes_content(b),
{
    Vec::from(b)
}

/// Relies on `impl From<Vec<u8>> for Bytes` of the `bytes` crate: the buffer
/// holds exactly the bytes of the vector, in the same order.
#[verifier::external_body]
fn bytes_from_vec(v: Vec<u8>) -> (r: bytes::Bytes)
    ensures
        bytes_content(r) == v@,
{
    bytes::Bytes::from(v)
}

/// What one attempt to parse a value from the bytes received so far found.
pub enum Parsed<T> {
    /// The bytes hold exactly one complete value.
    Complete(T),
    /// The bytes are the start of a value; more are needed.
    Incomplete,
    /// The bytes can never become a value.
    Malformed,
}

/// A value that can be turned into bytes. Doing so consumes it.
pub trait ToBytes: Sized {
    /// The bytes that stand for this value.
    spec fn byte_image(&self) -> Seq<u8>;

    fn to_bytes(self) -> (r: bytes::Bytes)
        ensures
            bytes_content(r) == self.byte_image(),
    ;
}

/// A value that can be parsed from the bytes read off a stream.
pub trait FromBytes: Sized {
    /// What parsing the byte sequence `buf` finds.
    spec fn parse_spec(buf: Seq<u8>) -> Parsed<Self>;

    fn from_bytes(buf: &[u8]) -> (r: Parsed<Self>)
        ensures
            r == Self::parse_spec(buf@),
    ;
}

/// A value that travels over a stream: its byte image parses back to the value
/// itself, and no shorter prefix of that image is a complete value, so a reader
/// knows where the value ends without any framing of its own.
pub trait Streamable: ToBytes + FromBytes {
    proof fn lemma_image_parses(m: Self)
        ensures
            Self::parse_spec(m.byte_image()) == Parsed::Complete(m),
            forall|i: int|
                0 <= i < m.byte_image().len() ==> #[trigger] Self::parse_spec(
                    m.byte_image().take(i),
                ) == Parsed::<Self>::Incomplete,
    ;
}

/// Serializes `m`, consuming it, into the bytes to be written to a stream.
pub fn encode<T: ToBytes>(m: T) -> (r: Vec<u8>)
    ensures
        r@ == m.byte_image(),
{
    bytes_into_vec(m.to_bytes())
}

/// The four bytes of `v`, most significant first.
pub open spec fn be_bytes(v: u32) -> Seq<u8> {
    seq![(v >> 24u32) as u8, (v >> 16u32) as u8, (v >> 8u32) as u8, v as u8]
}

/// The number whose bytes, most significant first, are `b0`, `b1`, `b2`, `b3`.
pub open spec fn be_value(b0: u8, b1: u8, b2: u8, b3: u8) -> u32 {
    ((b0 as u32) << 24u32) | ((b1 as u32) << 16u32) | ((b2 as u32) << 8u32) | (b3 as u32)
}

/// A `u32` travels as its four bytes in network byte order.
impl ToBytes for u32 {
    open spec fn byte_image(&self) -> Seq<u8> {
        be_bytes(*self)
    }

    fn to_bytes(self) -> (r: bytes::Bytes) {
        let v: Vec<u8> = vec![(self >> 24u32) as u8, (self >> 16u32) as u8, (self >> 8u32) as u8, self as u8];
        assert(v@ =~= be_bytes(self));
        bytes_from_vec(v)
    }
}

impl FromBytes for u32 {
    open spec fn parse_spec(buf: Seq<u8>) -> Parsed<u32> {
        if buf.len() < 4 {
            Parsed::Incomplete
        } else if buf.len() == 4 {
            Parsed::Complete(be_value(buf[0], buf[1], buf[2], buf[3]))
        } else {
            Parsed::Malformed
        }
    }

    fn from_bytes(buf: &[u8]) -> (r: Parsed<u32>) {
        if buf.len() < 4 {
            Parsed::Incomplete
        } else if buf.len() == 4 {
            Parsed::Complete(
                ((buf[0] as u32) << 24u32) | ((buf[1] as u32) << 16u32) | ((buf[2] as u32) << 8u32)
                    | (buf[3] as u32),
            )
        } else {
            Parsed::Malformed
        }
    }
}

impl Streamable for u32 {
    proof fn lemma_image_parses(m: u32) {
        let (b0, b1, b2, b3) = ((m >> 24u32) as u8, (m >> 16u32) as u8, (m >> 8u32) as u8, m as u8);
        assert(be_value(b0, b1, b2, b3) == m) by (bit_vector)
            requires
                b0 == (m >> 24u32) as u8,
                b1 == (m >> 16u32) as u8,
                b2 == (m >> 8u32) as u8,
                b3 == m as u8,
        ;
        assert forall|i: int| 0 <= i < be_bytes(m).len() implies #[trigger] Self::parse_spec(
            be_bytes(m).take(i),
        ) == Parsed::<u32>::Incomplete by {
            assert(be_bytes(m).take(i).len() < 4);
        }
    }
}

/// Why reading a value failed.
#[derive(Clone, Copy, Debug, PartialEq, Eq, Structural)]
pub enum ReadFault {
    /// The stream ended before a complete value arrived.
    Closed,
    /// The bytes received can never become a value.
    Malformed,
}

/// What a reader does next.
pub enum ReadStep<T> {
    /// Read one more byte from the stream.
    NeedMore,
    /// One value has been read.
    Value(T),
    /// Reading failed.
    Fault(ReadFault),
}

/// The outcome of reading with `buf` received so far, `ended` telling whether
/// the stream has reported its end.
pub open spec fn read_outcome<T: FromBytes>(buf: Seq<u8>, ended: bool) -> ReadStep<T> {
    match T::parse_spec(buf) {
        Parsed::Complete(v) => ReadStep::Value(v),
        Parsed::Malformed => ReadStep::Fault(ReadFault::Malformed),
        Parsed::Incomplete => if ended {
            ReadStep::Fault(ReadFault::Closed)
        } else {
            ReadStep::NeedMore
        },
    }
}

/// Collects the bytes of one value as they come off a stream.
///
/// The caller feeds it one byte at a time and asks after each what to do, so
/// that no byte past the end of the value is taken from the stream.
pub struct ValueReader {
    buf: Vec<u8>,
    ended: bool,
}

impl ValueReader {
    /// The bytes received so far.
    pub closed spec fn received(&self) -> Seq<u8> {
        self.buf@
    }

    /// Whether the stream has reported its end.
    pub closed spec fn has_ended(&self) -> bool {
        self.ended
    }

    pub fn new() -> (r: ValueReader)
        ensures
            r.received() == Seq::<u8>::empty(),
            !r.has_ended(),
    {
        ValueReader { buf: Vec::new(), ended: false }
    }

    /// Records one byte read from the stream.
    pub fn push(&mut self, byte: u8)
        requires
            !old(self).has_ended(),
        ensures
            final(self).received() == old(self).received().push(byte),
            !final(self).has_ended(),
    {
        self.buf.push(byte);
    }

    /// Records that the stream has ended.
    pub fn end(&mut self)
        ensures
            final(self).received() == old(self).received(),
            final(self).has_ended(),
    {
        self.ended = true;
    }

    /// Decides, from the bytes received, whether a value is complete, the
    /// reading has failed, or another byte is needed.
    pub fn step<T: FromBytes>(&self) -> (r: ReadStep<T>)
        ensures
            r == read_outcome::<T>(self.received(), self.has_ended()),
    {
        match T::from_bytes(self.buf.as_slice()) {
            Parsed::Complete(v) => ReadStep::Value(v),
            Parsed::Malformed => ReadStep::Fault(ReadFault::Malformed),
            Parsed::Incomplete => if self.ended {
                ReadStep::Fault(ReadFault::Closed)
            } else {
                ReadStep::NeedMore
            },
        }
    }
}

/// Reading the byte image of a value off a stream that delivers it whole gives
/// back that very value, whether or not the stream ends right after it, and no
/// byte before the last one completes a value.
pub proof fn lemma_round_trip<T: Streamable>(m: T)
    ensures
        read_outcome::<T>(m.byte_image(), false) == ReadStep::Value(m),
        read_outcome::<T>(m.byte_image(), true) == ReadStep::Value(m),
        forall|i: int|
            0 <= i < m.byte_image().len() ==> #[trigger] read_outcome::<T>(
                m.byte_image().take(i),
                false,
            ) == ReadStep::<T>::NeedMore,
{
    T::lemma_image_parses(m);
    assert forall|i: int| 0 <= i < m.byte_image().len() implies #[trigger] read_outcome::<T>(
        m.byte_image().take(i),
        false,
    ) == ReadStep::<T>::NeedMore by {
        assert(T::parse_spec(m.byte_image().take(i)) == Parsed::<T>::Incomplete);
    }
}

} // verus!
