//! A response body that is read in pieces and refused once it grows too large.
use vstd::prelude::*;

verus! {

/// The bytes that were read so far, and how many may be read.
#[derive(Debug)]
pub struct LimitedBody {
    bytes: Vec<u8>,
    max_bytes: usize,
}

impl View for LimitedBody {
    type V = Seq<u8>;

    closed spec fn view(&self) -> Seq<u8> {
        self.bytes@
    }
}

/// A body was larger than allowed.
#[derive(Debug, Clone, Copy, PartialEq, Eq)]
pub struct BodyTooLarge;

impl LimitedBody {
    /// How many bytes may be read.
    pub closed spec fn limit(self) -> nat {
        self.max_bytes as nat
    }

    /// What was read never exceeds the limit.
    #[verifier::type_invariant]
    spec fn wf(self) -> bool {
        self.bytes@.len() <= self.max_bytes
    }

    /// Begins with nothing read; refuses a body that was announced as larger than the limit.
    pub fn start(content_length: Option<u64>, max_bytes: usize) -> (r: Result<
        LimitedBody,
        BodyTooLarge,
    >)
        ensures
            r is Err <==> content_length is Some && content_length->0 > max_bytes,
            r matches Ok(body) ==> body@ == Seq::<u8>::empty() && body.limit() == max_bytes,
    {
        match content_length {
            Some(length) if length > max_bytes as u64 => Err(BodyTooLarge),
            _ => Ok(LimitedBody { bytes: Vec::new(), max_bytes }),
        }
    }

    /// Takes the next piece, if there is room for the whole of it.
    pub fn push_chunk(self, chunk: &[u8]) -> (r: Result<LimitedBody, BodyTooLarge>)
        ensures
            r is Err <==> self@.len() + chunk@.len() > self.limit(),
            r matches Ok(body) ==> body@ == self@ + chunk@ && body.limit() == self.limit(),
    {
        proof {
            use_type_invariant(&self);
        }
        if chunk.len() > self.max_bytes - self.bytes.len() {
            return Err(BodyTooLarge);
        }
        let LimitedBody { mut bytes, max_bytes } = self;
        bytes.extend_from_slice(chunk);
        Ok(LimitedBody { bytes, max_bytes })
    }

    /// How many bytes were read; never more than may be.
    pub fn len(&self) -> (n: usize)
        ensures
            n == self@.len(),
            n <= self.limit(),
    {
        proof {
            use_type_invariant(self);
        }
        self.bytes.len()
    }

    /// The whole body, once there is nothing more to read.
    pub fn into_bytes(self) -> (bytes: Vec<u8>)
        ensures
            bytes@ == self@,
            bytes@.len() <= self.limit(),
    {
        proof {
            use_type_invariant(&self);
        }
        self.bytes
    }
}

/// A body that was announced as larger than allowed is refused before anything is read of it, and
/// no other; reading begins with nothing.
pub proof fn law_announced_size_is_heeded(
    announced: Option<u64>,
    max_bytes: usize,
    r: Result<LimitedBody, BodyTooLarge>,
)
    requires
        call_ensures(LimitedBody::start, (announced, max_bytes), r),
    ensures
        announced is None ==> r is Ok,
        announced matches Some(n) ==> (r is Ok <==> n <= max_bytes),
        r matches Ok(body) ==> body@.len() == 0 && body.limit() == max_bytes,
{
}

/// A body that is read in two pieces is both pieces, one behind the other, and is refused exactly
/// where they are larger than allowed together.
pub proof fn law_body_is_its_pieces(
    max_bytes: usize,
    start: LimitedBody,
    first: &[u8],
    one: Result<LimitedBody, BodyTooLarge>,
    second: &[u8],
    two: Result<LimitedBody, BodyTooLarge>,
    bytes: Vec<u8>,
)
    requires
        call_ensures(
            LimitedBody::start,
            (None, max_bytes),
            Ok::<LimitedBody, BodyTooLarge>(start),
        ),
        call_ensures(LimitedBody::push_chunk, (start, first), one),
        one is Ok,
        call_ensures(LimitedBody::push_chunk, (one->Ok_0, second), two),
        two matches Ok(body) ==> call_ensures(LimitedBody::into_bytes, (body,), bytes),
    ensures
        two is Ok <==> first@.len() + second@.len() <= max_bytes,
        two is Ok ==> bytes@ == first@ + second@,
{
    if two is Ok {
        assert(one->Ok_0@ =~= first@);
    }
}

} // verus!
