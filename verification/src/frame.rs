use vstd::prelude::*;

verus! {

/// The four little-endian bytes of `n`.
pub open spec fn le_bytes(n: u32) -> Seq<u8> {
    seq![
        (n % 256) as u8,
        (n / 256 % 256) as u8,
        (n / 65536 % 256) as u8,
        (n / 16777216) as u8,
    ]
}

/// The number four little-endian bytes stand for.
pub open spec fn le_value(b: Seq<u8>) -> int {
    b[0] + 256 * b[1] + 65536 * b[2] + 16777216 * b[3]
}

/// A framed record: its length as a 32-bit little-endian number (modulo 2^32), then
/// the record itself.
pub open spec fn frame(payload: Seq<u8>) -> Seq<u8> {
    le_bytes((payload.len() % 4294967296) as u32) + payload
}

/// Records framed one after the other.
pub open spec fn frame_all(payloads: Seq<Seq<u8>>) -> Seq<u8>
    decreases payloads.len(),
{
    if payloads.len() == 0 {
        Seq::empty()
    } else {
        frame(payloads[0]) + frame_all(payloads.drop_first())
    }
}

/// Why a stream of framed records cannot be read.
#[derive(Clone, Copy, Debug, PartialEq, Eq, Structural)]
pub enum FrameError {
    /// A record is shorter than its length prefix says.
    Truncated,
}

/// The records of a stream: a length prefix, then that many bytes, and so on. The
/// stream ends where fewer than four bytes are left (they are ignored); a record cut
/// short is an error.
#[verifier::opaque]
pub open spec fn unframe(bytes: Seq<u8>) -> Result<Seq<Seq<u8>>, FrameError>
    decreases bytes.len(),
{
    if bytes.len() < 4 {
        Ok(Seq::empty())
    } else {
        let n = le_value(bytes.take(4));
        let m = 4 + n;
        if bytes.len() - 4 < n {
            Err(FrameError::Truncated)
        } else {
            match unframe(bytes.skip(m)) {
                Ok(rest) => Ok(seq![bytes.subrange(4, m)] + rest),
                Err(e) => Err(e),
            }
        }
    }
}

/// `records` put in front of what `rest` yields.
pub open spec fn prepend(records: Seq<Seq<u8>>, rest: Result<Seq<Seq<u8>>, FrameError>) -> Result<
    Seq<Seq<u8>>,
    FrameError,
> {
    match rest {
        Ok(r) => Ok(records + r),
        Err(e) => Err(e),
    }
}

/// Frame one record: its length as four little-endian bytes, then its bytes. A
/// length of 2^32 or more is written modulo 2^32.
pub fn encode_frame(payload: &[u8]) -> (out: Vec<u8>)
    ensures
        out@ == frame(payload@),
{
    let n: u32 = ((payload.len() as u64) % 4294967296u64) as u32;
    let mut out: Vec<u8> = Vec::new();
    out.push((n % 256) as u8);
    out.push((n / 256 % 256) as u8);
    out.push((n / 65536 % 256) as u8);
    out.push((n / 16777216) as u8);
    let mut i: usize = 0;
    while i < payload.len()
        invariant
            i <= payload.len(),
            out@ == le_bytes(n) + payload@.take(i as int),
        decreases payload.len() - i,
    {
        out.push(payload[i]);
        i = i + 1;
        assert(out@ =~= le_bytes(n) + payload@.take(i as int));
    }
    assert(payload@.take(payload.len() as int) =~= payload@);
    out
}

/// Read back every record of a stream of framed records.
pub fn decode_frames(bytes: &[u8]) -> (r: Result<Vec<Vec<u8>>, FrameError>)
    ensures
        match r {
            Ok(records) => unframe(bytes@) == Ok::<Seq<Seq<u8>>, FrameError>(
                records@.map_values(|v: Vec<u8>| v@),
            ),
            Err(e) => unframe(bytes@) == Err::<Seq<Seq<u8>>, FrameError>(e),
        },
{
    let mut out: Vec<Vec<u8>> = Vec::new();
    let mut pos: usize = 0;
    proof {
        reveal(unframe);
        assert(bytes@.skip(0) =~= bytes@);
        assert(out@.map_values(|v: Vec<u8>| v@) =~= Seq::<Seq<u8>>::empty());
        let r0 = unframe(bytes@);
        if r0 is Ok {
            assert(Seq::<Seq<u8>>::empty() + r0->Ok_0 =~= r0->Ok_0);
        }
    }
    while bytes.len() - pos >= 4
        invariant
            pos <= bytes.len(),
            unframe(bytes@) == prepend(out@.map_values(|v: Vec<u8>| v@), unframe(bytes@.skip(pos as int))),
        decreases bytes.len() - pos,
    {
        let ghost rest = bytes@.skip(pos as int);
        proof {
            reveal(unframe);
        }
        let n: usize = bytes[pos] as usize + 256 * (bytes[pos + 1] as usize) + 65536 * (
        bytes[pos + 2] as usize) + 16777216 * (bytes[pos + 3] as usize);
        assert(rest.take(4) =~= bytes@.subrange(pos as int, pos + 4));
        assert(n == le_value(rest.take(4)));
        if bytes.len() - pos - 4 < n {
            return Err(FrameError::Truncated);
        }
        let mut rec: Vec<u8> = Vec::new();
        let mut i: usize = 0;
        while i < n
            invariant
                i <= n,
                pos + 4 + n <= bytes.len(),
                rec@ == bytes@.subrange(pos + 4, pos + 4 + i),
            decreases n - i,
        {
            rec.push(bytes[pos + 4 + i]);
            i = i + 1;
            assert(rec@ =~= bytes@.subrange(pos + 4, pos + 4 + i));
        }
        let ghost prev = out@;
        out.push(rec);
        proof {
            assert(rest.subrange(4, 4 + n as int) =~= rec@);
            assert(rest.skip(4 + n as int) =~= bytes@.skip(pos + 4 + n));
            assert(out@.map_values(|v: Vec<u8>| v@) =~= prev.map_values(|v: Vec<u8>| v@) + seq![rec@]);
            let after = unframe(bytes@.skip(pos + 4 + n));
            if after is Ok {
                let tail = after->Ok_0;
                assert((prev.map_values(|v: Vec<u8>| v@) + seq![rec@]) + tail
                    =~= prev.map_values(|v: Vec<u8>| v@) + (seq![rec@] + tail));
            }
        }
        pos = pos + 4 + n;
    }
    proof {
        reveal(unframe);
        assert(unframe(bytes@.skip(pos as int)) == Ok::<Seq<Seq<u8>>, FrameError>(Seq::empty()));
        assert(out@.map_values(|v: Vec<u8>| v@) + Seq::<Seq<u8>>::empty() =~= out@.map_values(|v: Vec<u8>| v@));
    }
    Ok(out)
}

/// Four little-endian bytes read back as the number they were written from.
pub proof fn lemma_le_round_trip(n: u32)
    ensures
        le_value(le_bytes(n)) == n,
{
    let b = le_bytes(n);
    assert(b[0] == n % 256);
    assert(b[1] == n / 256 % 256);
    assert(b[2] == n / 65536 % 256);
    assert(b[3] == n / 16777216);
    assert((n % 256) + 256 * (n / 256 % 256) + 65536 * (n / 65536 % 256) + 16777216 * (n / 16777216)
        == n) by (bit_vector);
}

proof fn lemma_unframe_first(p: Seq<u8>, rest: Seq<u8>)
    requires
        p.len() < 4294967296,
    ensures
        unframe(frame(p) + rest) == prepend(seq![p], unframe(rest)),
{
    reveal(unframe);
    let bytes = frame(p) + rest;
    let n = p.len();
    let hdr = le_bytes(n as u32);
    assert(frame(p) == hdr + p);
    assert(bytes =~= hdr + (p + rest));
    assert(bytes.take(4) =~= hdr);
    lemma_le_round_trip(n as u32);
    assert(le_value(bytes.take(4)) == n);
    assert(bytes.subrange(4, 4 + n as int) =~= p);
    assert(bytes.skip(4 + n as int) =~= rest);
}

/// Round trip: records framed one after the other read back as exactly those
/// records, provided each is shorter than 2^32 bytes.
pub proof fn lemma_frames_round_trip(payloads: Seq<Seq<u8>>)
    requires
        forall|i: int| 0 <= i < payloads.len() ==> payloads[i].len() < 4294967296,
    ensures
        unframe(frame_all(payloads)) == Ok::<Seq<Seq<u8>>, FrameError>(payloads),
    decreases payloads.len(),
{
    if payloads.len() == 0 {
        reveal(unframe);
        assert(frame_all(payloads).len() == 0);
        assert(payloads =~= Seq::<Seq<u8>>::empty());
    } else {
        let p = payloads[0];
        let rest = payloads.drop_first();
        assert forall|i: int| 0 <= i < rest.len() implies rest[i].len() < 4294967296 by {
            assert(rest[i] == payloads[i + 1]);
        }
        lemma_frames_round_trip(rest);
        assert(frame_all(payloads) == frame(p) + frame_all(rest));
        lemma_unframe_first(p, frame_all(rest));
        assert(seq![p] + rest =~= payloads);
    }
}

} // verus!
