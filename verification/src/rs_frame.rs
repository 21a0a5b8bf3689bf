use vstd::prelude::*;
use crate::bytes::extend_bytes;
use crate::bytes::read_vec;
use crate::constants::RS_BLOCK_SIZE;
use crate::constants::RS_DATA_SIZE;
use crate::constants::RS_PARITY_SIZE;
use crate::errors::CopernicaError;

verus! {

/// What the Reed-Solomon encoder returns for a data chunk: the chunk
/// followed by six parity bytes.
pub uninterp spec fn rs_encode(data: Seq<u8>) -> Seq<u8>;

/// What the Reed-Solomon decoder returns for a block: the corrected block,
/// or nothing when the block is unrecoverable.
pub uninterp spec fn rs_correct(block: Seq<u8>) -> Option<Seq<u8>>;

/// In how many places two byte strings of one length differ.
pub open spec fn spec_hamming(a: Seq<u8>, b: Seq<u8>) -> int
    recommends
        a.len() == b.len(),
    decreases a.len(),
{
    if a.len() == 0 {
        0
    } else {
        spec_hamming(a.drop_last(), b.drop_last()) + if a.last() == b.last() {
            0int
        } else {
            1int
        }
    }
}

/// Law: a byte string differs from itself nowhere.
pub proof fn lemma_hamming_self(a: Seq<u8>)
    ensures
        spec_hamming(a, a) == 0,
    decreases a.len(),
{
    if a.len() > 0 {
        lemma_hamming_self(a.drop_last());
    }
}

/// Relies on reed_solomon::Encoder::encode with six parity bytes: the code
/// is systematic — the block is the data followed by the parity — and any
/// block within three byte errors of it corrects back to it.
#[verifier::external_body]
fn rs_encode_block(data: &Vec<u8>) -> (r: Vec<u8>)
    requires
        1 <= data@.len() <= RS_DATA_SIZE,
    ensures
        r@ == rs_encode(data@),
        r@.len() == data@.len() + RS_PARITY_SIZE,
        r@.subrange(0, data@.len() as int) == data@,
        forall|m: Seq<u8>|
            m.len() == r@.len() && #[trigger] spec_hamming(m, r@) <= 3 ==> rs_correct(m) == Some(
                r@,
            ),
{
    let enc = reed_solomon::Encoder::new(RS_PARITY_SIZE);
    let buf = enc.encode(&data[..]);
    buf[..].to_vec()
}

/// Relies on reed_solomon::Decoder::correct with six parity bytes: the
/// outcome is a deterministic function of the block, and a corrected block
/// keeps its length.
#[verifier::external_body]
fn rs_correct_block(block: &Vec<u8>) -> (r: Option<Vec<u8>>)
    requires
        RS_PARITY_SIZE < block@.len() <= RS_BLOCK_SIZE,
    ensures
        match r {
            Some(v) => rs_correct(block@) == Some(v@) && v@.len() == block@.len(),
            None => rs_correct(block@) is None,
        },
{
    let dec = reed_solomon::Decoder::new(RS_PARITY_SIZE);
    match dec.correct(&block[..], None) {
        Ok(buf) => Some(buf[..].to_vec()),
        Err(_) => None,
    }
}

/// The outer frame of a byte string: each chunk of up to 249 data bytes
/// encoded into a block of up to 255 bytes.
pub open spec fn rs_frames(w: Seq<u8>) -> Seq<u8>
    decreases w.len(),
{
    if w.len() == 0 {
        Seq::<u8>::empty()
    } else if w.len() <= RS_DATA_SIZE {
        rs_encode(w)
    } else {
        rs_encode(w.subrange(0, RS_DATA_SIZE as int)) + rs_frames(
            w.subrange(RS_DATA_SIZE as int, w.len() as int),
        )
    }
}

/// What unframing a byte string yields: every block of up to 255 bytes
/// corrected independently and stripped of its parity; an unrecoverable or
/// undersized block fails the whole frame.
pub open spec fn rs_unframe(m: Seq<u8>) -> Option<Seq<u8>>
    decreases m.len(),
{
    if m.len() == 0 {
        Some(Seq::<u8>::empty())
    } else if m.len() <= RS_PARITY_SIZE {
        None
    } else if m.len() <= RS_BLOCK_SIZE {
        match rs_correct(m) {
            Some(b) => Some(b.subrange(0, m.len() - RS_PARITY_SIZE)),
            None => None,
        }
    } else {
        match rs_correct(m.subrange(0, RS_BLOCK_SIZE as int)) {
            Some(b) => match rs_unframe(m.subrange(RS_BLOCK_SIZE as int, m.len() as int)) {
                Some(rest) => Some(b.subrange(0, RS_DATA_SIZE as int) + rest),
                None => None,
            },
            None => None,
        }
    }
}

/// Whether a received byte string differs from a frame in at most three
/// places per block: the corruption the outer code undoes.
pub open spec fn spec_frames_close(m: Seq<u8>, f: Seq<u8>) -> bool
    decreases f.len(),
{
    if f.len() <= RS_BLOCK_SIZE {
        m.len() == f.len() && (f.len() > 0 ==> spec_hamming(m, f) <= 3)
    } else {
        &&& m.len() == f.len()
        &&& spec_hamming(
            m.subrange(0, RS_BLOCK_SIZE as int),
            f.subrange(0, RS_BLOCK_SIZE as int),
        ) <= 3
        &&& spec_frames_close(
            m.subrange(RS_BLOCK_SIZE as int, m.len() as int),
            f.subrange(RS_BLOCK_SIZE as int, f.len() as int),
        )
    }
}

/// Frames the suffix of a byte string that starts at the given position.
/// Unframing the result gives the suffix back — and so does unframing any
/// corruption of the result that stays within three bytes per block.
pub fn rs_frame_from(w: &Vec<u8>, start: usize) -> (out: Vec<u8>)
    requires
        start <= w@.len(),
    ensures
        out@ == rs_frames(w@.subrange(start as int, w@.len() as int)),
        rs_unframe(out@) == Some(w@.subrange(start as int, w@.len() as int)),
        forall|m: Seq<u8>|
            #[trigger] spec_frames_close(m, out@) ==> rs_unframe(m) == Some(
                w@.subrange(start as int, w@.len() as int),
            ),
    decreases w@.len() - start,
{
    let n = w.len();
    if start == n {
        let out: Vec<u8> = Vec::new();
        proof {
            assert(w@.subrange(start as int, w@.len() as int) =~= Seq::<u8>::empty());
        }
        return out;
    }
    let chunk_len: usize = if n - start < RS_DATA_SIZE {
        n - start
    } else {
        RS_DATA_SIZE
    };
    let chunk = read_vec(w, start, chunk_len);
    let mut out = rs_encode_block(&chunk);
    let ghost block_v: Seq<u8> = out@;
    let rest = rs_frame_from(w, start + chunk_len);
    extend_bytes(&mut out, rest.as_slice());
    proof {
        let suffix = w@.subrange(start as int, w@.len() as int);
        let block = rs_encode(chunk@);
        lemma_hamming_self(block);
        assert(spec_hamming(block, block_v) <= 3);
        assert(rs_correct(block) == Some(block));
        if n - start <= RS_DATA_SIZE {
            assert(suffix =~= chunk@);
            assert(rest@ =~= Seq::<u8>::empty());
            assert(out@ =~= block);
            assert(rs_unframe(out@) == Some(block.subrange(0, out@.len() - RS_PARITY_SIZE)));
            assert(block.subrange(0, block.len() - RS_PARITY_SIZE) =~= chunk@);
        } else {
            assert(suffix.subrange(0, RS_DATA_SIZE as int) =~= chunk@);
            assert(suffix.subrange(RS_DATA_SIZE as int, suffix.len() as int) =~= w@.subrange(
                start + RS_DATA_SIZE,
                w@.len() as int,
            ));
            assert(out@ =~= block + rest@);
            assert(out@.len() == RS_BLOCK_SIZE + rest@.len());
            assert(out@.subrange(0, RS_BLOCK_SIZE as int) =~= block);
            assert(out@.subrange(RS_BLOCK_SIZE as int, out@.len() as int) =~= rest@);
            if rest@.len() == 0 {
                assert(rs_unframe(out@) == Some(block.subrange(0, RS_DATA_SIZE as int)));
                assert(block.subrange(0, RS_DATA_SIZE as int) =~= chunk@);
                assert(chunk@ + w@.subrange(start + RS_DATA_SIZE, w@.len() as int) =~= suffix);
            } else {
                assert(rs_unframe(out@) matches Some(v) && v == block.subrange(
                    0,
                    RS_DATA_SIZE as int,
                ) + w@.subrange(start + RS_DATA_SIZE, w@.len() as int));
                assert(block.subrange(0, RS_DATA_SIZE as int) =~= chunk@);
                assert(chunk@ + w@.subrange(start + RS_DATA_SIZE, w@.len() as int) =~= suffix);
            }
        }
        if n - start > RS_DATA_SIZE {
            assert(w@.subrange(start + RS_DATA_SIZE, w@.len() as int).len() > 0);
            if rest@.len() == 0 {
                assert(rs_unframe(rest@) == Some(Seq::<u8>::empty()));
                assert(false);
            }
        }
        assert forall|m: Seq<u8>|
            #[trigger] spec_frames_close(m, out@) implies rs_unframe(m) == Some(suffix) by {
            if n - start <= RS_DATA_SIZE {
                assert(out@ == block_v);
                assert(m.len() == out@.len());
                assert(spec_hamming(m, block_v) <= 3);
                assert(rs_correct(m) == Some(block_v));
                assert(RS_PARITY_SIZE < m.len() <= RS_BLOCK_SIZE);
                assert(rs_unframe(m) == Some(block_v.subrange(0, m.len() - RS_PARITY_SIZE)));
                assert(block_v.subrange(0, chunk_len as int) =~= chunk@);
                assert(suffix =~= chunk@);
            } else {
                let m0 = m.subrange(0, RS_BLOCK_SIZE as int);
                let mrest = m.subrange(RS_BLOCK_SIZE as int, m.len() as int);
                assert(out@.len() > RS_BLOCK_SIZE);
                assert(out@.subrange(0, RS_BLOCK_SIZE as int) == block_v);
                assert(spec_hamming(m0, block_v) <= 3);
                assert(m0.len() == block_v.len());
                assert(rs_correct(m0) == Some(block_v));
                assert(out@.subrange(RS_BLOCK_SIZE as int, out@.len() as int) == rest@);
                assert(spec_frames_close(mrest, rest@));
                assert(rs_unframe(mrest) == Some(
                    w@.subrange(start + chunk_len, w@.len() as int),
                ));
                assert(m.len() > RS_BLOCK_SIZE);
                assert(rs_unframe(m) == Some(
                    block_v.subrange(0, RS_DATA_SIZE as int) + w@.subrange(
                        start + RS_DATA_SIZE,
                        w@.len() as int,
                    ),
                ));
                assert(block_v.subrange(0, RS_DATA_SIZE as int) =~= chunk@);
                assert(chunk@ + w@.subrange(start + RS_DATA_SIZE, w@.len() as int) =~= suffix);
            }
        }
    }
    out
}

/// Unframes the suffix of a received byte string that starts at the given
/// position: corrects each block and keeps its data bytes.
pub fn rs_unframe_from(msg: &Vec<u8>, start: usize) -> (r: Result<Vec<u8>, CopernicaError>)
    requires
        start <= msg@.len(),
    ensures
        match r {
            Ok(v) => rs_unframe(msg@.subrange(start as int, msg@.len() as int)) == Some(v@),
            Err(e) => rs_unframe(msg@.subrange(start as int, msg@.len() as int)) is None && e
                == CopernicaError::CodecError,
        },
    decreases msg@.len() - start,
{
    let n = msg.len();
    if start == n {
        proof {
            assert(msg@.subrange(start as int, msg@.len() as int) =~= Seq::<u8>::empty());
        }
        return Ok(Vec::new());
    }
    let block_len: usize = if n - start < RS_BLOCK_SIZE {
        n - start
    } else {
        RS_BLOCK_SIZE
    };
    if block_len <= RS_PARITY_SIZE {
        return Err(CopernicaError::CodecError);
    }
    let block = read_vec(msg, start, block_len);
    let corrected = match rs_correct_block(&block) {
        Some(b) => b,
        None => {
            proof {
                let suffix = msg@.subrange(start as int, msg@.len() as int);
                if n - start > RS_BLOCK_SIZE {
                    assert(suffix.subrange(0, RS_BLOCK_SIZE as int) =~= block@);
                } else {
                    assert(suffix =~= block@);
                }
            }
            return Err(CopernicaError::CodecError);
        },
    };
    let keep: usize = block_len - RS_PARITY_SIZE;
    let mut data = read_vec(&corrected, 0, keep);
    let rest = match rs_unframe_from(msg, start + block_len) {
        Ok(v) => v,
        Err(e) => {
            proof {
                let suffix = msg@.subrange(start as int, msg@.len() as int);
                if n - start > RS_BLOCK_SIZE {
                    assert(suffix.subrange(0, RS_BLOCK_SIZE as int) =~= block@);
                    assert(suffix.subrange(RS_BLOCK_SIZE as int, suffix.len() as int)
                        =~= msg@.subrange(start + RS_BLOCK_SIZE, msg@.len() as int));
                }
            }
            return Err(e);
        },
    };
    extend_bytes(&mut data, rest.as_slice());
    proof {
        let suffix = msg@.subrange(start as int, msg@.len() as int);
        if n - start > RS_BLOCK_SIZE {
            assert(suffix.subrange(0, RS_BLOCK_SIZE as int) =~= block@);
            assert(suffix.subrange(RS_BLOCK_SIZE as int, suffix.len() as int) =~= msg@.subrange(
                start + RS_BLOCK_SIZE,
                msg@.len() as int,
            ));
            assert(data@ =~= corrected@.subrange(0, RS_DATA_SIZE as int) + rest@);
        } else {
            assert(suffix =~= block@);
            assert(rest@ =~= Seq::<u8>::empty());
            assert(data@ =~= corrected@.subrange(0, suffix.len() - RS_PARITY_SIZE));
        }
    }
    Ok(data)
}

} // verus!
