//! Length-prefixed peer-wire frames.
//!
//! Every frame is a big-endian 4-byte length prefix followed by `length`
//! payload bytes; a length of zero is a keep-alive. The first payload byte
//! is the message id.

use vstd::prelude::*;
use vstd::slice::slice_to_vec;

verus! {

// ---------------------------------------------------------------------------
// Big-endian u32 framing helpers
// ---------------------------------------------------------------------------

pub open spec fn spec_u32_to_be_bytes(x: u32) -> Seq<u8> {
    seq![
        ((x >> 24) & 0xff) as u8,
        ((x >> 16) & 0xff) as u8,
        ((x >> 8) & 0xff) as u8,
        (x & 0xff) as u8,
    ]
}

pub open spec fn spec_u32_from_be_bytes(s: Seq<u8>) -> u32
    recommends
        s.len() == 4,
{
    ((s[0] as u32) << 24) | ((s[1] as u32) << 16) | ((s[2] as u32) << 8) | (s[3] as u32)
}

pub proof fn lemma_u32_be_bytes_roundtrip(x: u32)
    ensures
        spec_u32_to_be_bytes(x).len() == 4,
        spec_u32_from_be_bytes(spec_u32_to_be_bytes(x)) == x,
{
    assert((((((x >> 24) & 0xff) as u8) as u32) << 24) | (((((x >> 16) & 0xff) as u8) as u32)
        << 16) | (((((x >> 8) & 0xff) as u8) as u32) << 8) | ((((x & 0xff) as u8) as u32))
        == x) by (bit_vector);
}

pub fn u32_to_be_bytes(x: u32) -> (s: Vec<u8>)
    ensures
        s@ == spec_u32_to_be_bytes(x),
        s@.len() == 4,
{
    proof {
        assert((x >> 24) & 0xff < 256 && (x >> 16) & 0xff < 256 && (x >> 8) & 0xff < 256 && x
            & 0xff < 256) by (bit_vector);
    }
    let mut s: Vec<u8> = Vec::new();
    s.push(((x >> 24) & 0xff) as u8);
    s.push(((x >> 16) & 0xff) as u8);
    s.push(((x >> 8) & 0xff) as u8);
    s.push((x & 0xff) as u8);
    proof {
        assert(s@ =~= spec_u32_to_be_bytes(x));
    }
    s
}

/// Reads the big-endian u32 that starts at `offset` in `bytes`.
pub fn u32_from_be_at(bytes: &[u8], offset: usize) -> (x: u32)
    requires
        offset + 4 <= bytes@.len(),
    ensures
        x == spec_u32_from_be_bytes(bytes@.subrange(offset as int, offset + 4)),
{
    let x = ((bytes[offset] as u32) << 24) | ((bytes[offset + 1] as u32) << 16) | ((bytes[offset
        + 2] as u32) << 8) | (bytes[offset + 3] as u32);
    proof {
        let s = bytes@.subrange(offset as int, offset + 4);
        assert(s[0] == bytes@[offset as int] && s[1] == bytes@[offset + 1] && s[2] == bytes@[offset
            + 2] && s[3] == bytes@[offset + 3]);
    }
    x
}

/// Appends a copy of `src` to `dst`.
pub fn push_bytes(dst: &mut Vec<u8>, src: &Vec<u8>)
    ensures
        final(dst)@ == old(dst)@ + src@,
{
    let mut i: usize = 0;
    while i < src.len()
        invariant
            i <= src@.len(),
            dst@ == old(dst)@ + src@.take(i as int),
        decreases src@.len() - i,
    {
        dst.push(src[i]);
        i = i + 1;
        proof {
            assert(dst@ =~= old(dst)@ + src@.take(i as int));
        }
    }
    proof {
        assert(dst@ =~= old(dst)@ + src@);
    }
}

// ---------------------------------------------------------------------------
// Messages
// ---------------------------------------------------------------------------

#[derive(Debug)]
pub enum Message {
    KeepAlive,
    Choke,
    Unchoke,
    Interested,
    NotInterested,
    Have(u32),
    Bitfield(Vec<u8>),
    Request(u32, u32, u32),
    Piece(u32, u32, Vec<u8>),
    Cancel(u32, u32, u32),
}

/// The mathematical value of a wire message.
pub enum MessageView {
    KeepAlive,
    Choke,
    Unchoke,
    Interested,
    NotInterested,
    Have(u32),
    Bitfield(Seq<u8>),
    Request(u32, u32, u32),
    Piece(u32, u32, Seq<u8>),
    Cancel(u32, u32, u32),
}

impl View for Message {
    type V = MessageView;

    open spec fn view(&self) -> MessageView {
        match self {
            Message::KeepAlive => MessageView::KeepAlive,
            Message::Choke => MessageView::Choke,
            Message::Unchoke => MessageView::Unchoke,
            Message::Interested => MessageView::Interested,
            Message::NotInterested => MessageView::NotInterested,
            Message::Have(ix) => MessageView::Have(*ix),
            Message::Bitfield(bits) => MessageView::Bitfield(bits@),
            Message::Request(ix, begin, len) => MessageView::Request(*ix, *begin, *len),
            Message::Piece(ix, begin, block) => MessageView::Piece(*ix, *begin, block@),
            Message::Cancel(ix, begin, len) => MessageView::Cancel(*ix, *begin, *len),
        }
    }
}

/// A decoder error: the frame fits no message shape.
#[derive(Debug, Clone, Copy, PartialEq, Eq, Structural)]
pub enum DecodeError {
    Malformed,
}

/// The canonical length prefix fits in the 4-byte field.
pub open spec fn spec_encodable(m: MessageView) -> bool {
    match m {
        MessageView::Bitfield(bits) => bits.len() + 1 <= u32::MAX,
        MessageView::Piece(_, _, block) => block.len() + 9 <= u32::MAX,
        _ => true,
    }
}

/// The canonical encoding of a message, length prefix included.
pub open spec fn spec_encode(m: MessageView) -> Seq<u8> {
    match m {
        MessageView::KeepAlive => seq![0u8, 0u8, 0u8, 0u8],
        MessageView::Choke => seq![0u8, 0u8, 0u8, 1u8, 0u8],
        MessageView::Unchoke => seq![0u8, 0u8, 0u8, 1u8, 1u8],
        MessageView::Interested => seq![0u8, 0u8, 0u8, 1u8, 2u8],
        MessageView::NotInterested => seq![0u8, 0u8, 0u8, 1u8, 3u8],
        MessageView::Have(ix) => seq![0u8, 0u8, 0u8, 5u8, 4u8] + spec_u32_to_be_bytes(ix),
        MessageView::Bitfield(bits) => spec_u32_to_be_bytes((bits.len() + 1) as u32) + seq![5u8]
            + bits,
        MessageView::Request(ix, begin, len) => seq![0u8, 0u8, 0u8, 13u8, 6u8]
            + spec_u32_to_be_bytes(ix) + spec_u32_to_be_bytes(begin) + spec_u32_to_be_bytes(len),
        MessageView::Piece(ix, begin, block) => spec_u32_to_be_bytes((block.len() + 9) as u32)
            + seq![7u8] + spec_u32_to_be_bytes(ix) + spec_u32_to_be_bytes(begin) + block,
        MessageView::Cancel(ix, begin, len) => seq![0u8, 0u8, 0u8, 13u8, 8u8]
            + spec_u32_to_be_bytes(ix) + spec_u32_to_be_bytes(begin) + spec_u32_to_be_bytes(len),
    }
}

/// What the decoder accepts, arm by arm in the order it tries them.
pub open spec fn spec_decode(s: Seq<u8>) -> Option<MessageView> {
    if s == seq![0u8, 0u8, 0u8, 0u8] {
        Some(MessageView::KeepAlive)
    } else if s == seq![0u8, 0u8, 0u8, 1u8, 0u8] {
        Some(MessageView::Choke)
    } else if s == seq![0u8, 0u8, 0u8, 1u8, 1u8] {
        Some(MessageView::Unchoke)
    } else if s == seq![0u8, 0u8, 0u8, 1u8, 2u8] {
        Some(MessageView::Interested)
    } else if s == seq![0u8, 0u8, 0u8, 1u8, 3u8] {
        Some(MessageView::NotInterested)
    } else if s.len() == 9 && s[0] == 0 && s[1] == 0 && s[2] == 0 && s[3] == 5 && s[4] == 4 {
        Some(MessageView::Have(spec_u32_from_be_bytes(s.subrange(5, 9))))
    } else if s.len() >= 5 && s[4] == 5 {
        Some(MessageView::Bitfield(s.skip(5)))
    } else if s.len() == 17 && s[4] == 6 {
        Some(
            MessageView::Request(
                spec_u32_from_be_bytes(s.subrange(5, 9)),
                spec_u32_from_be_bytes(s.subrange(9, 13)),
                spec_u32_from_be_bytes(s.subrange(13, 17)),
            ),
        )
    } else if s.len() >= 13 && s[4] == 7 {
        Some(
            MessageView::Piece(
                spec_u32_from_be_bytes(s.subrange(5, 9)),
                spec_u32_from_be_bytes(s.subrange(9, 13)),
                s.skip(13),
            ),
        )
    } else if s.len() == 17 && s[4] == 8 {
        Some(
            MessageView::Cancel(
                spec_u32_from_be_bytes(s.subrange(5, 9)),
                spec_u32_from_be_bytes(s.subrange(9, 13)),
                spec_u32_from_be_bytes(s.subrange(13, 17)),
            ),
        )
    } else {
        None
    }
}

impl Message {
    /// Encodes the message with its canonical length prefix.
    pub fn to_bytes(&self) -> (r: Vec<u8>)
        requires
            spec_encodable(self@),
        ensures
            r@ == spec_encode(self@),
    {
        match self {
            Message::KeepAlive => {
                let mut buf: Vec<u8> = Vec::new();
                buf.push(0);
                buf.push(0);
                buf.push(0);
                buf.push(0);
                proof {
                    assert(buf@ =~= spec_encode(self@));
                }
                buf
            },
            Message::Choke => {
                let buf = fixed_frame(0);
                proof {
                    assert(buf@ =~= spec_encode(self@));
                }
                buf
            },
            Message::Unchoke => {
                let buf = fixed_frame(1);
                proof {
                    assert(buf@ =~= spec_encode(self@));
                }
                buf
            },
            Message::Interested => {
                let buf = fixed_frame(2);
                proof {
                    assert(buf@ =~= spec_encode(self@));
                }
                buf
            },
            Message::NotInterested => {
                let buf = fixed_frame(3);
                proof {
                    assert(buf@ =~= spec_encode(self@));
                }
                buf
            },
            Message::Have(piece_index) => {
                let mut buf: Vec<u8> = Vec::new();
                buf.push(0);
                buf.push(0);
                buf.push(0);
                buf.push(5);
                buf.push(4);
                let be = u32_to_be_bytes(*piece_index);
                push_bytes(&mut buf, &be);
                proof {
                    assert(buf@ =~= spec_encode(self@));
                }
                buf
            },
            Message::Bitfield(bitfield) => {
                let length: u32 = (bitfield.len() + 1) as u32;
                let mut buf = u32_to_be_bytes(length);
                buf.push(5);
                push_bytes(&mut buf, bitfield);
                proof {
                    assert(buf@ =~= spec_encode(self@));
                }
                buf
            },
            Message::Request(index, begin, length) => {
                let buf = triple_frame(6, *index, *begin, *length);
                proof {
                    assert(buf@ =~= spec_encode(self@));
                }
                buf
            },
            Message::Piece(index, begin, block) => {
                let length: u32 = (block.len() + 9) as u32;
                let mut buf = u32_to_be_bytes(length);
                buf.push(7);
                let be_index = u32_to_be_bytes(*index);
                push_bytes(&mut buf, &be_index);
                let be_begin = u32_to_be_bytes(*begin);
                push_bytes(&mut buf, &be_begin);
                push_bytes(&mut buf, block);
                proof {
                    assert(buf@ =~= spec_encode(self@));
                }
                buf
            },
            Message::Cancel(index, begin, length) => {
                let buf = triple_frame(8, *index, *begin, *length);
                proof {
                    assert(buf@ =~= spec_encode(self@));
                }
                buf
            },
        }
    }

    /// Decodes a whole frame, length prefix included, back to a message.
    pub fn from_bytes(bytes: &[u8]) -> (r: Result<Message, DecodeError>)
        ensures
            match spec_decode(bytes@) {
                Some(mv) => r matches Ok(m) && m@ == mv,
                None => r is Err,
            },
    {
        let ghost s = bytes@;
        let n = bytes.len();
        if n == 4 {
            if bytes[0] == 0 && bytes[1] == 0 && bytes[2] == 0 && bytes[3] == 0 {
                proof {
                    assert(s =~= seq![0u8, 0u8, 0u8, 0u8]);
                }
                return Ok(Message::KeepAlive);
            }
            proof {
                lemma_short_frame_rejected(s);
            }
            return Err(DecodeError::Malformed);
        }
        if n < 5 {
            proof {
                lemma_short_frame_rejected(s);
            }
            return Err(DecodeError::Malformed);
        }
        let id = bytes[4];
        if n == 5 && bytes[0] == 0 && bytes[1] == 0 && bytes[2] == 0 && bytes[3] == 1 && id <= 3 {
            proof {
                if id == 0 {
                    assert(s =~= seq![0u8, 0u8, 0u8, 1u8, 0u8]);
                } else if id == 1 {
                    assert(s =~= seq![0u8, 0u8, 0u8, 1u8, 1u8]);
                } else if id == 2 {
                    assert(s =~= seq![0u8, 0u8, 0u8, 1u8, 2u8]);
                } else {
                    assert(s =~= seq![0u8, 0u8, 0u8, 1u8, 3u8]);
                }
            }
            if id == 0 {
                return Ok(Message::Choke);
            }
            if id == 1 {
                return Ok(Message::Unchoke);
            }
            if id == 2 {
                return Ok(Message::Interested);
            }
            return Ok(Message::NotInterested);
        }
        proof {
            lemma_not_fixed_frame(s);
        }
        if n == 9 && bytes[0] == 0 && bytes[1] == 0 && bytes[2] == 0 && bytes[3] == 5 && id == 4 {
            let piece_index = u32_from_be_at(bytes, 5);
            return Ok(Message::Have(piece_index));
        }
        if id == 5 {
            let rest = slice_to_vec(&bytes[5..n]);
            proof {
                assert(rest@ =~= s.skip(5));
            }
            return Ok(Message::Bitfield(rest));
        }
        if n == 17 && id == 6 {
            let index = u32_from_be_at(bytes, 5);
            let begin = u32_from_be_at(bytes, 9);
            let length = u32_from_be_at(bytes, 13);
            return Ok(Message::Request(index, begin, length));
        }
        if n >= 13 && id == 7 {
            let index = u32_from_be_at(bytes, 5);
            let begin = u32_from_be_at(bytes, 9);
            let block = slice_to_vec(&bytes[13..n]);
            proof {
                assert(block@ =~= s.skip(13));
            }
            return Ok(Message::Piece(index, begin, block));
        }
        if n == 17 && id == 8 {
            let index = u32_from_be_at(bytes, 5);
            let begin = u32_from_be_at(bytes, 9);
            let length = u32_from_be_at(bytes, 13);
            return Ok(Message::Cancel(index, begin, length));
        }
        Err(DecodeError::Malformed)
    }
}

/// A 5-byte frame whose payload is the bare id `id`.
fn fixed_frame(id: u8) -> (r: Vec<u8>)
    ensures
        r@ =~= seq![0u8, 0u8, 0u8, 1u8, id],
{
    let mut buf: Vec<u8> = Vec::new();
    buf.push(0);
    buf.push(0);
    buf.push(0);
    buf.push(1);
    buf.push(id);
    buf
}

/// A 17-byte frame: id, then three big-endian u32 fields.
fn triple_frame(id: u8, a: u32, b: u32, c: u32) -> (r: Vec<u8>)
    ensures
        r@ =~= seq![0u8, 0u8, 0u8, 13u8, id] + spec_u32_to_be_bytes(a) + spec_u32_to_be_bytes(b)
            + spec_u32_to_be_bytes(c),
{
    let mut buf: Vec<u8> = Vec::new();
    buf.push(0);
    buf.push(0);
    buf.push(0);
    buf.push(13);
    buf.push(id);
    let be_a = u32_to_be_bytes(a);
    push_bytes(&mut buf, &be_a);
    let be_b = u32_to_be_bytes(b);
    push_bytes(&mut buf, &be_b);
    let be_c = u32_to_be_bytes(c);
    push_bytes(&mut buf, &be_c);
    buf
}

proof fn lemma_short_frame_rejected(s: Seq<u8>)
    requires
        s.len() < 5,
        s != seq![0u8, 0u8, 0u8, 0u8],
    ensures
        spec_decode(s) is None,
{
}

proof fn lemma_not_fixed_frame(s: Seq<u8>)
    requires
        s.len() >= 5,
        !(s.len() == 5 && s[0] == 0 && s[1] == 0 && s[2] == 0 && s[3] == 1 && s[4] <= 3),
    ensures
        s != seq![0u8, 0u8, 0u8, 0u8],
        s != seq![0u8, 0u8, 0u8, 1u8, 0u8],
        s != seq![0u8, 0u8, 0u8, 1u8, 1u8],
        s != seq![0u8, 0u8, 0u8, 1u8, 2u8],
        s != seq![0u8, 0u8, 0u8, 1u8, 3u8],
{
}

/// Decoding inverts encoding: every message value comes back from its own
/// canonical frame.
pub proof fn lemma_codec_round_trip(m: MessageView)
    requires
        spec_encodable(m),
    ensures
        spec_decode(spec_encode(m)) == Some(m),
{
    let s = spec_encode(m);
    match m {
        MessageView::KeepAlive => {
        },
        MessageView::Choke => {
        },
        MessageView::Unchoke => {
        },
        MessageView::Interested => {
        },
        MessageView::NotInterested => {
        },
        MessageView::Have(ix) => {
            lemma_u32_be_bytes_roundtrip(ix);
            assert(s.len() == 9);
            assert(s.subrange(5, 9) =~= spec_u32_to_be_bytes(ix));
        },
        MessageView::Bitfield(bits) => {
            let len_bytes = spec_u32_to_be_bytes((bits.len() + 1) as u32);
            lemma_u32_be_bytes_roundtrip((bits.len() + 1) as u32);
            assert(s.len() == 5 + bits.len());
            assert(s[4] == 5);
            assert(s.skip(5) =~= bits);
            if s == seq![0u8, 0u8, 0u8, 1u8, 0u8] {
                assert(s[4] == 0u8);
                assert(false);
            }
            if s == seq![0u8, 0u8, 0u8, 1u8, 1u8] {
                assert(s[4] == 1u8);
                assert(false);
            }
            if s == seq![0u8, 0u8, 0u8, 1u8, 2u8] {
                assert(s[4] == 2u8);
                assert(false);
            }
            if s == seq![0u8, 0u8, 0u8, 1u8, 3u8] {
                assert(s[4] == 3u8);
                assert(false);
            }
        },
        MessageView::Request(ix, begin, len) => {
            lemma_u32_be_bytes_roundtrip(ix);
            lemma_u32_be_bytes_roundtrip(begin);
            lemma_u32_be_bytes_roundtrip(len);
            assert(s.len() == 17);
            assert(s.subrange(5, 9) =~= spec_u32_to_be_bytes(ix));
            assert(s.subrange(9, 13) =~= spec_u32_to_be_bytes(begin));
            assert(s.subrange(13, 17) =~= spec_u32_to_be_bytes(len));
        },
        MessageView::Piece(ix, begin, block) => {
            lemma_u32_be_bytes_roundtrip((block.len() + 9) as u32);
            lemma_u32_be_bytes_roundtrip(ix);
            lemma_u32_be_bytes_roundtrip(begin);
            assert(s.len() == 13 + block.len());
            assert(s[4] == 7);
            assert(s.subrange(5, 9) =~= spec_u32_to_be_bytes(ix));
            assert(s.subrange(9, 13) =~= spec_u32_to_be_bytes(begin));
            assert(s.skip(13) =~= block);
        },
        MessageView::Cancel(ix, begin, len) => {
            lemma_u32_be_bytes_roundtrip(ix);
            lemma_u32_be_bytes_roundtrip(begin);
            lemma_u32_be_bytes_roundtrip(len);
            assert(s.len() == 17);
            assert(s[4] == 8);
            assert(s.subrange(5, 9) =~= spec_u32_to_be_bytes(ix));
            assert(s.subrange(9, 13) =~= spec_u32_to_be_bytes(begin));
            assert(s.subrange(13, 17) =~= spec_u32_to_be_bytes(len));
        },
    }
}

} // verus!
