//! The byte codec for the envelope: a deterministic, self-delimiting binary
//! layout.  `encode` is total; `decode` accepts exactly the encodings that
//! `encode` produces and reports a `CodecError` on everything else, so a
//! malformed frame can never crash a connection loop.
//!
//! Layout, in order: a one-byte success flag (0 or 1); the command as a
//! length-prefixed UTF-8 string; the optional text, the optional argument
//! list and the optional payload, each behind a one-byte presence tag (0 or
//! 1).  Every length prefix is a little-endian `u64`; the argument list is
//! prefixed with its element count.

use vstd::prelude::*;
use vstd::bytes::{
    spec_u64_from_le_bytes, spec_u64_to_le_bytes, lemma_auto_spec_u64_to_from_le_bytes,
    u64_from_le_bytes, u64_to_le_bytes,
};
use vstd::utf8::{decode_utf8, encode_utf8, encode_utf8_decode_utf8, encode_utf8_valid_utf8,
    valid_utf8};
use vstd::slice::{slice_subrange, slice_to_vec};
use crate::message::{MessageView, WebsocketMessage};

verus! {

/// Why a frame failed to decode; `expected` says what the decoder was
/// looking for at the point of failure.
#[derive(Debug, Clone, PartialEq, Eq)]
pub enum CodecError {
    /// The frame ended before the field that was expected next.
    Truncated,
    /// A flag byte held something other than 0 or 1.
    BadTag,
    /// A string field did not hold valid UTF-8.
    BadUtf8,
    /// Well-formed fields were followed by extra bytes.
    TrailingBytes,
}

impl CodecError {
    /// What the decoder expected, for logging.
    pub fn expected(&self) -> (r: String)
        ensures
            match self {
                CodecError::Truncated => r@ == "more bytes for the next field"@,
                CodecError::BadTag => r@ == "a flag byte holding 0 or 1"@,
                CodecError::BadUtf8 => r@ == "a valid utf-8 string field"@,
                CodecError::TrailingBytes => r@ == "no bytes after the last field"@,
            },
    {
        match self {
            CodecError::Truncated => "more bytes for the next field".to_owned(),
            CodecError::BadTag => "a flag byte holding 0 or 1".to_owned(),
            CodecError::BadUtf8 => "a valid utf-8 string field".to_owned(),
            CodecError::TrailingBytes => "no bytes after the last field".to_owned(),
        }
    }
}

// ---------------------------------------------------------------------------
// The encoding, as a mathematical function of the envelope model.
// ---------------------------------------------------------------------------

pub open spec fn enc_u64(n: u64) -> Seq<u8> {
    spec_u64_to_le_bytes(n)
}

pub open spec fn enc_bytes(b: Seq<u8>) -> Seq<u8> {
    enc_u64(b.len() as u64) + b
}

pub open spec fn enc_str(s: Seq<char>) -> Seq<u8> {
    enc_bytes(encode_utf8(s))
}

pub open spec fn enc_tag(present: bool) -> Seq<u8> {
    if present {
        seq![1u8]
    } else {
        seq![0u8]
    }
}

pub open spec fn enc_opt_str(t: Option<Seq<char>>) -> Seq<u8> {
    match t {
        None => enc_tag(false),
        Some(s) => enc_tag(true) + enc_str(s),
    }
}

pub open spec fn enc_str_list(ss: Seq<Seq<char>>) -> Seq<u8>
    decreases ss.len(),
{
    if ss.len() == 0 {
        Seq::empty()
    } else {
        enc_str(ss[0]) + enc_str_list(ss.drop_first())
    }
}

pub open spec fn enc_opt_args(a: Option<Seq<Seq<char>>>) -> Seq<u8> {
    match a {
        None => enc_tag(false),
        Some(ss) => enc_tag(true) + enc_u64(ss.len() as u64) + enc_str_list(ss),
    }
}

pub open spec fn enc_opt_bytes(p: Option<Seq<u8>>) -> Seq<u8> {
    match p {
        None => enc_tag(false),
        Some(b) => enc_tag(true) + enc_bytes(b),
    }
}

pub open spec fn spec_encode(v: MessageView) -> Seq<u8> {
    enc_tag(v.success) + enc_str(v.cmd) + enc_opt_str(v.text) + enc_opt_args(v.args)
        + enc_opt_bytes(v.payload)
}

/// Every length that the encoding writes as a `u64` prefix actually fits in
/// a `u64`.  Any envelope held in memory satisfies this; `encode`
/// establishes it.
pub open spec fn codec_bounds(v: MessageView) -> bool {
    &&& encode_utf8(v.cmd).len() <= u64::MAX
    &&& match v.text {
        None => true,
        Some(t) => encode_utf8(t).len() <= u64::MAX,
    }
    &&& match v.args {
        None => true,
        Some(ss) => ss.len() <= u64::MAX && forall|i: int|
            0 <= i < ss.len() ==> encode_utf8(#[trigger] ss[i]).len() <= u64::MAX,
    }
    &&& match v.payload {
        None => true,
        Some(b) => b.len() <= u64::MAX,
    }
}

// ---------------------------------------------------------------------------
// The decoding, as a mathematical function over a byte cursor.  Each part
// returns the value read and the bytes that remain, or nothing when the
// input cannot have come from the encoder.
// ---------------------------------------------------------------------------

pub open spec fn dec_u64(b: Seq<u8>) -> Option<(u64, Seq<u8>)> {
    if b.len() >= 8 {
        Some((spec_u64_from_le_bytes(b.subrange(0, 8)), b.skip(8)))
    } else {
        None
    }
}

pub open spec fn dec_tag(b: Seq<u8>) -> Option<(bool, Seq<u8>)> {
    if b.len() >= 1 && (b[0] == 0u8 || b[0] == 1u8) {
        Some((b[0] == 1u8, b.skip(1)))
    } else {
        None
    }
}

pub open spec fn dec_bytes(b: Seq<u8>) -> Option<(Seq<u8>, Seq<u8>)> {
    match dec_u64(b) {
        None => None,
        Some((n, rest)) => if rest.len() >= n {
            Some((rest.take(n as int), rest.skip(n as int)))
        } else {
            None
        },
    }
}

pub open spec fn dec_str(b: Seq<u8>) -> Option<(Seq<char>, Seq<u8>)> {
    match dec_bytes(b) {
        None => None,
        Some((bs, rest)) => if valid_utf8(bs) {
            Some((decode_utf8(bs), rest))
        } else {
            None
        },
    }
}

pub open spec fn dec_opt_str(b: Seq<u8>) -> Option<(Option<Seq<char>>, Seq<u8>)> {
    match dec_tag(b) {
        None => None,
        Some((present, rest)) => if !present {
            Some((None, rest))
        } else {
            match dec_str(rest) {
                None => None,
                Some((s, rest2)) => Some((Some(s), rest2)),
            }
        },
    }
}

pub open spec fn dec_str_list(b: Seq<u8>, n: nat) -> Option<(Seq<Seq<char>>, Seq<u8>)>
    decreases n,
{
    if n == 0 {
        Some((Seq::empty(), b))
    } else {
        match dec_str(b) {
            None => None,
            Some((s, rest)) => match dec_str_list(rest, (n - 1) as nat) {
                None => None,
                Some((ss, rest2)) => Some((seq![s] + ss, rest2)),
            },
        }
    }
}

pub open spec fn dec_opt_args(b: Seq<u8>) -> Option<(Option<Seq<Seq<char>>>, Seq<u8>)> {
    match dec_tag(b) {
        None => None,
        Some((present, rest)) => if !present {
            Some((None, rest))
        } else {
            match dec_u64(rest) {
                None => None,
                Some((n, rest2)) => match dec_str_list(rest2, n as nat) {
                    None => None,
                    Some((ss, rest3)) => Some((Some(ss), rest3)),
                },
            }
        },
    }
}

pub open spec fn dec_opt_bytes(b: Seq<u8>) -> Option<(Option<Seq<u8>>, Seq<u8>)> {
    match dec_tag(b) {
        None => None,
        Some((present, rest)) => if !present {
            Some((None, rest))
        } else {
            match dec_bytes(rest) {
                None => None,
                Some((bs, rest2)) => Some((Some(bs), rest2)),
            }
        },
    }
}

pub open spec fn spec_decode(b: Seq<u8>) -> Option<MessageView> {
    match dec_tag(b) {
        None => None,
        Some((success, r1)) => match dec_str(r1) {
            None => None,
            Some((cmd, r2)) => match dec_opt_str(r2) {
                None => None,
                Some((text, r3)) => match dec_opt_args(r3) {
                    None => None,
                    Some((args, r4)) => match dec_opt_bytes(r4) {
                        None => None,
                        Some((payload, r5)) => if r5.len() == 0 {
                            Some(MessageView { success, cmd, text, args, payload })
                        } else {
                            None
                        },
                    },
                },
            },
        },
    }
}

// ---------------------------------------------------------------------------
// The executable encoder.
// ---------------------------------------------------------------------------

fn push_u64(out: &mut Vec<u8>, n: u64)
    ensures
        final(out)@ == old(out)@ + enc_u64(n),
{
    let mut b = u64_to_le_bytes(n);
    out.append(&mut b);
}

fn push_tag(out: &mut Vec<u8>, present: bool)
    ensures
        final(out)@ == old(out)@ + enc_tag(present),
{
    if present {
        out.push(1u8);
    } else {
        out.push(0u8);
    }
    assert(out@ =~= old(out)@ + enc_tag(present));
}

fn push_bytes(out: &mut Vec<u8>, b: &Vec<u8>)
    ensures
        final(out)@ == old(out)@ + enc_bytes(b@),
        b@.len() <= u64::MAX,
{
    let len = b.len();
    assert(len <= usize::MAX && usize::MAX <= u64::MAX);
    push_u64(out, len as u64);
    out.extend_from_slice(b.as_slice());
    assert(out@ =~= old(out)@ + enc_bytes(b@));
}

fn push_str(out: &mut Vec<u8>, s: &String)
    ensures
        final(out)@ == old(out)@ + enc_str(s@),
        encode_utf8(s@).len() <= u64::MAX,
{
    let b = s.as_str().as_bytes_vec();
    push_bytes(out, &b);
}

/// Encode an envelope into one binary frame.  The result is exactly the
/// mathematical encoding of the envelope's model, so `decode` recovers the
/// envelope from it (see `lemma_codec_round_trip`).
#[verifier::rlimit(100)]
pub fn encode(msg: &WebsocketMessage) -> (r: Vec<u8>)
    ensures
        r@ == spec_encode(msg@),
        codec_bounds(msg@),
{
    let mut out: Vec<u8> = Vec::new();
    push_tag(&mut out, msg.success);
    push_str(&mut out, &msg.cmd);
    match &msg.text {
        None => push_tag(&mut out, false),
        Some(t) => {
            push_tag(&mut out, true);
            push_str(&mut out, t);
        },
    }
    match &msg.args {
        None => push_tag(&mut out, false),
        Some(list) => {
            push_tag(&mut out, true);
            let n_args = list.len();
            assert(n_args <= usize::MAX && usize::MAX <= u64::MAX);
            push_u64(&mut out, n_args as u64);
            let ghost ss = list.deep_view();
            let ghost prefix = out@;
            let mut i: usize = 0;
            while i < list.len()
                invariant
                    0 <= i <= list.len(),
                    ss == list.deep_view(),
                    ss.len() == list@.len(),
                    out@ == prefix + enc_str_list(ss.take(i as int)),
                    forall|j: int|
                        0 <= j < i ==> encode_utf8(#[trigger] ss[j]).len() <= u64::MAX,
                decreases list.len() - i,
            {
                push_str(&mut out, &list[i]);
                proof {
                    lemma_enc_str_list_take_step(ss, i as int);
                }
                i = i + 1;
            }
            proof {
                assert(ss.take(list.len() as int) =~= ss);
            }
        },
    }
    match &msg.payload {
        None => push_tag(&mut out, false),
        Some(p) => {
            push_tag(&mut out, true);
            push_bytes(&mut out, p);
        },
    }
    proof {
        assert(out@ =~= spec_encode(msg@));
    }
    out
}

/// Encoding one more string extends the encoding of the list's prefix.
proof fn lemma_enc_str_list_take_step(ss: Seq<Seq<char>>, i: int)
    requires
        0 <= i < ss.len(),
    ensures
        enc_str_list(ss.take(i + 1)) == enc_str_list(ss.take(i)) + enc_str(ss[i]),
    decreases i,
{
    let t1 = ss.take(i + 1);
    if i == 0 {
        assert(t1.drop_first() =~= ss.take(0));
        assert(enc_str_list(ss.take(0)) + enc_str(ss[0]) =~= enc_str(ss[0]));
        assert(enc_str_list(t1) == enc_str(t1[0]) + enc_str_list(t1.drop_first()));
        assert(enc_str_list(t1.drop_first()) =~= Seq::<u8>::empty());
        assert(enc_str_list(t1) =~= enc_str(ss[0]));
    } else {
        lemma_enc_str_list_take_step(ss.drop_first(), i - 1);
        assert(t1.drop_first() =~= ss.drop_first().take(i));
        assert(ss.take(i).drop_first() =~= ss.drop_first().take(i - 1));
        assert(ss.drop_first()[i - 1] == ss[i]);
        assert(enc_str_list(t1) == enc_str(ss[0]) + enc_str_list(ss.drop_first().take(i)));
        assert(enc_str_list(ss.take(i)) == enc_str(ss[0]) + enc_str_list(
            ss.drop_first().take(i - 1),
        ));
        assert(enc_str(ss[0]) + (enc_str_list(ss.drop_first().take(i - 1)) + enc_str(ss[i]))
            =~= (enc_str(ss[0]) + enc_str_list(ss.drop_first().take(i - 1))) + enc_str(ss[i]));
    }
}

// ---------------------------------------------------------------------------
// The executable decoder.
// ---------------------------------------------------------------------------

/// Relies on std's `String::from_utf8`: it succeeds exactly on valid UTF-8,
/// and the returned string's UTF-8 encoding is the given bytes.
#[verifier::external_body]
fn string_from_utf8_bytes(v: Vec<u8>) -> (r: Option<String>)
    ensures
        match r {
            Some(s) => encode_utf8(s@) == v@,
            None => !valid_utf8(v@),
        },
{
    String::from_utf8(v).ok()
}

fn read_tag(bytes: &Vec<u8>, pos: usize) -> (r: Result<(bool, usize), CodecError>)
    requires
        pos <= bytes@.len(),
    ensures
        match r {
            Ok((v, p2)) => dec_tag(bytes@.skip(pos as int)) == Some((v, bytes@.skip(p2 as int)))
                && pos < p2 <= bytes@.len(),
            Err(_) => dec_tag(bytes@.skip(pos as int)) is None,
        },
{
    proof {
        assert(bytes@.skip(pos as int).len() == bytes@.len() - pos);
    }
    if pos < bytes.len() {
        let b = bytes[pos];
        proof {
            assert(bytes@.skip(pos as int)[0] == bytes@[pos as int]);
            assert(bytes@.skip(pos as int).skip(1) =~= bytes@.skip(pos as int + 1));
        }
        if b == 0u8 {
            Ok((false, pos + 1))
        } else if b == 1u8 {
            Ok((true, pos + 1))
        } else {
            Err(CodecError::BadTag)
        }
    } else {
        Err(CodecError::Truncated)
    }
}

fn read_u64(bytes: &Vec<u8>, pos: usize) -> (r: Result<(u64, usize), CodecError>)
    requires
        pos <= bytes@.len(),
    ensures
        match r {
            Ok((v, p2)) => dec_u64(bytes@.skip(pos as int)) == Some((v, bytes@.skip(p2 as int)))
                && pos < p2 <= bytes@.len(),
            Err(_) => dec_u64(bytes@.skip(pos as int)) is None,
        },
{
    proof {
        assert(bytes@.skip(pos as int).len() == bytes@.len() - pos);
    }
    if bytes.len() - pos >= 8 {
        let part = slice_subrange(bytes.as_slice(), pos, pos + 8);
        let v = u64_from_le_bytes(part);
        proof {
            assert(bytes@.skip(pos as int).subrange(0, 8) =~= bytes@.subrange(
                pos as int,
                pos as int + 8,
            ));
            assert(bytes@.skip(pos as int).skip(8) =~= bytes@.skip(pos as int + 8));
        }
        Ok((v, pos + 8))
    } else {
        Err(CodecError::Truncated)
    }
}

fn read_bytes(bytes: &Vec<u8>, pos: usize) -> (r: Result<(Vec<u8>, usize), CodecError>)
    requires
        pos <= bytes@.len(),
    ensures
        match r {
            Ok((v, p2)) => dec_bytes(bytes@.skip(pos as int)) == Some((v@, bytes@.skip(p2 as int)))
                && pos < p2 <= bytes@.len(),
            Err(_) => dec_bytes(bytes@.skip(pos as int)) is None,
        },
{
    let (n, p1) = match read_u64(bytes, pos) {
        Ok(v) => v,
        Err(e) => {
            return Err(e);
        },
    };
    if n <= (bytes.len() - p1) as u64 {
        let end = p1 + (n as usize);
        let part = slice_to_vec(slice_subrange(bytes.as_slice(), p1, end));
        proof {
            assert(bytes@.skip(p1 as int).take(n as int) =~= bytes@.subrange(
                p1 as int,
                end as int,
            ));
            assert(bytes@.skip(p1 as int).skip(n as int) =~= bytes@.skip(end as int));
        }
        Ok((part, end))
    } else {
        proof {
            assert(bytes@.skip(p1 as int).len() == bytes@.len() - p1);
        }
        Err(CodecError::Truncated)
    }
}

fn read_str(bytes: &Vec<u8>, pos: usize) -> (r: Result<(String, usize), CodecError>)
    requires
        pos <= bytes@.len(),
    ensures
        match r {
            Ok((s, p2)) => dec_str(bytes@.skip(pos as int)) == Some((s@, bytes@.skip(p2 as int)))
                && pos < p2 <= bytes@.len(),
            Err(_) => dec_str(bytes@.skip(pos as int)) is None,
        },
{
    let (bs, p2) = match read_bytes(bytes, pos) {
        Ok(v) => v,
        Err(e) => {
            return Err(e);
        },
    };
    let ghost bsv = bs@;
    match string_from_utf8_bytes(bs) {
        Some(s) => {
            proof {
                encode_utf8_valid_utf8(s@);
                encode_utf8_decode_utf8(s@);
            }
            Ok((s, p2))
        },
        None => Err(CodecError::BadUtf8),
    }
}

/// Decode one binary frame back into an envelope.  It returns `Ok` exactly
/// on the frames that `encode` produces; anything else is rejected with a
/// `CodecError`, never a panic.
#[verifier::rlimit(100)]
pub fn decode(bytes: &Vec<u8>) -> (r: Result<WebsocketMessage, CodecError>)
    ensures
        match r {
            Ok(m) => spec_decode(bytes@) == Some(m@),
            Err(_) => spec_decode(bytes@) is None,
        },
{
    proof {
        assert(bytes@.skip(0) =~= bytes@);
    }
    let (success, p1) = match read_tag(bytes, 0) {
        Ok(v) => v,
        Err(e) => {
            return Err(e);
        },
    };
    let (cmd, p2) = match read_str(bytes, p1) {
        Ok(v) => v,
        Err(e) => {
            return Err(e);
        },
    };
    let (text, p3) = match read_tag(bytes, p2) {
        Ok((true, p)) => match read_str(bytes, p) {
            Ok((t, p_next)) => (Some(t), p_next),
            Err(e) => {
                return Err(e);
            },
        },
        Ok((false, p)) => (None, p),
        Err(e) => {
            return Err(e);
        },
    };
    let (args, p4) = match read_tag(bytes, p3) {
        Ok((true, p)) => match read_args(bytes, p) {
            Ok((list, p_next)) => (Some(list), p_next),
            Err(e) => {
                return Err(e);
            },
        },
        Ok((false, p)) => (None, p),
        Err(e) => {
            return Err(e);
        },
    };
    let (payload, p5) = match read_tag(bytes, p4) {
        Ok((true, p)) => match read_bytes(bytes, p) {
            Ok((b, p_next)) => (Some(b), p_next),
            Err(e) => {
                return Err(e);
            },
        },
        Ok((false, p)) => (None, p),
        Err(e) => {
            return Err(e);
        },
    };
    if p5 != bytes.len() {
        proof {
            assert(bytes@.skip(p5 as int).len() == bytes@.len() - p5);
        }
        return Err(CodecError::TrailingBytes);
    }
    let m = WebsocketMessage { success, cmd, text, args, payload };
    proof {
        assert(bytes@.skip(p5 as int).len() == 0);
        assert(spec_decode(bytes@) matches Some(v) && v =~~= m@);
    }
    Ok(m)
}

/// Read a count-prefixed list of strings.
fn read_args(bytes: &Vec<u8>, pos: usize) -> (r: Result<(Vec<String>, usize), CodecError>)
    requires
        pos <= bytes@.len(),
    ensures
        match r {
            Ok((list, p2)) => ({
                &&& match dec_u64(bytes@.skip(pos as int)) {
                    Some((n, rest)) => dec_str_list(rest, n as nat) == Some::<(
                        Seq<Seq<char>>,
                        Seq<u8>,
                    )>((list.deep_view(), bytes@.skip(p2 as int))),
                    None => false,
                }
                &&& pos < p2 <= bytes@.len()
            }),
            Err(_) => ({
                ||| dec_u64(bytes@.skip(pos as int)) is None
                ||| (match dec_u64(bytes@.skip(pos as int)) {
                    Some((n, rest)) => dec_str_list(rest, n as nat) is None,
                    None => false,
                })
            }),
        },
{
    let (n, p0) = match read_u64(bytes, pos) {
        Ok(v) => v,
        Err(e) => {
            return Err(e);
        },
    };
    let mut list: Vec<String> = Vec::new();
    let mut p: usize = p0;
    let mut i: u64 = 0;
    while i < n
        invariant
            0 <= i <= n,
            pos < p0 <= p <= bytes@.len(),
            dec_u64(bytes@.skip(pos as int)) == Some((n, bytes@.skip(p0 as int))),
            list.deep_view().len() == i,
            dec_str_list(bytes@.skip(p0 as int), n as nat) == (match dec_str_list(
                bytes@.skip(p as int),
                (n - i) as nat,
            ) {
                Some((ss, rest)) => Some((list.deep_view() + ss, rest)),
                None => None::<(Seq<Seq<char>>, Seq<u8>)>,
            }),
        decreases n - i,
    {
        let ghost old_list = list.deep_view();
        let (s, p_next) = match read_str(bytes, p) {
            Ok(v) => v,
            Err(_) => {
                return Err(CodecError::Truncated);
            },
        };
        list.push(s);
        proof {
            assert(list.deep_view() =~= old_list.push(s@));
            assert forall|ss2: Seq<Seq<char>>|
                true implies old_list + (seq![s@] + ss2) =~= old_list.push(s@) + ss2 by {
            }
        }
        p = p_next;
        i = i + 1;
    }
    proof {
        assert(dec_str_list(bytes@.skip(p as int), 0) == Some((
            Seq::<Seq<char>>::empty(),
            bytes@.skip(p as int),
        )));
        assert(list.deep_view() + Seq::<Seq<char>>::empty() =~= list.deep_view());
    }
    Ok((list, p))
}

// ---------------------------------------------------------------------------
// The codec round trip: decoding an encoding yields the original envelope.
// ---------------------------------------------------------------------------

proof fn lemma_dec_tag_enc(p: bool, t: Seq<u8>)
    ensures
        dec_tag(enc_tag(p) + t) == Some((p, t)),
{
    let w = enc_tag(p) + t;
    assert(w[0] == if p {
        1u8
    } else {
        0u8
    });
    assert(w.skip(1) =~= t);
}

proof fn lemma_dec_u64_enc(n: u64, t: Seq<u8>)
    ensures
        dec_u64(enc_u64(n) + t) == Some((n, t)),
{
    lemma_auto_spec_u64_to_from_le_bytes();
    let w = enc_u64(n) + t;
    assert(w.subrange(0, 8) =~= enc_u64(n));
    assert(w.skip(8) =~= t);
}

proof fn lemma_dec_bytes_enc(b: Seq<u8>, t: Seq<u8>)
    requires
        b.len() <= u64::MAX,
    ensures
        dec_bytes(enc_bytes(b) + t) == Some((b, t)),
{
    let n = b.len() as u64;
    assert(enc_bytes(b) + t =~= enc_u64(n) + (b + t));
    lemma_dec_u64_enc(n, b + t);
    assert((b + t).take(n as int) =~= b);
    assert((b + t).skip(n as int) =~= t);
}

proof fn lemma_dec_str_enc(s: Seq<char>, t: Seq<u8>)
    requires
        encode_utf8(s).len() <= u64::MAX,
    ensures
        dec_str(enc_str(s) + t) == Some((s, t)),
{
    lemma_dec_bytes_enc(encode_utf8(s), t);
    encode_utf8_valid_utf8(s);
    encode_utf8_decode_utf8(s);
}

proof fn lemma_dec_str_list_enc(ss: Seq<Seq<char>>, t: Seq<u8>)
    requires
        forall|i: int| 0 <= i < ss.len() ==> encode_utf8(#[trigger] ss[i]).len() <= u64::MAX,
    ensures
        dec_str_list(enc_str_list(ss) + t, ss.len()) == Some((ss, t)),
    decreases ss.len(),
{
    if ss.len() == 0 {
        assert(enc_str_list(ss) + t =~= t);
    } else {
        let dd = ss.drop_first();
        assert(enc_str_list(ss) + t =~= enc_str(ss[0]) + (enc_str_list(dd) + t));
        lemma_dec_str_enc(ss[0], enc_str_list(dd) + t);
        assert(forall|i: int| 0 <= i < dd.len() ==> dd[i] == ss[i + 1]);
        lemma_dec_str_list_enc(dd, t);
        assert(seq![ss[0]] + dd =~= ss);
    }
}

/// The codec round trip: for every envelope model within the codec's length
/// bounds (which every envelope held in memory meets, and which `encode`
/// establishes), decoding the encoding yields the envelope back.
#[verifier::rlimit(100)]
#[verifier::spinoff_prover]
pub proof fn lemma_codec_round_trip(v: MessageView)
    requires
        codec_bounds(v),
    ensures
        spec_decode(spec_encode(v)) == Some(v),
{
    let t5 = Seq::<u8>::empty();
    let t4 = enc_opt_bytes(v.payload) + t5;
    let t3 = enc_opt_args(v.args) + t4;
    let t2 = enc_opt_str(v.text) + t3;
    let t1 = enc_str(v.cmd) + t2;
    let w = enc_tag(v.success) + t1;
    assert(w =~= spec_encode(v));
    lemma_dec_tag_enc(v.success, t1);
    lemma_dec_str_enc(v.cmd, t2);
    // the optional text
    match v.text {
        None => {
            lemma_dec_tag_enc(false, t3);
            assert(t2 =~= enc_tag(false) + t3);
        },
        Some(s) => {
            assert(t2 =~= enc_tag(true) + (enc_str(s) + t3));
            lemma_dec_tag_enc(true, enc_str(s) + t3);
            lemma_dec_str_enc(s, t3);
        },
    }
    assert(dec_opt_str(t2) == Some((v.text, t3)));
    // the optional argument list
    match v.args {
        None => {
            lemma_dec_tag_enc(false, t4);
            assert(t3 =~= enc_tag(false) + t4);
        },
        Some(ss) => {
            let n = ss.len() as u64;
            assert(t3 =~= enc_tag(true) + (enc_u64(n) + (enc_str_list(ss) + t4)));
            lemma_dec_tag_enc(true, enc_u64(n) + (enc_str_list(ss) + t4));
            lemma_dec_u64_enc(n, enc_str_list(ss) + t4);
            lemma_dec_str_list_enc(ss, t4);
            assert(n as nat == ss.len());
        },
    }
    assert(dec_opt_args(t3) == Some((v.args, t4)));
    // the optional payload
    match v.payload {
        None => {
            lemma_dec_tag_enc(false, t5);
            assert(t4 =~= enc_tag(false) + t5);
        },
        Some(b) => {
            assert(t4 =~= enc_tag(true) + (enc_bytes(b) + t5));
            lemma_dec_tag_enc(true, enc_bytes(b) + t5);
            lemma_dec_bytes_enc(b, t5);
        },
    }
    assert(dec_opt_bytes(t4) == Some((v.payload, t5)));
    assert(spec_decode(w) matches Some(d) && d =~~= v);
}

} // verus!
