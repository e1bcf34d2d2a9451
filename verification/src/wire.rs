//! The envelope exchanged with the subject, on the wire.
//!
//! Requests and responses travel as binary messages made of numbered fields:
//! each field is a varint-encoded tag (field number and wire type), followed
//! by its value. Every field this harness reads is length-delimited (wire
//! type 2); varint, 64-bit and 32-bit fields are skipped, group wire types
//! are rejected. Within the response, fields 1 through 9 form the result
//! choice, of which the last occurrence wins: parse error (1), runtime error
//! (2), encoded payload (3), JSON text (4), skip reason (5), serialize error
//! (6), JSPB text (7), text-format text (8), timeout error (9). Within the
//! request, field 4 names the message type the payload decodes into.

use crate::strutil::{push_char, u64_string};
use vstd::prelude::*;
use vstd::utf8::{decode_utf8, valid_utf8};

verus! {

/// A varint holds up to 10 bytes of 7 value bits each.
pub const MAX_VARINT_BYTES: u64 = 10;

/// Decodes a base-128 varint at the front of `s`, reading at most `max`
/// bytes: the value and the number of bytes consumed, or `None` when the
/// input ends inside the varint, the byte budget runs out, or the value
/// overflows 64 bits.
pub open spec fn spec_parse_varint(s: Seq<u8>, max: nat) -> Option<(u64, int)>
    decreases max,
{
    if s.len() == 0 || max == 0 {
        None
    } else if s[0] < 0x80 {
        Some((s[0] as u64, 1))
    } else {
        match spec_parse_varint(s.drop_first(), (max - 1) as nat) {
            None => None,
            Some((v, c)) => if v <= 0x01ff_ffff_ffff_ffffu64 {
                Some((((v * 0x80) + (s[0] - 0x80)) as u64, c + 1))
            } else {
                None
            },
        }
    }
}

pub proof fn lemma_varint_bounds(s: Seq<u8>, max: nat)
    ensures
        spec_parse_varint(s, max) matches Some((v, c)) ==> 1 <= c <= max && c <= s.len(),
    decreases max,
{
    if s.len() != 0 && max != 0 && s[0] >= 0x80 {
        lemma_varint_bounds(s.drop_first(), (max - 1) as nat);
    }
}

/// Reads a varint at `pos`, mirroring [`spec_parse_varint`] on the bytes
/// from `pos` on.
fn read_varint(buf: &Vec<u8>, pos: usize, fuel: u64) -> (r: Option<(u64, usize)>)
    requires
        pos <= buf@.len(),
        fuel <= MAX_VARINT_BYTES,
    ensures
        ({
            let sp = spec_parse_varint(buf@.skip(pos as int), fuel as nat);
            match r {
                None => sp is None,
                Some((v, c)) => sp == Some((v, c as int)),
            }
        }),
    decreases fuel,
{
    proof {
        lemma_varint_bounds(buf@.skip(pos as int), fuel as nat);
    }
    if pos == buf.len() || fuel == 0 {
        return None;
    }
    let b = buf[pos];
    proof {
        assert(buf@.skip(pos as int)[0] == buf@[pos as int]);
    }
    if b < 0x80 {
        return Some((b as u64, 1));
    }
    proof {
        assert(buf@.skip(pos as int).drop_first() =~= buf@.skip(pos as int + 1));
    }
    match read_varint(buf, pos + 1, fuel - 1) {
        None => None,
        Some((v, c)) => {
            if v <= 0x01ff_ffff_ffff_ffffu64 {
                proof {
                    lemma_varint_bounds(buf@.skip(pos as int + 1), (fuel - 1) as nat);
                }
                Some((v * 0x80 + (b - 0x80) as u64, c + 1))
            } else {
                None
            }
        },
    }
}

/// Splits a message into its length-delimited fields, as (field number,
/// bytes) pairs in order; varint, 64-bit and 32-bit fields are skipped, and
/// `None` is the decode error: a truncated field, an overlong varint, or a
/// group or unknown wire type.
pub open spec fn spec_parse_fields(s: Seq<u8>) -> Option<Seq<(u64, Seq<u8>)>>
    decreases s.len(),
    via spec_parse_fields_dec
{
    if s.len() == 0 {
        Some(Seq::empty())
    } else {
        match spec_parse_varint(s, MAX_VARINT_BYTES as nat) {
            None => None,
            Some((tag, c)) => {
                let wt = tag % 8;
                let num = tag / 8;
                let rest = s.skip(c);
                if wt == 2 {
                    match spec_parse_varint(rest, MAX_VARINT_BYTES as nat) {
                        None => None,
                        Some((len, c2)) => if len as int <= rest.len() - c2 {
                            match spec_parse_fields(rest.skip(c2 + len as int)) {
                                None => None,
                                Some(fs) => Some(
                                    seq![(num, rest.skip(c2).take(len as int))] + fs,
                                ),
                            }
                        } else {
                            None
                        },
                    }
                } else if wt == 0 {
                    match spec_parse_varint(rest, MAX_VARINT_BYTES as nat) {
                        None => None,
                        Some((_, c2)) => spec_parse_fields(rest.skip(c2)),
                    }
                } else if wt == 1 {
                    if rest.len() >= 8 {
                        spec_parse_fields(rest.skip(8))
                    } else {
                        None
                    }
                } else if wt == 5 {
                    if rest.len() >= 4 {
                        spec_parse_fields(rest.skip(4))
                    } else {
                        None
                    }
                } else {
                    None
                }
            },
        }
    }
}

#[via_fn]
proof fn spec_parse_fields_dec(s: Seq<u8>) {
    lemma_varint_bounds(s, MAX_VARINT_BYTES as nat);
    if s.len() != 0 {
        if let Some((tag, c)) = spec_parse_varint(s, MAX_VARINT_BYTES as nat) {
            lemma_varint_bounds(s.skip(c), MAX_VARINT_BYTES as nat);
        }
    }
}

/// One length-delimited field as read off the wire.
pub struct RawField {
    pub num: u64,
    pub data: Vec<u8>,
}

/// The (field number, bytes) pairs a field list stands for.
pub open spec fn fields_view(fs: Seq<RawField>) -> Seq<(u64, Seq<u8>)> {
    fs.map_values(|f: RawField| (f.num, f.data@))
}

/// Splits a message into its length-delimited fields, mirroring
/// [`spec_parse_fields`].
pub fn parse_fields(buf: &Vec<u8>) -> (r: Option<Vec<RawField>>)
    ensures
        match r {
            Some(fs) => spec_parse_fields(buf@) == Some(fields_view(fs@)),
            None => spec_parse_fields(buf@) is None,
        },
{
    let end: usize = buf.len();
    let mut out: Vec<RawField> = Vec::new();
    let mut pos: usize = 0;
    proof {
        assert(buf@.skip(0) =~= buf@);
        assert(fields_view(out@) =~= Seq::<(u64, Seq<u8>)>::empty());
    }
    while pos < end
        invariant
            pos <= end,
            end == buf@.len(),
            spec_parse_fields(buf@) == (match spec_parse_fields(buf@.skip(pos as int)) {
                None => None::<Seq<(u64, Seq<u8>)>>,
                Some(fs) => Some(fields_view(out@) + fs),
            }),
        decreases end - pos,
    {
        let ghost tail = buf@.skip(pos as int);
        let (tag, c) = match read_varint(buf, pos, MAX_VARINT_BYTES) {
            None => {
                return None;
            },
            Some(tc) => tc,
        };
        proof {
            lemma_varint_bounds(tail, MAX_VARINT_BYTES as nat);
            assert(tail.skip(c as int) =~= buf@.skip(pos + c));
        }
        let wt = tag % 8;
        let num = tag / 8;
        let pos2 = pos + c;
        let ghost rest = buf@.skip(pos2 as int);
        if wt == 2 {
            let (flen, c2) = match read_varint(buf, pos2, MAX_VARINT_BYTES) {
                None => {
                    return None;
                },
                Some(lc) => lc,
            };
            proof {
                lemma_varint_bounds(rest, MAX_VARINT_BYTES as nat);
            }
            let avail = end - pos2 - c2;
            if flen > avail as u64 {
                return None;
            }
            let dstart = pos2 + c2;
            let dlen = flen as usize;
            let mut data: Vec<u8> = Vec::new();
            let mut k: usize = 0;
            while k < dlen
                invariant
                    k <= dlen,
                    dstart + dlen <= end,
                    end == buf@.len(),
                    data@ =~= buf@.subrange(dstart as int, dstart + k as int),
                decreases dlen - k,
            {
                data.push(buf[dstart + k]);
                k = k + 1;
            }
            let ghost old_out = out@;
            out.push(RawField { num, data });
            proof {
                assert(rest.skip(c2 as int).take(flen as int) =~= buf@.subrange(
                    dstart as int,
                    dstart + dlen as int,
                ));
                assert(rest.skip(c2 + flen as int) =~= buf@.skip(dstart + dlen));
                assert(fields_view(out@) =~= fields_view(old_out).push(
                    (num, buf@.subrange(dstart as int, dstart + dlen as int)),
                ));
                assert forall|fs: Seq<(u64, Seq<u8>)>|
                    fields_view(old_out) + (seq![(num, rest.skip(c2 as int).take(flen as int))]
                        + fs) =~= fields_view(out@) + fs by {}
            }
            pos = dstart + dlen;
        } else if wt == 0 {
            let (_, c2) = match read_varint(buf, pos2, MAX_VARINT_BYTES) {
                None => {
                    return None;
                },
                Some(lc) => lc,
            };
            proof {
                lemma_varint_bounds(rest, MAX_VARINT_BYTES as nat);
                assert(rest.skip(c2 as int) =~= buf@.skip(pos2 + c2));
            }
            pos = pos2 + c2;
        } else if wt == 1 {
            if end - pos2 < 8 {
                return None;
            }
            proof {
                assert(rest.skip(8) =~= buf@.skip(pos2 + 8));
            }
            pos = pos2 + 8;
        } else if wt == 5 {
            if end - pos2 < 4 {
                return None;
            }
            proof {
                assert(rest.skip(4) =~= buf@.skip(pos2 + 4));
            }
            pos = pos2 + 4;
        } else {
            return None;
        }
    }
    proof {
        assert(buf@.skip(pos as int) =~= Seq::<u8>::empty());
        assert(spec_parse_fields(Seq::<u8>::empty()) == Some(Seq::<(u64, Seq<u8>)>::empty()));
        assert(fields_view(out@) + Seq::<(u64, Seq<u8>)>::empty() =~= fields_view(out@));
    }
    Some(out)
}

/// What the subject answered for one case: exactly one of a re-encoded
/// payload, JSON text, text-format text, JSPB text, a skip reason, or one of
/// four error kinds, each carrying free text.
pub enum Response {
    ProtobufPayload(Vec<u8>),
    JsonPayload(String),
    TextPayload(String),
    JspbPayload(String),
    ParseError(String),
    RuntimeError(String),
    SerializeError(String),
    TimeoutError(String),
    Skipped(String),
}

/// The mathematical shape of a [`Response`].
pub enum RespModel {
    ProtobufPayload(Seq<u8>),
    JsonPayload(Seq<char>),
    TextPayload(Seq<char>),
    JspbPayload(Seq<char>),
    ParseError(Seq<char>),
    RuntimeError(Seq<char>),
    SerializeError(Seq<char>),
    TimeoutError(Seq<char>),
    Skipped(Seq<char>),
}

impl View for Response {
    type V = RespModel;

    open spec fn view(&self) -> RespModel {
        match self {
            Response::ProtobufPayload(b) => RespModel::ProtobufPayload(b@),
            Response::JsonPayload(t) => RespModel::JsonPayload(t@),
            Response::TextPayload(t) => RespModel::TextPayload(t@),
            Response::JspbPayload(t) => RespModel::JspbPayload(t@),
            Response::ParseError(t) => RespModel::ParseError(t@),
            Response::RuntimeError(t) => RespModel::RuntimeError(t@),
            Response::SerializeError(t) => RespModel::SerializeError(t@),
            Response::TimeoutError(t) => RespModel::TimeoutError(t@),
            Response::Skipped(t) => RespModel::Skipped(t@),
        }
    }
}

impl Response {
    /// Whether this is one of the four error kinds.
    pub fn is_err(&self) -> (r: bool)
        ensures
            r == (self@ is ParseError || self@ is RuntimeError || self@ is TimeoutError || self@
                is SerializeError),
    {
        match self {
            Response::ParseError(_) => true,
            Response::RuntimeError(_) => true,
            Response::TimeoutError(_) => true,
            Response::SerializeError(_) => true,
            _ => false,
        }
    }

    pub fn is_parse_error(&self) -> (r: bool)
        ensures
            r == (self@ is ParseError),
    {
        match self {
            Response::ParseError(_) => true,
            _ => false,
        }
    }

    pub fn is_serialize_error(&self) -> (r: bool)
        ensures
            r == (self@ is SerializeError),
    {
        match self {
            Response::SerializeError(_) => true,
            _ => false,
        }
    }

    pub fn is_skipped(&self) -> (r: bool)
        ensures
            r == (self@ is Skipped),
    {
        if let Response::Skipped(_) = self {
            return true;
        }
        false
    }
}

/// The one-line description of a response: error and skip texts in full,
/// payload bodies replaced by their byte count.
pub open spec fn spec_describe(m: RespModel) -> Seq<char> {
    match m {
        RespModel::ParseError(t) => "parse error: "@ + t,
        RespModel::RuntimeError(t) => "runtime error: "@ + t,
        RespModel::SerializeError(t) => "serialize error: "@ + t,
        RespModel::TimeoutError(t) => "timeout error: "@ + t,
        RespModel::Skipped(t) => "skipped: "@ + t,
        RespModel::JsonPayload(t) => "json payload: [redacted payload] "@ + crate::strutil::spec_dec(
            t.len(),
        ) + " bytes"@,
        RespModel::ProtobufPayload(b) => "protobuf payload: [redacted payload] "@
            + crate::strutil::spec_dec(b.len()) + " bytes"@,
        RespModel::JspbPayload(t) => "jspb payload: [redacted payload] "@ + crate::strutil::spec_dec(
            t.len(),
        ) + " bytes"@,
        RespModel::TextPayload(t) => "text payload: [redacted payload] "@ + crate::strutil::spec_dec(
            t.len(),
        ) + " bytes"@,
    }
}

fn describe_payload(kind: &str, len: usize) -> (r: String)
    ensures
        r@ == kind@ + crate::strutil::spec_dec(len as nat),
{
    let mut s: String = kind.to_owned();
    let digits = u64_string(len as u64);
    s.append(digits.as_str());
    s
}

impl Response {
    /// Renders this response as one diagnostic line.
    pub fn describe(&self) -> (r: String)
        ensures
            r@ == spec_describe(self@),
    {
        match self {
            Response::ParseError(t) => {
                let mut s: String = "parse error: ".to_owned();
                s.append(t.as_str());
                s
            },
            Response::RuntimeError(t) => {
                let mut s: String = "runtime error: ".to_owned();
                s.append(t.as_str());
                s
            },
            Response::SerializeError(t) => {
                let mut s: String = "serialize error: ".to_owned();
                s.append(t.as_str());
                s
            },
            Response::TimeoutError(t) => {
                let mut s: String = "timeout error: ".to_owned();
                s.append(t.as_str());
                s
            },
            Response::Skipped(t) => {
                let mut s: String = "skipped: ".to_owned();
                s.append(t.as_str());
                s
            },
            Response::JsonPayload(t) => {
                let mut s = describe_payload("json payload: [redacted payload] ", t.unicode_len());
                s.append(" bytes");
                s
            },
            Response::ProtobufPayload(b) => {
                let mut s = describe_payload("protobuf payload: [redacted payload] ", b.len());
                s.append(" bytes");
                s
            },
            Response::JspbPayload(t) => {
                let mut s = describe_payload("jspb payload: [redacted payload] ", t.unicode_len());
                s.append(" bytes");
                s
            },
            Response::TextPayload(t) => {
                let mut s = describe_payload("text payload: [redacted payload] ", t.unicode_len());
                s.append(" bytes");
                s
            },
        }
    }
}

/// Relies on `String::from_utf8`: it succeeds exactly on valid UTF-8 input
/// and yields the characters that input encodes, as `vstd::utf8` defines
/// them.
#[verifier::external_body]
fn string_from_utf8(bytes: Vec<u8>) -> (r: Option<String>)
    ensures
        r is Some <==> valid_utf8(bytes@),
        r matches Some(s) ==> s@ == decode_utf8(bytes@),
{
    String::from_utf8(bytes).ok()
}

/// Whether a response field number belongs to the result choice.
pub open spec fn is_result_num(n: u64) -> bool {
    1 <= n <= 9
}

/// The last result-choice field of a response, which is the one that wins.
pub open spec fn last_result_field(fs: Seq<(u64, Seq<u8>)>) -> Option<(u64, Seq<u8>)>
    decreases fs.len(),
{
    if fs.len() == 0 {
        None
    } else if is_result_num(fs.last().0) {
        Some(fs.last())
    } else {
        last_result_field(fs.drop_last())
    }
}

/// The response a result-choice field stands for: field 3 carries raw bytes,
/// every other carries UTF-8 text; invalid UTF-8 is a decode error.
pub open spec fn spec_result_model(num: u64, data: Seq<u8>) -> Option<RespModel> {
    if num == 3 {
        Some(RespModel::ProtobufPayload(data))
    } else if valid_utf8(data) {
        let t = decode_utf8(data);
        Some(
            if num == 1 {
                RespModel::ParseError(t)
            } else if num == 2 {
                RespModel::RuntimeError(t)
            } else if num == 4 {
                RespModel::JsonPayload(t)
            } else if num == 5 {
                RespModel::Skipped(t)
            } else if num == 6 {
                RespModel::SerializeError(t)
            } else if num == 7 {
                RespModel::JspbPayload(t)
            } else if num == 8 {
                RespModel::TextPayload(t)
            } else {
                RespModel::TimeoutError(t)
            },
        )
    } else {
        None
    }
}

/// The response a field list stands for: `None` is a decode error,
/// `Some(None)` a response whose result was not set.
pub open spec fn spec_response_of(fields: Seq<(u64, Seq<u8>)>) -> Option<Option<RespModel>> {
    match last_result_field(fields) {
        None => Some(None),
        Some((num, data)) => match spec_result_model(num, data) {
            None => None,
            Some(m) => Some(Some(m)),
        },
    }
}

/// The response a whole message stands for: `None` is a decode error,
/// `Some(None)` a response whose result was not set.
pub open spec fn spec_parse_response(bytes: Seq<u8>) -> Option<Option<RespModel>> {
    match spec_parse_fields(bytes) {
        None => None,
        Some(fs) => spec_response_of(fs),
    }
}

fn result_from_field(num: u64, data: Vec<u8>) -> (r: Option<Response>)
    requires
        is_result_num(num),
    ensures
        match r {
            Some(resp) => spec_result_model(num, data@) == Some(resp@),
            None => spec_result_model(num, data@) is None,
        },
{
    if num == 3 {
        return Some(Response::ProtobufPayload(data));
    }
    let t = match string_from_utf8(data) {
        None => {
            return None;
        },
        Some(t) => t,
    };
    Some(
        if num == 1 {
            Response::ParseError(t)
        } else if num == 2 {
            Response::RuntimeError(t)
        } else if num == 4 {
            Response::JsonPayload(t)
        } else if num == 5 {
            Response::Skipped(t)
        } else if num == 6 {
            Response::SerializeError(t)
        } else if num == 7 {
            Response::JspbPayload(t)
        } else if num == 8 {
            Response::TextPayload(t)
        } else {
            Response::TimeoutError(t)
        },
    )
}

/// Decodes the subject's raw answer bytes: `None` is a decode error,
/// `Some(None)` a response whose result choice was not set.
pub fn parse_response(buf: &Vec<u8>) -> (r: Option<Option<Response>>)
    ensures
        match r {
            None => spec_parse_response(buf@) is None,
            Some(None) => spec_parse_response(buf@) == Some(None::<RespModel>),
            Some(Some(resp)) => spec_parse_response(buf@) == Some(Some(resp@)),
        },
{
    let mut fs = match parse_fields(buf) {
        None => {
            return None;
        },
        Some(fs) => fs,
    };
    let ghost fs0 = fields_view(fs@);
    loop
        invariant
            spec_parse_fields(buf@) == Some(fs0),
            spec_response_of(fs0) == spec_response_of(fields_view(fs@)),
        decreases fs@.len(),
    {
        let ghost old_view = fields_view(fs@);
        let f = match fs.pop() {
            None => {
                proof {
                    assert(old_view =~= Seq::<(u64, Seq<u8>)>::empty());
                }
                return Some(None);
            },
            Some(f) => f,
        };
        proof {
            assert(old_view =~= fields_view(fs@).push((f.num, f.data@)));
            assert(old_view.last() == (f.num, f.data@));
            assert(old_view.drop_last() =~= fields_view(fs@));
        }
        if 1 <= f.num && f.num <= 9 {
            proof {
                assert(last_result_field(old_view) == Some((f.num, f.data@)));
            }
            let num = f.num;
            return match result_from_field(num, f.data) {
                None => None,
                Some(resp) => Some(Some(resp)),
            };
        } else {
            proof {
                assert(!is_result_num(old_view.last().0));
                assert(last_result_field(old_view) == last_result_field(fields_view(fs@)));
            }
        }
    }
}

/// The message-type name out of a request (its field 4), defaulting to the
/// empty string when absent; `None` is a decode error.
pub open spec fn spec_request_type(bytes: Seq<u8>) -> Option<Seq<char>> {
    match spec_parse_fields(bytes) {
        None => None,
        Some(fs) => match last_field(fs, 4) {
            None => Some(Seq::empty()),
            Some(data) => if valid_utf8(data) {
                Some(decode_utf8(data))
            } else {
                None
            },
        },
    }
}

/// The last occurrence of field `num`, which is the one that wins.
pub open spec fn last_field(fs: Seq<(u64, Seq<u8>)>, num: u64) -> Option<Seq<u8>>
    decreases fs.len(),
{
    if fs.len() == 0 {
        None
    } else if fs.last().0 == num {
        Some(fs.last().1)
    } else {
        last_field(fs.drop_last(), num)
    }
}

/// Reads the declared message-type name out of a request's bytes.
pub fn parse_request_type(buf: &Vec<u8>) -> (r: Option<String>)
    ensures
        match r {
            Some(s) => spec_request_type(buf@) == Some(s@),
            None => spec_request_type(buf@) is None,
        },
{
    let mut fs = match parse_fields(buf) {
        None => {
            return None;
        },
        Some(fs) => fs,
    };
    let ghost fs0 = fields_view(fs@);
    loop
        invariant
            spec_parse_fields(buf@) == Some(fs0),
            last_field(fs0, 4) == last_field(fields_view(fs@), 4),
        decreases fs@.len(),
    {
        let ghost old_view = fields_view(fs@);
        let f = match fs.pop() {
            None => {
                proof {
                    assert(old_view =~= Seq::<(u64, Seq<u8>)>::empty());
                }
                let empty = String::new();
                return Some(empty);
            },
            Some(f) => f,
        };
        proof {
            assert(old_view =~= fields_view(fs@).push((f.num, f.data@)));
            assert(old_view.last() == (f.num, f.data@));
            assert(old_view.drop_last() =~= fields_view(fs@));
        }
        if f.num == 4 {
            proof {
                assert(last_field(old_view, 4) == Some(f.data@));
            }
            return string_from_utf8(f.data);
        } else {
            proof {
                assert(last_field(old_view, 4) == last_field(fields_view(fs@), 4));
            }
        }
    }
}

/// The base-128 varint encoding of `v`, least significant 7 bits first.
pub open spec fn spec_encode_varint(v: u64) -> Seq<u8>
    decreases v,
{
    if v < 0x80 {
        seq![v as u8]
    } else {
        seq![((v % 0x80) + 0x80) as u8] + spec_encode_varint(v / 0x80)
    }
}

/// Encodes `v` as a varint.
pub fn encode_varint(v: u64) -> (r: Vec<u8>)
    ensures
        r@ == spec_encode_varint(v),
    decreases v,
{
    if v < 0x80 {
        let mut out: Vec<u8> = Vec::new();
        out.push(v as u8);
        proof {
            assert(out@ =~= spec_encode_varint(v));
        }
        out
    } else {
        let mut out: Vec<u8> = Vec::new();
        out.push(((v % 0x80) + 0x80) as u8);
        let mut rest = encode_varint(v / 0x80);
        out.append(&mut rest);
        proof {
            assert(out@ =~= spec_encode_varint(v));
        }
        out
    }
}

/// A length-delimited field on the wire: its tag, its length, its bytes.
pub open spec fn spec_encode_field(num: u64, data: Seq<u8>) -> Seq<u8> {
    spec_encode_varint((num * 8 + 2) as u64) + spec_encode_varint(data.len() as u64) + data
}

/// Encodes field `num` with the given bytes.
pub fn encode_field(num: u64, data: &Vec<u8>) -> (r: Vec<u8>)
    requires
        num <= 0x0fff_ffff,
    ensures
        r@ == spec_encode_field(num, data@),
{
    let mut out = encode_varint(num * 8 + 2);
    let mut l = encode_varint(data.len() as u64);
    out.append(&mut l);
    out.extend_from_slice(data.as_slice());
    proof {
        assert(out@ =~= spec_encode_field(num, data@));
    }
    out
}

/// 128 to the `k`.
pub open spec fn pow128(k: nat) -> nat
    decreases k,
{
    if k == 0 {
        1
    } else {
        128 * pow128((k - 1) as nat)
    }
}

proof fn lemma_encode_varint_len(v: u64, k: nat)
    requires
        1 <= k,
        (v as nat) < pow128(k),
    ensures
        spec_encode_varint(v).len() <= k,
    decreases k,
{
    if v >= 0x80 {
        assert(pow128(k) == 128 * pow128((k - 1) as nat));
        if k == 1 {
            assert(pow128(1) == 128 * pow128(0));
            assert(pow128(0) == 1);
            assert(false);
        }
        let p = pow128((k - 1) as nat);
        assert(((v / 0x80) as nat) < p) by (nonlinear_arith)
            requires
                (v as nat) < 128 * p,
        ;
        lemma_encode_varint_len(v / 0x80, (k - 1) as nat);
    }
}

/// No 64-bit value's varint encoding is longer than the byte budget.
pub proof fn lemma_varint_ten_bytes(v: u64)
    ensures
        spec_encode_varint(v).len() <= 10,
{
    assert(pow128(0) == 1);
    assert(pow128(1) == 128);
    assert(pow128(2) == 16384);
    assert(pow128(3) == 2097152);
    assert(pow128(4) == 268435456);
    assert(pow128(5) == 34359738368);
    assert(pow128(6) == 4398046511104);
    assert(pow128(7) == 562949953421312);
    assert(pow128(8) == 72057594037927936);
    assert(pow128(9) == 9223372036854775808);
    assert(pow128(10) == 1180591620717411303424);
    assert((v as nat) < pow128(10));
    lemma_encode_varint_len(v, 10);
}

/// Varint round trip: decoding an encoded value, whatever follows it, yields
/// the value and consumes exactly its encoding.
pub proof fn lemma_varint_round_trip(v: u64, rest: Seq<u8>, max: nat)
    requires
        spec_encode_varint(v).len() <= max,
    ensures
        spec_parse_varint(spec_encode_varint(v) + rest, max) == Some(
            (v, spec_encode_varint(v).len() as int),
        ),
    decreases v,
{
    let e = spec_encode_varint(v);
    let s = e + rest;
    if v < 0x80 {
        assert(e == seq![v as u8]);
        assert(s[0] == v as u8);
        assert(s[0] < 0x80);
    } else {
        let e2 = spec_encode_varint(v / 0x80);
        assert(e == seq![((v % 0x80) + 0x80) as u8] + e2);
        assert(s[0] == ((v % 0x80) + 0x80) as u8);
        assert(v % 0x80 < 0x80);
        assert(s[0] >= 0x80);
        assert(s.drop_first() =~= e2 + rest);
        lemma_varint_round_trip(v / 0x80, rest, (max - 1) as nat);
        assert(v / 0x80 <= 0x01ff_ffff_ffff_ffffu64) by (nonlinear_arith)
            requires
                v <= 0xffff_ffff_ffff_ffffu64,
        ;
        vstd::arithmetic::div_mod::lemma_fundamental_div_mod(v as int, 0x80);
        assert(((v / 0x80) * 0x80 + (s[0] - 0x80)) as u64 == v);
    }
}

/// Field round trip: a message starting with an encoded field splits into
/// that field and whatever the remaining bytes split into.
pub proof fn lemma_field_round_trip(num: u64, data: Seq<u8>, rest: Seq<u8>)
    requires
        num <= 0x0fff_ffff,
        data.len() <= 0xffff_ffff_ffff_ffff,
    ensures
        spec_parse_fields(spec_encode_field(num, data) + rest) == (match spec_parse_fields(rest) {
            None => None::<Seq<(u64, Seq<u8>)>>,
            Some(fs) => Some(seq![(num, data)] + fs),
        }),
{
    let tag = (num * 8 + 2) as u64;
    let etag = spec_encode_varint(tag);
    let len = data.len() as u64;
    let elen = spec_encode_varint(len);
    let s = spec_encode_field(num, data) + rest;
    assert(s =~= etag + (elen + (data + rest)));
    lemma_varint_ten_bytes(tag);
    lemma_varint_round_trip(tag, elen + (data + rest), 10);
    assert(s.len() > 0);
    assert(spec_parse_varint(s, 10) == Some((tag, etag.len() as int)));
    assert(tag % 8 == 2 && tag / 8 == num) by (nonlinear_arith)
        requires
            tag == num * 8 + 2,
            num <= 0x0fff_ffff,
    ;
    let after_tag = s.skip(etag.len() as int);
    assert(after_tag =~= elen + (data + rest));
    lemma_varint_ten_bytes(len);
    lemma_varint_round_trip(len, data + rest, 10);
    assert(spec_parse_varint(after_tag, 10) == Some((len, elen.len() as int)));
    assert(len as int <= after_tag.len() - elen.len());
    assert(after_tag.skip(elen.len() as int) =~= data + rest);
    assert(after_tag.skip(elen.len() as int).take(len as int) =~= data);
    assert(after_tag.skip(elen.len() + len as int) =~= rest);
}

/// An encoded payload answer decodes back to exactly itself.
pub proof fn lemma_payload_response_round_trip(payload: Seq<u8>)
    requires
        payload.len() <= 0xffff_ffff_ffff_ffff,
    ensures
        spec_parse_response(spec_encode_field(3, payload)) == Some(
            Some(RespModel::ProtobufPayload(payload)),
        ),
{
    lemma_field_round_trip(3, payload, Seq::empty());
    assert(spec_encode_field(3, payload) + Seq::<u8>::empty() =~= spec_encode_field(3, payload));
    assert(spec_parse_fields(Seq::<u8>::empty()) == Some(Seq::<(u64, Seq<u8>)>::empty()));
    let fields = seq![(3u64, payload)] + Seq::<(u64, Seq<u8>)>::empty();
    assert(spec_parse_fields(spec_encode_field(3, payload)) == Some(fields));
    assert(fields.last() == (3u64, payload));
    assert(last_result_field(fields) == Some((3u64, payload)));
}

/// The result-choice field number a response is carried in.
pub fn response_field_num(resp: &Response) -> (num: u64)
    ensures
        1 <= num <= 9,
        resp@ is ProtobufPayload ==> num == 3,
{
    match resp {
        Response::ParseError(_) => 1,
        Response::RuntimeError(_) => 2,
        Response::ProtobufPayload(_) => 3,
        Response::JsonPayload(_) => 4,
        Response::Skipped(_) => 5,
        Response::SerializeError(_) => 6,
        Response::JspbPayload(_) => 7,
        Response::TextPayload(_) => 8,
        Response::TimeoutError(_) => 9,
    }
}

/// Encodes a response as one wire message holding its result-choice field.
/// An encoded-payload response is proved to decode back to itself; the text
/// responses decode back through the UTF-8 coder, which the tests exercise.
pub fn encode_response(resp: &Response) -> (r: Vec<u8>)
    ensures
        resp@ matches RespModel::ProtobufPayload(b) ==> spec_parse_response(r@) == Some(
            Some(resp@),
        ),
{
    let data: Vec<u8> = match resp {
        Response::ProtobufPayload(b) => {
            let n = b.len();
            let mut c: Vec<u8> = Vec::new();
            c.extend_from_slice(b.as_slice());
            proof {
                assert(b@.len() == n);
                assert(c@ =~= b@);
                lemma_payload_response_round_trip(b@);
            }
            c
        },
        Response::JsonPayload(t) => t.as_str().as_bytes_vec(),
        Response::TextPayload(t) => t.as_str().as_bytes_vec(),
        Response::JspbPayload(t) => t.as_str().as_bytes_vec(),
        Response::ParseError(t) => t.as_str().as_bytes_vec(),
        Response::RuntimeError(t) => t.as_str().as_bytes_vec(),
        Response::SerializeError(t) => t.as_str().as_bytes_vec(),
        Response::TimeoutError(t) => t.as_str().as_bytes_vec(),
        Response::Skipped(t) => t.as_str().as_bytes_vec(),
    };
    let num = response_field_num(resp);
    encode_field(num, &data)
}

/// Encodes a request naming `message_type` and carrying `payload` in the
/// given payload field (1 for encoded bytes, 2 for JSON text).
pub fn encode_request(message_type: &str, payload_field: u64, payload: &Vec<u8>) -> (r: Vec<u8>)
    requires
        1 <= payload_field <= 9,
{
    let ty = message_type.as_bytes_vec();
    let mut out = encode_field(payload_field, payload);
    let mut rest = encode_field(4, &ty);
    out.append(&mut rest);
    out
}

} // verus!
