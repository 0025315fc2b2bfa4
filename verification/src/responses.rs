//! Typed replies: positional extraction of comma-separated fields from a
//! prefixed reply line, and the reply-side encoders used to build such
//! lines.
//!
//! Fields carry a wire position that is independent of the struct's
//! declaration order: the same `<socket>,<length>,"<data>"` triple is parsed
//! both in that layout and in the permuted `"<data>",<socket>,<length>`
//! layout.

use vstd::prelude::*;

use crate::codec::COMMA;
use crate::codec::QUOTE;
use crate::codec::SPACE;
use crate::codec::dec_digits;
use crate::codec::lemma_dec_digits;
use crate::codec::lemma_fields_end;
use crate::codec::lemma_fields_plain;
use crate::codec::lemma_fields_quoted;
use crate::codec::lemma_find_byte_props;
use crate::codec::find_byte;
use crate::codec::fields_from;
use crate::codec::parse_quoted;
use crate::codec::parse_u8;
use crate::codec::parse_usize;
use crate::codec::payload;
use crate::codec::push_dec_u64;
use crate::codec::push_quoted;
use crate::codec::quote_free;
use crate::codec::quoted;
use crate::codec::spec_fields;
use crate::codec::spec_parse_quoted;
use crate::codec::spec_parse_u8;
use crate::codec::spec_parse_usize;
use crate::codec::spec_payload;
use crate::codec::split_fields;
use crate::codec::trim;
use crate::traits::AtatResp;

verus! {

/// The empty reply: commands answered by a bare `OK` parse into this.
#[derive(Clone, Copy, Debug, PartialEq, Eq, Structural)]
pub struct NoResponse;

impl AtatResp for NoResponse {

}

impl View for NoResponse {
    type V = NoResponse;

    open spec fn view(&self) -> NoResponse {
        NoResponse
    }
}

/// The mathematical value of a socket/length/data reply.
pub struct SocketDataValue {
    pub socket: u8,
    pub length: usize,
    pub data: Seq<u8>,
}

/// A reply carrying a socket number, a byte count, and raw data bytes, in
/// that wire order.
#[derive(Clone, Debug, PartialEq, Eq)]
pub struct TestResponseVec {
    pub socket: u8,
    pub length: usize,
    pub data: Vec<u8>,
}

impl AtatResp for TestResponseVec {

}

impl View for TestResponseVec {
    type V = SocketDataValue;

    open spec fn view(&self) -> SocketDataValue {
        SocketDataValue { socket: self.socket, length: self.length, data: self.data@ }
    }
}

/// The same reply shape with the data field kept as text bytes.
#[derive(Clone, Debug, PartialEq, Eq)]
pub struct TestResponseString {
    pub socket: u8,
    pub length: usize,
    pub data: Vec<u8>,
}

impl AtatResp for TestResponseString {

}

impl View for TestResponseString {
    type V = SocketDataValue;

    open spec fn view(&self) -> SocketDataValue {
        SocketDataValue { socket: self.socket, length: self.length, data: self.data@ }
    }
}

/// The same reply with permuted wire positions: the data field comes first
/// on the wire, then the socket, then the length.
#[derive(Clone, Debug, PartialEq, Eq)]
pub struct TestResponseStringMixed {
    pub socket: u8,
    pub length: usize,
    pub data: Vec<u8>,
}

impl AtatResp for TestResponseStringMixed {

}

impl View for TestResponseStringMixed {
    type V = SocketDataValue;

    open spec fn view(&self) -> SocketDataValue {
        SocketDataValue { socket: self.socket, length: self.length, data: self.data@ }
    }
}

// ---------------------------------------------------------------------------
// Parsing
// ---------------------------------------------------------------------------

/// Parses `<socket>,<length>,"<data>"` from the payload of a reply line.
pub open spec fn spec_parse_socket_data(s: Seq<u8>) -> Option<SocketDataValue> {
    let fs = spec_fields(spec_payload(s));
    if fs.len() == 3 {
        match (spec_parse_u8(fs[0]), spec_parse_usize(fs[1]), spec_parse_quoted(fs[2])) {
            (Some(socket), Some(length), Some(data)) => Some(
                SocketDataValue { socket, length, data },
            ),
            _ => None,
        }
    } else {
        None
    }
}

/// Parses the permuted layout `"<data>",<socket>,<length>`.
pub open spec fn spec_parse_socket_data_mixed(s: Seq<u8>) -> Option<SocketDataValue> {
    let fs = spec_fields(spec_payload(s));
    if fs.len() == 3 {
        match (spec_parse_quoted(fs[0]), spec_parse_u8(fs[1]), spec_parse_usize(fs[2])) {
            (Some(data), Some(socket), Some(length)) => Some(
                SocketDataValue { socket, length, data },
            ),
            _ => None,
        }
    } else {
        None
    }
}

/// Extracts the socket/length/data triple in standard wire order.
pub fn parse_socket_data(s: &[u8]) -> (r: Option<(u8, usize, Vec<u8>)>)
    ensures
        match r {
            Some(v) => spec_parse_socket_data(s@) == Some(
                SocketDataValue { socket: v.0, length: v.1, data: v.2@ },
            ),
            None => spec_parse_socket_data(s@) is None,
        },
{
    let p = payload(s);
    let fs = split_fields(p.as_slice());
    if fs.len() != 3 {
        return None;
    }
    let socket = match parse_u8(fs[0].as_slice()) {
        Some(v) => v,
        None => {
            return None;
        },
    };
    let length = match parse_usize(fs[1].as_slice()) {
        Some(v) => v,
        None => {
            return None;
        },
    };
    let data = match parse_quoted(fs[2].as_slice()) {
        Some(v) => v,
        None => {
            return None;
        },
    };
    Some((socket, length, data))
}

/// Extracts the triple in the permuted wire order.
pub fn parse_socket_data_mixed(s: &[u8]) -> (r: Option<(u8, usize, Vec<u8>)>)
    ensures
        match r {
            Some(v) => spec_parse_socket_data_mixed(s@) == Some(
                SocketDataValue { socket: v.0, length: v.1, data: v.2@ },
            ),
            None => spec_parse_socket_data_mixed(s@) is None,
        },
{
    let p = payload(s);
    let fs = split_fields(p.as_slice());
    if fs.len() != 3 {
        return None;
    }
    let data = match parse_quoted(fs[0].as_slice()) {
        Some(v) => v,
        None => {
            return None;
        },
    };
    let socket = match parse_u8(fs[1].as_slice()) {
        Some(v) => v,
        None => {
            return None;
        },
    };
    let length = match parse_usize(fs[2].as_slice()) {
        Some(v) => v,
        None => {
            return None;
        },
    };
    Some((socket, length, data))
}

// ---------------------------------------------------------------------------
// Reply-side encoding
// ---------------------------------------------------------------------------

/// `"+CUN: "`
pub open spec fn cun_reply_head() -> Seq<u8> {
    seq![43u8, 67, 85, 78, 58, 32]
}

/// The standard-order reply line for a socket/length/data value.
pub open spec fn spec_encode_socket_data(v: SocketDataValue) -> Seq<u8> {
    cun_reply_head() + dec_digits(v.socket as nat) + seq![COMMA] + dec_digits(v.length as nat)
        + seq![COMMA] + quoted(v.data)
}

/// The permuted-order reply line for the same value.
pub open spec fn spec_encode_socket_data_mixed(v: SocketDataValue) -> Seq<u8> {
    cun_reply_head() + quoted(v.data) + seq![COMMA] + dec_digits(v.socket as nat) + seq![COMMA]
        + dec_digits(v.length as nat)
}

fn push_cun_reply_head(out: &mut Vec<u8>)
    ensures
        final(out)@ == old(out)@ + cun_reply_head(),
{
    out.push(43);
    out.push(67);
    out.push(85);
    out.push(78);
    out.push(58);
    out.push(SPACE);
    proof {
        assert(out@ =~= old(out)@ + cun_reply_head());
    }
}

/// Builds the standard-order reply line `+CUN: <socket>,<length>,"<data>"`.
pub fn encode_socket_data(socket: u8, length: usize, data: &[u8]) -> (r: Vec<u8>)
    ensures
        r@ == spec_encode_socket_data(
            SocketDataValue { socket, length, data: data@ },
        ),
{
    let mut out: Vec<u8> = Vec::new();
    push_cun_reply_head(&mut out);
    push_dec_u64(&mut out, socket as u64);
    out.push(COMMA);
    push_dec_u64(&mut out, length as u64);
    out.push(COMMA);
    push_quoted(&mut out, data);
    proof {
        assert(out@ =~= spec_encode_socket_data(SocketDataValue { socket, length, data: data@ }));
    }
    out
}

/// Builds the permuted-order reply line `+CUN: "<data>",<socket>,<length>`.
pub fn encode_socket_data_mixed(socket: u8, length: usize, data: &[u8]) -> (r: Vec<u8>)
    ensures
        r@ == spec_encode_socket_data_mixed(
            SocketDataValue { socket, length, data: data@ },
        ),
{
    let mut out: Vec<u8> = Vec::new();
    push_cun_reply_head(&mut out);
    push_quoted(&mut out, data);
    out.push(COMMA);
    push_dec_u64(&mut out, socket as u64);
    out.push(COMMA);
    push_dec_u64(&mut out, length as u64);
    proof {
        assert(out@ =~= spec_encode_socket_data_mixed(
            SocketDataValue { socket, length, data: data@ },
        ));
    }
    out
}

// ---------------------------------------------------------------------------
// Round trip
// ---------------------------------------------------------------------------

proof fn lemma_trim_of_digits(d: Seq<u8>)
    requires
        d.len() >= 1,
        crate::codec::all_digits(d),
    ensures
        trim(d) == d,
{
    crate::codec::lemma_trim_front_range(d, 0);
    assert(d.subrange(0, d.len() as int) =~= d);
    crate::codec::lemma_trim_back_range(d, d.len() as int);
}

proof fn lemma_trim_space_digits(d: Seq<u8>)
    requires
        d.len() >= 1,
        crate::codec::all_digits(d),
    ensures
        trim(seq![SPACE] + d) == d,
{
    let s = seq![SPACE] + d;
    crate::codec::lemma_trim_front_range(s, 1);
    assert(s.subrange(1, s.len() as int) =~= d);
    crate::codec::lemma_trim_back_range(d, d.len() as int);
    assert(d.subrange(0, d.len() as int) =~= d);
}

proof fn lemma_trim_of_quoted(q: Seq<u8>)
    requires
        q.len() >= 2,
        q[0] == QUOTE,
        q[q.len() - 1] == QUOTE,
    ensures
        trim(q) == q,
{
    crate::codec::lemma_trim_front_range(q, 0);
    assert(q.subrange(0, q.len() as int) =~= q);
    crate::codec::lemma_trim_back_range(q, q.len() as int);
}

/// Parsing a quoted rendering gives back the content.
proof fn lemma_parse_quoted_of_quoted(data: Seq<u8>)
    requires
        quote_free(data),
    ensures
        spec_parse_quoted(quoted(data)) == Some(data),
{
    let q = quoted(data);
    assert(q.len() == data.len() + 2);
    assert(q[0] == QUOTE);
    assert(q[q.len() - 1] == QUOTE);
    lemma_trim_of_quoted(q);
    assert(q.subrange(1, q.len() - 1) =~= data);
}

/// Parsing a decimal rendering (with an optional leading space) gives back
/// the number.
proof fn lemma_parse_num_of_digits(n: nat)
    ensures
        crate::codec::spec_parse_num(dec_digits(n)) == Some(n),
        crate::codec::spec_parse_num(seq![SPACE] + dec_digits(n)) == Some(n),
{
    lemma_dec_digits(n);
    lemma_trim_of_digits(dec_digits(n));
    lemma_trim_space_digits(dec_digits(n));
}

/// The standard-order reply line splits into exactly the three rendered
/// fields.
proof fn lemma_fields_of_encoded(f0: Seq<u8>, f1: Seq<u8>, f2: Seq<u8>)
    requires
        forall|k: int| 0 <= k < f0.len() ==> f0[k] != COMMA && f0[k] != QUOTE,
        forall|k: int| 0 <= k < f1.len() ==> f1[k] != COMMA && f1[k] != QUOTE,
        f2.len() >= 2,
        f2[0] == QUOTE,
        f2[f2.len() - 1] == QUOTE,
        forall|k: int| 0 < k < f2.len() - 1 ==> f2[k] != QUOTE,
    ensures
        spec_fields(f0 + seq![COMMA] + f1 + seq![COMMA] + f2) == seq![f0, f1, f2],
{
    let p = f0 + seq![COMMA] + f1 + seq![COMMA] + f2;
    let a = f0.len() as int;
    let b = a + 1 + f1.len();
    assert(p.len() == f0.len() + 1 + f1.len() + 1 + f2.len());
    assert(forall|k: int| 0 <= k < a ==> p[k] == f0[k]);
    assert(p[a] == COMMA);
    assert(forall|k: int| a + 1 <= k < b ==> p[k] == f1[k - (a + 1)]);
    assert(p[b] == COMMA);
    assert(forall|k: int| b + 1 <= k < p.len() ==> p[k] == f2[k - (b + 1)]);
    lemma_fields_plain(p, 0, a, Seq::empty());
    assert(Seq::<u8>::empty() + p.subrange(0, a) =~= f0);
    assert(fields_from(p, a, false, f0) == seq![f0] + fields_from(
        p,
        a + 1,
        false,
        Seq::empty(),
    ));
    lemma_fields_plain(p, a + 1, b, Seq::empty());
    assert(Seq::<u8>::empty() + p.subrange(a + 1, b) =~= f1);
    assert(fields_from(p, b, false, f1) == seq![f1] + fields_from(
        p,
        b + 1,
        false,
        Seq::empty(),
    ));
    lemma_fields_quoted(p, b + 1, p.len() as int, Seq::empty());
    assert(Seq::<u8>::empty() + p.subrange(b + 1, p.len() as int) =~= f2);
    lemma_fields_end(p, f2);
    assert(seq![f0] + (seq![f1] + seq![f2]) =~= seq![f0, f1, f2]);
}

/// The payload of a `+CUN: `-prefixed line is everything after the colon.
proof fn lemma_payload_of_cun(rest: Seq<u8>)
    requires
        !rest.contains(58u8),
    ensures
        spec_payload(cun_reply_head() + rest) == seq![SPACE] + rest,
{
    let s = cun_reply_head() + rest;
    assert(s[0] == 43u8);
    assert(s[1] == 67u8);
    assert(s[2] == 85u8);
    assert(s[3] == 78u8);
    assert(s[4] == 58u8);
    lemma_find_byte_props(s, 58u8, 0);
    let j = find_byte(s, 58u8, 0);
    if j == -1 {
        assert(s[4] != 58u8);
        assert(false);
    }
    assert(j >= 0 && s[j] == 58u8);
    assert(j == 4) by {
        if 0 <= j < 4 {
            assert(s[j] == 58u8);
            assert(j == 0 || j == 1 || j == 2 || j == 3);
            assert(false);
        }
        if j > 4 {
            assert(s[4] != 58u8);
            assert(false);
        }
    }
    assert(s.subrange(5, s.len() as int) =~= seq![SPACE] + rest);
}

/// Round trip, standard order: a reply line built from a value parses back
/// to that value. Holds for every value whose data bytes contain no double
/// quote (a quote would end the rendered string field early) and no colon
/// (a colon would be taken for the prefix delimiter).
pub proof fn lemma_socket_data_round_trip(v: SocketDataValue)
    requires
        quote_free(v.data),
        !v.data.contains(58u8),
    ensures
        spec_parse_socket_data(spec_encode_socket_data(v)) == Some(v),
{
    let d0 = dec_digits(v.socket as nat);
    let d1 = dec_digits(v.length as nat);
    let q = quoted(v.data);
    lemma_dec_digits(v.socket as nat);
    lemma_dec_digits(v.length as nat);
    let rest = d0 + seq![COMMA] + d1 + seq![COMMA] + q;
    assert(spec_encode_socket_data(v) =~= cun_reply_head() + rest);
    assert(q.len() == v.data.len() + 2);
    assert(q[0] == QUOTE && q[q.len() - 1] == QUOTE);
    assert(forall|k: int| 0 < k < q.len() - 1 ==> q[k] == v.data[k - 1]);
    assert(!rest.contains(58u8)) by {
        assert(forall|k: int| 0 <= k < rest.len() ==> rest[k] != 58u8);
    }
    lemma_payload_of_cun(rest);
    let p = seq![SPACE] + rest;
    assert(p =~= (seq![SPACE] + d0) + seq![COMMA] + d1 + seq![COMMA] + q);
    lemma_fields_of_encoded(seq![SPACE] + d0, d1, q);
    assert(spec_fields(p) == seq![seq![SPACE] + d0, d1, q]);
    lemma_parse_num_of_digits(v.socket as nat);
    lemma_parse_num_of_digits(v.length as nat);
    lemma_parse_quoted_of_quoted(v.data);
    assert(spec_parse_u8(seq![SPACE] + d0) == Some(v.socket));
    assert(spec_parse_usize(d1) == Some(v.length));
    assert(spec_parse_socket_data(spec_encode_socket_data(v)) == Some(
        SocketDataValue { socket: v.socket, length: v.length, data: v.data },
    ));
    assert(SocketDataValue { socket: v.socket, length: v.length, data: v.data } == v);
}

/// Round trip, permuted order: the same value survives a reply line whose
/// declared field positions are permuted.
pub proof fn lemma_socket_data_mixed_round_trip(v: SocketDataValue)
    requires
        quote_free(v.data),
        !v.data.contains(58u8),
        !v.data.contains(COMMA),
    ensures
        spec_parse_socket_data_mixed(spec_encode_socket_data_mixed(v)) == Some(v),
{
    let d0 = dec_digits(v.socket as nat);
    let d1 = dec_digits(v.length as nat);
    let q = quoted(v.data);
    lemma_dec_digits(v.socket as nat);
    lemma_dec_digits(v.length as nat);
    let rest = q + seq![COMMA] + d0 + seq![COMMA] + d1;
    assert(spec_encode_socket_data_mixed(v) =~= cun_reply_head() + rest);
    assert(q.len() == v.data.len() + 2);
    assert(q[0] == QUOTE && q[q.len() - 1] == QUOTE);
    assert(forall|k: int| 0 < k < q.len() - 1 ==> q[k] == v.data[k - 1]);
    assert(!rest.contains(58u8)) by {
        assert(forall|k: int| 0 <= k < rest.len() ==> rest[k] != 58u8);
    }
    lemma_payload_of_cun(rest);
    let p = seq![SPACE] + rest;
    lemma_fields_mixed(p, seq![SPACE] + q, d0, d1);
    assert(p =~= (seq![SPACE] + q) + seq![COMMA] + d0 + seq![COMMA] + d1);
    assert(spec_fields(p) == seq![seq![SPACE] + q, d0, d1]);
    lemma_parse_num_of_digits(v.socket as nat);
    lemma_parse_num_of_digits(v.length as nat);
    lemma_parse_quoted_space(v.data);
    assert(spec_parse_socket_data_mixed(spec_encode_socket_data_mixed(v)) == Some(
        SocketDataValue { socket: v.socket, length: v.length, data: v.data },
    ));
    assert(SocketDataValue { socket: v.socket, length: v.length, data: v.data } == v);
}

/// Round trip through a command's reply contract: a reply line built from
/// a response value parses, under the command that asked for it, to
/// exactly that value.
pub proof fn lemma_command_reply_round_trip(
    cmd: crate::commands::TestRespStringCmd,
    v: SocketDataValue,
)
    requires
        quote_free(v.data),
        !v.data.contains(58u8),
    ensures
        crate::traits::AtatCmd::spec_parse(&cmd, Ok(spec_encode_socket_data(v))) == Ok::<
            SocketDataValue,
            crate::Error<crate::GenericError>,
        >(v),
{
    lemma_socket_data_round_trip(v);
}

/// The same round trip under the command with permuted field positions.
pub proof fn lemma_command_reply_round_trip_mixed(
    cmd: crate::commands::TestRespStringMixCmd,
    v: SocketDataValue,
)
    requires
        quote_free(v.data),
        !v.data.contains(58u8),
        !v.data.contains(COMMA),
    ensures
        crate::traits::AtatCmd::spec_parse(&cmd, Ok(spec_encode_socket_data_mixed(v))) == Ok::<
            SocketDataValue,
            crate::Error<crate::GenericError>,
        >(v),
{
    lemma_socket_data_mixed_round_trip(v);
}

/// A quoted field keeps its content also behind a leading space.
proof fn lemma_parse_quoted_space(data: Seq<u8>)
    requires
        quote_free(data),
    ensures
        spec_parse_quoted(seq![SPACE] + quoted(data)) == Some(data),
{
    let q = quoted(data);
    let s = seq![SPACE] + q;
    crate::codec::lemma_trim_front_range(s, 1);
    assert(s.subrange(1, s.len() as int) =~= q);
    crate::codec::lemma_trim_back_range(q, q.len() as int);
    assert(q.subrange(0, q.len() as int) =~= q);
    assert(trim(s) == q);
    assert(q.subrange(1, q.len() - 1) =~= data);
}

/// The permuted line `"<data>",<socket>,<length>` splits into its three
/// fields: quoted first, then the two plain ones.
proof fn lemma_fields_mixed(p: Seq<u8>, f0: Seq<u8>, f1: Seq<u8>, f2: Seq<u8>)
    requires
        p =~= f0 + seq![COMMA] + f1 + seq![COMMA] + f2,
        f0.len() >= 3,
        f0[0] == SPACE,
        f0[1] == QUOTE,
        f0[f0.len() - 1] == QUOTE,
        forall|k: int| 1 < k < f0.len() - 1 ==> f0[k] != QUOTE,
        forall|k: int| 0 <= k < f1.len() ==> f1[k] != COMMA && f1[k] != QUOTE,
        forall|k: int| 0 <= k < f2.len() ==> f2[k] != COMMA && f2[k] != QUOTE,
    ensures
        spec_fields(p) == seq![f0, f1, f2],
{
    let a = f0.len() as int;
    let b = a + 1 + f1.len();
    assert(forall|k: int| 0 <= k < a ==> p[k] == f0[k]);
    assert(p[a] == COMMA);
    assert(forall|k: int| a + 1 <= k < b ==> p[k] == f1[k - (a + 1)]);
    assert(p[b] == COMMA);
    assert(forall|k: int| b + 1 <= k < p.len() ==> p[k] == f2[k - (b + 1)]);
    assert(Seq::<u8>::empty().push(SPACE) =~= seq![SPACE]);
    assert(fields_from(p, 0, false, Seq::<u8>::empty()) == fields_from(
        p,
        1,
        false,
        seq![SPACE],
    ));
    lemma_fields_quoted(p, 1, a, seq![SPACE]);
    assert(seq![SPACE] + p.subrange(1, a) =~= f0);
    assert(fields_from(p, a, false, f0) == seq![f0] + fields_from(
        p,
        a + 1,
        false,
        Seq::empty(),
    ));
    lemma_fields_plain(p, a + 1, b, Seq::empty());
    assert(Seq::<u8>::empty() + p.subrange(a + 1, b) =~= f1);
    assert(fields_from(p, b, false, f1) == seq![f1] + fields_from(
        p,
        b + 1,
        false,
        Seq::empty(),
    ));
    lemma_fields_plain(p, b + 1, p.len() as int, Seq::empty());
    assert(Seq::<u8>::empty() + p.subrange(b + 1, p.len() as int) =~= f2);
    lemma_fields_end(p, f2);
    assert(seq![f0] + (seq![f1] + seq![f2]) =~= seq![f0, f1, f2]);
}

} // verus!
