//! Unsolicited result codes.
//!
//! A URC type recognizes a single line by a fixed byte prefix and parses
//! the remainder into a typed payload. Several URC kinds can be multiplexed
//! into one enum; its variants are tried in declared order and the first
//! matching prefix wins.

use vstd::prelude::*;

use crate::codec::slice_starts_with;
use crate::codec::spec_fields;
use crate::codec::spec_parse_u8;
use crate::codec::spec_payload;
use crate::codec::split_fields;
use crate::codec::starts_with;
use crate::codec::parse_u8;
use crate::codec::payload;
use crate::traits::AtatUrc;

verus! {

/// The payload of a `+UMWI` message-waiting notification.
#[derive(Clone, Copy, Debug, PartialEq, Eq, Structural)]
pub struct MessageWaitingIndication {
    pub status: u8,
    pub code: u8,
}

/// The URC kinds this catalog recognizes.
#[derive(Clone, Copy, Debug, PartialEq, Eq, Structural)]
pub enum Urc {
    MessageWaitingIndication(MessageWaitingIndication),
}

/// `"+UMWI"`
pub open spec fn umwi_prefix() -> Seq<u8> {
    seq![43u8, 85, 77, 87, 73]
}

/// Builds the `+UMWI` prefix as bytes, for prefix registration.
pub fn umwi_prefix_bytes() -> (r: Vec<u8>)
    ensures
        r@ == umwi_prefix(),
{
    let mut out: Vec<u8> = Vec::new();
    out.push(43);
    out.push(85);
    out.push(77);
    out.push(87);
    out.push(73);
    proof {
        assert(out@ =~= umwi_prefix());
    }
    out
}

impl AtatUrc for Urc {
    type Response = Urc;

    open spec fn spec_parse(data: Seq<u8>) -> Option<Urc> {
        if starts_with(data, umwi_prefix()) {
            let fs = spec_fields(spec_payload(data));
            if fs.len() == 2 {
                match (spec_parse_u8(fs[0]), spec_parse_u8(fs[1])) {
                    (Some(status), Some(code)) => Some(
                        Urc::MessageWaitingIndication(MessageWaitingIndication { status, code }),
                    ),
                    _ => None,
                }
            } else {
                None
            }
        } else {
            None
        }
    }

    fn parse(data: &[u8]) -> (r: Option<Urc>) {
        let prefix = umwi_prefix_bytes();
        if !slice_starts_with(data, prefix.as_slice()) {
            return None;
        }
        let p = payload(data);
        let fs = split_fields(p.as_slice());
        if fs.len() != 2 {
            return None;
        }
        let status = match parse_u8(fs[0].as_slice()) {
            Some(v) => v,
            None => {
                return None;
            },
        };
        let code = match parse_u8(fs[1].as_slice()) {
            Some(v) => v,
            None => {
                return None;
            },
        };
        Some(Urc::MessageWaitingIndication(MessageWaitingIndication { status, code }))
    }
}

} // verus!
