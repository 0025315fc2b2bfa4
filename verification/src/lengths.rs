//! Worst-case serialized lengths, composed over field types.
//!
//! Each primitive numeric type has a fixed worst-case decimal-digit length;
//! fixed-size text fields contribute their declared capacity; an optional
//! field contributes its inner type's length; a composite type's length is
//! the sum of its fields' lengths plus one separator per field boundary; an
//! enum's length is the largest of its variants' lengths plus its
//! discriminant.

use vstd::prelude::*;

use crate::codec::COMMA;
use crate::codec::dec_digits;
use crate::codec::dec_digits_signed;
use crate::codec::parse_i64;
use crate::codec::parse_quoted;
use crate::codec::parse_u64;
use crate::codec::parse_u8;
use crate::codec::push_dec_i64;
use crate::codec::push_dec_u64;
use crate::codec::push_quoted;
use crate::codec::quoted;
use crate::codec::spec_fields;
use crate::codec::spec_parse_i64;
use crate::codec::spec_parse_quoted;
use crate::codec::spec_parse_u64;
use crate::codec::spec_parse_u8;
use crate::codec::split_fields;
use crate::commands::cfun_head;
use crate::commands::crlf;
use crate::commands::lemma_dec_digits_len;
use crate::commands::lemma_pow10_small;
use crate::commands::parse_no_response;
use crate::commands::push_cfun_head;
use crate::commands::push_crlf;
use crate::commands::spec_parse_no_response;
use crate::error::Error;
use crate::error::InternalError;
use crate::error::InternalErrorView;
use crate::responses::NoResponse;
use crate::traits::AtatCmd;
use crate::traits::AtatLen;

verus! {

impl AtatLen for char {
    const LEN: usize = 1;
}

impl AtatLen for bool {
    const LEN: usize = 5;
}

impl AtatLen for isize {
    const LEN: usize = 19;
}

impl AtatLen for usize {
    const LEN: usize = 20;
}

impl AtatLen for u8 {
    const LEN: usize = 3;
}

impl AtatLen for u16 {
    const LEN: usize = 5;
}

impl AtatLen for u32 {
    const LEN: usize = 10;
}

impl AtatLen for u64 {
    const LEN: usize = 20;
}

impl AtatLen for u128 {
    const LEN: usize = 39;
}

impl AtatLen for i8 {
    const LEN: usize = 4;
}

impl AtatLen for i16 {
    const LEN: usize = 6;
}

impl AtatLen for i32 {
    const LEN: usize = 11;
}

impl AtatLen for i64 {
    const LEN: usize = 20;
}

impl AtatLen for i128 {
    const LEN: usize = 40;
}

/// A four-valued field carried as a `u8` on the wire.
#[derive(Clone, Copy, Debug, PartialEq, Eq, Structural)]
pub enum SimpleEnum {
    A,
    B,
    C,
    D,
}

impl SimpleEnum {
    /// The wire value of the variant.
    pub open spec fn spec_value(&self) -> u8 {
        match self {
            SimpleEnum::A => 0,
            SimpleEnum::B => 1,
            SimpleEnum::C => 2,
            SimpleEnum::D => 3,
        }
    }

    pub fn value(&self) -> (v: u8)
        ensures
            v == self.spec_value(),
    {
        match self {
            SimpleEnum::A => 0,
            SimpleEnum::B => 1,
            SimpleEnum::C => 2,
            SimpleEnum::D => 3,
        }
    }
}

impl AtatLen for SimpleEnum {
    const LEN: usize = 3;
}

/// The same four values carried as a `u32` on the wire.
#[derive(Clone, Copy, Debug, PartialEq, Eq, Structural)]
pub enum SimpleEnumU32 {
    A,
    B,
    C,
    D,
}

impl SimpleEnumU32 {
    /// The wire value of the variant.
    pub open spec fn spec_value(&self) -> u32 {
        match self {
            SimpleEnumU32::A => 0,
            SimpleEnumU32::B => 1,
            SimpleEnumU32::C => 2,
            SimpleEnumU32::D => 3,
        }
    }

    pub fn value(&self) -> (v: u32)
        ensures
            v == self.spec_value(),
    {
        match self {
            SimpleEnumU32::A => 0,
            SimpleEnumU32::B => 1,
            SimpleEnumU32::C => 2,
            SimpleEnumU32::D => 3,
        }
    }
}

impl AtatLen for SimpleEnumU32 {
    const LEN: usize = 10;
}

/// An enum mixing unit, tuple and struct variants; its length is that of
/// its longest variant plus the discriminant and separators.
#[derive(Clone, Debug, PartialEq, Eq)]
pub enum MixedEnum {
    UnitVariant,
    SingleSimpleTuple(u8),
    AdvancedTuple(u8, Vec<u8>, i64, SimpleEnumU32),
    SingleSimpleStruct { x: u8 },
    AdvancedStruct { a: u8, b: Vec<u8>, c: i64, d: SimpleEnum },
    SingleSimpleTupleLifetime(Vec<u8>),
}

impl AtatLen for MixedEnum {
    const LEN: usize = 3 + 3 + 10 + 20 + 10 + 4;
}

/// The mathematical value of a [`MixedEnum`].
pub enum MixedEnumValue {
    UnitVariant,
    SingleSimpleTuple(u8),
    AdvancedTuple(u8, Seq<u8>, i64, SimpleEnumU32),
    SingleSimpleStruct { x: u8 },
    AdvancedStruct { a: u8, b: Seq<u8>, c: i64, d: SimpleEnum },
    SingleSimpleTupleLifetime(Seq<u8>),
}

impl View for MixedEnum {
    type V = MixedEnumValue;

    open spec fn view(&self) -> MixedEnumValue {
        match self {
            MixedEnum::UnitVariant => MixedEnumValue::UnitVariant,
            MixedEnum::SingleSimpleTuple(x) => MixedEnumValue::SingleSimpleTuple(*x),
            MixedEnum::AdvancedTuple(a, s, c, d) => MixedEnumValue::AdvancedTuple(*a, s@, *c, *d),
            MixedEnum::SingleSimpleStruct { x } => MixedEnumValue::SingleSimpleStruct { x: *x },
            MixedEnum::AdvancedStruct { a, b, c, d } => MixedEnumValue::AdvancedStruct {
                a: *a,
                b: b@,
                c: *c,
                d: *d,
            },
            MixedEnum::SingleSimpleTupleLifetime(s) => MixedEnumValue::SingleSimpleTupleLifetime(
                s@,
            ),
        }
    }
}

/// The variant of a `u8` wire value.
pub open spec fn spec_simple_enum_of(v: u64) -> Option<SimpleEnum> {
    if v == 0 {
        Some(SimpleEnum::A)
    } else if v == 1 {
        Some(SimpleEnum::B)
    } else if v == 2 {
        Some(SimpleEnum::C)
    } else if v == 3 {
        Some(SimpleEnum::D)
    } else {
        None
    }
}

/// The variant of a `u32` wire value.
pub open spec fn spec_simple_enum_u32_of(v: u64) -> Option<SimpleEnumU32> {
    if v == 0 {
        Some(SimpleEnumU32::A)
    } else if v == 1 {
        Some(SimpleEnumU32::B)
    } else if v == 2 {
        Some(SimpleEnumU32::C)
    } else if v == 3 {
        Some(SimpleEnumU32::D)
    } else {
        None
    }
}

fn simple_enum_of(v: u64) -> (r: Option<SimpleEnum>)
    ensures
        r == spec_simple_enum_of(v),
{
    if v == 0 {
        Some(SimpleEnum::A)
    } else if v == 1 {
        Some(SimpleEnum::B)
    } else if v == 2 {
        Some(SimpleEnum::C)
    } else if v == 3 {
        Some(SimpleEnum::D)
    } else {
        None
    }
}

fn simple_enum_u32_of(v: u64) -> (r: Option<SimpleEnumU32>)
    ensures
        r == spec_simple_enum_u32_of(v),
{
    if v == 0 {
        Some(SimpleEnumU32::A)
    } else if v == 1 {
        Some(SimpleEnumU32::B)
    } else if v == 2 {
        Some(SimpleEnumU32::C)
    } else if v == 3 {
        Some(SimpleEnumU32::D)
    } else {
        None
    }
}

/// The positional field rendering of a mixed-enum value: the variant's
/// wire discriminant, then its fields in declared order, text quoted and
/// numbers in (signed) decimal.
pub open spec fn spec_mixed_enum_fields(v: MixedEnumValue) -> Seq<u8> {
    match v {
        MixedEnumValue::UnitVariant => dec_digits(0),
        MixedEnumValue::SingleSimpleTuple(x) => dec_digits(1) + seq![COMMA] + dec_digits(x as nat),
        MixedEnumValue::AdvancedTuple(a, s, c, d) => dec_digits(2) + seq![COMMA] + dec_digits(
            a as nat,
        ) + seq![COMMA] + quoted(s) + seq![COMMA] + dec_digits_signed(c as int) + seq![COMMA]
            + dec_digits(d.spec_value() as nat),
        MixedEnumValue::SingleSimpleStruct { x } => dec_digits(3) + seq![COMMA] + dec_digits(
            x as nat,
        ),
        MixedEnumValue::AdvancedStruct { a, b, c, d } => dec_digits(4) + seq![COMMA] + dec_digits(
            a as nat,
        ) + seq![COMMA] + quoted(b) + seq![COMMA] + dec_digits_signed(c as int) + seq![COMMA]
            + dec_digits(d.spec_value() as nat),
        MixedEnumValue::SingleSimpleTupleLifetime(s) => dec_digits(6) + seq![COMMA] + quoted(s),
    }
}

/// What parsing a positional field rendering yields: the discriminant
/// selects the variant, which must find exactly its own fields.
pub open spec fn spec_parse_mixed_enum(s: Seq<u8>) -> Option<MixedEnumValue> {
    let fs = spec_fields(s);
    match spec_parse_u64(fs[0]) {
        None => None,
        Some(disc) => if disc == 0 {
            if fs.len() == 1 {
                Some(MixedEnumValue::UnitVariant)
            } else {
                None
            }
        } else if disc == 1 {
            if fs.len() == 2 {
                match spec_parse_u8(fs[1]) {
                    Some(x) => Some(MixedEnumValue::SingleSimpleTuple(x)),
                    None => None,
                }
            } else {
                None
            }
        } else if disc == 2 {
            if fs.len() == 5 {
                match (
                    spec_parse_u8(fs[1]),
                    spec_parse_quoted(fs[2]),
                    spec_parse_i64(fs[3]),
                    spec_parse_u64(fs[4]),
                ) {
                    (Some(a), Some(b), Some(c), Some(d)) => match spec_simple_enum_u32_of(d) {
                        Some(d) => Some(MixedEnumValue::AdvancedTuple(a, b, c, d)),
                        None => None,
                    },
                    _ => None,
                }
            } else {
                None
            }
        } else if disc == 3 {
            if fs.len() == 2 {
                match spec_parse_u8(fs[1]) {
                    Some(x) => Some(MixedEnumValue::SingleSimpleStruct { x }),
                    None => None,
                }
            } else {
                None
            }
        } else if disc == 4 {
            if fs.len() == 5 {
                match (
                    spec_parse_u8(fs[1]),
                    spec_parse_quoted(fs[2]),
                    spec_parse_i64(fs[3]),
                    spec_parse_u64(fs[4]),
                ) {
                    (Some(a), Some(b), Some(c), Some(d)) => match spec_simple_enum_of(d) {
                        Some(d) => Some(MixedEnumValue::AdvancedStruct { a, b, c, d }),
                        None => None,
                    },
                    _ => None,
                }
            } else {
                None
            }
        } else if disc == 6 {
            if fs.len() == 2 {
                match spec_parse_quoted(fs[1]) {
                    Some(s) => Some(MixedEnumValue::SingleSimpleTupleLifetime(s)),
                    None => None,
                }
            } else {
                None
            }
        } else {
            None
        },
    }
}

impl MixedEnum {
    /// Renders the value as its positional fields, without any command
    /// framing.
    pub fn as_fields(&self) -> (r: Vec<u8>)
        ensures
            r@ == spec_mixed_enum_fields(self@),
    {
        let mut out: Vec<u8> = Vec::new();
        match self {
            MixedEnum::UnitVariant => {
                push_dec_u64(&mut out, 0);
            },
            MixedEnum::SingleSimpleTuple(x) => {
                push_dec_u64(&mut out, 1);
                out.push(COMMA);
                push_dec_u64(&mut out, *x as u64);
            },
            MixedEnum::AdvancedTuple(a, s, c, d) => {
                push_dec_u64(&mut out, 2);
                out.push(COMMA);
                push_dec_u64(&mut out, *a as u64);
                out.push(COMMA);
                push_quoted(&mut out, s.as_slice());
                out.push(COMMA);
                push_dec_i64(&mut out, *c);
                out.push(COMMA);
                push_dec_u64(&mut out, d.value() as u64);
            },
            MixedEnum::SingleSimpleStruct { x } => {
                push_dec_u64(&mut out, 3);
                out.push(COMMA);
                push_dec_u64(&mut out, *x as u64);
            },
            MixedEnum::AdvancedStruct { a, b, c, d } => {
                push_dec_u64(&mut out, 4);
                out.push(COMMA);
                push_dec_u64(&mut out, *a as u64);
                out.push(COMMA);
                push_quoted(&mut out, b.as_slice());
                out.push(COMMA);
                push_dec_i64(&mut out, *c);
                out.push(COMMA);
                push_dec_u64(&mut out, d.value() as u64);
            },
            MixedEnum::SingleSimpleTupleLifetime(s) => {
                push_dec_u64(&mut out, 6);
                out.push(COMMA);
                push_quoted(&mut out, s.as_slice());
            },
        }
        proof {
            assert(out@ =~= spec_mixed_enum_fields(self@));
        }
        out
    }

    /// Parses a positional field rendering back into a value.
    pub fn from_fields(s: &[u8]) -> (r: Option<MixedEnum>)
        ensures
            match r {
                Some(v) => spec_parse_mixed_enum(s@) == Some(v@),
                None => spec_parse_mixed_enum(s@) is None,
            },
    {
        let fs = split_fields(s);
        let disc = match parse_u64(fs[0].as_slice()) {
            Some(v) => v,
            None => {
                return None;
            },
        };
        if disc == 0 {
            if fs.len() == 1 {
                Some(MixedEnum::UnitVariant)
            } else {
                None
            }
        } else if disc == 1 {
            if fs.len() != 2 {
                return None;
            }
            match parse_u8(fs[1].as_slice()) {
                Some(x) => Some(MixedEnum::SingleSimpleTuple(x)),
                None => None,
            }
        } else if disc == 2 {
            if fs.len() != 5 {
                return None;
            }
            let a = match parse_u8(fs[1].as_slice()) {
                Some(v) => v,
                None => {
                    return None;
                },
            };
            let b = match parse_quoted(fs[2].as_slice()) {
                Some(v) => v,
                None => {
                    return None;
                },
            };
            let c = match parse_i64(fs[3].as_slice()) {
                Some(v) => v,
                None => {
                    return None;
                },
            };
            let d = match parse_u64(fs[4].as_slice()) {
                Some(v) => v,
                None => {
                    return None;
                },
            };
            match simple_enum_u32_of(d) {
                Some(d) => Some(MixedEnum::AdvancedTuple(a, b, c, d)),
                None => None,
            }
        } else if disc == 3 {
            if fs.len() != 2 {
                return None;
            }
            match parse_u8(fs[1].as_slice()) {
                Some(x) => Some(MixedEnum::SingleSimpleStruct { x }),
                None => None,
            }
        } else if disc == 4 {
            if fs.len() != 5 {
                return None;
            }
            let a = match parse_u8(fs[1].as_slice()) {
                Some(v) => v,
                None => {
                    return None;
                },
            };
            let b = match parse_quoted(fs[2].as_slice()) {
                Some(v) => v,
                None => {
                    return None;
                },
            };
            let c = match parse_i64(fs[3].as_slice()) {
                Some(v) => v,
                None => {
                    return None;
                },
            };
            let d = match parse_u64(fs[4].as_slice()) {
                Some(v) => v,
                None => {
                    return None;
                },
            };
            match simple_enum_of(d) {
                Some(d) => Some(MixedEnum::AdvancedStruct { a, b, c, d }),
                None => None,
            }
        } else if disc == 6 {
            if fs.len() != 2 {
                return None;
            }
            match parse_quoted(fs[1].as_slice()) {
                Some(s) => Some(MixedEnum::SingleSimpleTupleLifetime(s)),
                None => None,
            }
        } else {
            None
        }
    }
}

/// `AT+CFUN=<x>,"<y>",<z>,"<w>",<a>,<b>,<c>` — a command whose declared
/// field lengths exercise the whole length algebra: a text field of
/// capacity 128, one of capacity 150, a `u16` declared at two digits, and
/// an enumerated field declared at three.
#[derive(Clone, Debug, PartialEq, Eq)]
pub struct LengthTester {
    pub x: u8,
    pub y: Vec<u8>,
    pub z: u16,
    pub w: Vec<u8>,
    pub a: SimpleEnum,
    pub b: SimpleEnumU32,
    pub c: SimpleEnumU32,
}

impl AtatLen for LengthTester {
    const LEN: usize = 3 + 128 + 2 + 150 + 3 + 10 + 3 + 6;
}

impl AtatCmd for LengthTester {
    type Response = NoResponse;

    type CmdError = crate::GenericError;

    open spec fn encoded(&self) -> Seq<u8> {
        cfun_head() + dec_digits(self.x as nat) + seq![COMMA] + quoted(self.y@) + seq![COMMA]
            + dec_digits(self.z as nat) + seq![COMMA] + quoted(self.w@) + seq![COMMA] + dec_digits(
            self.a.spec_value() as nat,
        ) + seq![COMMA] + dec_digits(self.b.spec_value() as nat) + seq![COMMA] + dec_digits(
            self.c.spec_value() as nat,
        ) + crlf()
    }

    open spec fn spec_expects_response(&self) -> bool {
        true
    }

    open spec fn spec_force_receive(&self) -> bool {
        false
    }

    open spec fn spec_max_timeout_ms(&self) -> u32 {
        1000
    }

    open spec fn spec_parse(&self, res: Result<Seq<u8>, InternalErrorView>) -> Result<
        NoResponse,
        Error<crate::GenericError>,
    > {
        spec_parse_no_response(res)
    }

    /// Well formed when each field stays within its declared length: the
    /// text fields within their capacities, the `u16` within its declared
    /// two digits.
    open spec fn wf(&self) -> bool {
        self.y@.len() <= 128 && self.w@.len() <= 150 && self.z < 100
    }

    /// Header and terminator, the declared field lengths with their six
    /// separators, and the four quote bytes of the two text fields.
    open spec fn spec_max_len(&self) -> nat {
        (2 + 5 + 1) + (3 + 128 + 2 + 150 + 3 + 10 + 3 + 6) + 4 + 2
    }

    proof fn encoded_len_bounded(&self) {
        lemma_pow10_small();
        lemma_dec_digits_len(self.x as nat, 3);
        lemma_dec_digits_len(self.z as nat, 2);
        lemma_dec_digits_len(self.a.spec_value() as nat, 3);
        lemma_dec_digits_len(self.b.spec_value() as nat, 10);
        lemma_dec_digits_len(self.c.spec_value() as nat, 3);
    }

    fn as_bytes(&self) -> (r: Vec<u8>) {
        let mut out: Vec<u8> = Vec::new();
        push_cfun_head(&mut out);
        push_dec_u64(&mut out, self.x as u64);
        out.push(COMMA);
        push_quoted(&mut out, self.y.as_slice());
        out.push(COMMA);
        push_dec_u64(&mut out, self.z as u64);
        out.push(COMMA);
        push_quoted(&mut out, self.w.as_slice());
        out.push(COMMA);
        push_dec_u64(&mut out, self.a.value() as u64);
        out.push(COMMA);
        push_dec_u64(&mut out, self.b.value() as u64);
        out.push(COMMA);
        push_dec_u64(&mut out, self.c.value() as u64);
        push_crlf(&mut out);
        proof {
            assert(out@ =~= self.encoded());
        }
        out
    }

    fn expects_response(&self) -> bool {
        true
    }

    fn force_receive(&self) -> bool {
        false
    }

    fn max_timeout_ms(&self) -> u32 {
        1000
    }

    fn parse(&self, res: Result<&[u8], &InternalError>) -> Result<
        NoResponse,
        Error<crate::GenericError>,
    > {
        parse_no_response(res)
    }
}

} // verus!
