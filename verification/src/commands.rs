//! A small catalog of concrete commands, written by hand against the
//! command contract.
//!
//! Each command type supplies its own positional field serialization; a
//! field's wire position is fixed by the encoder, independent of the struct's
//! declaration order. Numeric and enumerated fields are rendered as unquoted
//! decimal values, optional trailing fields are omitted when absent.

use vstd::prelude::*;

use crate::codec::COMMA;
use crate::codec::CR;
use crate::codec::LF;
use crate::codec::dec_digits;
use crate::codec::push_dec_u64;
use crate::error::Error;
use crate::error::InternalError;
use crate::error::InternalErrorView;
use crate::responses::NoResponse;
use crate::responses::TestResponseString;
use crate::responses::TestResponseStringMixed;
use crate::responses::TestResponseVec;
use crate::responses::parse_socket_data;
use crate::responses::parse_socket_data_mixed;
use crate::responses::spec_parse_socket_data;
use crate::responses::spec_parse_socket_data_mixed;
use crate::traits::AtatCmd;

verus! {

// ---------------------------------------------------------------------------
// Enumerated field values
// ---------------------------------------------------------------------------

/// The functionality levels of the `+CFUN` command family.
#[derive(Clone, Copy, Debug, PartialEq, Eq, Structural)]
pub enum Functionality {
    Min,
    Full,
    APM,
    DM,
}

impl Functionality {
    /// The wire value of the variant.
    pub open spec fn spec_value(&self) -> u8 {
        match self {
            Functionality::Min => 0,
            Functionality::Full => 1,
            Functionality::APM => 4,
            Functionality::DM => 6,
        }
    }

    pub fn value(&self) -> (v: u8)
        ensures
            v == self.spec_value(),
    {
        match self {
            Functionality::Min => 0,
            Functionality::Full => 1,
            Functionality::APM => 4,
            Functionality::DM => 6,
        }
    }
}

/// Whether a functionality change also resets the module.
#[derive(Clone, Copy, Debug, PartialEq, Eq, Structural)]
pub enum ResetMode {
    DontReset,
    Reset,
}

impl ResetMode {
    /// The wire value of the variant.
    pub open spec fn spec_value(&self) -> u8 {
        match self {
            ResetMode::DontReset => 0,
            ResetMode::Reset => 1,
        }
    }

    pub fn value(&self) -> (v: u8)
        ensures
            v == self.spec_value(),
    {
        match self {
            ResetMode::DontReset => 0,
            ResetMode::Reset => 1,
        }
    }
}

/// A device error type with a single value, for commands that map every
/// device-reported error to the same typed error.
#[derive(Clone, Copy, Debug, PartialEq, Eq, Structural)]
pub enum InnerError {
    Test,
}

// ---------------------------------------------------------------------------
// Shared wire pieces
// ---------------------------------------------------------------------------

/// `"AT+CFUN="`
pub open spec fn cfun_head() -> Seq<u8> {
    seq![65u8, 84, 43, 67, 70, 85, 78, 61]
}

/// `"AT+FUN="`
pub open spec fn fun_head() -> Seq<u8> {
    seq![65u8, 84, 43, 70, 85, 78, 61]
}

/// `"AT+CUN="`
pub open spec fn cun_head() -> Seq<u8> {
    seq![65u8, 84, 43, 67, 85, 78, 61]
}

/// `"\r\n"`
pub open spec fn crlf() -> Seq<u8> {
    seq![CR, LF]
}

/// `"AT"`
pub open spec fn at_head() -> Seq<u8> {
    seq![65u8, 84]
}

pub fn push_cfun_head(out: &mut Vec<u8>)
    ensures
        final(out)@ == old(out)@ + cfun_head(),
{
    out.push(65);
    out.push(84);
    out.push(43);
    out.push(67);
    out.push(70);
    out.push(85);
    out.push(78);
    out.push(61);
    proof {
        assert(out@ =~= old(out)@ + cfun_head());
    }
}

pub fn push_fun_head(out: &mut Vec<u8>)
    ensures
        final(out)@ == old(out)@ + fun_head(),
{
    out.push(65);
    out.push(84);
    out.push(43);
    out.push(70);
    out.push(85);
    out.push(78);
    out.push(61);
    proof {
        assert(out@ =~= old(out)@ + fun_head());
    }
}

pub fn push_cun_head(out: &mut Vec<u8>)
    ensures
        final(out)@ == old(out)@ + cun_head(),
{
    out.push(65);
    out.push(84);
    out.push(43);
    out.push(67);
    out.push(85);
    out.push(78);
    out.push(61);
    proof {
        assert(out@ =~= old(out)@ + cun_head());
    }
}

pub fn push_crlf(out: &mut Vec<u8>)
    ensures
        final(out)@ == old(out)@ + crlf(),
{
    out.push(CR);
    out.push(LF);
    proof {
        assert(out@ =~= old(out)@ + crlf());
    }
}

/// The optional trailing reset-mode argument: a comma and the value when
/// present, nothing when absent.
pub open spec fn rst_tail(rst: Option<ResetMode>) -> Seq<u8> {
    match rst {
        Some(r) => seq![COMMA] + dec_digits(r.spec_value() as nat),
        None => Seq::empty(),
    }
}

/// The reply mapping shared by every command answered with [`NoResponse`]
/// and mapped through [`crate::GenericError`]: any success payload parses to
/// the empty response, a device error maps to the generic error, an
/// overflowed reply is a parse failure.
pub open spec fn spec_parse_no_response(res: Result<Seq<u8>, InternalErrorView>) -> Result<
    NoResponse,
    Error<crate::GenericError>,
> {
    match res {
        Ok(_) => Ok(NoResponse),
        Err(InternalErrorView::Error(_)) => Err(Error::Error(crate::GenericError)),
        Err(InternalErrorView::Overflow) => Err(Error::Parse),
    }
}

pub fn parse_no_response(res: Result<&[u8], &InternalError>) -> (r: Result<
    NoResponse,
    Error<crate::GenericError>,
>)
    ensures
        ({
            let p = spec_parse_no_response(crate::traits::reply_view(res));
            match (r, p) {
                (Ok(v), Ok(w)) => v == w,
                (Err(e1), Err(e2)) => e1 == e2,
                _ => false,
            }
        }),
{
    match res {
        Ok(_) => Ok(NoResponse),
        Err(e) => match e {
            InternalError::Error(_) => Err(Error::Error(crate::GenericError)),
            InternalError::Overflow => Err(Error::Parse),
        },
    }
}

/// Ten to the `k`.
pub open spec fn pow10(k: nat) -> nat
    decreases k,
{
    if k == 0 {
        1
    } else {
        10 * pow10((k - 1) as nat)
    }
}

/// A number below ten to the `k` renders to at most `k` digits.
pub proof fn lemma_dec_digits_len(n: nat, k: nat)
    requires
        k >= 1,
        n < pow10(k),
    ensures
        dec_digits(n).len() <= k,
    decreases k,
{
    if n < 10 {
    } else {
        if k == 1 {
            assert(pow10(0) == 1);
            assert(pow10(1) == 10);
            assert(false);
        }
        assert(pow10(k) == 10 * pow10((k - 1) as nat));
        assert(n / 10 < pow10((k - 1) as nat)) by {
            if n / 10 >= pow10((k - 1) as nat) {
                assert(n >= 10 * (n / 10));
                assert(10 * (n / 10) >= 10 * pow10((k - 1) as nat)) by (nonlinear_arith)
                    requires
                        n / 10 >= pow10((k - 1) as nat),
                ;
            }
        }
        lemma_dec_digits_len(n / 10, (k - 1) as nat);
    }
}

/// `pow10` at the small exponents the catalog needs.
pub proof fn lemma_pow10_small()
    ensures
        pow10(1) == 10,
        pow10(2) == 100,
        pow10(3) == 1000,
        pow10(5) == 100000,
        pow10(10) == 10000000000,
        pow10(20) == 100000000000000000000,
{
    assert(pow10(0) == 1);
    assert(pow10(1) == 10);
    assert(pow10(2) == 100);
    assert(pow10(3) == 1000);
    assert(pow10(4) == 10000);
    assert(pow10(5) == 100000);
    assert(pow10(6) == 1000000);
    assert(pow10(7) == 10000000);
    assert(pow10(8) == 100000000);
    assert(pow10(9) == 1000000000);
    assert(pow10(10) == 10000000000);
    assert(pow10(11) == 100000000000);
    assert(pow10(12) == 1000000000000);
    assert(pow10(13) == 10000000000000);
    assert(pow10(14) == 100000000000000);
    assert(pow10(15) == 1000000000000000);
    assert(pow10(16) == 10000000000000000);
    assert(pow10(17) == 100000000000000000);
    assert(pow10(18) == 1000000000000000000);
    assert(pow10(19) == 10000000000000000000);
    assert(pow10(20) == 100000000000000000000);
}

// ---------------------------------------------------------------------------
// Commands
// ---------------------------------------------------------------------------

/// `AT+CFUN=<fun>[,<rst>]` — sets the module functionality level; the
/// reset-mode argument is optional and trails the functionality argument.
#[derive(Clone, Debug, PartialEq, Eq)]
pub struct SetModuleFunctionality {
    pub fun: Functionality,
    pub rst: Option<ResetMode>,
}

impl AtatCmd for SetModuleFunctionality {
    type Response = NoResponse;

    type CmdError = crate::GenericError;

    open spec fn encoded(&self) -> Seq<u8> {
        cfun_head() + dec_digits(self.fun.spec_value() as nat) + rst_tail(self.rst) + crlf()
    }

    open spec fn spec_expects_response(&self) -> bool {
        true
    }

    open spec fn spec_force_receive(&self) -> bool {
        false
    }

    open spec fn spec_max_timeout_ms(&self) -> u32 {
        180000
    }

    open spec fn spec_parse(&self, res: Result<Seq<u8>, InternalErrorView>) -> Result<
        NoResponse,
        Error<crate::GenericError>,
    > {
        spec_parse_no_response(res)
    }

    open spec fn wf(&self) -> bool {
        true
    }

    open spec fn spec_max_len(&self) -> nat {
        17
    }

    proof fn encoded_len_bounded(&self) {
        lemma_pow10_small();
        lemma_dec_digits_len(self.fun.spec_value() as nat, 3);
        match self.rst {
            Some(r) => {
                lemma_dec_digits_len(r.spec_value() as nat, 3);
            },
            None => {},
        }
    }

    fn as_bytes(&self) -> (r: Vec<u8>) {
        let mut out: Vec<u8> = Vec::new();
        push_cfun_head(&mut out);
        push_dec_u64(&mut out, self.fun.value() as u64);
        match &self.rst {
            Some(r) => {
                out.push(COMMA);
                push_dec_u64(&mut out, r.value() as u64);
            },
            None => {},
        }
        push_crlf(&mut out);
        proof {
            assert(out@ =~= self.encoded());
        }
        out
    }

    fn expects_response(&self) -> bool {
        true
    }

    fn force_receive(&self) -> bool {
        false
    }

    fn max_timeout_ms(&self) -> u32 {
        180000
    }

    fn parse(&self, res: Result<&[u8], &InternalError>) -> Result<
        NoResponse,
        Error<crate::GenericError>,
    > {
        parse_no_response(res)
    }
}

/// `AT+FUN=[<rst>,]<fun>` — a variant whose reset-mode argument is declared
/// after the functionality field but holds the earlier wire position.
#[derive(Clone, Debug, PartialEq, Eq)]
pub struct Test2Cmd {
    pub fun: Functionality,
    pub rst: Option<ResetMode>,
}

impl AtatCmd for Test2Cmd {
    type Response = NoResponse;

    type CmdError = crate::GenericError;

    open spec fn encoded(&self) -> Seq<u8> {
        match self.rst {
            Some(r) => fun_head() + dec_digits(r.spec_value() as nat) + seq![COMMA] + dec_digits(
                self.fun.spec_value() as nat,
            ) + crlf(),
            None => fun_head() + dec_digits(self.fun.spec_value() as nat) + crlf(),
        }
    }

    open spec fn spec_expects_response(&self) -> bool {
        true
    }

    open spec fn spec_force_receive(&self) -> bool {
        false
    }

    open spec fn spec_max_timeout_ms(&self) -> u32 {
        180000
    }

    open spec fn spec_parse(&self, res: Result<Seq<u8>, InternalErrorView>) -> Result<
        NoResponse,
        Error<crate::GenericError>,
    > {
        spec_parse_no_response(res)
    }

    open spec fn wf(&self) -> bool {
        true
    }

    open spec fn spec_max_len(&self) -> nat {
        16
    }

    proof fn encoded_len_bounded(&self) {
        lemma_pow10_small();
        lemma_dec_digits_len(self.fun.spec_value() as nat, 3);
        match self.rst {
            Some(r) => {
                lemma_dec_digits_len(r.spec_value() as nat, 3);
            },
            None => {},
        }
    }

    fn as_bytes(&self) -> (r: Vec<u8>) {
        let mut out: Vec<u8> = Vec::new();
        push_fun_head(&mut out);
        match &self.rst {
            Some(r) => {
                push_dec_u64(&mut out, r.value() as u64);
                out.push(COMMA);
                push_dec_u64(&mut out, self.fun.value() as u64);
            },
            None => {
                push_dec_u64(&mut out, self.fun.value() as u64);
            },
        }
        push_crlf(&mut out);
        proof {
            assert(out@ =~= self.encoded());
        }
        out
    }

    fn expects_response(&self) -> bool {
        true
    }

    fn force_receive(&self) -> bool {
        false
    }

    fn max_timeout_ms(&self) -> u32 {
        180000
    }

    fn parse(&self, res: Result<&[u8], &InternalError>) -> Result<
        NoResponse,
        Error<crate::GenericError>,
    > {
        parse_no_response(res)
    }
}

/// `AT+CFUN=<x>` — a command whose device errors are mapped through
/// [`InnerError`] rather than the generic error.
#[derive(Clone, Debug, PartialEq, Eq)]
pub struct ErrorTester {
    pub x: u8,
}

impl AtatCmd for ErrorTester {
    type Response = NoResponse;

    type CmdError = InnerError;

    open spec fn encoded(&self) -> Seq<u8> {
        cfun_head() + dec_digits(self.x as nat) + crlf()
    }

    open spec fn spec_expects_response(&self) -> bool {
        true
    }

    open spec fn spec_force_receive(&self) -> bool {
        false
    }

    open spec fn spec_max_timeout_ms(&self) -> u32 {
        1000
    }

    open spec fn spec_parse(&self, res: Result<Seq<u8>, InternalErrorView>) -> Result<
        NoResponse,
        Error<InnerError>,
    > {
        match res {
            Ok(_) => Ok(NoResponse),
            Err(InternalErrorView::Error(_)) => Err(Error::Error(InnerError::Test)),
            Err(InternalErrorView::Overflow) => Err(Error::Parse),
        }
    }

    open spec fn wf(&self) -> bool {
        true
    }

    open spec fn spec_max_len(&self) -> nat {
        13
    }

    proof fn encoded_len_bounded(&self) {
        lemma_pow10_small();
        lemma_dec_digits_len(self.x as nat, 3);
    }

    fn as_bytes(&self) -> (r: Vec<u8>) {
        let mut out: Vec<u8> = Vec::new();
        push_cfun_head(&mut out);
        push_dec_u64(&mut out, self.x as u64);
        push_crlf(&mut out);
        proof {
            assert(out@ =~= self.encoded());
        }
        out
    }

    fn expects_response(&self) -> bool {
        true
    }

    fn force_receive(&self) -> bool {
        false
    }

    fn max_timeout_ms(&self) -> u32 {
        1000
    }

    fn parse(&self, res: Result<&[u8], &InternalError>) -> Result<NoResponse, Error<InnerError>> {
        match res {
            Ok(_) => Ok(NoResponse),
            Err(e) => match e {
                InternalError::Error(_) => Err(Error::Error(InnerError::Test)),
                InternalError::Overflow => Err(Error::Parse),
            },
        }
    }
}

/// `AT+CUN=<fun>[,<rst>]` — a query answered with a socket/length/data
/// reply in standard wire order, carried as raw bytes.
#[derive(Clone, Debug, PartialEq, Eq)]
pub struct TestRespVecCmd {
    pub fun: Functionality,
    pub rst: Option<ResetMode>,
}

impl AtatCmd for TestRespVecCmd {
    type Response = TestResponseVec;

    type CmdError = crate::GenericError;

    open spec fn encoded(&self) -> Seq<u8> {
        cun_head() + dec_digits(self.fun.spec_value() as nat) + rst_tail(self.rst) + crlf()
    }

    open spec fn spec_expects_response(&self) -> bool {
        true
    }

    open spec fn spec_force_receive(&self) -> bool {
        false
    }

    open spec fn spec_max_timeout_ms(&self) -> u32 {
        180000
    }

    open spec fn spec_parse(&self, res: Result<Seq<u8>, InternalErrorView>) -> Result<
        crate::responses::SocketDataValue,
        Error<crate::GenericError>,
    > {
        match res {
            Ok(b) => match spec_parse_socket_data(b) {
                Some(v) => Ok(v),
                None => Err(Error::Parse),
            },
            Err(InternalErrorView::Error(_)) => Err(Error::Error(crate::GenericError)),
            Err(InternalErrorView::Overflow) => Err(Error::Parse),
        }
    }

    open spec fn wf(&self) -> bool {
        true
    }

    open spec fn spec_max_len(&self) -> nat {
        16
    }

    proof fn encoded_len_bounded(&self) {
        lemma_pow10_small();
        lemma_dec_digits_len(self.fun.spec_value() as nat, 3);
        match self.rst {
            Some(r) => {
                lemma_dec_digits_len(r.spec_value() as nat, 3);
            },
            None => {},
        }
    }

    fn as_bytes(&self) -> (r: Vec<u8>) {
        let mut out: Vec<u8> = Vec::new();
        push_cun_head(&mut out);
        push_dec_u64(&mut out, self.fun.value() as u64);
        match &self.rst {
            Some(r) => {
                out.push(COMMA);
                push_dec_u64(&mut out, r.value() as u64);
            },
            None => {},
        }
        push_crlf(&mut out);
        proof {
            assert(out@ =~= self.encoded());
        }
        out
    }

    fn expects_response(&self) -> bool {
        true
    }

    fn force_receive(&self) -> bool {
        false
    }

    fn max_timeout_ms(&self) -> u32 {
        180000
    }

    fn parse(&self, res: Result<&[u8], &InternalError>) -> Result<
        TestResponseVec,
        Error<crate::GenericError>,
    > {
        match res {
            Ok(b) => match parse_socket_data(b) {
                Some(v) => Ok(TestResponseVec { socket: v.0, length: v.1, data: v.2 }),
                None => Err(Error::Parse),
            },
            Err(e) => match e {
                InternalError::Error(_) => Err(Error::Error(crate::GenericError)),
                InternalError::Overflow => Err(Error::Parse),
            },
        }
    }
}

/// `AT+CUN=<fun>[,<rst>]` — the same query with its reply's data field kept
/// as text bytes.
#[derive(Clone, Debug, PartialEq, Eq)]
pub struct TestRespStringCmd {
    pub fun: Functionality,
    pub rst: Option<ResetMode>,
}

impl AtatCmd for TestRespStringCmd {
    type Response = TestResponseString;

    type CmdError = crate::GenericError;

    open spec fn encoded(&self) -> Seq<u8> {
        cun_head() + dec_digits(self.fun.spec_value() as nat) + rst_tail(self.rst) + crlf()
    }

    open spec fn spec_expects_response(&self) -> bool {
        true
    }

    open spec fn spec_force_receive(&self) -> bool {
        false
    }

    open spec fn spec_max_timeout_ms(&self) -> u32 {
        180000
    }

    open spec fn spec_parse(&self, res: Result<Seq<u8>, InternalErrorView>) -> Result<
        crate::responses::SocketDataValue,
        Error<crate::GenericError>,
    > {
        match res {
            Ok(b) => match spec_parse_socket_data(b) {
                Some(v) => Ok(v),
                None => Err(Error::Parse),
            },
            Err(InternalErrorView::Error(_)) => Err(Error::Error(crate::GenericError)),
            Err(InternalErrorView::Overflow) => Err(Error::Parse),
        }
    }

    open spec fn wf(&self) -> bool {
        true
    }

    open spec fn spec_max_len(&self) -> nat {
        16
    }

    proof fn encoded_len_bounded(&self) {
        lemma_pow10_small();
        lemma_dec_digits_len(self.fun.spec_value() as nat, 3);
        match self.rst {
            Some(r) => {
                lemma_dec_digits_len(r.spec_value() as nat, 3);
            },
            None => {},
        }
    }

    fn as_bytes(&self) -> (r: Vec<u8>) {
        let mut out: Vec<u8> = Vec::new();
        push_cun_head(&mut out);
        push_dec_u64(&mut out, self.fun.value() as u64);
        match &self.rst {
            Some(r) => {
                out.push(COMMA);
                push_dec_u64(&mut out, r.value() as u64);
            },
            None => {},
        }
        push_crlf(&mut out);
        proof {
            assert(out@ =~= self.encoded());
        }
        out
    }

    fn expects_response(&self) -> bool {
        true
    }

    fn force_receive(&self) -> bool {
        false
    }

    fn max_timeout_ms(&self) -> u32 {
        180000
    }

    fn parse(&self, res: Result<&[u8], &InternalError>) -> Result<
        TestResponseString,
        Error<crate::GenericError>,
    > {
        match res {
            Ok(b) => match parse_socket_data(b) {
                Some(v) => Ok(TestResponseString { socket: v.0, length: v.1, data: v.2 }),
                None => Err(Error::Parse),
            },
            Err(e) => match e {
                InternalError::Error(_) => Err(Error::Error(crate::GenericError)),
                InternalError::Overflow => Err(Error::Parse),
            },
        }
    }
}

/// `AT+CUN=[<rst>,]<fun>` — the same query with permuted wire positions on
/// both sides: the reply carries its data field first.
#[derive(Clone, Debug, PartialEq, Eq)]
pub struct TestRespStringMixCmd {
    pub fun: Functionality,
    pub rst: Option<ResetMode>,
}

impl AtatCmd for TestRespStringMixCmd {
    type Response = TestResponseStringMixed;

    type CmdError = crate::GenericError;

    open spec fn encoded(&self) -> Seq<u8> {
        match self.rst {
            Some(r) => cun_head() + dec_digits(r.spec_value() as nat) + seq![COMMA] + dec_digits(
                self.fun.spec_value() as nat,
            ) + crlf(),
            None => cun_head() + dec_digits(self.fun.spec_value() as nat) + crlf(),
        }
    }

    open spec fn spec_expects_response(&self) -> bool {
        true
    }

    open spec fn spec_force_receive(&self) -> bool {
        false
    }

    open spec fn spec_max_timeout_ms(&self) -> u32 {
        180000
    }

    open spec fn spec_parse(&self, res: Result<Seq<u8>, InternalErrorView>) -> Result<
        crate::responses::SocketDataValue,
        Error<crate::GenericError>,
    > {
        match res {
            Ok(b) => match spec_parse_socket_data_mixed(b) {
                Some(v) => Ok(v),
                None => Err(Error::Parse),
            },
            Err(InternalErrorView::Error(_)) => Err(Error::Error(crate::GenericError)),
            Err(InternalErrorView::Overflow) => Err(Error::Parse),
        }
    }

    open spec fn wf(&self) -> bool {
        true
    }

    open spec fn spec_max_len(&self) -> nat {
        16
    }

    proof fn encoded_len_bounded(&self) {
        lemma_pow10_small();
        lemma_dec_digits_len(self.fun.spec_value() as nat, 3);
        match self.rst {
            Some(r) => {
                lemma_dec_digits_len(r.spec_value() as nat, 3);
            },
            None => {},
        }
    }

    fn as_bytes(&self) -> (r: Vec<u8>) {
        let mut out: Vec<u8> = Vec::new();
        push_cun_head(&mut out);
        match &self.rst {
            Some(r) => {
                push_dec_u64(&mut out, r.value() as u64);
                out.push(COMMA);
                push_dec_u64(&mut out, self.fun.value() as u64);
            },
            None => {
                push_dec_u64(&mut out, self.fun.value() as u64);
            },
        }
        push_crlf(&mut out);
        proof {
            assert(out@ =~= self.encoded());
        }
        out
    }

    fn expects_response(&self) -> bool {
        true
    }

    fn force_receive(&self) -> bool {
        false
    }

    fn max_timeout_ms(&self) -> u32 {
        180000
    }

    fn parse(&self, res: Result<&[u8], &InternalError>) -> Result<
        TestResponseStringMixed,
        Error<crate::GenericError>,
    > {
        match res {
            Ok(b) => match parse_socket_data_mixed(b) {
                Some(v) => Ok(TestResponseStringMixed { socket: v.0, length: v.1, data: v.2 }),
                None => Err(Error::Parse),
            },
            Err(e) => match e {
                InternalError::Error(_) => Err(Error::Error(crate::GenericError)),
                InternalError::Overflow => Err(Error::Parse),
            },
        }
    }
}

/// `AT` — the bare attention command, answered by a plain `OK`.
#[derive(Clone, Debug, PartialEq, Eq)]
pub struct At;

impl AtatCmd for At {
    type Response = NoResponse;

    type CmdError = crate::GenericError;

    open spec fn encoded(&self) -> Seq<u8> {
        at_head() + crlf()
    }

    open spec fn spec_expects_response(&self) -> bool {
        true
    }

    open spec fn spec_force_receive(&self) -> bool {
        false
    }

    open spec fn spec_max_timeout_ms(&self) -> u32 {
        1000
    }

    open spec fn spec_parse(&self, res: Result<Seq<u8>, InternalErrorView>) -> Result<
        NoResponse,
        Error<crate::GenericError>,
    > {
        spec_parse_no_response(res)
    }

    open spec fn wf(&self) -> bool {
        true
    }

    open spec fn spec_max_len(&self) -> nat {
        4
    }

    proof fn encoded_len_bounded(&self) {
    }

    fn as_bytes(&self) -> (r: Vec<u8>) {
        let mut out: Vec<u8> = Vec::new();
        out.push(65);
        out.push(84);
        push_crlf(&mut out);
        proof {
            assert(out@ =~= self.encoded());
        }
        out
    }

    fn expects_response(&self) -> bool {
        true
    }

    fn force_receive(&self) -> bool {
        false
    }

    fn max_timeout_ms(&self) -> u32 {
        1000
    }

    fn parse(&self, res: Result<&[u8], &InternalError>) -> Result<
        NoResponse,
        Error<crate::GenericError>,
    > {
        parse_no_response(res)
    }
}

/// `AT` sent fire-and-forget: no reply code is awaited, so `send` completes
/// it at once with the empty success payload. It also asks the ingress
/// manager to be forced into the receiving state first, covering a send
/// that may preempt lingering partial input.
#[derive(Clone, Debug, PartialEq, Eq)]
pub struct AtNoReply;

impl AtatCmd for AtNoReply {
    type Response = NoResponse;

    type CmdError = crate::GenericError;

    open spec fn encoded(&self) -> Seq<u8> {
        at_head() + crlf()
    }

    open spec fn spec_expects_response(&self) -> bool {
        false
    }

    open spec fn spec_force_receive(&self) -> bool {
        true
    }

    open spec fn spec_max_timeout_ms(&self) -> u32 {
        1000
    }

    open spec fn spec_parse(&self, res: Result<Seq<u8>, InternalErrorView>) -> Result<
        NoResponse,
        Error<crate::GenericError>,
    > {
        spec_parse_no_response(res)
    }

    open spec fn wf(&self) -> bool {
        true
    }

    open spec fn spec_max_len(&self) -> nat {
        4
    }

    proof fn encoded_len_bounded(&self) {
    }

    fn as_bytes(&self) -> (r: Vec<u8>) {
        let mut out: Vec<u8> = Vec::new();
        out.push(65);
        out.push(84);
        push_crlf(&mut out);
        proof {
            assert(out@ =~= self.encoded());
        }
        out
    }

    fn expects_response(&self) -> bool {
        false
    }

    fn force_receive(&self) -> bool {
        true
    }

    fn max_timeout_ms(&self) -> u32 {
        1000
    }

    fn parse(&self, res: Result<&[u8], &InternalError>) -> Result<
        NoResponse,
        Error<crate::GenericError>,
    > {
        parse_no_response(res)
    }
}

} // verus!
