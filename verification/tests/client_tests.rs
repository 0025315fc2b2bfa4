use atat::AtatCmd;
use atat::Client;
use atat::ClientState;
use atat::Command;
use atat::Config;
use atat::Error;
use atat::ErrorTester;
use atat::Functionality;
use atat::GenericError;
use atat::InnerError;
use atat::InternalError;
use atat::MockSerial;
use atat::MockTimer;
use atat::Mode;
use atat::NbError;
use atat::NoResponse;
use atat::ResetMode;
use atat::SetModuleFunctionality;
use atat::Test2Cmd;
use atat::TestRespStringCmd;
use atat::TestRespStringMixCmd;
use atat::TestRespVecCmd;
use atat::TestResponseString;
use atat::TestResponseStringMixed;
use atat::TestResponseVec;

fn setup(mode: Mode) -> Client<MockSerial, MockTimer> {
    Client::new(MockSerial::new(64), MockTimer, Config::new(mode))
}

#[test]
fn error_response() {
    let mut client = setup(Mode::Blocking);

    let cmd = ErrorTester { x: 7 };

    client
        .enqueue_response(Err(InternalError::Error(Vec::new())))
        .unwrap();

    assert_eq!(client.state(), ClientState::Idle);
    assert_eq!(
        client.send(&cmd),
        Err(NbError::Other(Error::Error(InnerError::Test)))
    );
    assert_eq!(client.state(), ClientState::Idle);
}

#[test]
fn generic_error_response() {
    let mut client = setup(Mode::Blocking);

    let cmd = SetModuleFunctionality {
        fun: Functionality::APM,
        rst: Some(ResetMode::DontReset),
    };

    client
        .enqueue_response(Err(InternalError::Error(Vec::new())))
        .unwrap();

    assert_eq!(client.state(), ClientState::Idle);
    assert_eq!(
        client.send(&cmd),
        Err(NbError::Other(Error::Error(GenericError)))
    );
    assert_eq!(client.state(), ClientState::Idle);
}

#[test]
fn string_sent() {
    let mut client = setup(Mode::Blocking);

    let cmd = SetModuleFunctionality {
        fun: Functionality::APM,
        rst: Some(ResetMode::DontReset),
    };

    client.enqueue_response(Ok(Vec::new())).unwrap();

    assert_eq!(client.state(), ClientState::Idle);
    assert_eq!(client.send(&cmd), Ok(NoResponse));
    assert_eq!(client.state(), ClientState::Idle);

    assert_eq!(
        client.transport().written_bytes().as_slice(),
        &b"AT+CFUN=4,0\r\n"[..],
        "Wrong encoding of string"
    );

    client.enqueue_response(Ok(Vec::new())).unwrap();

    let cmd = Test2Cmd {
        fun: Functionality::DM,
        rst: Some(ResetMode::Reset),
    };
    assert_eq!(client.send(&cmd), Ok(NoResponse));

    assert_eq!(
        client.transport().written_bytes().as_slice(),
        &b"AT+CFUN=4,0\r\nAT+FUN=1,6\r\n"[..],
        "Reverse order string did not match"
    );
}

#[test]
fn countdown() {
    let mut client = setup(Mode::Timeout);

    assert_eq!(client.state(), ClientState::Idle);

    let cmd = Test2Cmd {
        fun: Functionality::DM,
        rst: Some(ResetMode::Reset),
    };
    assert_eq!(client.send(&cmd), Err(NbError::Other(Error::Timeout)));

    match client.get_mode() {
        Mode::Timeout => {}
        _ => panic!("Wrong AT mode"),
    }
    assert_eq!(client.state(), ClientState::Idle);
    // The expiry also signalled the ingress manager to reset, best effort.
    assert_eq!(client.dequeue_command(), Some(Command::Reset));
}

#[test]
fn blocking() {
    let mut client = setup(Mode::Blocking);

    let cmd = SetModuleFunctionality {
        fun: Functionality::APM,
        rst: Some(ResetMode::DontReset),
    };

    client.enqueue_response(Ok(Vec::new())).unwrap();

    assert_eq!(client.state(), ClientState::Idle);
    assert_eq!(client.send(&cmd), Ok(NoResponse));
    assert_eq!(client.state(), ClientState::Idle);
    assert_eq!(
        client.transport().written_bytes().as_slice(),
        &b"AT+CFUN=4,0\r\n"[..]
    );
}

#[test]
fn non_blocking() {
    let mut client = setup(Mode::NonBlocking);

    let cmd = SetModuleFunctionality {
        fun: Functionality::APM,
        rst: Some(ResetMode::DontReset),
    };

    assert_eq!(client.state(), ClientState::Idle);
    assert_eq!(client.send(&cmd), Err(NbError::WouldBlock));
    assert_eq!(client.state(), ClientState::AwaitingResponse);

    assert_eq!(client.check_response(&cmd), Err(NbError::WouldBlock));

    client.enqueue_response(Ok(Vec::new())).unwrap();

    assert_eq!(client.state(), ClientState::AwaitingResponse);

    assert_eq!(client.check_response(&cmd), Ok(NoResponse));
    assert_eq!(client.state(), ClientState::Idle);
}

#[test]
fn response_vec() {
    let mut client = setup(Mode::Blocking);

    let cmd = TestRespVecCmd {
        fun: Functionality::APM,
        rst: Some(ResetMode::DontReset),
    };

    client
        .enqueue_response(Ok(b"+CUN: 22,16,\"0123456789012345\"".to_vec()))
        .unwrap();

    assert_eq!(client.state(), ClientState::Idle);

    assert_eq!(
        client.send(&cmd),
        Ok(TestResponseVec {
            socket: 22,
            length: 16,
            data: b"0123456789012345".to_vec()
        })
    );
    assert_eq!(client.state(), ClientState::Idle);
    assert_eq!(
        client.transport().written_bytes().as_slice(),
        &b"AT+CUN=4,0\r\n"[..]
    );
}

#[test]
fn response_string() {
    let mut client = setup(Mode::Blocking);

    // String last
    let cmd = TestRespStringCmd {
        fun: Functionality::APM,
        rst: Some(ResetMode::DontReset),
    };

    client
        .enqueue_response(Ok(b"+CUN: 22,16,\"0123456789012345\"".to_vec()))
        .unwrap();

    assert_eq!(client.state(), ClientState::Idle);

    assert_eq!(
        client.send(&cmd),
        Ok(TestResponseString {
            socket: 22,
            length: 16,
            data: b"0123456789012345".to_vec()
        })
    );
    assert_eq!(client.state(), ClientState::Idle);

    // Mixed order for string
    let cmd = TestRespStringMixCmd {
        fun: Functionality::APM,
        rst: Some(ResetMode::DontReset),
    };

    client
        .enqueue_response(Ok(b"+CUN: \"0123456789012345\",22,16".to_vec()))
        .unwrap();

    assert_eq!(
        client.send(&cmd),
        Ok(TestResponseStringMixed {
            socket: 22,
            length: 16,
            data: b"0123456789012345".to_vec()
        })
    );
    assert_eq!(client.state(), ClientState::Idle);
}

#[test]
fn urc() {
    let mut client = setup(Mode::NonBlocking);

    client.enqueue_urc(b"+UMWI: 0, 1".to_vec()).unwrap();

    assert_eq!(client.state(), ClientState::Idle);
    assert!(client.check_urc::<atat::Urc>().is_some());
    assert_eq!(client.state(), ClientState::Idle);
}

#[test]
fn invalid_response() {
    let mut client = setup(Mode::Blocking);

    // String last
    let cmd = TestRespStringCmd {
        fun: Functionality::APM,
        rst: Some(ResetMode::DontReset),
    };

    client
        .enqueue_response(Ok(b"+CUN: 22,16,22".to_vec()))
        .unwrap();

    assert_eq!(client.state(), ClientState::Idle);
    assert_eq!(client.send(&cmd), Err(NbError::Other(Error::Parse)));
    assert_eq!(client.state(), ClientState::Idle);
}

#[test]
fn fire_and_forget_completes_at_once() {
    let mut client = setup(Mode::NonBlocking);

    assert_eq!(client.state(), ClientState::Idle);
    assert_eq!(client.send(&atat::AtNoReply), Ok(NoResponse));
    assert_eq!(client.state(), ClientState::Idle);
    assert_eq!(
        client.transport().written_bytes().as_slice(),
        &b"AT\r\n"[..]
    );
    // The command asked the ingress manager to be forced into receiving.
    assert_eq!(
        client.dequeue_command(),
        Some(Command::ForceReceiveState)
    );
    assert_eq!(client.dequeue_command(), None);
}

#[test]
fn write_failure_surfaces_and_leaves_idle() {
    let mut client: Client<MockSerial, MockTimer> =
        Client::new(MockSerial::new(4), MockTimer, Config::new(Mode::Blocking));

    let cmd = SetModuleFunctionality {
        fun: Functionality::APM,
        rst: Some(ResetMode::DontReset),
    };

    assert_eq!(client.send(&cmd), Err(NbError::Other(Error::Write)));
    assert_eq!(client.state(), ClientState::Idle);
}

#[test]
fn reset_empties_both_channels() {
    let mut client = setup(Mode::Blocking);

    // Empty channels: reset keeps the client idle and the channels empty.
    client.reset();
    assert_eq!(client.state(), ClientState::Idle);
    assert_eq!(client.dequeue_command(), Some(Command::Reset));

    // Full channels: reset drains both completely.
    for _ in 0..atat::RES_CAPACITY {
        client.enqueue_response(Ok(Vec::new())).unwrap();
    }
    assert!(client.enqueue_response(Ok(Vec::new())).is_err());
    for _ in 0..atat::URC_CAPACITY {
        client.enqueue_urc(b"+UMWI: 0, 1".to_vec()).unwrap();
    }
    assert!(client.enqueue_urc(b"+UMWI: 0, 1".to_vec()).is_err());

    client.reset();
    assert_eq!(client.state(), ClientState::Idle);
    assert!(client.check_urc::<atat::Urc>().is_none());
    let cmd = SetModuleFunctionality {
        fun: Functionality::APM,
        rst: None,
    };
    // The response channel is empty again: a poll has nothing to correlate.
    assert_eq!(client.check_response(&cmd), Err(NbError::WouldBlock));

    // A second reset from the drained state changes nothing further.
    client.reset();
    assert_eq!(client.state(), ClientState::Idle);
    assert!(client.check_urc::<atat::Urc>().is_none());
}

#[test]
fn peek_urc_with_defers_consumption() {
    let mut client = setup(Mode::NonBlocking);

    client.enqueue_urc(b"+UMWI: 0, 1".to_vec()).unwrap();

    // A handler that declines leaves the entry pending.
    client.peek_urc_with::<atat::Urc, _>(|_| false);
    assert!(client.check_urc::<atat::Urc>().is_some());
    assert!(client.check_urc::<atat::Urc>().is_none());

    // A handler that accepts consumes it.
    client.enqueue_urc(b"+UMWI: 0, 1".to_vec()).unwrap();
    client.peek_urc_with::<atat::Urc, _>(|urc| {
        matches!(
            urc,
            atat::Urc::MessageWaitingIndication(atat::MessageWaitingIndication {
                status: 0,
                code: 1
            })
        )
    });
    assert!(client.check_urc::<atat::Urc>().is_none());
}

#[test]
fn numeric_field_overflow_is_a_parse_error() {
    let mut client = setup(Mode::Blocking);

    let cmd = TestRespStringCmd {
        fun: Functionality::APM,
        rst: Some(ResetMode::DontReset),
    };

    client
        .enqueue_response(Ok(
            b"+CUN: 22,99999999999999999999999999,\"x\"".to_vec()
        ))
        .unwrap();

    assert_eq!(client.send(&cmd), Err(NbError::Other(Error::Parse)));
    assert_eq!(client.state(), ClientState::Idle);
}

#[test]
fn overflowed_reply_is_a_parse_error() {
    let cmd = SetModuleFunctionality {
        fun: Functionality::APM,
        rst: None,
    };
    assert_eq!(
        cmd.parse(Err(&InternalError::Overflow)),
        Err(Error::Parse)
    );
}

#[test]
fn malformed_urc_is_dropped() {
    let mut client = setup(Mode::NonBlocking);

    client.enqueue_urc(b"+UMWI: x, 1".to_vec()).unwrap();
    assert!(client.check_urc::<atat::Urc>().is_none());
    // The malformed entry is gone, not retried.
    client.enqueue_urc(b"+UMWI: 0, 1".to_vec()).unwrap();
    assert!(client.check_urc::<atat::Urc>().is_some());
}
