use atat::AtatCmd;
use atat::Command;
use atat::Functionality;
use atat::IngressItem;
use atat::IngressManager;
use atat::InternalError;
use atat::ResetMode;
use atat::TestRespStringMixCmd;
use atat::TestRespVecCmd;
use atat::TestResponseStringMixed;
use atat::TestResponseVec;
use atat::encode_socket_data;
use atat::encode_socket_data_mixed;
use atat::umwi_prefix_bytes;

fn feed(ingress: &mut IngressManager, bytes: &[u8]) -> Vec<IngressItem> {
    ingress.process_bytes(bytes)
}

#[test]
fn byte_and_chunk_feeding_agree() {
    let mut byte_wise = IngressManager::new(vec![umwi_prefix_bytes()]);
    let mut chunk_wise = IngressManager::new(vec![umwi_prefix_bytes()]);
    let stream = b"AT+CSGT?\r\n+UMWI: 0, 1\r\n+CSGT:0,test\r\nOK\r\n";
    let mut items = Vec::new();
    for &b in stream.iter() {
        if let Some(item) = byte_wise.process_byte(b) {
            items.push(item);
        }
    }
    assert_eq!(items, chunk_wise.process_bytes(stream));
}

#[test]
fn test_at_command_echo() {
    // The device echoes the written command before confirming it; the echo
    // is excluded from the finalized response block.
    let mut ingress = IngressManager::new(Vec::new());
    let items = feed(&mut ingress, b"AT\r\nOK\r\n");
    assert_eq!(items, vec![IngressItem::Response(Ok(Vec::new()))]);
}

#[test]
fn test_at_command() {
    let mut ingress = IngressManager::new(Vec::new());
    ingress.handle_control(Command::ForceReceiveState);
    let items = feed(&mut ingress, b"OK\r\n");
    assert_eq!(items, vec![IngressItem::Response(Ok(Vec::new()))]);
}

#[test]
fn test_parameterized_command() {
    let mut ingress = IngressManager::new(Vec::new());
    let items = feed(&mut ingress, b"AT+UDDRP=1,testString,2\r\nOK\r\n");
    assert_eq!(items, vec![IngressItem::Response(Ok(Vec::new()))]);
}

#[test]
fn test_response() {
    let mut ingress = IngressManager::new(Vec::new());
    let items = feed(&mut ingress, b"AT+CGSN\r\nabcdef012345\r\nOK\r\n");
    assert_eq!(
        items,
        vec![IngressItem::Response(Ok(b"abcdef012345".to_vec()))]
    );
}

#[test]
fn test_error() {
    let mut ingress = IngressManager::new(Vec::new());
    let items = feed(&mut ingress, b"AT+UDDRP=1,testString,2\r\nERROR\r\n");
    assert_eq!(
        items,
        vec![IngressItem::Response(Err(InternalError::Error(Vec::new())))]
    );
}

#[test]
fn test_parameterized_single_response() {
    let mut ingress = IngressManager::new(Vec::new());
    let items = feed(&mut ingress, b"AT+UMSM?\r\n+UMSM:0\r\nOK\r\n");
    assert_eq!(items, vec![IngressItem::Response(Ok(b"+UMSM:0".to_vec()))]);
}

#[test]
fn test_parameterized_multi_response() {
    let mut ingress = IngressManager::new(Vec::new());
    let items = feed(&mut ingress, b"AT+CSGT?\r\n+CSGT:0,test\r\nOK\r\n");
    assert_eq!(
        items,
        vec![IngressItem::Response(Ok(b"+CSGT:0,test".to_vec()))]
    );
}

#[test]
fn test_response_unsolicited() {
    // A registered unsolicited prefix is classified as a URC even while a
    // solicited reply is in flight; an unregistered `+`-line is response
    // data.
    let mut ingress = IngressManager::new(vec![b"+UUDPD".to_vec()]);
    let items = feed(&mut ingress, b"AT+CSGT?\r\n+CSGT:0,test\r\nOK\r\n");
    assert_eq!(
        items,
        vec![IngressItem::Response(Ok(b"+CSGT:0,test".to_vec()))]
    );
    let items = feed(&mut ingress, b"+UUDPD:0\r\n");
    assert_eq!(items, vec![IngressItem::Urc(b"+UUDPD:0".to_vec())]);
}

#[test]
fn reset_control_discards_partial_line() {
    let mut ingress = IngressManager::new(Vec::new());
    let items = feed(&mut ingress, b"AT\r\npartial line");
    assert_eq!(items, vec![]);
    ingress.handle_control(Command::Reset);
    // After the reset, the pending accumulation is gone: a fresh exchange
    // produces only its own block.
    let items = feed(&mut ingress, b"AT\r\nOK\r\n");
    assert_eq!(items, vec![IngressItem::Response(Ok(Vec::new()))]);
}

#[test]
fn line_overflow_is_a_classification_failure() {
    let mut ingress = IngressManager::new(Vec::new());
    ingress.handle_control(Command::ForceReceiveState);
    let long = vec![b'x'; atat::BUF_CAPACITY + 1];
    let items = feed(&mut ingress, &long);
    assert_eq!(
        items,
        vec![IngressItem::Response(Err(InternalError::Overflow))]
    );
}

#[test]
fn urc_prefix_registration() {
    // The URC catalog's own prefix, registered through its byte form.
    let mut ingress = IngressManager::new(vec![umwi_prefix_bytes()]);
    let items = feed(&mut ingress, b"+UMWI: 0, 1\r\n");
    assert_eq!(items, vec![IngressItem::Urc(b"+UMWI: 0, 1".to_vec())]);
}

#[test]
fn reply_round_trip_standard_order() {
    // An encoded reply parses back to the value it was built from.
    let line = encode_socket_data(22, 16, b"0123456789012345");
    assert_eq!(line, b"+CUN: 22,16,\"0123456789012345\"".to_vec());
    let cmd = TestRespVecCmd {
        fun: Functionality::APM,
        rst: Some(ResetMode::DontReset),
    };
    assert_eq!(
        cmd.parse(Ok(line.as_slice())),
        Ok(TestResponseVec {
            socket: 22,
            length: 16,
            data: b"0123456789012345".to_vec()
        })
    );
}

#[test]
fn reply_round_trip_permuted_order() {
    let line = encode_socket_data_mixed(22, 16, b"0123456789012345");
    assert_eq!(line, b"+CUN: \"0123456789012345\",22,16".to_vec());
    let cmd = TestRespStringMixCmd {
        fun: Functionality::APM,
        rst: Some(ResetMode::DontReset),
    };
    assert_eq!(
        cmd.parse(Ok(line.as_slice())),
        Ok(TestResponseStringMixed {
            socket: 22,
            length: 16,
            data: b"0123456789012345".to_vec()
        })
    );
}

#[test]
fn quoted_data_keeps_commas_and_colons_out_of_field_splitting() {
    let line = encode_socket_data(5, 3, b"a,b:c");
    let cmd = TestRespVecCmd {
        fun: Functionality::Min,
        rst: None,
    };
    assert_eq!(
        cmd.parse(Ok(line.as_slice())),
        Ok(TestResponseVec {
            socket: 5,
            length: 3,
            data: b"a,b:c".to_vec()
        })
    );
}

#[test]
fn bounded_queue_is_fifo_and_bounded() {
    let mut q: atat::BoundedQueue<u8> = atat::BoundedQueue::new(2);
    assert_eq!(q.capacity(), 2);
    assert!(q.is_empty());
    assert_eq!(q.enqueue(1), Ok(()));
    assert_eq!(q.enqueue(2), Ok(()));
    assert_eq!(q.enqueue(3), Err(3));
    assert_eq!(q.len(), 2);
    assert_eq!(q.peek(), Some(&1));
    assert_eq!(q.dequeue(), Some(1));
    assert_eq!(q.dequeue(), Some(2));
    assert_eq!(q.dequeue(), None);
}
