use micromouse::bot::{pulse, Pulse};
use micromouse::link::{report, Link, LinkEvent};
use micromouse::lists::IdList;
use micromouse::mouse::Mouse;
use micromouse::msgid::MsgId;
use micromouse::msgs::{encode, Msg, Payload};
use micromouse::uart::Uart;

fn feed(uart: &mut Uart, bytes: &[u8]) {
    for &b in bytes {
        assert!(uart.receive(b));
    }
}

#[test]
fn pulse_follows_the_sign_of_the_power() {
    assert_eq!(pulse(0), Pulse { forward: false, width: 0 });
    assert_eq!(pulse(1), Pulse { forward: true, width: 1 });
    assert_eq!(pulse(-1), Pulse { forward: false, width: 1 });
    assert_eq!(pulse(5000), Pulse { forward: true, width: 5000 });
    assert_eq!(pulse(i32::MAX), Pulse { forward: true, width: 2147483647 });
    assert_eq!(pulse(i32::MIN), Pulse { forward: false, width: 2147483648 });
}

#[test]
fn link_takes_in_messages_as_they_complete() {
    let mut link = Link::new();
    let mut uart = Uart::new();
    let mut mouse = Mouse::new();
    assert_eq!(link.poll(10, &mut uart, &mut mouse), LinkEvent::Waiting);
    feed(&mut uart, &[0xa0, 0x00, 0x00]);
    assert_eq!(link.poll(20, &mut uart, &mut mouse), LinkEvent::Waiting);
    feed(&mut uart, &[0x80, 0x3f, 0x15]);
    assert_eq!(link.poll(30, &mut uart, &mut mouse), LinkEvent::Received(MsgId::LinearP));
    assert_eq!(link.last_msg_time, 30);
    assert!(matches!(mouse.msg(MsgId::LinearP).payload(), Payload::Scalar(0x3f80_0000)));
    assert_eq!(uart.rx_len(), Ok(1));
    assert_eq!(link.poll(40, &mut uart, &mut mouse), LinkEvent::Waiting);
    feed(&mut uart, &[9]);
    assert_eq!(link.poll(50, &mut uart, &mut mouse), LinkEvent::Received(MsgId::LeftDistance));
    assert!(matches!(mouse.msg(MsgId::LeftDistance).payload(), Payload::Byte(9)));
}

#[test]
fn link_clears_the_queue_after_a_second_without_a_message() {
    let mut link = Link::new();
    let mut uart = Uart::new();
    let mut mouse = Mouse::new();
    feed(&mut uart, &[0x99, 1, 2, 3]);
    assert_eq!(link.poll(999, &mut uart, &mut mouse), LinkEvent::Waiting);
    assert_eq!(uart.rx_len(), Ok(4));
    assert_eq!(link.poll(1000, &mut uart, &mut mouse), LinkEvent::Flushed(Some(0x99)));
    assert_eq!(uart.rx_len(), Ok(0));
    assert_eq!(link.last_msg_time, 1000);
    feed(&mut uart, &[0x00, 1]);
    assert_eq!(link.poll(1999, &mut uart, &mut mouse), LinkEvent::Waiting);
    assert_eq!(link.poll(2000, &mut uart, &mut mouse), LinkEvent::Flushed(None));
    assert_eq!(uart.rx_len(), Ok(0));
    assert_eq!(link.poll(3000, &mut uart, &mut mouse), LinkEvent::Flushed(None));
}

#[test]
fn report_writes_the_logged_messages() {
    let mut uart = Uart::new();
    let mut mouse = Mouse::new();
    assert_eq!(report(&mouse, &mut uart), 0);
    let mut ids = IdList::new();
    ids.push(MsgId::Time);
    ids.push(MsgId::LeftDistance);
    ids.push(MsgId::Logged);
    mouse.update(Msg::new(MsgId::Logged, Payload::Ids(ids)).unwrap());
    mouse.update(Msg::new(MsgId::Time, Payload::Scalar(0x0403_0201)).unwrap());
    mouse.update(Msg::new(MsgId::LeftDistance, Payload::Byte(77)).unwrap());
    assert_eq!(report(&mouse, &mut uart), 3);
    let mut sent = Vec::new();
    while let Some(b) = uart.next_to_send() {
        sent.push(b);
    }
    assert_eq!(sent, vec![0x00, 1, 2, 3, 4, 0x15, 77, 0x01, 3, 0x00, 0x15, 0x01]);
    // nothing is reported while bytes still wait to be sent
    uart.add_byte(0).unwrap();
    assert_eq!(report(&mouse, &mut uart), 0);
    assert_eq!(uart.tx_len(), Ok(1));
    let _ = encode(&mouse.msg(MsgId::Time));
}

#[test]
fn report_skips_what_does_not_fit_and_counts_what_was_written() {
    let mut uart = Uart::new();
    let mut mouse = Mouse::new();
    for i in 0..64 {
        let t = micromouse::lists::Target { velocity: i, distance: i };
        mouse.update(Msg::new(MsgId::AddLinear, Payload::Pair(t)).unwrap());
    }
    let mut ids = IdList::new();
    ids.push(MsgId::LinearBuffer);
    ids.push(MsgId::LinearBuffer);
    ids.push(MsgId::Time);
    mouse.update(Msg::new(MsgId::Logged, Payload::Ids(ids)).unwrap());
    // 514 bytes fit, 514 more do not, 5 more do
    assert_eq!(report(&mouse, &mut uart), 2);
    assert_eq!(uart.tx_len(), Ok(519));
}

#[test]
fn link_tells_when_a_target_was_dropped() {
    let mut link = Link::new();
    let mut uart = Uart::new();
    let mut mouse = Mouse::new();
    let add = Msg::new(
        MsgId::AddAngular,
        Payload::Pair(micromouse::lists::Target { velocity: 1, distance: 2 }),
    )
    .unwrap();
    let bytes = encode(&add);
    for i in 0..65 {
        feed(&mut uart, bytes.bytes());
        let e = link.poll(i, &mut uart, &mut mouse);
        if i < 64 {
            assert_eq!(e, LinkEvent::Received(MsgId::AddAngular));
        } else {
            assert_eq!(e, LinkEvent::Dropped(MsgId::AddAngular));
        }
    }
}
