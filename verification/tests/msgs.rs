use micromouse::lists::{IdList, Line, Target, TargetList};
use micromouse::msgid::{Kind, MsgId};
use micromouse::msgs::{decode, encode, Decoded, Msg, Payload};
use micromouse::stream::{ParseError, ReadExact, WriteExact};
use micromouse::uart::{RxError, TxError, Uart};

const ALL_IDS: [MsgId; 32] = [
    MsgId::Time,
    MsgId::Logged,
    MsgId::Provided,
    MsgId::LeftPos,
    MsgId::RightPos,
    MsgId::LeftPower,
    MsgId::RightPower,
    MsgId::Battery,
    MsgId::LeftDistance,
    MsgId::RightDistance,
    MsgId::FrontDistance,
    MsgId::LinearPos,
    MsgId::AngularPos,
    MsgId::LinearPower,
    MsgId::AngularPower,
    MsgId::LinearSet,
    MsgId::AngularSet,
    MsgId::AddLinear,
    MsgId::AddAngular,
    MsgId::LinearTarget,
    MsgId::AngularTarget,
    MsgId::LinearBuffer,
    MsgId::AngularBuffer,
    MsgId::LinearP,
    MsgId::LinearI,
    MsgId::LinearD,
    MsgId::LinearAcc,
    MsgId::AngularP,
    MsgId::AngularI,
    MsgId::AngularD,
    MsgId::AngularAcc,
    MsgId::At,
];

fn sample(id: MsgId) -> Msg {
    let payload = match id.payload_kind() {
        Kind::Scalar => Payload::Scalar(1.5f32.to_bits()),
        Kind::Byte => Payload::Byte(200),
        Kind::Pair => Payload::Pair(Target {
            velocity: 0.25f32.to_bits(),
            distance: (-180.0f32).to_bits(),
        }),
        Kind::Ids => {
            let mut l = IdList::new();
            assert!(l.push(MsgId::Time));
            assert!(l.push(MsgId::Battery));
            assert!(l.push(MsgId::AngularAcc));
            Payload::Ids(l)
        }
        Kind::Targets => {
            let mut l = TargetList::new();
            assert!(l.push(Target { velocity: 1, distance: 0xdead_beef }));
            assert!(l.push(Target { velocity: u32::MAX, distance: 0 }));
            Payload::Targets(l)
        }
        Kind::Line => {
            let mut l = Line::new();
            for &c in b"+OK\n" {
                assert!(l.push(c));
            }
            Payload::Line(l)
        }
    };
    Msg::new(id, payload).unwrap()
}

fn same_payload(a: &Payload, b: &Payload) -> bool {
    match (a, b) {
        (Payload::Scalar(x), Payload::Scalar(y)) => x == y,
        (Payload::Byte(x), Payload::Byte(y)) => x == y,
        (Payload::Pair(x), Payload::Pair(y)) => x == y,
        (Payload::Ids(x), Payload::Ids(y)) => {
            x.len() == y.len() && (0..x.len()).all(|i| x.get(i) == y.get(i))
        }
        (Payload::Targets(x), Payload::Targets(y)) => {
            x.len() == y.len() && (0..x.len()).all(|i| x.get(i) == y.get(i))
        }
        (Payload::Line(x), Payload::Line(y)) => x.as_slice() == y.as_slice(),
        _ => false,
    }
}

fn same(a: &Msg, b: &Msg) -> bool {
    a.id() == b.id() && same_payload(a.payload(), b.payload())
}

#[test]
fn tags_are_stable() {
    assert_eq!(MsgId::Time.to_u8(), 0x00);
    assert_eq!(MsgId::Logged.to_u8(), 0x01);
    assert_eq!(MsgId::Provided.to_u8(), 0x02);
    assert_eq!(MsgId::LeftPos.to_u8(), 0x10);
    assert_eq!(MsgId::FrontDistance.to_u8(), 0x17);
    assert_eq!(MsgId::LinearBuffer.to_u8(), 0x2a);
    assert_eq!(MsgId::At.to_u8(), 0x2b);
    assert_eq!(MsgId::AngularBuffer.to_u8(), 0x2c);
    assert_eq!(MsgId::AngularAcc.to_u8(), 0xa7);
    for id in ALL_IDS {
        assert_eq!(MsgId::from_u8(id.to_u8()), Some(id));
    }
    let known = (0..=255u8).filter(|&b| MsgId::from_u8(b).is_some()).count();
    assert_eq!(known, 32);
    assert_eq!(MsgId::from_u8(0x03), None);
    assert_eq!(MsgId::from_u8(0xff), None);
}

#[test]
fn payload_must_fit_the_tag() {
    assert!(Msg::new(MsgId::Time, Payload::Byte(1)).is_none());
    assert!(Msg::new(MsgId::LeftDistance, Payload::Scalar(1)).is_none());
    assert!(Msg::new(MsgId::Logged, Payload::Targets(TargetList::new())).is_none());
    assert!(Msg::new(MsgId::LeftDistance, Payload::Byte(1)).is_some());
}

#[test]
fn scalar_is_little_endian() {
    let m = Msg::new(MsgId::Time, Payload::Scalar(1.0f32.to_bits())).unwrap();
    assert_eq!(encode(&m).bytes(), &[0x00, 0x00, 0x00, 0x80, 0x3f]);
    let m = Msg::new(MsgId::LinearP, Payload::Scalar(0x0403_0201)).unwrap();
    assert_eq!(encode(&m).bytes(), &[0xa0, 1, 2, 3, 4]);
}

#[test]
fn byte_pair_and_lists_on_the_wire() {
    let m = Msg::new(MsgId::FrontDistance, Payload::Byte(77)).unwrap();
    assert_eq!(encode(&m).bytes(), &[0x17, 77]);
    let t = Target { velocity: 0x0403_0201, distance: 0x0807_0605 };
    let m = Msg::new(MsgId::AddLinear, Payload::Pair(t)).unwrap();
    assert_eq!(encode(&m).bytes(), &[0x26, 1, 2, 3, 4, 5, 6, 7, 8]);
    assert_eq!(encode(&sample(MsgId::Logged)).bytes(), &[0x01, 3, 0x00, 0x14, 0xa7]);
    assert_eq!(
        encode(&sample(MsgId::LinearBuffer)).bytes(),
        &[0x2a, 2, 1, 0, 0, 0, 0xef, 0xbe, 0xad, 0xde, 0xff, 0xff, 0xff, 0xff, 0, 0, 0, 0]
    );
    assert_eq!(encode(&sample(MsgId::At)).bytes(), b"+OK\n");
    assert_eq!(encode(&Msg::new(MsgId::At, Payload::Line(Line::new())).unwrap()).len(), 0);
}

#[test]
fn every_message_survives_the_round_trip() {
    for id in ALL_IDS {
        let m = sample(id);
        let out = encode(&m);
        match decode(out.bytes()) {
            Decoded::Complete(back, n) => {
                assert_eq!(n, out.len());
                assert!(same(&m, &back), "{:?}", id);
            }
            _ => panic!("{:?} did not decode", id),
        }
    }
}

#[test]
fn round_trip_ignores_what_follows() {
    for id in ALL_IDS {
        let m = sample(id);
        let out = encode(&m);
        let mut stream = out.bytes().to_vec();
        stream.extend_from_slice(&[0xff, 0x00, 0x0a]);
        match decode(&stream) {
            Decoded::Complete(back, n) => {
                assert_eq!(n, out.len());
                assert!(same(&m, &back));
            }
            _ => panic!("{:?} did not decode", id),
        }
    }
}

#[test]
fn a_byte_at_a_time_never_misfires() {
    for id in ALL_IDS {
        let m = sample(id);
        let out = encode(&m);
        let bytes = out.bytes();
        for k in 0..bytes.len() {
            assert!(matches!(decode(&bytes[..k]), Decoded::NeedMoreBytes), "{:?} at {}", id, k);
        }
        assert!(matches!(decode(bytes), Decoded::Complete(_, _)));
    }
}

#[test]
fn unknown_tag_is_reported() {
    assert!(matches!(decode(&[0x03, 1, 2, 3, 4]), Decoded::UnknownTag(0x03)));
    assert!(matches!(decode(&[0xfe]), Decoded::UnknownTag(0xfe)));
    assert!(matches!(decode(&[]), Decoded::NeedMoreBytes));
}

#[test]
fn id_list_drops_unknown_tags_and_is_capped() {
    match decode(&[0x02, 4, 0x10, 0x03, 0x11, 0xff, 0x99]) {
        Decoded::Complete(m, n) => {
            assert_eq!(n, 6);
            assert_eq!(m.id(), MsgId::Provided);
            match m.payload() {
                Payload::Ids(l) => {
                    assert_eq!(l.len(), 2);
                    assert_eq!(l.get(0), MsgId::LeftPos);
                    assert_eq!(l.get(1), MsgId::RightPos);
                    assert!(l.contains(MsgId::RightPos));
                    assert!(!l.contains(MsgId::Time));
                    assert_eq!(l.copy().len(), 2);
                }
                _ => panic!("wrong payload"),
            }
        }
        _ => panic!("did not decode"),
    }
    let mut long = vec![0x01u8, 200];
    long.extend(std::iter::repeat(0x14u8).take(63));
    assert!(matches!(decode(&long), Decoded::NeedMoreBytes));
    long.push(0x14);
    match decode(&long) {
        Decoded::Complete(m, n) => {
            assert_eq!(n, 66);
            match m.payload() {
                Payload::Ids(l) => assert_eq!(l.len(), 64),
                _ => panic!("wrong payload"),
            }
        }
        _ => panic!("did not decode"),
    }
}

#[test]
fn lists_refuse_past_capacity() {
    let mut ids = IdList::new();
    for _ in 0..64 {
        assert!(ids.push(MsgId::Time));
    }
    assert!(!ids.push(MsgId::Time));
    assert_eq!(ids.len(), 64);
    let mut ts = TargetList::new();
    for i in 0..64 {
        assert!(ts.push(Target { velocity: i, distance: 2 * i }));
    }
    assert!(!ts.push(Target { velocity: 0, distance: 0 }));
    assert_eq!(ts.len(), 64);
    assert_eq!(ts.get(63), Target { velocity: 63, distance: 126 });
    let m = Msg::new(MsgId::AngularBuffer, Payload::Targets(ts)).unwrap();
    let out = encode(&m);
    assert_eq!(out.len(), 514);
    assert!(matches!(decode(out.bytes()), Decoded::Complete(_, 514)));
    let mut line = Line::new();
    for _ in 0..64 {
        assert!(line.push(b'x'));
    }
    assert!(!line.push(b'x'));
}

#[test]
fn line_runs_to_the_line_feed() {
    match decode(b"+OK\r\n\x00rest") {
        Decoded::Complete(m, n) => {
            assert_eq!(n, 5);
            assert_eq!(m.id(), MsgId::At);
            match m.payload() {
                Payload::Line(l) => assert_eq!(l.as_slice(), b"+OK\r\n"),
                _ => panic!("wrong payload"),
            }
        }
        _ => panic!("did not decode"),
    }
    assert!(matches!(decode(b"+OK\r"), Decoded::NeedMoreBytes));
    let mut long = vec![b'+'; 100];
    long.push(0x0a);
    match decode(&long) {
        Decoded::Complete(m, n) => {
            assert_eq!(n, 101);
            match m.payload() {
                Payload::Line(l) => assert_eq!(l.as_slice().len(), 64),
                _ => panic!("wrong payload"),
            }
        }
        _ => panic!("did not decode"),
    }
    let endless = vec![b'+'; 767];
    assert!(matches!(decode(&endless), Decoded::NeedMoreBytes));
    let endless = vec![b'+'; 768];
    assert!(matches!(decode(&endless), Decoded::Complete(_, 768)));
}

#[test]
fn uart_reads_messages_as_they_complete() {
    let mut uart = Uart::new();
    let m = sample(MsgId::AddAngular);
    let out = encode(&m);
    let bytes = out.bytes();
    for (i, &b) in bytes.iter().enumerate() {
        assert!(matches!(
            uart.read_msg(),
            Err(ParseError::ReadExact(RxError::BufferEmpty))
        ));
        assert!(matches!(
            Msg::parse_bytes(&mut uart),
            Err(ParseError::ReadExact(RxError::BufferEmpty))
        ));
        assert_eq!(uart.rx_len(), Ok(i));
        assert!(uart.receive(b));
    }
    assert!(uart.receive(0x17));
    match Msg::parse_bytes(&mut uart) {
        Ok(back) => assert!(same(&m, &back)),
        Err(_) => panic!("no message"),
    }
    assert_eq!(uart.rx_len(), Ok(1));
    assert!(uart.receive(9));
    match uart.read_msg() {
        Ok(back) => {
            assert_eq!(back.id(), MsgId::FrontDistance);
            assert!(matches!(back.payload(), Payload::Byte(9)));
        }
        Err(_) => panic!("no message"),
    }
    assert_eq!(uart.rx_len(), Ok(0));
}

#[test]
fn uart_reports_unknown_tag_and_keeps_it() {
    let mut uart = Uart::new();
    uart.receive(0x99);
    uart.receive(0x00);
    assert!(matches!(Msg::parse_bytes(&mut uart), Err(ParseError::UnknownMsg(0x99))));
    assert!(matches!(uart.read_msg(), Err(ParseError::UnknownMsg(0x99))));
    assert_eq!(uart.rx_len(), Ok(2));
    assert_eq!(uart.clear_rx(), Ok(()));
    assert_eq!(uart.rx_len(), Ok(0));
}

#[test]
fn uart_reads_lists_through_the_transport() {
    let mut uart = Uart::new();
    let m = sample(MsgId::Logged);
    let out = encode(&m);
    for &b in out.bytes() {
        uart.receive(b);
    }
    match Msg::parse_bytes(&mut uart) {
        Ok(back) => assert!(same(&m, &back)),
        Err(_) => panic!("no message"),
    }
    for &b in b"+RSSI\n" {
        uart.receive(b);
    }
    match Msg::parse_bytes(&mut uart) {
        Ok(back) => match back.payload() {
            Payload::Line(l) => assert_eq!(l.as_slice(), b"+RSSI\n"),
            _ => panic!("wrong payload"),
        },
        Err(_) => panic!("no message"),
    }
    assert_eq!(uart.rx_len(), Ok(0));
}

#[test]
fn uart_transmit_queue_is_first_in_first_out_and_bounded() {
    let mut uart = Uart::new();
    assert_eq!(uart.next_to_send(), None);
    assert_eq!(uart.add_str("hi"), Ok(()));
    assert_eq!(uart.add_byte(b'!'), Ok(()));
    assert_eq!(uart.tx_len(), Ok(3));
    assert_eq!(uart.next_to_send(), Some(b'h'));
    assert_eq!(uart.next_to_send(), Some(b'i'));
    assert_eq!(uart.next_to_send(), Some(b'!'));
    assert_eq!(uart.next_to_send(), None);
    assert_eq!(uart.add_bytes(&[7u8; 1020]), Ok(()));
    assert_eq!(uart.add_bytes(&[8u8; 5]), Err(TxError::BufferFull));
    assert_eq!(uart.tx_len(), Ok(1020));
    assert_eq!(uart.add_bytes(&[8u8; 4]), Ok(()));
    assert_eq!(uart.add_byte(9), Err(TxError::BufferFull));
    assert_eq!(uart.write(&[1]), Err(TxError::BufferFull));
    assert_eq!(uart.clear_tx(), Ok(()));
    assert_eq!(uart.tx_len(), Ok(0));
}

#[test]
fn uart_receive_queue_drops_when_full() {
    let mut uart = Uart::new();
    for _ in 0..1024 {
        assert!(uart.receive(1));
    }
    assert!(!uart.receive(2));
    assert_eq!(uart.rx_len(), Ok(1024));
}

#[test]
fn uart_read_byte_line_and_exact() {
    let mut uart = Uart::new();
    assert_eq!(uart.read_byte(), Err(RxError::BufferEmpty));
    for &b in b"go\nstop" {
        uart.receive(b);
    }
    assert_eq!(uart.read_line(), Err(RxError::BufferEmpty));
    assert_eq!(uart.read_byte(), Ok(b'g'));
    let mut two = [0u8; 2];
    assert_eq!(uart.peek(&mut two), Ok(()));
    assert_eq!(&two, b"o\n");
    assert_eq!(uart.read_exact(&mut two), Ok(()));
    assert_eq!(&two, b"o\n");
    let mut five = [0u8; 5];
    assert_eq!(uart.take(&mut five), Err(RxError::BufferEmpty));
    assert_eq!(uart.rx_len(), Ok(4));
    uart.receive(b'\n');
    assert_eq!(uart.read_line(), Ok(b"stop\n".to_vec()));
    assert_eq!(uart.rx_len(), Ok(0));
}

#[test]
fn generate_bytes_writes_all_or_nothing() {
    let mut uart = Uart::new();
    assert_eq!(sample(MsgId::Time).generate_bytes(&mut uart), Ok(()));
    assert_eq!(uart.tx_len(), Ok(5));
    let empty = Msg::new(MsgId::At, Payload::Line(Line::new())).unwrap();
    assert_eq!(empty.generate_bytes(&mut uart), Ok(()));
    assert_eq!(uart.tx_len(), Ok(5));
    assert_eq!(sample(MsgId::At).generate_bytes(&mut uart), Ok(()));
    assert_eq!(uart.tx_len(), Ok(9));
    assert_eq!(uart.add_bytes(&[0u8; 1011]), Ok(()));
    assert_eq!(sample(MsgId::Time).generate_bytes(&mut uart), Err(TxError::BufferFull));
    assert_eq!(uart.tx_len(), Ok(1020));
    assert_eq!(sample(MsgId::LeftDistance).generate_bytes(&mut uart), Ok(()));
    assert_eq!(uart.tx_len(), Ok(1022));
}
