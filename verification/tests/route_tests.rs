use znet::route::{
    decode_route_addr, iter, list, DecodeError, RouteAddr, RtMsgHdr, RouteTableMessage,
    AF_INET, AF_INET6, AF_LINK, AF_UNIX, RT_MSGHDR_LEN,
};

/// A routing-message header: total length, version, type, interface index,
/// and the rest of the 92 bytes zeroed.
fn rt_header(msglen: u16, version: u8, msgtype: u8, index: u16) -> Vec<u8> {
    let mut h = vec![0u8; RT_MSGHDR_LEN];
    h[0] = (msglen % 256) as u8;
    h[1] = (msglen / 256) as u8;
    h[2] = version;
    h[3] = msgtype;
    h[4] = (index % 256) as u8;
    h[5] = (index / 256) as u8;
    h
}

/// An IPv4 socket address as the routing socket lays it out: length,
/// family, network-order port, four address bytes, zero padding.
fn sockaddr_v4(addr: [u8; 4], port: u16) -> Vec<u8> {
    let mut sa = vec![16u8, AF_INET];
    sa.push((port / 256) as u8);
    sa.push((port % 256) as u8);
    sa.extend_from_slice(&addr);
    while sa.len() < 16 {
        sa.push(0);
    }
    sa
}

/// An IPv6 socket address: length, family, network-order port, flow
/// information, sixteen address bytes, scope identifier.
fn sockaddr_v6(addr: [u8; 16], port: u16, flowinfo: u32, scope_id: u32) -> Vec<u8> {
    let mut sa = vec![28u8, AF_INET6];
    sa.push((port / 256) as u8);
    sa.push((port % 256) as u8);
    sa.extend_from_slice(&flowinfo.to_be_bytes());
    sa.extend_from_slice(&addr);
    sa.extend_from_slice(&scope_id.to_be_bytes());
    sa
}

fn message(version: u8, msgtype: u8, index: u16, dest: &[u8], gateway: &[u8]) -> Vec<u8> {
    let msglen = RT_MSGHDR_LEN + dest.len() + gateway.len();
    let mut m = rt_header(msglen as u16, version, msgtype, index);
    m.extend_from_slice(dest);
    m.extend_from_slice(gateway);
    m
}

#[test]
fn decode_v4_address() {
    let sa = sockaddr_v4([10, 0, 0, 1], 0);
    let (addr, next) = decode_route_addr(&sa, 0, sa.len()).unwrap();
    assert_eq!(addr, RouteAddr::V4 { addr: 0x0a00_0001, port: 0 });
    assert_eq!(next, 16);
}

#[test]
fn decode_v6_address() {
    let mut six = [0u8; 16];
    six[0] = 0xfe;
    six[1] = 0x80;
    six[15] = 1;
    let sa = sockaddr_v6(six, 0x1234, 7, 3);
    let (addr, next) = decode_route_addr(&sa, 0, sa.len()).unwrap();
    assert_eq!(
        addr,
        RouteAddr::V6 {
            addr0: 0xfe80_0000_0000_0000,
            addr1: 0x0000_0000_0000_0001,
            port: 0x1234,
            flowinfo: 7,
            scope_id: 3,
        }
    );
    assert_eq!(next, 28);
}

#[test]
fn decode_opaque_families() {
    let link = [8u8, AF_LINK, 0, 0, 0, 0, 0, 0];
    let (addr, next) = decode_route_addr(&link, 0, 8).unwrap();
    assert_eq!(addr, RouteAddr::Link);
    assert_eq!(next, 8);

    let unix = [4u8, AF_UNIX, 0, 0];
    let (addr, next) = decode_route_addr(&unix, 0, 4).unwrap();
    assert_eq!(addr, RouteAddr::Unix);
    assert_eq!(next, 4);
}

#[test]
fn decode_unrecognized_family_fails() {
    let sa = [8u8, 99, 0, 0, 0, 0, 0, 0];
    assert_eq!(
        decode_route_addr(&sa, 0, 8),
        Err(DecodeError::UnrecognizedFamily { family: 99 })
    );
}

#[test]
fn decode_truncated_address_fails() {
    // An IPv4 address whose own length runs past the bound.
    let sa = [16u8, AF_INET, 0, 0, 1, 2];
    assert_eq!(decode_route_addr(&sa, 0, 6), Err(DecodeError::Truncated));
}

#[test]
fn one_v4_and_one_v6_record() {
    let mut six = [0u8; 16];
    six[15] = 9;
    let mut buf = message(
        5,
        1,
        2,
        &sockaddr_v4([192, 168, 1, 0], 0),
        &sockaddr_v4([192, 168, 1, 1], 0),
    );
    buf.extend_from_slice(&message(5, 1, 3, &sockaddr_v6(six, 0, 0, 0), &sockaddr_v6(six, 0, 0, 1)));

    let msgs = list(buf.clone()).unwrap();
    assert_eq!(msgs.len(), 2);
    assert_eq!(
        msgs[0],
        RouteTableMessage {
            hdr: RtMsgHdr { msglen: 124, version: 5, msgtype: 1, index: 2 },
            dest: RouteAddr::V4 { addr: 0xc0a8_0100, port: 0 },
            gateway: RouteAddr::V4 { addr: 0xc0a8_0101, port: 0 },
        }
    );
    assert_eq!(
        msgs[1],
        RouteTableMessage {
            hdr: RtMsgHdr { msglen: 148, version: 5, msgtype: 1, index: 3 },
            dest: RouteAddr::V6 { addr0: 0, addr1: 9, port: 0, flowinfo: 0, scope_id: 0 },
            gateway: RouteAddr::V6 { addr0: 0, addr1: 9, port: 0, flowinfo: 0, scope_id: 1 },
        }
    );

    // The lazy walk yields the same two messages, then terminates.
    let mut it = iter(buf);
    assert_eq!(it.next().unwrap(), Some(msgs[0]));
    assert_eq!(it.next().unwrap(), Some(msgs[1]));
    assert_eq!(it.next().unwrap(), None);
    assert_eq!(it.next().unwrap(), None);
}

#[test]
fn list_equals_collecting_the_iterator() {
    let mut buf = message(5, 1, 1, &sockaddr_v4([10, 0, 0, 0], 0), &sockaddr_v4([10, 0, 0, 1], 0));
    buf.extend_from_slice(&message(
        5,
        2,
        2,
        &sockaddr_v4([10, 1, 0, 0], 0),
        &sockaddr_v4([10, 1, 0, 1], 0),
    ));
    buf.extend_from_slice(&message(
        5,
        3,
        3,
        &sockaddr_v4([10, 2, 0, 0], 0),
        &sockaddr_v4([10, 2, 0, 1], 0),
    ));

    let eager = list(buf.clone()).unwrap();
    let mut it = iter(buf);
    let mut collected = Vec::new();
    while let Some(m) = it.next().unwrap() {
        collected.push(m);
    }
    assert_eq!(eager, collected);
}

#[test]
fn empty_buffer_lists_nothing() {
    assert_eq!(list(Vec::new()).unwrap(), Vec::new());
    let mut it = iter(Vec::new());
    assert_eq!(it.next().unwrap(), None);
}

#[test]
fn header_running_past_buffer_fails() {
    // A header that claims more than the buffer holds.
    let buf = rt_header(200, 5, 1, 0);
    assert_eq!(list(buf), Err(DecodeError::Truncated));
}

#[test]
fn short_trailing_header_fails() {
    let mut buf = message(5, 1, 1, &sockaddr_v4([10, 0, 0, 0], 0), &sockaddr_v4([10, 0, 0, 1], 0));
    buf.extend_from_slice(&[0u8; 10]);
    let r = list(buf.clone());
    assert_eq!(r, Err(DecodeError::Truncated));

    // The lazy walk still yields the whole record before the malformed tail.
    let mut it = iter(buf);
    assert!(it.next().unwrap().is_some());
    assert_eq!(it.next(), Err(DecodeError::Truncated));
}

#[test]
fn unrecognized_family_in_record_fails() {
    let bad = [8u8, 77, 0, 0, 0, 0, 0, 0];
    let buf = message(5, 1, 1, &bad, &bad);
    assert_eq!(list(buf), Err(DecodeError::UnrecognizedFamily { family: 77 }));
}

#[test]
fn route_mutation_is_acknowledged_but_unimplemented() {
    znet::route::add();
    znet::route::remove();
}
