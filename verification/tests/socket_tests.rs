use znet::raw_socket::{
    classify_datalink, classify_flags, open_bpf, protocol_be, LinkLayer, RawSocket, SockError,
    ETH_P_ALL_BE, ETH_P_IP_BE, IFF_BROADCAST, IFF_LOOPBACK, IFF_NO_PI, IFF_POINTOPOINT,
};

#[test]
fn flags_classification() {
    assert_eq!(classify_flags(IFF_LOOPBACK), Some(LinkLayer::Eth));
    assert_eq!(classify_flags(IFF_LOOPBACK | IFF_BROADCAST), Some(LinkLayer::Eth));
    assert_eq!(classify_flags(IFF_BROADCAST), Some(LinkLayer::Eth));
    assert_eq!(classify_flags(IFF_POINTOPOINT), Some(LinkLayer::IpWithPI(4)));
    assert_eq!(classify_flags(IFF_POINTOPOINT | IFF_NO_PI), Some(LinkLayer::Ip));
    assert_eq!(classify_flags(0), None);
    assert_eq!(classify_flags(0x40), None);
}

#[test]
fn datalink_classification() {
    assert_eq!(classify_datalink(0), Some(LinkLayer::IpWithPI(4)));
    assert_eq!(classify_datalink(1), Some(LinkLayer::Eth));
    assert_eq!(classify_datalink(12), Some(LinkLayer::Ip));
    assert_eq!(classify_datalink(7), None);
}

#[test]
fn protocol_selection() {
    assert_eq!(protocol_be(LinkLayer::Eth), ETH_P_ALL_BE);
    assert_eq!(protocol_be(LinkLayer::IpWithPI(4)), ETH_P_ALL_BE);
    assert_eq!(protocol_be(LinkLayer::Ip), ETH_P_IP_BE);
    assert_eq!(ETH_P_ALL_BE, 0x0003u16.to_be());
    assert_eq!(ETH_P_IP_BE, 0x0800u16.to_be());
}

#[test]
fn unsupported_flags_refuse_to_open() {
    assert_eq!(
        RawSocket::with_ifname("lo", 0, 1500),
        Err(SockError::UnknownLinkLayer)
    );
}

#[test]
fn open_missing_interface_fails_with_os_error() {
    // Classification passes, so the failure comes from the OS: either the
    // socket cannot be created (no privilege) or the name resolves to no
    // interface; the handle is released on the way out either way.
    let r = RawSocket::with_ifname("no_such_interface0", IFF_BROADCAST, 1500);
    assert!(matches!(r, Err(SockError::Os { .. })));
}

#[test]
fn open_loopback_and_close() {
    match RawSocket::with_ifname("lo", IFF_LOOPBACK, 65536) {
        Ok(mut s) => {
            assert_eq!(s.link_layer(), LinkLayer::Eth);
            assert_eq!(s.blen(), 65536);
            assert!(!s.closed);
            s.close();
            assert!(s.closed);
        },
        // Without the needed privilege the OS refuses; classification
        // still must not be the failure.
        Err(e) => assert!(matches!(e, SockError::Os { .. })),
    }
}

#[test]
fn send_recv_wait_over_a_socket_pair() {
    let (a, b) = nix::sys::socket::socketpair(
        nix::sys::socket::AddressFamily::Unix,
        nix::sys::socket::SockType::Datagram,
        None,
        nix::sys::socket::SockFlag::SOCK_NONBLOCK,
    )
    .unwrap();
    let mut left = RawSocket { fd: a, dt: LinkLayer::Eth, blen: 2048, closed: false };
    let mut right = RawSocket { fd: b, dt: LinkLayer::Eth, blen: 2048, closed: false };

    // Nothing has been sent: a read surfaces the would-block error rather
    // than blocking, and a bounded wait returns.
    let mut buf = vec![0u8; 64];
    assert!(matches!(right.recv(&mut buf), Err(SockError::Os { .. })));
    assert_eq!(right.wait(Some(10)), Ok(()));

    let n = left.send(b"one frame").unwrap();
    assert!(n <= 9);
    assert_eq!(n, 9);

    assert_eq!(right.wait(Some(1000)), Ok(()));
    let mut buf = vec![7u8; 64];
    let got = right.recv(&mut buf).unwrap();
    assert_eq!(got, 9);
    assert_eq!(&buf[..got], b"one frame");
    assert_eq!(buf.len(), 64);
    // Only the returned count of leading bytes was written.
    assert!(buf[got..].iter().all(|&b| b == 7));

    left.close();
    right.close();
    assert!(left.closed && right.closed);
}

#[test]
fn wait_refuses_an_unwatchable_descriptor() {
    let s = RawSocket { fd: 5000, dt: LinkLayer::Eth, blen: 1, closed: false };
    assert!(matches!(s.wait(Some(1)), Err(SockError::Os { errno: 22 })));
}

#[test]
fn device_probe_gives_up_without_capture_devices() {
    // On hosts without numbered capture device nodes every candidate is
    // missing, so the bounded probe fails with the last OS error.
    match open_bpf() {
        Ok(fd) => assert!(fd >= 0),
        Err(e) => assert!(matches!(e, SockError::Os { .. })),
    }
}
