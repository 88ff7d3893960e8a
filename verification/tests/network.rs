use emu_cli::network::{Address, AddressError, InvalidMacAddr, Ip, MacAddr};

#[test]
fn test_macaddr_convert() {
    assert_eq!(
        MacAddr::from_str("AB:CD:EF:00:01:02").unwrap().to_string(),
        "ab:cd:ef:00:01:02",
        "case normalization",
    );

    let good = vec![
        "ab:cd:ef:00:01:02",
        "01:02:03:04:05:06",
        "00:00:00:00:00:00",
    ];

    for item in good {
        assert_eq!(MacAddr::from_str(item).unwrap().to_string(), item, "{}", item);
    }

    let errors = vec![
        "ab:cd:ef:gh:ij:kl",
        "ab:cd:ef",
        "ff000:ab:cd:ef:01:02",
        "0:1:2:3:4:5",
    ];

    for error in errors {
        assert!(MacAddr::from_str(error).is_err(), "{}", error);
    }
}

#[test]
fn macaddr_octets() {
    let mac = MacAddr::from_str("aB:Cd:eF:00:01:ff").unwrap();
    assert_eq!(mac.octets(), [0xab, 0xcd, 0xef, 0x00, 0x01, 0xff]);
    assert_eq!(MacAddr::new([1, 2, 3, 4, 5, 255]).to_string(), "01:02:03:04:05:ff");
    assert_eq!(MacAddr::from_str("+a:00:00:00:00:00"), Err(InvalidMacAddr));
    assert_eq!(MacAddr::from_str("00:00:00:00:00:+1"), Err(InvalidMacAddr));
    assert_eq!(MacAddr::from_str("00:00:00:00:00:0+"), Err(InvalidMacAddr));
    assert_eq!(MacAddr::from_str("-1:00:00:00:00:00"), Err(InvalidMacAddr));
    assert_eq!(MacAddr::from_str(" 1:00:00:00:00:00"), Err(InvalidMacAddr));
    assert_eq!(MacAddr::from_str("0x:00:00:00:00:00"), Err(InvalidMacAddr));
    assert_eq!(
        MacAddr::from_str("0a:00:00:00:00:01").unwrap().octets(),
        [10, 0, 0, 0, 0, 1]
    );
    assert_eq!(MacAddr::from_str(""), Err(InvalidMacAddr));
    assert_eq!(MacAddr::from_str("00:00:00:00:00:00:00"), Err(InvalidMacAddr));
    assert_eq!(MacAddr::from_str("00:00:00:00:00:00:"), Err(InvalidMacAddr));
    assert_eq!(MacAddr::from_str("00-00-00-00-00-00"), Err(InvalidMacAddr));
    assert_eq!(MacAddr::from_str("00:00:00:00:00:0\u{e9}"), Err(InvalidMacAddr));
}

#[test]
fn address_split_wants_one_slash() {
    assert_eq!(
        Address::split("192.168.1.1/32"),
        Ok(("192.168.1.1".to_string(), "32".to_string()))
    );
    assert_eq!(Address::split("fe80::/128"), Ok(("fe80::".to_string(), "128".to_string())));
    assert_eq!(Address::split("/"), Ok(("".to_string(), "".to_string())));
    assert_eq!(Address::split("192.168.1.1"), Err(AddressError::InvalidCidr));
    assert_eq!(Address::split("fe80::"), Err(AddressError::InvalidCidr));
    assert_eq!(Address::split("1.1.1.1/2/3"), Err(AddressError::InvalidCidr));
    assert_eq!(Address::split(""), Err(AddressError::InvalidCidr));
}

#[test]
fn address_mask_fits_the_family() {
    let v4 = Ip::V4(0xc0a80101);
    let v6 = Ip::V6(0xfe80 << 112);
    assert_eq!(Address::new(v4, "32").map(|a| (a.ip, a.mask)), Ok((v4, 32)));
    assert_eq!(Address::new(v4, "0").map(|a| (a.ip, a.mask)), Ok((v4, 0)));
    assert_eq!(Address::new(v4, "+7").map(|a| (a.ip, a.mask)), Ok((v4, 7)));
    assert_eq!(Address::new(v4, "33"), Err(AddressError::MaskTooLarge));
    assert_eq!(Address::new(v4, "64"), Err(AddressError::MaskTooLarge));
    assert_eq!(Address::new(v6, "128").map(|a| (a.ip, a.mask)), Ok((v6, 128)));
    assert_eq!(Address::new(v6, "33").map(|a| (a.ip, a.mask)), Ok((v6, 33)));
    assert_eq!(Address::new(v6, "129"), Err(AddressError::MaskTooLarge));
    assert_eq!(Address::new(v6, "256"), Err(AddressError::InvalidMask));
    assert_eq!(Address::new(v4, ""), Err(AddressError::InvalidMask));
    assert_eq!(Address::new(v4, "a"), Err(AddressError::InvalidMask));
    assert_eq!(Address::new(v4, "-1"), Err(AddressError::InvalidMask));
    assert_eq!(
        AddressError::MaskTooLarge.message(),
        "Mask is larger than possible for this IP class"
    );
    assert_eq!(AddressError::InvalidCidr.message(), "invalid CIDR");
}

#[test]
fn address_identity_ignores_the_mask() {
    let a = Address { ip: Ip::V4(1), mask: 16 };
    let b = Address { ip: Ip::V4(1), mask: 32 };
    let c = Address { ip: Ip::V4(2), mask: 16 };
    let d = Address { ip: Ip::V6(1), mask: 16 };
    assert!(a.same_ip(&b));
    assert!(!a.same_ip(&c));
    assert!(!a.same_ip(&d));
    assert_eq!(a, b);
    assert_ne!(a, c);
    assert_ne!(a, d);
    let mut addresses = vec![a, b, c, Address { ip: Ip::V4(3), mask: 16 }];
    let orig = addresses.clone();
    addresses.sort();
    assert_eq!(addresses, orig);
    assert_eq!(addresses[0].mask, 16);
    assert_eq!(addresses[1].mask, 32);
    let zero = Address::default();
    assert_eq!((zero.ip, zero.mask), (Ip::V4(0), 0));
    assert_eq!(a.to_text("0.0.0.1"), "0.0.0.1/16");
}

fn parse(text: &str) -> Result<Address, AddressError> {
    let (ip, mask) = Address::split(text)?;
    let ip = match ip.as_str() {
        "192.168.1.1" => Ip::V4(0xc0a80101),
        "fe80::" => Ip::V6(0xfe80 << 112),
        other => panic!("no number is known for {}", other),
    };
    Address::new(ip, &mask)
}

#[test]
fn address_test_serde() {
    let a = parse("192.168.1.1/32").unwrap();
    assert_eq!(a, Address { ip: Ip::V4(0xc0a80101), mask: 32 });
    assert_eq!(a.mask, 32);

    let a = parse("fe80::/128").unwrap();
    assert_eq!(a, Address { ip: Ip::V6(0xfe80 << 112), mask: 128 });
    assert_eq!(a.mask, 128);

    let errors = vec![
        "192.168.1.1",
        "192.168.1.1/64",
        "fe80::/129",
        "fe80::",
        "hijk::",
    ];

    for error in errors {
        assert!(parse(error).is_err());
    }
}
