use leroyjenkins::ip_addr::IpAddr;
use leroyjenkins::ip_family::{ByIpFamily, IpFamily};
use leroyjenkins::masked_ip::{Mask, MaskedIpAddr};

#[test]
fn family_from_flag() {
    assert!(matches!(IpFamily::from_ipv4(true), IpFamily::V4));
    assert!(matches!(IpFamily::from_ipv4(false), IpFamily::V6));
}

#[test]
fn by_family_builds_and_selects() {
    let mut pair: ByIpFamily<u32> = ByIpFamily::try_new_with(|family| match family {
        IpFamily::V4 => Ok::<u32, ()>(4),
        IpFamily::V6 => Ok(6),
    })
    .unwrap();
    assert_eq!(*pair.by_family_mut(IpFamily::V4), 4);
    assert_eq!(*pair.by_family_mut(IpFamily::V6), 6);
    *pair.by_family_mut(IpFamily::V4) = 44;
    assert_eq!(pair.ipv4, 44);
    assert_eq!(pair.ipv6, 6);
}

#[test]
fn by_family_propagates_the_first_error() {
    let r: Result<ByIpFamily<u32>, &str> = ByIpFamily::try_new_with(|family| match family {
        IpFamily::V4 => Ok(4),
        IpFamily::V6 => Err("no v6"),
    });
    assert_eq!(r.err(), Some("no v6"));
}

#[test]
fn masks_cut_addresses_to_their_prefix() {
    let mask = Mask::new(ByIpFamily { ipv4: 24, ipv6: 64 });
    let m: MaskedIpAddr = mask.apply(&IpAddr::V4(0x0A0B0C0D));
    assert_eq!(m.ip, IpAddr::V4(0x0A0B0C00));
    assert_eq!(m.prefix_bits, 24);
    assert!(matches!(m.family(), IpFamily::V4));

    let v6 = IpAddr::V6(0x2001_0db8_1111_2222_3333_4444_5555_6666);
    let m = mask.apply(&v6);
    assert_eq!(m.ip, IpAddr::V6(0x2001_0db8_1111_2222_0000_0000_0000_0000));
    assert_eq!(m.prefix_bits, 64);
    assert!(matches!(m.family(), IpFamily::V6));
}

#[test]
fn full_width_masks_keep_the_address() {
    let mask = Mask::new(ByIpFamily { ipv4: 32, ipv6: 128 });
    assert_eq!(mask.apply(&IpAddr::V4(0x01020304)).ip, IpAddr::V4(0x01020304));
    let v6 = IpAddr::V6(0x2001_0db8_0000_0000_0000_0000_0000_0001);
    assert_eq!(mask.apply(&v6).ip, v6);
}
