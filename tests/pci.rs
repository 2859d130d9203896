use rwlinux::pci::PciDevice;

#[test]
fn test_from_syf_dirname() {
    let dirname: &str = "0000:02:0f.4";
    let pd = PciDevice::from_sysfs_dirname(dirname).expect("fail to parse data from dirname");
    assert_eq!(pd.domain, 0);
    assert_eq!(pd.bus, 2);
    assert_eq!(pd.device, 15);
    assert_eq!(pd.function, 4);
}

#[test]
fn sysfs_dirname_upper_case_digits() {
    let pd = PciDevice::from_sysfs_dirname("00ff:AB:1F.7").unwrap();
    assert_eq!(pd, PciDevice::new(0xff, 0xab, 0x1f, 7));
}

#[test]
fn sysfs_dirname_wrong_length() {
    assert!(PciDevice::from_sysfs_dirname("0000:02:0f.41").is_none());
    assert!(PciDevice::from_sysfs_dirname("0000:02:0f").is_none());
    assert!(PciDevice::from_sysfs_dirname("").is_none());
}

#[test]
fn sysfs_dirname_bad_digits() {
    assert!(PciDevice::from_sysfs_dirname("0000:0g:0f.4").is_none());
    assert!(PciDevice::from_sysfs_dirname("0000:02:0f.x").is_none());
    assert!(PciDevice::from_sysfs_dirname("0000:0+:0f.4").is_none());
    assert!(PciDevice::from_sysfs_dirname("0000:-2:0f.4").is_none());
    assert!(PciDevice::from_sysfs_dirname("0000:02:0f.+").is_none());
}

#[test]
fn sysfs_dirname_fields_take_a_leading_plus() {
    assert_eq!(PciDevice::from_sysfs_dirname("+000:02:0f.4"), Some(PciDevice::new(0, 2, 0x0f, 4)));
    assert_eq!(PciDevice::from_sysfs_dirname("0000:+f:0f.4"), Some(PciDevice::new(0, 0x0f, 0x0f, 4)));
    assert_eq!(PciDevice::from_sysfs_dirname("+0ff:+a:+1.7"), Some(PciDevice::new(0xff, 0x0a, 1, 7)));
}

#[test]
fn sysfs_dirname_domain_must_fit_a_byte() {
    assert!(PciDevice::from_sysfs_dirname("0100:02:0f.4").is_none());
}

#[test]
fn pci_device_new_keeps_fields() {
    let d = PciDevice::new(1, 2, 3, 4);
    assert_eq!((d.domain, d.bus, d.device, d.function), (1, 2, 3, 4));
}
