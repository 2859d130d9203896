use pciid_parser::schema::{Class, Device, SubClass, Vendor};
use pciid_parser::Database;
use rwlinux::pci::{
    assemble_basic_info, basic_info_from, strip_hex_prefix, sysfs_id_text, PciDevBasicInfo,
    PciDevice, PciNames,
};
use std::collections::HashMap;

fn database() -> Database {
    let mut devices = HashMap::new();
    devices.insert(
        0x1237,
        Device { name: String::from("440FX - 82441FX PMC"), subdevices: HashMap::new() },
    );
    let mut vendors = HashMap::new();
    vendors.insert(0x8086, Vendor { name: String::from("Intel Corporation"), devices });
    let mut prog_ifs = HashMap::new();
    prog_ifs.insert(0x01, String::from("Subtractive decode"));
    let mut subclasses = HashMap::new();
    subclasses.insert(0x04, SubClass { name: String::from("PCI bridge"), prog_ifs });
    let mut classes = HashMap::new();
    classes.insert(0x06, Class { name: String::from("Bridge"), subclasses });
    Database { vendors, classes }
}

fn entry(id: &str, name: Option<&str>) -> (String, Option<String>) {
    (String::from(id), name.map(String::from))
}

#[test]
fn sysfs_id_strips_whitespace_and_prefix() {
    assert_eq!(sysfs_id_text(" 0x8086\n"), Some(String::from("8086")));
    assert_eq!(sysfs_id_text("0x060400\n"), Some(String::from("060400")));
    assert_eq!(sysfs_id_text("0x"), Some(String::new()));
    assert_eq!(sysfs_id_text("8086\n"), None);
    assert_eq!(sysfs_id_text(""), None);
}

#[test]
fn strip_prefix_only_at_start() {
    assert_eq!(strip_hex_prefix("0x12"), Some(String::from("12")));
    assert_eq!(strip_hex_prefix("0X12"), None);
    assert_eq!(strip_hex_prefix(" 0x12"), None);
}

#[test]
fn basic_info_with_known_names() {
    let db = database();
    let info =
        basic_info_from(&db, "0x8086\n", "0x1237\n", "0x060401\n", "0x02\n").unwrap();
    assert_eq!(info.vendor, entry("8086", Some("Intel Corporation")));
    assert_eq!(info.device, entry("1237", Some("440FX - 82441FX PMC")));
    assert_eq!(info.class, entry("06", Some("Bridge")));
    assert_eq!(info.sub_class, entry("04", Some("PCI bridge")));
    assert_eq!(info.prog_if, entry("01", Some("Subtractive decode")));
    assert_eq!(info.revision, "02");
    assert_eq!(
        info.description(),
        "Bridge: Intel Corporation 440FX - 82441FX PMC (rev 02)"
    );
}

#[test]
fn basic_info_with_unknown_names() {
    let db = database();
    let info = basic_info_from(&db, "0x1af4\n", "0x1000\n", "0x020000\n", "0x00\n").unwrap();
    assert_eq!(info.vendor, entry("1af4", None));
    assert_eq!(info.device, entry("", None));
    assert_eq!(info.class, entry("02", None));
    assert_eq!(info.sub_class, entry("", None));
    assert_eq!(info.prog_if, entry("", None));
    assert_eq!(info.description(), "02: 1af4  (rev 00)");

    let info = basic_info_from(&db, "0x8086\n", "0x9999\n", "0x060700\n", "0x01\n").unwrap();
    assert_eq!(info.vendor, entry("8086", Some("Intel Corporation")));
    assert_eq!(info.device, entry("9999", None));
    assert_eq!(info.class, entry("06", Some("Bridge")));
    assert_eq!(info.sub_class, entry("07", None));
    assert_eq!(info.prog_if, entry("", None));
}

#[test]
fn basic_info_rejects_malformed_attributes() {
    let db = database();
    assert!(basic_info_from(&db, "8086\n", "0x1237\n", "0x060400\n", "0x02\n").is_none());
    assert!(basic_info_from(&db, "0x8086\n", "0x1237\n", "0x0604\n", "0x02\n").is_none());
    assert!(basic_info_from(&db, "0x8086\n", "0x1237\n", "0x060400\n", "2\n").is_none());
}

#[test]
fn assemble_keeps_names_under_known_parents_only() {
    let names = PciNames {
        vendor: None,
        device: Some(String::from("dev")),
        class: Some(String::from("cls")),
        sub_class: None,
        prog_if: Some(String::from("pi")),
    };
    let info = assemble_basic_info(
        String::from("abcd"),
        String::from("0001"),
        "0c0330",
        String::from("10"),
        names,
    );
    assert_eq!(info.vendor, entry("abcd", None));
    assert_eq!(info.device, entry("", None));
    assert_eq!(info.class, entry("0c", Some("cls")));
    assert_eq!(info.sub_class, entry("03", None));
    assert_eq!(info.prog_if, entry("", None));
    assert_eq!(info.revision, "10");
}

#[test]
fn description_prefers_names() {
    let info = PciDevBasicInfo {
        vendor: entry("10de", Some("NVIDIA")),
        device: entry("1c82", None),
        class: entry("03", Some("Display controller")),
        sub_class: entry("00", None),
        prog_if: entry("", None),
        revision: String::from("a1"),
    };
    assert_eq!(info.description(), "Display controller: NVIDIA 1c82 (rev a1)");
}

#[test]
fn sysfs_dirname_formats_lower_case() {
    assert_eq!(PciDevice::new(0, 2, 0x0f, 4).sysfs_dirname(), "0000:02:0f.4");
    assert_eq!(PciDevice::new(0xab, 0xcd, 0xef, 0x1f).sysfs_dirname(), "00ab:cd:ef.1f");
}

#[test]
fn sysfs_dirname_round_trip() {
    for d in [PciDevice::new(0, 0, 0, 0), PciDevice::new(0xff, 0x80, 0x1f, 7)] {
        assert_eq!(PciDevice::from_sysfs_dirname(&d.sysfs_dirname()), Some(d));
    }
}
