//! PCI devices, as sysfs names them.

use crate::cell::{lower_digit, lower_hex_char, push_char};
use crate::literal::{chars_of, hex_digit_value, hex_number, hex_value, is_hex_digit, parse_hex, parse_radix_hex, radix_number};
use pciid_parser::Database;
use vstd::prelude::*;
use vstd::string::*;

verus! {

/// The numbers a sysfs device directory name `DDDD:BB:SS.F` spells: domain,
/// bus, device and function, each in hexadecimal after an optional leading
/// `+`. The name must be twelve characters long and each number must fit a
/// byte; the separators are not looked at.
pub open spec fn sysfs_address(name: Seq<char>) -> Option<(u8, u8, u8, u8)> {
    if name.len() != 12 {
        None
    } else {
        let domain = radix_number(name.subrange(0, 4), 0xff);
        let bus = radix_number(name.subrange(5, 7), 0xff);
        let device = radix_number(name.subrange(8, 10), 0xff);
        let function = radix_number(name.subrange(11, 12), 0xff);
        if domain is Some && bus is Some && device is Some && function is Some {
            Some((domain->0 as u8, bus->0 as u8, device->0 as u8, function->0 as u8))
        } else {
            None
        }
    }
}

/// The lower-case hexadecimal digits of `f`, without leading zeros.
pub open spec fn short_hex(f: u8) -> Seq<char> {
    if f < 16 {
        seq![lower_hex_char(f)]
    } else {
        seq![lower_hex_char(f / 16), lower_hex_char(f % 16)]
    }
}

/// The sysfs directory name of a device, `DDDD:BB:SS.F` in lower-case
/// hexadecimal.
pub open spec fn dirname_text(d: PciDevice) -> Seq<char> {
    seq![
        '0',
        '0',
        lower_hex_char(d.domain / 16),
        lower_hex_char(d.domain % 16),
        ':',
        lower_hex_char(d.bus / 16),
        lower_hex_char(d.bus % 16),
        ':',
        lower_hex_char(d.device / 16),
        lower_hex_char(d.device % 16),
        '.',
    ] + short_hex(d.function)
}

/// Whether `c` has the Unicode White_Space property.
pub open spec fn is_white_space(c: char) -> bool {
    ('\u{9}' <= c && c <= '\u{d}') || c == ' ' || c == '\u{85}' || c == '\u{a0}' || c
        == '\u{1680}' || ('\u{2000}' <= c && c <= '\u{200a}') || c == '\u{2028}' || c
        == '\u{2029}' || c == '\u{202f}' || c == '\u{205f}' || c == '\u{3000}'
}

/// `s` without its leading white space.
pub open spec fn trim_start(s: Seq<char>) -> Seq<char>
    decreases s.len(),
{
    if s.len() > 0 && is_white_space(s[0]) {
        trim_start(s.drop_first())
    } else {
        s
    }
}

/// `s` without its trailing white space.
pub open spec fn trim_end(s: Seq<char>) -> Seq<char>
    decreases s.len(),
{
    if s.len() > 0 && is_white_space(s.last()) {
        trim_end(s.drop_last())
    } else {
        s
    }
}

/// `s` without leading and trailing white space.
pub open spec fn trimmed(s: Seq<char>) -> Seq<char> {
    trim_end(trim_start(s))
}

/// `t` without its `0x` prefix; nothing when it has none.
pub open spec fn strip_0x(t: Seq<char>) -> Option<Seq<char>> {
    if t.len() >= 2 && t[0] == '0' && t[1] == 'x' {
        Some(t.skip(2))
    } else {
        None
    }
}

/// The id that a sysfs attribute file such as `vendor` holds: its text
/// without surrounding whitespace and without the `0x` prefix.
pub open spec fn sysfs_id(text: Seq<char>) -> Option<Seq<char>> {
    strip_0x(trimmed(text))
}

/// The id or, when the database lists it, the name.
pub open spec fn label(entry: (String, Option<String>)) -> Seq<char> {
    match entry.1 {
        Some(name) => name@,
        None => entry.0@,
    }
}

/// `(id, name)` as a view.
pub open spec fn entry_view(entry: (String, Option<String>)) -> (Seq<char>, Option<Seq<char>>) {
    (
        entry.0@,
        match entry.1 {
            Some(name) => Some(name@),
            None => None,
        },
    )
}

/// The view of an optional name.
pub open spec fn name_view(name: Option<String>) -> Option<Seq<char>> {
    match name {
        Some(n) => Some(n@),
        None => None,
    }
}

/// pciid_parser's parsed pci.ids database, carried through unopened.
#[verifier::external_type_specification]
#[verifier::external_body]
pub struct ExDatabase(Database);

/// Relies on str::trim: the text without leading and trailing characters
/// of the Unicode White_Space property.
#[verifier::external_body]
fn trim_text(s: &str) -> (r: &str)
    ensures
        r@ == trimmed(s@),
{
    s.trim()
}

/// The vendor names that `Database::vendors` lists, by vendor id.
pub uninterp spec fn vendor_names(db: Database) -> Map<u16, Seq<char>>;

/// The device names that `Vendor::devices` lists under `Database::vendors`,
/// by vendor and device id.
pub uninterp spec fn device_names(db: Database) -> Map<(u16, u16), Seq<char>>;

/// The class names that `Database::classes` lists, by class code.
pub uninterp spec fn class_names(db: Database) -> Map<u8, Seq<char>>;

/// The subclass names that `Class::subclasses` lists under
/// `Database::classes`, by class and subclass code.
pub uninterp spec fn sub_class_names(db: Database) -> Map<(u8, u8), Seq<char>>;

/// The programming interface names that `SubClass::prog_ifs` lists under
/// `Database::classes`, by class, subclass and interface code.
pub uninterp spec fn prog_if_names(db: Database) -> Map<(u8, u8, u8), Seq<char>>;

/// The name `m` lists under `k`, if any.
pub open spec fn listed<K>(m: Map<K, Seq<char>>, k: K) -> Option<Seq<char>> {
    if m.contains_key(k) {
        Some(m[k])
    } else {
        None
    }
}

/// Relies on pciid_parser's `Database::vendors`: the name it lists for the
/// vendor, if any.
#[verifier::external_body]
fn vendor_name(db: &Database, vendor: u16) -> (r: Option<String>)
    ensures
        name_view(r) == listed(vendor_names(*db), vendor),
{
    db.vendors.get(&vendor).map(|v| v.name.clone())
}

/// Relies on pciid_parser's `Database::vendors` and `Vendor::devices`: the
/// name it lists for the vendor's device, if any.
#[verifier::external_body]
fn device_name(db: &Database, vendor: u16, device: u16) -> (r: Option<String>)
    ensures
        name_view(r) == listed(device_names(*db), (vendor, device)),
{
    db.vendors.get(&vendor).and_then(|v| v.devices.get(&device)).map(|d| d.name.clone())
}

/// Relies on pciid_parser's `Database::classes`: the name it lists for the
/// class, if any.
#[verifier::external_body]
fn class_name(db: &Database, class: u8) -> (r: Option<String>)
    ensures
        name_view(r) == listed(class_names(*db), class),
{
    db.classes.get(&class).map(|c| c.name.clone())
}

/// Relies on pciid_parser's `Database::classes` and `Class::subclasses`:
/// the name it lists for the subclass of the class, if any.
#[verifier::external_body]
fn sub_class_name(db: &Database, class: u8, sub_class: u8) -> (r: Option<String>)
    ensures
        name_view(r) == listed(sub_class_names(*db), (class, sub_class)),
{
    db.classes.get(&class).and_then(|c| c.subclasses.get(&sub_class)).map(|s| s.name.clone())
}

/// Relies on pciid_parser's `Database::classes`, `Class::subclasses` and
/// `SubClass::prog_ifs`: the name it lists for the programming interface,
/// if any.
#[verifier::external_body]
fn prog_if_name(db: &Database, class: u8, sub_class: u8, prog_if: u8) -> (r: Option<String>)
    ensures
        name_view(r) == listed(prog_if_names(*db), (class, sub_class, prog_if)),
{
    db.classes.get(&class).and_then(|c| c.subclasses.get(&sub_class)).and_then(
        |s| s.prog_ifs.get(&prog_if),
    ).cloned()
}

/// The vendor name `db` lists for the vendor id text `vid`.
pub open spec fn db_vendor(db: Database, vid: Seq<char>) -> Option<Seq<char>> {
    match hex_number(vid, 0xffff) {
        Some(v) => listed(vendor_names(db), v as u16),
        None => None,
    }
}

/// The device name `db` lists for the id texts `vid` and `did`.
pub open spec fn db_device(db: Database, vid: Seq<char>, did: Seq<char>) -> Option<Seq<char>> {
    match (hex_number(vid, 0xffff), hex_number(did, 0xffff)) {
        (Some(v), Some(d)) => listed(device_names(db), (v as u16, d as u16)),
        _ => None,
    }
}

/// The class name `db` lists for the class code text `cid`.
pub open spec fn db_class(db: Database, cid: Seq<char>) -> Option<Seq<char>> {
    match hex_number(cid.subrange(0, 2), 0xff) {
        Some(c) => listed(class_names(db), c as u8),
        None => None,
    }
}

/// The subclass name `db` lists for the class code text `cid`.
pub open spec fn db_sub_class(db: Database, cid: Seq<char>) -> Option<Seq<char>> {
    match (hex_number(cid.subrange(0, 2), 0xff), hex_number(cid.subrange(2, 4), 0xff)) {
        (Some(c), Some(s)) => listed(sub_class_names(db), (c as u8, s as u8)),
        _ => None,
    }
}

/// The programming interface name `db` lists for the class code text `cid`.
pub open spec fn db_prog_if(db: Database, cid: Seq<char>) -> Option<Seq<char>> {
    match (
        hex_number(cid.subrange(0, 2), 0xff),
        hex_number(cid.subrange(2, 4), 0xff),
        hex_number(cid.subrange(4, 6), 0xff),
    ) {
        (Some(c), Some(s), Some(p)) => listed(prog_if_names(db), (c as u8, s as u8, p as u8)),
        _ => None,
    }
}

/// `info` holds the ids `vid`, `did`, `cid` (split in three) and `rid`,
/// with the names `db` lists for them; a device or subclass name only under
/// a listed vendor or class, a programming interface only under a listed
/// subclass, and empty entries elsewhere.
pub open spec fn describes(
    info: PciDevBasicInfo,
    db: Database,
    vid: Seq<char>,
    did: Seq<char>,
    cid: Seq<char>,
    rid: Seq<char>,
) -> bool {
    &&& entry_view(info.vendor) == (vid, db_vendor(db, vid))
    &&& entry_view(info.device) == if db_vendor(db, vid) is Some {
        (did, db_device(db, vid, did))
    } else {
        (Seq::<char>::empty(), None)
    }
    &&& entry_view(info.class) == (cid.subrange(0, 2), db_class(db, cid))
    &&& entry_view(info.sub_class) == if db_class(db, cid) is Some {
        (cid.subrange(2, 4), db_sub_class(db, cid))
    } else {
        (Seq::<char>::empty(), None)
    }
    &&& entry_view(info.prog_if) == if db_class(db, cid) is Some && db_sub_class(db, cid) is Some {
        (cid.subrange(4, 6), db_prog_if(db, cid))
    } else {
        (Seq::<char>::empty(), None)
    }
    &&& info.revision@ == rid
}

/// What the PCI id database lists for the ids of one device; `None` where it
/// lists nothing.
pub struct PciNames {
    pub vendor: Option<String>,
    pub device: Option<String>,
    pub class: Option<String>,
    pub sub_class: Option<String>,
    pub prog_if: Option<String>,
}

/// Names and ids of a PCI device, each id with its name in the PCI id
/// database when the database has one.
#[derive(Debug, Default)]
pub struct PciDevBasicInfo {
    pub vendor: (String, Option<String>),
    pub device: (String, Option<String>),
    pub class: (String, Option<String>),
    pub sub_class: (String, Option<String>),
    pub prog_if: (String, Option<String>),
    pub revision: String,
}

/// The address of a PCI function.
#[derive(Clone, Copy, Debug, Default, PartialEq, Eq)]
pub struct PciDevice {
    pub domain: u8,
    pub bus: u8,
    pub device: u8,
    pub function: u8,
}

impl PciDevice {
    pub fn new(domain: u8, bus: u8, device: u8, function: u8) -> (r: Self)
        ensures
            r == (PciDevice { domain, bus, device, function }),
    {
        PciDevice { domain, bus, device, function }
    }

    /// The device a sysfs directory name such as `0000:02:0f.4` stands for.
    pub fn from_sysfs_dirname(dirname: &str) -> (r: Option<Self>)
        ensures
            match sysfs_address(dirname@) {
                Some((domain, bus, device, function)) => r == Some(
                    PciDevice { domain, bus, device, function },
                ),
                None => r is None,
            },
    {
        let name = chars_of(dirname);
        if name.len() != 12 {
            return None;
        }
        let domain = parse_radix_hex(name.as_slice(), 0, 4, 0xff);
        let bus = parse_radix_hex(name.as_slice(), 5, 7, 0xff);
        let device = parse_radix_hex(name.as_slice(), 8, 10, 0xff);
        let function = parse_radix_hex(name.as_slice(), 11, 12, 0xff);
        match (domain, bus, device, function) {
            (Some(domain), Some(bus), Some(device), Some(function)) => Some(
                PciDevice {
                    domain: domain as u8,
                    bus: bus as u8,
                    device: device as u8,
                    function: function as u8,
                },
            ),
            _ => None,
        }
    }
}

proof fn lemma_lower_digit(n: u8)
    requires
        n < 16,
    ensures
        is_hex_digit(lower_hex_char(n)),
        hex_digit_value(lower_hex_char(n)) == n,
{
}

proof fn lemma_two_digits(s: Seq<char>, b: u8)
    requires
        s == seq![lower_hex_char(b / 16), lower_hex_char(b % 16)],
    ensures
        hex_number(s, 0xff) == Some(b as nat),
{
    lemma_lower_digit(b / 16);
    lemma_lower_digit(b % 16);
    assert(s.drop_last() =~= seq![lower_hex_char(b / 16)]);
    assert(s.drop_last().drop_last() =~= Seq::<char>::empty());
    assert(s.drop_last().last() == lower_hex_char(b / 16));
    assert(hex_value(Seq::<char>::empty()) == 0);
    assert(hex_value(s.drop_last()) == (b / 16) as nat);
    assert(s.last() == lower_hex_char(b % 16));
}

/// Reading back the sysfs directory name of a device gives the device, for
/// every function number that takes a single digit.
pub proof fn lemma_dirname_round_trip(d: PciDevice)
    requires
        d.function < 16,
    ensures
        sysfs_address(dirname_text(d)) == Some((d.domain, d.bus, d.device, d.function)),
{
    let t = dirname_text(d);
    assert(t.len() == 12);
    lemma_lower_digit(d.function);
    assert(t.subrange(5, 7) =~= seq![lower_hex_char(d.bus / 16), lower_hex_char(d.bus % 16)]);
    assert(t.subrange(8, 10) =~= seq![lower_hex_char(d.device / 16), lower_hex_char(d.device % 16)]);
    assert(t.subrange(2, 4) =~= seq![lower_hex_char(d.domain / 16), lower_hex_char(d.domain % 16)]);
    lemma_two_digits(t.subrange(5, 7), d.bus);
    lemma_two_digits(t.subrange(8, 10), d.device);
    lemma_two_digits(t.subrange(2, 4), d.domain);
    lemma_lower_digit(d.domain / 16);
    lemma_lower_digit(d.domain % 16);
    let dom = t.subrange(0, 4);
    assert(dom.drop_last().drop_last() =~= seq!['0', '0']);
    assert(seq!['0', '0'].drop_last() =~= seq!['0']);
    assert(seq!['0'].drop_last() =~= Seq::<char>::empty());
    assert(hex_value(Seq::<char>::empty()) == 0);
    assert(hex_value(seq!['0']) == 0);
    assert(hex_value(seq!['0', '0']) == 0);
    assert(dom.drop_last() =~= seq!['0', '0', lower_hex_char(d.domain / 16)]);
    assert(hex_value(dom.drop_last()) == (d.domain / 16) as nat);
    assert(hex_value(dom) == d.domain as nat);
    assert(t.subrange(11, 12) =~= seq![lower_hex_char(d.function)]);
    assert(seq![lower_hex_char(d.function)].drop_last() =~= Seq::<char>::empty());
    assert(hex_value(seq![lower_hex_char(d.function)]) == d.function);
}

impl PciDevice {
    /// The name of the device's directory under sysfs.
    pub fn sysfs_dirname(&self) -> (r: String)
        ensures
            r@ == dirname_text(*self),
    {
        let mut r = String::new();
        push_char(&mut r, '0');
        push_char(&mut r, '0');
        push_char(&mut r, lower_digit(self.domain / 16));
        push_char(&mut r, lower_digit(self.domain % 16));
        push_char(&mut r, ':');
        push_char(&mut r, lower_digit(self.bus / 16));
        push_char(&mut r, lower_digit(self.bus % 16));
        push_char(&mut r, ':');
        push_char(&mut r, lower_digit(self.device / 16));
        push_char(&mut r, lower_digit(self.device % 16));
        push_char(&mut r, '.');
        if self.function >= 16 {
            push_char(&mut r, lower_digit(self.function / 16));
        }
        push_char(&mut r, lower_digit(self.function % 16));
        assert(r@ =~= dirname_text(*self));
        r
    }
}

fn label_of(entry: &(String, Option<String>)) -> (r: &str)
    ensures
        r@ == label(*entry),
{
    match &entry.1 {
        Some(name) => name.as_str(),
        None => entry.0.as_str(),
    }
}

impl PciDevBasicInfo {
    /// A one-line description: `class: vendor device (rev revision)`, each
    /// part by name where the database lists one, else by id.
    pub fn description(&self) -> (r: String)
        ensures
            r@ == label(self.class) + seq![':', ' '] + label(self.vendor) + seq![' '] + label(
                self.device,
            ) + seq![' ', '(', 'r', 'e', 'v', ' '] + self.revision@ + seq![')'],
    {
        proof {
            reveal_strlit(": ");
            reveal_strlit(" ");
            reveal_strlit(" (rev ");
            reveal_strlit(")");
            assert(": "@ =~= seq![':', ' ']);
            assert(" "@ =~= seq![' ']);
            assert(" (rev "@ =~= seq![' ', '(', 'r', 'e', 'v', ' ']);
            assert(")"@ =~= seq![')']);
        }
        let mut r = String::new();
        r.append(label_of(&self.class));
        r.append(": ");
        r.append(label_of(&self.vendor));
        r.append(" ");
        r.append(label_of(&self.device));
        r.append(" (rev ");
        r.append(self.revision.as_str());
        r.append(")");
        assert(r@ =~= label(self.class) + seq![':', ' '] + label(self.vendor) + seq![' '] + label(
            self.device,
        ) + seq![' ', '(', 'r', 'e', 'v', ' '] + self.revision@ + seq![')']);
        r
    }
}

/// `t` without its `0x` prefix.
pub fn strip_hex_prefix(t: &str) -> (r: Option<String>)
    ensures
        r is Some <==> strip_0x(t@) is Some,
        r is Some ==> r->0@ == strip_0x(t@)->0,
{
    let n = t.unicode_len();
    if n >= 2 && t.get_char(0) == '0' && t.get_char(1) == 'x' {
        let rest = t.substring_char(2, n);
        Some(String::from_str(rest))
    } else {
        None
    }
}

/// The id that a sysfs attribute file holds, from the file's text.
pub fn sysfs_id_text(text: &str) -> (r: Option<String>)
    ensures
        r is Some <==> sysfs_id(text@) is Some,
        r is Some ==> r->0@ == sysfs_id(text@)->0,
{
    strip_hex_prefix(trim_text(text))
}

/// A copy of `s[from..to]`.
fn sub_string(s: &str, from: usize, to: usize) -> (r: String)
    requires
        from <= to <= s@.len(),
    ensures
        r@ == s@.subrange(from as int, to as int),
{
    String::from_str(s.substring_char(from, to))
}

/// The basic information of a device from its ids and what the database
/// lists for them: a device or subclass name is only reported under a known
/// vendor or class, and a programming interface only under a known subclass;
/// the others are left empty.
pub fn assemble_basic_info(
    vendor_id: String,
    device_id: String,
    class_id: &str,
    revision: String,
    names: PciNames,
) -> (r: PciDevBasicInfo)
    requires
        class_id@.len() >= 6,
    ensures
        entry_view(r.vendor) == (vendor_id@, name_view(names.vendor)),
        entry_view(r.device) == if names.vendor is Some {
            (device_id@, name_view(names.device))
        } else {
            (Seq::<char>::empty(), None)
        },
        entry_view(r.class) == (class_id@.subrange(0, 2), name_view(names.class)),
        entry_view(r.sub_class) == if names.class is Some {
            (class_id@.subrange(2, 4), name_view(names.sub_class))
        } else {
            (Seq::<char>::empty(), None)
        },
        entry_view(r.prog_if) == if names.class is Some && names.sub_class is Some {
            (class_id@.subrange(4, 6), name_view(names.prog_if))
        } else {
            (Seq::<char>::empty(), None)
        },
        r.revision@ == revision@,
{
    let vendor_known = names.vendor.is_some();
    let class_known = names.class.is_some();
    let sub_class_known = names.sub_class.is_some();
    let device = if vendor_known {
        (device_id, names.device)
    } else {
        (String::new(), None)
    };
    let sub_class = if class_known {
        (sub_string(class_id, 2, 4), names.sub_class)
    } else {
        (String::new(), None)
    };
    let prog_if = if class_known && sub_class_known {
        (sub_string(class_id, 4, 6), names.prog_if)
    } else {
        (String::new(), None)
    };
    PciDevBasicInfo {
        vendor: (vendor_id, names.vendor),
        device,
        class: (sub_string(class_id, 0, 2), names.class),
        sub_class,
        prog_if,
        revision,
    }
}

/// The number that `s` spells in hexadecimal, if it is at most `max`.
fn hex_of(s: &str, max: u128) -> (r: Option<u128>)
    ensures
        r is Some <==> hex_number(s@, max as nat) is Some,
        r is Some ==> r->0 as nat == hex_number(s@, max as nat)->0,
{
    let v = chars_of(s);
    let n = v.len();
    assert(v@.subrange(0, n as int) =~= v@);
    parse_hex(v.as_slice(), 0, n, max)
}

/// Looks a device up in `db` by the texts of its sysfs attribute files
/// `vendor`, `device`, `class` and `revision`. Nothing when an attribute
/// lacks its `0x` prefix or the class code is shorter than six digits;
/// otherwise the ids are the attributes' ids, the class id split into class,
/// subclass and programming interface, with the names `db` lists for them.
pub fn basic_info_from(
    db: &Database,
    vendor: &str,
    device: &str,
    class: &str,
    revision: &str,
) -> (r: Option<PciDevBasicInfo>)
    ensures
        r is Some <==> {
            &&& sysfs_id(vendor@) is Some
            &&& sysfs_id(device@) is Some
            &&& sysfs_id(class@) is Some
            &&& sysfs_id(revision@) is Some
            &&& sysfs_id(class@)->0.len() >= 6
        },
        r is Some ==> describes(
            r->0,
            *db,
            sysfs_id(vendor@)->0,
            sysfs_id(device@)->0,
            sysfs_id(class@)->0,
            sysfs_id(revision@)->0,
        ),
{
    let vendor_id = match sysfs_id_text(vendor) {
        Some(id) => id,
        None => return None,
    };
    let device_id = match sysfs_id_text(device) {
        Some(id) => id,
        None => return None,
    };
    let class_id = match sysfs_id_text(class) {
        Some(id) => id,
        None => return None,
    };
    let revision = match sysfs_id_text(revision) {
        Some(id) => id,
        None => return None,
    };
    let class_text = class_id.as_str();
    if class_text.unicode_len() < 6 {
        return None;
    }
    let vendor_num = hex_of(vendor_id.as_str(), 0xffff);
    let device_num = hex_of(device_id.as_str(), 0xffff);
    let class_num = hex_of(sub_string(class_text, 0, 2).as_str(), 0xff);
    let sub_class_num = hex_of(sub_string(class_text, 2, 4).as_str(), 0xff);
    let prog_if_num = hex_of(sub_string(class_text, 4, 6).as_str(), 0xff);
    let names = PciNames {
        vendor: match vendor_num {
            Some(v) => vendor_name(db, v as u16),
            None => None,
        },
        device: match (vendor_num, device_num) {
            (Some(v), Some(d)) => device_name(db, v as u16, d as u16),
            _ => None,
        },
        class: match class_num {
            Some(c) => class_name(db, c as u8),
            None => None,
        },
        sub_class: match (class_num, sub_class_num) {
            (Some(c), Some(s)) => sub_class_name(db, c as u8, s as u8),
            _ => None,
        },
        prog_if: match (class_num, sub_class_num, prog_if_num) {
            (Some(c), Some(s), Some(p)) => prog_if_name(db, c as u8, s as u8, p as u8),
            _ => None,
        },
    };
    Some(assemble_basic_info(vendor_id, device_id, class_text, revision, names))
}

} // verus!
