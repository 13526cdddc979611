//! The text by which a device is known from one run to the next.
//!
//! A device that reports a serial number or a unit id is known by that. One that
//! does not is known by the way it is reached.

use vstd::prelude::*;
use vstd::string::{StrSliceExecFns, StringExecFns};

use crate::device::{DeviceRoute, RouteModel};
use crate::ordered::{opt, Same};
use crate::text::{
    after_nth, after_prefix, decimal, digit, hexadecimal, law_a_decimal_reads_as_its_number,
    law_a_hexadecimal_reads_as_its_number, number, push_decimal, push_hexadecimal, sixteens,
    small_letters, strip_prefix, strip_to_nth, to_small_letters,
};

verus! {

/// What a device says of itself.
#[derive(Clone, Debug, PartialEq, Eq)]
pub enum DeviceIdentity {
    /// A unit id, all zero where the device has none.
    Unit([u8; 4]),
    /// A serial number.
    Serial(String),
}

/// The model of a [`DeviceIdentity`].
pub ghost enum IdentityModel {
    Unit(Seq<u8>),
    Serial(Seq<char>),
}

/// A device as it is reached now, with what it says of itself.
#[derive(Clone, Debug, PartialEq, Eq)]
pub enum DeviceStableId {
    /// On its own.
    Direct { vendor_id: u16, product_id: u16, identity: DeviceIdentity },
    /// Through a slot of a receiver.
    Bolt { receiver_uid: String, slot: u8 },
    /// On its own, without HID++.
    RawHid {
        vendor_id: u16,
        product_id: u16,
        usage_page: u16,
        usage_id: u16,
        identity: String,
    },
    /// By no known route.
    Unknown { slot: u8, identity: DeviceIdentity },
}

/// The model of a [`DeviceStableId`].
pub ghost enum StableModel {
    Direct { vendor_id: u16, product_id: u16, identity: IdentityModel },
    Bolt { receiver_uid: Seq<char>, slot: u8 },
    RawHid {
        vendor_id: u16,
        product_id: u16,
        usage_page: u16,
        usage_id: u16,
        identity: Seq<char>,
    },
    Unknown { slot: u8, identity: IdentityModel },
}

/// A key that names one physical device, or the one slot it sits in.
#[derive(Debug, PartialEq, Eq)]
pub struct PhysicalDeviceKey {
    text: String,
}

/// Whether `c` is a small hexadecimal digit.
pub open spec fn is_hex(c: char) -> bool {
    '0' <= c <= '9' || 'a' <= c <= 'f'
}

/// Whether `digits` are eight small hexadecimal digits that are not all zero.
pub open spec fn is_unit_id(digits: Seq<char>) -> bool {
    &&& digits.len() == 8
    &&& forall|i: int| 0 <= i < 8 ==> is_hex(#[trigger] digits[i])
    &&& exists|i: int| 0 <= i < 8 && (#[trigger] digits[i]) != '0'
}

/// Whether `text` is the key of a serial number or of a unit id that is not all
/// zero.
pub open spec fn is_identity_key(text: Seq<char>) -> bool {
    match (after_prefix(text, "unit:"@), after_prefix(text, "serial:"@)) {
        (Some(id), _) => is_unit_id(id),
        (_, Some(serial)) => serial.len() > 0,
        _ => false,
    }
}

/// Whether what follows `prefix` and then `fields` fields of `text` is an
/// identity key.
pub open spec fn ends_in_identity(text: Seq<char>, prefix: Seq<char>, fields: nat) -> bool {
    match after_prefix(text, prefix) {
        Some(rest) => match after_nth(rest, ':', fields) {
            Some(identity) => is_identity_key(identity),
            None => false,
        },
        None => false,
    }
}

/// Whether `text` names one physical device: by its identity, by its identity
/// behind the way it is reached, or by the receiver slot it sits in.
pub open spec fn is_physical_key(text: Seq<char>) -> bool {
    ||| is_identity_key(text)
    ||| after_prefix(text, "receiver:"@) matches Some(rest) && rest.len() > 0
    ||| ends_in_identity(text, "direct:"@, 2)
    ||| ends_in_identity(text, "raw:"@, 4)
    ||| ends_in_identity(text, "unknown:"@, 1)
}

impl View for DeviceIdentity {
    type V = IdentityModel;

    open spec fn view(&self) -> IdentityModel {
        match self {
            DeviceIdentity::Unit(id) => IdentityModel::Unit(id@),
            DeviceIdentity::Serial(serial) => IdentityModel::Serial(serial@),
        }
    }
}

impl View for DeviceStableId {
    type V = StableModel;

    open spec fn view(&self) -> StableModel {
        match self {
            DeviceStableId::Direct { vendor_id, product_id, identity } => StableModel::Direct {
                vendor_id: *vendor_id,
                product_id: *product_id,
                identity: identity@,
            },
            DeviceStableId::Bolt { receiver_uid, slot } => StableModel::Bolt {
                receiver_uid: receiver_uid@,
                slot: *slot,
            },
            DeviceStableId::RawHid { vendor_id, product_id, usage_page, usage_id, identity } =>
                StableModel::RawHid {
                vendor_id: *vendor_id,
                product_id: *product_id,
                usage_page: *usage_page,
                usage_id: *usage_id,
                identity: identity@,
            },
            DeviceStableId::Unknown { slot, identity } => StableModel::Unknown {
                slot: *slot,
                identity: identity@,
            },
        }
    }
}

impl View for PhysicalDeviceKey {
    type V = Seq<char>;

    closed spec fn view(&self) -> Seq<char> {
        self.text@
    }
}

impl IdentityModel {
    /// Whether the identity tells one device from another.
    pub open spec fn physical(self) -> bool {
        match self {
            IdentityModel::Unit(id) => id[0] != 0 || id[1] != 0 || id[2] != 0 || id[3] != 0,
            IdentityModel::Serial(serial) => serial.len() > 0,
        }
    }

    /// The identity as text.
    pub open spec fn key(self) -> Seq<char> {
        match self {
            IdentityModel::Unit(id) => "unit:"@ + unit_digits(id),
            IdentityModel::Serial(serial) => "serial:"@ + serial,
        }
    }

    /// The identity a device with this serial number and unit id has: the serial
    /// number in small letters where there is one, else the unit id.
    pub open spec fn of_parts(serial: Option<Seq<char>>, unit_id: Seq<u8>) -> IdentityModel {
        match serial {
            Some(s) => if s.len() > 0 {
                IdentityModel::Serial(small_letters(s))
            } else {
                IdentityModel::Unit(unit_id)
            },
            None => IdentityModel::Unit(unit_id),
        }
    }

    /// The key settings are kept under, where the identity tells one device from
    /// another.
    pub open spec fn config_key(self) -> Option<Seq<char>> {
        if self.physical() {
            Some(self.key())
        } else {
            None
        }
    }
}

/// Four bytes as eight digits.
pub open spec fn unit_digits(id: Seq<u8>) -> Seq<char> {
    hexadecimal(id[0] as nat, 2) + hexadecimal(id[1] as nat, 2) + hexadecimal(id[2] as nat, 2)
        + hexadecimal(id[3] as nat, 2)
}

/// A separator and four digits, and so on.
pub open spec fn hex_field(value: u16) -> Seq<char> {
    hexadecimal(value as nat, 4)
}

impl StableModel {
    /// The way the device is reached, as text.
    pub open spec fn route_key(self) -> Seq<char> {
        match self {
            StableModel::Direct { vendor_id, product_id, identity } => "direct:"@ + hex_field(
                vendor_id,
            ) + ":"@ + hex_field(product_id),
            StableModel::Bolt { receiver_uid, slot } => "receiver:"@ + receiver_uid + ":slot:"@
                + decimal(slot as nat),
            StableModel::RawHid { vendor_id, product_id, usage_page, usage_id, identity } =>
                "raw:"@ + hex_field(vendor_id) + ":"@ + hex_field(product_id) + ":"@ + hex_field(
                usage_page,
            ) + ":"@ + hex_field(usage_id) + ":"@ + identity,
            StableModel::Unknown { slot, identity } => "unknown:"@ + decimal(slot as nat) + ":"@
                + identity.key(),
        }
    }

    /// The key that names the device from the way it is reached, where that
    /// tells one device from another.
    pub open spec fn physical_key(self) -> Option<Seq<char>> {
        match self {
            StableModel::Direct { vendor_id, product_id, identity } => if identity.physical() {
                Some(self.route_key() + ":"@ + identity.key())
            } else {
                None
            },
            StableModel::Bolt { receiver_uid, slot } => Some(self.route_key()),
            StableModel::RawHid { vendor_id, product_id, usage_page, usage_id, identity } =>
                if is_identity_key(identity) {
                Some(self.route_key())
            } else {
                None
            },
            StableModel::Unknown { slot, identity } => if identity.physical() {
                Some(self.route_key())
            } else {
                None
            },
        }
    }

    /// The device behind a route.
    pub open spec fn of_parts(
        route: Option<RouteModel>,
        slot: u8,
        serial: Option<Seq<char>>,
        unit_id: Seq<u8>,
    ) -> StableModel {
        match route {
            Some(RouteModel::Direct { vendor_id, product_id }) => StableModel::Direct {
                vendor_id,
                product_id,
                identity: IdentityModel::of_parts(serial, unit_id),
            },
            Some(RouteModel::Bolt { receiver_uid, slot }) => StableModel::Bolt {
                receiver_uid,
                slot,
            },
            Some(
                RouteModel::RawHid { vendor_id, product_id, usage_page, usage_id, identity },
            ) => StableModel::RawHid { vendor_id, product_id, usage_page, usage_id, identity },
            None => StableModel::Unknown {
                slot,
                identity: IdentityModel::of_parts(serial, unit_id),
            },
        }
    }
}

/// The route key is the key of the device itself for every way of reaching it
/// but the direct one, whose route leaves out the identity.
pub proof fn law_route_key_is_the_physical_key_unless_direct(stable: StableModel)
    requires
        stable.physical_key() is Some,
    ensures
        !(stable is Direct) ==> stable.physical_key() == Some(stable.route_key()),
        stable is Direct ==> stable.physical_key() != Some(stable.route_key()),
{
    if stable is Direct {
        let key = stable.physical_key().unwrap();
        reveal_strlit(":");
        assert(key.len() > stable.route_key().len());
    }
}

proof fn lemma_hex_digits(value: nat, width: nat)
    ensures
        hexadecimal(value, width).len() == width,
        forall|i: int| 0 <= i < width ==> is_hex(#[trigger] hexadecimal(value, width)[i]),
    decreases width,
{
    if width > 0 {
        lemma_hex_digits(value / 16, (width - 1) as nat);
    }
}

proof fn lemma_byte_digits(value: u8)
    ensures
        hexadecimal(value as nat, 2).len() == 2,
        value != 0 ==> hexadecimal(value as nat, 2)[0] != '0' || hexadecimal(value as nat, 2)[1]
            != '0',
        value == 0 ==> hexadecimal(value as nat, 2) == seq!['0', '0'],
{
    reveal_with_fuel(hexadecimal, 3);
    assert(hexadecimal(value as nat, 2) =~= seq![
        digit((value as nat / 16) % 16),
        digit(value as nat % 16),
    ]);
}

proof fn lemma_decimal_digits(value: nat)
    ensures
        decimal(value).len() > 0,
        forall|i: int| 0 <= i < decimal(value).len() ==> '0' <= #[trigger] decimal(value)[i] <= '9',
    decreases value,
{
    if value >= 10 {
        lemma_decimal_digits(value / 10);
    }
}

/// A physical identity makes an identity key.
pub proof fn lemma_identity_key(identity: IdentityModel)
    requires
        identity.physical(),
    ensures
        is_identity_key(identity.key()),
{
    reveal_strlit("unit:");
    reveal_strlit("serial:");
    let key = identity.key();
    match identity {
        IdentityModel::Unit(id) => {
            let digits = unit_digits(id);
            lemma_byte_digits(id[0]);
            lemma_byte_digits(id[1]);
            lemma_byte_digits(id[2]);
            lemma_byte_digits(id[3]);
            lemma_hex_digits(id[0] as nat, 2);
            lemma_hex_digits(id[1] as nat, 2);
            lemma_hex_digits(id[2] as nat, 2);
            lemma_hex_digits(id[3] as nat, 2);
            assert("unit:"@.is_prefix_of(key));
            assert(key.skip(5) =~= digits);
            let parts = seq![
                hexadecimal(id[0] as nat, 2),
                hexadecimal(id[1] as nat, 2),
                hexadecimal(id[2] as nat, 2),
                hexadecimal(id[3] as nat, 2),
            ];
            assert(digits.len() == 8);
            assert forall|i: int| 0 <= i < 8 implies is_hex(#[trigger] digits[i]) by {
                assert(digits[i] == parts[i / 2][i % 2]);
            }
            let n = if id[0] != 0 {
                0int
            } else if id[1] != 0 {
                1
            } else if id[2] != 0 {
                2
            } else {
                3
            };
            assert(digits[2 * n] == parts[n][0] && digits[2 * n + 1] == parts[n][1]);
            if digits[2 * n] != '0' {
                assert(is_unit_id(digits));
            } else {
                assert(digits[2 * n + 1] != '0');
                assert(is_unit_id(digits));
            }
            assert(after_prefix(key, "unit:"@) == Some(digits));
        },
        IdentityModel::Serial(serial) => {
            assert("serial:"@.is_prefix_of(key));
            assert(key.skip(7) =~= serial);
            assert(key[0] == 's');
            assert("unit:"@[0] == 'u');
        },
    }
}

/// A field without a separator is skipped whole.
proof fn lemma_skip_field(field: Seq<char>, rest: Seq<char>, n: nat)
    requires
        forall|i: int| 0 <= i < field.len() ==> (#[trigger] field[i]) != ':',
    ensures
        after_nth(field + ":"@ + rest, ':', n + 1) == after_nth(rest, ':', n),
    decreases field.len(),
{
    reveal_strlit(":");
    let text = field + ":"@ + rest;
    if field.len() == 0 {
        assert(text[0] == ':');
        assert(text.skip(1) =~= rest);
    } else {
        lemma_skip_field(field.skip(1), rest, n);
        assert(text.skip(1) =~= field.skip(1) + ":"@ + rest);
        assert(text[0] == field[0]);
    }
}

proof fn lemma_direct_key(vendor_id: u16, product_id: u16, identity: IdentityModel)
    requires
        identity.physical(),
    ensures
        ends_in_identity(
            (StableModel::Direct { vendor_id, product_id, identity }).route_key() + ":"@
                + identity.key(),
            "direct:"@,
            2,
        ),
{
    let key = (StableModel::Direct { vendor_id, product_id, identity }).route_key() + ":"@
        + identity.key();
    lemma_identity_key(identity);
    lemma_hex_digits(vendor_id as nat, 4);
    lemma_hex_digits(product_id as nat, 4);
    let tail = hex_field(product_id) + ":"@ + identity.key();
    let rest = hex_field(vendor_id) + ":"@ + tail;
    lemma_skip_field(hex_field(product_id), identity.key(), 0);
    lemma_skip_field(hex_field(vendor_id), tail, 1);
    assert(key =~= "direct:"@ + rest);
    assert(key.skip("direct:"@.len() as int) =~= rest);
    assert(after_nth(identity.key(), ':', 0) == Some(identity.key()));
}

proof fn lemma_raw_key(
    vendor_id: u16,
    product_id: u16,
    usage_page: u16,
    usage_id: u16,
    identity: Seq<char>,
)
    requires
        is_identity_key(identity),
    ensures
        ends_in_identity(
            (StableModel::RawHid {
                vendor_id,
                product_id,
                usage_page,
                usage_id,
                identity,
            }).route_key(),
            "raw:"@,
            4,
        ),
{
    let key = (StableModel::RawHid {
        vendor_id,
        product_id,
        usage_page,
        usage_id,
        identity,
    }).route_key();
    lemma_hex_digits(vendor_id as nat, 4);
    lemma_hex_digits(product_id as nat, 4);
    lemma_hex_digits(usage_page as nat, 4);
    lemma_hex_digits(usage_id as nat, 4);
    let fourth = hex_field(usage_id) + ":"@ + identity;
    let third = hex_field(usage_page) + ":"@ + fourth;
    let second = hex_field(product_id) + ":"@ + third;
    let first = hex_field(vendor_id) + ":"@ + second;
    lemma_skip_field(hex_field(usage_id), identity, 0);
    lemma_skip_field(hex_field(usage_page), fourth, 1);
    lemma_skip_field(hex_field(product_id), third, 2);
    lemma_skip_field(hex_field(vendor_id), second, 3);
    assert(key =~= "raw:"@ + first);
    assert(key.skip("raw:"@.len() as int) =~= first);
    assert(after_nth(identity, ':', 0) == Some(identity));
}

proof fn lemma_unknown_key(slot: u8, identity: IdentityModel)
    requires
        identity.physical(),
    ensures
        ends_in_identity(
            (StableModel::Unknown { slot, identity }).route_key(),
            "unknown:"@,
            1,
        ),
{
    let key = (StableModel::Unknown { slot, identity }).route_key();
    lemma_identity_key(identity);
    lemma_decimal_digits(slot as nat);
    let rest = decimal(slot as nat) + ":"@ + identity.key();
    lemma_skip_field(decimal(slot as nat), identity.key(), 0);
    assert(key =~= "unknown:"@ + rest);
    assert(key.skip("unknown:"@.len() as int) =~= rest);
    assert(after_nth(identity.key(), ':', 0) == Some(identity.key()));
}

/// The physical key of a device is a physical key.
pub proof fn lemma_stable_physical_key(stable: StableModel)
    requires
        stable.physical_key() is Some,
    ensures
        is_physical_key(stable.physical_key().unwrap()),
{
    let key = stable.physical_key().unwrap();
    match stable {
        StableModel::Direct { vendor_id, product_id, identity } => {
            lemma_direct_key(vendor_id, product_id, identity);
        },
        StableModel::Bolt { receiver_uid, slot } => {
            reveal_strlit("receiver:");
            reveal_strlit(":slot:");
            let rest = receiver_uid + ":slot:"@ + decimal(slot as nat);
            assert(key =~= "receiver:"@ + rest);
            assert(key.skip("receiver:"@.len() as int) =~= rest);
        },
        StableModel::RawHid { vendor_id, product_id, usage_page, usage_id, identity } => {
            lemma_raw_key(vendor_id, product_id, usage_page, usage_id, identity);
        },
        StableModel::Unknown { slot, identity } => {
            lemma_unknown_key(slot, identity);
        },
    }
}

fn identity_key_text(text: &str) -> (yes: bool)
    ensures
        yes == is_identity_key(text@),
{
    if let Some(id) = strip_prefix(text, "unit:") {
        if id.unicode_len() != 8 {
            return false;
        }
        let mut nonzero: bool = false;
        let mut i: usize = 0;
        while i < 8
            invariant
                i <= 8,
                after_prefix(text@, "unit:"@) == Some(id@),
                id@.len() == 8,
                forall|j: int| 0 <= j < i ==> is_hex(#[trigger] id@[j]),
                nonzero == exists|j: int| 0 <= j < i && (#[trigger] id@[j]) != '0',
            decreases 8 - i,
        {
            let c: char = id.get_char(i);
            if !(('0' <= c && c <= '9') || ('a' <= c && c <= 'f')) {
                assert(!is_hex(id@[i as int]));
                return false;
            }
            if c != '0' {
                nonzero = true;
                assert(id@[i as int] != '0');
            }
            i += 1;
        }
        return nonzero;
    }
    match strip_prefix(text, "serial:") {
        Some(serial) => !serial.is_empty(),
        None => false,
    }
}

fn identity_behind(text: &str, prefix: &str, fields: usize) -> (yes: bool)
    ensures
        yes == ends_in_identity(text@, prefix@, fields as nat),
{
    match strip_prefix(text, prefix) {
        Some(rest) => match strip_to_nth(rest, ':', fields) {
            Some(identity) => identity_key_text(identity),
            None => false,
        },
        None => false,
    }
}

impl Clone for PhysicalDeviceKey {
    fn clone(&self) -> (copy: Self)
        ensures
            copy@ == self@,
    {
        proof {
            use_type_invariant(self);
        }
        PhysicalDeviceKey { text: self.text.clone() }
    }
}

impl PhysicalDeviceKey {
    #[verifier::type_invariant]
    spec fn inv(&self) -> bool {
        is_physical_key(self.text@)
    }

    /// The key that `text` is, if it names one physical device.
    pub fn parse(text: &str) -> (key: Option<PhysicalDeviceKey>)
        ensures
            opt(key) == (if is_physical_key(text@) {
                Some(text@)
            } else {
                None
            }),
    {
        let receiver: bool = match strip_prefix(text, "receiver:") {
            Some(rest) => !rest.is_empty(),
            None => false,
        };
        if receiver || identity_key_text(text) || identity_behind(text, "direct:", 2)
            || identity_behind(text, "raw:", 4) || identity_behind(text, "unknown:", 1) {
            Some(PhysicalDeviceKey { text: text.to_owned() })
        } else {
            None
        }
    }

    /// The key as text.
    pub fn as_str(&self) -> (text: &str)
        ensures
            text@ == self@,
            is_physical_key(text@),
    {
        proof {
            use_type_invariant(self);
        }
        self.text.as_str()
    }

    /// The key as text of its own.
    pub fn into_string(self) -> (text: String)
        ensures
            text@ == self@,
            is_physical_key(text@),
    {
        proof {
            use_type_invariant(&self);
        }
        self.text
    }
}

impl DeviceIdentity {
    /// The identity a device with this serial number and unit id has.
    pub fn from_parts(serial: Option<&str>, unit_id: [u8; 4]) -> (identity: DeviceIdentity)
        ensures
            identity@ == IdentityModel::of_parts(
                match serial {
                    Some(s) => Some(s@),
                    None => None,
                },
                unit_id@,
            ),
    {
        if let Some(serial) = serial {
            if !serial.is_empty() {
                return DeviceIdentity::Serial(to_small_letters(serial));
            }
        }
        DeviceIdentity::Unit(unit_id)
    }

    /// Whether the identity tells one device from another.
    pub fn is_physical(&self) -> (yes: bool)
        ensures
            yes == self@.physical(),
    {
        match self {
            DeviceIdentity::Unit(id) => id[0] != 0 || id[1] != 0 || id[2] != 0 || id[3] != 0,
            DeviceIdentity::Serial(serial) => !serial.as_str().is_empty(),
        }
    }

    /// The identity as text.
    pub fn key(&self) -> (key: String)
        ensures
            key@ == self@.key(),
    {
        match self {
            DeviceIdentity::Unit(id) => {
                let mut key = "unit:".to_owned();
                push_hexadecimal(&mut key, id[0] as u32, 2);
                push_hexadecimal(&mut key, id[1] as u32, 2);
                push_hexadecimal(&mut key, id[2] as u32, 2);
                push_hexadecimal(&mut key, id[3] as u32, 2);
                assert(key@ =~= self@.key());
                key
            },
            DeviceIdentity::Serial(serial) => {
                let mut key = "serial:".to_owned();
                key.append(serial.as_str());
                key
            },
        }
    }

    /// The key settings are kept under, where the identity tells one device from
    /// another.
    pub fn config_key(&self) -> (key: Option<String>)
        ensures
            opt(key) == self@.config_key(),
    {
        if self.is_physical() {
            Some(self.key())
        } else {
            None
        }
    }
}

fn push_field(out: &mut String, value: u16)
    ensures
        final(out)@ == old(out)@ + hex_field(value),
{
    push_hexadecimal(out, value as u32, 4);
}

impl DeviceStableId {
    /// The device behind a route.
    pub fn from_parts(
        route: Option<&DeviceRoute>,
        slot: u8,
        serial: Option<&str>,
        unit_id: [u8; 4],
    ) -> (stable: DeviceStableId)
        ensures
            stable@ == StableModel::of_parts(
                match route {
                    Some(r) => Some(r@),
                    None => None,
                },
                slot,
                match serial {
                    Some(s) => Some(s@),
                    None => None,
                },
                unit_id@,
            ),
    {
        match route {
            Some(DeviceRoute::Direct { vendor_id, product_id }) => DeviceStableId::Direct {
                vendor_id: *vendor_id,
                product_id: *product_id,
                identity: DeviceIdentity::from_parts(serial, unit_id),
            },
            Some(DeviceRoute::Bolt { receiver_uid, slot }) => DeviceStableId::Bolt {
                receiver_uid: receiver_uid.clone(),
                slot: *slot,
            },
            Some(
                DeviceRoute::RawHid { vendor_id, product_id, usage_page, usage_id, identity },
            ) => DeviceStableId::RawHid {
                vendor_id: *vendor_id,
                product_id: *product_id,
                usage_page: *usage_page,
                usage_id: *usage_id,
                identity: identity.clone(),
            },
            None => DeviceStableId::Unknown {
                slot,
                identity: DeviceIdentity::from_parts(serial, unit_id),
            },
        }
    }

    /// The way the device is reached, as text.
    pub fn route_key(&self) -> (key: String)
        ensures
            key@ == self@.route_key(),
    {
        match self {
            DeviceStableId::Direct { vendor_id, product_id, identity: _ } => {
                let mut key = "direct:".to_owned();
                push_field(&mut key, *vendor_id);
                key.append(":");
                push_field(&mut key, *product_id);
                key
            },
            DeviceStableId::Bolt { receiver_uid, slot } => {
                let mut key = "receiver:".to_owned();
                key.append(receiver_uid.as_str());
                key.append(":slot:");
                push_decimal(&mut key, *slot as u64);
                key
            },
            DeviceStableId::RawHid { vendor_id, product_id, usage_page, usage_id, identity } => {
                let mut key = "raw:".to_owned();
                push_field(&mut key, *vendor_id);
                key.append(":");
                push_field(&mut key, *product_id);
                key.append(":");
                push_field(&mut key, *usage_page);
                key.append(":");
                push_field(&mut key, *usage_id);
                key.append(":");
                key.append(identity.as_str());
                key
            },
            DeviceStableId::Unknown { slot, identity } => {
                let mut key = "unknown:".to_owned();
                push_decimal(&mut key, *slot as u64);
                key.append(":");
                key.append(identity.key().as_str());
                key
            },
        }
    }

    /// The key that names the device from the way it is reached, where that
    /// tells one device from another.
    pub fn physical_key(&self) -> (key: Option<PhysicalDeviceKey>)
        ensures
            opt(key) == self@.physical_key(),
    {
        let text = match self {
            DeviceStableId::Direct { vendor_id: _, product_id: _, identity } => {
                if !identity.is_physical() {
                    return None;
                }
                let mut key = self.route_key();
                key.append(":");
                key.append(identity.key().as_str());
                key
            },
            DeviceStableId::Bolt { receiver_uid: _, slot: _ } => self.route_key(),
            DeviceStableId::RawHid {
                vendor_id: _,
                product_id: _,
                usage_page: _,
                usage_id: _,
                identity,
            } => {
                if !identity_key_text(identity.as_str()) {
                    return None;
                }
                self.route_key()
            },
            DeviceStableId::Unknown { slot: _, identity } => {
                if !identity.is_physical() {
                    return None;
                }
                self.route_key()
            },
        };
        proof {
            lemma_stable_physical_key(self@);
        }
        Some(PhysicalDeviceKey { text })
    }
}

impl Same for DeviceIdentity {
    fn same(&self, other: &Self) -> (same: bool) {
        match (self, other) {
            (DeviceIdentity::Unit(a), DeviceIdentity::Unit(b)) => {
                let same = a[0] == b[0] && a[1] == b[1] && a[2] == b[2] && a[3] == b[3];
                proof {
                    if same {
                        assert(a@ =~= b@);
                    }
                }
                same
            },
            (DeviceIdentity::Serial(a), DeviceIdentity::Serial(b)) => a.same(b),
            _ => false,
        }
    }
}

impl Same for DeviceStableId {
    fn same(&self, other: &Self) -> (same: bool) {
        match (self, other) {
            (
                DeviceStableId::Direct { vendor_id: v, product_id: p, identity: a },
                DeviceStableId::Direct { vendor_id: w, product_id: q, identity: b },
            ) => *v == *w && *p == *q && a.same(b),
            (
                DeviceStableId::Bolt { receiver_uid: a, slot: s },
                DeviceStableId::Bolt { receiver_uid: b, slot: t },
            ) => a.same(b) && *s == *t,
            (
                DeviceStableId::RawHid {
                    vendor_id: v,
                    product_id: p,
                    usage_page: u,
                    usage_id: i,
                    identity: a,
                },
                DeviceStableId::RawHid {
                    vendor_id: w,
                    product_id: q,
                    usage_page: x,
                    usage_id: j,
                    identity: b,
                },
            ) => *v == *w && *p == *q && *u == *x && *i == *j && a.same(b),
            (
                DeviceStableId::Unknown { slot: s, identity: a },
                DeviceStableId::Unknown { slot: t, identity: b },
            ) => *s == *t && a.same(b),
            _ => false,
        }
    }
}

/// A device goes by its serial number where it has one, whatever its unit id,
/// and capital letters in it make no difference. Else it goes by its unit id,
/// and two such devices are the same only where their unit ids are. Either tells
/// devices apart unless there is no serial number and no byte of the unit id is
/// set.
pub proof fn law_what_a_device_goes_by(
    serial: Seq<char>,
    other: Seq<char>,
    unit_id: Seq<u8>,
    other_id: Seq<u8>,
)
    requires
        unit_id.len() == 4,
        other_id.len() == 4,
    ensures
        serial.len() > 0 && other.len() > 0 ==> (IdentityModel::of_parts(Some(serial), unit_id)
            == IdentityModel::of_parts(Some(other), other_id) <==> small_letters(serial)
            == small_letters(other)),
        serial.len() > 0 ==> IdentityModel::of_parts(Some(serial), unit_id)
            != IdentityModel::of_parts(None, other_id),
        IdentityModel::of_parts(Some(Seq::empty()), unit_id) == IdentityModel::of_parts(
            None,
            unit_id,
        ),
        IdentityModel::of_parts(None, unit_id) == IdentityModel::of_parts(None, other_id)
            <==> unit_id == other_id,
        IdentityModel::of_parts(Some(serial), unit_id).physical() <==> (serial.len() > 0
            || unit_id != seq![0u8, 0u8, 0u8, 0u8]),
        IdentityModel::of_parts(None, unit_id).physical() <==> unit_id != seq![
            0u8,
            0u8,
            0u8,
            0u8,
        ],
{
    assert(small_letters(serial).len() == serial.len());
    if IdentityModel::of_parts(None, unit_id) == IdentityModel::of_parts(None, other_id) {
        assert(IdentityModel::Unit(unit_id) == IdentityModel::Unit(other_id));
    }
    let none = seq![0u8, 0u8, 0u8, 0u8];
    if unit_id[0] == 0 && unit_id[1] == 0 && unit_id[2] == 0 && unit_id[3] == 0 {
        assert(unit_id =~= none);
    }
}

proof fn lemma_field_reads_back(value: u16)
    ensures
        hex_field(value).len() == 4,
        number(hex_field(value), 16) == value,
{
    law_a_hexadecimal_reads_as_its_number(value as nat, 4);
    reveal_with_fuel(sixteens, 5);
}

/// The text of an identity says of what kind it is, and gives it back: the
/// serial number as it stands, and the unit id as two digits for each byte.
pub proof fn law_an_identity_reads_back(identity: IdentityModel)
    requires
        identity matches IdentityModel::Unit(id) ==> id.len() == 4,
    ensures
        match identity {
            IdentityModel::Serial(serial) => identity.key().take(7) == "serial:"@
                && identity.key().skip(7) == serial,
            IdentityModel::Unit(id) => {
                &&& identity.key().len() == 13
                &&& identity.key().take(5) == "unit:"@
                &&& forall|i: int|
                    0 <= i < 4 ==> number(identity.key().subrange(5 + 2 * i, 7 + 2 * i), 16)
                        == #[trigger] id[i]
            },
        },
{
    reveal_strlit("serial:");
    reveal_strlit("unit:");
    let key = identity.key();
    match identity {
        IdentityModel::Serial(serial) => {
            assert(key.take(7) =~= "serial:"@);
            assert(key.skip(7) =~= serial);
        },
        IdentityModel::Unit(id) => {
            reveal_with_fuel(sixteens, 3);
            law_a_hexadecimal_reads_as_its_number(id[0] as nat, 2);
            law_a_hexadecimal_reads_as_its_number(id[1] as nat, 2);
            law_a_hexadecimal_reads_as_its_number(id[2] as nat, 2);
            law_a_hexadecimal_reads_as_its_number(id[3] as nat, 2);
            assert(key.take(5) =~= "unit:"@);
            assert(key.subrange(5, 7) =~= hexadecimal(id[0] as nat, 2));
            assert(key.subrange(7, 9) =~= hexadecimal(id[1] as nat, 2));
            assert(key.subrange(9, 11) =~= hexadecimal(id[2] as nat, 2));
            assert(key.subrange(11, 13) =~= hexadecimal(id[3] as nat, 2));
        },
    }
}

/// The text of a way to a device gives it back: the vendor and then the product
/// as four digits each, the receiver and then the slot, and whatever else there
/// is.
pub proof fn law_a_route_reads_back(stable: StableModel)
    ensures
        match stable {
            StableModel::Direct { vendor_id, product_id, .. } => {
                &&& stable.route_key().len() == 16
                &&& stable.route_key().take(7) == "direct:"@
                &&& number(stable.route_key().subrange(7, 11), 16) == vendor_id
                &&& stable.route_key()[11] == ':'
                &&& number(stable.route_key().subrange(12, 16), 16) == product_id
            },
            StableModel::Bolt { receiver_uid, slot } => {
                let n: int = receiver_uid.len() as int;
                &&& stable.route_key().take(9) == "receiver:"@
                &&& stable.route_key().subrange(9, 9 + n) == receiver_uid
                &&& stable.route_key().subrange(9 + n, 15 + n) == ":slot:"@
                &&& number(stable.route_key().skip(15 + n), 10) == slot
            },
            StableModel::RawHid { vendor_id, product_id, usage_page, usage_id, identity } => {
                &&& stable.route_key().take(4) == "raw:"@
                &&& number(stable.route_key().subrange(4, 8), 16) == vendor_id
                &&& number(stable.route_key().subrange(9, 13), 16) == product_id
                &&& number(stable.route_key().subrange(14, 18), 16) == usage_page
                &&& number(stable.route_key().subrange(19, 23), 16) == usage_id
                &&& stable.route_key().skip(24) == identity
            },
            StableModel::Unknown { slot, identity } => {
                &&& stable.route_key().take(8) == "unknown:"@
                &&& exists|n: int|
                    8 < n < stable.route_key().len() && number(
                        #[trigger] stable.route_key().subrange(8, n),
                        10,
                    ) == slot && stable.route_key()[n] == ':' && stable.route_key().skip(n + 1)
                        == identity.key()
            },
        },
{
    let key = stable.route_key();
    reveal_strlit(":");
    match stable {
        StableModel::Direct { vendor_id, product_id, .. } => {
            reveal_strlit("direct:");
            lemma_field_reads_back(vendor_id);
            lemma_field_reads_back(product_id);
            assert(key.take(7) =~= "direct:"@);
            assert(key.subrange(7, 11) =~= hex_field(vendor_id));
            assert(key.subrange(12, 16) =~= hex_field(product_id));
        },
        StableModel::Bolt { receiver_uid, slot } => {
            reveal_strlit("receiver:");
            reveal_strlit(":slot:");
            law_a_decimal_reads_as_its_number(slot as nat);
            let n: int = receiver_uid.len() as int;
            assert(key.take(9) =~= "receiver:"@);
            assert(key.subrange(9, 9 + n) =~= receiver_uid);
            assert(key.subrange(9 + n, 15 + n) =~= ":slot:"@);
            assert(key.skip(15 + n) =~= decimal(slot as nat));
        },
        StableModel::RawHid { vendor_id, product_id, usage_page, usage_id, identity } => {
            reveal_strlit("raw:");
            lemma_field_reads_back(vendor_id);
            lemma_field_reads_back(product_id);
            lemma_field_reads_back(usage_page);
            lemma_field_reads_back(usage_id);
            assert(key.take(4) =~= "raw:"@);
            assert(key.subrange(4, 8) =~= hex_field(vendor_id));
            assert(key.subrange(9, 13) =~= hex_field(product_id));
            assert(key.subrange(14, 18) =~= hex_field(usage_page));
            assert(key.subrange(19, 23) =~= hex_field(usage_id));
            assert(key.skip(24) =~= identity);
        },
        StableModel::Unknown { slot, identity } => {
            reveal_strlit("unknown:");
            law_a_decimal_reads_as_its_number(slot as nat);
            let n: int = 8 + decimal(slot as nat).len() as int;
            assert(key.take(8) =~= "unknown:"@);
            assert(key.subrange(8, n) =~= decimal(slot as nat));
            assert(key.skip(n + 1) =~= identity.key());
        },
    }
}

/// A device that is reached directly is known by the way to it and its own
/// identity after that, where it has one that tells devices apart; one behind a
/// receiver is always known, by its slot.
pub proof fn law_when_a_device_is_known(stable: StableModel)
    ensures
        stable is Bolt ==> stable.physical_key() is Some,
        stable matches StableModel::Direct { identity, .. } ==> (stable.physical_key() is Some
            <==> identity.physical()),
        stable matches StableModel::Direct { identity, .. } ==> (stable.physical_key() matches Some(
            key,
        ) ==> key.take(16) == stable.route_key() && key[16] == ':' && key.skip(17)
            == identity.key()),
        stable matches StableModel::Unknown { identity, .. } ==> (stable.physical_key() is Some
            <==> identity.physical()),
{
    if let StableModel::Direct { vendor_id, product_id, identity } = stable {
        law_a_route_reads_back(stable);
        reveal_strlit(":");
        if identity.physical() {
            let key = stable.physical_key().unwrap();
            assert(key.take(16) =~= stable.route_key());
            assert(key.skip(17) =~= identity.key());
        }
    }
}

/// The way to a device tells where it was found: a device that is reached
/// directly is known by that way, one behind a receiver by the receiver and the
/// slot that the way names, and only one without a way by the slot it was found
/// in.
pub proof fn law_where_a_device_was_found(
    route: Option<RouteModel>,
    slot: u8,
    serial: Option<Seq<char>>,
    unit_id: Seq<u8>,
)
    ensures
        match (route, StableModel::of_parts(route, slot, serial, unit_id)) {
            (
                Some(RouteModel::Direct { vendor_id, product_id }),
                StableModel::Direct { vendor_id: v, product_id: p, identity },
            ) => v == vendor_id && p == product_id && identity == IdentityModel::of_parts(
                serial,
                unit_id,
            ),
            (
                Some(RouteModel::Bolt { receiver_uid, slot: behind }),
                StableModel::Bolt { receiver_uid: r, slot: s },
            ) => r == receiver_uid && s == behind,
            (
                Some(
                    RouteModel::RawHid { vendor_id, product_id, usage_page, usage_id, identity },
                ),
                StableModel::RawHid {
                    vendor_id: v,
                    product_id: p,
                    usage_page: u,
                    usage_id: n,
                    identity: i,
                },
            ) => v == vendor_id && p == product_id && u == usage_page && n == usage_id && i
                == identity,
            (None, StableModel::Unknown { slot: s, identity }) => s == slot && identity
                == IdentityModel::of_parts(serial, unit_id),
            _ => false,
        },
{
}

}
