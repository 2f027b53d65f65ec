//! Characteristic properties and attribute permissions, as sets of flags.
use vstd::prelude::*;

verus! {

/// GATT characteristic properties, matching the BLE spec bit layout.
#[derive(Debug, Clone, Copy, PartialEq, Eq, Hash, Structural)]
pub struct CharacteristicProperties {
    bits: u16,
}

impl View for CharacteristicProperties {
    type V = u16;

    closed spec fn view(&self) -> u16 {
        self.bits
    }
}

impl CharacteristicProperties {
    pub const BROADCAST: u16 = 0x0001;

    pub const READ: u16 = 0x0002;

    pub const WRITE_WITHOUT_RESPONSE: u16 = 0x0004;

    pub const WRITE: u16 = 0x0008;

    pub const NOTIFY: u16 = 0x0010;

    pub const INDICATE: u16 = 0x0020;

    pub const AUTHENTICATED_SIGNED_WRITES: u16 = 0x0040;

    pub const EXTENDED_PROPERTIES: u16 = 0x0080;

    /// Every flag.
    pub const ALL: u16 = 0x00ff;

    /// All of `flags` are in the set.
    pub open spec fn has(self, flags: u16) -> bool {
        self@ & flags == flags
    }

    /// One of `flags` is in the set.
    pub open spec fn has_any(self, flags: u16) -> bool {
        self@ & flags != 0
    }

    /// No flag.
    pub fn empty() -> (set: Self)
        ensures
            set@ == 0,
    {
        CharacteristicProperties { bits: 0 }
    }

    /// The flags in `bits`; bits that are no flag are dropped.
    pub fn from_bits_truncate(bits: u16) -> (set: Self)
        ensures
            set@ == bits & Self::ALL,
    {
        CharacteristicProperties { bits: bits & Self::ALL }
    }

    /// The flags as bits.
    pub fn bits(&self) -> (bits: u16)
        ensures
            bits == self@,
    {
        self.bits
    }

    /// Whether no flag is in the set.
    pub fn is_empty(&self) -> (empty: bool)
        ensures
            empty == (self@ == 0),
    {
        self.bits == 0
    }

    /// Whether all of `flags` are in the set.
    pub fn contains(&self, flags: u16) -> (contained: bool)
        ensures
            contained == self.has(flags),
    {
        self.bits & flags == flags
    }

    /// Whether one of `flags` is in the set.
    pub fn intersects(&self, flags: u16) -> (common: bool)
        ensures
            common == self.has_any(flags),
    {
        self.bits & flags != 0
    }

    /// Add `flags` to the set; bits that are no flag are dropped.
    pub fn insert(&mut self, flags: u16)
        ensures
            final(self)@ == old(self)@ | (flags & Self::ALL),
    {
        self.bits = self.bits | (flags & Self::ALL);
    }
}

/// ATT attribute permissions.
#[derive(Debug, Clone, Copy, PartialEq, Eq, Hash, Structural)]
pub struct AttributePermissions {
    bits: u16,
}

impl View for AttributePermissions {
    type V = u16;

    closed spec fn view(&self) -> u16 {
        self.bits
    }
}

impl AttributePermissions {
    pub const READ: u16 = 0x0001;

    pub const WRITE: u16 = 0x0002;

    pub const READ_ENCRYPTED: u16 = 0x0004;

    pub const WRITE_ENCRYPTED: u16 = 0x0008;

    pub const READ_AUTHENTICATED: u16 = 0x0010;

    pub const WRITE_AUTHENTICATED: u16 = 0x0020;

    /// Every flag.
    pub const ALL: u16 = 0x003f;

    /// All of `flags` are in the set.
    pub open spec fn has(self, flags: u16) -> bool {
        self@ & flags == flags
    }

    /// One of `flags` is in the set.
    pub open spec fn has_any(self, flags: u16) -> bool {
        self@ & flags != 0
    }

    /// No flag.
    pub fn empty() -> (set: Self)
        ensures
            set@ == 0,
    {
        AttributePermissions { bits: 0 }
    }

    /// The flags in `bits`; bits that are no flag are dropped.
    pub fn from_bits_truncate(bits: u16) -> (set: Self)
        ensures
            set@ == bits & Self::ALL,
    {
        AttributePermissions { bits: bits & Self::ALL }
    }

    /// The flags as bits.
    pub fn bits(&self) -> (bits: u16)
        ensures
            bits == self@,
    {
        self.bits
    }

    /// Whether no flag is in the set.
    pub fn is_empty(&self) -> (empty: bool)
        ensures
            empty == (self@ == 0),
    {
        self.bits == 0
    }

    /// Whether all of `flags` are in the set.
    pub fn contains(&self, flags: u16) -> (contained: bool)
        ensures
            contained == self.has(flags),
    {
        self.bits & flags == flags
    }

    /// Whether one of `flags` is in the set.
    pub fn intersects(&self, flags: u16) -> (common: bool)
        ensures
            common == self.has_any(flags),
    {
        self.bits & flags != 0
    }

    /// Add `flags` to the set; bits that are no flag are dropped.
    pub fn insert(&mut self, flags: u16)
        ensures
            final(self)@ == old(self)@ | (flags & Self::ALL),
    {
        self.bits = self.bits | (flags & Self::ALL);
    }
}

/// A set has two groups of flags exactly where it has each, and one of them
/// exactly where it has one of either; each flag is a bit of its own.
pub proof fn law_flags_are_independent(
    props: CharacteristicProperties,
    perms: AttributePermissions,
    a: u16,
    b: u16,
)
    ensures
        props.has(a | b) <==> props.has(a) && props.has(b),
        props.has_any(a | b) <==> props.has_any(a) || props.has_any(b),
        props.has(0) && !props.has_any(0),
        props.has(CharacteristicProperties::READ) <==> props@ & 0x02 != 0,
        props.has(CharacteristicProperties::WRITE) <==> props@ & 0x08 != 0,
        props.has(CharacteristicProperties::NOTIFY) <==> props@ & 0x10 != 0,
        perms.has(a | b) <==> perms.has(a) && perms.has(b),
        perms.has_any(a | b) <==> perms.has_any(a) || perms.has_any(b),
        perms.has(0) && !perms.has_any(0),
        perms.has(AttributePermissions::READ) <==> perms@ & 0x01 != 0,
        perms.has(AttributePermissions::WRITE) <==> perms@ & 0x02 != 0,
{
    let x = props@;
    let y = perms@;
    assert((x & (a | b) == (a | b)) == (x & a == a && x & b == b) && (x & (a | b) != 0) == (x & a
        != 0 || x & b != 0) && x & 0 == 0 && (x & 0x02u16 == 0x02u16) == (x & 0x02u16 != 0) && (x
        & 0x08u16 == 0x08u16) == (x & 0x08u16 != 0) && (x & 0x10u16 == 0x10u16) == (x & 0x10u16
        != 0)) by (bit_vector);
    assert((y & (a | b) == (a | b)) == (y & a == a && y & b == b) && (y & (a | b) != 0) == (y & a
        != 0 || y & b != 0) && y & 0 == 0 && (y & 0x01u16 == 0x01u16) == (y & 0x01u16 != 0) && (y
        & 0x02u16 == 0x02u16) == (y & 0x02u16 != 0)) by (bit_vector);
}

} // verus!
