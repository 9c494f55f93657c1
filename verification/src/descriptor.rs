//! Descriptor open/close commands.

use vstd::prelude::*;
use crate::query::Query;

verus! {

/// The descriptors (tables) of a NetMD device.
#[derive(Debug, Clone, Copy, PartialEq, Eq, Structural)]
pub enum Descriptor {
    DiskTitleTd,
    AudioUtoc1Td,
    AudioUtoc4Td,
    DsiTd,
    AudioContentsTd,
    RootTd,
    DiscSubUnitIdentifier,
    OperatingStatusBlock,
}

impl Descriptor {
    /// The bytes that name this descriptor in a command.
    pub open spec fn bytes_spec(self) -> Seq<u8> {
        match self {
            Descriptor::DiskTitleTd => seq![0x10u8, 0x18u8, 0x01u8],
            Descriptor::AudioUtoc1Td => seq![0x10u8, 0x18u8, 0x02u8],
            Descriptor::AudioUtoc4Td => seq![0x10u8, 0x18u8, 0x03u8],
            Descriptor::DsiTd => seq![0x10u8, 0x18u8, 0x04u8],
            Descriptor::AudioContentsTd => seq![0x10u8, 0x10u8, 0x01u8],
            Descriptor::RootTd => seq![0x10u8, 0x10u8, 0x00u8],
            Descriptor::DiscSubUnitIdentifier => seq![0x00u8],
            Descriptor::OperatingStatusBlock => seq![0x80u8, 0x00u8],
        }
    }

    /// The bytes that name this descriptor in a command.
    pub fn bytes(self) -> (r: Vec<u8>)
        ensures
            r@ == self.bytes_spec(),
    {
        let v = match self {
            Descriptor::DiskTitleTd => vec![0x10u8, 0x18u8, 0x01u8],
            Descriptor::AudioUtoc1Td => vec![0x10u8, 0x18u8, 0x02u8],
            Descriptor::AudioUtoc4Td => vec![0x10u8, 0x18u8, 0x03u8],
            Descriptor::DsiTd => vec![0x10u8, 0x18u8, 0x04u8],
            Descriptor::AudioContentsTd => vec![0x10u8, 0x10u8, 0x01u8],
            Descriptor::RootTd => vec![0x10u8, 0x10u8, 0x00u8],
            Descriptor::DiscSubUnitIdentifier => vec![0x00u8],
            Descriptor::OperatingStatusBlock => vec![0x80u8, 0x00u8],
        };
        assert(v@ =~= self.bytes_spec());
        v
    }

    /// The hexadecimal text that names this descriptor.
    pub open spec fn text_spec(self) -> Seq<char> {
        match self {
            Descriptor::DiskTitleTd => "10 1801"@,
            Descriptor::AudioUtoc1Td => "10 1802"@,
            Descriptor::AudioUtoc4Td => "10 1803"@,
            Descriptor::DsiTd => "10 1804"@,
            Descriptor::AudioContentsTd => "10 1001"@,
            Descriptor::RootTd => "10 1000"@,
            Descriptor::DiscSubUnitIdentifier => "00"@,
            Descriptor::OperatingStatusBlock => "80 00"@,
        }
    }

    /// The hexadecimal text that names this descriptor.
    pub fn as_str(&self) -> (r: &'static str)
        ensures
            r@ == self.text_spec(),
    {
        match self {
            Descriptor::DiskTitleTd => "10 1801",
            Descriptor::AudioUtoc1Td => "10 1802",
            Descriptor::AudioUtoc4Td => "10 1803",
            Descriptor::DsiTd => "10 1804",
            Descriptor::AudioContentsTd => "10 1001",
            Descriptor::RootTd => "10 1000",
            Descriptor::DiscSubUnitIdentifier => "00",
            Descriptor::OperatingStatusBlock => "80 00",
        }
    }
}

/// What to do with a descriptor.
#[derive(Debug, Clone, Copy, PartialEq, Eq, Structural)]
pub enum DescriptorAction {
    OpenRead,
    OpenWrite,
    Close,
}

impl DescriptorAction {
    /// The byte of this action.
    pub open spec fn byte_spec(self) -> u8 {
        match self {
            DescriptorAction::OpenRead => 0x01,
            DescriptorAction::OpenWrite => 0x03,
            DescriptorAction::Close => 0x00,
        }
    }

    /// The byte of this action.
    pub fn byte(self) -> (r: u8)
        ensures
            r == self.byte_spec(),
    {
        match self {
            DescriptorAction::OpenRead => 0x01,
            DescriptorAction::OpenWrite => 0x03,
            DescriptorAction::Close => 0x00,
        }
    }
    /// The hexadecimal text of this action.
    pub open spec fn text_spec(self) -> Seq<char> {
        match self {
            DescriptorAction::OpenRead => "01"@,
            DescriptorAction::OpenWrite => "03"@,
            DescriptorAction::Close => "00"@,
        }
    }

    /// The hexadecimal text of this action.
    pub fn as_str(&self) -> (r: &'static str)
        ensures
            r@ == self.text_spec(),
    {
        match self {
            DescriptorAction::OpenRead => "01",
            DescriptorAction::OpenWrite => "03",
            DescriptorAction::Close => "00",
        }
    }
}

/// A descriptor state change: `00 1808 <descriptor> <action> 00`.
#[derive(Debug, Clone, Copy, PartialEq, Eq, Structural)]
pub struct DescriptorCommand(pub Descriptor, pub DescriptorAction);

/// The bytes of a descriptor state change.
pub open spec fn descriptor_query_spec(d: Descriptor, a: DescriptorAction) -> Seq<u8> {
    seq![0x00u8, 0x18u8, 0x08u8] + d.bytes_spec() + seq![a.byte_spec(), 0x00u8]
}

impl DescriptorCommand {
    /// The query of this state change.
    pub fn to_query(&self) -> (q: Query)
        ensures
            q.0@ == descriptor_query_spec(self.0, self.1),
    {
        let mut v: Vec<u8> = vec![0x00u8, 0x18u8, 0x08u8];
        let d = self.0.bytes();
        crate::util::append_bytes(&mut v, d.as_slice());
        v.push(self.1.byte());
        v.push(0x00);
        assert(v@ =~= descriptor_query_spec(self.0, self.1));
        Query(v)
    }
}

} // verus!
