//! The kinds of data that the router carries for the application.
//!
//! The router looks at a piece of data only to tell its kind and to read its
//! name. The name is set when the piece is made and is carried with it.

use vstd::prelude::*;
use crate::xor_name::XorName;

verus! {

/// The kind of a piece of immutable data.
#[derive(Clone, Copy, Debug, PartialEq, Eq, Structural)]
pub enum ImmutableDataType {
    Normal,
    Backup,
    Sacrificial,
}

/// Data that is named after its content and never changes.
#[derive(Clone, Debug)]
pub struct ImmutableData {
    pub name: XorName,
    pub type_tag: ImmutableDataType,
    pub value: Vec<u8>,
}

/// Data that its owners can replace by a later version.
#[derive(Clone, Debug)]
pub struct StructuredData {
    pub name: XorName,
    pub type_tag: u64,
    pub identifier: XorName,
    pub version: u64,
    pub data: Vec<u8>,
}

/// Data with a name of the sender's choice.
#[derive(Clone, Debug)]
pub struct PlainData {
    pub name: XorName,
    pub value: Vec<u8>,
}

/// The data types that the router handles in its public interface.
#[derive(Clone, Debug)]
pub enum Data {
    StructuredData(StructuredData),
    ImmutableData(ImmutableData),
    PlainData(PlainData),
}

/// A request for a piece of data of one kind.
#[derive(Clone, Copy, Debug, PartialEq, Eq, Structural)]
pub enum DataRequest {
    /// Structured data with this type tag.
    StructuredData(u64),
    /// Immutable data of this kind.
    ImmutableData(ImmutableDataType),
    /// Plain data.
    PlainData,
}

impl Data {
    /// The name of the piece of data, whatever its kind.
    pub open spec fn name_spec(self) -> XorName {
        match self {
            Data::StructuredData(d) => d.name,
            Data::ImmutableData(d) => d.name,
            Data::PlainData(d) => d.name,
        }
    }

    /// The request that asks for a piece of data of this kind.
    pub open spec fn request_spec(self) -> DataRequest {
        match self {
            Data::StructuredData(d) => DataRequest::StructuredData(d.type_tag),
            Data::ImmutableData(d) => DataRequest::ImmutableData(d.type_tag),
            Data::PlainData(_) => DataRequest::PlainData,
        }
    }

    /// Returns the name of the piece of data.
    pub fn name(&self) -> (n: XorName)
        ensures
            n == self.name_spec(),
    {
        match self {
            Data::StructuredData(d) => d.name,
            Data::ImmutableData(d) => d.name,
            Data::PlainData(d) => d.name,
        }
    }

    /// Returns the request that asks for a piece of data of this kind.
    pub fn request(&self) -> (r: DataRequest)
        ensures
            r == self.request_spec(),
    {
        match self {
            Data::StructuredData(d) => DataRequest::StructuredData(d.type_tag),
            Data::ImmutableData(d) => DataRequest::ImmutableData(d.type_tag),
            Data::PlainData(_) => DataRequest::PlainData,
        }
    }
}

} // verus!
