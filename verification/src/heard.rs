//! The "heard" flag: how it is stored, read back and toggled.

use vstd::prelude::*;

verus! {

/// The name under which the attribute store keeps the flag of a file.
pub const HEARD_ATTRIBUTE: &'static str = "user.heard";

/// What reading the stored flag of one file came back with.
#[derive(Debug, Clone, PartialEq, Eq)]
pub enum AttrRead {
    /// The store could not be read for this file.
    Failed,
    /// The store holds nothing for this file.
    Absent,
    /// The bytes that the store holds for this file.
    Present(Vec<u8>),
}

impl AttrRead {
    /// The flag that a read stands for: set only where bytes were stored and
    /// the first of them is 1. A failed read and an absent value both count
    /// as "not heard".
    pub open spec fn heard(self) -> bool {
        match self {
            AttrRead::Present(bytes) => bytes@.len() > 0 && bytes@[0] == 1u8,
            _ => false,
        }
    }
}

/// The bytes under which a flag is stored: the single byte 1 or 0.
pub open spec fn flag_bytes(value: bool) -> Seq<u8> {
    seq![if value { 1u8 } else { 0u8 }]
}

/// The flag to store next: the explicit value where one is given, else the
/// negation of the current one.
pub open spec fn toggled(current: bool, explicit: Option<bool>) -> bool {
    match explicit {
        Some(value) => value,
        None => !current,
    }
}

/// Decodes what was read from the attribute store into the flag.
pub fn get_file_heard(read: &AttrRead) -> (heard: bool)
    ensures
        heard == read.heard(),
{
    match read {
        AttrRead::Present(bytes) => bytes.len() > 0 && bytes[0] == 1,
        _ => false,
    }
}

/// Encodes a flag into the bytes to hand to the attribute store.
pub fn heard_attr_bytes(value: bool) -> (bytes: Vec<u8>)
    ensures
        bytes@ == flag_bytes(value),
{
    let mut bytes: Vec<u8> = Vec::new();
    bytes.push(if value { 1u8 } else { 0u8 });
    bytes
}

/// Chooses the flag to store for a set-or-toggle request.
pub fn next_heard(current: bool, explicit: Option<bool>) -> (next: bool)
    ensures
        next == toggled(current, explicit),
{
    match explicit {
        Some(value) => value,
        None => !current,
    }
}

/// Toggling twice without an explicit value gives the flag back.
pub proof fn lemma_double_toggle_restores(current: bool)
    ensures
        toggled(toggled(current, None), None) == current,
{
}

/// A flag that was encoded and stored decodes to itself when the store hands
/// the same bytes back.
pub proof fn lemma_stored_flag_reads_back(value: bool, bytes: Vec<u8>)
    requires
        bytes@ == flag_bytes(value),
    ensures
        AttrRead::Present(bytes).heard() == value,
{
}

} // verus!
