//! Grouping identities of audio sessions.
use crate::text::{hex_fixed, push_hex};
use vstd::prelude::*;
use vstd::string::StringExecFns;

verus! {

/// A 128-bit globally unique identifier, as the audio backend reports the
/// grouping identity of a session.
#[derive(Debug, Clone, Copy)]
pub struct Guid {
    pub data1: u32,
    pub data2: u16,
    pub data3: u16,
    pub data4: [u8; 8],
}

/// The canonical text of a GUID: upper-case hexadecimal in the groups
/// 8-4-4-4-12, without braces.
pub open spec fn guid_text(g: Guid) -> Seq<char> {
    hex_fixed(g.data1 as nat, 8) + seq!['-'] + hex_fixed(g.data2 as nat, 4) + seq!['-']
        + hex_fixed(g.data3 as nat, 4) + seq!['-'] + hex_fixed(g.data4@[0] as nat, 2)
        + hex_fixed(g.data4@[1] as nat, 2) + seq!['-'] + hex_fixed(g.data4@[2] as nat, 2)
        + hex_fixed(g.data4@[3] as nat, 2) + hex_fixed(g.data4@[4] as nat, 2)
        + hex_fixed(g.data4@[5] as nat, 2) + hex_fixed(g.data4@[6] as nat, 2)
        + hex_fixed(g.data4@[7] as nat, 2)
}

/// Appends a dash to `s`.
fn push_dash(s: &mut String)
    ensures
        final(s)@ == old(s)@ + seq!['-'],
{
    proof { reveal_strlit("-"); }
    s.append("-");
}

/// The canonical text of a GUID; stable, as clients keep it as a key.
pub fn guid_to_string(guid: &Guid) -> (r: String)
    ensures
        r@ == guid_text(*guid),
{
    let mut s = String::new();
    push_hex(&mut s, guid.data1, 8);
    push_dash(&mut s);
    push_hex(&mut s, guid.data2 as u32, 4);
    push_dash(&mut s);
    push_hex(&mut s, guid.data3 as u32, 4);
    push_dash(&mut s);
    push_hex(&mut s, guid.data4[0] as u32, 2);
    push_hex(&mut s, guid.data4[1] as u32, 2);
    push_dash(&mut s);
    push_hex(&mut s, guid.data4[2] as u32, 2);
    push_hex(&mut s, guid.data4[3] as u32, 2);
    push_hex(&mut s, guid.data4[4] as u32, 2);
    push_hex(&mut s, guid.data4[5] as u32, 2);
    push_hex(&mut s, guid.data4[6] as u32, 2);
    push_hex(&mut s, guid.data4[7] as u32, 2);
    assert(s@ =~= guid_text(*guid));
    s
}

/// The grouping identity of a session group, in its string form.
#[derive(Debug, Clone, Eq, Hash)]
pub struct GroupId {
    value: String,
}

impl View for GroupId {
    type V = Seq<char>;

    closed spec fn view(&self) -> Seq<char> {
        self.value@
    }
}

impl PartialEq for GroupId {
    fn eq(&self, other: &GroupId) -> (r: bool) {
        self.value == other.value
    }
}

impl vstd::std_specs::cmp::PartialEqSpecImpl for GroupId {
    open spec fn obeys_eq_spec() -> bool {
        true
    }

    open spec fn eq_spec(&self, other: &GroupId) -> bool {
        self@ == other@
    }
}

impl GroupId {
    /// A grouping identity with the given text.
    pub fn new(value: String) -> (r: GroupId)
        ensures
            r@ == value@,
    {
        GroupId { value }
    }

    /// The grouping identity of a GUID, in its canonical text.
    pub fn from_guid(guid: &Guid) -> (r: GroupId)
        ensures
            r@ == guid_text(*guid),
    {
        GroupId { value: guid_to_string(guid) }
    }

    /// The text of this identity.
    pub fn as_str(&self) -> (r: &str)
        ensures
            r@ == self@,
    {
        self.value.as_str()
    }

    /// A second identity with the same text.
    pub fn duplicate(&self) -> (r: GroupId)
        ensures
            r@ == self@,
    {
        GroupId { value: self.value.clone() }
    }

    /// Whether two identities have the same text.
    pub fn same_as(&self, other: &GroupId) -> (r: bool)
        ensures
            r == (self@ == other@),
    {
        self.value == other.value
    }
}

} // verus!
