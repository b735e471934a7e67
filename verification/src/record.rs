//! DNS zone records and their conversion to and from the wire.

use vstd::prelude::*;
use crate::error::{Error, LoopiaErrorKind};
use crate::text::{name_precedes, name_precedes_at};
use crate::members::{lemma_with_member_appends, member_from, names_ascend};
use crate::wire::{Members, Wire, WireValue};

verus! {

/// The mathematical content of a [`ZoneRecord`].
pub struct ZoneRecordView {
    pub id: Option<i32>,
    pub data: Seq<char>,
    pub ttl: i32,
    pub priority: i32,
    pub type_: Seq<char>,
}

/// One DNS record of a zone.
#[derive(Debug, PartialEq)]
pub struct ZoneRecord {
    /// The record's identifier at the remote API; absent on a record that is
    /// yet to be created.
    pub id: Option<i32>,
    /// The record's value.
    pub data: String,
    /// Time to live, in seconds.
    pub ttl: i32,
    /// Priority, for the record types that have one; 0 otherwise.
    pub priority: i32,
    /// The record type, such as "A", "TXT" or "MX".
    pub type_: String,
}

impl View for ZoneRecord {
    type V = ZoneRecordView;

    open spec fn view(&self) -> ZoneRecordView {
        ZoneRecordView {
            id: self.id,
            data: self.data@,
            ttl: self.ttl,
            priority: self.priority,
            type_: self.type_@,
        }
    }
}

impl Clone for ZoneRecord {
    fn clone(&self) -> (copy: Self)
        ensures
            copy@ == self@,
    {
        ZoneRecord {
            id: self.id,
            data: self.data.clone(),
            ttl: self.ttl,
            priority: self.priority,
            type_: self.type_.clone(),
        }
    }
}

/// The members of the struct that carries `record` on the wire, in the order
/// of their names. `record_id` is left out altogether when the record has no
/// identifier.
pub open spec fn record_members(record: ZoneRecordView) -> Seq<(Seq<char>, Wire)> {
    seq![("priority"@, Wire::Int(record.priority)), ("rdata"@, Wire::String(record.data))] + (
    match record.id {
        Some(id) => seq![("record_id"@, Wire::Int(id))],
        None => Seq::empty(),
    }) + seq![("ttl"@, Wire::Int(record.ttl)), ("type"@, Wire::String(record.type_))]
}

/// The wire form of `record`.
pub open spec fn record_to_wire(record: ZoneRecordView) -> Wire {
    Wire::Struct(record_members(record))
}

/// The record that `value` carries: `value` must hold integers under
/// `record_id`, `ttl` and `priority`, and strings under `rdata` and `type`.
pub open spec fn record_from_wire(value: Wire) -> Option<ZoneRecordView> {
    match (
        value.int_member("record_id"@),
        value.string_member("rdata"@),
        value.int_member("ttl"@),
        value.int_member("priority"@),
        value.string_member("type"@),
    ) {
        (Some(id), Some(data), Some(ttl), Some(priority), Some(type_)) => Some(
            ZoneRecordView { id: Some(id), data, ttl, priority, type_ },
        ),
        _ => None,
    }
}

/// The five member names have five lengths, so no two of them are the same.
proof fn lemma_member_name_lengths()
    ensures
        "priority"@.len() == 8,
        "rdata"@.len() == 5,
        "record_id"@.len() == 9,
        "ttl"@.len() == 3,
        "type"@.len() == 4,
{
    reveal_strlit("priority");
    reveal_strlit("rdata");
    reveal_strlit("record_id");
    reveal_strlit("ttl");
    reveal_strlit("type");
}

/// The five member names, taken in the order `priority`, `rdata`,
/// `record_id`, `ttl`, `type`, ascend.
proof fn lemma_member_names_ascend()
    ensures
        name_precedes("priority"@, "rdata"@),
        name_precedes("priority"@, "record_id"@),
        name_precedes("priority"@, "ttl"@),
        name_precedes("priority"@, "type"@),
        name_precedes("rdata"@, "record_id"@),
        name_precedes("rdata"@, "ttl"@),
        name_precedes("rdata"@, "type"@),
        name_precedes("record_id"@, "ttl"@),
        name_precedes("record_id"@, "type"@),
        name_precedes("ttl"@, "type"@),
{
    reveal_strlit("priority");
    reveal_strlit("rdata");
    reveal_strlit("record_id");
    reveal_strlit("ttl");
    reveal_strlit("type");
    assert(name_precedes_at("priority"@, "rdata"@, 0));
    assert(name_precedes_at("priority"@, "record_id"@, 0));
    assert(name_precedes_at("priority"@, "ttl"@, 0));
    assert(name_precedes_at("priority"@, "type"@, 0));
    assert(name_precedes_at("rdata"@, "record_id"@, 1));
    assert(name_precedes_at("rdata"@, "ttl"@, 0));
    assert(name_precedes_at("rdata"@, "type"@, 0));
    assert(name_precedes_at("record_id"@, "ttl"@, 0));
    assert(name_precedes_at("record_id"@, "type"@, 0));
    assert(name_precedes_at("ttl"@, "type"@, 1));
}

/// The wire form of a record holds its members in ascending order of their
/// names, none of them twice.
pub proof fn lemma_record_members_ascend(record: ZoneRecordView)
    ensures
        names_ascend(record_members(record)),
{
    lemma_member_names_ascend();
    let members = record_members(record);
    assert forall|i: int, j: int| 0 <= i < j < members.len() implies name_precedes(
        (#[trigger] members[i]).0,
        (#[trigger] members[j]).0,
    ) by {
        if record.id is Some {
            assert(members.len() == 5);
        } else {
            assert(members.len() == 4);
        }
    }
}

/// Each field of a record can be read back from its wire form under the
/// field's member name, and `record_id` is there exactly when the record has
/// an identifier.
pub proof fn lemma_wire_members(record: ZoneRecordView)
    ensures
        record_to_wire(record).member("priority"@) == Some(Wire::Int(record.priority)),
        record_to_wire(record).member("rdata"@) == Some(Wire::String(record.data)),
        record_to_wire(record).member("ttl"@) == Some(Wire::Int(record.ttl)),
        record_to_wire(record).member("type"@) == Some(Wire::String(record.type_)),
        record_to_wire(record).member("record_id"@) == match record.id {
            Some(id) => Some(Wire::Int(id)),
            None => None,
        },
{
    lemma_member_name_lengths();
    reveal_with_fuel(member_from, 6);
}

/// A record without an identifier goes on the wire as a struct that has no
/// `record_id` member at all.
pub proof fn lemma_new_record_has_no_id_member(record: ZoneRecordView)
    requires
        record.id is None,
    ensures
        record_to_wire(record).member("record_id"@) is None,
        forall|i: int|
            0 <= i < record_members(record).len() ==> #[trigger] record_members(record)[i].0
                != "record_id"@,
{
    lemma_member_name_lengths();
    lemma_wire_members(record);
}

/// Writing a record that has an identifier and reading it back gives the same
/// record.
pub proof fn lemma_round_trip(record: ZoneRecordView)
    requires
        record.id is Some,
    ensures
        record_from_wire(record_to_wire(record)) == Some(record),
{
    lemma_wire_members(record);
}

/// A record without an identifier cannot be read back: the read conversion
/// asks for `record_id`.
pub proof fn lemma_new_record_is_not_readable(record: ZoneRecordView)
    requires
        record.id is None,
    ensures
        record_from_wire(record_to_wire(record)) is None,
{
    lemma_wire_members(record);
}

impl ZoneRecord {
    /// Converts the record to the struct that carries it in a call.
    pub fn into_wire(self) -> (wire: WireValue)
        ensures
            wire@ == record_to_wire(self@),
    {
        let ghost record = self@;
        proof {
            lemma_member_names_ascend();
        }
        let mut members = Members::new();
        let ghost held = members@;
        members.insert("priority".to_owned(), WireValue::Int(self.priority));
        proof {
            lemma_with_member_appends(held, "priority"@, Wire::Int(record.priority));
            held = members@;
        }
        members.insert("rdata".to_owned(), WireValue::String(self.data));
        proof {
            lemma_with_member_appends(held, "rdata"@, Wire::String(record.data));
            held = members@;
        }
        if let Some(id) = self.id {
            members.insert("record_id".to_owned(), WireValue::Int(id));
            proof {
                lemma_with_member_appends(held, "record_id"@, Wire::Int(id));
                held = members@;
            }
        }
        members.insert("ttl".to_owned(), WireValue::Int(self.ttl));
        proof {
            lemma_with_member_appends(held, "ttl"@, Wire::Int(record.ttl));
            held = members@;
        }
        members.insert("type".to_owned(), WireValue::String(self.type_));
        proof {
            lemma_with_member_appends(held, "type"@, Wire::String(record.type_));
        }
        assert(members@ =~= record_members(record));
        let wire = WireValue::Struct(members);
        assert(wire@->Struct_0 =~= record_members(record));
        wire
    }

    /// Reads a record out of one element of a reply.
    ///
    /// Fails with [`LoopiaErrorKind::MalformedRecordError`] when a field is
    /// missing or has the wrong wire type.
    pub fn from_wire(value: &WireValue) -> (read: Result<ZoneRecord, Error>)
        ensures
            match record_from_wire(value@) {
                Some(record) => read is Ok && read->Ok_0@ == record,
                None => read is Err && read->Err_0@ == LoopiaErrorKind::MalformedRecordError,
            },
    {
        let id = value.get_i32("record_id");
        let data = value.get_str("rdata");
        let ttl = value.get_i32("ttl");
        let priority = value.get_i32("priority");
        let type_ = value.get_str("type");
        match (id, data, ttl, priority, type_) {
            (Some(id), Some(data), Some(ttl), Some(priority), Some(type_)) => Ok(
                ZoneRecord {
                    id: Some(id),
                    data: data.to_owned(),
                    ttl,
                    priority,
                    type_: type_.to_owned(),
                },
            ),
            _ => Err(Error::new(LoopiaErrorKind::MalformedRecordError)),
        }
    }
}

/// The mathematical content of a [`ZoneRecords`].
pub struct ZoneRecordsView {
    pub domain: Seq<char>,
    pub subdomain: Seq<char>,
    pub records: Seq<ZoneRecordView>,
}

/// The content of each of `records`, in order.
pub open spec fn record_views(records: Seq<ZoneRecord>) -> Seq<ZoneRecordView> {
    Seq::new(records.len(), |i: int| records[i]@)
}

/// The records of one subdomain of a domain, in the order in which the
/// remote API listed them.
#[derive(Debug, PartialEq)]
pub struct ZoneRecords<'a> {
    domain: &'a str,
    subdomain: &'a str,
    records: Vec<ZoneRecord>,
}

impl<'a> View for ZoneRecords<'a> {
    type V = ZoneRecordsView;

    closed spec fn view(&self) -> ZoneRecordsView {
        ZoneRecordsView {
            domain: self.domain@,
            subdomain: self.subdomain@,
            records: record_views(self.records@),
        }
    }
}

impl<'a> ZoneRecords<'a> {
    /// The records `records` of `subdomain` under `domain`.
    pub fn new(domain: &'a str, subdomain: &'a str, records: Vec<ZoneRecord>) -> (zone: Self)
        ensures
            zone@ == (ZoneRecordsView {
                domain: domain@,
                subdomain: subdomain@,
                records: record_views(records@),
            }),
    {
        ZoneRecords { domain, subdomain, records }
    }

    /// The domain that was asked about.
    pub fn domain(&self) -> (domain: &'a str)
        ensures
            domain@ == self@.domain,
    {
        self.domain
    }

    /// The subdomain that was asked about.
    pub fn subdomain(&self) -> (subdomain: &'a str)
        ensures
            subdomain@ == self@.subdomain,
    {
        self.subdomain
    }

    /// The records, in order.
    pub fn records(&self) -> (records: &Vec<ZoneRecord>)
        ensures
            record_views(records@) == self@.records,
    {
        &self.records
    }
}

} // verus!
