//! The three operations of the client: for each, the call to send and what
//! the reply to it means.

use vstd::prelude::*;
use crate::error::{Error, LoopiaErrorKind};
use crate::record::{
    record_from_wire, record_to_wire, ZoneRecord, ZoneRecordView, ZoneRecords, ZoneRecordsView,
};
use crate::request::{Request, RequestView};
use crate::text::str_eq;
use crate::transport::TransportError;
use crate::wire::{wires, Wire, WireValue};

verus! {

/// The endpoint of the remote API.
pub const API_URL: &'static str = "https://api.loopia.se/RPCSERV";

/// The mathematical content of an [`ApiClient`].
pub struct ApiClientView {
    pub username: Seq<char>,
    pub password: Seq<char>,
    pub url: Seq<char>,
}

/// A client of the remote API: the credentials that every call carries, and
/// the endpoint the calls go to.
pub struct ApiClient {
    username: String,
    password: String,
    url: String,
}

impl View for ApiClient {
    type V = ApiClientView;

    closed spec fn view(&self) -> ApiClientView {
        ApiClientView { username: self.username@, password: self.password@, url: self.url@ }
    }
}

/// What to fetch: the records of `subdomain` under `domain`.
#[derive(Debug)]
pub struct GetZoneRecordsRequest<'a> {
    pub customer_number: Option<&'a str>,
    pub domain: &'a str,
    pub subdomain: &'a str,
}

/// What to create: `record`, at `subdomain` under `domain`.
#[derive(Debug)]
pub struct AddZoneRecordRequest<'a> {
    pub customer_number: Option<&'a str>,
    pub domain: &'a str,
    pub subdomain: &'a str,
    pub record: ZoneRecord,
}

/// What to change: the record with the identifier of `record`, at `subdomain`
/// under `domain`, is to become `record`.
#[derive(Debug)]
pub struct UpdateZoneRecordRequest<'a> {
    pub customer_number: Option<&'a str>,
    pub domain: &'a str,
    pub subdomain: &'a str,
    pub record: ZoneRecord,
}

/// The customer number as it is passed: the empty string stands for none, as
/// every procedure has a fixed number of arguments.
pub open spec fn customer_number_text(customer_number: Option<&str>) -> Seq<char> {
    match customer_number {
        Some(number) => number@,
        None => Seq::empty(),
    }
}

/// The customer-number argument of a call.
pub fn customer_number(number: Option<&str>) -> (value: WireValue)
    ensures
        value@ == Wire::String(customer_number_text(number)),
{
    match number {
        Some(text) => WireValue::String(text.to_owned()),
        None => WireValue::String(String::new()),
    }
}

impl<'a> GetZoneRecordsRequest<'a> {
    /// The customer-number argument of the call.
    pub fn customer_number(&self) -> (value: WireValue)
        ensures
            value@ == Wire::String(customer_number_text(self.customer_number)),
    {
        customer_number(self.customer_number)
    }
}

/// The arguments that every call starts with: the credentials, the customer
/// number, the domain and the subdomain.
pub open spec fn common_args(
    client: ApiClientView,
    customer_number: Option<&str>,
    domain: &str,
    subdomain: &str,
) -> Seq<Wire> {
    seq![
        Wire::String(client.username),
        Wire::String(client.password),
        Wire::String(customer_number_text(customer_number)),
        Wire::String(domain@),
        Wire::String(subdomain@),
    ]
}

/// Whatever the call, its first two arguments are the credentials, and its
/// third is the customer number, which is the empty string when there is
/// none.
pub proof fn lemma_common_args(
    client: ApiClientView,
    customer_number: Option<&str>,
    domain: &str,
    subdomain: &str,
)
    ensures
        common_args(client, customer_number, domain, subdomain).len() == 5,
        common_args(client, customer_number, domain, subdomain)[0] == Wire::String(client.username),
        common_args(client, customer_number, domain, subdomain)[1] == Wire::String(client.password),
        customer_number is None ==> common_args(client, customer_number, domain, subdomain)[2]
            == Wire::String(Seq::empty()),
{
}

/// Whether `raw` is the one-element array that holds just the string `text`.
pub open spec fn is_sentinel(raw: Wire, text: Seq<char>) -> bool {
    raw matches Wire::Array(items) && items.len() == 1 && items[0] == Wire::String(text)
}

/// The failure that the reply `raw` stands for, if it stands for one. The
/// remote API reports a failure by replying with a one-element array that
/// holds a reserved string; every other reply is a payload.
pub open spec fn classify(raw: Wire) -> Option<LoopiaErrorKind> {
    if is_sentinel(raw, "AUTH_ERROR"@) {
        Some(LoopiaErrorKind::AuthenticationError)
    } else if is_sentinel(raw, "UNKNOWN_ERROR"@) {
        Some(LoopiaErrorKind::UnknownError)
    } else {
        None
    }
}

/// The two reserved replies stand for their failures.
pub proof fn lemma_sentinels_are_failures()
    ensures
        classify(Wire::Array(seq![Wire::String("AUTH_ERROR"@)])) == Some(
            LoopiaErrorKind::AuthenticationError,
        ),
        classify(Wire::Array(seq![Wire::String("UNKNOWN_ERROR"@)])) == Some(
            LoopiaErrorKind::UnknownError,
        ),
{
    reveal_strlit("AUTH_ERROR");
    reveal_strlit("UNKNOWN_ERROR");
    assert("AUTH_ERROR"@.len() != "UNKNOWN_ERROR"@.len());
    assert(seq![Wire::String("UNKNOWN_ERROR"@)][0] == Wire::String("UNKNOWN_ERROR"@));
}

/// A reply of any other shape is a payload: a string, an integer or a struct,
/// an array that has not exactly one element, and an array whose one element
/// is anything but one of the two reserved strings.
pub proof fn lemma_other_shapes_are_payloads(raw: Wire)
    requires
        raw matches Wire::Array(items) ==> items.len() != 1 || !(items[0] is String)
            || (items[0]->String_0 != "AUTH_ERROR"@ && items[0]->String_0 != "UNKNOWN_ERROR"@),
    ensures
        classify(raw) is None,
{
}

/// Tells a reply that reports a failure from a payload, which is handed back
/// as it came.
pub fn parse_response(response: WireValue) -> (parsed: Result<WireValue, Error>)
    ensures
        match classify(response@) {
            Some(kind) => parsed is Err && parsed->Err_0@ == kind,
            None => parsed == Ok::<WireValue, Error>(response),
        },
{
    proof {
        reveal_strlit("AUTH_ERROR");
        reveal_strlit("UNKNOWN_ERROR");
    }
    let failure = match &response {
        WireValue::Array(items) => {
            assert(response@->Array_0 =~= wires(items@));
            if items.len() == 1 {
                match &items[0] {
                    WireValue::String(text) => {
                        if str_eq(text.as_str(), "AUTH_ERROR") {
                            Some(LoopiaErrorKind::AuthenticationError)
                        } else if str_eq(text.as_str(), "UNKNOWN_ERROR") {
                            Some(LoopiaErrorKind::UnknownError)
                        } else {
                            None
                        }
                    },
                    _ => None,
                }
            } else {
                None
            }
        },
        _ => None,
    };
    assert(failure == classify(response@));
    match failure {
        Some(kind) => Err(Error::new(kind)),
        None => Ok(response),
    }
}

/// What a call ends in, given what the transport brought back: a transport
/// failure surfaces as [`LoopiaErrorKind::RuntimeError`], a reply that reports
/// a failure as that failure, and any other reply as itself.
pub open spec fn call_outcome(reply: Result<WireValue, TransportError>) -> Result<
    WireValue,
    LoopiaErrorKind,
> {
    match reply {
        Err(_) => Err(LoopiaErrorKind::RuntimeError),
        Ok(response) => match classify(response@) {
            Some(kind) => Err(kind),
            None => Ok(response),
        },
    }
}

/// The records that the elements of a reply carry, if each carries one.
pub open spec fn records_from_wire(items: Seq<Wire>) -> Option<Seq<ZoneRecordView>> {
    if forall|i: int| 0 <= i < items.len() ==> (#[trigger] record_from_wire(items[i])) is Some {
        Some(Seq::new(items.len(), |i: int| record_from_wire(items[i])->0))
    } else {
        None
    }
}

/// What fetching the records of `subdomain` under `domain` ends in.
pub open spec fn zone_records_outcome(
    domain: &str,
    subdomain: &str,
    reply: Result<WireValue, TransportError>,
) -> Result<ZoneRecordsView, LoopiaErrorKind> {
    match call_outcome(reply) {
        Err(kind) => Err(kind),
        Ok(payload) => match payload@ {
            Wire::Array(items) => match records_from_wire(items) {
                Some(records) => Ok(
                    ZoneRecordsView { domain: domain@, subdomain: subdomain@, records },
                ),
                None => Err(LoopiaErrorKind::MalformedRecordError),
            },
            _ => Err(LoopiaErrorKind::UnknownError),
        },
    }
}

impl ApiClient {
    /// A client that authenticates with `username` and `password`, which are
    /// taken as they are.
    pub fn new(username: String, password: String) -> (client: Self)
        ensures
            client@ == (ApiClientView {
                username: username@,
                password: password@,
                url: API_URL@,
            }),
    {
        ApiClient { url: API_URL.to_owned(), username, password }
    }

    /// The endpoint that the calls go to.
    pub fn url(&self) -> (url: &str)
        ensures
            url@ == self@.url,
    {
        self.url.as_str()
    }

    /// A call of `procedure` that carries the credentials and nothing else.
    fn request(&self, procedure: &str) -> (request: Request)
        ensures
            request@ == (RequestView {
                procedure: procedure@,
                args: seq![Wire::String(self@.username), Wire::String(self@.password)],
            }),
    {
        let request = Request::build(
            procedure,
            self.username.as_str(),
            self.password.as_str(),
            Vec::new(),
        );
        assert(request@.args =~= seq![Wire::String(self@.username), Wire::String(self@.password)]);
        request
    }

    /// What the transport brought back for a call, turned into the call's
    /// result.
    pub fn receive(&self, reply: Result<WireValue, TransportError>) -> (received: Result<
        WireValue,
        Error,
    >)
        ensures
            match call_outcome(reply) {
                Ok(payload) => received == Ok::<WireValue, Error>(payload),
                Err(kind) => received is Err && received->Err_0@ == kind,
            },
    {
        match reply {
            Ok(response) => parse_response(response),
            Err(_) => Err(Error::new(LoopiaErrorKind::RuntimeError)),
        }
    }

    /// The call that fetches the records of a subdomain.
    pub fn get_zone_records_request(&self, parameters: &GetZoneRecordsRequest) -> (request: Request)
        ensures
            request@ == (RequestView {
                procedure: "getZoneRecords"@,
                args: common_args(
                    self@,
                    parameters.customer_number,
                    parameters.domain,
                    parameters.subdomain,
                ),
            }),
    {
        let request = self.request("getZoneRecords").arg(
            customer_number(parameters.customer_number),
        ).arg(WireValue::String(parameters.domain.to_owned())).arg(
            WireValue::String(parameters.subdomain.to_owned()),
        );
        assert(request@.args =~= common_args(
            self@,
            parameters.customer_number,
            parameters.domain,
            parameters.subdomain,
        ));
        request
    }

    /// The records in the reply to [`ApiClient::get_zone_records_request`].
    ///
    /// The payload must be an array, else the result is
    /// [`LoopiaErrorKind::UnknownError`]; each of its elements must carry a
    /// record, else it is [`LoopiaErrorKind::MalformedRecordError`].
    pub fn get_zone_records<'a>(
        &self,
        parameters: &'a GetZoneRecordsRequest<'a>,
        reply: Result<WireValue, TransportError>,
    ) -> (fetched: Result<ZoneRecords<'a>, Error>)
        ensures
            match zone_records_outcome(parameters.domain, parameters.subdomain, reply) {
                Ok(zone) => fetched is Ok && fetched->Ok_0@ == zone,
                Err(kind) => fetched is Err && fetched->Err_0@ == kind,
            },
    {
        let payload = match self.receive(reply) {
            Ok(payload) => payload,
            Err(error) => {
                return Err(error);
            },
        };
        let items = match payload.as_array() {
            Some(items) => items,
            None => {
                return Err(Error::new(LoopiaErrorKind::UnknownError));
            },
        };
        let mut records: Vec<ZoneRecord> = Vec::new();
        let mut i: usize = 0;
        while i < items.len()
            invariant
                i <= items.len(),
                records.len() == i,
                call_outcome(reply) == Ok::<WireValue, LoopiaErrorKind>(payload),
                payload@ == Wire::Array(wires(items@)),
                forall|j: int|
                    0 <= j < i ==> record_from_wire(#[trigger] wires(items@)[j]) == Some(
                        records[j]@,
                    ),
            decreases items.len() - i,
        {
            match ZoneRecord::from_wire(&items[i]) {
                Ok(record) => {
                    records.push(record);
                },
                Err(error) => {
                    assert(record_from_wire(wires(items@)[i as int]) is None);
                    return Err(error);
                },
            }
            i += 1;
        }
        let zone = ZoneRecords::new(parameters.domain, parameters.subdomain, records);
        assert(zone@.records =~= records_from_wire(wires(items@))->0);
        Ok(zone)
    }

    /// The call that creates a record.
    pub fn add_zone_record_request(&self, parameters: AddZoneRecordRequest) -> (request: Request)
        ensures
            request@ == (RequestView {
                procedure: "addZoneRecord"@,
                args: common_args(
                    self@,
                    parameters.customer_number,
                    parameters.domain,
                    parameters.subdomain,
                ).push(record_to_wire(parameters.record@)),
            }),
    {
        let request = self.request("addZoneRecord").arg(
            customer_number(parameters.customer_number),
        ).arg(WireValue::String(parameters.domain.to_owned())).arg(
            WireValue::String(parameters.subdomain.to_owned()),
        ).arg(parameters.record.into_wire());
        assert(request@.args =~= common_args(
            self@,
            parameters.customer_number,
            parameters.domain,
            parameters.subdomain,
        ).push(record_to_wire(parameters.record@)));
        request
    }

    /// The outcome of [`ApiClient::add_zone_record_request`]: success carries
    /// no value.
    pub fn add_zone_record(&self, reply: Result<WireValue, TransportError>) -> (added: Result<
        (),
        Error,
    >)
        ensures
            match call_outcome(reply) {
                Ok(_) => added is Ok,
                Err(kind) => added is Err && added->Err_0@ == kind,
            },
    {
        match self.receive(reply) {
            Ok(_) => Ok(()),
            Err(error) => Err(error),
        }
    }

    /// The call that changes a record.
    pub fn update_zone_record_request(&self, parameters: UpdateZoneRecordRequest) -> (request:
        Request)
        ensures
            request@ == (RequestView {
                procedure: "updateZoneRecord"@,
                args: common_args(
                    self@,
                    parameters.customer_number,
                    parameters.domain,
                    parameters.subdomain,
                ).push(record_to_wire(parameters.record@)),
            }),
    {
        let request = self.request("updateZoneRecord").arg(
            customer_number(parameters.customer_number),
        ).arg(WireValue::String(parameters.domain.to_owned())).arg(
            WireValue::String(parameters.subdomain.to_owned()),
        ).arg(parameters.record.into_wire());
        assert(request@.args =~= common_args(
            self@,
            parameters.customer_number,
            parameters.domain,
            parameters.subdomain,
        ).push(record_to_wire(parameters.record@)));
        request
    }

    /// The outcome of [`ApiClient::update_zone_record_request`]: success
    /// carries the acknowledgement of the remote API as it came.
    pub fn update_zone_record(&self, reply: Result<WireValue, TransportError>) -> (updated: Result<
        WireValue,
        Error,
    >)
        ensures
            match call_outcome(reply) {
                Ok(payload) => updated == Ok::<WireValue, Error>(payload),
                Err(kind) => updated is Err && updated->Err_0@ == kind,
            },
    {
        self.receive(reply)
    }
}

} // verus!
