//! Requests: the authorization header of a request to a bound host gets the
//! credential that it asks for.
use crate::broker::credentials;
use crate::broker::credentials::BrokerView;
use crate::broker::credentials::CredentialBroker;
use crate::broker::credentials::CredentialKind;
use crate::broker::credentials::CredentialRecord;
use crate::broker::credentials::RecordView;
use crate::outside::headers;
use crate::text;
use rama_http::HeaderMap;
use rama_http::HeaderValue;
use vstd::prelude::*;
use vstd::utf8::*;

verus! {

/// The contents of a list of records.
pub open spec fn refs_view(list: Seq<&CredentialRecord>) -> Seq<RecordView> {
    list.map_values(|r: &CredentialRecord| r@)
}

/// Which records admit a host.
pub open spec fn bound_to(host: Seq<char>) -> spec_fn(RecordView) -> bool {
    |r: RecordView| credentials::admits(r.binding, host)
}

/// The records that admit a host, oldest first.
pub open spec fn matching(records: Seq<RecordView>, host: Seq<char>) -> Seq<RecordView> {
    records.filter(bound_to(host))
}

/// Whether the first authorization value of a request reads as a text that holds
/// a stand-in.
pub open spec fn carries(header: Option<Seq<u8>>, stand_in: Seq<char>) -> bool {
    match header {
        Some(bytes) => headers::reads_as_text(bytes) && text::occurs_in(
            stand_in,
            decode_utf8(bytes),
        ),
        None => false,
    }
}

/// Which records have a stand-in that a request carries.
pub open spec fn carried_by(header: Option<Seq<u8>>) -> spec_fn(RecordView) -> bool {
    |r: RecordView| carries(header, r.stand_in)
}

/// The credential for a request without a stand-in: that of the records, where
/// all of them are of the same one.
pub open spec fn fallback(records: Seq<RecordView>) -> Option<RecordView> {
    if records.len() > 0 && forall|i: int|
        0 <= i < records.len() ==> (#[trigger] records[i]).kind == records[0].kind
            && records[i].secret == records[0].secret {
        Some(records[0])
    } else {
        None
    }
}

/// The record that a request asks for, among those that admit its host: the only
/// one whose stand-in it carries. A request without authorization gets the
/// fallback.
pub open spec fn selected(
    records: Seq<RecordView>,
    header: Option<Seq<u8>>,
) -> Option<RecordView> {
    let carried = records.filter(carried_by(header));
    if carried.len() == 1 {
        Some(carried[0])
    } else if carried.len() == 0 && header is None {
        fallback(records)
    } else {
        None
    }
}

/// The authorization that a broker puts into a request.
pub open spec fn injection(
    broker: BrokerView,
    host: Seq<char>,
    header: Option<Seq<u8>>,
) -> Option<Seq<char>> {
    if broker.enabled {
        match selected(matching(broker.records, host), header) {
            Some(record) => if credentials::is_sendable(record.secret) {
                Some(credentials::bearer(record.secret))
            } else {
                None
            },
            None => None,
        }
    } else {
        None
    }
}

impl CredentialKind {
    /// The header of a request that carries credentials of the kind.
    pub fn request_header(self, headers: &HeaderMap<HeaderValue>) -> (r: Option<&HeaderValue>)
        ensures
            match r {
                Some(value) => headers::first_value(*headers, "authorization"@) == Some(
                    headers::value_bytes(*value),
                ),
                None => headers::first_value(*headers, "authorization"@) is None,
            },
    {
        match self {
            CredentialKind::GitHub => headers::authorization_value(headers),
            CredentialKind::OpenAiApiKey => headers::authorization_value(headers),
        }
    }

    /// Makes a value the only one of the header that carries credentials of the
    /// kind. Where the headers have no room for another name, it says so and
    /// changes nothing.
    pub fn insert_request_header(
        self,
        headers: &mut HeaderMap<HeaderValue>,
        value: HeaderValue,
    ) -> (r: bool)
        ensures
            headers::header_values(*final(headers)) == if r {
                headers::header_values(*old(headers)).insert(
                    "authorization"@,
                    seq![headers::value_bytes(value)],
                )
            } else {
                headers::header_values(*old(headers))
            },
            headers::header_values(*old(headers)).dom().finite() && headers::header_values(
                *old(headers),
            ).dom().len() <= headers::ROOMY_HEADER_NAMES ==> r,
    {
        match self {
            CredentialKind::GitHub => headers::put_authorization(headers, value),
            CredentialKind::OpenAiApiKey => headers::put_authorization(headers, value),
        }
    }
}

/// Whether a request carries a stand-in.
pub fn carries_dummy(header: Option<&HeaderValue>, stand_in: &str) -> (r: bool)
    ensures
        r == carries(
            match header {
                Some(value) => Some(headers::value_bytes(*value)),
                None => None,
            },
            stand_in@,
        ),
{
    match header {
        Some(value) => match headers::header_value_text(value) {
            Some(held) => {
                proof {
                    encode_utf8_decode_utf8(held@);
                }
                text::contains_text(held, stand_in)
            },
            None => false,
        },
        None => false,
    }
}

/// The credential for a request without a stand-in.
pub fn missing_dummy_fallback<'a>(matching_credentials: &Vec<&'a CredentialRecord>) -> (r: Option<
    &'a CredentialRecord,
>)
    ensures
        match r {
            Some(record) => fallback(refs_view(matching_credentials@)) == Some(record@),
            None => fallback(refs_view(matching_credentials@)) is None,
        },
{
    let n: usize = matching_credentials.len();
    let ghost list = refs_view(matching_credentials@);
    if n == 0 {
        return None;
    }
    let credential: &'a CredentialRecord = matching_credentials[0];
    assert(list[0] == credential@);
    let mut i: usize = 0;
    while i < n
        invariant
            0 < n == matching_credentials@.len(),
            i <= n,
            list == refs_view(matching_credentials@),
            list[0] == credential@,
            forall|k: int|
                0 <= k < i ==> (#[trigger] list[k]).kind == list[0].kind && list[k].secret
                    == list[0].secret,
        decreases n - i,
    {
        let candidate: &CredentialRecord = matching_credentials[i];
        assert(list[i as int] == candidate@);
        if !(candidate.kind == credential.kind && text::same_text(
            candidate.real_value.as_str(),
            credential.real_value.as_str(),
        )) {
            return None;
        }
        i += 1;
    }
    Some(credential)
}

/// The record that a request asks for, by its authorization header.
pub fn select_credential<'a>(
    headers: &HeaderMap<HeaderValue>,
    matching_credentials: &Vec<&'a CredentialRecord>,
) -> (r: Option<&'a CredentialRecord>)
    ensures
        match r {
            Some(record) => selected(
                refs_view(matching_credentials@),
                headers::first_value(*headers, "authorization"@),
            ) == Some(record@),
            None => selected(
                refs_view(matching_credentials@),
                headers::first_value(*headers, "authorization"@),
            ) is None,
        },
{
    let ghost header = headers::first_value(*headers, "authorization"@);
    let ghost list = refs_view(matching_credentials@);
    let mut dummy_matches: Vec<&'a CredentialRecord> = Vec::new();
    let n: usize = matching_credentials.len();
    let mut i: usize = 0;
    proof {
        reveal(Seq::filter);
        assert(refs_view(dummy_matches@) =~= list.take(0).filter(carried_by(header)));
    }
    while i < n
        invariant
            n == matching_credentials@.len(),
            i <= n,
            header == headers::first_value(*headers, "authorization"@),
            list == refs_view(matching_credentials@),
            refs_view(dummy_matches@) == list.take(i as int).filter(carried_by(header)),
        decreases n - i,
    {
        let candidate: &'a CredentialRecord = matching_credentials[i];
        let ghost before = dummy_matches@;
        proof {
            assert(list.take(i + 1) =~= list.take(i as int).push(candidate@));
            text::lemma_filter_push(list.take(i as int), candidate@, carried_by(header));
        }
        if carries_dummy(candidate.kind.request_header(headers), candidate.dummy_value.as_str()) {
            dummy_matches.push(candidate);
            assert(refs_view(dummy_matches@) =~= refs_view(before).push(candidate@));
        }
        i += 1;
    }
    assert(list.take(n as int) =~= list);
    if dummy_matches.len() == 1 {
        assert(refs_view(dummy_matches@)[0] == dummy_matches@[0]@);
        return Some(dummy_matches[0]);
    }
    if dummy_matches.len() > 1 {
        return None;
    }
    match missing_dummy_fallback(matching_credentials) {
        Some(credential) => match credential.kind.request_header(headers) {
            Some(_) => None,
            None => Some(credential),
        },
        None => None,
    }
}

impl CredentialBroker {
    /// The records that admit a host, by its normalized name.
    pub fn matching_credentials(&self, normalized_host: &str) -> (r: Vec<&CredentialRecord>)
        ensures
            refs_view(r@) == matching(self@.records, normalized_host@),
    {
        let records: &Vec<CredentialRecord> = self.records();
        let ghost list = self@.records;
        let mut out: Vec<&CredentialRecord> = Vec::new();
        let n: usize = records.len();
        let mut i: usize = 0;
        proof {
            reveal(Seq::filter);
            assert(refs_view(out@) =~= list.take(0).filter(bound_to(normalized_host@)));
        }
        while i < n
            invariant
                n == records@.len(),
                i <= n,
                list == credentials::records_view(records@),
                refs_view(out@) == list.take(i as int).filter(bound_to(normalized_host@)),
            decreases n - i,
        {
            let ghost before = out@;
            proof {
                assert(list.take(i + 1) =~= list.take(i as int).push(records@[i as int]@));
                text::lemma_filter_push(
                    list.take(i as int),
                    records@[i as int]@,
                    bound_to(normalized_host@),
                );
            }
            if records[i].matches_host(normalized_host) {
                out.push(&records[i]);
                assert(refs_view(out@) =~= refs_view(before).push(records@[i as int]@));
            }
            i += 1;
        }
        assert(list.take(n as int) =~= list);
        out
    }

    /// Puts the credential that a request asks for into its authorization header,
    /// by the normalized name of the host that it goes to. Where the headers have
    /// no room for another name, it says so and changes nothing.
    pub fn inject_request_headers(
        &self,
        normalized_host: &str,
        headers: &mut HeaderMap<HeaderValue>,
    ) -> (r: bool)
        ensures
            ({
                let header = headers::first_value(*old(headers), "authorization"@);
                match injection(self@, normalized_host@, header) {
                    Some(value) => headers::header_values(*final(headers)) == if r {
                        headers::header_values(*old(headers)).insert(
                            "authorization"@,
                            seq![encode_utf8(value)],
                        )
                    } else {
                        headers::header_values(*old(headers))
                    },
                    None => r && headers::header_values(*final(headers)) == headers::header_values(
                        *old(headers),
                    ),
                }
            }),
            headers::header_values(*old(headers)).dom().finite() && headers::header_values(
                *old(headers),
            ).dom().len() <= headers::ROOMY_HEADER_NAMES ==> r,
    {
        if !self.is_enabled() {
            return true;
        }
        let matching_credentials: Vec<&CredentialRecord> = self.matching_credentials(
            normalized_host,
        );
        match select_credential(headers, &matching_credentials) {
            Some(credential) => match credential.kind.request_header_value(
                credential.real_value.as_str(),
            ) {
                Some(value) => credential.kind.insert_request_header(headers, value),
                None => true,
            },
            None => true,
        }
    }
}

/// A broker that is off, and a request to a host that no record admits, put no
/// credential anywhere.
pub proof fn law_unbound_hosts_get_nothing(
    broker: BrokerView,
    host: Seq<char>,
    header: Option<Seq<u8>>,
)
    ensures
        !broker.enabled || (forall|i: int|
            0 <= i < broker.records.len() ==> !credentials::admits(
                (#[trigger] broker.records[i]).binding,
                host,
            )) ==> injection(broker, host, header) is None,
{
    let found = matching(broker.records, host);
    if broker.enabled && found.len() > 0 {
        law_matching_records_admit_the_host(broker.records, host);
        let i = choose|i: int|
            0 <= i < broker.records.len() && found[0] == #[trigger] broker.records[i];
        assert(credentials::admits(broker.records[i].binding, host));
    } else {
        assert(found =~= Seq::<RecordView>::empty() || !broker.enabled);
        reveal(Seq::filter);
    }
}

/// The records that match a host are on record and admit it.
pub proof fn law_matching_records_admit_the_host(records: Seq<RecordView>, host: Seq<char>)
    ensures
        forall|k: int|
            0 <= k < matching(records, host).len() ==> credentials::admits(
                (#[trigger] matching(records, host)[k]).binding,
                host,
            ) && exists|i: int|
                0 <= i < records.len() && matching(records, host)[k] == #[trigger] records[i],
{
    broadcast use vstd::seq_lib::group_filter_ensures;

    assert forall|k: int| 0 <= k < matching(records, host).len() implies credentials::admits(
        (#[trigger] matching(records, host)[k]).binding,
        host,
    ) && exists|i: int|
        0 <= i < records.len() && matching(records, host)[k] == #[trigger] records[i] by {
        let record = records.filter(bound_to(host))[k];
        assert(bound_to(host)(record));
        assert(records.filter(bound_to(host)).contains(record));
        records.lemma_filter_contains_rev(bound_to(host), record);
        let i = choose|i: int| 0 <= i < records.len() && records[i] == record;
        assert(records[i] == record);
    }
}

/// Filtering twice is filtering by both.
pub proof fn lemma_filter_twice<T>(s: Seq<T>, p: spec_fn(T) -> bool, q: spec_fn(T) -> bool)
    ensures
        s.filter(p).filter(q) == s.filter(|x: T| p(x) && q(x)),
    decreases s.len(),
{
    reveal(Seq::filter);
    if s.len() > 0 {
        let front = s.drop_last();
        lemma_filter_twice(front, p, q);
        assert(front.push(s.last()) =~= s);
        if p(s.last()) {
            text::lemma_filter_push(front.filter(p), s.last(), q);
        }
    }
}

/// Filtering leaves the only item that passes.
proof fn lemma_filter_single<T>(s: Seq<T>, p: spec_fn(T) -> bool, i: int)
    requires
        0 <= i < s.len(),
        p(s[i]),
        forall|j: int| 0 <= j < s.len() && j != i ==> !p(#[trigger] s[j]),
    ensures
        s.filter(p) == seq![s[i]],
    decreases s.len(),
{
    reveal(Seq::filter);
    let front = s.drop_last();
    if i < s.len() - 1 {
        assert forall|j: int| 0 <= j < front.len() && j != i implies !p(#[trigger] front[j]) by {
            assert(front[j] == s[j]);
        }
        lemma_filter_single(front, p, i);
        assert(!p(s[s.len() - 1]));
    } else {
        assert forall|j: int| 0 <= j < front.len() implies !p(#[trigger] front[j]) by {
            assert(front[j] == s[j]);
        }
        lemma_filter_none(front, p);
        assert(s.filter(p) =~= seq![s[i]]);
    }
}

pub proof fn lemma_filter_none<T>(s: Seq<T>, p: spec_fn(T) -> bool)
    requires
        forall|j: int| 0 <= j < s.len() ==> !p(#[trigger] s[j]),
    ensures
        s.filter(p) == Seq::<T>::empty(),
    decreases s.len(),
{
    reveal(Seq::filter);
    if s.len() > 0 {
        let front = s.drop_last();
        assert forall|j: int| 0 <= j < front.len() implies !p(#[trigger] front[j]) by {
            assert(front[j] == s[j]);
        }
        lemma_filter_none(front, p);
        assert(!p(s[s.len() - 1]));
    }
}

/// A stand-in is exchanged for its credential: a request to a host of the record,
/// which carries the stand-in of this record and of no other one for the host,
/// gets the credential.
pub proof fn law_stand_in_is_exchanged(
    broker: BrokerView,
    host: Seq<char>,
    header: Option<Seq<u8>>,
    i: int,
)
    requires
        broker.enabled,
        0 <= i < broker.records.len(),
        credentials::admits(broker.records[i].binding, host),
        credentials::is_sendable(broker.records[i].secret),
        carries(header, broker.records[i].stand_in),
        forall|j: int|
            0 <= j < broker.records.len() && j != i && credentials::admits(
                (#[trigger] broker.records[j]).binding,
                host,
            ) ==> !carries(header, broker.records[j].stand_in),
    ensures
        injection(broker, host, header) == Some(credentials::bearer(broker.records[i].secret)),
{
    let both = |r: RecordView| bound_to(host)(r) && carried_by(header)(r);
    lemma_filter_twice(broker.records, bound_to(host), carried_by(header));
    lemma_filter_single(broker.records, both, i);
}

/// A text that holds a stand-in, and that a header value may hold and read as
/// text, carries it. So does the authorization that a child process makes of it.
pub proof fn law_header_text_carries_the_stand_in(held: Seq<char>, stand_in: Seq<char>)
    requires
        headers::reads_as_text(encode_utf8(held)),
    ensures
        carries(Some(encode_utf8(held)), stand_in) == text::occurs_in(stand_in, held),
        held == credentials::bearer(stand_in) ==> carries(Some(encode_utf8(held)), stand_in),
{
    encode_utf8_decode_utf8(held);
    if held == credentials::bearer(stand_in) {
        let at = "Bearer "@.len() as int;
        assert(held.subrange(at, at + stand_in.len()) =~= stand_in);
        assert(text::stands_at(held, stand_in, at));
    }
}

/// What a request gets is the credential of a record that admits the host. The
/// request carried the stand-in of that record, or had no authorization at all.
pub proof fn law_injected_credential_is_bound(
    broker: BrokerView,
    host: Seq<char>,
    header: Option<Seq<u8>>,
)
    ensures
        injection(broker, host, header) is Some ==> exists|i: int|
            0 <= i < broker.records.len() && credentials::admits(
                (#[trigger] broker.records[i]).binding,
                host,
            ) && injection(broker, host, header) == Some(
                credentials::bearer(broker.records[i].secret),
            ) && (header is None || carries(header, broker.records[i].stand_in)),
{
    let found = matching(broker.records, host);
    let carried = found.filter(carried_by(header));
    if injection(broker, host, header) is Some {
        law_matching_records_admit_the_host(broker.records, host);
        if carried.len() == 1 {
            found.lemma_filter_pred(carried_by(header), 0);
            assert(carried.contains(carried[0]));
            found.lemma_filter_contains_rev(carried_by(header), carried[0]);
            let k = choose|k: int| 0 <= k < found.len() && found[k] == carried[0];
            assert(credentials::admits(found[k].binding, host));
            let i = choose|i: int|
                0 <= i < broker.records.len() && found[k] == #[trigger] broker.records[i];
            assert(credentials::admits(broker.records[i].binding, host));
        } else {
            let i = choose|i: int|
                0 <= i < broker.records.len() && found[0] == #[trigger] broker.records[i];
            assert(credentials::admits(found[0].binding, host));
            assert(credentials::admits(broker.records[i].binding, host));
        }
    }
}

/// A request's own authorization stays: where it carries no stand-in of a record
/// for the host, or those of more than one, the broker puts nothing in its place.
pub proof fn law_own_authorization_stays(
    broker: BrokerView,
    host: Seq<char>,
    header: Option<Seq<u8>>,
)
    requires
        header is Some,
    ensures
        (forall|i: int|
            0 <= i < broker.records.len() && credentials::admits(
                (#[trigger] broker.records[i]).binding,
                host,
            ) ==> !carries(header, broker.records[i].stand_in)) ==> injection(
            broker,
            host,
            header,
        ) is None,
        matching(broker.records, host).filter(carried_by(header)).len() != 1 ==> injection(
            broker,
            host,
            header,
        ) is None,
{
    law_injected_credential_is_bound(broker, host, header);
}

} // verus!
