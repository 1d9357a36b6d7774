//! Credentials: their kinds, the hosts that they are bound to, and the records
//! that a broker keeps of them.
use crate::broker::dummy;
use crate::outside::headers;
use crate::text;
use rama_http::HeaderValue;
use vstd::prelude::*;
use vstd::utf8::*;

verus! {

/// What a credential is for.
#[derive(Debug, Clone, Copy, PartialEq, Eq, Structural)]
pub enum CredentialKind {
    GitHub,
    OpenAiApiKey,
}

/// The hosts that a credential may go to.
pub enum CredentialHostBinding {
    GitHubCloud,
    ExactHost(String),
    OpenAiApi,
}

/// The contents of a host binding.
pub enum BindingView {
    GitHubCloud,
    ExactHost(Seq<char>),
    OpenAiApi,
}

impl View for CredentialHostBinding {
    type V = BindingView;

    open spec fn view(&self) -> BindingView {
        match self {
            CredentialHostBinding::GitHubCloud => BindingView::GitHubCloud,
            CredentialHostBinding::ExactHost(host) => BindingView::ExactHost(host@),
            CredentialHostBinding::OpenAiApi => BindingView::OpenAiApi,
        }
    }
}

/// Whether a host belongs to GitHub's cloud.
pub open spec fn is_cloud_host(host: Seq<char>) -> bool {
    ||| host == "api.github.com"@
    ||| host == "github.com"@
    ||| ".ghe.com"@.is_suffix_of(host)
}

/// Whether a binding admits a host.
pub open spec fn admits(binding: BindingView, host: Seq<char>) -> bool {
    match binding {
        BindingView::GitHubCloud => is_cloud_host(host),
        BindingView::ExactHost(expected) => host == expected,
        BindingView::OpenAiApi => host == "api.openai.com"@,
    }
}

/// The value of the authorization header that carries a credential.
pub open spec fn bearer(value: Seq<char>) -> Seq<char> {
    "Bearer "@ + value
}

/// Whether a credential can be carried by an authorization header.
pub open spec fn is_sendable(value: Seq<char>) -> bool {
    headers::may_hold(encode_utf8(bearer(value)))
}

/// The stand-in for the credential of a number.
pub open spec fn kind_dummy(kind: CredentialKind, id: nat, value: Seq<char>) -> Seq<char> {
    match kind {
        CredentialKind::GitHub => dummy::shaped_dummy(
            value,
            dummy::github_prefix(value),
            dummy::GITHUB_TOKEN_MIN_LEN as nat,
            "github"@,
            id,
        ),
        CredentialKind::OpenAiApiKey => dummy::shaped_dummy(
            value,
            dummy::openai_prefix(value),
            dummy::OPENAI_API_KEY_MIN_LEN as nat,
            "openai"@,
            id,
        ),
    }
}

/// Whether a host belongs to GitHub's cloud.
pub fn github_cloud_host(host: &str) -> (r: bool)
    ensures
        r == is_cloud_host(host@),
{
    text::same_text(host, "api.github.com") || text::same_text(host, "github.com")
        || text::ends_with(host, ".ghe.com")
}

impl CredentialKind {
    /// The stand-in for the credential of a number.
    pub fn dummy_value(self, credential_id: usize, real_value: &str) -> (r: String)
        ensures
            r@ == kind_dummy(self, credential_id as nat, real_value@),
    {
        match self {
            CredentialKind::GitHub => dummy::shaped_dummy_value(
                real_value,
                dummy::github_token_prefix(real_value),
                dummy::GITHUB_TOKEN_MIN_LEN,
                "github",
                credential_id,
            ),
            CredentialKind::OpenAiApiKey => dummy::shaped_dummy_value(
                real_value,
                dummy::openai_api_key_prefix(real_value),
                dummy::OPENAI_API_KEY_MIN_LEN,
                "openai",
                credential_id,
            ),
        }
    }

    /// The header value that carries a credential, if one can.
    pub fn request_header_value(self, value: &str) -> (r: Option<HeaderValue>)
        ensures
            r is Some <==> is_sendable(value@),
            r matches Some(header) ==> headers::value_bytes(header) == encode_utf8(bearer(value@)),
    {
        let mut carried: String = "Bearer ".to_string();
        carried.append(value);
        assert(carried@ =~= bearer(value@));
        headers::header_value_of(carried.as_str())
    }
}

impl CredentialHostBinding {
    /// Whether the binding admits a host.
    pub fn matches_host(&self, host: &str) -> (r: bool)
        ensures
            r == admits(self@, host@),
    {
        match self {
            CredentialHostBinding::GitHubCloud => github_cloud_host(host),
            CredentialHostBinding::ExactHost(expected) => text::same_text(host, expected.as_str()),
            CredentialHostBinding::OpenAiApi => text::same_text(host, "api.openai.com"),
        }
    }

    /// The same binding again.
    pub fn duplicate(&self) -> (r: Self)
        ensures
            r@ == self@,
    {
        match self {
            CredentialHostBinding::GitHubCloud => CredentialHostBinding::GitHubCloud,
            CredentialHostBinding::ExactHost(host) => CredentialHostBinding::ExactHost(
                host.clone(),
            ),
            CredentialHostBinding::OpenAiApi => CredentialHostBinding::OpenAiApi,
        }
    }

    /// Whether two bindings are the same.
    pub fn same_as(&self, other: &CredentialHostBinding) -> (r: bool)
        ensures
            r == (self@ == other@),
    {
        match (self, other) {
            (CredentialHostBinding::GitHubCloud, CredentialHostBinding::GitHubCloud) => true,
            (CredentialHostBinding::ExactHost(a), CredentialHostBinding::ExactHost(b)) => {
                text::same_text(a.as_str(), b.as_str())
            },
            (CredentialHostBinding::OpenAiApi, CredentialHostBinding::OpenAiApi) => true,
            _ => false,
        }
    }
}

/// What is known of one credential.
pub struct CredentialRecord {
    pub env_var: String,
    pub kind: CredentialKind,
    pub host_binding: CredentialHostBinding,
    pub real_value: String,
    pub dummy_value: String,
}

/// The contents of a record.
pub struct RecordView {
    pub env_var: Seq<char>,
    pub kind: CredentialKind,
    pub binding: BindingView,
    pub secret: Seq<char>,
    pub stand_in: Seq<char>,
}

impl View for CredentialRecord {
    type V = RecordView;

    open spec fn view(&self) -> RecordView {
        RecordView {
            env_var: self.env_var@,
            kind: self.kind,
            binding: self.host_binding@,
            secret: self.real_value@,
            stand_in: self.dummy_value@,
        }
    }
}

impl CredentialRecord {
    /// Whether the credential may go to a host.
    pub fn matches_host(&self, host: &str) -> (r: bool)
        ensures
            r == admits(self@.binding, host@),
    {
        self.host_binding.matches_host(host)
    }
}

/// The contents of a list of records.
pub open spec fn records_view(list: Seq<CredentialRecord>) -> Seq<RecordView> {
    list.map_values(|r: CredentialRecord| r@)
}

/// Whether a record is of a credential.
pub open spec fn is_record_of(
    record: RecordView,
    env_var: Seq<char>,
    kind: CredentialKind,
    binding: BindingView,
    secret: Seq<char>,
) -> bool {
    &&& record.env_var == env_var
    &&& record.kind == kind
    &&& record.binding == binding
    &&& record.secret == secret
}

/// The stand-in of the first record of a credential.
pub open spec fn known_dummy(
    records: Seq<RecordView>,
    env_var: Seq<char>,
    kind: CredentialKind,
    binding: BindingView,
    secret: Seq<char>,
) -> Option<Seq<char>>
    decreases records.len(),
{
    if records.len() == 0 {
        None
    } else if is_record_of(records[0], env_var, kind, binding, secret) {
        Some(records[0].stand_in)
    } else {
        known_dummy(records.skip(1), env_var, kind, binding, secret)
    }
}

/// The stand-in of a credential: the one on record, or else a new one.
pub open spec fn dummy_for(
    records: Seq<RecordView>,
    env_var: Seq<char>,
    kind: CredentialKind,
    binding: BindingView,
    secret: Seq<char>,
) -> Seq<char> {
    match known_dummy(records, env_var, kind, binding, secret) {
        Some(stand_in) => stand_in,
        None => kind_dummy(kind, records.len(), secret),
    }
}

/// The records once a credential is among them.
pub open spec fn registered(
    records: Seq<RecordView>,
    env_var: Seq<char>,
    kind: CredentialKind,
    binding: BindingView,
    secret: Seq<char>,
) -> Seq<RecordView> {
    match known_dummy(records, env_var, kind, binding, secret) {
        Some(_) => records,
        None => records.push(
            RecordView {
                env_var,
                kind,
                binding,
                secret,
                stand_in: kind_dummy(kind, records.len(), secret),
            },
        ),
    }
}

/// Whether a text is the stand-in of a record.
pub open spec fn is_stand_in(records: Seq<RecordView>, value: Seq<char>) -> bool {
    exists|i: int| 0 <= i < records.len() && (#[trigger] records[i]).stand_in == value
}

/// Whether the stand-in of each record is the one that its number gives.
pub open spec fn numbered(records: Seq<RecordView>) -> bool {
    forall|i: int|
        0 <= i < records.len() ==> (#[trigger] records[i]).stand_in == kind_dummy(
            records[i].kind,
            i as nat,
            records[i].secret,
        )
}

/// Whether brokering is on, and the records.
pub struct BrokerView {
    pub enabled: bool,
    pub records: Seq<RecordView>,
}

/// A broker of credentials.
pub struct CredentialBroker {
    enabled: bool,
    next_credential_id: usize,
    credentials: Vec<CredentialRecord>,
}

impl View for CredentialBroker {
    type V = BrokerView;

    closed spec fn view(&self) -> BrokerView {
        BrokerView { enabled: self.enabled, records: records_view(self.credentials@) }
    }
}

impl CredentialBroker {
    /// Credentials are numbered as they come, and their stand-ins go by the numbers.
    #[verifier::type_invariant]
    spec fn wf(self) -> bool {
        &&& self.next_credential_id == self.credentials@.len()
        &&& numbered(records_view(self.credentials@))
    }

    /// A broker without records.
    pub fn new(enabled: bool) -> (r: Self)
        ensures
            r@ == (BrokerView { enabled, records: Seq::empty() }),
    {
        let r = CredentialBroker { enabled, next_credential_id: 0, credentials: Vec::new() };
        assert(r@.records =~= Seq::<RecordView>::empty());
        r
    }

    /// Turns brokering on or off. Turning it off forgets every credential.
    pub fn set_enabled(&mut self, enabled: bool)
        ensures
            final(self)@ == (BrokerView {
                enabled,
                records: if enabled {
                    old(self)@.records
                } else {
                    Seq::empty()
                },
            }),
    {
        proof {
            use_type_invariant(&*self);
        }
        if enabled {
            self.enabled = true;
        } else {
            *self = CredentialBroker {
                enabled: false,
                next_credential_id: 0,
                credentials: Vec::new(),
            };
            assert(self@.records =~= Seq::<RecordView>::empty());
        }
    }

    /// Whether brokering is on. On or off, the stand-ins of the records go by their
    /// numbers.
    pub fn is_enabled(&self) -> (r: bool)
        ensures
            r == self@.enabled,
            numbered(self@.records),
    {
        proof {
            use_type_invariant(self);
        }
        self.enabled
    }

    /// The records, oldest first.
    pub fn records(&self) -> (r: &Vec<CredentialRecord>)
        ensures
            records_view(r@) == self@.records,
    {
        &self.credentials
    }

    /// The stand-in of a credential, which is put on record where it is not yet.
    pub fn register(
        &mut self,
        env_var: &str,
        kind: CredentialKind,
        host_binding: &CredentialHostBinding,
        real_value: &str,
    ) -> (r: String)
        ensures
            r@ == dummy_for(old(self)@.records, env_var@, kind, host_binding@, real_value@),
            final(self)@ == (BrokerView {
                enabled: old(self)@.enabled,
                records: registered(
                    old(self)@.records,
                    env_var@,
                    kind,
                    host_binding@,
                    real_value@,
                ),
            }),
    {
        proof {
            use_type_invariant(&*self);
        }
        let ghost all = self@.records;
        let n: usize = self.credentials.len();
        let mut i: usize = 0;
        assert(all.skip(0) =~= all);
        while i < n
            invariant
                n == self.credentials@.len(),
                i <= n,
                all == records_view(self.credentials@),
                all == old(self)@.records,
                *self == *old(self),
                known_dummy(all, env_var@, kind, host_binding@, real_value@) == known_dummy(
                    all.skip(i as int),
                    env_var@,
                    kind,
                    host_binding@,
                    real_value@,
                ),
            decreases n - i,
        {
            let record: &CredentialRecord = &self.credentials[i];
            proof {
                assert(all.skip(i as int)[0] == record@);
                assert(all.skip(i as int).skip(1) =~= all.skip(i + 1));
            }
            if text::same_text(record.env_var.as_str(), env_var) && record.kind == kind
                && record.host_binding.same_as(host_binding) && text::same_text(
                record.real_value.as_str(),
                real_value,
            ) {
                return record.dummy_value.clone();
            }
            i += 1;
        }
        let stand_in: String = kind.dummy_value(self.next_credential_id, real_value);
        let record = CredentialRecord {
            env_var: env_var.to_string(),
            kind,
            host_binding: host_binding.duplicate(),
            real_value: real_value.to_string(),
            dummy_value: stand_in.clone(),
        };
        let enabled: bool = self.enabled;
        let mut emptied = CredentialBroker { enabled, next_credential_id: 0, credentials: Vec::new() };
        std::mem::swap(&mut emptied, self);
        let CredentialBroker { enabled: _, next_credential_id: _, credentials } = emptied;
        let mut list: Vec<CredentialRecord> = credentials;
        list.push(record);
        let count: usize = list.len();
        assert(records_view(list@) =~= all.push(record@));
        *self = CredentialBroker { enabled, next_credential_id: count, credentials: list };
        stand_in
    }

    /// Whether a text is the stand-in of a credential on record.
    pub fn is_dummy_value(&self, value: &str) -> (r: bool)
        ensures
            r == is_stand_in(self@.records, value@),
    {
        let n: usize = self.credentials.len();
        let mut i: usize = 0;
        while i < n
            invariant
                n == self.credentials@.len(),
                i <= n,
                forall|k: int|
                    0 <= k < i ==> (#[trigger] self@.records[k]).stand_in != value@,
            decreases n - i,
        {
            assert(self@.records[i as int] == self.credentials@[i as int]@);
            if text::same_text(self.credentials[i].dummy_value.as_str(), value) {
                return true;
            }
            i += 1;
        }
        false
    }

    /// Whether requests to a host need to be looked into, by its normalized name.
    pub fn host_requires_mitm(&self, normalized_host: &str) -> (r: bool)
        ensures
            r == (self@.enabled && exists|i: int|
                0 <= i < self@.records.len() && admits(
                    (#[trigger] self@.records[i]).binding,
                    normalized_host@,
                )),
    {
        if !self.enabled {
            return false;
        }
        let n: usize = self.credentials.len();
        let mut i: usize = 0;
        while i < n
            invariant
                n == self.credentials@.len(),
                i <= n,
                self.enabled,
                forall|k: int|
                    0 <= k < i ==> !admits(
                        (#[trigger] self@.records[k]).binding,
                        normalized_host@,
                    ),
            decreases n - i,
        {
            assert(self@.records[i as int] == self.credentials@[i as int]@);
            if self.credentials[i].matches_host(normalized_host) {
                return true;
            }
            i += 1;
        }
        false
    }
}

} // verus!
