//! Environments of child processes: credentials are replaced by stand-ins, and
//! the stand-ins are listed in a marker so that they can be taken out again.
use crate::broker::credentials;
use crate::broker::credentials::BindingView;
use crate::broker::credentials::CredentialBroker;
use crate::broker::credentials::CredentialHostBinding;
use crate::broker::credentials::CredentialKind;
use crate::broker::credentials::RecordView;
use crate::broker::laws;
use crate::outside::json;
use crate::text;
use crate::text_map::TextMap;
use vstd::prelude::*;

verus! {

/// The variable that is set to `1` where a broker is active.
pub const CREDENTIAL_BROKER_ACTIVE_ENV_KEY: &'static str =
    "CODEX_NETWORK_PROXY_CREDENTIAL_BROKER_ACTIVE";

/// The variable that lists the stand-ins of an environment.
pub const BROKERED_CREDENTIALS_ENV_KEY: &'static str = "CODEX_NETWORK_PROXY_BROKERED_CREDENTIALS";

/// The variables that a broker handles.
pub open spec fn env_keys() -> Seq<Seq<char>> {
    seq![
        "GH_HOST"@,
        "GH_TOKEN"@,
        "GITHUB_TOKEN"@,
        "GH_ENTERPRISE_TOKEN"@,
        "GITHUB_ENTERPRISE_TOKEN"@,
        "OPENAI_API_KEY"@,
    ]
}

/// A variable that may hold a credential.
pub struct CredentialSource {
    pub env_var: String,
    pub kind: CredentialKind,
    pub host_binding: CredentialHostBinding,
}

/// The contents of a source.
pub struct SourceView {
    pub env_var: Seq<char>,
    pub kind: CredentialKind,
    pub binding: BindingView,
}

impl View for CredentialSource {
    type V = SourceView;

    open spec fn view(&self) -> SourceView {
        SourceView { env_var: self.env_var@, kind: self.kind, binding: self.host_binding@ }
    }
}

/// The contents of a list of sources.
pub open spec fn sources_view(list: Seq<CredentialSource>) -> Seq<SourceView> {
    list.map_values(|s: CredentialSource| s@)
}

/// The enterprise host that an environment names, given the normalized form of
/// its `GH_HOST`.
pub open spec fn host_hint(
    env: Map<Seq<char>, Seq<char>>,
    normalized: Seq<char>,
) -> Option<Seq<char>> {
    if env.contains_key("GH_HOST"@) && normalized.len() > 0 {
        Some(normalized)
    } else {
        None
    }
}

/// The binding of enterprise credentials.
pub open spec fn enterprise_binding(
    env: Map<Seq<char>, Seq<char>>,
    normalized: Seq<char>,
) -> Option<BindingView> {
    match host_hint(env, normalized) {
        Some(host) => if credentials::is_cloud_host(host) {
            None
        } else {
            Some(BindingView::ExactHost(host))
        },
        None => None,
    }
}

/// A source of a GitHub credential.
pub open spec fn github_source(env_var: Seq<char>, binding: BindingView) -> SourceView {
    SourceView { env_var, kind: CredentialKind::GitHub, binding }
}

/// The sources of an environment, given the binding of enterprise credentials.
pub open spec fn sources(enterprise: Option<BindingView>) -> Seq<SourceView> {
    seq![
        github_source("GH_TOKEN"@, BindingView::GitHubCloud),
        github_source("GITHUB_TOKEN"@, BindingView::GitHubCloud),
    ] + (match enterprise {
        Some(binding) => seq![
            github_source("GH_ENTERPRISE_TOKEN"@, binding),
            github_source("GITHUB_ENTERPRISE_TOKEN"@, binding),
        ],
        None => Seq::empty(),
    }) + seq![
        SourceView {
            env_var: "OPENAI_API_KEY"@,
            kind: CredentialKind::OpenAiApiKey,
            binding: BindingView::OpenAiApi,
        },
    ]
}

/// The credential in a variable that is to be replaced: its value without outer
/// white space, unless it is empty, a stand-in already, or cannot be sent.
pub open spec fn brokerable(
    env: Map<Seq<char>, Seq<char>>,
    records: Seq<RecordView>,
    env_var: Seq<char>,
) -> Option<Seq<char>> {
    if env.contains_key(env_var) {
        let value = text::trimmed(env[env_var]);
        if value.len() > 0 && !credentials::is_stand_in(records, value)
            && credentials::is_sendable(value) {
            Some(value)
        } else {
            None
        }
    } else {
        None
    }
}

/// An environment and the records that go with it.
pub struct Brokered {
    pub env: Map<Seq<char>, Seq<char>>,
    pub records: Seq<RecordView>,
}

/// What one source makes of an environment.
pub open spec fn replaced(from: Brokered, source: SourceView) -> Brokered {
    match brokerable(from.env, from.records, source.env_var) {
        Some(value) => Brokered {
            env: from.env.insert(
                source.env_var,
                credentials::dummy_for(
                    from.records,
                    source.env_var,
                    source.kind,
                    source.binding,
                    value,
                ),
            ),
            records: credentials::registered(
                from.records,
                source.env_var,
                source.kind,
                source.binding,
                value,
            ),
        },
        None => from,
    }
}

/// What a list of sources makes of an environment, one after the other.
pub open spec fn all_replaced(from: Brokered, list: Seq<SourceView>) -> Brokered
    decreases list.len(),
{
    if list.len() == 0 {
        from
    } else {
        replaced(all_replaced(from, list.drop_last()), list.last())
    }
}

/// The variables that hold a stand-in, with it.
pub open spec fn brokered_pairs(
    env: Map<Seq<char>, Seq<char>>,
    records: Seq<RecordView>,
    keys: Seq<Seq<char>>,
) -> Seq<(Seq<char>, Seq<char>)>
    decreases keys.len(),
{
    if keys.len() == 0 {
        Seq::empty()
    } else {
        let front = brokered_pairs(env, records, keys.drop_last());
        let key = keys.last();
        if env.contains_key(key) && credentials::is_stand_in(records, env[key]) {
            front.push((key, env[key]))
        } else {
            front
        }
    }
}

/// What an active broker makes of an environment, but for the marker.
pub open spec fn virtualized(
    env: Map<Seq<char>, Seq<char>>,
    records: Seq<RecordView>,
    normalized_gh_host: Seq<char>,
) -> Brokered {
    all_replaced(
        Brokered { env: env.insert(CREDENTIAL_BROKER_ACTIVE_ENV_KEY@, "1"@), records },
        sources(enterprise_binding(env, normalized_gh_host)),
    )
}

/// What an active broker makes of an environment: the stand-ins, and the marker
/// that lists them.
pub open spec fn made_ready(
    env: Map<Seq<char>, Seq<char>>,
    records: Seq<RecordView>,
    normalized_gh_host: Seq<char>,
) -> Brokered {
    let after = virtualized(env, records, normalized_gh_host);
    Brokered {
        env: after.env.insert(
            BROKERED_CREDENTIALS_ENV_KEY@,
            json::pairs_json(brokered_pairs(after.env, after.records, env_keys())),
        ),
        records: after.records,
    }
}

/// An environment without the variables that still hold their listed stand-in.
pub open spec fn without_pairs(
    env: Map<Seq<char>, Seq<char>>,
    pairs: Seq<(Seq<char>, Seq<char>)>,
) -> Map<Seq<char>, Seq<char>> {
    Map::new(
        |k: Seq<char>|
            env.contains_key(k) && !(env_keys().contains(k) && pairs.contains((k, env[k]))),
        |k: Seq<char>| env[k],
    )
}

/// The list in the marker of an environment.
pub open spec fn marked_pairs(env: Map<Seq<char>, Seq<char>>) -> Seq<(Seq<char>, Seq<char>)> {
    if env.contains_key(BROKERED_CREDENTIALS_ENV_KEY@) {
        match json::json_pairs(env[BROKERED_CREDENTIALS_ENV_KEY@]) {
            Some(pairs) => pairs,
            None => Seq::empty(),
        }
    } else {
        Seq::empty()
    }
}

/// An environment without its marker and its stand-ins.
pub open spec fn stripped(env: Map<Seq<char>, Seq<char>>) -> Map<Seq<char>, Seq<char>> {
    without_pairs(env.remove(BROKERED_CREDENTIALS_ENV_KEY@), marked_pairs(env))
}

/// An environment without the handled variables that hold a stand-in.
pub open spec fn without_stand_ins(
    env: Map<Seq<char>, Seq<char>>,
    records: Seq<RecordView>,
) -> Map<Seq<char>, Seq<char>> {
    Map::new(
        |k: Seq<char>|
            env.contains_key(k) && !(env_keys().contains(k) && credentials::is_stand_in(
                records,
                env[k],
            )),
        |k: Seq<char>| env[k],
    )
}

/// The pairs are those of the variables that hold a stand-in.
pub proof fn lemma_brokered_pairs(
    env: Map<Seq<char>, Seq<char>>,
    records: Seq<RecordView>,
    keys: Seq<Seq<char>>,
    pair: (Seq<char>, Seq<char>),
)
    ensures
        brokered_pairs(env, records, keys).contains(pair) <==> keys.contains(pair.0)
            && env.contains_key(pair.0) && env[pair.0] == pair.1 && credentials::is_stand_in(
            records,
            pair.1,
        ),
    decreases keys.len(),
{
    if keys.len() > 0 {
        let front = keys.drop_last();
        let key = keys.last();
        lemma_brokered_pairs(env, records, front, pair);
        assert(front.push(key) =~= keys);
        lemma_contains_push(front, key, pair.0);
        lemma_contains_push(brokered_pairs(env, records, front), (key, env[key]), pair);
    }
}

/// Stripping takes exactly the stand-ins out of an environment whose marker
/// lists them.
pub proof fn law_stripping_takes_the_stand_ins_out(
    env: Map<Seq<char>, Seq<char>>,
    records: Seq<RecordView>,
    marker: Seq<char>,
)
    ensures
        ({
            let marked = env.insert(BROKERED_CREDENTIALS_ENV_KEY@, marker);
            marked_pairs(marked) == brokered_pairs(env, records, env_keys()) ==> stripped(marked)
                == without_stand_ins(env.remove(BROKERED_CREDENTIALS_ENV_KEY@), records)
        }),
{
    let marked = env.insert(BROKERED_CREDENTIALS_ENV_KEY@, marker);
    let bare = env.remove(BROKERED_CREDENTIALS_ENV_KEY@);
    let pairs = brokered_pairs(env, records, env_keys());
    assert(marked.remove(BROKERED_CREDENTIALS_ENV_KEY@) =~= bare);
    assert forall|k: Seq<char>| without_pairs(bare, pairs).contains_key(k)
        == without_stand_ins(bare, records).contains_key(k) by {
        lemma_brokered_pairs(env, records, env_keys(), (k, bare[k]));
    }
    assert(without_pairs(bare, pairs) =~= without_stand_ins(bare, records));
}

/// The variables that a broker handles.
pub fn credential_broker_env_keys() -> (r: Vec<&'static str>)
    ensures
        r@.map_values(|k: &'static str| k@) == env_keys(),
{
    let r: Vec<&'static str> = vec![
        "GH_HOST",
        "GH_TOKEN",
        "GITHUB_TOKEN",
        "GH_ENTERPRISE_TOKEN",
        "GITHUB_ENTERPRISE_TOKEN",
        "OPENAI_API_KEY",
    ];
    assert(r@.map_values(|k: &'static str| k@) =~= env_keys());
    r
}

/// The variables that a broker handles, only for an environment with an active
/// broker.
pub fn brokered_credential_env_keys(env: &TextMap) -> (r: Vec<&'static str>)
    ensures
        r@.map_values(|k: &'static str| k@) == if env@.contains_key(
            CREDENTIAL_BROKER_ACTIVE_ENV_KEY@,
        ) && env@[CREDENTIAL_BROKER_ACTIVE_ENV_KEY@] == "1"@ {
            env_keys()
        } else {
            Seq::empty()
        },
{
    let active: bool = match env.get(CREDENTIAL_BROKER_ACTIVE_ENV_KEY) {
        Some(value) => text::same_text(value, "1"),
        None => false,
    };
    if active {
        credential_broker_env_keys()
    } else {
        let r: Vec<&'static str> = Vec::new();
        assert(r@.map_values(|k: &'static str| k@) =~= Seq::<Seq<char>>::empty());
        r
    }
}

/// The binding of cloud credentials.
pub fn github_cloud_binding() -> (r: CredentialHostBinding)
    ensures
        r@ == BindingView::GitHubCloud,
{
    CredentialHostBinding::GitHubCloud
}

/// The binding of API credentials.
pub fn openai_api_binding() -> (r: CredentialHostBinding)
    ensures
        r@ == BindingView::OpenAiApi,
{
    CredentialHostBinding::OpenAiApi
}

/// The enterprise host that an environment names, given the normalized form of
/// its `GH_HOST`.
pub fn github_host_hint(env: &TextMap, normalized_gh_host: &str) -> (r: Option<String>)
    ensures
        match r {
            Some(host) => host_hint(env@, normalized_gh_host@) == Some(host@),
            None => host_hint(env@, normalized_gh_host@) is None,
        },
{
    if env.contains_key("GH_HOST") && !normalized_gh_host.is_empty() {
        Some(normalized_gh_host.to_string())
    } else {
        None
    }
}

/// The binding of enterprise credentials, given the normalized form of the
/// environment's `GH_HOST`.
pub fn github_enterprise_binding(env: &TextMap, normalized_gh_host: &str) -> (r: Option<
    CredentialHostBinding,
>)
    ensures
        match r {
            Some(binding) => enterprise_binding(env@, normalized_gh_host@) == Some(binding@),
            None => enterprise_binding(env@, normalized_gh_host@) is None,
        },
{
    match github_host_hint(env, normalized_gh_host) {
        Some(host) => if credentials::github_cloud_host(host.as_str()) {
            None
        } else {
            Some(CredentialHostBinding::ExactHost(host))
        },
        None => None,
    }
}

/// The sources of an environment, given the normalized form of its `GH_HOST`.
pub fn credential_sources(env: &TextMap, normalized_gh_host: &str) -> (r: Vec<CredentialSource>)
    ensures
        sources_view(r@) == sources(enterprise_binding(env@, normalized_gh_host@)),
{
    let mut list: Vec<CredentialSource> = Vec::new();
    list.push(
        CredentialSource {
            env_var: "GH_TOKEN".to_string(),
            kind: CredentialKind::GitHub,
            host_binding: github_cloud_binding(),
        },
    );
    list.push(
        CredentialSource {
            env_var: "GITHUB_TOKEN".to_string(),
            kind: CredentialKind::GitHub,
            host_binding: github_cloud_binding(),
        },
    );
    if let Some(binding) = github_enterprise_binding(env, normalized_gh_host) {
        list.push(
            CredentialSource {
                env_var: "GH_ENTERPRISE_TOKEN".to_string(),
                kind: CredentialKind::GitHub,
                host_binding: binding.duplicate(),
            },
        );
        list.push(
            CredentialSource {
                env_var: "GITHUB_ENTERPRISE_TOKEN".to_string(),
                kind: CredentialKind::GitHub,
                host_binding: binding,
            },
        );
    }
    list.push(
        CredentialSource {
            env_var: "OPENAI_API_KEY".to_string(),
            kind: CredentialKind::OpenAiApiKey,
            host_binding: openai_api_binding(),
        },
    );
    assert(sources_view(list@) =~= sources(enterprise_binding(env@, normalized_gh_host@)));
    list
}

/// The credential in a variable that is to be replaced.
pub fn brokerable_credential_value<'a>(
    env: &'a TextMap,
    broker: &CredentialBroker,
    env_var: &str,
    kind: CredentialKind,
) -> (r: Option<&'a str>)
    ensures
        match r {
            Some(value) => brokerable(env@, broker@.records, env_var@) == Some(value@),
            None => brokerable(env@, broker@.records, env_var@) is None,
        },
{
    match env.get(env_var) {
        Some(value) => {
            let real_value: &str = text::trim(value);
            if !real_value.is_empty() && !broker.is_dummy_value(real_value)
                && kind.request_header_value(real_value).is_some() {
                Some(real_value)
            } else {
                None
            }
        },
        None => None,
    }
}

/// Replaces the credential of one source by its stand-in, and puts it on record.
pub fn virtualize_env_var(
    env: &mut TextMap,
    broker: &mut CredentialBroker,
    source: &CredentialSource,
)
    ensures
        ({
            let after = replaced(
                Brokered { env: old(env)@, records: old(broker)@.records },
                source@,
            );
            final(env)@ == after.env && final(broker)@.records == after.records
        }),
        final(broker)@.enabled == old(broker)@.enabled,
{
    let stand_in: Option<String> = match brokerable_credential_value(
        env,
        broker,
        source.env_var.as_str(),
        source.kind,
    ) {
        Some(real_value) => Some(
            broker.register(
                source.env_var.as_str(),
                source.kind,
                &source.host_binding,
                real_value,
            ),
        ),
        None => None,
    };
    if let Some(stand_in) = stand_in {
        env.insert(source.env_var.clone(), stand_in);
    }
}

/// The variables of an environment that hold a stand-in, with it.
pub fn brokered_variables(broker: &CredentialBroker, env: &TextMap) -> (r: Vec<(String, String)>)
    ensures
        json::pair_texts(r@) == brokered_pairs(env@, broker@.records, env_keys()),
{
    let keys: Vec<&'static str> = credential_broker_env_keys();
    let ghost names = env_keys();
    let n: usize = keys.len();
    let mut out: Vec<(String, String)> = Vec::new();
    let mut i: usize = 0;
    assert(json::pair_texts(out@) =~= brokered_pairs(env@, broker@.records, names.take(0)));
    while i < n
        invariant
            n == keys@.len(),
            i <= n,
            names == env_keys(),
            keys@.map_values(|k: &'static str| k@) == names,
            json::pair_texts(out@) == brokered_pairs(
                env@,
                broker@.records,
                names.take(i as int),
            ),
        decreases n - i,
    {
        let ghost before = out@;
        proof {
            assert(names[i as int] == keys@.map_values(|k: &'static str| k@)[i as int]);
            assert(names.take(i + 1).drop_last() =~= names.take(i as int));
        }
        if let Some(value) = env.get(keys[i]) {
            if broker.is_dummy_value(value) {
                out.push((keys[i].to_string(), value.to_string()));
                assert(json::pair_texts(out@) =~= json::pair_texts(before).push(
                    (names[i as int], env@[names[i as int]]),
                ));
            }
        }
        i += 1;
    }
    assert(names.take(n as int) =~= names);
    out
}

/// Lists the stand-ins of an environment in its marker.
pub fn update_brokered_credentials_marker(broker: &CredentialBroker, env: &mut TextMap)
    ensures
        final(env)@ == old(env)@.insert(
            BROKERED_CREDENTIALS_ENV_KEY@,
            json::pairs_json(brokered_pairs(old(env)@, broker@.records, env_keys())),
        ),
        marked_pairs(final(env)@) == brokered_pairs(old(env)@, broker@.records, env_keys()),
{
    let brokered: Vec<(String, String)> = brokered_variables(broker, env);
    match json::write_pairs(&brokered) {
        Some(marker) => {
            env.insert(BROKERED_CREDENTIALS_ENV_KEY.to_string(), marker);
        },
        None => {
            env.remove(BROKERED_CREDENTIALS_ENV_KEY);
        },
    }
}

/// Removes the variables that still hold their listed stand-in.
pub fn remove_brokered(env: &mut TextMap, brokered: &Vec<(String, String)>)
    ensures
        final(env)@ == without_pairs(old(env)@, json::pair_texts(brokered@)),
{
    let ghost start = env@;
    let ghost pairs = json::pair_texts(brokered@);
    let keys: Vec<&'static str> = credential_broker_env_keys();
    let n: usize = brokered.len();
    let mut i: usize = 0;
    assert(env@ =~= without_pairs(start, pairs.take(0)));
    while i < n
        invariant
            n == brokered@.len(),
            i <= n,
            pairs == json::pair_texts(brokered@),
            keys@.map_values(|k: &'static str| k@) == env_keys(),
            env@ == without_pairs(start, pairs.take(i as int)),
        decreases n - i,
    {
        let key: &str = brokered[i].0.as_str();
        let ghost before = env@;
        assert(pairs.take(i + 1) =~= pairs.take(i as int).push(pairs[i as int]));
        assert(pairs[i as int] == (key@, brokered@[i as int].1@));
        let holds: bool = match env.get(key) {
            Some(value) => text::same_text(value, brokered[i].1.as_str()),
            None => false,
        };
        if holds && handles(&keys, key) {
            env.remove(key);
        }
        proof {
            let next = without_pairs(start, pairs.take(i + 1));
            assert forall|k: Seq<char>| env@.contains_key(k) == next.contains_key(k) by {
                if start.contains_key(k) {
                    lemma_contains_push(pairs.take(i as int), pairs[i as int], (k, start[k]));
                }
            }
            assert(env@ =~= next);
        }
        i += 1;
    }
    assert(pairs.take(n as int) =~= pairs);
}

/// What a longer list contains.
proof fn lemma_contains_push<T>(list: Seq<T>, last: T, item: T)
    ensures
        list.push(last).contains(item) <==> list.contains(item) || last == item,
{
    let longer = list.push(last);
    if list.contains(item) {
        let i = choose|i: int| 0 <= i < list.len() && list[i] == item;
        assert(longer[i] == item);
    }
    if last == item {
        assert(longer[list.len() as int] == item);
    }
    if longer.contains(item) {
        let i = choose|i: int| 0 <= i < longer.len() && longer[i] == item;
        if i < list.len() {
            assert(list[i] == item);
        }
    }
}

/// Whether a variable is in a list.
fn handles(keys: &Vec<&'static str>, key: &str) -> (r: bool)
    ensures
        r == keys@.map_values(|k: &'static str| k@).contains(key@),
{
    let n: usize = keys.len();
    let ghost names = keys@.map_values(|k: &'static str| k@);
    let mut i: usize = 0;
    while i < n
        invariant
            n == keys@.len(),
            i <= n,
            names == keys@.map_values(|k: &'static str| k@),
            forall|k: int| 0 <= k < i ==> names[k] != key@,
        decreases n - i,
    {
        assert(names[i as int] == keys@[i as int]@);
        if text::same_text(keys[i], key) {
            assert(names[i as int] == key@);
            return true;
        }
        i += 1;
    }
    false
}

/// Takes the marker and the stand-ins that it lists out of an environment.
pub fn strip_brokered_credentials(env: &mut TextMap)
    ensures
        final(env)@ == stripped(old(env)@),
{
    let brokered: Option<Vec<(String, String)>> = match env.remove(BROKERED_CREDENTIALS_ENV_KEY) {
        Some(marker) => json::read_pairs(marker.as_str()),
        None => None,
    };
    match brokered {
        Some(pairs) => remove_brokered(env, &pairs),
        None => {
            assert(env@ =~= without_pairs(env@, Seq::empty()));
        },
    }
}

impl CredentialBroker {
    /// Gets an environment ready for a child process: an active broker replaces
    /// each credential by a stand-in, and an inactive one takes its own variables
    /// out. The normalized form of `GH_HOST` counts only where that is set. What
    /// stripping then leaves holds no stand-in. Where the credentials are ASCII,
    /// doing it again changes nothing.
    pub fn virtualize_child_env(&mut self, env: &mut TextMap, normalized_gh_host: &str)
        ensures
            final(self)@.enabled == old(self)@.enabled,
            !old(self)@.enabled ==> final(self)@.records == old(self)@.records && final(env)@
                == old(env)@.remove(CREDENTIAL_BROKER_ACTIVE_ENV_KEY@).remove(
                BROKERED_CREDENTIALS_ENV_KEY@,
            ),
            old(self)@.enabled ==> ({
                let after = virtualized(old(env)@, old(self)@.records, normalized_gh_host@);
                let ready = made_ready(old(env)@, old(self)@.records, normalized_gh_host@);
                &&& final(self)@.records == ready.records
                &&& final(env)@ == ready.env
                &&& marked_pairs(final(env)@) == brokered_pairs(
                    after.env,
                    after.records,
                    env_keys(),
                )
                &&& stripped(final(env)@) == without_stand_ins(
                    after.env.remove(BROKERED_CREDENTIALS_ENV_KEY@),
                    after.records,
                )
                &&& laws::ascii_credentials(old(env)@) ==> made_ready(
                    final(env)@,
                    final(self)@.records,
                    normalized_gh_host@,
                ) == (Brokered { env: final(env)@, records: final(self)@.records })
            }),
    {
        if !self.is_enabled() {
            env.remove(CREDENTIAL_BROKER_ACTIVE_ENV_KEY);
            env.remove(BROKERED_CREDENTIALS_ENV_KEY);
            return ;
        }
        let sources: Vec<CredentialSource> = credential_sources(env, normalized_gh_host);
        env.insert(CREDENTIAL_BROKER_ACTIVE_ENV_KEY.to_string(), "1".to_string());
        let ghost list = sources_view(sources@);
        let ghost from = Brokered { env: env@, records: self@.records };
        let n: usize = sources.len();
        let mut i: usize = 0;
        while i < n
            invariant
                n == sources@.len(),
                i <= n,
                list == sources_view(sources@),
                self@.enabled,
                env@ == all_replaced(from, list.take(i as int)).env,
                self@.records == all_replaced(from, list.take(i as int)).records,
            decreases n - i,
        {
            proof {
                assert(list.take(i + 1).drop_last() =~= list.take(i as int));
                assert(list.take(i + 1).last() == sources@[i as int]@);
            }
            virtualize_env_var(env, self, &sources[i]);
            i += 1;
        }
        assert(list.take(n as int) =~= list);
        let ghost after = env@;
        update_brokered_credentials_marker(self, env);
        proof {
            law_stripping_takes_the_stand_ins_out(
                after,
                self@.records,
                env@[BROKERED_CREDENTIALS_ENV_KEY@],
            );
            if laws::ascii_credentials(old(env)@) {
                laws::law_ready_environments_stay(
                    old(env)@,
                    old(self)@.records,
                    normalized_gh_host@,
                );
            }
        }
    }
}

} // verus!
