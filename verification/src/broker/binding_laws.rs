//! Which credential goes where, told by the names of variables and hosts.
use crate::broker::credentials;
use crate::broker::credentials::BindingView;
use crate::broker::credentials::BrokerView;
use crate::broker::credentials::CredentialKind;
use crate::broker::credentials::RecordView;
use crate::broker::environment;
use crate::broker::environment::Brokered;
use crate::broker::environment::SourceView;
use crate::broker::laws;
use crate::broker::requests;
use crate::outside::headers;
use crate::outside::json;
use crate::text;
use crate::text_laws;
use vstd::prelude::*;
use vstd::utf8::*;

verus! {

/// The hosts of GitHub's cloud.
pub open spec fn in_the_cloud(host: Seq<char>) -> bool {
    ||| host == "github.com"@
    ||| host == "api.github.com"@
    ||| exists|tenant: Seq<char>| host == #[trigger] (tenant + ".ghe.com"@)
}

/// The hosts that bindings admit.
pub proof fn law_hosts_of_bindings(host: Seq<char>, exact: Seq<char>)
    ensures
        credentials::admits(BindingView::GitHubCloud, host) <==> in_the_cloud(host),
        credentials::admits(BindingView::ExactHost(exact), host) <==> host == exact,
        credentials::admits(BindingView::OpenAiApi, host) <==> host == "api.openai.com"@,
{
    let suffix = ".ghe.com"@;
    if suffix.is_suffix_of(host) {
        let tenant = host.take(host.len() - suffix.len());
        assert(host =~= tenant + suffix);
    }
    if exists|tenant: Seq<char>| host == #[trigger] (tenant + suffix) {
        let tenant = choose|tenant: Seq<char>| host == #[trigger] (tenant + suffix);
        assert(host.skip(tenant.len() as int) =~= suffix);
        assert(suffix.is_suffix_of(host));
    }
}

/// Whether a record that matches a host is one of those that admit it.
proof fn lemma_admitted_records_match(records: Seq<RecordView>, host: Seq<char>, i: int)
    requires
        0 <= i < records.len(),
        credentials::admits(records[i].binding, host),
    ensures
        requests::matching(records, host).contains(records[i]),
{
    assert(requests::bound_to(host)(records[i]));
    records.lemma_filter_contains(requests::bound_to(host), i);
}

/// A request without authorization to a host that some record admits gets the
/// credential of the records for the host, where all of them are of one kind and
/// one secret: a single one is enough.
pub proof fn law_only_credential_is_the_fallback(broker: BrokerView, host: Seq<char>, i: int)
    requires
        broker.enabled,
        0 <= i < broker.records.len(),
        credentials::admits(broker.records[i].binding, host),
        credentials::is_sendable(broker.records[i].secret),
        forall|j: int|
            0 <= j < broker.records.len() && credentials::admits(
                (#[trigger] broker.records[j]).binding,
                host,
            ) ==> broker.records[j].kind == broker.records[i].kind && broker.records[j].secret
                == broker.records[i].secret,
    ensures
        requests::injection(broker, host, None) == Some("Bearer "@ + broker.records[i].secret),
{
    let found = requests::matching(broker.records, host);
    lemma_admitted_records_match(broker.records, host, i);
    requests::law_matching_records_admit_the_host(broker.records, host);
    assert forall|k: int| 0 <= k < found.len() implies (#[trigger] found[k]).kind
        == broker.records[i].kind && found[k].secret == broker.records[i].secret by {
        let j = choose|j: int|
            0 <= j < broker.records.len() && found[k] == #[trigger] broker.records[j];
        assert(credentials::admits(broker.records[j].binding, host));
    }
    let k = choose|k: int| 0 <= k < found.len() && found[k] == broker.records[i];
    assert(found.len() > 0);
    assert(found[0].kind == broker.records[i].kind && found[0].secret
        == broker.records[i].secret);
    let none: Option<Seq<u8>> = None;
    requests::lemma_filter_none(found, requests::carried_by(none));
}

/// Where records for a host differ in kind or secret, a request without
/// authorization gets none of them.
pub proof fn law_several_credentials_are_no_fallback(
    broker: BrokerView,
    host: Seq<char>,
    i: int,
    j: int,
)
    requires
        0 <= i < broker.records.len(),
        0 <= j < broker.records.len(),
        credentials::admits(broker.records[i].binding, host),
        credentials::admits(broker.records[j].binding, host),
        broker.records[i].kind != broker.records[j].kind || broker.records[i].secret
            != broker.records[j].secret,
    ensures
        requests::injection(broker, host, None) is None,
{
    let found = requests::matching(broker.records, host);
    lemma_admitted_records_match(broker.records, host, i);
    lemma_admitted_records_match(broker.records, host, j);
    let a = choose|a: int| 0 <= a < found.len() && found[a] == broker.records[i];
    let b = choose|b: int| 0 <= b < found.len() && found[b] == broker.records[j];
    assert(found[a].kind != found[b].kind || found[a].secret != found[b].secret);
    let none: Option<Seq<u8>> = None;
    requests::lemma_filter_none(found, requests::carried_by(none));
}

/// A request that carries the stand-ins of two records for its host gets none of
/// their credentials.
pub proof fn law_two_stand_ins_are_not_exchanged(
    broker: BrokerView,
    host: Seq<char>,
    header: Option<Seq<u8>>,
    i: int,
    j: int,
)
    requires
        0 <= i < j < broker.records.len(),
        credentials::admits(broker.records[i].binding, host),
        credentials::admits(broker.records[j].binding, host),
        requests::carries(header, broker.records[i].stand_in),
        requests::carries(header, broker.records[j].stand_in),
    ensures
        requests::injection(broker, host, header) is None,
{
    let both = |r: RecordView| requests::bound_to(host)(r) && requests::carried_by(header)(r);
    requests::lemma_filter_twice(
        broker.records,
        requests::bound_to(host),
        requests::carried_by(header),
    );
    lemma_two_pass(broker.records, both, i, j);
}

proof fn lemma_two_pass<T>(s: Seq<T>, p: spec_fn(T) -> bool, i: int, j: int)
    requires
        0 <= i < j < s.len(),
        p(s[i]),
        p(s[j]),
    ensures
        s.filter(p).len() >= 2,
    decreases s.len(),
{
    reveal(Seq::filter);
    let front = s.drop_last();
    if j < s.len() - 1 {
        lemma_two_pass(front, p, i, j);
    } else {
        front.lemma_filter_contains(p, i);
        assert(front.filter(p).contains(front[i]));
        assert(front.filter(p).len() > 0);
    }
}

/// Whether a text is made of printable ASCII characters and tabs.
pub open spec fn printable(s: Seq<char>) -> bool {
    forall|i: int| 0 <= i < s.len() ==> ' ' <= #[trigger] s[i] <= '~' || s[i] == '\t'
}

proof fn lemma_printable_bytes(s: Seq<char>)
    requires
        printable(s),
    ensures
        headers::may_hold(encode_utf8(s)),
        headers::reads_as_text(encode_utf8(s)),
{
    assert(is_ascii_chars(s));
    is_ascii_chars_encode_utf8(s);
    is_ascii_chars_nat_bound(s);
    let bytes = encode_utf8(s);
    assert forall|i: int| 0 <= i < bytes.len() implies headers::is_visible_byte(#[trigger] bytes[i])
        && headers::is_header_byte(bytes[i]) by {
        assert(s[i] as u8 == bytes[i]);
    }
}

/// A printable authorization carries a stand-in just where it has it in it. One with
/// any byte but those of printable ASCII characters and tabs is left alone.
pub proof fn law_printable_authorizations_are_read(
    broker: BrokerView,
    host: Seq<char>,
    held: Seq<char>,
    stand_in: Seq<char>,
    bytes: Seq<u8>,
    i: int,
)
    requires
        printable(held),
        0 <= i < bytes.len(),
        bytes[i] != 9,
        bytes[i] < 32 || bytes[i] > 126,
    ensures
        requests::carries(Some(encode_utf8(held)), stand_in) <==> exists|
            before: Seq<char>,
            behind: Seq<char>,
        |
            held == #[trigger] (before + stand_in + behind),
        requests::injection(broker, host, Some(bytes)) is None,
{
    lemma_printable_bytes(held);
    encode_utf8_decode_utf8(held);
    text_laws::law_occurrence(stand_in, held);
    assert(!headers::is_visible_byte(bytes[i]));
    requests::law_own_authorization_stays(broker, host, Some(bytes));
}

/// Which ASCII credentials can be sent: those of printable characters and tabs. The
/// header that sends one has the word for its scheme in front.
pub proof fn law_sendable_credentials(secret: Seq<char>)
    requires
        is_ascii_chars(secret),
    ensures
        credentials::is_sendable(secret) <==> printable(secret),
        credentials::bearer(secret) == "Bearer "@ + secret,
{
    reveal_strlit("Bearer ");
    let held = "Bearer "@ + secret;
    let n = "Bearer "@.len() as int;
    assert forall|i: int| 0 <= i < held.len() implies '\0' <= #[trigger] held[i] <= '\u{7f}' by {
        if i >= n {
            assert(held[i] == secret[i - n]);
        }
    }
    is_ascii_chars_encode_utf8(held);
    is_ascii_chars_nat_bound(held);
    let bytes = encode_utf8(held);
    if printable(secret) {
        assert forall|i: int| 0 <= i < held.len() implies ' ' <= #[trigger] held[i] <= '~'
            || held[i] == '\t' by {
            if i >= n {
                assert(held[i] == secret[i - n]);
            }
        }
        lemma_printable_bytes(held);
    }
    if credentials::is_sendable(secret) {
        assert forall|i: int| 0 <= i < secret.len() implies ' ' <= #[trigger] secret[i] <= '~'
            || secret[i] == '\t' by {
            assert(held[n + i] == secret[i]);
            assert(held[n + i] as u8 == bytes[n + i]);
            assert(headers::is_header_byte(bytes[n + i]));
        }
    }
}

/// What a variable is for: the kind of its credentials, and the hosts that they
/// may go to.
pub open spec fn goes_to(
    name: Seq<char>,
    normalized_gh_host: Seq<char>,
    kind: CredentialKind,
    host: Seq<char>,
) -> bool {
    ||| (name == "GH_TOKEN"@ || name == "GITHUB_TOKEN"@) && kind == CredentialKind::GitHub
        && in_the_cloud(host)
    ||| (name == "GH_ENTERPRISE_TOKEN"@ || name == "GITHUB_ENTERPRISE_TOKEN"@) && kind
        == CredentialKind::GitHub && host == normalized_gh_host
    ||| name == "OPENAI_API_KEY"@ && kind == CredentialKind::OpenAiApiKey && host
        == "api.openai.com"@
}

/// Whether a name is that of a variable with credentials, for a host that is named
/// where one is needed.
pub open spec fn is_brokered_name(
    name: Seq<char>,
    env: Map<Seq<char>, Seq<char>>,
    normalized_gh_host: Seq<char>,
) -> bool {
    ||| name == "GH_TOKEN"@ || name == "GITHUB_TOKEN"@ || name == "OPENAI_API_KEY"@
    ||| (name == "GH_ENTERPRISE_TOKEN"@ || name == "GITHUB_ENTERPRISE_TOKEN"@) && env.contains_key(
        "GH_HOST"@,
    ) && normalized_gh_host.len() > 0 && !in_the_cloud(normalized_gh_host)
}

/// Whether a credential of a variable is on record under a stand-in, bound to just
/// the hosts that the variable is for.
pub open spec fn kept_for(
    records: Seq<RecordView>,
    name: Seq<char>,
    normalized_gh_host: Seq<char>,
    secret: Seq<char>,
    stand_in: Seq<char>,
) -> bool {
    exists|i: int|
        0 <= i < records.len() && (#[trigger] records[i]).env_var == name && records[i].secret
            == secret && records[i].stand_in == stand_in && forall|host: Seq<char>|
            #![trigger credentials::admits(records[i].binding, host)]
            credentials::admits(records[i].binding, host) <==> goes_to(
                name,
                normalized_gh_host,
                records[i].kind,
                host,
            )
}

/// The names differ.
proof fn lemma_names_differ()
    ensures
        "GH_TOKEN"@ != "GITHUB_TOKEN"@,
        "GH_TOKEN"@ != "GH_ENTERPRISE_TOKEN"@,
        "GH_TOKEN"@ != "GITHUB_ENTERPRISE_TOKEN"@,
        "GH_TOKEN"@ != "OPENAI_API_KEY"@,
        "GITHUB_TOKEN"@ != "GH_ENTERPRISE_TOKEN"@,
        "GITHUB_TOKEN"@ != "GITHUB_ENTERPRISE_TOKEN"@,
        "GITHUB_TOKEN"@ != "OPENAI_API_KEY"@,
        "GH_ENTERPRISE_TOKEN"@ != "GITHUB_ENTERPRISE_TOKEN"@,
        "GH_ENTERPRISE_TOKEN"@ != "OPENAI_API_KEY"@,
        "GITHUB_ENTERPRISE_TOKEN"@ != "OPENAI_API_KEY"@,
{
    reveal_strlit("GH_TOKEN");
    reveal_strlit("GITHUB_TOKEN");
    reveal_strlit("GH_ENTERPRISE_TOKEN");
    reveal_strlit("GITHUB_ENTERPRISE_TOKEN");
    reveal_strlit("OPENAI_API_KEY");
    assert("GH_TOKEN"@.len() == 8);
    assert("GITHUB_TOKEN"@.len() == 12);
    assert("GH_ENTERPRISE_TOKEN"@.len() == 19);
    assert("GITHUB_ENTERPRISE_TOKEN"@.len() == 23);
    assert("OPENAI_API_KEY"@.len() == 14);
}

/// The source of a variable, and what it binds to.
proof fn lemma_source_of(
    name: Seq<char>,
    env: Map<Seq<char>, Seq<char>>,
    normalized_gh_host: Seq<char>,
) -> (i: int)
    requires
        is_brokered_name(name, env, normalized_gh_host),
    ensures
        ({
            let list = environment::sources(
                environment::enterprise_binding(env, normalized_gh_host),
            );
            &&& 0 <= i < list.len()
            &&& list[i].env_var == name
            &&& forall|host: Seq<char>|
                #![trigger credentials::admits(list[i].binding, host)]
                credentials::admits(list[i].binding, host) <==> goes_to(
                    name,
                    normalized_gh_host,
                    list[i].kind,
                    host,
                )
        }),
{
    let enterprise = environment::enterprise_binding(env, normalized_gh_host);
    let list = environment::sources(enterprise);
    lemma_names_differ();
    law_hosts_of_bindings(normalized_gh_host, normalized_gh_host);
    let i = if name == "GH_TOKEN"@ {
        0
    } else if name == "GITHUB_TOKEN"@ {
        1
    } else if name == "GH_ENTERPRISE_TOKEN"@ {
        2
    } else if name == "GITHUB_ENTERPRISE_TOKEN"@ {
        3
    } else {
        list.len() - 1
    };
    assert(list[i].env_var == name);
    assert forall|host: Seq<char>|
        #![trigger credentials::admits(list[i].binding, host)]
        credentials::admits(list[i].binding, host) <==> goes_to(
            name,
            normalized_gh_host,
            list[i].kind,
            host,
        ) by {
        law_hosts_of_bindings(host, normalized_gh_host);
    }
    i
}

/// The variables that are no sources.
proof fn lemma_no_source(
    name: Seq<char>,
    env: Map<Seq<char>, Seq<char>>,
    normalized_gh_host: Seq<char>,
)
    requires
        !is_brokered_name(name, env, normalized_gh_host),
    ensures
        !laws::is_source_of(
            environment::sources(environment::enterprise_binding(env, normalized_gh_host)),
            name,
        ),
{
    let enterprise = environment::enterprise_binding(env, normalized_gh_host);
    let list = environment::sources(enterprise);
    law_hosts_of_bindings(normalized_gh_host, normalized_gh_host);
    if laws::is_source_of(list, name) {
        let i = choose|i: int| 0 <= i < list.len() && (#[trigger] list[i]).env_var == name;
        if enterprise is Some {
            assert(i == 0 || i == 1 || i == 2 || i == 3 || i == 4);
        } else {
            assert(i == 0 || i == 1 || i == 2);
        }
    }
}

/// A source whose credential is no stand-in, and can be sent, replaces it, and has
/// it on record.
proof fn lemma_source_replaces(from: Brokered, list: Seq<SourceView>, i: int)
    requires
        laws::distinct_variables(list),
        0 <= i < list.len(),
        from.env.contains_key(list[i].env_var),
        text::trimmed(from.env[list[i].env_var]).len() > 0,
        credentials::is_sendable(text::trimmed(from.env[list[i].env_var])),
        !credentials::is_stand_in(
            environment::all_replaced(from, list).records,
            text::trimmed(from.env[list[i].env_var]),
        ),
    ensures
        ({
            let to = environment::all_replaced(from, list);
            laws::on_record(
                to.records,
                list[i],
                text::trimmed(from.env[list[i].env_var]),
                to.env[list[i].env_var],
            )
        }),
    decreases list.len(),
{
    let front = list.drop_last();
    let source = list.last();
    let last = list.len() - 1;
    let name = list[i].env_var;
    let value = text::trimmed(from.env[name]);
    let mid = environment::all_replaced(from, front);
    let to = environment::all_replaced(from, list);
    assert forall|a: int, b: int| 0 <= a < b < front.len() implies (#[trigger] front[a]).env_var
        != (#[trigger] front[b]).env_var by {
        assert(list[a].env_var != list[b].env_var);
    }
    laws::lemma_all_replaced(from, front);
    laws::lemma_replaced(mid, source);
    if credentials::is_stand_in(mid.records, value) {
        laws::lemma_stand_ins_stay(mid.records, to.records, value);
    }
    if i < last {
        assert(front[i] == list[i]);
        assert(list[i].env_var != list[last].env_var);
        lemma_source_replaces(from, front, i);
        laws::lemma_on_record_stays(mid.records, to.records, list[i], value, mid.env[name]);
        assert(to.env[name] == mid.env[name]);
    } else {
        assert(!laws::is_source_of(front, name)) by {
            if laws::is_source_of(front, name) {
                let k = choose|k: int| 0 <= k < front.len() && (#[trigger] front[k]).env_var == name;
                assert(list[k].env_var != list[last].env_var);
            }
        }
        assert(mid.env[name] == from.env[name]);
        assert(mid.env.dom().contains(name) == from.env.dom().contains(name));
        assert(mid.env.contains_key(name));
        laws::law_registering_again(
            mid.records,
            source.env_var,
            source.kind,
            source.binding,
            value,
        );
        assert(SourceView {
            env_var: source.env_var,
            kind: source.kind,
            binding: source.binding,
        } == source);
    }
}

/// From a source to the variable that it is of.
proof fn lemma_kept_for(
    records: Seq<RecordView>,
    source: SourceView,
    normalized_gh_host: Seq<char>,
    secret: Seq<char>,
    stand_in: Seq<char>,
)
    requires
        laws::on_record(records, source, secret, stand_in),
        forall|host: Seq<char>|
            #![trigger credentials::admits(source.binding, host)]
            credentials::admits(source.binding, host) <==> goes_to(
                source.env_var,
                normalized_gh_host,
                source.kind,
                host,
            ),
    ensures
        kept_for(records, source.env_var, normalized_gh_host, secret, stand_in),
{
    let i = choose|i: int|
        0 <= i < records.len() && credentials::is_record_of(
            #[trigger] records[i],
            source.env_var,
            source.kind,
            source.binding,
            secret,
        ) && records[i].stand_in == stand_in;
    assert(records[i].env_var == source.env_var);
}

/// Whatever is replaced in a variable is on record, bound to just the hosts that
/// the variable is for: those of GitHub's cloud, the named enterprise host, or that
/// of OpenAI's interface.
pub proof fn law_replaced_values_are_bound_to_their_hosts(
    env: Map<Seq<char>, Seq<char>>,
    records: Seq<RecordView>,
    normalized_gh_host: Seq<char>,
    name: Seq<char>,
)
    requires
        name != environment::CREDENTIAL_BROKER_ACTIVE_ENV_KEY@,
        env.contains_key(name),
        environment::virtualized(env, records, normalized_gh_host).env[name] != env[name],
    ensures
        is_brokered_name(name, env, normalized_gh_host),
        kept_for(
            environment::virtualized(env, records, normalized_gh_host).records,
            name,
            normalized_gh_host,
            text::trimmed(env[name]),
            environment::virtualized(env, records, normalized_gh_host).env[name],
        ),
{
    laws::law_other_variables_stay(env, records, normalized_gh_host);
    laws::law_replaced_values_are_on_record(env, records, normalized_gh_host);
    if !is_brokered_name(name, env, normalized_gh_host) {
        lemma_no_source(name, env, normalized_gh_host);
    } else {
        let list = environment::sources(environment::enterprise_binding(env, normalized_gh_host));
        let i = lemma_source_of(name, env, normalized_gh_host);
        assert(env.contains_key(list[i].env_var));
        lemma_kept_for(
            environment::virtualized(env, records, normalized_gh_host).records,
            list[i],
            normalized_gh_host,
            text::trimmed(env[name]),
            environment::virtualized(env, records, normalized_gh_host).env[name],
        );
    }
}

/// Every credential is replaced: a variable for credentials whose value, without
/// outer white space, is not empty, can be sent and is no stand-in, holds a
/// stand-in afterwards, and the value is on record for the hosts of the variable.
pub proof fn law_credentials_are_replaced(
    env: Map<Seq<char>, Seq<char>>,
    records: Seq<RecordView>,
    normalized_gh_host: Seq<char>,
    name: Seq<char>,
)
    requires
        is_brokered_name(name, env, normalized_gh_host),
        env.contains_key(name),
        text::trimmed(env[name]).len() > 0,
        credentials::is_sendable(text::trimmed(env[name])),
        !credentials::is_stand_in(
            environment::virtualized(env, records, normalized_gh_host).records,
            text::trimmed(env[name]),
        ),
    ensures
        kept_for(
            environment::virtualized(env, records, normalized_gh_host).records,
            name,
            normalized_gh_host,
            text::trimmed(env[name]),
            environment::virtualized(env, records, normalized_gh_host).env[name],
        ),
        credentials::is_stand_in(
            environment::virtualized(env, records, normalized_gh_host).records,
            environment::virtualized(env, records, normalized_gh_host).env[name],
        ),
{
    let enterprise = environment::enterprise_binding(env, normalized_gh_host);
    let list = environment::sources(enterprise);
    let from = Brokered {
        env: env.insert(environment::CREDENTIAL_BROKER_ACTIVE_ENV_KEY@, "1"@),
        records,
    };
    laws::lemma_source_variables(enterprise);
    let i = lemma_source_of(name, env, normalized_gh_host);
    assert(laws::is_source_of(list, name));
    assert(from.env[name] == env[name]);
    lemma_source_replaces(from, list, i);
    let after = environment::virtualized(env, records, normalized_gh_host);
    lemma_kept_for(
        after.records,
        list[i],
        normalized_gh_host,
        text::trimmed(env[name]),
        after.env[name],
    );
    let k = choose|k: int|
        0 <= k < after.records.len() && credentials::is_record_of(
            #[trigger] after.records[k],
            list[i].env_var,
            list[i].kind,
            list[i].binding,
            text::trimmed(env[name]),
        ) && after.records[k].stand_in == after.env[name];
    assert(after.records[k].stand_in == after.env[name]);
}

/// Nothing else is touched: variables that are not for credentials, those for an
/// enterprise without a host of its own, and values that are blank, cannot be sent
/// or are stand-ins already.
pub proof fn law_other_values_stay(
    env: Map<Seq<char>, Seq<char>>,
    records: Seq<RecordView>,
    normalized_gh_host: Seq<char>,
    name: Seq<char>,
)
    requires
        name != environment::CREDENTIAL_BROKER_ACTIVE_ENV_KEY@,
        env.contains_key(name),
        !is_brokered_name(name, env, normalized_gh_host) || text::trimmed(env[name]).len() == 0
            || !credentials::is_sendable(text::trimmed(env[name])) || credentials::is_stand_in(
            records,
            text::trimmed(env[name]),
        ),
    ensures
        environment::virtualized(env, records, normalized_gh_host).env.contains_key(name),
        environment::virtualized(env, records, normalized_gh_host).env[name] == env[name],
{
    let enterprise = environment::enterprise_binding(env, normalized_gh_host);
    let list = environment::sources(enterprise);
    let from = Brokered {
        env: env.insert(environment::CREDENTIAL_BROKER_ACTIVE_ENV_KEY@, "1"@),
        records,
    };
    let after = environment::virtualized(env, records, normalized_gh_host);
    laws::law_other_variables_stay(env, records, normalized_gh_host);
    assert(env.dom().contains(name));
    assert(after.env.dom().contains(name));
    if !is_brokered_name(name, env, normalized_gh_host) {
        lemma_no_source(name, env, normalized_gh_host);
    } else {
        laws::lemma_source_variables(enterprise);
        lemma_value_stays(from, list, name);
    }
}

proof fn lemma_value_stays(from: Brokered, list: Seq<SourceView>, name: Seq<char>)
    requires
        laws::distinct_variables(list),
        from.env.contains_key(name),
        text::trimmed(from.env[name]).len() == 0 || !credentials::is_sendable(
            text::trimmed(from.env[name]),
        ) || credentials::is_stand_in(from.records, text::trimmed(from.env[name])),
    ensures
        environment::all_replaced(from, list).env[name] == from.env[name],
    decreases list.len(),
{
    if list.len() > 0 {
        let front = list.drop_last();
        let source = list.last();
        assert forall|a: int, b: int| 0 <= a < b < front.len() implies (
        #[trigger] front[a]).env_var != (#[trigger] front[b]).env_var by {
            assert(list[a].env_var != list[b].env_var);
        }
        lemma_value_stays(from, front, name);
        laws::lemma_all_replaced(from, front);
        let mid = environment::all_replaced(from, front);
        let value = text::trimmed(from.env[name]);
        if credentials::is_stand_in(from.records, value) {
            laws::lemma_stand_ins_stay(from.records, mid.records, value);
        }
        laws::lemma_replaced(mid, source);
    }
}

/// Whether a name is that of a variable that a broker handles.
pub open spec fn is_handled_name(name: Seq<char>) -> bool {
    ||| name == "GH_HOST"@
    ||| name == "GH_TOKEN"@
    ||| name == "GITHUB_TOKEN"@
    ||| name == "GH_ENTERPRISE_TOKEN"@
    ||| name == "GITHUB_ENTERPRISE_TOKEN"@
    ||| name == "OPENAI_API_KEY"@
}

proof fn lemma_handled(name: Seq<char>)
    ensures
        environment::env_keys().contains(name) <==> is_handled_name(name),
{
    let keys = environment::env_keys();
    assert(keys[0] == "GH_HOST"@ && keys[1] == "GH_TOKEN"@ && keys[2] == "GITHUB_TOKEN"@ && keys[3]
        == "GH_ENTERPRISE_TOKEN"@ && keys[4] == "GITHUB_ENTERPRISE_TOKEN"@ && keys[5]
        == "OPENAI_API_KEY"@);
    if keys.contains(name) {
        let i = choose|i: int| 0 <= i < keys.len() && keys[i] == name;
        assert(i == 0 || i == 1 || i == 2 || i == 3 || i == 4 || i == 5);
    }
    assert(is_handled_name(name) ==> keys.contains(name)) by {
        if name == "GH_HOST"@ {
            assert(keys.contains(keys[0]));
        } else if name == "GH_TOKEN"@ {
            assert(keys.contains(keys[1]));
        } else if name == "GITHUB_TOKEN"@ {
            assert(keys.contains(keys[2]));
        } else if name == "GH_ENTERPRISE_TOKEN"@ {
            assert(keys.contains(keys[3]));
        } else if name == "GITHUB_ENTERPRISE_TOKEN"@ {
            assert(keys.contains(keys[4]));
        } else if name == "OPENAI_API_KEY"@ {
            assert(keys.contains(keys[5]));
        }
    }
}

/// The marker lists the handled variables that hold a stand-in, each with it, and
/// nothing else.
pub proof fn law_marker_lists_the_stand_ins(
    env: Map<Seq<char>, Seq<char>>,
    records: Seq<RecordView>,
    name: Seq<char>,
    value: Seq<char>,
)
    ensures
        environment::brokered_pairs(env, records, environment::env_keys()).contains((name, value))
            <==> is_handled_name(name) && env.contains_key(name) && env[name] == value && exists|
            i: int,
        |
            0 <= i < records.len() && (#[trigger] records[i]).stand_in == value,
{
    lemma_handled(name);
    environment::lemma_brokered_pairs(env, records, environment::env_keys(), (name, value));
}

/// The marker lists them in the order of the variables.
pub proof fn law_marker_keeps_the_order(
    env: Map<Seq<char>, Seq<char>>,
    records: Seq<RecordView>,
    first: Seq<Seq<char>>,
    rest: Seq<Seq<char>>,
)
    ensures
        environment::brokered_pairs(env, records, first + rest) == environment::brokered_pairs(
            env,
            records,
            first,
        ) + environment::brokered_pairs(env, records, rest),
    decreases rest.len(),
{
    if rest.len() == 0 {
        assert(first + rest =~= first);
        assert(environment::brokered_pairs(env, records, rest) =~= Seq::empty());
    } else {
        assert((first + rest).drop_last() =~= first + rest.drop_last());
        assert((first + rest).last() == rest.last());
        law_marker_keeps_the_order(env, records, first, rest.drop_last());
    }
    assert(environment::brokered_pairs(env, records, first + rest)
        =~= environment::brokered_pairs(env, records, first) + environment::brokered_pairs(
        env,
        records,
        rest,
    ));
}

/// Stripping takes out the marker, and each handled variable that still holds what
/// the marker lists for it. Everything else stays as it is. A marker that is not
/// there, or no list of pairs, lists nothing.
pub proof fn law_stripping_goes_by_the_marker(env: Map<Seq<char>, Seq<char>>, name: Seq<char>)
    ensures
        ({
            let marker = "CODEX_NETWORK_PROXY_BROKERED_CREDENTIALS"@;
            let listed = env.contains_key(marker) && json::json_pairs(env[marker]) is Some
                && json::json_pairs(env[marker])->0.contains((name, env[name]));
            &&& environment::stripped(env).contains_key(name) <==> env.contains_key(name) && name
                != marker && !(is_handled_name(name) && listed)
            &&& environment::stripped(env).contains_key(name) ==> environment::stripped(env)[name]
                == env[name]
        }),
{
    lemma_handled(name);
}

/// A credential that is new is put on record, just as it is, behind the others;
/// one that is on record, with its variable, kind and hosts, is found there.
pub proof fn law_records_are_told_apart(
    records: Seq<RecordView>,
    env_var: Seq<char>,
    kind: CredentialKind,
    binding: BindingView,
    secret: Seq<char>,
)
    ensures
        ({
            let after = credentials::registered(records, env_var, kind, binding, secret);
            let stand_in = credentials::dummy_for(records, env_var, kind, binding, secret);
            let known = exists|i: int|
                0 <= i < records.len() && (#[trigger] records[i]).env_var == env_var
                    && records[i].kind == kind && records[i].binding == binding
                    && records[i].secret == secret;
            &&& known ==> after == records
            &&& known ==> exists|i: int|
                0 <= i < records.len() && (#[trigger] records[i]).env_var == env_var
                    && records[i].kind == kind && records[i].binding == binding
                    && records[i].secret == secret && records[i].stand_in == stand_in
            &&& !known ==> after == records.push(
                RecordView { env_var, kind, binding, secret, stand_in },
            )
        }),
    decreases records.len(),
{
    lemma_known(records, env_var, kind, binding, secret);
}

proof fn lemma_known(
    records: Seq<RecordView>,
    env_var: Seq<char>,
    kind: CredentialKind,
    binding: BindingView,
    secret: Seq<char>,
)
    ensures
        ({
            let known = credentials::known_dummy(records, env_var, kind, binding, secret);
            &&& known is None ==> forall|i: int|
                0 <= i < records.len() ==> !((#[trigger] records[i]).env_var == env_var
                    && records[i].kind == kind && records[i].binding == binding
                    && records[i].secret == secret)
            &&& known is Some ==> exists|i: int|
                0 <= i < records.len() && (#[trigger] records[i]).env_var == env_var
                    && records[i].kind == kind && records[i].binding == binding
                    && records[i].secret == secret && records[i].stand_in == known->0
        }),
    decreases records.len(),
{
    if records.len() > 0 {
        let rest = records.skip(1);
        lemma_known(rest, env_var, kind, binding, secret);
        if !credentials::is_record_of(records[0], env_var, kind, binding, secret) {
            if credentials::known_dummy(rest, env_var, kind, binding, secret) is Some {
                let i = choose|i: int|
                    0 <= i < rest.len() && (#[trigger] rest[i]).env_var == env_var && rest[i].kind
                        == kind && rest[i].binding == binding && rest[i].secret == secret
                        && rest[i].stand_in == credentials::known_dummy(
                        rest,
                        env_var,
                        kind,
                        binding,
                        secret,
                    )->0;
                assert(records[i + 1] == rest[i]);
            } else {
                assert forall|i: int| 0 <= i < records.len() implies !((
                #[trigger] records[i]).env_var == env_var && records[i].kind == kind
                    && records[i].binding == binding && records[i].secret == secret) by {
                    if i > 0 {
                        assert(records[i] == rest[i - 1]);
                    }
                }
            }
        }
    }
}

} // verus!
