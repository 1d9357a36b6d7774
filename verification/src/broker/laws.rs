//! What holds of a broker as a whole.
use crate::broker::credentials;
use crate::broker::credentials::BindingView;
use crate::broker::credentials::CredentialKind;
use crate::broker::credentials::RecordView;
use crate::broker::dummy;
use crate::broker::environment;
use crate::broker::environment::Brokered;
use crate::broker::environment::SourceView;
use crate::text;
use vstd::prelude::*;
use vstd::utf8::*;

verus! {

/// Whether no two sources share a variable.
pub open spec fn distinct_variables(list: Seq<SourceView>) -> bool {
    forall|i: int, j: int|
        0 <= i < j < list.len() ==> (#[trigger] list[i]).env_var != (#[trigger] list[j]).env_var
}

/// Whether a variable is one of the sources'.
pub open spec fn is_source_of(list: Seq<SourceView>, env_var: Seq<char>) -> bool {
    exists|i: int| 0 <= i < list.len() && (#[trigger] list[i]).env_var == env_var
}

/// Whether a variable holds no credential that is still to be replaced: it holds
/// none at all, or a stand-in.
pub open spec fn settled(at: Brokered, env_var: Seq<char>) -> bool {
    ||| environment::brokerable(at.env, at.records, env_var) is None
    ||| at.env.contains_key(env_var) && credentials::is_stand_in(at.records, at.env[env_var])
}

/// Whether a credential of a source is on record under a stand-in.
pub open spec fn on_record(
    records: Seq<RecordView>,
    source: SourceView,
    value: Seq<char>,
    stand_in: Seq<char>,
) -> bool {
    exists|i: int|
        0 <= i < records.len() && credentials::is_record_of(
            #[trigger] records[i],
            source.env_var,
            source.kind,
            source.binding,
            value,
        ) && records[i].stand_in == stand_in
}

proof fn lemma_known_is_on_record(records: Seq<RecordView>, source: SourceView, value: Seq<char>)
    ensures
        ({
            let known = credentials::known_dummy(
                records,
                source.env_var,
                source.kind,
                source.binding,
                value,
            );
            known is Some ==> on_record(records, source, value, known->0)
        }),
    decreases records.len(),
{
    if records.len() > 0 {
        let rest = records.skip(1);
        let known = credentials::known_dummy(
            rest,
            source.env_var,
            source.kind,
            source.binding,
            value,
        );
        lemma_known_is_on_record(rest, source, value);
        if credentials::is_record_of(
            records[0],
            source.env_var,
            source.kind,
            source.binding,
            value,
        ) {
        } else if known is Some {
            let i = choose|i: int|
                0 <= i < rest.len() && credentials::is_record_of(
                    #[trigger] rest[i],
                    source.env_var,
                    source.kind,
                    source.binding,
                    value,
                ) && rest[i].stand_in == known->0;
            assert(records[i + 1] == rest[i]);
        }
    }
}

proof fn lemma_known_after_push(
    records: Seq<RecordView>,
    last: RecordView,
    env_var: Seq<char>,
    kind: CredentialKind,
    binding: BindingView,
    value: Seq<char>,
)
    ensures
        credentials::known_dummy(records.push(last), env_var, kind, binding, value) == (
        match credentials::known_dummy(records, env_var, kind, binding, value) {
            Some(stand_in) => Some(stand_in),
            None => if credentials::is_record_of(last, env_var, kind, binding, value) {
                Some(last.stand_in)
            } else {
                None
            },
        }),
    decreases records.len(),
{
    let longer = records.push(last);
    if records.len() == 0 {
        assert(longer.skip(1) =~= Seq::<RecordView>::empty());
        assert(longer[0] == last);
        assert(credentials::known_dummy(longer.skip(1), env_var, kind, binding, value) is None);
    } else {
        assert(longer[0] == records[0]);
        assert(longer.skip(1) =~= records.skip(1).push(last));
        lemma_known_after_push(records.skip(1), last, env_var, kind, binding, value);
    }
}

/// A credential that is put on record keeps its stand-in: registering it again
/// gives the same one and adds no record. No record is ever changed.
pub proof fn law_registering_again(
    records: Seq<RecordView>,
    env_var: Seq<char>,
    kind: CredentialKind,
    binding: BindingView,
    value: Seq<char>,
)
    ensures
        ({
            let after = credentials::registered(records, env_var, kind, binding, value);
            let stand_in = credentials::dummy_for(records, env_var, kind, binding, value);
            &&& credentials::registered(after, env_var, kind, binding, value) == after
            &&& credentials::dummy_for(after, env_var, kind, binding, value) == stand_in
            &&& credentials::is_stand_in(after, stand_in)
            &&& on_record(after, SourceView { env_var, kind, binding }, value, stand_in)
            &&& records.is_prefix_of(after)
            &&& after.len() <= records.len() + 1
        }),
{
    let source = SourceView { env_var, kind, binding };
    let last = RecordView {
        env_var,
        kind,
        binding,
        secret: value,
        stand_in: credentials::kind_dummy(kind, records.len(), value),
    };
    lemma_known_after_push(records, last, env_var, kind, binding, value);
    lemma_known_is_on_record(records, source, value);
    let after = credentials::registered(records, env_var, kind, binding, value);
    if credentials::known_dummy(records, env_var, kind, binding, value) is None {
        assert(after[records.len() as int] == last);
    }
    let stand_in = credentials::dummy_for(records, env_var, kind, binding, value);
    assert(on_record(after, source, value, stand_in));
}

/// A stand-in stays one while records are added.
pub proof fn lemma_stand_ins_stay(
    records: Seq<RecordView>,
    after: Seq<RecordView>,
    value: Seq<char>,
)
    requires
        records.is_prefix_of(after),
        credentials::is_stand_in(records, value),
    ensures
        credentials::is_stand_in(after, value),
{
    let i = choose|i: int| 0 <= i < records.len() && (#[trigger] records[i]).stand_in == value;
    assert(after[i] == records[i]);
}

/// What one source leaves: records are only added, other variables stay, and its
/// own variable is settled.
pub proof fn lemma_replaced(from: Brokered, source: SourceView)
    ensures
        ({
            let to = environment::replaced(from, source);
            &&& from.records.is_prefix_of(to.records)
            &&& settled(to, source.env_var)
            &&& to.env.dom() =~= from.env.dom()
            &&& forall|k: Seq<char>| k != source.env_var ==> to.env[k] == from.env[k]
            &&& to.env.contains_key(source.env_var) && to.env[source.env_var]
                != from.env[source.env_var] ==> on_record(
                to.records,
                source,
                text::trimmed(from.env[source.env_var]),
                to.env[source.env_var],
            )
        }),
{
    if let Some(value) = environment::brokerable(from.env, from.records, source.env_var) {
        law_registering_again(from.records, source.env_var, source.kind, source.binding, value);
        let to = environment::replaced(from, source);
        assert(SourceView {
            env_var: source.env_var,
            kind: source.kind,
            binding: source.binding,
        } == source);
    }
}

/// A settled variable stays settled while other variables are handled.
proof fn lemma_settled_stays(from: Brokered, to: Brokered, env_var: Seq<char>)
    requires
        settled(from, env_var),
        from.records.is_prefix_of(to.records),
        to.env.contains_key(env_var) == from.env.contains_key(env_var),
        to.env[env_var] == from.env[env_var],
    ensures
        settled(to, env_var),
{
    if from.env.contains_key(env_var) {
        let value = text::trimmed(from.env[env_var]);
        if credentials::is_stand_in(from.records, value) {
            lemma_stand_ins_stay(from.records, to.records, value);
        }
        if credentials::is_stand_in(from.records, from.env[env_var]) {
            lemma_stand_ins_stay(from.records, to.records, from.env[env_var]);
        }
    }
}

pub proof fn lemma_on_record_stays(
    records: Seq<RecordView>,
    after: Seq<RecordView>,
    source: SourceView,
    value: Seq<char>,
    stand_in: Seq<char>,
)
    requires
        records.is_prefix_of(after),
        on_record(records, source, value, stand_in),
    ensures
        on_record(after, source, value, stand_in),
{
    let i = choose|i: int|
        0 <= i < records.len() && credentials::is_record_of(
            #[trigger] records[i],
            source.env_var,
            source.kind,
            source.binding,
            value,
        ) && records[i].stand_in == stand_in;
    assert(after[i] == records[i]);
}

/// What a list of sources leaves.
pub proof fn lemma_all_replaced(from: Brokered, list: Seq<SourceView>)
    requires
        distinct_variables(list),
    ensures
        ({
            let to = environment::all_replaced(from, list);
            &&& from.records.is_prefix_of(to.records)
            &&& to.env.dom() =~= from.env.dom()
            &&& forall|k: Seq<char>| !is_source_of(list, k) ==> to.env[k] == from.env[k]
            &&& forall|i: int|
                0 <= i < list.len() ==> settled(to, (#[trigger] list[i]).env_var) && (
                to.env.contains_key(list[i].env_var) && to.env[list[i].env_var]
                    != from.env[list[i].env_var] ==> on_record(
                    to.records,
                    list[i],
                    text::trimmed(from.env[list[i].env_var]),
                    to.env[list[i].env_var],
                ))
        }),
    decreases list.len(),
{
    if list.len() > 0 {
        let front = list.drop_last();
        let source = list.last();
        assert forall|i: int, j: int| 0 <= i < j < front.len() implies (
        #[trigger] front[i]).env_var != (#[trigger] front[j]).env_var by {
            assert(list[i].env_var != list[j].env_var);
        }
        lemma_all_replaced(from, front);
        let mid = environment::all_replaced(from, front);
        let to = environment::all_replaced(from, list);
        lemma_replaced(mid, source);
        let last = list.len() - 1;
        assert(!is_source_of(front, source.env_var)) by {
            if is_source_of(front, source.env_var) {
                let i = choose|i: int|
                    0 <= i < front.len() && (#[trigger] front[i]).env_var == source.env_var;
                assert(list[i].env_var != list[last].env_var);
            }
        }
        assert forall|k: Seq<char>| !is_source_of(list, k) implies to.env[k] == from.env[k] by {
            if is_source_of(front, k) {
                let i = choose|i: int| 0 <= i < front.len() && (#[trigger] front[i]).env_var == k;
                assert(list[i].env_var == k);
            }
            assert(list[last].env_var != k);
        }
        assert forall|i: int| 0 <= i < list.len() implies settled(
            to,
            (#[trigger] list[i]).env_var,
        ) && (to.env.contains_key(list[i].env_var) && to.env[list[i].env_var]
            != from.env[list[i].env_var] ==> on_record(
            to.records,
            list[i],
            text::trimmed(from.env[list[i].env_var]),
            to.env[list[i].env_var],
        )) by {
            if i < last {
                assert(front[i] == list[i]);
                assert(list[i].env_var != list[last].env_var);
                lemma_settled_stays(mid, to, list[i].env_var);
                if to.env.contains_key(list[i].env_var) && to.env[list[i].env_var]
                    != from.env[list[i].env_var] {
                    lemma_on_record_stays(
                        mid.records,
                        to.records,
                        list[i],
                        text::trimmed(from.env[list[i].env_var]),
                        to.env[list[i].env_var],
                    );
                }
            }
        }
    }
}

/// The variables of the sources differ from each other and from those that a
/// broker keeps for itself.
pub proof fn lemma_source_variables(enterprise: Option<BindingView>)
    ensures
        distinct_variables(environment::sources(enterprise)),
        !is_source_of(environment::sources(enterprise), "GH_HOST"@),
        !is_source_of(
            environment::sources(enterprise),
            environment::CREDENTIAL_BROKER_ACTIVE_ENV_KEY@,
        ),
        !is_source_of(
            environment::sources(enterprise),
            environment::BROKERED_CREDENTIALS_ENV_KEY@,
        ),
        "GH_HOST"@ != environment::CREDENTIAL_BROKER_ACTIVE_ENV_KEY@,
        "GH_HOST"@ != environment::BROKERED_CREDENTIALS_ENV_KEY@,
        environment::CREDENTIAL_BROKER_ACTIVE_ENV_KEY@ != environment::BROKERED_CREDENTIALS_ENV_KEY@,
{
    reveal_strlit("GH_HOST");
    reveal_strlit("GH_TOKEN");
    reveal_strlit("GITHUB_TOKEN");
    reveal_strlit("GH_ENTERPRISE_TOKEN");
    reveal_strlit("GITHUB_ENTERPRISE_TOKEN");
    reveal_strlit("OPENAI_API_KEY");
    reveal_strlit("CODEX_NETWORK_PROXY_CREDENTIAL_BROKER_ACTIVE");
    reveal_strlit("CODEX_NETWORK_PROXY_BROKERED_CREDENTIALS");
    assert("GH_HOST"@.len() == 7);
    assert(environment::CREDENTIAL_BROKER_ACTIVE_ENV_KEY@.len() == 44);
    assert(environment::BROKERED_CREDENTIALS_ENV_KEY@.len() == 40);
    let list = environment::sources(enterprise);
    if enterprise is Some {
        assert(list.len() == 5);
        assert forall|i: int| 0 <= i < list.len() implies (#[trigger] list[i]).env_var.len() == (
        if i == 0 {
            8int
        } else if i == 1 {
            12
        } else if i == 2 {
            19
        } else if i == 3 {
            23
        } else {
            14
        }) by {
            assert(i == 0 || i == 1 || i == 2 || i == 3 || i == 4);
        }
    } else {
        assert(list.len() == 3);
        assert forall|i: int| 0 <= i < list.len() implies (#[trigger] list[i]).env_var.len() == (
        if i == 0 {
            8int
        } else if i == 1 {
            12
        } else {
            14
        }) by {
            assert(i == 0 || i == 1 || i == 2);
        }
    }
    assert forall|i: int, j: int| 0 <= i < j < list.len() implies (#[trigger] list[i]).env_var != (
    #[trigger] list[j]).env_var by {
        assert(list[i].env_var.len() != list[j].env_var.len());
    }
}

/// An active broker leaves no credential in the variables of its sources: what
/// they hold afterwards is a stand-in, or nothing that could be sent.
pub proof fn law_no_credential_stays(
    env: Map<Seq<char>, Seq<char>>,
    records: Seq<RecordView>,
    normalized_gh_host: Seq<char>,
)
    ensures
        ({
            let list = environment::sources(
                environment::enterprise_binding(env, normalized_gh_host),
            );
            let after = environment::virtualized(env, records, normalized_gh_host);
            forall|i: int| 0 <= i < list.len() ==> settled(after, (#[trigger] list[i]).env_var)
        }),
{
    let enterprise = environment::enterprise_binding(env, normalized_gh_host);
    lemma_source_variables(enterprise);
    lemma_all_replaced(
        Brokered {
            env: env.insert(environment::CREDENTIAL_BROKER_ACTIVE_ENV_KEY@, "1"@),
            records,
        },
        environment::sources(enterprise),
    );
}

/// Every value that an active broker replaces is on record, without its outer
/// white space, under the stand-in that took its place and with the variable and
/// the hosts that it belongs to. Earlier records stay as they are.
pub proof fn law_replaced_values_are_on_record(
    env: Map<Seq<char>, Seq<char>>,
    records: Seq<RecordView>,
    normalized_gh_host: Seq<char>,
)
    ensures
        ({
            let list = environment::sources(
                environment::enterprise_binding(env, normalized_gh_host),
            );
            let after = environment::virtualized(env, records, normalized_gh_host);
            &&& records.is_prefix_of(after.records)
            &&& forall|i: int|
                0 <= i < list.len() && env.contains_key((#[trigger] list[i]).env_var)
                    && after.env[list[i].env_var] != env[list[i].env_var] ==> on_record(
                    after.records,
                    list[i],
                    text::trimmed(env[list[i].env_var]),
                    after.env[list[i].env_var],
                )
        }),
{
    let enterprise = environment::enterprise_binding(env, normalized_gh_host);
    let list = environment::sources(enterprise);
    let from = Brokered {
        env: env.insert(environment::CREDENTIAL_BROKER_ACTIVE_ENV_KEY@, "1"@),
        records,
    };
    lemma_source_variables(enterprise);
    lemma_all_replaced(from, list);
    let after = environment::virtualized(env, records, normalized_gh_host);
    assert forall|i: int|
        0 <= i < list.len() && env.contains_key((#[trigger] list[i]).env_var)
            && after.env[list[i].env_var] != env[list[i].env_var] implies on_record(
        after.records,
        list[i],
        text::trimmed(env[list[i].env_var]),
        after.env[list[i].env_var],
    ) by {
        assert(is_source_of(list, list[i].env_var));
        assert(from.env[list[i].env_var] == env[list[i].env_var]);
        assert(after.env.dom().contains(list[i].env_var));
    }
}

/// An active broker adds no variable but its own mark, removes none, and leaves
/// those of no source as they are.
pub proof fn law_other_variables_stay(
    env: Map<Seq<char>, Seq<char>>,
    records: Seq<RecordView>,
    normalized_gh_host: Seq<char>,
)
    ensures
        ({
            let list = environment::sources(
                environment::enterprise_binding(env, normalized_gh_host),
            );
            let after = environment::virtualized(env, records, normalized_gh_host);
            &&& after.env.dom() =~= env.dom().insert(
                environment::CREDENTIAL_BROKER_ACTIVE_ENV_KEY@,
            )
            &&& after.env[environment::CREDENTIAL_BROKER_ACTIVE_ENV_KEY@] == "1"@
            &&& forall|k: Seq<char>|
                k != environment::CREDENTIAL_BROKER_ACTIVE_ENV_KEY@ && !is_source_of(list, k)
                    ==> after.env[k] == env[k]
        }),
{
    let enterprise = environment::enterprise_binding(env, normalized_gh_host);
    lemma_source_variables(enterprise);
    lemma_all_replaced(
        Brokered {
            env: env.insert(environment::CREDENTIAL_BROKER_ACTIVE_ENV_KEY@, "1"@),
            records,
        },
        environment::sources(enterprise),
    );
}

/// Sources that have nothing to replace change nothing.
proof fn lemma_nothing_to_replace(from: Brokered, list: Seq<SourceView>)
    requires
        forall|i: int|
            0 <= i < list.len() ==> environment::brokerable(
                from.env,
                from.records,
                (#[trigger] list[i]).env_var,
            ) is None,
    ensures
        environment::all_replaced(from, list) == from,
    decreases list.len(),
{
    if list.len() > 0 {
        let front = list.drop_last();
        assert forall|i: int| 0 <= i < front.len() implies environment::brokerable(
            from.env,
            from.records,
            (#[trigger] front[i]).env_var,
        ) is None by {
            assert(front[i] == list[i]);
        }
        lemma_nothing_to_replace(from, front);
        assert(list[list.len() - 1] == list.last());
    }
}

/// Stand-ins are never taken for credentials: getting an environment ready a
/// second time, whatever the marker holds by then, changes neither it nor the
/// records. This needs that the stand-ins in it have no outer white space.
pub proof fn law_virtualizing_again_changes_nothing(
    env: Map<Seq<char>, Seq<char>>,
    records: Seq<RecordView>,
    normalized_gh_host: Seq<char>,
    marker: Seq<char>,
)
    requires
        forall|i: int|
            0 <= i < environment::sources(
                environment::enterprise_binding(env, normalized_gh_host),
            ).len() ==> ({
                let name = (#[trigger] environment::sources(
                    environment::enterprise_binding(env, normalized_gh_host),
                )[i]).env_var;
                let after = environment::virtualized(env, records, normalized_gh_host);
                after.env.contains_key(name) && credentials::is_stand_in(
                    after.records,
                    after.env[name],
                ) ==> text::trimmed(after.env[name]) == after.env[name]
            }),
    ensures
        ({
            let after = environment::virtualized(env, records, normalized_gh_host);
            let marked = after.env.insert(environment::BROKERED_CREDENTIALS_ENV_KEY@, marker);
            environment::virtualized(marked, after.records, normalized_gh_host) == (Brokered {
                env: marked,
                records: after.records,
            })
        }),
{
    let after = environment::virtualized(env, records, normalized_gh_host);
    let marked = after.env.insert(environment::BROKERED_CREDENTIALS_ENV_KEY@, marker);
    let enterprise = environment::enterprise_binding(env, normalized_gh_host);
    let list = environment::sources(enterprise);
    lemma_source_variables(enterprise);
    law_no_credential_stays(env, records, normalized_gh_host);
    law_other_variables_stay(env, records, normalized_gh_host);
    assert(after.env.dom().contains("GH_HOST"@) == env.dom().contains("GH_HOST"@));
    assert(environment::enterprise_binding(marked, normalized_gh_host) == enterprise);
    assert(after.env.dom().contains(environment::CREDENTIAL_BROKER_ACTIVE_ENV_KEY@));
    assert(marked.insert(environment::CREDENTIAL_BROKER_ACTIVE_ENV_KEY@, "1"@) =~= marked);
    let from = Brokered { env: marked, records: after.records };
    assert forall|i: int| 0 <= i < list.len() implies environment::brokerable(
        from.env,
        from.records,
        (#[trigger] list[i]).env_var,
    ) is None by {
        let name = list[i].env_var;
        assert(is_source_of(list, name));
        assert(settled(after, name));
    }
    lemma_nothing_to_replace(from, list);
}

/// What is left of a text without white space around it has none at its end, and
/// is ASCII where the text is.
proof fn lemma_trimmed_end(s: Seq<char>)
    ensures
        text::trimmed(s).len() > 0 ==> !text::is_space(text::trimmed(s).last()),
        is_ascii_chars(s) ==> is_ascii_chars(text::trimmed(s)),
{
    lemma_trim_start_part(s);
    lemma_trim_end_part(text::trim_start(s));
}

proof fn lemma_trim_start_part(s: Seq<char>)
    ensures
        is_ascii_chars(s) ==> is_ascii_chars(text::trim_start(s)),
    decreases s.len(),
{
    if s.len() > 0 && text::is_space(s[0]) {
        assert forall|i: int| is_ascii_chars(s) && 0 <= i < s.skip(1).len() implies '\0'
            <= #[trigger] s.skip(1)[i] <= '\u{7f}' by {
            assert(s.skip(1)[i] == s[i + 1]);
        }
        lemma_trim_start_part(s.skip(1));
    }
}

proof fn lemma_trim_end_part(s: Seq<char>)
    ensures
        text::trim_end(s).len() > 0 ==> !text::is_space(text::trim_end(s).last()),
        is_ascii_chars(s) ==> is_ascii_chars(text::trim_end(s)),
    decreases s.len(),
{
    if s.len() > 0 && text::is_space(s.last()) {
        assert forall|i: int| is_ascii_chars(s) && 0 <= i < s.drop_last().len() implies '\0'
            <= #[trigger] s.drop_last()[i] <= '\u{7f}' by {
            assert(s.drop_last()[i] == s[i]);
        }
        lemma_trim_end_part(s.drop_last());
    }
}

/// A text that neither starts nor ends with white space has none around it.
proof fn lemma_nothing_to_trim(s: Seq<char>)
    requires
        s.len() > 0,
        !text::is_space(s[0]),
        !text::is_space(s.last()),
    ensures
        text::trimmed(s) == s,
{
}

/// A GitHub prefix is short and starts with a letter.
proof fn lemma_github_prefix(value: Seq<char>)
    ensures
        4 <= dummy::github_prefix(value).len() <= 11,
        dummy::github_prefix(value)[0] == 'g',
        is_ascii_chars(dummy::github_prefix(value)),
{
    reveal_strlit("github_pat_");
    reveal_strlit("ghp_");
    reveal_strlit("gho_");
    reveal_strlit("ghu_");
    reveal_strlit("ghs_");
    reveal_strlit("ghr_");
    let all = dummy::github_prefixes();
    assert forall|i: int| 0 <= i < all.len() implies 4 <= (#[trigger] all[i]).len() <= 11
        && all[i][0] == 'g' && is_ascii_chars(all[i]) by {
        assert(i == 0 || i == 1 || i == 2 || i == 3 || i == 4 || i == 5);
    }
    lemma_first_prefix(all, value);
    match dummy::first_prefix(all, value) {
        Some(prefix) => {
            let i = choose|i: int| 0 <= i < all.len() && all[i] == prefix;
            assert(4 <= all[i].len() <= 11);
        },
        None => {},
    }
}

proof fn lemma_first_prefix(prefixes: Seq<Seq<char>>, value: Seq<char>)
    ensures
        dummy::first_prefix(prefixes, value) matches Some(prefix) ==> prefixes.contains(prefix),
    decreases prefixes.len(),
{
    if prefixes.len() > 0 {
        if prefixes[0].is_prefix_of(value) {
            assert(prefixes.contains(prefixes[0]));
        } else {
            let rest = prefixes.skip(1);
            lemma_first_prefix(rest, value);
            if let Some(prefix) = dummy::first_prefix(rest, value) {
                let i = choose|i: int| 0 <= i < rest.len() && rest[i] == prefix;
                assert(prefixes[i + 1] == prefix);
            }
        }
    }
}

/// The prefix of an ASCII OpenAI key starts with a letter, ends with a dash, and
/// is no longer than the key, unless it is the shortest one.
proof fn lemma_openai_prefix(value: Seq<char>)
    requires
        is_ascii_chars(value),
    ensures
        ({
            let prefix = dummy::openai_prefix(value);
            &&& prefix.len() >= 3
            &&& prefix[0] == 's'
            &&& prefix.last() == '-'
            &&& is_ascii_chars(prefix)
            &&& prefix.len() == 3 || prefix.len() <= value.len()
        }),
{
    reveal_strlit("sk-");
    let rest = value.skip(3);
    text::lemma_find(rest, '-');
    let prefix = dummy::openai_prefix(value);
    if "sk-"@.is_prefix_of(value) && text::find(rest, '-') < rest.len() {
        let at = text::find(rest, '-') as int;
        assert(value.take(3) =~= "sk-"@);
        assert(value[0] == value.take(3)[0]);
        assert(prefix.last() == value[at + 3]);
        assert(rest[at] == value[at + 3]);
        assert forall|i: int| 0 <= i < prefix.len() implies '\0' <= #[trigger] prefix[i]
            <= '\u{7f}' by {
            assert(prefix[i] == value[i]);
        }
    }
}

/// The stand-in of an ASCII credential has no white space around it.
proof fn lemma_stand_in_is_trimmed(kind: CredentialKind, id: nat, value: Seq<char>)
    requires
        is_ascii_chars(value),
        value.len() > 0,
        !text::is_space(value.last()),
    ensures
        text::trimmed(credentials::kind_dummy(kind, id, value)) == credentials::kind_dummy(
            kind,
            id,
            value,
        ),
{
    let (prefix, minimum, seed): (Seq<char>, nat, Seq<char>) = match kind {
        CredentialKind::GitHub => (
            dummy::github_prefix(value),
            dummy::GITHUB_TOKEN_MIN_LEN as nat,
            "github"@,
        ),
        CredentialKind::OpenAiApiKey => (
            dummy::openai_prefix(value),
            dummy::OPENAI_API_KEY_MIN_LEN as nat,
            "openai"@,
        ),
    };
    match kind {
        CredentialKind::GitHub => lemma_github_prefix(value),
        CredentialKind::OpenAiApiKey => lemma_openai_prefix(value),
    }
    is_ascii_chars_encode_utf8(value);
    is_ascii_chars_encode_utf8(prefix);
    is_ascii_chars_nat_bound(value);
    let bytes = encode_utf8(value);
    let stand_in = credentials::kind_dummy(kind, id, value);
    let hash = dummy::seed_hash(seed, id);
    let target = dummy::shaped_len(bytes.len(), prefix.len(), minimum);
    let tail = dummy::shaped_tail(bytes, prefix.len(), target, hash);
    assert(stand_in == prefix + tail);
    assert(prefix.len() <= target);
    assert(stand_in[0] == prefix[0]);
    if target > prefix.len() {
        let last = tail.len() - 1;
        let template = dummy::template_at(bytes, target - 1);
        let byte = dummy::shaped_byte(template, dummy::entropy_at(hash, last));
        assert(tail[last] == byte as char);
        assert(stand_in.last() == tail[last]);
        if let Some(b) = template {
            assert(target == value.len());
            assert(b == value.last() as u8);
        }
    } else {
        assert(tail.len() == 0);
        assert(stand_in =~= prefix);
    }
    lemma_nothing_to_trim(stand_in);
}

/// A variable that has nothing to replace has nothing to replace while others are
/// handled.
proof fn lemma_nothing_to_replace_stays(from: Brokered, to: Brokered, env_var: Seq<char>)
    requires
        environment::brokerable(from.env, from.records, env_var) is None,
        from.records.is_prefix_of(to.records),
        to.env.contains_key(env_var) == from.env.contains_key(env_var),
        to.env[env_var] == from.env[env_var],
    ensures
        environment::brokerable(to.env, to.records, env_var) is None,
{
    if from.env.contains_key(env_var) {
        let value = text::trimmed(from.env[env_var]);
        if credentials::is_stand_in(from.records, value) {
            lemma_stand_ins_stay(from.records, to.records, value);
        }
    }
}

/// What one source makes of an ASCII value is not to be replaced again.
proof fn lemma_replaced_once(from: Brokered, source: SourceView)
    requires
        credentials::numbered(from.records),
        from.env.contains_key(source.env_var) ==> is_ascii_chars(from.env[source.env_var]),
    ensures
        ({
            let to = environment::replaced(from, source);
            &&& credentials::numbered(to.records)
            &&& environment::brokerable(to.env, to.records, source.env_var) is None
        }),
{
    if let Some(value) = environment::brokerable(from.env, from.records, source.env_var) {
        let to = environment::replaced(from, source);
        law_registering_again(from.records, source.env_var, source.kind, source.binding, value);
        lemma_trimmed_end(from.env[source.env_var]);
        let stand_in = to.env[source.env_var];
        let of = SourceView {
            env_var: source.env_var,
            kind: source.kind,
            binding: source.binding,
        };
        assert(on_record(to.records, of, value, stand_in));
        let i = choose|i: int|
            0 <= i < to.records.len() && credentials::is_record_of(
                #[trigger] to.records[i],
                of.env_var,
                of.kind,
                of.binding,
                value,
            ) && to.records[i].stand_in == stand_in;
        assert(stand_in == credentials::kind_dummy(source.kind, i as nat, value));
        lemma_stand_in_is_trimmed(source.kind, i as nat, value);
        assert(credentials::is_stand_in(to.records, stand_in));
    }
}

/// Sources with ASCII values leave nothing to replace.
proof fn lemma_all_replaced_once(from: Brokered, list: Seq<SourceView>)
    requires
        distinct_variables(list),
        credentials::numbered(from.records),
        forall|i: int|
            0 <= i < list.len() && from.env.contains_key((#[trigger] list[i]).env_var)
                ==> is_ascii_chars(from.env[list[i].env_var]),
    ensures
        ({
            let to = environment::all_replaced(from, list);
            &&& credentials::numbered(to.records)
            &&& forall|i: int|
                0 <= i < list.len() ==> environment::brokerable(
                    to.env,
                    to.records,
                    (#[trigger] list[i]).env_var,
                ) is None
        }),
    decreases list.len(),
{
    if list.len() > 0 {
        let front = list.drop_last();
        let source = list.last();
        let last = list.len() - 1;
        assert forall|i: int| 0 <= i < front.len() implies #[trigger] front[i] == list[i] by {}
        assert forall|i: int, j: int| 0 <= i < j < front.len() implies (
        #[trigger] front[i]).env_var != (#[trigger] front[j]).env_var by {
            assert(list[i].env_var != list[j].env_var);
        }
        lemma_all_replaced_once(from, front);
        lemma_all_replaced(from, front);
        let mid = environment::all_replaced(from, front);
        let to = environment::all_replaced(from, list);
        assert(!is_source_of(front, source.env_var)) by {
            if is_source_of(front, source.env_var) {
                let i = choose|i: int|
                    0 <= i < front.len() && (#[trigger] front[i]).env_var == source.env_var;
                assert(list[i].env_var != list[last].env_var);
            }
        }
        assert(list[last] == source);
        assert(mid.env.dom().contains(source.env_var) == from.env.dom().contains(source.env_var));
        lemma_replaced_once(mid, source);
        lemma_replaced(mid, source);
        assert forall|i: int| 0 <= i < list.len() implies environment::brokerable(
            to.env,
            to.records,
            (#[trigger] list[i]).env_var,
        ) is None by {
            if i < last {
                assert(front[i] == list[i]);
                assert(list[i].env_var != list[last].env_var);
                assert(to.env.dom().contains(list[i].env_var) == mid.env.dom().contains(
                    list[i].env_var,
                ));
                lemma_nothing_to_replace_stays(mid, to, list[i].env_var);
            }
        }
    }
}

/// Whether the handled variables of an environment are ASCII.
pub open spec fn ascii_credentials(env: Map<Seq<char>, Seq<char>>) -> bool {
    forall|k: Seq<char>| #[trigger]
        env.contains_key(k) && environment::env_keys().contains(k) ==> is_ascii_chars(env[k])
}

/// The variables of the sources are among the handled ones.
proof fn lemma_sources_are_handled(enterprise: Option<BindingView>, i: int)
    requires
        0 <= i < environment::sources(enterprise).len(),
    ensures
        environment::env_keys().contains(environment::sources(enterprise)[i].env_var),
{
    let keys = environment::env_keys();
    assert(keys[1] == "GH_TOKEN"@ && keys[2] == "GITHUB_TOKEN"@ && keys[3]
        == "GH_ENTERPRISE_TOKEN"@ && keys[4] == "GITHUB_ENTERPRISE_TOKEN"@ && keys[5]
        == "OPENAI_API_KEY"@);
    assert(i == 0 || i == 1 || i == 2 || i == 3 || i == 4);
}

/// The stand-ins that are listed do not depend on the marker that lists them.
proof fn lemma_pairs_without_marker(
    env: Map<Seq<char>, Seq<char>>,
    records: Seq<RecordView>,
    keys: Seq<Seq<char>>,
    marker: Seq<char>,
)
    requires
        !keys.contains(environment::BROKERED_CREDENTIALS_ENV_KEY@),
    ensures
        environment::brokered_pairs(
            env.insert(environment::BROKERED_CREDENTIALS_ENV_KEY@, marker),
            records,
            keys,
        ) == environment::brokered_pairs(env, records, keys),
    decreases keys.len(),
{
    if keys.len() > 0 {
        let front = keys.drop_last();
        assert(keys.contains(keys[keys.len() - 1]));
        assert(!front.contains(environment::BROKERED_CREDENTIALS_ENV_KEY@)) by {
            if front.contains(environment::BROKERED_CREDENTIALS_ENV_KEY@) {
                let i = choose|i: int|
                    0 <= i < front.len() && front[i] == environment::BROKERED_CREDENTIALS_ENV_KEY@;
                assert(keys[i] == environment::BROKERED_CREDENTIALS_ENV_KEY@);
            }
        }
        lemma_pairs_without_marker(env, records, front, marker);
    }
}

/// No handled variable is the marker.
proof fn lemma_marker_is_not_handled()
    ensures
        !environment::env_keys().contains(environment::BROKERED_CREDENTIALS_ENV_KEY@),
{
    reveal_strlit("GH_HOST");
    reveal_strlit("GH_TOKEN");
    reveal_strlit("GITHUB_TOKEN");
    reveal_strlit("GH_ENTERPRISE_TOKEN");
    reveal_strlit("GITHUB_ENTERPRISE_TOKEN");
    reveal_strlit("OPENAI_API_KEY");
    reveal_strlit("CODEX_NETWORK_PROXY_BROKERED_CREDENTIALS");
    let keys = environment::env_keys();
    let marker = environment::BROKERED_CREDENTIALS_ENV_KEY@;
    assert(marker.len() == 40);
    if keys.contains(marker) {
        let i = choose|i: int| 0 <= i < keys.len() && keys[i] == marker;
        assert(i == 0 || i == 1 || i == 2 || i == 3 || i == 4 || i == 5);
        assert(keys[i].len() < 40);
    }
}

/// A stand-in is never brokered again: where the handled variables are ASCII,
/// getting an environment ready a second time changes neither it, its marker
/// included, nor the records.
pub proof fn law_ready_environments_stay(
    env: Map<Seq<char>, Seq<char>>,
    records: Seq<RecordView>,
    normalized_gh_host: Seq<char>,
)
    requires
        credentials::numbered(records),
        ascii_credentials(env),
    ensures
        ({
            let first = environment::made_ready(env, records, normalized_gh_host);
            environment::made_ready(first.env, first.records, normalized_gh_host) == first
        }),
{
    let enterprise = environment::enterprise_binding(env, normalized_gh_host);
    let list = environment::sources(enterprise);
    let from = Brokered {
        env: env.insert(environment::CREDENTIAL_BROKER_ACTIVE_ENV_KEY@, "1"@),
        records,
    };
    let after = environment::virtualized(env, records, normalized_gh_host);
    let first = environment::made_ready(env, records, normalized_gh_host);
    let marker = first.env[environment::BROKERED_CREDENTIALS_ENV_KEY@];
    lemma_source_variables(enterprise);
    lemma_marker_is_not_handled();
    assert forall|i: int|
        0 <= i < list.len() && from.env.contains_key((#[trigger] list[i]).env_var) implies is_ascii_chars(
    from.env[list[i].env_var]) by {
        lemma_sources_are_handled(enterprise, i);
        assert(is_source_of(list, list[i].env_var));
        assert(env.contains_key(list[i].env_var));
    }
    lemma_all_replaced_once(from, list);
    law_other_variables_stay(env, records, normalized_gh_host);
    let key = environment::CREDENTIAL_BROKER_ACTIVE_ENV_KEY@;
    assert(after.env.dom().contains("GH_HOST"@) == env.dom().contains("GH_HOST"@));
    assert(environment::enterprise_binding(first.env, normalized_gh_host) == enterprise);
    assert(after.env.dom().contains(key));
    assert(first.env.insert(key, "1"@) =~= first.env);
    let again = Brokered { env: first.env, records: first.records };
    assert forall|i: int| 0 <= i < list.len() implies environment::brokerable(
        again.env,
        again.records,
        (#[trigger] list[i]).env_var,
    ) is None by {
        assert(is_source_of(list, list[i].env_var));
    }
    lemma_nothing_to_replace(again, list);
    lemma_pairs_without_marker(after.env, after.records, environment::env_keys(), marker);
    assert(first.env.insert(environment::BROKERED_CREDENTIALS_ENV_KEY@, marker) =~= first.env);
}

} // verus!
