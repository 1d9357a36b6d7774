//! What the tags of a conversation mean, told from its calls alone.
use crate::feedback::ids;
use crate::feedback::tags;
use crate::feedback::tags::JsonValue;
use crate::feedback::tags::ThreadItem;
use crate::feedback::tags::Turn;
use crate::text;
use vstd::prelude::*;

verus! {

/// One to sixty-four hexadecimal digits.
pub open spec fn hex_run(digits: Seq<char>) -> bool {
    &&& 1 <= digits.len() <= 64
    &&& forall|i: int|
        0 <= i < digits.len() ==> '0' <= #[trigger] digits[i] <= '9' || 'a' <= digits[i] <= 'f'
            || 'A' <= digits[i] <= 'F'
}

/// A prefix with such digits behind it.
pub open spec fn plain_id(value: Seq<char>, prefix: Seq<char>) -> bool {
    exists|digits: Seq<char>| #[trigger] hex_run(digits) && value == prefix + digits
}

/// A project and one of its versions, with a tilde between them.
pub open spec fn version_of(value: Seq<char>, project: Seq<char>) -> bool {
    exists|version: Seq<char>| #[trigger]
        plain_id(version, "appgver_"@) && plain_id(project, "appgprj_"@) && value == project
            + seq!['~'] + version
}

/// Whether a value is a text.
pub open spec fn is_text(value: JsonValue, content: Seq<char>) -> bool {
    value matches JsonValue::Text(s) && s@ == content
}

/// Whether the last entry of a key in an object is a text.
pub open spec fn holds_text(
    entries: Seq<(String, JsonValue)>,
    key: Seq<char>,
    value: Seq<char>,
) -> bool {
    exists|i: int| #[trigger] last_of_key(entries, key, i) && is_text(entries[i].1, value)
}

/// Whether an entry is the last one of a key.
pub open spec fn last_of_key(entries: Seq<(String, JsonValue)>, key: Seq<char>, i: int) -> bool {
    0 <= i < entries.len() && entries[i].0@ == key && forall|j: int|
        i < j < entries.len() ==> (#[trigger] entries[j]).0@ != key
}

/// Whether an item is a call of a server that answered, with an object of arguments.
pub open spec fn answered_call(
    item: ThreadItem,
    server_name: Seq<char>,
    entries: Seq<(String, JsonValue)>,
) -> bool {
    item matches ThreadItem::McpToolCall { server, arguments, returned } && server@ == server_name
        && returned && (arguments matches JsonValue::Object(list) && list@ == entries)
}

/// Whether the last item of the last turn is such a call.
pub open spec fn ends_in_call(
    turns: Seq<Turn>,
    server_name: Seq<char>,
    entries: Seq<(String, JsonValue)>,
) -> bool {
    turns.len() > 0 && turns.last().items@.len() > 0 && answered_call(
        turns.last().items@.last(),
        server_name,
        entries,
    )
}

/// Whether a conversation is another one with one more item at its end.
pub open spec fn continues(turns: Seq<Turn>, before: Seq<Turn>, item: ThreadItem) -> bool {
    &&& turns.len() > 0
    &&& turns.len() == before.len()
    &&& turns.drop_last() == before.drop_last()
    &&& turns.last().items@ == before.last().items@.push(item)
}

/// The texts that are plain identifiers.
pub proof fn law_plain_identifiers(value: Seq<char>, prefix: Seq<char>)
    ensures
        ids::prefixed_hex_id(value, prefix) <==> plain_id(value, prefix),
{
    if ids::prefixed_hex_id(value, prefix) {
        let digits = value.skip(prefix.len() as int);
        assert forall|i: int| 0 <= i < digits.len() implies '0' <= #[trigger] digits[i] <= '9'
            || 'a' <= digits[i] <= 'f' || 'A' <= digits[i] <= 'F' by {
            assert(digits[i] == value[i + prefix.len()]);
            assert(text::is_hex_digit(value[i + prefix.len()]));
        }
        assert(hex_run(digits));
        assert(value =~= prefix + digits);
    }
    if plain_id(value, prefix) {
        let digits = choose|digits: Seq<char>| #[trigger]
            hex_run(digits) && value == prefix + digits;
        assert(value.take(prefix.len() as int) =~= prefix);
        assert forall|i: int| prefix.len() <= i < value.len() implies text::is_hex_digit(
            #[trigger] value[i],
        ) by {
            assert(value[i] == digits[i - prefix.len()]);
        }
    }
}

/// A plain identifier has no tilde.
proof fn lemma_plain_id_without_tilde(value: Seq<char>, prefix: Seq<char>)
    requires
        plain_id(value, prefix),
        forall|i: int| 0 <= i < prefix.len() ==> #[trigger] prefix[i] != '~',
    ensures
        forall|i: int| 0 <= i < value.len() ==> #[trigger] value[i] != '~',
{
    let digits = choose|digits: Seq<char>| #[trigger] hex_run(digits) && value == prefix + digits;
    assert forall|i: int| 0 <= i < value.len() implies #[trigger] value[i] != '~' by {
        if i < prefix.len() {
            assert(value[i] == prefix[i]);
        } else {
            assert(value[i] == digits[i - prefix.len()]);
        }
    }
}

/// The texts that name a version together with its project: a plain project
/// identifier, a tilde and a plain version identifier, read back as these two.
pub proof fn law_compound_versions(value: Seq<char>, project: Seq<char>, version: Seq<char>)
    ensures
        ids::compound_version(value) == Some((project, version)) <==> plain_id(
            project,
            "appgprj_"@,
        ) && plain_id(version, "appgver_"@) && value == project + seq!['~'] + version,
{
    law_plain_identifiers(project, "appgprj_"@);
    law_plain_identifiers(version, "appgver_"@);
    if plain_id(project, "appgprj_"@) && value == project + seq!['~'] + version {
        reveal_strlit("appgprj_");
        lemma_plain_id_without_tilde(project, "appgprj_"@);
        let at = project.len() as int;
        assert forall|i: int| 0 <= i < at implies value[i] != '~' by {
            assert(value[i] == project[i]);
        }
        text::lemma_find_is(value, '~', at);
        assert(value.take(at) =~= project);
        assert(value.skip(at + 1) =~= version);
    }
    if ids::compound_version(value) == Some((project, version)) {
        text::lemma_find(value, '~');
        let at = text::find(value, '~') as int;
        assert(value =~= value.take(at) + seq!['~'] + value.skip(at + 1));
    }
}

/// The text of a field is that of the last entry with its key.
pub proof fn law_last_entry_counts(
    arguments: JsonValue,
    entries: Seq<(String, JsonValue)>,
    key: Seq<char>,
    value: Seq<char>,
)
    requires
        arguments matches JsonValue::Object(list) && list@ == entries,
    ensures
        tags::text_field(arguments, key) == Some(value) <==> holds_text(entries, key, value),
{
    lemma_field_of(entries, key);
    if tags::text_field(arguments, key) == Some(value) {
        let i = choose|i: int|
            last_of_key(entries, key, i) && tags::field_of(entries, key) == Some(entries[i].1);
        assert(last_of_key(entries, key, i));
    }
    if holds_text(entries, key, value) {
        let i = choose|i: int| #[trigger]
            last_of_key(entries, key, i) && is_text(entries[i].1, value);
        let j = choose|j: int|
            last_of_key(entries, key, j) && tags::field_of(entries, key) == Some(entries[j].1);
        assert(entries[i].0@ == key && entries[j].0@ == key);
        assert(i == j);
    }
}

proof fn lemma_field_of(entries: Seq<(String, JsonValue)>, key: Seq<char>)
    ensures
        tags::field_of(entries, key) is Some ==> exists|i: int| #[trigger]
            last_of_key(entries, key, i) && tags::field_of(entries, key) == Some(entries[i].1),
        tags::field_of(entries, key) is None ==> forall|i: int|
            0 <= i < entries.len() ==> (#[trigger] entries[i]).0@ != key,
    decreases entries.len(),
{
    if entries.len() > 0 {
        let front = entries.drop_last();
        let last = entries.len() - 1;
        lemma_field_of(front, key);
        if entries.last().0@ == key {
            assert(last_of_key(entries, key, last));
        } else if tags::field_of(front, key) is Some {
            let i = choose|i: int|
                last_of_key(front, key, i) && tags::field_of(front, key) == Some(front[i].1);
            assert(front[i] == entries[i]);
            assert forall|j: int| i < j < entries.len() implies (#[trigger] entries[j]).0@
                != key by {
                if j < last {
                    assert(front[j] == entries[j]);
                }
            }
            assert(last_of_key(entries, key, i));
        } else {
            assert forall|i: int| 0 <= i < entries.len() implies (#[trigger] entries[i]).0@
                != key by {
                if i < last {
                    assert(front[i] == entries[i]);
                }
            }
        }
    }
}

/// What a call gives under a field.
proof fn lemma_given(arguments: JsonValue, entries: Seq<(String, JsonValue)>, key: Seq<char>)
    requires
        arguments matches JsonValue::Object(list) && list@ == entries,
    ensures
        tags::given_ids(arguments).contains_key(key) ==> holds_text(
            entries,
            key,
            tags::given_ids(arguments)[key],
        ) && (key == "project_id"@ || key == "deployment_id"@ || key == "version_id"@),
{
    if tags::given_ids(arguments).contains_key(key) {
        law_last_entry_counts(arguments, entries, key, tags::given_ids(arguments)[key]);
    }
}

/// A plain identifier under its field is given.
proof fn lemma_plain_is_given(
    arguments: JsonValue,
    entries: Seq<(String, JsonValue)>,
    key: Seq<char>,
    prefix: Seq<char>,
    value: Seq<char>,
)
    requires
        arguments matches JsonValue::Object(list) && list@ == entries,
        (key == "project_id"@ && prefix == "appgprj_"@) || (key == "deployment_id"@ && prefix
            == "appgdep_"@) || (key == "version_id"@ && prefix == "appgver_"@),
        holds_text(entries, key, value),
        plain_id(value, prefix),
    ensures
        tags::given_ids(arguments).contains_key(key),
        tags::given_ids(arguments)[key] == value,
{
    ids::lemma_fields_differ();
    law_last_entry_counts(arguments, entries, key, value);
    law_plain_identifiers(value, prefix);
}

/// A version identifier that names its project is given under its field.
proof fn lemma_version_is_given(
    arguments: JsonValue,
    entries: Seq<(String, JsonValue)>,
    project: Seq<char>,
    value: Seq<char>,
)
    requires
        arguments matches JsonValue::Object(list) && list@ == entries,
        holds_text(entries, "version_id"@, value),
        version_of(value, project),
    ensures
        tags::given_ids(arguments).contains_key("version_id"@),
        tags::given_ids(arguments)["version_id"@] == value,
        tags::version_project(tags::given_ids(arguments)) == Some(project),
{
    ids::lemma_fields_differ();
    law_last_entry_counts(arguments, entries, "version_id"@, value);
    let version = choose|version: Seq<char>| #[trigger]
        plain_id(version, "appgver_"@) && plain_id(project, "appgprj_"@) && value == project
            + seq!['~'] + version;
    law_compound_versions(value, project, version);
}

/// Items count one after the other, within a turn too.
proof fn lemma_last_item(turns: Seq<Turn>, server_name: Seq<char>)
    requires
        turns.len() > 0,
        turns.last().items@.len() > 0,
    ensures
        ({
            let all = tags::turn_items(turns);
            let earlier = tags::turn_items(turns.drop_last()) + turns.last().items@.drop_last();
            tags::after_items(all, server_name) == tags::after_item(
                tags::after_items(earlier, server_name),
                turns.last().items@.last(),
                server_name,
            )
        }),
{
    let all = tags::turn_items(turns);
    let earlier = tags::turn_items(turns.drop_last()) + turns.last().items@.drop_last();
    assert(all.drop_last() =~= earlier);
    assert(all.last() == turns.last().items@.last());
}

/// Calls count in the order in which they were made, within a turn too: one more
/// item at the end of a conversation does to its tags what it does by itself. A
/// turn without items does nothing, and without turns there are no tags.
pub proof fn law_items_count_in_order(
    turns: Seq<Turn>,
    before: Seq<Turn>,
    item: ThreadItem,
    idle: Turn,
    server_name: Seq<char>,
)
    requires
        continues(turns, before, item),
        idle.items@.len() == 0,
    ensures
        tags::after_items(tags::turn_items(turns), server_name) == tags::after_item(
            tags::after_items(tags::turn_items(before), server_name),
            item,
            server_name,
        ),
        tags::conversation_tags(before.push(idle), server_name) == tags::conversation_tags(
            before,
            server_name,
        ),
        tags::conversation_tags(Seq::empty(), server_name) == Map::<Seq<char>, Seq<char>>::empty(),
{
    lemma_last_item(turns, server_name);
    assert(turns.last().items@.drop_last() =~= before.last().items@);
    assert(turns.last().items@.last() == item);
    assert(before.push(idle).drop_last() =~= before);
    assert(before.push(idle).last() == idle);
    assert(tags::turn_items(before.push(idle)) =~= tags::turn_items(before));
}

/// The last call of a conversation gives its own identifiers as tags: its project,
/// its deployment and its plain version are there, whatever came before.
pub proof fn law_latest_call_is_tagged(
    turns: Seq<Turn>,
    server_name: Seq<char>,
    entries: Seq<(String, JsonValue)>,
    key: Seq<char>,
    prefix: Seq<char>,
    value: Seq<char>,
)
    requires
        ends_in_call(turns, server_name, entries),
        (key == "project_id"@ && prefix == "appgprj_"@) || (key == "deployment_id"@ && prefix
            == "appgdep_"@) || (key == "version_id"@ && prefix == "appgver_"@),
        holds_text(entries, key, value),
        plain_id(value, prefix),
    ensures
        tags::conversation_tags(turns, server_name).contains_key(key),
        tags::conversation_tags(turns, server_name)[key] == value,
{
    let item = turns.last().items@.last();
    let given = tags::given_ids(item->arguments);
    ids::lemma_fields_differ();
    lemma_last_item(turns, server_name);
    lemma_plain_is_given(item->arguments, entries, key, prefix, value);
    if key == "version_id"@ {
        law_plain_identifiers(value, "appgver_"@);
        if ids::compound_version(value) is Some {
            ids::law_compound_version_is_no_plain_id(value, prefix);
        }
    }
    assert(tags::call_tags(given).contains_key(key));
    assert(tags::call_tags(given) != Map::<Seq<char>, Seq<char>>::empty());
}

/// A version that names its project is tagged where the call names that project or
/// none, and never where it names another one.
pub proof fn law_latest_version_is_tagged_with_its_project(
    turns: Seq<Turn>,
    server_name: Seq<char>,
    entries: Seq<(String, JsonValue)>,
    project: Seq<char>,
    value: Seq<char>,
    named: Seq<char>,
)
    requires
        ends_in_call(turns, server_name, entries),
        holds_text(entries, "version_id"@, value),
        version_of(value, project),
    ensures
        (forall|i: int| 0 <= i < entries.len() ==> (#[trigger] entries[i]).0@ != "project_id"@)
            || holds_text(entries, "project_id"@, project) ==> tags::conversation_tags(
            turns,
            server_name,
        ).contains_key("version_id"@) && tags::conversation_tags(turns, server_name)["version_id"@]
            == value,
        holds_text(entries, "project_id"@, named) && plain_id(named, "appgprj_"@) && named
            != project ==> !(tags::conversation_tags(turns, server_name).contains_key(
            "version_id"@,
        ) && tags::conversation_tags(turns, server_name)["version_id"@] == value),
{
    let item = turns.last().items@.last();
    let arguments = item->arguments;
    let given = tags::given_ids(arguments);
    ids::lemma_fields_differ();
    lemma_last_item(turns, server_name);
    lemma_version_is_given(arguments, entries, project, value);
    lemma_field_of(entries, "project_id"@);
    if tags::text_field(arguments, "project_id"@) is Some {
        law_last_entry_counts(
            arguments,
            entries,
            "project_id"@,
            tags::text_field(arguments, "project_id"@)->0,
        );
    }
    if holds_text(entries, "project_id"@, project) {
        law_last_entry_counts(arguments, entries, "project_id"@, project);
    }
    if (forall|i: int| 0 <= i < entries.len() ==> (#[trigger] entries[i]).0@ != "project_id"@)
        || holds_text(entries, "project_id"@, project) {
        if given.contains_key("project_id"@) {
            let i = choose|i: int|
                last_of_key(entries, "project_id"@, i) && tags::field_of(entries, "project_id"@)
                    == Some(entries[i].1);
            assert(entries[i].0@ == "project_id"@);
            assert(given["project_id"@] == project);
        }
        assert(tags::call_tags(given) == given);
    }
    if holds_text(entries, "project_id"@, named) && plain_id(named, "appgprj_"@) && named
        != project {
        lemma_plain_is_given(arguments, entries, "project_id"@, "appgprj_"@, named);
        let earlier = tags::turn_items(turns.drop_last()) + turns.last().items@.drop_last();
        let state = tags::after_items(earlier, server_name);
        tags::law_tags_belong_to_one_project(earlier, server_name);
        if state.tags.contains_key("version_id"@) && state.tags["version_id"@] == value {
            assert(tags::version_project(state.tags) == tags::version_project(given));
        }
    }
}

/// Every tag of a conversation is a text that some answered call of the server gave
/// under that field.
pub proof fn law_tags_come_from_answered_calls(
    items: Seq<ThreadItem>,
    server_name: Seq<char>,
    key: Seq<char>,
)
    requires
        tags::after_items(items, server_name).tags.contains_key(key),
    ensures
        key == "project_id"@ || key == "deployment_id"@ || key == "version_id"@,
        exists|i: int, entries: Seq<(String, JsonValue)>|
            0 <= i < items.len() && #[trigger] answered_call(items[i], server_name, entries)
                && holds_text(entries, key, tags::after_items(items, server_name).tags[key]),
    decreases items.len(),
{
    if items.len() > 0 {
        let front = items.drop_last();
        let item = items.last();
        let last = items.len() - 1;
        let state = tags::after_items(front, server_name);
        let value = tags::after_items(items, server_name).tags[key];
        let own = tags::is_apps_call(item, server_name) && tags::call_tags(
            tags::given_ids(item->arguments),
        ).contains_key(key);
        if own {
            let arguments = item->arguments;
            let entries = arguments->Object_0@;
            lemma_given(arguments, entries, key);
            assert(items[last] == item);
            assert(answered_call(items[last], server_name, entries));
            assert(holds_text(entries, key, value));
        } else {
            assert(state.tags.contains_key(key) && state.tags[key] == value);
            law_tags_come_from_answered_calls(front, server_name, key);
            let (i, entries) = choose|i: int, entries: Seq<(String, JsonValue)>|
                0 <= i < front.len() && #[trigger] answered_call(front[i], server_name, entries)
                    && holds_text(entries, key, state.tags[key]);
            assert(front[i] == items[i]);
            assert(answered_call(items[i], server_name, entries));
        }
    }
}

/// A call of another project than the tagged one leaves nothing of what was there:
/// every tag is one that it gives itself.
pub proof fn law_another_project_starts_anew(
    turns: Seq<Turn>,
    before: Seq<Turn>,
    item: ThreadItem,
    server_name: Seq<char>,
    entries: Seq<(String, JsonValue)>,
    project: Seq<char>,
    key: Seq<char>,
)
    requires
        continues(turns, before, item),
        answered_call(item, server_name, entries),
        holds_text(entries, "project_id"@, project),
        plain_id(project, "appgprj_"@),
        tags::conversation_tags(before, server_name).contains_key("project_id"@),
        tags::conversation_tags(before, server_name)["project_id"@] != project,
        tags::conversation_tags(turns, server_name).contains_key(key),
    ensures
        holds_text(entries, key, tags::conversation_tags(turns, server_name)[key]),
{
    ids::lemma_fields_differ();
    lemma_last_item(turns, server_name);
    assert(turns.last().items@.drop_last() =~= before.last().items@);
    assert(turns.last().items@.last() == item);
    tags::law_tags_belong_to_one_project(tags::turn_items(before), server_name);
    lemma_plain_is_given(item->arguments, entries, "project_id"@, "appgprj_"@, project);
    lemma_given(item->arguments, entries, key);
}

/// A call of the tagged project keeps the tags of the fields that it does not have.
pub proof fn law_same_project_keeps_other_tags(
    turns: Seq<Turn>,
    before: Seq<Turn>,
    item: ThreadItem,
    server_name: Seq<char>,
    entries: Seq<(String, JsonValue)>,
    project: Seq<char>,
    key: Seq<char>,
)
    requires
        continues(turns, before, item),
        answered_call(item, server_name, entries),
        holds_text(entries, "project_id"@, project),
        plain_id(project, "appgprj_"@),
        tags::conversation_tags(before, server_name).contains_key("project_id"@),
        tags::conversation_tags(before, server_name)["project_id"@] == project,
        forall|i: int| 0 <= i < entries.len() ==> (#[trigger] entries[i]).0@ != key,
    ensures
        tags::conversation_tags(turns, server_name).contains_key(key)
            == tags::conversation_tags(before, server_name).contains_key(key),
        tags::conversation_tags(before, server_name).contains_key(key) ==> tags::conversation_tags(
            turns,
            server_name,
        )[key] == tags::conversation_tags(before, server_name)[key],
{
    ids::lemma_fields_differ();
    lemma_last_item(turns, server_name);
    assert(turns.last().items@.drop_last() =~= before.last().items@);
    assert(turns.last().items@.last() == item);
    tags::law_tags_belong_to_one_project(tags::turn_items(before), server_name);
    lemma_plain_is_given(item->arguments, entries, "project_id"@, "appgprj_"@, project);
    lemma_field_of(entries, key);
    if tags::field_of(entries, key) is Some {
        let i = choose|i: int|
            last_of_key(entries, key, i) && tags::field_of(entries, key) == Some(entries[i].1);
        assert(entries[i].0@ == key);
    }
}

/// A call that gives a plain deployment or version but no project leaves nothing of
/// what was there.
pub proof fn law_call_without_a_project_starts_anew(
    turns: Seq<Turn>,
    before: Seq<Turn>,
    item: ThreadItem,
    server_name: Seq<char>,
    entries: Seq<(String, JsonValue)>,
    given: Seq<char>,
    prefix: Seq<char>,
    value: Seq<char>,
    key: Seq<char>,
)
    requires
        continues(turns, before, item),
        answered_call(item, server_name, entries),
        (given == "deployment_id"@ && prefix == "appgdep_"@ && forall|i: int|
            0 <= i < entries.len() ==> (#[trigger] entries[i]).0@ != "version_id"@) || (given
            == "version_id"@ && prefix == "appgver_"@),
        holds_text(entries, given, value),
        plain_id(value, prefix),
        forall|i: int| 0 <= i < entries.len() ==> (#[trigger] entries[i]).0@ != "project_id"@,
        tags::conversation_tags(turns, server_name).contains_key(key),
    ensures
        holds_text(entries, key, tags::conversation_tags(turns, server_name)[key]),
{
    let arguments = item->arguments;
    ids::lemma_fields_differ();
    lemma_last_item(turns, server_name);
    assert(turns.last().items@.drop_last() =~= before.last().items@);
    assert(turns.last().items@.last() == item);
    lemma_plain_is_given(arguments, entries, given, prefix, value);
    lemma_field_of(entries, "project_id"@);
    if tags::field_of(entries, "project_id"@) is Some {
        let i = choose|i: int|
            last_of_key(entries, "project_id"@, i) && tags::field_of(entries, "project_id"@)
                == Some(entries[i].1);
        assert(entries[i].0@ == "project_id"@);
    }
    if given == "version_id"@ {
        law_plain_identifiers(value, "appgver_"@);
        if ids::compound_version(value) is Some {
            ids::law_compound_version_is_no_plain_id(value, prefix);
        }
    } else {
        lemma_field_of(entries, "version_id"@);
        if tags::field_of(entries, "version_id"@) is Some {
            let i = choose|i: int|
                last_of_key(entries, "version_id"@, i) && tags::field_of(entries, "version_id"@)
                    == Some(entries[i].1);
            assert(entries[i].0@ == "version_id"@);
        }
    }
    lemma_given(arguments, entries, key);
    let own = tags::call_tags(tags::given_ids(arguments));
    assert(own.contains_key(given));
    assert(own != Map::<Seq<char>, Seq<char>>::empty());
}

/// What gives no identifier changes nothing: other items, calls of other servers,
/// calls without an answer, and calls whose arguments have none of the fields.
pub proof fn law_items_without_identifiers_change_nothing(
    turns: Seq<Turn>,
    before: Seq<Turn>,
    item: ThreadItem,
    server_name: Seq<char>,
)
    requires
        continues(turns, before, item),
        item matches ThreadItem::McpToolCall { server, arguments, returned } ==> (server@
            != server_name || !returned || (arguments matches JsonValue::Object(list)
            ==> forall|i: int|
            0 <= i < list@.len() ==> (#[trigger] list@[i]).0@ != "project_id"@ && list@[i].0@
                != "deployment_id"@ && list@[i].0@ != "version_id"@)),
    ensures
        tags::conversation_tags(turns, server_name) == tags::conversation_tags(
            before,
            server_name,
        ),
{
    lemma_last_item(turns, server_name);
    assert(turns.last().items@.drop_last() =~= before.last().items@);
    assert(turns.last().items@.last() == item);
    if tags::is_apps_call(item, server_name) {
        let arguments = item->arguments;
        let entries = arguments->Object_0@;
        let given = tags::given_ids(arguments);
        assert forall|k: Seq<char>| !given.contains_key(k) by {
            lemma_given(arguments, entries, k);
            if given.contains_key(k) {
                let i = choose|i: int| #[trigger]
                    last_of_key(entries, k, i) && is_text(entries[i].1, given[k]);
                assert(entries[i].0@ == k);
            }
        }
        assert(given =~= Map::<Seq<char>, Seq<char>>::empty());
    }
}

} // verus!
