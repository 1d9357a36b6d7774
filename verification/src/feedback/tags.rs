//! Correlation tags that a thread's tool calls give to a feedback report.
use crate::feedback::ids;
use crate::text;
use crate::text_map::TextMap;
use vstd::prelude::*;

verus! {

/// A JSON value, as far as tool call arguments are read.
pub enum JsonValue {
    Text(String),
    Object(Vec<(String, JsonValue)>),
    Other,
}

/// One item of a conversation turn.
pub enum ThreadItem {
    /// A call of a tool on an MCP server. `returned` tells whether the server
    /// answered, with an error or without; a call that was rejected locally has
    /// no answer.
    McpToolCall { server: String, arguments: JsonValue, returned: bool },
    Other,
}

/// A turn of a conversation. A turn that was rolled back is no longer one of the
/// conversation's, and must not be handed over.
pub struct Turn {
    pub items: Vec<ThreadItem>,
}

/// The value of a field. Where a key occurs more than once, the last one counts.
pub open spec fn field_of(entries: Seq<(String, JsonValue)>, key: Seq<char>) -> Option<JsonValue>
    decreases entries.len(),
{
    if entries.len() == 0 {
        None
    } else if entries.last().0@ == key {
        Some(entries.last().1)
    } else {
        field_of(entries.drop_last(), key)
    }
}

/// The text in a field of an object.
pub open spec fn text_field(arguments: JsonValue, key: Seq<char>) -> Option<Seq<char>> {
    match arguments {
        JsonValue::Object(entries) => match field_of(entries@, key) {
            Some(JsonValue::Text(s)) => Some(s@),
            _ => None,
        },
        _ => None,
    }
}

/// The identifiers in the arguments of a call, by field.
pub open spec fn given_ids(arguments: JsonValue) -> Map<Seq<char>, Seq<char>> {
    Map::new(
        |k: Seq<char>|
            ids::id_prefix(k) is Some && text_field(arguments, k) is Some && ids::accepted_id(
                k,
                ids::id_prefix(k)->0,
                text_field(arguments, k)->0,
            ),
        |k: Seq<char>| text_field(arguments, k)->0,
    )
}

/// The project that a call names in its own field.
pub open spec fn explicit_project(given: Map<Seq<char>, Seq<char>>) -> Option<Seq<char>> {
    if given.contains_key("project_id"@) {
        Some(given["project_id"@])
    } else {
        None
    }
}

/// The project that the version identifier of a call names.
pub open spec fn version_project(given: Map<Seq<char>, Seq<char>>) -> Option<Seq<char>> {
    if given.contains_key("version_id"@) {
        match ids::compound_version(given["version_id"@]) {
            Some((project, version)) => Some(project),
            None => None,
        }
    } else {
        None
    }
}

/// The project that a call belongs to.
pub open spec fn call_project(given: Map<Seq<char>, Seq<char>>) -> Option<Seq<char>> {
    match explicit_project(given) {
        Some(project) => Some(project),
        None => version_project(given),
    }
}

/// The identifiers that a call contributes: a version of another project than
/// the one that the call names is left out.
pub open spec fn call_tags(given: Map<Seq<char>, Seq<char>>) -> Map<Seq<char>, Seq<char>> {
    if explicit_project(given) is Some && version_project(given) is Some && explicit_project(given)
        != version_project(given) {
        given.remove("version_id"@)
    } else {
        given
    }
}

/// The tags gathered so far, and the project that they belong to.
pub struct TagState {
    pub project: Option<Seq<char>>,
    pub tags: Map<Seq<char>, Seq<char>>,
}

/// Before any call there are no tags and there is no project.
pub open spec fn no_tags() -> TagState {
    TagState { project: None, tags: Map::empty() }
}

/// What the identifiers of one call do to the tags.
pub open spec fn after_call(state: TagState, given: Map<Seq<char>, Seq<char>>) -> TagState {
    let own = call_tags(given);
    match call_project(given) {
        Some(project) => TagState {
            project: Some(project),
            tags: if state.project == Some(project) {
                state.tags.union_prefer_right(own)
            } else {
                own
            },
        },
        None => if own == Map::<Seq<char>, Seq<char>>::empty() {
            state
        } else {
            TagState { project: None, tags: own }
        },
    }
}

/// Whether an item is an answered call of the apps server with an object of arguments.
pub open spec fn is_apps_call(item: ThreadItem, server_name: Seq<char>) -> bool {
    item matches ThreadItem::McpToolCall { server, arguments, returned } && server@ == server_name
        && returned && arguments is Object
}

/// What one item does to the tags.
pub open spec fn after_item(state: TagState, item: ThreadItem, server_name: Seq<char>) -> TagState {
    if is_apps_call(item, server_name) {
        after_call(state, given_ids(item->arguments))
    } else {
        state
    }
}

/// The tags after a list of items.
pub open spec fn after_items(items: Seq<ThreadItem>, server_name: Seq<char>) -> TagState
    decreases items.len(),
{
    if items.len() == 0 {
        no_tags()
    } else {
        after_item(after_items(items.drop_last(), server_name), items.last(), server_name)
    }
}

/// The items of all turns, in order.
pub open spec fn turn_items(turns: Seq<Turn>) -> Seq<ThreadItem>
    decreases turns.len(),
{
    if turns.len() == 0 {
        Seq::empty()
    } else {
        turn_items(turns.drop_last()) + turns.last().items@
    }
}

/// The tags of a conversation.
pub open spec fn conversation_tags(turns: Seq<Turn>, server_name: Seq<char>) -> Map<
    Seq<char>,
    Seq<char>,
> {
    after_items(turn_items(turns), server_name).tags
}

/// The value of a field, the last one where the key occurs more than once.
fn lookup_field<'a>(entries: &'a Vec<(String, JsonValue)>, key: &str) -> (r: Option<&'a JsonValue>)
    ensures
        match r {
            Some(v) => field_of(entries@, key@) == Some(*v),
            None => field_of(entries@, key@) is None,
        },
{
    let mut i: usize = entries.len();
    assert(entries@.take(i as int) =~= entries@);
    while i > 0
        invariant
            i <= entries@.len(),
            field_of(entries@, key@) == field_of(entries@.take(i as int), key@),
        decreases i,
    {
        let ghost part = entries@.take(i as int);
        assert(part.last() == entries@[i - 1]);
        assert(part.drop_last() =~= entries@.take(i - 1));
        if text::same_text(entries[i - 1].0.as_str(), key) {
            return Some(&entries[i - 1].1);
        }
        i -= 1;
    }
    None
}

/// The identifier in one field of a call's arguments.
fn field_id<'a>(entries: &'a Vec<(String, JsonValue)>, field: &str, prefix: &str) -> (r: Option<
    &'a str,
>)
    ensures
        r is Some <==> (field_of(entries@, field@) matches Some(JsonValue::Text(s))
            && ids::accepted_id(field@, prefix@, s@)),
        r matches Some(v) ==> (field_of(entries@, field@) matches Some(JsonValue::Text(s)) && v@
            == s@),
{
    match lookup_field(entries, field) {
        Some(JsonValue::Text(s)) => {
            if ids::valid_appgen_id(field, prefix, s.as_str()) {
                Some(s.as_str())
            } else {
                None
            }
        },
        _ => None,
    }
}

/// The identifiers in the arguments of a call.
fn collect_ids(arguments: &JsonValue) -> (r: TextMap)
    ensures
        r@ == given_ids(*arguments),
{
    let mut found: TextMap = TextMap::new();
    proof {
        ids::lemma_fields_differ();
    }
    match arguments {
        JsonValue::Object(entries) => {
            if let Some(v) = field_id(entries, "project_id", "appgprj_") {
                found.insert("project_id".to_string(), v.to_string());
            }
            if let Some(v) = field_id(entries, "deployment_id", "appgdep_") {
                found.insert("deployment_id".to_string(), v.to_string());
            }
            if let Some(v) = field_id(entries, "version_id", "appgver_") {
                found.insert("version_id".to_string(), v.to_string());
            }
        },
        _ => {},
    }
    assert(found@ =~= given_ids(*arguments));
    found
}

/// A list that grows tags call by call.
pub struct TagCollector {
    project: Option<String>,
    tags: TextMap,
}

impl View for TagCollector {
    type V = TagState;

    closed spec fn view(&self) -> TagState {
        TagState {
            project: match self.project {
                Some(p) => Some(p@),
                None => None,
            },
            tags: self.tags@,
        }
    }
}

impl TagCollector {
    pub fn new() -> (r: Self)
        ensures
            r@ == no_tags(),
    {
        TagCollector { project: None, tags: TextMap::new() }
    }

    /// The tags gathered so far.
    pub fn into_tags(self) -> (r: TextMap)
        ensures
            r@ == self@.tags,
    {
        self.tags
    }

    /// Takes in the arguments of one call.
    pub fn record_call(&mut self, arguments: &JsonValue)
        ensures
            final(self)@ == after_call(old(self)@, given_ids(*arguments)),
    {
        let mut own: TextMap = collect_ids(arguments);
        let ghost given = own@;
        let explicit: Option<String> = match own.get("project_id") {
            Some(p) => Some(p.to_string()),
            None => None,
        };
        let from_version: Option<String> = match own.get("version_id") {
            Some(v) => match ids::split_compound_appgen_version_id(v) {
                Some((p, _)) => Some(p.to_string()),
                None => None,
            },
            None => None,
        };
        let project: Option<String> = match (explicit, from_version) {
            (Some(p), Some(q)) => {
                if !text::same_text(p.as_str(), q.as_str()) {
                    own.remove("version_id");
                }
                Some(p)
            },
            (Some(p), None) => Some(p),
            (None, q) => q,
        };
        assert(own@ == call_tags(given));
        match project {
            Some(p) => {
                let same: bool = match &self.project {
                    Some(q) => text::same_text(q.as_str(), p.as_str()),
                    None => false,
                };
                if same {
                    self.tags.extend(&own);
                } else {
                    self.tags = own;
                }
                self.project = Some(p);
            },
            None => {
                if !own.is_empty() {
                    self.tags = own;
                    self.project = None;
                }
            },
        }
    }

    /// Takes in one item of a conversation.
    pub fn record_item(&mut self, item: &ThreadItem, server_name: &str)
        ensures
            final(self)@ == after_item(old(self)@, *item, server_name@),
    {
        match item {
            ThreadItem::McpToolCall { server, arguments, returned } => {
                if *returned && text::same_text(server.as_str(), server_name) {
                    if let JsonValue::Object(_) = arguments {
                        self.record_call(arguments);
                    }
                }
            },
            ThreadItem::Other => {},
        }
    }
}

/// The tags of a conversation: the identifiers of its most recent app context. The
/// turns are those that still stand; every one of them counts, so turns that were
/// rolled back must not be among them.
pub fn appgen_feedback_tags(turns: &[Turn], server_name: &str) -> (r: TextMap)
    ensures
        r@ == conversation_tags(turns@, server_name@),
{
    let mut collector: TagCollector = TagCollector::new();
    let mut t: usize = 0;
    while t < turns.len()
        invariant
            t <= turns@.len(),
            collector@ == after_items(turn_items(turns@.take(t as int)), server_name@),
        decreases turns@.len() - t,
    {
        let ghost done = turn_items(turns@.take(t as int));
        let items: &Vec<ThreadItem> = &turns[t].items;
        let mut i: usize = 0;
        assert(done + items@.take(0) =~= done);
        while i < items.len()
            invariant
                i <= items@.len(),
                collector@ == after_items(done + items@.take(i as int), server_name@),
            decreases items@.len() - i,
        {
            let ghost next = done + items@.take(i + 1);
            assert(next.drop_last() =~= done + items@.take(i as int));
            assert(next.last() == items@[i as int]);
            collector.record_item(&items[i], server_name);
            i += 1;
        }
        proof {
            assert(items@.take(i as int) =~= items@);
            let upto = turns@.take(t + 1);
            assert(upto.drop_last() =~= turns@.take(t as int));
            assert(upto.last() == turns@[t as int]);
        }
        t += 1;
    }
    assert(turns@.take(t as int) =~= turns@);
    collector.into_tags()
}

/// Tags come only under the three identifier fields, each with an identifier
/// that its field accepts.
pub proof fn law_tags_are_valid_ids(items: Seq<ThreadItem>, server_name: Seq<char>)
    ensures
        forall|k: Seq<char>| #[trigger]
            after_items(items, server_name).tags.contains_key(k) ==> ids::id_prefix(k) is Some
                && ids::accepted_id(
                k,
                ids::id_prefix(k)->0,
                after_items(items, server_name).tags[k],
            ),
    decreases items.len(),
{
    if items.len() > 0 {
        law_tags_are_valid_ids(items.drop_last(), server_name);
    }
}

/// The tags never mix projects: a project tag names the current project, and so
/// does a version tag that names a project.
pub proof fn law_tags_belong_to_one_project(items: Seq<ThreadItem>, server_name: Seq<char>)
    ensures
        ({
            let state = after_items(items, server_name);
            &&& state.tags.contains_key("project_id"@) ==> state.project == Some(
                state.tags["project_id"@],
            )
            &&& version_project(state.tags) is Some ==> state.project == version_project(state.tags)
        }),
    decreases items.len(),
{
    ids::lemma_fields_differ();
    if items.len() > 0 {
        law_tags_belong_to_one_project(items.drop_last(), server_name);
    }
}

/// In the tags of a conversation, a version that names a project names the
/// tagged one.
pub proof fn law_version_tag_matches_project_tag(turns: Seq<Turn>, server_name: Seq<char>)
    ensures
        ({
            let tags = conversation_tags(turns, server_name);
            tags.contains_key("project_id"@) && version_project(tags) is Some ==> version_project(
                tags,
            ) == Some(tags["project_id"@])
        }),
{
    law_tags_belong_to_one_project(turn_items(turns), server_name);
}

/// A call of another project than the current one leaves only its own tags.
pub proof fn law_project_change_clears_tags(
    state: TagState,
    given: Map<Seq<char>, Seq<char>>,
    project: Seq<char>,
)
    requires
        call_project(given) == Some(project),
        state.project != Some(project),
    ensures
        after_call(state, given).tags == call_tags(given),
        after_call(state, given).project == Some(project),
{
}

/// A call of the current project replaces the tags that it gives and keeps the others.
pub proof fn law_same_project_extends_tags(
    state: TagState,
    given: Map<Seq<char>, Seq<char>>,
    project: Seq<char>,
    k: Seq<char>,
)
    requires
        call_project(given) == Some(project),
        state.project == Some(project),
    ensures
        after_call(state, given).project == Some(project),
        call_tags(given).contains_key(k) ==> after_call(state, given).tags.contains_key(k)
            && after_call(state, given).tags[k] == call_tags(given)[k],
        !call_tags(given).contains_key(k) ==> (after_call(state, given).tags.contains_key(k)
            <==> state.tags.contains_key(k)),
        !call_tags(given).contains_key(k) && state.tags.contains_key(k) ==> after_call(
            state,
            given,
        ).tags[k] == state.tags[k],
{
}

/// A call that gives identifiers but names no project stands alone: the tags
/// are its own, and no project is current.
pub proof fn law_projectless_call_stands_alone(state: TagState, given: Map<Seq<char>, Seq<char>>)
    requires
        call_project(given) is None,
        given != Map::<Seq<char>, Seq<char>>::empty(),
    ensures
        after_call(state, given) == (TagState { project: None, tags: given }),
{
}

/// A version of another project than the one that the call names is not tagged.
pub proof fn law_foreign_version_is_dropped(state: TagState, given: Map<Seq<char>, Seq<char>>)
    requires
        explicit_project(given) is Some,
        version_project(given) is Some,
        explicit_project(given) != version_project(given),
    ensures
        !call_tags(given).contains_key("version_id"@),
        after_call(state, given).tags["project_id"@] == given["project_id"@],
{
    ids::lemma_fields_differ();
}

/// Calls of other servers, calls without an answer and calls whose arguments
/// are no object change nothing.
pub proof fn law_other_items_are_ignored(state: TagState, item: ThreadItem, server_name: Seq<char>)
    requires
        item matches ThreadItem::McpToolCall { server, arguments, returned } ==> server@
            != server_name || !returned || !(arguments is Object),
    ensures
        after_item(state, item, server_name) == state,
{
}

} // verus!
