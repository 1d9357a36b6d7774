//! Names of tools on the wire: the namespace and the name, with two underscores
//! between them.
use crate::text;
use vstd::prelude::*;

verus! {

/// A tool's name within a namespace.
#[derive(Debug, PartialEq, Eq)]
pub struct ToolName {
    pub namespace: String,
    pub name: String,
}

impl ToolName {
    /// The tool of a name in a namespace.
    pub fn namespaced(namespace: &str, name: &str) -> (r: Self)
        ensures
            r.namespace@ == namespace@,
            r.name@ == name@,
    {
        ToolName { namespace: namespace.to_string(), name: name.to_string() }
    }
}

/// Whether two underscores stand at a place.
pub open spec fn mark_at(wire: Seq<char>, at: int) -> bool {
    0 <= at && at + 2 <= wire.len() && wire[at] == '_' && wire[at + 1] == '_'
}

/// Whether the last two underscores next to each other stand at a place.
pub open spec fn last_mark_at(wire: Seq<char>, at: int) -> bool {
    mark_at(wire, at) && forall|later: int| at < later ==> !#[trigger] mark_at(wire, later)
}

/// The name of a tool on the wire.
pub open spec fn joined(namespace: Seq<char>, name: Seq<char>) -> Seq<char> {
    namespace + "__"@ + name
}

/// Whether a name on the wire reads as a namespace and a name: they are what
/// stands before and behind its last two underscores.
pub open spec fn splits_into(wire: Seq<char>, namespace: Seq<char>, name: Seq<char>) -> bool {
    &&& last_mark_at(wire, namespace.len() as int)
    &&& wire == joined(namespace, name)
}

/// The name of a tool on the wire.
pub fn join_responses_tool_name(tool_name: &ToolName) -> (r: String)
    ensures
        r@ == joined(tool_name.namespace@, tool_name.name@),
{
    let mut wire: String = tool_name.namespace.clone();
    wire.append("__");
    wire.append(tool_name.name.as_str());
    wire
}

/// The tool of a name on the wire, split at its last two underscores.
pub fn split_responses_tool_name(wire: &str) -> (r: Option<ToolName>)
    ensures
        r is Some <==> exists|at: int| #[trigger] mark_at(wire@, at),
        r matches Some(tool) ==> splits_into(wire@, tool.namespace@, tool.name@),
{
    let cs: Vec<char> = text::chars_of(wire);
    let n: usize = cs.len();
    let mut end: usize = n;
    while end >= 2
        invariant
            n == cs@.len(),
            end <= n,
            cs@ == wire@,
            forall|later: int| end - 1 <= later ==> !#[trigger] mark_at(wire@, later),
        decreases end,
    {
        if cs[end - 2] == '_' && cs[end - 1] == '_' {
            let at: usize = end - 2;
            let namespace: String = text::string_of(vstd::slice::slice_subrange(
                cs.as_slice(),
                0,
                at,
            ));
            let name: String = text::string_of(vstd::slice::slice_subrange(
                cs.as_slice(),
                end,
                n,
            ));
            proof {
                reveal_strlit("__");
                assert(mark_at(wire@, at as int));
                assert(wire@ =~= joined(namespace@, name@));
            }
            return Some(ToolName { namespace, name });
        }
        end -= 1;
    }
    None
}

/// A name on the wire reads in one way at most.
pub proof fn law_splitting_is_unambiguous(
    wire: Seq<char>,
    namespace: Seq<char>,
    name: Seq<char>,
    other_namespace: Seq<char>,
    other_name: Seq<char>,
)
    requires
        splits_into(wire, namespace, name),
        splits_into(wire, other_namespace, other_name),
    ensures
        namespace == other_namespace,
        name == other_name,
{
    reveal_strlit("__");
    let at = namespace.len() as int;
    let other = other_namespace.len() as int;
    if at < other {
        assert(mark_at(wire, other));
    }
    if other < at {
        assert(mark_at(wire, at));
    }
    assert(namespace =~= wire.take(at));
    assert(other_namespace =~= wire.take(at));
    assert(name =~= wire.skip(at + 2));
    assert(other_name =~= wire.skip(at + 2));
}

/// Joining and splitting gives a tool back exactly where its name neither holds
/// two underscores next to each other nor starts with one. Any other is read as
/// another tool.
pub proof fn law_joining_then_splitting(namespace: Seq<char>, name: Seq<char>)
    ensures
        splits_into(joined(namespace, name), namespace, name) <==> (forall|at: int|
            !#[trigger] mark_at(name, at)) && !(name.len() > 0 && name[0] == '_'),
{
    reveal_strlit("__");
    let wire = joined(namespace, name);
    let start = namespace.len() as int;
    assert(mark_at(wire, start));
    assert forall|at: int| #[trigger] mark_at(name, at) implies mark_at(wire, start + 2 + at) by {
        assert(wire[start + 2 + at] == name[at]);
        assert(wire[start + 2 + at + 1] == name[at + 1]);
    }
    if name.len() > 0 && name[0] == '_' {
        assert(wire[start + 2] == name[0]);
        assert(mark_at(wire, start + 1));
    }
    if (forall|at: int| !#[trigger] mark_at(name, at)) && !(name.len() > 0 && name[0] == '_') {
        assert forall|later: int| start < later implies !#[trigger] mark_at(wire, later) by {
            if mark_at(wire, later) {
                if later == start + 1 {
                    assert(wire[start + 2] == name[0]);
                } else {
                    assert(wire[later] == name[later - start - 2]);
                    assert(wire[later + 1] == name[later - start - 1]);
                    assert(mark_at(name, later - start - 2));
                }
            }
        }
    }
}

/// A name on the wire is a namespace, two underscores and a name, and is read so
/// where the name has no two underscores next to each other and starts with none.
/// Where it has, the namespace takes up what stands before the last two.
pub proof fn law_names_on_the_wire(namespace: Seq<char>, name: Seq<char>, last: Seq<char>)
    requires
        forall|i: int| 0 <= i < last.len() - 1 ==> #[trigger] last[i] != '_' || last[i + 1] != '_',
        last.len() > 0 ==> last[0] != '_',
    ensures
        joined(namespace, name) == namespace.push('_').push('_') + name,
        splits_into(namespace.push('_').push('_') + last, namespace, last),
        splits_into(
            namespace.push('_').push('_') + name + seq!['_', '_'] + last,
            namespace.push('_').push('_') + name,
            last,
        ),
{
    reveal_strlit("__");
    assert(joined(namespace, name) =~= namespace.push('_').push('_') + name);
    assert(joined(namespace, last) =~= namespace.push('_').push('_') + last);
    let front = namespace.push('_').push('_') + name;
    assert(joined(front, last) =~= front + seq!['_', '_'] + last);
    assert forall|at: int| !#[trigger] mark_at(last, at) by {
        if mark_at(last, at) {
            assert(last[at] == '_');
        }
    }
    law_joining_then_splitting(namespace, last);
    law_joining_then_splitting(front, last);
}

/// A name without two underscores next to each other reads as no tool, and any other
/// as one.
pub proof fn law_what_names_no_tool(wire: Seq<char>)
    ensures
        (exists|at: int| #[trigger] mark_at(wire, at)) <==> (exists|i: int|
            0 <= i < wire.len() - 1 && #[trigger] wire[i] == '_' && wire[i + 1] == '_'),
{
    if exists|at: int| #[trigger] mark_at(wire, at) {
        let at = choose|at: int| #[trigger] mark_at(wire, at);
        assert(wire[at] == '_');
    }
    if exists|i: int| 0 <= i < wire.len() - 1 && #[trigger] wire[i] == '_' && wire[i + 1] == '_' {
        let i = choose|i: int|
            0 <= i < wire.len() - 1 && #[trigger] wire[i] == '_' && wire[i + 1] == '_';
        assert(mark_at(wire, i));
    }
}

} // verus!
