//! What the registry's merged outputs are, as functions of the registered
//! systems in registration order: the tool catalog, the system prompt, the
//! resource listing, and how a name is resolved against them.

use crate::system::{ResourceEntryView, SystemView, ToolCatalogEntryView};
use vstd::prelude::*;

verus! {

/// What stands between a system's name and a tool's name in a qualified name.
pub const SEPARATOR: &'static str = "__";

/// Whether a system is registered under `name`.
pub open spec fn has_system(systems: Seq<SystemView>, name: Seq<char>) -> bool {
    exists|i: int| 0 <= i < systems.len() && (#[trigger] systems[i]).name == name
}

/// No two registered systems have the same name.
pub open spec fn distinct_names(systems: Seq<SystemView>) -> bool {
    forall|i: int, j: int|
        0 <= i < j < systems.len() ==> (#[trigger] systems[i]).name != (#[trigger] systems[j]).name
}

/// Whether `system` offers a tool called `tool`.
pub open spec fn exposes(system: SystemView, tool: Seq<char>) -> bool {
    exists|j: int| 0 <= j < system.tools.len() && (#[trigger] system.tools[j]).name == tool
}

/// Whether a system other than the one at `i` offers a tool called `tool`.
pub open spec fn collides(systems: Seq<SystemView>, i: int, tool: Seq<char>) -> bool {
    exists|k: int| 0 <= k < systems.len() && k != i && exposes(#[trigger] systems[k], tool)
}

/// A tool's name qualified by its system's.
pub open spec fn qualified(system: Seq<char>, tool: Seq<char>) -> Seq<char> {
    system + SEPARATOR@ + tool
}

/// The catalog's line for tool `j` of system `i`: the tool under its own
/// name, or under its qualified name where another system offers a tool of
/// the same name.
pub open spec fn catalog_entry(systems: Seq<SystemView>, i: int, j: int) -> ToolCatalogEntryView {
    let system = systems[i];
    let tool = system.tools[j];
    ToolCatalogEntryView {
        name: if collides(systems, i, tool.name) {
            qualified(system.name, tool.name)
        } else {
            tool.name
        },
        system: system.name,
        tool: tool.name,
        description: tool.description,
        input_schema: tool.input_schema,
    }
}

/// The catalog's lines for the first `n` tools of system `i`.
pub open spec fn system_entries(systems: Seq<SystemView>, i: int, n: int) -> Seq<
    ToolCatalogEntryView,
> {
    Seq::new(n as nat, |j: int| catalog_entry(systems, i, j))
}

/// The catalog's lines for the first `n` systems.
pub open spec fn catalog_prefix(systems: Seq<SystemView>, n: int) -> Seq<ToolCatalogEntryView>
    decreases n,
{
    if n <= 0 {
        Seq::empty()
    } else {
        catalog_prefix(systems, n - 1) + system_entries(
            systems,
            n - 1,
            systems[n - 1].tools.len() as int,
        )
    }
}

/// The merged tool catalog: every tool of every system, systems in
/// registration order and each system's tools in the order it declared them.
pub open spec fn catalog(systems: Seq<SystemView>) -> Seq<ToolCatalogEntryView> {
    catalog_prefix(systems, systems.len() as int)
}

/// The instructions of the first `n` systems, one after the other.
pub open spec fn prompt_prefix(systems: Seq<SystemView>, n: int) -> Seq<char>
    decreases n,
{
    if n <= 0 {
        Seq::empty()
    } else {
        prompt_prefix(systems, n - 1) + systems[n - 1].instructions
    }
}

/// The merged system prompt: each system's instructions, in registration order.
pub open spec fn system_prompt(systems: Seq<SystemView>) -> Seq<char> {
    prompt_prefix(systems, systems.len() as int)
}

/// The listing's line for resource `j` of system `i`.
pub open spec fn resource_entry(systems: Seq<SystemView>, i: int, j: int) -> ResourceEntryView {
    ResourceEntryView {
        system: systems[i].name,
        uri: systems[i].resources[j].uri,
        description: systems[i].resources[j].description,
    }
}

/// The listing's lines for the first `n` resources of system `i`.
pub open spec fn system_resources(systems: Seq<SystemView>, i: int, n: int) -> Seq<
    ResourceEntryView,
> {
    Seq::new(n as nat, |j: int| resource_entry(systems, i, j))
}

/// The listing's lines for the first `n` systems.
pub open spec fn resources_prefix(systems: Seq<SystemView>, n: int) -> Seq<ResourceEntryView>
    decreases n,
{
    if n <= 0 {
        Seq::empty()
    } else {
        resources_prefix(systems, n - 1) + system_resources(
            systems,
            n - 1,
            systems[n - 1].resources.len() as int,
        )
    }
}

/// The merged resource listing: every resource of every system, tagged with
/// its owner, systems in registration order.
pub open spec fn resource_listing(systems: Seq<SystemView>) -> Seq<ResourceEntryView> {
    resources_prefix(systems, systems.len() as int)
}

/// The index of the first system at or after `start` that is registered under
/// `name`.
pub open spec fn find_system(systems: Seq<SystemView>, name: Seq<char>, start: int) -> Option<int>
    decreases systems.len() - start,
{
    if start < 0 || start >= systems.len() {
        None
    } else if systems[start].name == name {
        Some(start)
    } else {
        find_system(systems, name, start + 1)
    }
}

/// Whether `system` lists a resource at `uri`.
pub open spec fn lists(system: SystemView, uri: Seq<char>) -> bool {
    exists|j: int| 0 <= j < system.resources.len() && (#[trigger] system.resources[j]).uri == uri
}

/// The index of the first system at or after `start` that lists a resource at
/// `uri`.
pub open spec fn find_resource(systems: Seq<SystemView>, uri: Seq<char>, start: int) -> Option<int>
    decreases systems.len() - start,
{
    if start < 0 || start >= systems.len() {
        None
    } else if lists(systems[start], uri) {
        Some(start)
    } else {
        find_resource(systems, uri, start + 1)
    }
}

/// The index of the first catalog line at or after `start` that is offered
/// under `name`.
pub open spec fn find_entry(entries: Seq<ToolCatalogEntryView>, name: Seq<char>, start: int) -> Option<
    int,
>
    decreases entries.len() - start,
{
    if start < 0 || start >= entries.len() {
        None
    } else if entries[start].name == name {
        Some(start)
    } else {
        find_entry(entries, name, start + 1)
    }
}

/// What `find_system` finds is the first system of that name, and it finds
/// none only where there is none.
pub proof fn lemma_find_system(systems: Seq<SystemView>, name: Seq<char>, start: int)
    requires
        0 <= start <= systems.len(),
    ensures
        match find_system(systems, name, start) {
            Some(i) => {
                &&& start <= i < systems.len()
                &&& systems[i].name == name
                &&& forall|k: int| start <= k < i ==> (#[trigger] systems[k]).name != name
            },
            None => forall|k: int|
                start <= k < systems.len() ==> (#[trigger] systems[k]).name != name,
        },
    decreases systems.len() - start,
{
    if start < systems.len() && systems[start].name != name {
        lemma_find_system(systems, name, start + 1);
    }
}

/// What `find_resource` finds is the first system that lists the resource,
/// and it finds none only where no system lists it.
pub proof fn lemma_find_resource(systems: Seq<SystemView>, uri: Seq<char>, start: int)
    requires
        0 <= start <= systems.len(),
    ensures
        match find_resource(systems, uri, start) {
            Some(i) => {
                &&& start <= i < systems.len()
                &&& lists(systems[i], uri)
                &&& forall|k: int| start <= k < i ==> !lists(#[trigger] systems[k], uri)
            },
            None => forall|k: int| start <= k < systems.len() ==> !lists(#[trigger] systems[k], uri),
        },
    decreases systems.len() - start,
{
    if start < systems.len() && !lists(systems[start], uri) {
        lemma_find_resource(systems, uri, start + 1);
    }
}

/// What `find_entry` finds is the first line offered under the name, and it
/// finds none only where no line is offered under it.
pub proof fn lemma_find_entry(entries: Seq<ToolCatalogEntryView>, name: Seq<char>, start: int)
    requires
        0 <= start <= entries.len(),
    ensures
        match find_entry(entries, name, start) {
            Some(p) => {
                &&& start <= p < entries.len()
                &&& entries[p].name == name
                &&& forall|q: int| start <= q < p ==> (#[trigger] entries[q]).name != name
            },
            None => forall|q: int|
                start <= q < entries.len() ==> (#[trigger] entries[q]).name != name,
        },
    decreases entries.len() - start,
{
    if start < entries.len() && entries[start].name != name {
        lemma_find_entry(entries, name, start + 1);
    }
}

/// Where the line for tool `j` of system `i` stands in the catalog.
pub open spec fn line_of(systems: Seq<SystemView>, i: int, j: int) -> int {
    catalog_prefix(systems, i).len() + j
}

/// The line for tool `j` of system `i` stands in the catalog of the first `n`
/// systems at `line_of`, for every `n` beyond `i`.
pub proof fn lemma_catalog_line(systems: Seq<SystemView>, n: int, i: int, j: int)
    requires
        0 <= i < n <= systems.len(),
        0 <= j < systems[i].tools.len(),
    ensures
        0 <= line_of(systems, i, j) < catalog_prefix(systems, n).len(),
        catalog_prefix(systems, n)[line_of(systems, i, j)] == catalog_entry(systems, i, j),
    decreases n,
{
    if i < n - 1 {
        lemma_catalog_line(systems, n - 1, i, j);
    }
}

/// Every line of the catalog of the first `n` systems is the line for some
/// tool of one of them; the proof hands back which.
pub proof fn lemma_catalog_origin(systems: Seq<SystemView>, n: int, p: int) -> (origin: (int, int))
    requires
        0 <= n <= systems.len(),
        0 <= p < catalog_prefix(systems, n).len(),
    ensures
        0 <= origin.0 < n,
        0 <= origin.1 < systems[origin.0].tools.len(),
        p == line_of(systems, origin.0, origin.1),
        catalog_prefix(systems, n)[p] == catalog_entry(systems, origin.0, origin.1),
    decreases n,
{
    if p < catalog_prefix(systems, n - 1).len() {
        lemma_catalog_origin(systems, n - 1, p)
    } else {
        (n - 1, p - catalog_prefix(systems, n - 1).len())
    }
}

/// A qualified name is never the tool's own name.
pub proof fn lemma_qualified_differs(system: Seq<char>, tool: Seq<char>)
    ensures
        qualified(system, tool) != tool,
{
    reveal_strlit("__");
    assert(qualified(system, tool).len() == system.len() + 2 + tool.len());
}

/// A tool stands in the catalog under its own name if and only if no other
/// system offers a tool of that name: every line with the same tool name
/// belongs to the same system.
pub proof fn lemma_unprefixed_iff_unique(systems: Seq<SystemView>, p: int)
    requires
        distinct_names(systems),
        0 <= p < catalog(systems).len(),
    ensures
        catalog(systems)[p].name == catalog(systems)[p].tool <==> (forall|q: int|
            0 <= q < catalog(systems).len() && (#[trigger] catalog(systems)[q]).tool == catalog(
                systems,
            )[p].tool ==> catalog(systems)[q].system == catalog(systems)[p].system),
{
    let n = systems.len() as int;
    let lines = catalog(systems);
    let (i, j) = lemma_catalog_origin(systems, n, p);
    let tool = systems[i].tools[j].name;
    lemma_qualified_differs(systems[i].name, tool);
    if collides(systems, i, tool) {
        let k = choose|k: int| 0 <= k < systems.len() && k != i && exposes(#[trigger] systems[k], tool);
        let m = choose|m: int|
            0 <= m < systems[k].tools.len() && (#[trigger] systems[k].tools[m]).name == tool;
        lemma_catalog_line(systems, n, k, m);
        let q = line_of(systems, k, m);
        assert(lines[q].tool == lines[p].tool);
        assert(lines[q].system != lines[p].system);
    } else {
        assert forall|q: int| 0 <= q < lines.len() && (#[trigger] lines[q]).tool == lines[p].tool implies lines[q].system
            == lines[p].system by {
            let (k, m) = lemma_catalog_origin(systems, n, q);
            if k != i {
                assert(exposes(systems[k], tool));
            }
        }
    }
}

/// Whether the separator occurs inside a name.
pub open spec fn has_separator(name: Seq<char>) -> bool {
    exists|k: int| 0 <= k && k + 1 < name.len() && #[trigger] name[k] == '_' && name[k + 1] == '_'
}

/// Whether a name ends in an underscore.
pub open spec fn ends_in_underscore(name: Seq<char>) -> bool {
    name.len() > 0 && name.last() == '_'
}

/// No system offers two tools of the same name.
pub open spec fn tool_sets(systems: Seq<SystemView>) -> bool {
    forall|i: int, j: int, k: int|
        0 <= i < systems.len() && 0 <= j < k < systems[i].tools.len() ==> (
        #[trigger] systems[i].tools[j]).name != (#[trigger] systems[i].tools[k]).name
}

/// Names from which a qualified name can be told apart again: no system's
/// name and no tool's name holds the separator, and no system's name ends in
/// an underscore.
pub open spec fn separable(systems: Seq<SystemView>) -> bool {
    &&& forall|i: int|
        0 <= i < systems.len() ==> !has_separator((#[trigger] systems[i]).name)
            && !ends_in_underscore(systems[i].name)
    &&& forall|i: int, j: int|
        0 <= i < systems.len() && 0 <= j < systems[i].tools.len() ==> !has_separator(
            (#[trigger] systems[i].tools[j]).name,
        )
}

/// A name that does not hold the separator is no qualified name.
pub proof fn lemma_bare_is_not_qualified(name: Seq<char>, system: Seq<char>, tool: Seq<char>)
    requires
        !has_separator(name),
    ensures
        name != qualified(system, tool),
{
    reveal_strlit("__");
    let q = qualified(system, tool);
    let k = system.len() as int;
    assert(q[k] == '_' && q[k + 1] == '_');
}

/// Qualified names of separable parts are equal only where the parts are.
pub proof fn lemma_qualified_injective(
    system1: Seq<char>,
    tool1: Seq<char>,
    system2: Seq<char>,
    tool2: Seq<char>,
)
    requires
        !has_separator(system1) && !ends_in_underscore(system1),
        !has_separator(system2) && !ends_in_underscore(system2),
        qualified(system1, tool1) == qualified(system2, tool2),
    ensures
        system1 == system2,
        tool1 == tool2,
{
    reveal_strlit("__");
    let a = qualified(system1, tool1);
    let b = qualified(system2, tool2);
    let n1 = system1.len() as int;
    let n2 = system2.len() as int;
    assert(a[n1] == '_' && a[n1 + 1] == '_');
    assert(b[n2] == '_' && b[n2 + 1] == '_');
    if n1 < n2 {
        assert(b[n1] == system2[n1]);
        if n1 + 1 < n2 {
            assert(b[n1 + 1] == system2[n1 + 1]);
            assert(has_separator(system2));
        } else {
            assert(system2.last() == '_');
        }
    } else if n2 < n1 {
        assert(a[n2] == system1[n2]);
        if n2 + 1 < n1 {
            assert(a[n2 + 1] == system1[n2 + 1]);
            assert(has_separator(system1));
        } else {
            assert(system1.last() == '_');
        }
    } else {
        assert(system1 =~= a.take(n1));
        assert(system2 =~= b.take(n2));
        assert(tool1 =~= a.skip(n1 + 2));
        assert(tool2 =~= b.skip(n2 + 2));
    }
}

/// Whether `j` is a tool of system `i`.
pub open spec fn is_tool(systems: Seq<SystemView>, i: int, j: int) -> bool {
    0 <= i < systems.len() && 0 <= j < systems[i].tools.len()
}

/// No tool that stands under its qualified name stands under the name of
/// another line: its qualified name is neither another tool's own name nor
/// the qualified name of another tool.
pub open spec fn unambiguous(systems: Seq<SystemView>) -> bool {
    forall|i: int, j: int, k: int, m: int|
        #![trigger catalog_entry(systems, i, j), catalog_entry(systems, k, m)]
        is_tool(systems, i, j) && is_tool(systems, k, m) && (i != k || j != m) && collides(
            systems,
            i,
            systems[i].tools[j].name,
        ) ==> catalog_entry(systems, i, j).name != catalog_entry(systems, k, m).name
}

/// No two lines of the catalog stand under the same name.
pub open spec fn names_distinct(lines: Seq<ToolCatalogEntryView>) -> bool {
    forall|p: int, q: int|
        0 <= p < q < lines.len() ==> (#[trigger] lines[p]).name != (#[trigger] lines[q]).name
}

/// The catalog of more systems is no shorter.
pub proof fn lemma_catalog_prefix_grows(systems: Seq<SystemView>, a: int, b: int)
    requires
        0 <= a <= b,
    ensures
        catalog_prefix(systems, a).len() <= catalog_prefix(systems, b).len(),
    decreases b - a,
{
    if a < b {
        lemma_catalog_prefix_grows(systems, a, b - 1);
    }
}

/// Different tools stand on different lines.
pub proof fn lemma_lines_differ(systems: Seq<SystemView>, i: int, j: int, k: int, m: int)
    requires
        is_tool(systems, i, j),
        is_tool(systems, k, m),
        i != k || j != m,
    ensures
        line_of(systems, i, j) != line_of(systems, k, m),
{
    if i < k {
        lemma_catalog_prefix_grows(systems, i + 1, k);
        assert(catalog_prefix(systems, i + 1).len() == catalog_prefix(systems, i).len()
            + systems[i].tools.len());
    } else if k < i {
        lemma_catalog_prefix_grows(systems, k + 1, i);
        assert(catalog_prefix(systems, k + 1).len() == catalog_prefix(systems, k).len()
            + systems[k].tools.len());
    }
}

/// Where no system offers two tools of one name, the catalog holds no name
/// twice exactly where it is unambiguous: the one way for a name to stand
/// twice is that a qualified name is also the name of another line.
pub proof fn lemma_catalog_names_distinct_iff(systems: Seq<SystemView>)
    requires
        distinct_names(systems),
        tool_sets(systems),
    ensures
        unambiguous(systems) <==> names_distinct(catalog(systems)),
{
    let n = systems.len() as int;
    let lines = catalog(systems);
    if unambiguous(systems) {
        assert forall|p: int, q: int| 0 <= p < q < lines.len() implies (#[trigger] lines[p]).name != (
        #[trigger] lines[q]).name by {
            let (i1, j1) = lemma_catalog_origin(systems, n, p);
            let (i2, j2) = lemma_catalog_origin(systems, n, q);
            let t1 = systems[i1].tools[j1].name;
            let t2 = systems[i2].tools[j2].name;
            let e1 = catalog_entry(systems, i1, j1);
            let e2 = catalog_entry(systems, i2, j2);
            assert(i1 != i2 || j1 != j2);
            if collides(systems, i1, t1) {
                assert(e1.name != e2.name);
            } else if collides(systems, i2, t2) {
                assert(e2.name != e1.name);
            } else if t1 == t2 {
                if i1 != i2 {
                    assert(exposes(systems[i2], t1));
                }
            }
        }
    }
    if names_distinct(lines) {
        assert forall|i: int, j: int, k: int, m: int|
            #![trigger catalog_entry(systems, i, j), catalog_entry(systems, k, m)]
            is_tool(systems, i, j) && is_tool(systems, k, m) && (i != k || j != m) && collides(
                systems,
                i,
                systems[i].tools[j].name,
            ) implies catalog_entry(systems, i, j).name != catalog_entry(systems, k, m).name by {
            lemma_catalog_line(systems, n, i, j);
            lemma_catalog_line(systems, n, k, m);
            lemma_lines_differ(systems, i, j, k, m);
            let p = line_of(systems, i, j);
            let q = line_of(systems, k, m);
            if p < q {
                assert(lines[p].name != lines[q].name);
            } else {
                assert(lines[q].name != lines[p].name);
            }
        }
    }
}

/// Separable names are unambiguous.
pub proof fn lemma_separable_is_unambiguous(systems: Seq<SystemView>)
    requires
        distinct_names(systems),
        tool_sets(systems),
        separable(systems),
    ensures
        unambiguous(systems),
{
    assert forall|i: int, j: int, k: int, m: int|
        #![trigger catalog_entry(systems, i, j), catalog_entry(systems, k, m)]
        is_tool(systems, i, j) && is_tool(systems, k, m) && (i != k || j != m) && collides(
            systems,
            i,
            systems[i].tools[j].name,
        ) implies catalog_entry(systems, i, j).name != catalog_entry(systems, k, m).name by {
        let s1 = systems[i].name;
        let s2 = systems[k].name;
        let t1 = systems[i].tools[j].name;
        let t2 = systems[k].tools[m].name;
        if collides(systems, k, t2) {
            if qualified(s1, t1) == qualified(s2, t2) {
                lemma_qualified_injective(s1, t1, s2, t2);
                assert(i == k);
                assert(j == m);
            }
        } else {
            lemma_bare_is_not_qualified(t2, s1, t1);
        }
    }
}

/// Where no system is registered twice, no system offers two tools of one
/// name, and the names are separable, no two lines of the catalog stand under
/// the same name.
pub proof fn lemma_catalog_names_distinct(systems: Seq<SystemView>, p: int, q: int)
    requires
        distinct_names(systems),
        tool_sets(systems),
        separable(systems),
        0 <= p < q < catalog(systems).len(),
    ensures
        catalog(systems)[p].name != catalog(systems)[q].name,
{
    lemma_separable_is_unambiguous(systems);
    lemma_catalog_names_distinct_iff(systems);
}

} // verus!
