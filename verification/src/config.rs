//! The configuration projector: from the flat entries of a build
//! configuration to the properties and capabilities of a task.

use vstd::prelude::*;
use crate::json::{json_empty_array, json_empty_object, json_of, json_push, json_set, json_string, Json};
use crate::text::{lowercase_of, strip_prefix, to_lowercase};

verus! {

/// The configuration file that is read where none is named.
pub const DEFAULT_CONFIG: &'static str = ".config";

/// One `KEY=VALUE` pair of the build configuration.
#[derive(Debug, Clone)]
pub struct ConfigEntry {
    pub key: String,
    pub value: String,
}

impl View for ConfigEntry {
    type V = (Seq<char>, Seq<char>);

    open spec fn view(&self) -> (Seq<char>, Seq<char>) {
        (self.key@, self.value@)
    }
}

/// The entries of a configuration as pairs of key and value.
pub open spec fn entries_view(entries: Seq<ConfigEntry>) -> Seq<(Seq<char>, Seq<char>)> {
    entries.map_values(|e: ConfigEntry| e@)
}

/// What the configuration says of a task: its properties by lower-case name,
/// and its capabilities in the order in which the configuration names them,
/// repeated where it repeats them.
pub ghost struct TaskMetadata {
    pub properties: Map<Seq<char>, Seq<char>>,
    pub capabilities: Seq<Seq<char>>,
}

/// The prefix of the keys that set a task property.
pub open spec fn task_prefix() -> Seq<char> {
    "CONFIG_TASK_"@
}

/// The prefix of the keys that name a capability.
pub open spec fn cap_prefix() -> Seq<char> {
    "CONFIG_CAP_"@
}

pub open spec fn is_task_key(key: Seq<char>) -> bool {
    task_prefix().is_prefix_of(key)
}

/// A key is a capability key where it is no task key and has the capability
/// prefix.
pub open spec fn is_cap_key(key: Seq<char>) -> bool {
    !is_task_key(key) && cap_prefix().is_prefix_of(key)
}

/// The property that a task key names.
pub open spec fn property_name(key: Seq<char>) -> Seq<char> {
    lowercase_of(key.skip(task_prefix().len() as int))
}

/// The capability that a capability key names.
pub open spec fn capability_name(key: Seq<char>) -> Seq<char> {
    lowercase_of(key.skip(cap_prefix().len() as int))
}

/// The value stored for a property: `"1"` where the configuration says `"y"`,
/// else what the configuration says.
pub open spec fn property_value(value: Seq<char>) -> Seq<char> {
    if value == "y"@ {
        "1"@
    } else {
        value
    }
}

/// The metadata after one more entry.
pub open spec fn apply_entry(task: TaskMetadata, entry: (Seq<char>, Seq<char>)) -> TaskMetadata {
    if is_task_key(entry.0) {
        TaskMetadata {
            properties: task.properties.insert(property_name(entry.0), property_value(entry.1)),
            capabilities: task.capabilities,
        }
    } else if is_cap_key(entry.0) {
        TaskMetadata {
            properties: task.properties,
            capabilities: task.capabilities.push(capability_name(entry.0)),
        }
    } else {
        task
    }
}

/// The metadata that a sequence of entries describes: a fold of `apply_entry`
/// over the entries, from the first to the last.
pub open spec fn project(entries: Seq<(Seq<char>, Seq<char>)>) -> TaskMetadata
    decreases entries.len(),
{
    if entries.len() == 0 {
        TaskMetadata { properties: Map::empty(), capabilities: Seq::empty() }
    } else {
        apply_entry(project(entries.drop_last()), entries.last())
    }
}

/// The JSON strings of a sequence of texts.
pub open spec fn text_list(items: Seq<Seq<char>>) -> Seq<Json> {
    items.map_values(|s: Seq<char>| Json::Text(s))
}

/// The JSON strings of the values of a map, under the same keys.
pub open spec fn text_members(members: Map<Seq<char>, Seq<char>>) -> Map<Seq<char>, Json> {
    members.map_values(|s: Seq<char>| Json::Text(s))
}

/// The JSON object of a task: one string member for each property, and the
/// member `capabilities`, an array of strings, which takes the place of a
/// property of that name.
pub open spec fn task_json(task: TaskMetadata) -> Json {
    Json::Object(
        text_members(task.properties).insert(
            "capabilities"@,
            Json::List(text_list(task.capabilities)),
        ),
    )
}

/// The JSON string stored for a property whose configured value is `value`.
pub fn property_json(value: &str) -> (v: serde_json::Value)
    ensures
        json_of(v) == Json::Text(property_value(value@)),
{
    let given = String::from_str(value);
    let yes = String::from_str("y");
    if given == yes {
        json_string("1")
    } else {
        json_string(value)
    }
}

/// Projects the configuration entries into the JSON object of the task.
pub fn task_metadata(entries: &Vec<ConfigEntry>) -> (doc: serde_json::Value)
    ensures
        json_of(doc) == task_json(project(entries_view(entries@))),
{
    let ghost all = entries_view(entries@);
    let mut metadata = json_empty_object();
    let mut capabilities = json_empty_array();
    let mut i: usize = 0;
    proof {
        assert(all.take(0) =~= Seq::empty());
        assert(text_members(Map::empty()) =~= Map::empty());
        assert(text_list(Seq::empty()) =~= Seq::empty());
    }
    while i < entries.len()
        invariant
            i <= entries.len(),
            all == entries_view(entries@),
            json_of(metadata) == Json::Object(text_members(project(all.take(i as int)).properties)),
            json_of(capabilities) == Json::List(text_list(project(all.take(i as int)).capabilities)),
        decreases entries.len() - i,
    {
        let entry = &entries[i];
        let ghost before = project(all.take(i as int));
        proof {
            assert(all.take(i + 1).drop_last() =~= all.take(i as int));
            assert(all.take(i + 1).last() == entry@);
        }
        match strip_prefix(entry.key.as_str(), "CONFIG_TASK_") {
            Some(k) => {
                let name = to_lowercase(k);
                json_set(&mut metadata, name, property_json(entry.value.as_str()));
                proof {
                    assert(text_members(
                        before.properties.insert(
                            property_name(entry.key@),
                            property_value(entry.value@),
                        ),
                    ) =~= text_members(before.properties).insert(
                        property_name(entry.key@),
                        Json::Text(property_value(entry.value@)),
                    ));
                }
            },
            None => {
                match strip_prefix(entry.key.as_str(), "CONFIG_CAP_") {
                    Some(k) => {
                        let name = to_lowercase(k);
                        json_push(&mut capabilities, json_string(name.as_str()));
                        proof {
                            assert(text_list(
                                before.capabilities.push(capability_name(entry.key@)),
                            ) =~= text_list(before.capabilities).push(
                                Json::Text(capability_name(entry.key@)),
                            ));
                        }
                    },
                    None => {},
                }
            },
        }
        i += 1;
    }
    proof {
        assert(all.take(entries.len() as int) =~= all);
    }
    json_set(&mut metadata, String::from_str("capabilities"), capabilities);
    metadata
}

/// No key has both prefixes, so a key with the capability prefix is a
/// capability key.
pub proof fn lemma_prefixes_exclude(key: Seq<char>)
    ensures
        !(task_prefix().is_prefix_of(key) && cap_prefix().is_prefix_of(key)),
        is_cap_key(key) == cap_prefix().is_prefix_of(key),
{
    reveal_strlit("CONFIG_TASK_");
    reveal_strlit("CONFIG_CAP_");
    if task_prefix().is_prefix_of(key) && cap_prefix().is_prefix_of(key) {
        assert(task_prefix()[7] == key[7]);
        assert(cap_prefix()[7] == key[7]);
    }
}

/// Entries of which no key has one of the two prefixes give a task without
/// properties and without capabilities: its object holds the empty array
/// `capabilities` and nothing else.
pub proof fn lemma_unrecognised_keys_give_nothing(entries: Seq<(Seq<char>, Seq<char>)>)
    requires
        forall|i: int|
            0 <= i < entries.len() ==> !task_prefix().is_prefix_of((#[trigger] entries[i]).0)
                && !cap_prefix().is_prefix_of(entries[i].0),
    ensures
        project(entries).properties == Map::<Seq<char>, Seq<char>>::empty(),
        project(entries).capabilities == Seq::<Seq<char>>::empty(),
        task_json(project(entries)) == Json::Object(
            Map::<Seq<char>, Json>::empty().insert("capabilities"@, Json::List(Seq::empty())),
        ),
    decreases entries.len(),
{
    if entries.len() > 0 {
        lemma_unrecognised_keys_give_nothing(entries.drop_last());
    }
    assert(text_members(Map::empty()) =~= Map::empty());
    assert(text_list(Seq::empty()) =~= Seq::empty());
}

/// The members of a task's object: `capabilities`, the array of the
/// capabilities, and under every other name the property of that name, where
/// there is one.
pub proof fn lemma_task_members(task: TaskMetadata)
    ensures
        task_json(task) is Object,
        ({
            let members = task_json(task)->Object_0;
            &&& members.contains_key("capabilities"@)
            &&& members["capabilities"@] == Json::List(text_list(task.capabilities))
            &&& text_list(task.capabilities).len() == task.capabilities.len()
            &&& forall|i: int|
                0 <= i < task.capabilities.len() ==> #[trigger] text_list(task.capabilities)[i]
                    == Json::Text(task.capabilities[i])
            &&& forall|name: Seq<char>|
                name != "capabilities"@ ==> #[trigger] members.contains_key(name)
                    == task.properties.contains_key(name)
            &&& forall|name: Seq<char>|
                name != "capabilities"@ && task.properties.contains_key(name)
                    ==> #[trigger] members[name] == Json::Text(task.properties[name])
        }),
{
}

/// Whether the entry at `i` is a task entry that names the property `name`.
pub open spec fn names_property(
    entries: Seq<(Seq<char>, Seq<char>)>,
    i: int,
    name: Seq<char>,
) -> bool {
    0 <= i < entries.len() && is_task_key(entries[i].0) && property_name(entries[i].0) == name
}

/// A task has exactly the properties that its task entries name.
pub proof fn lemma_property_has_entry(entries: Seq<(Seq<char>, Seq<char>)>, name: Seq<char>)
    ensures
        project(entries).properties.contains_key(name) <==> exists|i: int|
            names_property(entries, i, name),
    decreases entries.len(),
{
    if entries.len() > 0 {
        let rest = entries.drop_last();
        let last = entries.len() - 1;
        lemma_property_has_entry(rest, name);
        if names_property(entries, last, name) {
        } else if project(entries).properties.contains_key(name) {
            let i = choose|i: int| names_property(rest, i, name);
            assert(names_property(entries, i, name));
        } else if exists|i: int| names_property(entries, i, name) {
            let i = choose|i: int| names_property(entries, i, name);
            assert(names_property(rest, i, name));
        }
    }
}

/// A task entry that comes last sets its property: to `"1"` where its value is
/// `"y"`, to its value as it stands otherwise.
pub proof fn lemma_task_entry_sets_property(
    entries: Seq<(Seq<char>, Seq<char>)>,
    key: Seq<char>,
    value: Seq<char>,
)
    requires
        is_task_key(key),
    ensures
        project(entries.push((key, value))).properties.contains_key(property_name(key)),
        value == "y"@ ==> project(entries.push((key, value))).properties[property_name(key)]
            == "1"@,
        value != "y"@ ==> project(entries.push((key, value))).properties[property_name(key)]
            == value,
{
    assert(entries.push((key, value)).drop_last() =~= entries);
}

/// Of the task entries that name one property the last decides: a property
/// holds the value of the entry after which no task entry names it again.
pub proof fn lemma_last_occurrence_wins(entries: Seq<(Seq<char>, Seq<char>)>, i: int)
    requires
        0 <= i < entries.len(),
        is_task_key(entries[i].0),
        forall|j: int|
            i < j < entries.len() && is_task_key((#[trigger] entries[j]).0) ==> property_name(
                entries[j].0,
            ) != property_name(entries[i].0),
    ensures
        project(entries).properties.contains_key(property_name(entries[i].0)),
        project(entries).properties[property_name(entries[i].0)] == property_value(entries[i].1),
    decreases entries.len(),
{
    if i < entries.len() - 1 {
        lemma_last_occurrence_wins(entries.drop_last(), i);
    }
}

/// Every capability entry has its capability listed.
pub proof fn lemma_capability_listed(entries: Seq<(Seq<char>, Seq<char>)>, i: int)
    requires
        0 <= i < entries.len(),
        is_cap_key(entries[i].0),
    ensures
        project(entries).capabilities.contains(capability_name(entries[i].0)),
    decreases entries.len(),
{
    let rest = project(entries.drop_last());
    if i < entries.len() - 1 {
        lemma_capability_listed(entries.drop_last(), i);
        let at = choose|at: int|
            0 <= at < rest.capabilities.len() && rest.capabilities[at] == capability_name(
                entries[i].0,
            );
        assert(project(entries).capabilities[at] == capability_name(entries[i].0));
    } else {
        assert(project(entries).capabilities[rest.capabilities.len() as int] == capability_name(
            entries[i].0,
        ));
    }
}

/// The capabilities depend on the keys alone: two configurations with the same
/// keys in the same order list the same capabilities, whatever their values.
pub proof fn lemma_capabilities_ignore_values(
    a: Seq<(Seq<char>, Seq<char>)>,
    b: Seq<(Seq<char>, Seq<char>)>,
)
    requires
        a.len() == b.len(),
        forall|i: int| 0 <= i < a.len() ==> (#[trigger] a[i]).0 == b[i].0,
    ensures
        project(a).capabilities == project(b).capabilities,
    decreases a.len(),
{
    if a.len() > 0 {
        lemma_capabilities_ignore_values(a.drop_last(), b.drop_last());
    }
}

/// The capabilities of a configuration in two parts are those of the first
/// part followed by those of the second: the order of the entries is kept, and
/// a capability named twice is listed twice.
pub proof fn lemma_capabilities_in_order(
    a: Seq<(Seq<char>, Seq<char>)>,
    b: Seq<(Seq<char>, Seq<char>)>,
)
    ensures
        project(a + b).capabilities == project(a).capabilities + project(b).capabilities,
    decreases b.len(),
{
    if b.len() == 0 {
        assert(a + b =~= a);
        assert(project(a).capabilities + project(b).capabilities =~= project(a).capabilities);
    } else {
        lemma_capabilities_in_order(a, b.drop_last());
        assert((a + b).drop_last() =~= a + b.drop_last());
        assert((a + b).last() == b.last());
        assert(project(a + b).capabilities =~= project(a).capabilities + project(
            b,
        ).capabilities);
    }
}

} // verus!
