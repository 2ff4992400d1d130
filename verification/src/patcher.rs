//! Mutations of a document. Each of them is idempotent and says whether it
//! changed the document.

use crate::document::{
    distinct_keys, doc_model, doc_wf, find_member, items_model, items_wf, lemma_members_agree,
    lemma_members_domain, lemma_members_lookup, lemma_members_push, lemma_members_update,
    members_model, members_wf, ConfigDocument, JsonModel,
};
use vstd::prelude::*;

verus! {

/// What a mutation yields: the document after it, and whether that differs from
/// the document before it.
pub struct Patched {
    pub doc: JsonModel,
    pub changed: bool,
}

/// The value that a field-set mutation writes.
#[derive(Debug, PartialEq)]
pub enum Leaf {
    Text(String),
    Flag(bool),
}

impl View for Leaf {
    type V = JsonModel;

    open spec fn view(&self) -> JsonModel {
        match self {
            Leaf::Text(s) => JsonModel::String(s@),
            Leaf::Flag(b) => JsonModel::Bool(*b),
        }
    }
}

/// A mutation of a document, as data.
#[derive(Debug, PartialEq)]
pub enum PatchRule {
    /// Set the field at `path` to `leaf` (see [`set_field`]).
    SetField { path: Vec<String>, leaf: Leaf },
    /// Replace every string equal to `from` by `to` (see [`replace_all`]).
    ReplaceStrings { from: String, to: String },
}

/// A [`PatchRule`] over sequences of characters.
pub enum RuleModel {
    SetField { path: Seq<Seq<char>>, leaf: JsonModel },
    ReplaceStrings { from: Seq<char>, to: Seq<char> },
}

/// The keys of a path as sequences of characters.
pub open spec fn path_model(path: Seq<String>) -> Seq<Seq<char>> {
    path.map_values(|key: String| key@)
}

/// The keys of a borrowed path as sequences of characters.
pub open spec fn keys_of(path: Seq<&str>) -> Seq<Seq<char>> {
    path.map_values(|key: &str| key@)
}

impl View for PatchRule {
    type V = RuleModel;

    open spec fn view(&self) -> RuleModel {
        match self {
            PatchRule::SetField { path, leaf } => RuleModel::SetField {
                path: path_model(path@),
                leaf: leaf@,
            },
            PatchRule::ReplaceStrings { from, to } => RuleModel::ReplaceStrings {
                from: from@,
                to: to@,
            },
        }
    }
}

/// Setting the field at `path` to `leaf`.
///
/// The path is followed from the root through objects only. A missing member on
/// the way is created as an object; a member on the way that is not an object
/// stops the mutation, and so does a root that is not an object or an empty
/// path. At the end of the path the member is written unless it already holds
/// `leaf`.
pub open spec fn set_field(doc: JsonModel, path: Seq<Seq<char>>, leaf: JsonModel) -> Patched
    decreases path.len(),
{
    if path.len() == 0 {
        Patched { doc, changed: false }
    } else {
        match doc {
            JsonModel::Object(members) => {
                let key = path[0];
                if path.len() == 1 {
                    if members.contains_key(key) && members[key] == leaf {
                        Patched { doc, changed: false }
                    } else {
                        Patched { doc: JsonModel::Object(members.insert(key, leaf)), changed: true }
                    }
                } else {
                    let child = if members.contains_key(key) {
                        members[key]
                    } else {
                        JsonModel::Object(Map::empty())
                    };
                    let inner = set_field(child, path.drop_first(), leaf);
                    if inner.changed {
                        Patched {
                            doc: JsonModel::Object(members.insert(key, inner.doc)),
                            changed: true,
                        }
                    } else {
                        Patched { doc, changed: false }
                    }
                }
            },
            _ => Patched { doc, changed: false },
        }
    }
}

/// Replacing every string that equals `from` by `to`, at any depth.
///
/// Only whole strings count: a string that merely contains `from` stays. Every
/// element of an array and every member of an object is visited; keys stay as
/// they are.
pub open spec fn replace_all(doc: JsonModel, from: Seq<char>, to: Seq<char>) -> JsonModel
    decreases doc,
{
    match doc {
        JsonModel::String(s) => if s == from {
            JsonModel::String(to)
        } else {
            doc
        },
        JsonModel::Array(items) => JsonModel::Array(
            Seq::new(
                items.len(),
                |i: int|
                    if 0 <= i < items.len() {
                        replace_all(items[i], from, to)
                    } else {
                        JsonModel::Null
                    },
            ),
        ),
        JsonModel::Object(members) => JsonModel::Object(
            Map::new(
                |key: Seq<char>| members.contains_key(key),
                |key: Seq<char>|
                    if members.contains_key(key) {
                        replace_all(members[key], from, to)
                    } else {
                        JsonModel::Null
                    },
            ),
        ),
        _ => doc,
    }
}

/// What a rule makes of a document.
pub open spec fn apply_rule(rule: RuleModel, doc: JsonModel) -> Patched {
    match rule {
        RuleModel::SetField { path, leaf } => set_field(doc, path, leaf),
        RuleModel::ReplaceStrings { from, to } => Patched {
            doc: replace_all(doc, from, to),
            changed: replace_all(doc, from, to) != doc,
        },
    }
}

/// The rule for the state file: the member `variations_country` of the root is
/// the string `US`.
pub open spec fn state_file_rule() -> RuleModel {
    RuleModel::SetField { path: seq!["variations_country"@], leaf: JsonModel::String("US"@) }
}

/// The rule for a preference file: the member `chat_ip_eligibility_status` of
/// the root's member `browser` is `true`.
pub open spec fn preferences_rule() -> RuleModel {
    RuleModel::SetField {
        path: seq!["browser"@, "chat_ip_eligibility_status"@],
        leaf: JsonModel::Bool(true),
    }
}

/// A field-set mutation leaves a document whose root is not an object as it
/// is, and reports no change.
pub proof fn lemma_set_field_needs_object(doc: JsonModel, path: Seq<Seq<char>>, leaf: JsonModel)
    requires
        !(doc is Object),
    ensures
        set_field(doc, path, leaf) == (Patched { doc, changed: false }),
{
}

/// On an object without members a field-set mutation with a path that is not
/// empty always changes something.
pub proof fn lemma_set_field_creates(path: Seq<Seq<char>>, leaf: JsonModel)
    requires
        path.len() > 0,
    ensures
        set_field(JsonModel::Object(Map::empty()), path, leaf).changed,
    decreases path.len(),
{
    if path.len() > 1 {
        lemma_set_field_creates(path.drop_first(), leaf);
    }
}

/// A field-set mutation reports a change exactly when the document differs
/// afterwards.
pub proof fn lemma_set_field_changed(doc: JsonModel, path: Seq<Seq<char>>, leaf: JsonModel)
    ensures
        set_field(doc, path, leaf).changed == (set_field(doc, path, leaf).doc != doc),
    decreases path.len(),
{
    if path.len() > 0 {
        if let JsonModel::Object(members) = doc {
            let key = path[0];
            if path.len() == 1 {
                if !(members.contains_key(key) && members[key] == leaf) {
                    assert(members.insert(key, leaf)[key] == leaf);
                    assert(members.insert(key, leaf) != members);
                }
            } else {
                let child = if members.contains_key(key) {
                    members[key]
                } else {
                    JsonModel::Object(Map::empty())
                };
                lemma_set_field_changed(child, path.drop_first(), leaf);
                let inner = set_field(child, path.drop_first(), leaf);
                if inner.changed {
                    assert(members.insert(key, inner.doc)[key] == inner.doc);
                    assert(members.insert(key, inner.doc) != members);
                }
            }
        }
    }
}

/// A field-set mutation applied to its own result changes nothing.
pub proof fn lemma_set_field_idempotent(doc: JsonModel, path: Seq<Seq<char>>, leaf: JsonModel)
    ensures
        set_field(set_field(doc, path, leaf).doc, path, leaf) == (Patched {
            doc: set_field(doc, path, leaf).doc,
            changed: false,
        }),
    decreases path.len(),
{
    if path.len() > 1 {
        if let JsonModel::Object(members) = doc {
            let key = path[0];
            let child = if members.contains_key(key) {
                members[key]
            } else {
                JsonModel::Object(Map::empty())
            };
            lemma_set_field_idempotent(child, path.drop_first(), leaf);
        }
    }
}

/// A field-set mutation keeps every member of the root other than the one that
/// the path begins with, and adds no other.
pub proof fn lemma_set_field_keeps_others(
    doc: JsonModel,
    path: Seq<Seq<char>>,
    leaf: JsonModel,
    key: Seq<char>,
)
    requires
        doc is Object,
        path.len() > 0,
        key != path[0],
    ensures
        set_field(doc, path, leaf).doc matches JsonModel::Object(after) && after.contains_key(key)
            == doc->Object_0.contains_key(key) && (after.contains_key(key) ==> after[key]
            == doc->Object_0[key]),
{
}

/// What replacement does at each node: a string is replaced exactly when it
/// equals `from`; the other scalars stay; an array keeps its length and an
/// object its keys, and each element and each member is replaced in turn.
pub proof fn lemma_replace_all_visits(doc: JsonModel, from: Seq<char>, to: Seq<char>)
    ensures
        match doc {
            JsonModel::String(s) => replace_all(doc, from, to) == (if s == from {
                JsonModel::String(to)
            } else {
                doc
            }),
            JsonModel::Array(items) => replace_all(doc, from, to) matches JsonModel::Array(after)
                && after.len() == items.len() && forall|i: int|
                0 <= i < items.len() ==> #[trigger] after[i] == replace_all(items[i], from, to),
            JsonModel::Object(members) => replace_all(doc, from, to) matches JsonModel::Object(
                after,
            ) && after.dom() == members.dom() && forall|key: Seq<char>|
                members.contains_key(key) ==> #[trigger] after[key] == replace_all(
                    members[key],
                    from,
                    to,
                ),
            _ => replace_all(doc, from, to) == doc,
        },
{
    if let JsonModel::Object(members) = doc {
        assert(replace_all(doc, from, to)->Object_0.dom() =~= members.dom());
    }
}

/// Replacing a string by itself changes nothing.
pub proof fn lemma_replace_all_same(doc: JsonModel, text: Seq<char>)
    ensures
        replace_all(doc, text, text) == doc,
    decreases doc,
{
    match doc {
        JsonModel::Array(items) => {
            assert forall|i: int| 0 <= i < items.len() implies replace_all(items[i], text, text)
                == items[i] by {
                lemma_replace_all_same(items[i], text);
            }
            assert(replace_all(doc, text, text)->Array_0 =~= items);
        },
        JsonModel::Object(members) => {
            assert forall|key: Seq<char>| members.contains_key(key) implies replace_all(
                members[key],
                text,
                text,
            ) == members[key] by {
                lemma_replace_all_same(members[key], text);
            }
            assert(replace_all(doc, text, text)->Object_0 =~= members);
        },
        _ => {},
    }
}

/// Replacement applied to its own result changes nothing.
pub proof fn lemma_replace_all_idempotent(doc: JsonModel, from: Seq<char>, to: Seq<char>)
    ensures
        replace_all(replace_all(doc, from, to), from, to) == replace_all(doc, from, to),
    decreases doc,
{
    if from == to {
        lemma_replace_all_same(doc, from);
    } else {
        let once = replace_all(doc, from, to);
        match doc {
            JsonModel::Array(items) => {
                assert forall|i: int| 0 <= i < items.len() implies replace_all(
                    once->Array_0[i],
                    from,
                    to,
                ) == once->Array_0[i] by {
                    lemma_replace_all_idempotent(items[i], from, to);
                }
                assert(replace_all(once, from, to)->Array_0 =~= once->Array_0);
            },
            JsonModel::Object(members) => {
                assert forall|key: Seq<char>| members.contains_key(key) implies replace_all(
                    once->Object_0[key],
                    from,
                    to,
                ) == once->Object_0[key] by {
                    lemma_replace_all_idempotent(members[key], from, to);
                }
                assert(replace_all(once, from, to)->Object_0 =~= once->Object_0);
            },
            _ => {},
        }
    }
}

/// Every rule is idempotent: applied to its own result it reports no change
/// and leaves the document as it is.
pub proof fn lemma_rule_idempotent(rule: RuleModel, doc: JsonModel)
    ensures
        apply_rule(rule, apply_rule(rule, doc).doc) == (Patched {
            doc: apply_rule(rule, doc).doc,
            changed: false,
        }),
{
    match rule {
        RuleModel::SetField { path, leaf } => {
            lemma_set_field_idempotent(doc, path, leaf);
        },
        RuleModel::ReplaceStrings { from, to } => {
            lemma_replace_all_idempotent(doc, from, to);
        },
    }
}

/// Every rule reports a change exactly when the document differs afterwards.
pub proof fn lemma_rule_changed(rule: RuleModel, doc: JsonModel)
    ensures
        apply_rule(rule, doc).changed == (apply_rule(rule, doc).doc != doc),
{
    if let RuleModel::SetField { path, leaf } = rule {
        lemma_set_field_changed(doc, path, leaf);
    }
}

impl Leaf {
    /// Whether `doc` already holds this value.
    pub fn is_held_by(&self, doc: &ConfigDocument) -> (held: bool)
        ensures
            held == (doc@ == self@),
    {
        match (self, doc) {
            (Leaf::Text(want), ConfigDocument::String(have)) => *have == *want,
            (Leaf::Flag(want), ConfigDocument::Bool(have)) => *have == *want,
            _ => false,
        }
    }

    /// This value as a document.
    pub fn to_document(&self) -> (doc: ConfigDocument)
        ensures
            doc@ == self@,
            doc.wf(),
    {
        match self {
            Leaf::Text(s) => ConfigDocument::String(s.clone()),
            Leaf::Flag(b) => ConfigDocument::Bool(*b),
        }
    }
}

/// Sets the field at `path[depth..]`, seen from `doc`, to `leaf`.
fn set_leaf(doc: &mut ConfigDocument, path: &Vec<String>, depth: usize, leaf: &Leaf) -> (changed:
    bool)
    requires
        old(doc).wf(),
        depth < path.len(),
    ensures
        final(doc).wf(),
        final(doc)@ == set_field(old(doc)@, path_model(path@).skip(depth as int), leaf@).doc,
        changed == set_field(old(doc)@, path_model(path@).skip(depth as int), leaf@).changed,
        !(old(doc)@ is Object) ==> *final(doc) == *old(doc),
    decreases path.len() - depth,
{
    let ghost keys = path_model(path@).skip(depth as int);
    proof {
        assert(keys[0] == path@[depth as int]@);
        assert(keys.drop_first() =~= path_model(path@).skip(depth + 1));
    }
    match doc {
        ConfigDocument::Object(members) => {
            let ghost before = members@;
            proof {
                lemma_members_domain(before, before.len());
            }
            let last = depth + 1 == path.len();
            match find_member(members, &path[depth]) {
                Some(i) => {
                    proof {
                        lemma_members_lookup(before, before.len(), i as int);
                    }
                    let changed = if last {
                        if leaf.is_held_by(&members[i].1) {
                            false
                        } else {
                            let slot = &mut members[i].1;
                            *slot = leaf.to_document();
                            true
                        }
                    } else {
                        let slot = &mut members[i].1;
                        set_leaf(slot, path, depth + 1, leaf)
                    };
                    proof {
                        assert(members@ =~= before.update(i as int, members@[i as int]));
                        lemma_members_update(before, i as int, members@[i as int], before.len());
                        if !changed {
                            assert(members_model(members@, members@.len()) =~= members_model(
                                before,
                                before.len(),
                            ));
                        }
                    }
                    changed
                },
                None => {
                    let key = path[depth].clone();
                    if last {
                        members.push((key, leaf.to_document()));
                    } else {
                        let mut child = ConfigDocument::Object(Vec::new());
                        proof {
                            lemma_set_field_creates(keys.drop_first(), leaf@);
                        }
                        set_leaf(&mut child, path, depth + 1, leaf);
                        members.push((key, child));
                    }
                    proof {
                        assert(members@ =~= before.push(members@[before.len() as int]));
                        lemma_members_push(before, members@[before.len() as int]);
                    }
                    true
                },
            }
        },
        _ => false,
    }
}

/// Member lists with the same keys, where each value of the second is the
/// replacement of the value of the first, hold a map and its replacement.
proof fn lemma_replaced_members(
    before: Seq<(String, ConfigDocument)>,
    after: Seq<(String, ConfigDocument)>,
    from: Seq<char>,
    to: Seq<char>,
)
    requires
        distinct_keys(before),
        before.len() == after.len(),
        forall|j: int| 0 <= j < after.len() ==> (#[trigger] after[j]).0 == before[j].0,
        forall|j: int|
            0 <= j < after.len() ==> doc_model((#[trigger] after[j]).1) == replace_all(
                doc_model(before[j].1),
                from,
                to,
            ),
    ensures
        distinct_keys(after),
        JsonModel::Object(members_model(after, after.len())) == replace_all(
            JsonModel::Object(members_model(before, before.len())),
            from,
            to,
        ),
{
    assert(distinct_keys(after)) by {
        assert forall|a: int, b: int| 0 <= a < b < after.len() implies (#[trigger] after[a]).0@ != (
        #[trigger] after[b]).0@ by {
            assert(before[a].0@ != before[b].0@);
        }
    }
    let old_map = members_model(before, before.len());
    let new_map = members_model(after, after.len());
    let target = replace_all(JsonModel::Object(old_map), from, to)->Object_0;
    lemma_members_domain(before, before.len());
    lemma_members_domain(after, after.len());
    assert forall|key: Seq<char>| new_map.contains_key(key) == target.contains_key(key) by {
        if new_map.contains_key(key) {
            let j = choose|j: int| 0 <= j < after.len() && (#[trigger] after[j]).0@ == key;
            assert(before[j].0@ == key);
        }
        if old_map.contains_key(key) {
            let j = choose|j: int| 0 <= j < before.len() && (#[trigger] before[j]).0@ == key;
            assert(after[j].0@ == key);
        }
    }
    assert forall|key: Seq<char>| new_map.contains_key(key) implies new_map[key] == target[key] by {
        let j = choose|j: int| 0 <= j < after.len() && (#[trigger] after[j]).0@ == key;
        lemma_members_lookup(before, before.len(), j);
        lemma_members_lookup(after, after.len(), j);
    }
    assert(new_map =~= target);
}

/// Replaces every string equal to `from` by `to`, where the two differ.
fn replace_strings(doc: &mut ConfigDocument, from: &String, to: &String) -> (changed: bool)
    requires
        old(doc).wf(),
        from@ != to@,
    ensures
        final(doc).wf(),
        final(doc)@ == replace_all(old(doc)@, from@, to@),
        changed == (final(doc)@ != old(doc)@),
    decreases *old(doc),
{
    let ghost start = *doc;
    match doc {
        ConfigDocument::String(s) => {
            if *s == *from {
                *s = to.clone();
                true
            } else {
                false
            }
        },
        ConfigDocument::Array(items) => {
            let ghost before = *items;
            let mut changed = false;
            let mut i: usize = 0;
            while i < items.len()
                invariant
                    i <= items.len(),
                    from@ != to@,
                    start == *old(doc),
                    decreases_to!(start => before),
                    items.len() == before.len(),
                    items_wf(before@),
                    items_wf(items@),
                    forall|j: int| i <= j < items.len() ==> items@[j] == before@[j],
                    forall|j: int|
                        0 <= j < i ==> doc_model(#[trigger] items@[j]) == replace_all(
                            doc_model(before@[j]),
                            from@,
                            to@,
                        ),
                    changed ==> exists|j: int|
                        0 <= j < i && doc_model(#[trigger] items@[j]) != doc_model(before@[j]),
                    !changed ==> forall|j: int|
                        0 <= j < i ==> doc_model(#[trigger] items@[j]) == doc_model(before@[j]),
                decreases items.len() - i,
            {
                let ghost mid = items@;
                proof {
                    assert(decreases_to!(before => before[i as int]));
                }
                let slot = &mut items[i];
                let hit = replace_strings(slot, from, to);
                proof {
                    assert(items@ =~= mid.update(i as int, items@[i as int]));
                    if hit {
                        assert(doc_model(items@[i as int]) != doc_model(before@[i as int]));
                    } else if changed {
                        let j = choose|j: int|
                            0 <= j < i && doc_model(#[trigger] mid[j]) != doc_model(before@[j]);
                        assert(items@[j] == mid[j]);
                    }
                }
                if hit {
                    changed = true;
                }
                i += 1;
            }
            proof {
                let target = replace_all(doc_model(start), from@, to@);
                assert(target->Array_0 =~= items_model(items@));
                if changed {
                    let j = choose|j: int|
                        0 <= j < items.len() && doc_model(#[trigger] items@[j]) != doc_model(
                            before@[j],
                        );
                    assert(items_model(items@)[j] != items_model(before@)[j]);
                } else {
                    assert(items_model(items@) =~= items_model(before@));
                }
            }
            changed
        },
        ConfigDocument::Object(members) => {
            let ghost before = *members;
            let mut changed = false;
            let mut i: usize = 0;
            while i < members.len()
                invariant
                    i <= members.len(),
                    from@ != to@,
                    start == *old(doc),
                    decreases_to!(start => before),
                    members.len() == before.len(),
                    members_wf(before@),
                    forall|j: int| 0 <= j < members.len() ==> doc_wf((#[trigger] members@[j]).1),
                    forall|j: int|
                        0 <= j < members.len() ==> (#[trigger] members@[j]).0 == before@[j].0,
                    forall|j: int| i <= j < members.len() ==> members@[j] == before@[j],
                    forall|j: int|
                        0 <= j < i ==> doc_model((#[trigger] members@[j]).1) == replace_all(
                            doc_model(before@[j].1),
                            from@,
                            to@,
                        ),
                    changed ==> exists|j: int|
                        0 <= j < i && doc_model((#[trigger] members@[j]).1) != doc_model(
                            before@[j].1,
                        ),
                    !changed ==> forall|j: int|
                        0 <= j < i ==> doc_model((#[trigger] members@[j]).1) == doc_model(
                            before@[j].1,
                        ),
                decreases members.len() - i,
            {
                let ghost mid = members@;
                proof {
                    assert(decreases_to!(before => before[i as int]));
                    assert(decreases_to!(before[i as int] => before[i as int].1));
                }
                let slot = &mut members[i].1;
                let hit = replace_strings(slot, from, to);
                proof {
                    assert(members@ =~= mid.update(i as int, members@[i as int]));
                    if hit {
                        assert(doc_model(members@[i as int].1) != doc_model(before@[i as int].1));
                    } else if changed {
                        let j = choose|j: int|
                            0 <= j < i && doc_model((#[trigger] mid[j]).1) != doc_model(
                                before@[j].1,
                            );
                        assert(members@[j] == mid[j]);
                    }
                }
                if hit {
                    changed = true;
                }
                i += 1;
            }
            proof {
                lemma_replaced_members(before@, members@, from@, to@);
                if changed {
                    let j = choose|j: int|
                        0 <= j < members.len() && doc_model((#[trigger] members@[j]).1)
                            != doc_model(before@[j].1);
                    lemma_members_lookup(before@, before@.len(), j);
                    lemma_members_lookup(members@, members@.len(), j);
                } else {
                    lemma_members_agree(before@, members@, before@.len());
                }
            }
            changed
        },
        _ => false,
    }
}

/// An owned copy of a borrowed path.
fn owned_path(path: &[&str]) -> (keys: Vec<String>)
    ensures
        path_model(keys@) == keys_of(path@),
{
    let mut keys: Vec<String> = Vec::new();
    let mut i: usize = 0;
    while i < path.len()
        invariant
            i <= path.len(),
            keys.len() == i,
            forall|j: int| 0 <= j < i ==> (#[trigger] keys@[j])@ == path@[j]@,
        decreases path.len() - i,
    {
        keys.push(path[i].to_owned());
        i += 1;
    }
    assert(path_model(keys@) =~= keys_of(path@));
    keys
}

impl PatchRule {
    /// The rule for the state file.
    pub fn state_file() -> (rule: PatchRule)
        ensures
            rule@ == state_file_rule(),
    {
        let mut path: Vec<String> = Vec::new();
        path.push("variations_country".to_owned());
        assert(path_model(path@) =~= seq!["variations_country"@]);
        PatchRule::SetField { path, leaf: Leaf::Text("US".to_owned()) }
    }

    /// The rule for a preference file.
    pub fn preferences() -> (rule: PatchRule)
        ensures
            rule@ == preferences_rule(),
    {
        let mut path: Vec<String> = Vec::new();
        path.push("browser".to_owned());
        path.push("chat_ip_eligibility_status".to_owned());
        assert(path_model(path@) =~= seq!["browser"@, "chat_ip_eligibility_status"@]);
        PatchRule::SetField { path, leaf: Leaf::Flag(true) }
    }

    /// Applies the rule to `doc` in place and says whether `doc` changed. A
    /// field-set rule does not touch a document whose root is not an object.
    pub fn apply(&self, doc: &mut ConfigDocument) -> (changed: bool)
        requires
            old(doc).wf(),
        ensures
            final(doc).wf(),
            final(doc)@ == apply_rule(self@, old(doc)@).doc,
            changed == apply_rule(self@, old(doc)@).changed,
            changed == (final(doc)@ != old(doc)@),
            !(old(doc)@ is Object) && self is SetField ==> *final(doc) == *old(doc),
    {
        match self {
            PatchRule::SetField { path, leaf } => {
                proof {
                    lemma_set_field_changed(doc@, path_model(path@), leaf@);
                    assert(path_model(path@).skip(0) =~= path_model(path@));
                }
                if path.len() == 0 {
                    false
                } else {
                    set_leaf(doc, path, 0, leaf)
                }
            },
            PatchRule::ReplaceStrings { from, to } => {
                if *from == *to {
                    proof {
                        lemma_replace_all_same(doc@, from@);
                    }
                    false
                } else {
                    replace_strings(doc, from, to)
                }
            },
        }
    }
}

/// Sets the string field at `path` to `value`, creating the objects on the way
/// where they are missing. Nothing is written where the field already holds
/// `value`, where the way leads through a member that is not an object, or
/// where the root is not an object.
pub fn set_string_field(doc: &mut ConfigDocument, path: &[&str], value: &str) -> (changed: bool)
    requires
        old(doc).wf(),
    ensures
        final(doc).wf(),
        final(doc)@ == set_field(old(doc)@, keys_of(path@), JsonModel::String(value@)).doc,
        changed == set_field(old(doc)@, keys_of(path@), JsonModel::String(value@)).changed,
        changed == (final(doc)@ != old(doc)@),
        !(old(doc)@ is Object) ==> !changed && *final(doc) == *old(doc),
{
    let rule = PatchRule::SetField { path: owned_path(path), leaf: Leaf::Text(value.to_owned()) };
    rule.apply(doc)
}

/// Sets the boolean field at `path` to `value`, under the rules of
/// [`set_string_field`].
pub fn set_bool_field(doc: &mut ConfigDocument, path: &[&str], value: bool) -> (changed: bool)
    requires
        old(doc).wf(),
    ensures
        final(doc).wf(),
        final(doc)@ == set_field(old(doc)@, keys_of(path@), JsonModel::Bool(value)).doc,
        changed == set_field(old(doc)@, keys_of(path@), JsonModel::Bool(value)).changed,
        changed == (final(doc)@ != old(doc)@),
        !(old(doc)@ is Object) ==> !changed && *final(doc) == *old(doc),
{
    let rule = PatchRule::SetField { path: owned_path(path), leaf: Leaf::Flag(value) };
    rule.apply(doc)
}

/// Replaces every string in the document that equals `from` by `to`, in arrays
/// and objects at any depth, and says whether the document changed.
pub fn replace_all_string_values(doc: &mut ConfigDocument, from: &str, to: &str) -> (changed: bool)
    requires
        old(doc).wf(),
    ensures
        final(doc).wf(),
        final(doc)@ == replace_all(old(doc)@, from@, to@),
        changed == (final(doc)@ != old(doc)@),
{
    let rule = PatchRule::ReplaceStrings { from: from.to_owned(), to: to.to_owned() };
    rule.apply(doc)
}

/// Sets `variations_country` at the root of a state file to `US` and says
/// whether the document changed. A root that is not an object is left alone.
pub fn patch_variations_country(json: &mut ConfigDocument) -> (changed: bool)
    requires
        old(json).wf(),
    ensures
        final(json).wf(),
        final(json)@ == apply_rule(state_file_rule(), old(json)@).doc,
        changed == apply_rule(state_file_rule(), old(json)@).changed,
        changed == (final(json)@ != old(json)@),
        !(old(json)@ is Object) ==> !changed && *final(json) == *old(json),
{
    PatchRule::state_file().apply(json)
}

/// Sets `browser.chat_ip_eligibility_status` of a preference file to `true`,
/// creating `browser` where it is missing, and says whether the document
/// changed. A root or a `browser` that is not an object is left alone.
pub fn set_chat_ip_eligibility_status(json: &mut ConfigDocument) -> (changed: bool)
    requires
        old(json).wf(),
    ensures
        final(json).wf(),
        final(json)@ == apply_rule(preferences_rule(), old(json)@).doc,
        changed == apply_rule(preferences_rule(), old(json)@).changed,
        changed == (final(json)@ != old(json)@),
        !(old(json)@ is Object) ==> !changed && *final(json) == *old(json),
{
    PatchRule::preferences().apply(json)
}

} // verus!
