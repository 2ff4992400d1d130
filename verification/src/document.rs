//! The in-memory JSON document and its mathematical model.

use vstd::prelude::*;

verus! {

/// `serde_json::Number`, carried through unread so that numeric fields of a
/// document keep their exact value.
#[verifier::external_type_specification]
#[verifier::external_body]
pub struct ExNumber(serde_json::Number);

/// `Clone` for `serde_json::Number` is derived in that crate: the copy equals
/// the number it was made from.
pub assume_specification[ <serde_json::Number as Clone>::clone ](
    n: &serde_json::Number,
) -> (r: serde_json::Number)
    ensures
        r == *n,
;

/// A JSON value as a mathematical tree. Objects are maps: the order of their
/// members carries no meaning.
pub enum JsonModel {
    Null,
    Bool(bool),
    Number(serde_json::Number),
    String(Seq<char>),
    Array(Seq<JsonModel>),
    Object(Map<Seq<char>, JsonModel>),
}

/// A JSON value held in memory. An object is a list of members whose keys are
/// pairwise distinct (see [`ConfigDocument::wf`]).
#[derive(Debug, PartialEq)]
pub enum ConfigDocument {
    Null,
    Bool(bool),
    Number(serde_json::Number),
    String(String),
    Array(Vec<ConfigDocument>),
    Object(Vec<(String, ConfigDocument)>),
}

/// No two members share a key.
pub open spec fn distinct_keys(members: Seq<(String, ConfigDocument)>) -> bool {
    forall|i: int, j: int|
        0 <= i < j < members.len() ==> (#[trigger] members[i]).0@ != (#[trigger] members[j]).0@
}

/// The models of the elements of an array, in order.
pub open spec fn items_model(items: Seq<ConfigDocument>) -> Seq<JsonModel>
    decreases items, 0nat,
{
    Seq::new(
        items.len(),
        |i: int|
            if 0 <= i < items.len() {
                doc_model(items[i])
            } else {
                JsonModel::Null
            },
    )
}

/// The map held by the first `n` members of an object.
pub open spec fn members_model(members: Seq<(String, ConfigDocument)>, n: nat) -> Map<
    Seq<char>,
    JsonModel,
>
    decreases members, n,
{
    if n == 0 || n > members.len() {
        Map::empty()
    } else {
        members_model(members, (n - 1) as nat).insert(
            members[n - 1].0@,
            doc_model(members[n - 1].1),
        )
    }
}

/// The mathematical tree that a document stands for.
pub open spec fn doc_model(doc: ConfigDocument) -> JsonModel
    decreases doc, 0nat,
{
    match doc {
        ConfigDocument::Null => JsonModel::Null,
        ConfigDocument::Bool(b) => JsonModel::Bool(b),
        ConfigDocument::Number(n) => JsonModel::Number(n),
        ConfigDocument::String(s) => JsonModel::String(s@),
        ConfigDocument::Array(items) => JsonModel::Array(items_model(items@)),
        ConfigDocument::Object(members) => JsonModel::Object(
            members_model(members@, members@.len()),
        ),
    }
}

/// Every element of an array keeps the invariant.
pub open spec fn items_wf(items: Seq<ConfigDocument>) -> bool
    decreases items, 0nat,
{
    forall|i: int| 0 <= i < items.len() ==> doc_wf(#[trigger] items[i])
}

/// The members of an object have pairwise distinct keys, and every value keeps
/// the invariant.
pub open spec fn members_wf(members: Seq<(String, ConfigDocument)>) -> bool
    decreases members, 0nat,
{
    distinct_keys(members) && forall|i: int|
        0 <= i < members.len() ==> doc_wf((#[trigger] members[i]).1)
}

/// Every object in the document, at any depth, has pairwise distinct keys.
pub open spec fn doc_wf(doc: ConfigDocument) -> bool
    decreases doc, 0nat,
{
    match doc {
        ConfigDocument::Array(items) => items_wf(items@),
        ConfigDocument::Object(members) => members_wf(members@),
        _ => true,
    }
}

impl View for ConfigDocument {
    type V = JsonModel;

    open spec fn view(&self) -> JsonModel {
        doc_model(*self)
    }
}

impl ConfigDocument {
    /// The invariant of the type.
    pub open spec fn wf(self) -> bool {
        doc_wf(self)
    }
}

/// The first `n` members hold exactly the keys that occur among them, and
/// finitely many.
pub proof fn lemma_members_domain(members: Seq<(String, ConfigDocument)>, n: nat)
    requires
        n <= members.len(),
    ensures
        members_model(members, n).dom().finite(),
        forall|k: Seq<char>| #[trigger]
            members_model(members, n).contains_key(k) <==> exists|i: int|
                0 <= i < n && (#[trigger] members[i]).0@ == k,
    decreases n,
{
    if n > 0 {
        lemma_members_domain(members, (n - 1) as nat);
        let before = members_model(members, (n - 1) as nat);
        assert forall|k: Seq<char>| #[trigger]
            members_model(members, n).contains_key(k) <==> exists|i: int|
                0 <= i < n && (#[trigger] members[i]).0@ == k by {
            if members_model(members, n).contains_key(k) {
                if k == members[n - 1].0@ {
                } else {
                    assert(before.contains_key(k));
                }
            }
            if exists|i: int| 0 <= i < n && (#[trigger] members[i]).0@ == k {
                let i = choose|i: int| 0 <= i < n && (#[trigger] members[i]).0@ == k;
                if i < n - 1 {
                    assert(before.contains_key(k));
                }
            }
        }
    }
}

/// With distinct keys, each of the first `n` members is found under its key.
pub proof fn lemma_members_lookup(members: Seq<(String, ConfigDocument)>, n: nat, i: int)
    requires
        distinct_keys(members),
        0 <= i < n <= members.len(),
    ensures
        members_model(members, n).contains_key(members[i].0@),
        members_model(members, n)[members[i].0@] == doc_model(members[i].1),
    decreases n,
{
    if i < n - 1 {
        lemma_members_lookup(members, (n - 1) as nat, i);
        assert(members[i].0@ != members[n - 1].0@);
    }
}

/// Two member lists that agree on the keys and on the models of the values of
/// their first `n` members hold the same map there.
pub proof fn lemma_members_agree(
    a: Seq<(String, ConfigDocument)>,
    b: Seq<(String, ConfigDocument)>,
    n: nat,
)
    requires
        n <= a.len(),
        n <= b.len(),
        forall|i: int|
            0 <= i < n ==> (#[trigger] a[i]).0@ == b[i].0@ && doc_model(a[i].1) == doc_model(
                b[i].1,
            ),
    ensures
        members_model(a, n) == members_model(b, n),
    decreases n,
{
    if n > 0 {
        lemma_members_agree(a, b, (n - 1) as nat);
        assert(a[n - 1].0@ == b[n - 1].0@);
    }
}

/// Replacing the value of member `i`, under the same key, is an insert into
/// the map.
pub proof fn lemma_members_update(
    members: Seq<(String, ConfigDocument)>,
    i: int,
    entry: (String, ConfigDocument),
    n: nat,
)
    requires
        distinct_keys(members),
        0 <= i < n <= members.len(),
        entry.0@ == members[i].0@,
    ensures
        distinct_keys(members.update(i, entry)),
        members_model(members.update(i, entry), n) == members_model(members, n).insert(
            entry.0@,
            doc_model(entry.1),
        ),
    decreases n,
{
    let updated = members.update(i, entry);
    assert(distinct_keys(updated)) by {
        assert forall|a: int, b: int| 0 <= a < b < updated.len() implies (#[trigger] updated[a]).0@
            != (#[trigger] updated[b]).0@ by {
            assert(updated[a].0@ == members[a].0@);
            assert(updated[b].0@ == members[b].0@);
        }
    }
    if n == i + 1 {
        lemma_members_agree(members, updated, i as nat);
        assert(members_model(updated, n) =~= members_model(members, n).insert(
            entry.0@,
            doc_model(entry.1),
        ));
    } else {
        lemma_members_update(members, i, entry, (n - 1) as nat);
        assert(members[i].0@ != members[n - 1].0@);
        assert(updated[n - 1] == members[n - 1]);
        assert(members_model(updated, n) =~= members_model(members, n).insert(
            entry.0@,
            doc_model(entry.1),
        ));
    }
}

/// Appending a member is an insert into the map.
pub proof fn lemma_members_push(
    members: Seq<(String, ConfigDocument)>,
    entry: (String, ConfigDocument),
)
    ensures
        members_model(members.push(entry), members.len() + 1) == members_model(
            members,
            members.len(),
        ).insert(entry.0@, doc_model(entry.1)),
{
    lemma_members_agree(members, members.push(entry), members.len());
}

/// The position of the first member with the given key, if there is one.
pub fn find_member(members: &Vec<(String, ConfigDocument)>, key: &String) -> (found: Option<usize>)
    ensures
        match found {
            Some(i) => i < members.len() && members[i as int].0@ == key@ && forall|j: int|
                0 <= j < i ==> (#[trigger] members[j]).0@ != key@,
            None => forall|j: int| 0 <= j < members.len() ==> (#[trigger] members[j]).0@ != key@,
        },
{
    let mut i: usize = 0;
    while i < members.len()
        invariant
            i <= members.len(),
            forall|j: int| 0 <= j < i ==> (#[trigger] members[j]).0@ != key@,
        decreases members.len() - i,
    {
        if members[i].0 == *key {
            return Some(i);
        }
        i += 1;
    }
    None
}

impl ConfigDocument {
    /// The member of an object under `key`; `None` where the document is not an
    /// object or has no such member.
    pub fn get(&self, key: &str) -> (found: Option<&ConfigDocument>)
        requires
            self.wf(),
        ensures
            match found {
                Some(value) => self@ matches JsonModel::Object(members) && members.contains_key(
                    key@,
                ) && members[key@] == value@ && value.wf(),
                None => !(self@ matches JsonModel::Object(members) && members.contains_key(key@)),
            },
    {
        match self {
            ConfigDocument::Object(members) => {
                let key = key.to_owned();
                proof {
                    lemma_members_domain(members@, members@.len());
                }
                match find_member(members, &key) {
                    Some(i) => {
                        proof {
                            lemma_members_lookup(members@, members@.len(), i as int);
                        }
                        Some(&members[i].1)
                    },
                    None => None,
                }
            },
            _ => None,
        }
    }

    /// An object without members.
    pub fn empty_object() -> (doc: ConfigDocument)
        ensures
            doc.wf(),
            doc@ == JsonModel::Object(Map::empty()),
    {
        ConfigDocument::Object(Vec::new())
    }

    /// Puts `value` under `key` into an object, in place of what was there, and
    /// says whether the document is an object. Any other document stays as it
    /// is.
    pub fn set_member(&mut self, key: &str, value: ConfigDocument) -> (done: bool)
        requires
            old(self).wf(),
            value.wf(),
        ensures
            final(self).wf(),
            done == (old(self)@ is Object),
            match old(self)@ {
                JsonModel::Object(members) => final(self)@ == JsonModel::Object(
                    members.insert(key@, value@),
                ),
                _ => *final(self) == *old(self),
            },
    {
        match self {
            ConfigDocument::Object(members) => {
                let ghost before = members@;
                let key = key.to_owned();
                match find_member(members, &key) {
                    Some(i) => {
                        let slot = &mut members[i].1;
                        *slot = value;
                        proof {
                            lemma_members_update(
                                before,
                                i as int,
                                members@[i as int],
                                before.len(),
                            );
                            assert(members@ =~= before.update(i as int, members@[i as int]));
                        }
                    },
                    None => {
                        members.push((key, value));
                        proof {
                            lemma_members_push(before, members@[before.len() as int]);
                            assert(members@ =~= before.push(members@[before.len() as int]));
                        }
                    },
                }
                true
            },
            _ => false,
        }
    }

    /// Whether the document keeps the invariant of the type: no object in it
    /// has two members with the same key.
    pub fn is_wf(&self) -> (ok: bool)
        ensures
            ok == self.wf(),
        decreases *self,
    {
        match self {
            ConfigDocument::Array(items) => {
                let mut i: usize = 0;
                while i < items.len()
                    invariant
                        i <= items.len(),
                        *self == ConfigDocument::Array(*items),
                        decreases_to!(*self => *items),
                        forall|j: int| 0 <= j < i ==> doc_wf(#[trigger] items@[j]),
                    decreases items.len() - i,
                {
                    proof {
                        assert(decreases_to!(*items => items[i as int]));
                    }
                    if !items[i].is_wf() {
                        return false;
                    }
                    i += 1;
                }
                true
            },
            ConfigDocument::Object(members) => {
                let mut i: usize = 0;
                while i < members.len()
                    invariant
                        i <= members.len(),
                        *self == ConfigDocument::Object(*members),
                        decreases_to!(*self => *members),
                        forall|j: int| 0 <= j < i ==> doc_wf((#[trigger] members@[j]).1),
                        forall|a: int, b: int|
                            0 <= a < b < i ==> (#[trigger] members@[a]).0@ != (
                            #[trigger] members@[b]).0@,
                    decreases members.len() - i,
                {
                    proof {
                        assert(decreases_to!(*members => members[i as int]));
                        assert(decreases_to!(members[i as int] => members[i as int].1));
                    }
                    if !members[i].1.is_wf() {
                        return false;
                    }
                    let mut k: usize = 0;
                    while k < i
                        invariant
                            k <= i < members.len(),
                            *self == ConfigDocument::Object(*members),
                            forall|a: int|
                                0 <= a < k ==> (#[trigger] members@[a]).0@ != members@[i as int].0@,
                        decreases i - k,
                    {
                        if members[k].0 == members[i].0 {
                            return false;
                        }
                        k += 1;
                    }
                    i += 1;
                }
                true
            },
            _ => true,
        }
    }

    /// The string that the document is, if it is one.
    pub fn as_str(&self) -> (text: Option<&str>)
        ensures
            match text {
                Some(s) => self@ == JsonModel::String(s@),
                None => !(self@ is String),
            },
    {
        match self {
            ConfigDocument::String(s) => Some(s.as_str()),
            _ => None,
        }
    }

    /// The boolean that the document is, if it is one.
    pub fn as_bool(&self) -> (flag: Option<bool>)
        ensures
            match flag {
                Some(b) => self@ == JsonModel::Bool(b),
                None => !(self@ is Bool),
            },
    {
        match self {
            ConfigDocument::Bool(b) => Some(*b),
            _ => None,
        }
    }
}

impl Clone for ConfigDocument {
    /// A copy that stands for the same JSON value.
    fn clone(&self) -> (copy: Self)
        ensures
            copy@ == self@,
            self.wf() ==> copy.wf(),
        decreases *self,
    {
        match self {
            ConfigDocument::Null => ConfigDocument::Null,
            ConfigDocument::Bool(b) => ConfigDocument::Bool(*b),
            ConfigDocument::Number(n) => ConfigDocument::Number(n.clone()),
            ConfigDocument::String(s) => ConfigDocument::String(s.clone()),
            ConfigDocument::Array(items) => {
                let mut out: Vec<ConfigDocument> = Vec::new();
                let mut i: usize = 0;
                while i < items.len()
                    invariant
                        i <= items.len(),
                        out.len() == i,
                        decreases_to!(*self => *items),
                        forall|j: int|
                            0 <= j < i ==> doc_model(#[trigger] out@[j]) == doc_model(items@[j]),
                        forall|j: int|
                            0 <= j < i && doc_wf(items@[j]) ==> doc_wf(#[trigger] out@[j]),
                    decreases items.len() - i,
                {
                    proof {
                        assert(decreases_to!(*items => items[i as int]));
                    }
                    let item = items[i].clone();
                    out.push(item);
                    i += 1;
                }
                assert(items_model(out@) =~= items_model(items@));
                ConfigDocument::Array(out)
            },
            ConfigDocument::Object(members) => {
                let mut out: Vec<(String, ConfigDocument)> = Vec::new();
                let mut i: usize = 0;
                while i < members.len()
                    invariant
                        i <= members.len(),
                        out.len() == i,
                        decreases_to!(*self => *members),
                        forall|j: int|
                            0 <= j < i ==> (#[trigger] out@[j]).0@ == members@[j].0@ && doc_model(
                                out@[j].1,
                            ) == doc_model(members@[j].1),
                        forall|j: int|
                            0 <= j < i && doc_wf(members@[j].1) ==> doc_wf((#[trigger] out@[j]).1),
                    decreases members.len() - i,
                {
                    proof {
                        assert(decreases_to!(*members => members[i as int]));
                        assert(decreases_to!(members[i as int] => members[i as int].1));
                    }
                    let key = members[i].0.clone();
                    let item = members[i].1.clone();
                    out.push((key, item));
                    i += 1;
                }
                proof {
                    lemma_members_agree(out@, members@, members@.len());
                    if self.wf() {
                        assert forall|a: int, b: int| 0 <= a < b < out@.len() implies (
                        #[trigger] out@[a]).0@ != (#[trigger] out@[b]).0@ by {
                            assert(members@[a].0@ != members@[b].0@);
                        }
                    }
                }
                ConfigDocument::Object(out)
            },
        }
    }
}

} // verus!
