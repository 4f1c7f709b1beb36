//! The header collection shared by requests and responses.
//!
//! Headers are kept in the order in which their names were first set. Names
//! and values are raw text: nothing here restricts which headers exist or
//! what they hold. A later value for a name replaces the earlier one in place.

use indexmap::IndexMap;
use vstd::prelude::*;
use vstd::string::StringExecFns;

verus! {

/// A header: its name and its value.
pub type Entry = (Seq<char>, Seq<char>);

/// The insertion-ordered map of the `indexmap` crate. What a map holds is
/// known here only through `index_map_entries`.
#[verifier::external_type_specification]
#[verifier::external_body]
#[verifier::reject_recursive_types(K)]
#[verifier::reject_recursive_types(V)]
#[verifier::reject_recursive_types(S)]
pub struct ExIndexMap<K, V, S>(IndexMap<K, V, S>);

/// The key-value pairs that an `indexmap::IndexMap` of texts holds, in its
/// iteration order.
pub uninterp spec fn index_map_entries(m: IndexMap<String, String>) -> Seq<Entry>;

/// The first index whose entry is named `name`, or the length when there is
/// none.
pub open spec fn name_index(entries: Seq<Entry>, name: Seq<char>) -> int
    decreases entries.len(),
{
    if entries.len() == 0 {
        0
    } else if entries[0].0 == name {
        0
    } else {
        1 + name_index(entries.skip(1), name)
    }
}

/// The value stored under `name`, if any.
pub open spec fn lookup(entries: Seq<Entry>, name: Seq<char>) -> Option<Seq<char>> {
    let i = name_index(entries, name);
    if i < entries.len() {
        Some(entries[i].1)
    } else {
        None
    }
}

/// The entries after `name` is set to `value`: replaced in place when the
/// name is present, added last when it is not.
pub open spec fn upsert(entries: Seq<Entry>, name: Seq<char>, value: Seq<char>) -> Seq<Entry> {
    let i = name_index(entries, name);
    if i < entries.len() {
        entries.update(i, (name, value))
    } else {
        entries.push((name, value))
    }
}

/// No two entries share a name.
pub open spec fn distinct_names(entries: Seq<Entry>) -> bool {
    forall|i: int, j: int|
        0 <= i < j < entries.len() ==> (#[trigger] entries[i]).0 != (#[trigger] entries[j]).0
}

/// The serialized form of the entries: one `name: value` line each, every
/// line ended by CR LF.
pub open spec fn header_lines(entries: Seq<Entry>) -> Seq<char>
    decreases entries.len(),
{
    if entries.len() == 0 {
        Seq::<char>::empty()
    } else {
        header_lines(entries.drop_last()) + entries.last().0 + seq![':', ' '] + entries.last().1
            + seq!['\r', '\n']
    }
}

/// `name_index` is the least index with the name, or the length.
pub proof fn lemma_name_index(entries: Seq<Entry>, name: Seq<char>)
    ensures
        0 <= name_index(entries, name) <= entries.len(),
        forall|j: int| 0 <= j < name_index(entries, name) ==> entries[j].0 != name,
        name_index(entries, name) < entries.len() ==> entries[name_index(entries, name)].0 == name,
    decreases entries.len(),
{
    if entries.len() == 0 {
    } else if entries[0].0 == name {
    } else {
        let rest = entries.skip(1);
        lemma_name_index(rest, name);
        let k = name_index(rest, name);
        assert forall|j: int| 0 <= j < 1 + k implies entries[j].0 != name by {
            if j > 0 {
                assert(rest[j - 1] == entries[j]);
            }
        }
        if k < rest.len() {
            assert(rest[k] == entries[k + 1]);
        }
    }
}

/// An index that holds the name with none before it is the one `name_index`
/// returns; so is the length when the name is absent.
pub proof fn lemma_name_index_is(entries: Seq<Entry>, name: Seq<char>, i: int)
    requires
        0 <= i <= entries.len(),
        forall|j: int| 0 <= j < i ==> entries[j].0 != name,
        i < entries.len() ==> entries[i].0 == name,
    ensures
        name_index(entries, name) == i,
{
    lemma_name_index(entries, name);
}

/// Setting a header keeps names distinct, stores the value under the name,
/// and leaves every other name as it was.
pub proof fn lemma_upsert(entries: Seq<Entry>, name: Seq<char>, value: Seq<char>)
    ensures
        distinct_names(entries) ==> distinct_names(upsert(entries, name, value)),
        lookup(upsert(entries, name, value), name) == Some(value),
        forall|other: Seq<char>|
            other != name ==> #[trigger] lookup(upsert(entries, name, value), other) == lookup(
                entries,
                other,
            ),
{
    let after = upsert(entries, name, value);
    let i = name_index(entries, name);
    lemma_name_index(entries, name);
    lemma_name_index_is(after, name, i);
    assert forall|other: Seq<char>| other != name implies #[trigger] lookup(after, other)
        == lookup(entries, other) by {
        let k = name_index(entries, other);
        lemma_name_index(entries, other);
        if k < entries.len() {
            assert(after[k] == entries[k]);
            lemma_name_index_is(after, other, k);
        } else {
            lemma_name_index_is(after, other, after.len() as int);
        }
    }
}

/// `indexmap::IndexMap::new`: the new map holds nothing.
#[verifier::external_body]
fn index_map_new() -> (m: IndexMap<String, String>)
    ensures
        index_map_entries(m) == Seq::<Entry>::empty(),
{
    IndexMap::new()
}

/// `indexmap::IndexMap::insert`: when the key is present its value is
/// replaced and the pair keeps its place; when it is absent the pair is added
/// last.
#[verifier::external_body]
fn index_map_insert(m: &mut IndexMap<String, String>, name: &str, value: &str)
    ensures
        index_map_entries(*final(m)) == upsert(index_map_entries(*old(m)), name@, value@),
{
    m.insert(name.to_string(), value.to_string());
}

/// `indexmap::IndexMap::get`: the value stored under the key, if the key is
/// present.
#[verifier::external_body]
fn index_map_get<'a>(m: &'a IndexMap<String, String>, name: &str) -> (r: Option<&'a String>)
    ensures
        match lookup(index_map_entries(*m), name@) {
            Some(v) => r is Some && r.unwrap()@ == v,
            None => r is None,
        },
{
    m.get(name)
}

/// `indexmap::IndexMap::len`: the number of pairs.
#[verifier::external_body]
fn index_map_len(m: &IndexMap<String, String>) -> (n: usize)
    ensures
        n == index_map_entries(*m).len(),
{
    m.len()
}

/// `indexmap::IndexMap::get_index`: the pair at a position of the iteration
/// order, for every position below the length.
#[verifier::external_body]
fn index_map_get_index<'a>(m: &'a IndexMap<String, String>, i: usize) -> (r: Option<
    (&'a String, &'a String),
>)
    ensures
        r is Some <==> i < index_map_entries(*m).len(),
        r matches Some(pair) ==> pair.0@ == index_map_entries(*m)[i as int].0 && pair.1@
            == index_map_entries(*m)[i as int].1,
{
    m.get_index(i)
}

/// An ordered collection of headers.
pub struct HttpHeaders {
    headers: IndexMap<String, String>,
}

impl View for HttpHeaders {
    type V = Seq<Entry>;

    closed spec fn view(&self) -> Seq<Entry> {
        index_map_entries(self.headers)
    }
}

impl HttpHeaders {
    /// No two headers share a name. Every collection built by `new` and
    /// changed by `set_raw` is well formed.
    pub open spec fn wf(&self) -> bool {
        distinct_names(self@)
    }

    /// An empty collection.
    pub fn new() -> (h: HttpHeaders)
        ensures
            h@ == Seq::<Entry>::empty(),
            h.wf(),
    {
        HttpHeaders { headers: index_map_new() }
    }

    /// Sets the header `name` to `value`. A header of that name keeps its
    /// place and takes the new value; a new name is added last.
    pub fn set_raw(&mut self, name: &str, value: &str)
        ensures
            final(self)@ == upsert(old(self)@, name@, value@),
            old(self).wf() ==> final(self).wf(),
    {
        proof {
            lemma_upsert(self@, name@, value@);
        }
        index_map_insert(&mut self.headers, name, value);
    }

    /// The value of the header `name`, if it is set.
    pub fn get(&self, name: &str) -> (r: Option<&String>)
        ensures
            match lookup(self@, name@) {
                Some(v) => r is Some && r.unwrap()@ == v,
                None => r is None,
            },
    {
        index_map_get(&self.headers, name)
    }

    /// The headers in serialized form, in their order.
    pub fn stringify(&self) -> (s: String)
        ensures
            s@ == header_lines(self@),
    {
        let mut result = String::new();
        let n: usize = index_map_len(&self.headers);
        let mut i: usize = 0;
        while i < n
            invariant
                i <= n == self@.len(),
                result@ == header_lines(self@.take(i as int)),
            decreases n - i,
        {
            match index_map_get_index(&self.headers, i) {
                Some((name, value)) => {
                    proof {
                        reveal_strlit(": ");
                        reveal_strlit("\r\n");
                        let t = self@.take(i + 1);
                        assert(t.drop_last() =~= self@.take(i as int));
                        assert(t.last() == self@[i as int]);
                        assert(": "@ =~= seq![':', ' ']);
                        assert("\r\n"@ =~= seq!['\r', '\n']);
                    }
                    result.append(name.as_str());
                    result.append(": ");
                    result.append(value.as_str());
                    result.append("\r\n");
                },
                None => {},
            }
            i = i + 1;
        }
        assert(self@.take(n as int) =~= self@);
        result
    }
}

} // verus!
