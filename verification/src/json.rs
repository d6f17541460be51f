//! A JSON document model for the settings store and the messages exchanged
//! with the user interface, with lookups and updates along dotted key paths.

use vstd::prelude::*;

verus! {

/// A JSON number: a non-negative integer, a negative integer, or any other
/// number kept as its JSON text.
#[derive(Debug, PartialEq)]
pub enum JsonNumber {
    PosInt(u64),
    NegInt(i64),
    Float(String),
}

/// A JSON value. Object members are kept in order; a lookup finds the first
/// member with the key asked for.
#[derive(Debug, PartialEq)]
pub enum Json {
    Null,
    Bool(bool),
    Number(JsonNumber),
    String(String),
    Array(Vec<Json>),
    Object(Vec<(String, Json)>),
}

/// The mathematical form of a JSON number.
pub enum NumberV {
    PosInt(u64),
    NegInt(i64),
    Float(Seq<char>),
}

/// The mathematical form of a JSON value.
pub enum JsonV {
    Null,
    Bool(bool),
    Number(NumberV),
    Str(Seq<char>),
    Array(Seq<JsonV>),
    Object(Seq<(Seq<char>, JsonV)>),
}

impl JsonNumber {
    pub open spec fn view(&self) -> NumberV {
        match self {
            JsonNumber::PosInt(n) => NumberV::PosInt(*n),
            JsonNumber::NegInt(n) => NumberV::NegInt(*n),
            JsonNumber::Float(s) => NumberV::Float(s@),
        }
    }
}

impl Json {
    pub open spec fn view(&self) -> JsonV
        decreases self,
    {
        match self {
            Json::Null => JsonV::Null,
            Json::Bool(b) => JsonV::Bool(*b),
            Json::Number(n) => JsonV::Number(n.view()),
            Json::String(s) => JsonV::Str(s@),
            Json::Array(v) => JsonV::Array(items_view(v@)),
            Json::Object(es) => JsonV::Object(entries_view(es@)),
        }
    }
}

pub open spec fn items_view(s: Seq<Json>) -> Seq<JsonV>
    decreases s,
{
    if s.len() == 0 {
        Seq::empty()
    } else {
        items_view(s.drop_last()).push(s.last().view())
    }
}

pub open spec fn entries_view(s: Seq<(String, Json)>) -> Seq<(Seq<char>, JsonV)>
    decreases s,
{
    if s.len() == 0 {
        Seq::empty()
    } else {
        entries_view(s.drop_last()).push((s.last().0@, s.last().1.view()))
    }
}

pub proof fn lemma_entries_view(s: Seq<(String, Json)>)
    ensures
        entries_view(s).len() == s.len(),
        forall|i: int| 0 <= i < s.len() ==> #[trigger] entries_view(s)[i] == (s[i].0@, s[i].1.view()),
    decreases s.len(),
{
    if s.len() > 0 {
        lemma_entries_view(s.drop_last());
        assert forall|i: int| 0 <= i < s.len() implies #[trigger] entries_view(s)[i] == (s[i].0@, s[i].1.view()) by {
            if i < s.len() - 1 {
                assert(entries_view(s)[i] == entries_view(s.drop_last())[i]);
            }
        }
    }
}

/// The position of the first member of `es` whose key is `key`.
pub open spec fn entry_index(es: Seq<(Seq<char>, JsonV)>, key: Seq<char>) -> Option<int>
    decreases es.len(),
{
    if es.len() == 0 {
        None
    } else {
        match entry_index(es.drop_last(), key) {
            Some(i) => Some(i),
            None => if es.last().0 == key { Some(es.len() - 1) } else { None },
        }
    }
}

pub proof fn lemma_entry_index(es: Seq<(Seq<char>, JsonV)>, key: Seq<char>)
    ensures
        match entry_index(es, key) {
            Some(i) => 0 <= i < es.len() && es[i].0 == key
                && forall|k: int| 0 <= k < i ==> (#[trigger] es[k]).0 != key,
            None => forall|k: int| 0 <= k < es.len() ==> (#[trigger] es[k]).0 != key,
        },
    decreases es.len(),
{
    if es.len() > 0 {
        let p = es.drop_last();
        lemma_entry_index(p, key);
        assert forall|k: int| 0 <= k < p.len() implies #[trigger] p[k] == es[k] by {}
        match entry_index(p, key) {
            Some(i) => {
                assert(entry_index(es, key) == Some(i));
                assert forall|k: int| 0 <= k < i implies (#[trigger] es[k]).0 != key by {
                    assert(p[k] == es[k]);
                }
            },
            None => {
                if es.last().0 == key {
                    assert forall|k: int| 0 <= k < es.len() - 1 implies (#[trigger] es[k]).0 != key by {
                        assert(p[k] == es[k]);
                    }
                } else {
                    assert forall|k: int| 0 <= k < es.len() implies (#[trigger] es[k]).0 != key by {
                        if k < p.len() {
                            assert(p[k] == es[k]);
                        }
                    }
                }
            },
        }
    }
}

/// The member `key` of an object; `Null` when it is absent or `j` is not an
/// object (what indexing a JSON value by a string gives).
pub open spec fn member(j: JsonV, key: Seq<char>) -> JsonV {
    match j {
        JsonV::Object(es) => match entry_index(es, key) {
            Some(i) => es[i].1,
            None => JsonV::Null,
        },
        _ => JsonV::Null,
    }
}

/// The value reached by looking up each key of `path` in turn.
pub open spec fn at(j: JsonV, path: Seq<Seq<char>>) -> JsonV
    decreases path.len(),
{
    if path.len() == 0 {
        j
    } else {
        at(member(j, path[0]), path.drop_first())
    }
}

/// Whether `path` can be written into `j`: every value met along it is an
/// object or `Null` (a missing member counts as `Null`). Writing through any
/// other value is refused.
pub open spec fn settable(j: JsonV, path: Seq<Seq<char>>) -> bool
    decreases path.len(),
{
    if path.len() == 0 {
        true
    } else {
        match j {
            JsonV::Null => true,
            JsonV::Object(es) => match entry_index(es, path[0]) {
                Some(i) => settable(es[i].1, path.drop_first()),
                None => true,
            },
            _ => false,
        }
    }
}

/// `j` with `v` written at `path`: each `Null` met along the path becomes an
/// empty object, and a missing member is appended (holding `Null` before the
/// write goes on below it).
pub open spec fn put(j: JsonV, path: Seq<Seq<char>>, v: JsonV) -> JsonV
    decreases path.len(),
{
    if path.len() == 0 {
        v
    } else {
        let es = match j {
            JsonV::Object(es) => es,
            _ => Seq::empty(),
        };
        match entry_index(es, path[0]) {
            Some(i) => JsonV::Object(es.update(i, (es[i].0, put(es[i].1, path.drop_first(), v)))),
            None => JsonV::Object(es.push((path[0], put(JsonV::Null, path.drop_first(), v)))),
        }
    }
}

proof fn lemma_entry_index_same_keys(a: Seq<(Seq<char>, JsonV)>, b: Seq<(Seq<char>, JsonV)>, key: Seq<char>)
    requires
        a.len() == b.len(),
        forall|k: int| 0 <= k < a.len() ==> (#[trigger] a[k]).0 == b[k].0,
    ensures
        entry_index(a, key) == entry_index(b, key),
{
    lemma_entry_index(a, key);
    lemma_entry_index(b, key);
    match entry_index(a, key) {
        Some(i) => {
            assert(b[i].0 == key);
            match entry_index(b, key) {
                Some(j) => {
                    if j < i {
                        assert(a[j].0 == b[j].0);
                    }
                    if i < j {
                        assert(a[i].0 == b[i].0);
                    }
                },
                None => {},
            }
        },
        None => {
            match entry_index(b, key) {
                Some(j) => {
                    assert(a[j].0 == b[j].0);
                },
                None => {},
            }
        },
    }
}

proof fn lemma_entry_index_push(es: Seq<(Seq<char>, JsonV)>, e: (Seq<char>, JsonV), key: Seq<char>)
    ensures
        entry_index(es.push(e), key) == match entry_index(es, key) {
            Some(i) => Some(i),
            None => if e.0 == key { Some(es.len() as int) } else { None },
        },
{
    assert(es.push(e).drop_last() =~= es);
}

/// Writing at a path and then reading the first key of the path gives the
/// old member with the rest of the path written into it.
pub proof fn lemma_member_put(j: JsonV, p: Seq<Seq<char>>, v: JsonV)
    requires
        p.len() > 0,
    ensures
        member(put(j, p, v), p[0]) == put(member(j, p[0]), p.drop_first(), v),
{
    let es = match j {
        JsonV::Object(es) => es,
        _ => Seq::empty(),
    };
    lemma_entry_index(es, p[0]);
    match entry_index(es, p[0]) {
        Some(i) => {
            let es2 = es.update(i, (es[i].0, put(es[i].1, p.drop_first(), v)));
            lemma_entry_index_same_keys(es, es2, p[0]);
        },
        None => {
            lemma_entry_index_push(es, (p[0], put(JsonV::Null, p.drop_first(), v)), p[0]);
            assert(member(j, p[0]) == JsonV::Null);
        },
    }
}

/// Writing at a path leaves every member whose key is not the path's first
/// key as it was.
pub proof fn lemma_member_put_other(j: JsonV, p: Seq<Seq<char>>, v: JsonV, key: Seq<char>)
    requires
        p.len() > 0,
        key != p[0],
    ensures
        member(put(j, p, v), key) == member(j, key),
{
    let es = match j {
        JsonV::Object(es) => es,
        _ => Seq::empty(),
    };
    lemma_entry_index(es, p[0]);
    lemma_entry_index(es, key);
    match entry_index(es, p[0]) {
        Some(i) => {
            let es2 = es.update(i, (es[i].0, put(es[i].1, p.drop_first(), v)));
            lemma_entry_index_same_keys(es, es2, key);
            match entry_index(es, key) {
                Some(k) => {
                    assert(k != i);
                },
                None => {},
            }
        },
        None => {
            lemma_entry_index_push(es, (p[0], put(JsonV::Null, p.drop_first(), v)), key);
        },
    }
}

/// Law: a value written at a path is what a lookup of that path reads.
pub proof fn lemma_at_put(j: JsonV, p: Seq<Seq<char>>, v: JsonV)
    ensures
        at(put(j, p, v), p) == v,
    decreases p.len(),
{
    if p.len() > 0 {
        lemma_member_put(j, p, v);
        lemma_at_put(member(j, p[0]), p.drop_first(), v);
    }
}

/// Law: a write at a path changes no lookup of a path that neither extends
/// it nor is extended by it.
pub proof fn lemma_at_put_other(j: JsonV, p: Seq<Seq<char>>, v: JsonV, q: Seq<Seq<char>>)
    requires
        !p.is_prefix_of(q),
        !q.is_prefix_of(p),
    ensures
        at(put(j, p, v), q) == at(j, q),
    decreases q.len(),
{
    assert(p.len() > 0 && q.len() > 0) by {
        if p.len() == 0 {
            assert(p.is_prefix_of(q));
        }
        if q.len() == 0 {
            assert(q.is_prefix_of(p));
        }
    }
    if q[0] != p[0] {
        lemma_member_put_other(j, p, v, q[0]);
    } else {
        lemma_member_put(j, p, v);
        let p1 = p.drop_first();
        let q1 = q.drop_first();
        assert(!p1.is_prefix_of(q1)) by {
            if p1.is_prefix_of(q1) {
                assert forall|i: int| 0 <= i < p.len() implies p[i] == q[i] by {
                    if i > 0 {
                        assert(p1[i - 1] == q1[i - 1]);
                    }
                }
            }
        }
        assert(!q1.is_prefix_of(p1)) by {
            if q1.is_prefix_of(p1) {
                assert forall|i: int| 0 <= i < q.len() implies q[i] == p[i] by {
                    if i > 0 {
                        assert(q1[i - 1] == p1[i - 1]);
                    }
                }
            }
        }
        lemma_at_put_other(member(j, p[0]), p1, v, q1);
    }
}

/// Law: after a write at a path, the same path can be written again.
pub proof fn lemma_settable_put(j: JsonV, p: Seq<Seq<char>>, v: JsonV)
    ensures
        settable(put(j, p, v), p),
    decreases p.len(),
{
    if p.len() > 0 {
        lemma_member_put(j, p, v);
        lemma_settable_put(member(j, p[0]), p.drop_first(), v);
        let r = put(j, p, v);
        let es = match r {
            JsonV::Object(es) => es,
            _ => Seq::empty(),
        };
        assert(r is Object);
        lemma_entry_index(es, p[0]);
        match entry_index(es, p[0]) {
            Some(i) => {},
            None => {},
        }
    }
}

/// The keys of a path, read as character sequences.
pub open spec fn path_view(p: Seq<String>) -> Seq<Seq<char>> {
    Seq::new(p.len(), |i: int| p[i]@)
}


/// What a lookup that may find nothing reads as.
pub open spec fn found(r: Option<&Json>) -> JsonV {
    match r {
        Some(j) => j@,
        None => JsonV::Null,
    }
}

/// Looking anything up below `Null` gives `Null`.
pub proof fn lemma_at_null(path: Seq<Seq<char>>)
    ensures
        at(JsonV::Null, path) == JsonV::Null,
    decreases path.len(),
{
    if path.len() > 0 {
        lemma_at_null(path.drop_first());
    }
}

pub proof fn lemma_path_step(p: Seq<String>, i: int)
    requires
        0 <= i < p.len(),
    ensures
        path_view(p).skip(i).len() > 0,
        path_view(p).skip(i)[0] == p[i]@,
        path_view(p).skip(i).drop_first() =~= path_view(p).skip(i + 1),
{
}

/// The position of the first member of `es` whose key is `key`.
pub fn find_member(es: &Vec<(String, Json)>, key: &String) -> (r: Option<usize>)
    ensures
        match r {
            Some(i) => entry_index(entries_view(es@), key@) == Some(i as int),
            None => entry_index(entries_view(es@), key@) is None,
        },
        entries_view(es@).len() == es@.len(),
        forall|j: int| 0 <= j < es@.len() ==> #[trigger] entries_view(es@)[j] == (es@[j].0@, es@[j].1.view()),
        match r {
            Some(i) => i < es@.len() && es@[i as int].0@ == key@,
            None => true,
        },
{
    proof {
        lemma_entries_view(es@);
        lemma_entry_index(entries_view(es@), key@);
    }
    let mut i: usize = 0;
    while i < es.len()
        invariant
            i <= es@.len(),
            entries_view(es@).len() == es@.len(),
            forall|j: int| 0 <= j < es@.len() ==> #[trigger] entries_view(es@)[j] == (es@[j].0@, es@[j].1.view()),
            forall|k: int| 0 <= k < i ==> (#[trigger] es@[k]).0@ != key@,
            match entry_index(entries_view(es@), key@) {
                Some(x) => 0 <= x < es@.len() && entries_view(es@)[x].0 == key@
                    && forall|k: int| 0 <= k < x ==> (#[trigger] entries_view(es@)[k]).0 != key@,
                None => forall|k: int| 0 <= k < es@.len() ==> (#[trigger] entries_view(es@)[k]).0 != key@,
            },
        decreases es@.len() - i,
    {
        if es[i].0 == *key {
            proof {
                assert(entries_view(es@)[i as int].0 == key@);
                match entry_index(entries_view(es@), key@) {
                    Some(x) => {
                        if x < i {
                            assert(entries_view(es@)[x] == (es@[x].0@, es@[x].1.view()));
                        }
                        if x > i {
                            assert(entries_view(es@)[i as int].0 != key@);
                        }
                    },
                    None => {},
                }
            }
            return Some(i);
        }
        i = i + 1;
    }
    proof {
        match entry_index(entries_view(es@), key@) {
            Some(x) => {
                assert(entries_view(es@)[x] == (es@[x].0@, es@[x].1.view()));
            },
            None => {},
        }
    }
    None
}

impl Json {
    /// The member `key` of an object; `None`, read as `Null`, when it is
    /// absent or `self` is not an object (as indexing a JSON value by a string
    /// gives).
    pub fn get(&self, key: &str) -> (r: Option<&Json>)
        ensures
            found(r) == member(self@, key@),
    {
        match self {
            Json::Object(es) => {
                let k = key.to_owned();
                assert(self@ == JsonV::Object(entries_view(es@)));
                match find_member(es, &k) {
                    Some(i) => {
                        Some(&es[i].1)
                    },
                    None => None,
                }
            },
            _ => None,
        }
    }

    /// The number held, when it is a non-negative integer.
    pub fn as_u64(&self) -> (r: Option<u64>)
        ensures
            r == match self@ {
                JsonV::Number(NumberV::PosInt(n)) => Some(n),
                _ => None::<u64>,
            },
    {
        match self {
            Json::Number(JsonNumber::PosInt(n)) => Some(*n),
            _ => None,
        }
    }

    /// The text held, when `self` is a string.
    pub fn as_str(&self) -> (r: Option<&str>)
        ensures
            match self@ {
                JsonV::Str(t) => r is Some && r->0@ == t,
                _ => r is None,
            },
    {
        match self {
            Json::String(s) => Some(s.as_str()),
            _ => None,
        }
    }

    /// Whether `self` is a string.
    pub fn is_string(&self) -> (r: bool)
        ensures
            r == self@ is Str,
    {
        match self {
            Json::String(_) => true,
            _ => false,
        }
    }

    /// The value reached by looking up each key of `path` in turn; `None`,
    /// read as `Null`, where a lookup along the way finds nothing.
    pub fn lookup(&self, path: &Vec<String>) -> (r: Option<&Json>)
        ensures
            found(r) == at(self@, path_view(path@)),
    {
        let mut cur: &Json = self;
        let mut i: usize = 0;
        assert(path_view(path@).skip(0) =~= path_view(path@));
        while i < path.len()
            invariant
                i <= path@.len(),
                at(self@, path_view(path@)) == at(cur@, path_view(path@).skip(i as int)),
            decreases path@.len() - i,
        {
            proof {
                lemma_path_step(path@, i as int);
            }
            match cur.get(path[i].as_str()) {
                Some(next) => {
                    cur = next;
                },
                None => {
                    proof {
                        lemma_at_null(path_view(path@).skip(i + 1));
                    }
                    return None;
                },
            }
            i = i + 1;
        }
        assert(path_view(path@).skip(i as int).len() == 0);
        Some(cur)
    }

    /// Whether `path` can be written into `self` (see [`settable`]).
    pub fn can_put(&self, path: &Vec<String>) -> (r: bool)
        ensures
            r == settable(self@, path_view(path@)),
    {
        let mut cur: &Json = self;
        let mut i: usize = 0;
        assert(path_view(path@).skip(0) =~= path_view(path@));
        while i < path.len()
            invariant
                i <= path@.len(),
                settable(self@, path_view(path@)) == settable(cur@, path_view(path@).skip(i as int)),
            decreases path@.len() - i,
        {
            proof {
                lemma_path_step(path@, i as int);
            }
            match cur {
                Json::Null => {
                    return true;
                },
                Json::Object(es) => {
                    proof {
                        lemma_entries_view(es@);
                    }
                    match find_member(es, &path[i]) {
                        Some(k) => {
                            cur = &es[k].1;
                        },
                        None => {
                            return true;
                        },
                    }
                },
                _ => {
                    return false;
                },
            }
            i = i + 1;
        }
        true
    }

    /// `self` with `v` written at `path` (see [`put`]).
    pub fn put(self, path: &Vec<String>, v: Json) -> (r: Json)
        requires
            settable(self@, path_view(path@)),
        ensures
            r@ == put(self@, path_view(path@), v@),
    {
        assert(path_view(path@).skip(0) =~= path_view(path@));
        put_from(self, path, 0, v)
    }
}

fn put_from(j: Json, path: &Vec<String>, i: usize, v: Json) -> (r: Json)
    requires
        i <= path@.len(),
        settable(j@, path_view(path@).skip(i as int)),
    ensures
        r@ == put(j@, path_view(path@).skip(i as int), v@),
    decreases path@.len() - i,
{
    if i == path.len() {
        assert(path_view(path@).skip(i as int).len() == 0);
        return v;
    }
    proof {
        lemma_path_step(path@, i as int);
    }
    let ghost jv = j@;
    let mut es: Vec<(String, Json)> = match j {
        Json::Object(es) => es,
        _ => Vec::new(),
    };
    let ghost old_es = es@;
    proof {
        lemma_entries_view(old_es);
        assert(entries_view(old_es) == match jv { JsonV::Object(e) => e, _ => Seq::empty() });
    }
    match find_member(&es, &path[i]) {
        Some(k) => {
            let (key, child) = es.remove(k);
            assert(child@ == entries_view(old_es)[k as int].1);
            let nc = put_from(child, path, i + 1, v);
            es.insert(k, (key, nc));
            proof {
                lemma_entries_view(es@);
                assert(es@ =~= old_es.update(k as int, (key, nc)));
                assert(entries_view(es@) =~= entries_view(old_es).update(
                    k as int, (entries_view(old_es)[k as int].0, nc@)));
            }
        },
        None => {
            let key = path[i].clone();
            let nc = put_from(Json::Null, path, i + 1, v);
            es.push((key, nc));
            proof {
                lemma_entries_view(es@);
                assert(entries_view(es@) =~= entries_view(old_es).push((path@[i as int]@, nc@)));
            }
        },
    }
    Json::Object(es)
}

} // verus!
