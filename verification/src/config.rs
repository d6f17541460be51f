//! The settings store: a JSON document whose values are read and written by
//! dotted keys such as `audio.output.device`, with a record of the file it
//! belongs to and of whether it has unsaved changes.

use vstd::prelude::*;

use crate::json::{at, lemma_at_put, put, path_view, settable, Json, JsonV};
use crate::text::{chars_of, split_chars, split_on, string_of};

verus! {

/// The settings store.
pub struct Config {
    path: String,
    saved: bool,
    json: Json,
}

/// What a [`Config`] holds: the path of its file, whether it has been saved
/// since it last changed, and its document.
pub struct ConfigView {
    pub path: Seq<char>,
    pub saved: bool,
    pub json: JsonV,
}

/// The keys named by a dotted key: the pieces between the dots.
pub open spec fn key_path(key: Seq<char>) -> Seq<Seq<char>> {
    split_on(key, '.')
}

impl View for Config {
    type V = ConfigView;

    closed spec fn view(&self) -> ConfigView {
        ConfigView { path: self.path@, saved: self.saved, json: self.json@ }
    }
}

/// The keys of a dotted key, as strings.
fn key_strings(key: &str) -> (r: Vec<String>)
    ensures
        path_view(r@) == key_path(key@),
{
    let chars = chars_of(key);
    let pieces = split_chars(chars.as_slice(), '.');
    let mut out: Vec<String> = Vec::new();
    let mut i: usize = 0;
    while i < pieces.len()
        invariant
            i <= pieces@.len(),
            pieces@.len() == split_on(chars@, '.').len(),
            forall|k: int| 0 <= k < pieces@.len() ==> #[trigger] pieces@[k]@ == split_on(chars@, '.')[k],
            out@.len() == i,
            forall|k: int| 0 <= k < i ==> #[trigger] out@[k]@ == pieces@[k]@,
        decreases pieces@.len() - i,
    {
        let s = string_of(pieces[i].as_slice());
        out.push(s);
        i = i + 1;
    }
    assert(path_view(out@) =~= key_path(key@));
    out
}

impl Config {
    /// An empty store: no file, nothing unsaved, and a `null` document.
    pub fn empty() -> (c: Config)
        ensures
            c@.path == Seq::<char>::empty(),
            c@.saved,
            c@.json == JsonV::Null,
    {
        Config { path: String::new(), saved: true, json: Json::Null }
    }

    /// The store for a document just read from the file at `path`.
    pub fn loaded(path: String, json: Json) -> (c: Config)
        ensures
            c@.path == path@,
            c@.saved,
            c@.json == json@,
    {
        Config { path, saved: true, json }
    }

    /// Records that the document has been written to its file.
    pub fn mark_saved(&mut self)
        ensures
            final(self)@.saved,
            final(self)@.path == old(self)@.path,
            final(self)@.json == old(self)@.json,
    {
        self.saved = true;
    }

    /// Records that the document has been written to the file at `path`,
    /// which becomes its file.
    pub fn mark_saved_to(&mut self, path: &str)
        ensures
            final(self)@.saved,
            final(self)@.path == path@,
            final(self)@.json == old(self)@.json,
    {
        self.saved = true;
        self.path = path.to_owned();
    }

    /// Whether [`Config::set`] can write `key`: every value met along the key
    /// is an object or missing.
    pub fn is_settable(&self, key: &str) -> (r: bool)
        ensures
            r == settable(self@.json, key_path(key@)),
    {
        let path = key_strings(key);
        self.json.can_put(&path)
    }

    /// Sets the value at a dotted key to the string `value`, creating the
    /// objects along the key that are missing. The store then has unsaved
    /// changes.
    pub fn set(&mut self, key: &str, value: &str) -> (r: Result<(), String>)
        requires
            settable(old(self)@.json, key_path(key@)),
        ensures
            r is Ok,
            final(self)@.json == put(old(self)@.json, key_path(key@), JsonV::Str(value@)),
            !final(self)@.saved,
            final(self)@.path == old(self)@.path,
    {
        let path = key_strings(key);
        let mut json = Json::Null;
        std::mem::swap(&mut json, &mut self.json);
        self.json = json.put(&path, Json::String(value.to_owned()));
        self.saved = false;
        Ok(())
    }

    /// The string at a dotted key; when there is none, the value `or` gives,
    /// which is then stored at the key.
    pub fn get_or<F: Fn() -> String>(&mut self, key: &str, or: F) -> (r: Result<String, String>)
        requires
            at(old(self)@.json, key_path(key@)) is Str || settable(old(self)@.json, key_path(key@)),
            call_requires(or, ()),
        ensures
            r is Ok,
            match at(old(self)@.json, key_path(key@)) {
                JsonV::Str(t) => r->Ok_0@ == t && final(self)@ == old(self)@,
                _ => call_ensures(or, (), r->Ok_0)
                    && final(self)@.json == put(old(self)@.json, key_path(key@), JsonV::Str(r->Ok_0@))
                    && !final(self)@.saved && final(self)@.path == old(self)@.path,
            },
    {
        let path = key_strings(key);
        let current = match self.json.lookup(&path) {
            Some(Json::String(s)) => Some(s.clone()),
            _ => None,
        };
        match current {
            Some(s) => Ok(s),
            None => {
                let value = or();
                let res = self.set(key, value.as_str());
                match res {
                    Ok(()) => Ok(value),
                    Err(e) => Err(e),
                }
            },
        }
    }

    /// Whether the store has been saved since it last changed.
    pub fn saved(&self) -> (r: bool)
        ensures
            r == self@.saved,
    {
        self.saved
    }

    /// The path of the store's file.
    pub fn path(&self) -> (r: String)
        ensures
            r@ == self@.path,
    {
        self.path.clone()
    }

    /// The store's document.
    pub fn json(&self) -> (r: &Json)
        ensures
            r@ == self@.json,
    {
        &self.json
    }
}

/// Law: a value set at a dotted key is what reading that key gives back.
pub proof fn lemma_set_then_get(c: ConfigView, key: Seq<char>, value: Seq<char>)
    ensures
        at(put(c.json, key_path(key), JsonV::Str(value)), key_path(key)) == JsonV::Str(value),
{
    lemma_at_put(c.json, key_path(key), JsonV::Str(value));
}

} // verus!
