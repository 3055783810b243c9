//! The flat-file storage engine: the whole dataset lives in one JSON file.
//! `store` rewrites the file wholesale; `random` loads and samples it;
//! `search` is unsupported; `flush` deletes the file. Reading and writing
//! the file itself is I/O and stays with the caller — every function here
//! works on the file's content as a value, so the engine's behaviour on
//! every possible disk state is pinned down.
//!
//! The dataset is serialized as one JSON array of strings, three strings
//! (id, title, content) per entity, in order.

use vstd::prelude::*;

use crate::model::{entities_model, Entity, StorageError};
use crate::storage::{normalize_path, Storage};

verus! {

/// What `serde_json::to_string` yields for a vector of strings.
pub uninterp spec fn json_of(v: Seq<Seq<char>>) -> Seq<char>;

/// What `serde_json::from_str::<Vec<String>>` yields for the given text:
/// the strings, or nothing when the text is not a JSON array of strings.
pub uninterp spec fn json_strings_of(s: Seq<char>) -> Option<Seq<Seq<char>>>;

/// Relies on `serde_json::to_string` for `Vec<String>`: a deterministic
/// function of the strings, which `serde_json::from_str` parses back.
/// Serialization of this type cannot fail: its documentation reserves
/// failure for fallible `Serialize` impls and maps with non-string keys.
#[verifier::external_body]
fn json_encode_strings(v: &Vec<String>) -> (r: String)
    ensures
        r@ == json_of(v.deep_view()),
        json_strings_of(r@) == Option::Some(v.deep_view()),
{
    serde_json::to_string(v).unwrap()
}

/// Relies on `serde_json::from_str` for `Vec<String>`: a deterministic
/// function of the text that fails exactly where the text is not the JSON
/// encoding of an array of strings.
#[verifier::external_body]
fn json_decode_strings(s: &str) -> (r: Option<Vec<String>>)
    ensures
        match r {
            Option::Some(v) => json_strings_of(s@) == Option::Some(v.deep_view()),
            Option::None => json_strings_of(s@) is None,
        },
{
    serde_json::from_str::<Vec<String>>(s).ok()
}

/// The dataset flattened to strings: id, title, content of each entity in
/// order.
pub open spec fn flatten_entities(em: Seq<(Seq<char>, Seq<char>, Seq<char>)>) -> Seq<Seq<char>>
    decreases em.len(),
{
    if em.len() == 0 {
        Seq::empty()
    } else {
        flatten_entities(em.drop_last()) + seq![em.last().0, em.last().1, em.last().2]
    }
}

/// The entities recovered from flattened strings: consecutive groups of
/// three; a length that is not a multiple of three is not a dataset.
pub open spec fn unflatten_entities(v: Seq<Seq<char>>) -> Option<
    Seq<(Seq<char>, Seq<char>, Seq<char>)>,
> {
    if v.len() % 3 == 0 {
        Option::Some(group_entities(v))
    } else {
        Option::None
    }
}

/// Consecutive groups of three strings, read as entity models.
pub open spec fn group_entities(v: Seq<Seq<char>>) -> Seq<(Seq<char>, Seq<char>, Seq<char>)>
    decreases v.len(),
{
    if v.len() < 3 {
        Seq::empty()
    } else {
        group_entities(v.take(v.len() - 3)) + seq![
            (v[v.len() - 3], v[v.len() - 2], v[v.len() - 1]),
        ]
    }
}

/// The serialized form of a dataset.
pub open spec fn spec_encode_dataset(em: Seq<(Seq<char>, Seq<char>, Seq<char>)>) -> Seq<char> {
    json_of(flatten_entities(em))
}

/// The dataset a file's content holds, if it holds one.
pub open spec fn spec_decode_dataset(s: Seq<char>) -> Option<Seq<(Seq<char>, Seq<char>, Seq<char>)>> {
    match json_strings_of(s) {
        Option::Some(v) => unflatten_entities(v),
        Option::None => Option::None,
    }
}

proof fn lemma_flatten_len(em: Seq<(Seq<char>, Seq<char>, Seq<char>)>)
    ensures
        flatten_entities(em).len() == 3 * em.len(),
    decreases em.len(),
{
    if em.len() > 0 {
        lemma_flatten_len(em.drop_last());
    }
}

proof fn lemma_unflatten_flatten(em: Seq<(Seq<char>, Seq<char>, Seq<char>)>)
    ensures
        unflatten_entities(flatten_entities(em)) == Option::Some(em),
    decreases em.len(),
{
    lemma_flatten_len(em);
    if em.len() == 0 {
        assert(group_entities(flatten_entities(em)) =~= em);
    } else {
        lemma_unflatten_flatten(em.drop_last());
        lemma_flatten_len(em.drop_last());
        let f = flatten_entities(em);
        assert(f.take(f.len() - 3) =~= flatten_entities(em.drop_last()));
        assert(f[f.len() - 3] == em.last().0);
        assert(f[f.len() - 2] == em.last().1);
        assert(f[f.len() - 1] == em.last().2);
        assert(group_entities(f) =~= em);
    }
}

/// Flattens the dataset to its string triples.
fn flatten_exec(es: &Vec<Entity>) -> (v: Vec<String>)
    ensures
        v.deep_view() == flatten_entities(entities_model(es@)),
{
    let ghost em = entities_model(es@);
    let mut v: Vec<String> = Vec::new();
    proof {
        assert(em.take(0) =~= Seq::<(Seq<char>, Seq<char>, Seq<char>)>::empty());
        assert(v.deep_view() =~= flatten_entities(em.take(0)));
    }
    let n = es.len();
    for i in 0..n
        invariant
            n == es.len(),
            em == entities_model(es@),
            v.deep_view() == flatten_entities(em.take(i as int)),
    {
        let ghost before = v.deep_view();
        let e = &es[i];
        proof {
            assert(e.model() == em[i as int]);
        }
        v.push(e.id.clone());
        v.push(e.title.clone());
        v.push(e.content.clone());
        proof {
            assert(v.deep_view() =~~= before + seq![e.id@, e.title@, e.content@]);
            assert(em.take(i + 1).drop_last() =~= em.take(i as int));
            assert(em.take(i + 1).last() == em[i as int]);
        }
    }
    proof {
        assert(em.take(n as int) =~= em);
    }
    v
}

/// Reads the dataset back from string triples; a vector whose length is
/// not a multiple of three is not a dataset.
fn unflatten_exec(v: &Vec<String>) -> (r: Option<Vec<Entity>>)
    ensures
        match r {
            Option::Some(es) => unflatten_entities(v.deep_view()) == Option::Some(
                entities_model(es@),
            ),
            Option::None => unflatten_entities(v.deep_view()) is None,
        },
{
    let ghost w = v.deep_view();
    let n = v.len();
    if n % 3 != 0 {
        return Option::None;
    }
    let mut es: Vec<Entity> = Vec::new();
    proof {
        assert(w.take(0) =~= Seq::<Seq<char>>::empty());
        assert(entities_model(es@) =~= group_entities(w.take(0)));
    }
    let mut i: usize = 0;
    while i < n
        invariant
            i <= n,
            n == v.len(),
            w == v.deep_view(),
            i % 3 == 0,
            n % 3 == 0,
            entities_model(es@) == group_entities(w.take(i as int)),
        decreases n - i,
    {
        let ghost before = entities_model(es@);
        let e = Entity {
            id: v[i].clone(),
            title: v[i + 1].clone(),
            content: v[i + 2].clone(),
        };
        es.push(e);
        proof {
            assert(entities_model(es@) =~= before.push(e.model()));
            let t = w.take(i + 3);
            assert(t.len() == i + 3);
            assert(t.len() % 3 == 0);
            assert(t.take(t.len() - 3) =~= w.take(i as int));
            assert(t[t.len() - 3] == w[i as int]);
            assert(t[t.len() - 2] == w[i + 1]);
            assert(t[t.len() - 1] == w[i + 2]);
            assert(e.model() == (w[i as int], w[i + 1], w[i + 2]));
            assert(group_entities(t) =~= group_entities(w.take(i as int)).push(e.model()));
        }
        i = i + 3;
    }
    proof {
        assert(w.take(n as int) =~= w);
    }
    Option::Some(es)
}

/// Serializes a dataset as the flat-file engine writes it. The contract
/// carries the store/load round trip: what this returns,
/// [`decode_dataset`] reads back as exactly the same entities — so a
/// `random` right after a `store` samples from what was stored.
pub fn encode_dataset(es: &Vec<Entity>) -> (r: String)
    ensures
        r@ == spec_encode_dataset(entities_model(es@)),
        spec_decode_dataset(r@) == Option::Some(entities_model(es@)),
{
    let flat = flatten_exec(es);
    let r = json_encode_strings(&flat);
    proof {
        lemma_unflatten_flatten(entities_model(es@));
    }
    r
}

/// Reads a dataset from a file's content, if the content holds one.
pub fn decode_dataset(s: &str) -> (r: Option<Vec<Entity>>)
    ensures
        match r {
            Option::Some(es) => spec_decode_dataset(s@) == Option::Some(entities_model(es@)),
            Option::None => spec_decode_dataset(s@) is None,
        },
{
    match json_decode_strings(s) {
        Option::Some(v) => unflatten_exec(&v),
        Option::None => Option::None,
    }
}

/// The flat-file engine's configuration: the directory holding the dataset
/// file, and the file's name.
pub struct FileStorage {
    pub path: Option<String>,
    pub suffix: Option<String>,
}

impl FileStorage {
    /// A flat-file engine over the given directory and file name; absent
    /// values fall back to the default directory and `tips.json`.
    pub fn new(path: Option<String>, suffix: Option<String>) -> (s: Self)
        ensures
            s.path == path,
            s.suffix == suffix,
    {
        FileStorage { path, suffix }
    }

    /// What `store` writes: the whole dataset, replacing the previous file
    /// wholesale. The content decodes back to exactly these entities.
    pub fn store_payload(&self, entities: &Vec<Entity>) -> (r: String)
        ensures
            r@ == spec_encode_dataset(entities_model(entities@)),
            spec_decode_dataset(r@) == Option::Some(entities_model(entities@)),
    {
        encode_dataset(entities)
    }

    /// What `random` does with the file it found: an absent file is the
    /// not-synced condition (distinguishable from an empty dataset);
    /// content that holds no dataset is an engine failure; an empty dataset
    /// is an empty result, not an error; otherwise the entity at the
    /// sampled position `pick % len` is returned — always a member of the
    /// stored dataset.
    pub fn random(&self, file: Option<String>, pick: usize) -> (r: Result<
        Option<Entity>,
        StorageError,
    >)
        ensures
            match file {
                Option::None => r matches Err(e) && e is NotSynced,
                Option::Some(content) => {
                    match spec_decode_dataset(content@) {
                        Option::None => r matches Err(e) && e is Engine,
                        Option::Some(em) => {
                            if em.len() == 0 {
                                r matches Ok(o) && o is None
                            } else {
                                r matches Ok(o) && o matches Some(e) && e.model() == em[pick as int
                                    % em.len() as int]
                            }
                        },
                    }
                },
            },
    {
        match file {
            Option::None => Err(StorageError::NotSynced),
            Option::Some(content) => {
                match decode_dataset(content.as_str()) {
                    Option::None => Err(
                        StorageError::Engine(
                            String::from_str("the dataset file does not hold a dataset"),
                        ),
                    ),
                    Option::Some(es) => {
                        if es.len() == 0 {
                            Ok(Option::None)
                        } else {
                            let i = pick % es.len();
                            let e = &es[i];
                            Ok(
                                Option::Some(
                                    Entity {
                                        id: e.id.clone(),
                                        title: e.title.clone(),
                                        content: e.content.clone(),
                                    },
                                ),
                            )
                        }
                    },
                }
            },
        }
    }

}

impl Storage for FileStorage {
    /// The flat-file engine cannot search.
    open spec fn spec_supports_search(&self) -> bool {
        false
    }

    fn supports_search(&self) -> (b: bool) {
        false
    }

    /// The path of the dataset file: the file name under the configured
    /// directory, or under the default directory when none is configured.
    fn path(&self) -> (r: Result<String, StorageError>)
        ensures
            match self.path {
                Option::Some(p) => r matches Ok(s) && match self.suffix {
                    Option::Some(sfx) => s@ == p@ + "/"@ + sfx@,
                    Option::None => s@ == p@ + "/"@ + "tips.json"@,
                },
                Option::None => r matches Ok(s) ==> exists|h: Seq<char>|
                    match self.suffix {
                        Option::Some(sfx) => s@ == h + "/.laravel/"@ + sfx@,
                        Option::None => s@ == h + "/.laravel/"@ + "tips.json"@,
                    },
            },
            r matches Err(e) ==> e is PathResolution,
    {
        let suffix = match &self.suffix {
            Option::Some(s) => s.clone(),
            Option::None => String::from_str("tips.json"),
        };
        let ghost sv = suffix@;
        let r = normalize_path(suffix, self.path.clone());
        proof {
            if self.path is None && r is Ok {
                let h = choose|h: Seq<char>| r->Ok_0@ == h + "/.laravel/"@ + sv;
                assert(match self.suffix {
                    Option::Some(sfx) => r->Ok_0@ == h + "/.laravel/"@ + sfx@,
                    Option::None => r->Ok_0@ == h + "/.laravel/"@ + "tips.json"@,
                });
            }
        }
        r
    }

    /// Keyword search is unsupported on the flat-file engine: it reports
    /// the limitation, never a crash and never an empty success.
    fn search(&self, keyword: &str, group: Option<&str>) -> (r: Result<
        Vec<Entity>,
        StorageError,
    >)
        ensures
            r matches Err(e) && e matches StorageError::Unsupported(m) && m@
                == "file storage does not support search, please use sqlite storage"@,
    {
        let _ = keyword;
        let _ = group;
        Err(
            StorageError::Unsupported(
                String::from_str("file storage does not support search, please use sqlite storage"),
            ),
        )
    }
}

} // verus!
