//! An in-memory image of a carrier's resource table.
//!
//! A carrier stores named binary blobs. During one embedding run the store
//! is filled in write order and then persisted entry by entry; reading a
//! carrier fills a store image from the resources found in it. The model is
//! twofold: the write log (a sequence of key/value pairs, later writes
//! last) and the resulting table (a map from key to the last value written
//! under it).

use vstd::prelude::*;
use vstd::string::StringExecFns;
use crate::common::{custom_key_chars, get_custom_data_key, get_index_key, index_key_chars};

verus! {

/// A resource name key, as the embedding protocol distinguishes them.
pub enum ResKey {
    /// The block-count entry.
    Count,
    /// The payload block with this index.
    Index(u32),
    /// The custom metadata entry for this key.
    Custom(String),
}

/// The mathematical value of a resource key.
pub enum KeyModel {
    Count,
    Index(nat),
    Custom(Seq<char>),
}

impl View for ResKey {
    type V = KeyModel;

    open spec fn view(&self) -> KeyModel {
        match self {
            ResKey::Count => KeyModel::Count,
            ResKey::Index(i) => KeyModel::Index(*i as nat),
            ResKey::Custom(s) => KeyModel::Custom(s@),
        }
    }
}

/// A stored blob: raw payload bytes, or a UTF-8 string entry.
pub enum ResVal {
    Bytes(Vec<u8>),
    Text(String),
}

/// The mathematical value of a stored blob.
pub enum ValModel {
    Bytes(Seq<u8>),
    Text(Seq<char>),
}

impl View for ResVal {
    type V = ValModel;

    open spec fn view(&self) -> ValModel {
        match self {
            ResVal::Bytes(b) => ValModel::Bytes(b@),
            ResVal::Text(s) => ValModel::Text(s@),
        }
    }
}

/// Whether two keys name the same resource.
pub fn key_eq(a: &ResKey, b: &ResKey) -> (r: bool)
    ensures
        r == (a@ == b@),
{
    match (a, b) {
        (ResKey::Count, ResKey::Count) => true,
        (ResKey::Index(i), ResKey::Index(j)) => i == j,
        (ResKey::Custom(s), ResKey::Custom(t)) => *s == *t,
        _ => false,
    }
}

/// The resource name a key is stored under in a real carrier.
pub open spec fn key_name_chars(k: KeyModel) -> Seq<char> {
    match k {
        KeyModel::Count => "sfxr/data/count"@,
        KeyModel::Index(i) => index_key_chars(i),
        KeyModel::Custom(s) => custom_key_chars(s),
    }
}

/// Builds the resource name a key is stored under in a real carrier.
pub fn key_name(key: &ResKey) -> (r: String)
    ensures
        r@ == key_name_chars(key@),
{
    match key {
        ResKey::Count => String::from_str("sfxr/data/count"),
        ResKey::Index(i) => get_index_key(i),
        ResKey::Custom(s) => get_custom_data_key(s),
    }
}

/// Distinct keys are stored under distinct resource names: persisting a
/// store image entry by entry never lets one entry clobber another.
pub proof fn lemma_key_names_injective(k1: KeyModel, k2: KeyModel)
    requires
        k1 != k2,
    ensures
        key_name_chars(k1) != key_name_chars(k2),
{
    reveal_strlit("sfxr/data/count");
    reveal_strlit("sfxr/data/index/");
    reveal_strlit("sfxr/data/custom/");
    let count_name = "sfxr/data/count"@;
    let index_prefix = "sfxr/data/index/"@;
    let custom_prefix = "sfxr/data/custom/"@;
    if key_name_chars(k1) == key_name_chars(k2) {
        match (k1, k2) {
            (KeyModel::Count, KeyModel::Count) => {
                assert(false);
            },
            (KeyModel::Index(i), KeyModel::Index(j)) => {
                crate::common::lemma_index_keys_injective(i, j);
            },
            (KeyModel::Custom(a), KeyModel::Custom(b)) => {
                crate::common::lemma_custom_keys_injective(a, b);
            },
            (KeyModel::Count, KeyModel::Index(i)) | (KeyModel::Index(i), KeyModel::Count) => {
                assert(crate::common::index_key_chars(i)[10] == index_prefix[10]);
                assert(count_name[10] != index_prefix[10]);
            },
            (KeyModel::Count, KeyModel::Custom(s)) | (KeyModel::Custom(s), KeyModel::Count) => {
                assert(crate::common::custom_key_chars(s)[11] == custom_prefix[11]);
                assert(count_name[11] != custom_prefix[11]);
            },
            (KeyModel::Index(i), KeyModel::Custom(s)) | (KeyModel::Custom(s), KeyModel::Index(i)) => {
                assert(crate::common::index_key_chars(i)[10] == index_prefix[10]);
                assert(crate::common::custom_key_chars(s)[10] == custom_prefix[10]);
                assert(index_prefix[10] != custom_prefix[10]);
            },
        }
    }
}

/// The table a write log produces: the last value written under each key.
pub open spec fn map_of(entries: Seq<(KeyModel, ValModel)>) -> Map<KeyModel, ValModel>
    decreases entries.len(),
{
    if entries.len() == 0 {
        Map::empty()
    } else {
        map_of(entries.drop_last()).insert(entries.last().0, entries.last().1)
    }
}

/// An in-memory image of a carrier's resource table.
pub struct ResourceStore {
    entries: Vec<(ResKey, ResVal)>,
}

impl View for ResourceStore {
    type V = Map<KeyModel, ValModel>;

    open spec fn view(&self) -> Map<KeyModel, ValModel> {
        map_of(self.log())
    }
}

impl ResourceStore {
    /// The write log: every entry ever written, in write order.
    pub closed spec fn log(&self) -> Seq<(KeyModel, ValModel)> {
        self.entries@.map(|_i: int, e: (ResKey, ResVal)| (e.0@, e.1@))
    }

    /// An empty store: what a fresh carrier copy holds.
    pub fn new() -> (s: ResourceStore)
        ensures
            s.log() == Seq::<(KeyModel, ValModel)>::empty(),
            s@ == Map::<KeyModel, ValModel>::empty(),
    {
        let s = ResourceStore { entries: Vec::new() };
        proof {
            assert(s.log() =~= Seq::<(KeyModel, ValModel)>::empty());
        }
        s
    }

    /// Writes one entry: appended to the log, and the table maps the key to
    /// the new value.
    pub fn put(&mut self, key: ResKey, value: ResVal)
        ensures
            final(self).log() == old(self).log().push((key@, value@)),
            final(self)@ == old(self)@.insert(key@, value@),
    {
        let ghost k = key@;
        let ghost v = value@;
        self.entries.push((key, value));
        proof {
            assert(self.log() =~= old(self).log().push((k, v)));
            assert(self.log().drop_last() =~= old(self).log());
        }
    }

    /// Looks a key up in the table: the last value written under it, or
    /// absent when nothing was.
    pub fn get(&self, key: &ResKey) -> (r: Option<&ResVal>)
        ensures
            match r {
                Some(v) => self@.contains_key(key@) && v@ == self@[key@],
                None => !self@.contains_key(key@),
            },
    {
        let mut i: usize = self.entries.len();
        proof {
            assert(self.log().take(i as int) =~= self.log());
        }
        while i > 0
            invariant
                i <= self.log().len(),
                self.log().len() == self.entries.len(),
                map_of(self.log().take(i as int)).contains_key(key@) == self@.contains_key(key@),
                self@.contains_key(key@) ==> map_of(self.log().take(i as int)).contains_key(key@)
                    && map_of(self.log().take(i as int))[key@] == self@[key@],
            decreases i,
        {
            i -= 1;
            proof {
                assert(self.log().take(i as int + 1).drop_last() =~= self.log().take(i as int));
                assert(self.log().take(i as int + 1).last() == self.log()[i as int]);
            }
            let e = &self.entries[i];
            proof {
                assert(self.log()[i as int] == (e.0@, e.1@));
            }
            if key_eq(&e.0, key) {
                return Some(&e.1);
            }
        }
        proof {
            assert(self.log().take(0) =~= Seq::<(KeyModel, ValModel)>::empty());
        }
        None
    }

    /// How many entries the log holds.
    pub fn len(&self) -> (n: usize)
        ensures
            n == self.log().len(),
    {
        self.entries.len()
    }

    /// The log entry at position `i`, for persisting a store in write order.
    pub fn entry(&self, i: usize) -> (e: &(ResKey, ResVal))
        requires
            i < self.log().len(),
        ensures
            (e.0@, e.1@) == self.log()[i as int],
    {
        &self.entries[i]
    }
}

} // verus!
