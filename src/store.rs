//! The ordered history of entries, newest first, keyed by the content of their blobs.

use vstd::prelude::*;

use crate::classify::{classification, generate_preview_and_mime_type, ClassifyError};
use crate::size::{decimal, decimal_string};

verus! {

/// The xxh3 64-bit hash of a payload.
pub uninterp spec fn xxh3_of(data: Seq<u8>) -> u64;

/// Relies on `xxhash_rust::const_xxh3::xxh3_64`: the seedless 64-bit XXH3 hash of the
/// bytes, which depends on the bytes alone.
#[verifier::external_body]
fn content_hash(data: &[u8]) -> (r: u64)
    ensures
        r == xxh3_of(data@),
{
    xxhash_rust::const_xxh3::xxh3_64(data)
}

/// The key of a payload: its hash in decimal. It names the payload's blob file.
pub open spec fn content_key(data: Seq<u8>) -> Seq<char> {
    decimal(xxh3_of(data) as nat)
}

/// Computes the key of a payload.
pub fn content_key_of(data: &[u8]) -> (r: String)
    ensures
        r@ == content_key(data@),
{
    decimal_string(content_hash(data) as u128)
}

/// One record of the history.
#[derive(Debug)]
pub struct ClipboardItem {
    /// The content key, which is also the name of the blob file.
    pub file_name: String,
    pub preview: String,
    pub mime_type: String,
}

/// What a record holds.
pub struct ItemView {
    pub key: Seq<char>,
    pub preview: Seq<char>,
    pub mime: Seq<char>,
}

impl View for ClipboardItem {
    type V = ItemView;

    open spec fn view(&self) -> ItemView {
        ItemView { key: self.file_name@, preview: self.preview@, mime: self.mime_type@ }
    }
}

/// Whether some record of `entries` has key `key`.
pub open spec fn has_key(entries: Seq<ItemView>, key: Seq<char>) -> bool {
    exists|i: int| 0 <= i < entries.len() && #[trigger] entries[i].key == key
}

/// Whether no two records of `entries` share a key.
pub open spec fn keys_unique(entries: Seq<ItemView>) -> bool {
    forall|i: int, j: int|
        0 <= i < entries.len() && 0 <= j < entries.len() && #[trigger] entries[i].key
            == #[trigger] entries[j].key ==> i == j
}

/// The record made for a payload whose classification succeeded.
pub open spec fn new_item(data: Seq<u8>) -> ItemView {
    let c = classification(data)->Some_0;
    ItemView { key: content_key(data), preview: c.0, mime: c.1 }
}

/// The history after adding `data`: unchanged where a record already has its key or it
/// cannot be classified, else with the new record in front.
pub open spec fn added(entries: Seq<ItemView>, data: Seq<u8>) -> Seq<ItemView> {
    if has_key(entries, content_key(data)) || classification(data) is None {
        entries
    } else {
        seq![new_item(data)] + entries
    }
}

/// Adding a payload keeps the keys of a history unique.
pub proof fn lemma_added_keys_unique(entries: Seq<ItemView>, data: Seq<u8>)
    requires
        keys_unique(entries),
    ensures
        keys_unique(added(entries, data)),
{
    let new_v = added(entries, data);
    if new_v != entries {
        assert forall|i: int, j: int|
            0 <= i < new_v.len() && 0 <= j < new_v.len() && #[trigger] new_v[i].key
                == #[trigger] new_v[j].key implies i == j by {
            if i == 0 && j > 0 {
                assert(entries[j - 1].key == new_v[j].key);
            } else if j == 0 && i > 0 {
                assert(entries[i - 1].key == new_v[i].key);
            } else if i > 0 && j > 0 {
                assert(entries[i - 1].key == entries[j - 1].key);
            }
        }
    }
}

/// What an add did.
#[derive(Debug, Clone, Copy, PartialEq, Eq, Structural)]
pub enum AddOutcome {
    /// A record with the same key was already there: nothing changed.
    Duplicate,
    /// A new record stands at position 0; its blob is to be written under its key.
    Added,
}

/// Why an operation on the history failed.
#[derive(Debug, Clone, Copy, PartialEq, Eq, Structural)]
pub enum StoreError {
    /// A position at or past the end of the history.
    InvalidPosition,
    /// A manifest in which two records share a key.
    DuplicateKey,
    /// A payload that could not be classified.
    Classify(ClassifyError),
}

/// The history: where its blobs and manifest live, and its records, newest first.
#[derive(Debug)]
pub struct DataManager {
    pub data_folder: String,
    pub manifest_file: String,
    pub manifest_data: Vec<ClipboardItem>,
}

impl View for DataManager {
    type V = Seq<ItemView>;

    open spec fn view(&self) -> Seq<ItemView> {
        self.manifest_data@.map_values(|it: ClipboardItem| it@)
    }
}

impl DataManager {
    /// No two records share a key.
    pub open spec fn well_formed(&self) -> bool {
        keys_unique(self@)
    }

    /// A history over the given folder and manifest file, holding the records read
    /// from that manifest; refused where two of them share a key.
    pub fn new(data_folder: String, manifest_file: String, manifest_data: Vec<ClipboardItem>) -> (r:
        Result<DataManager, StoreError>)
        ensures
            r is Ok <==> keys_unique(manifest_data@.map_values(|it: ClipboardItem| it@)),
            r matches Ok(m) ==> m.data_folder == data_folder && m.manifest_file == manifest_file
                && m.manifest_data == manifest_data,
            r matches Err(e) ==> e == StoreError::DuplicateKey,
    {
        let ghost v = manifest_data@.map_values(|it: ClipboardItem| it@);
        let n = manifest_data.len();
        let mut i: usize = 0;
        while i < n
            invariant
                n == manifest_data@.len(),
                v == manifest_data@.map_values(|it: ClipboardItem| it@),
                i <= n,
                forall|a: int, b: int|
                    0 <= a < i && 0 <= b < n && #[trigger] v[a].key == #[trigger] v[b].key ==> a
                        == b,
            decreases n - i,
        {
            let mut j: usize = 0;
            while j < n
                invariant
                    n == manifest_data@.len(),
                    v == manifest_data@.map_values(|it: ClipboardItem| it@),
                    i < n,
                    j <= n,
                    forall|a: int, b: int|
                        0 <= a < i && 0 <= b < n && #[trigger] v[a].key == #[trigger] v[b].key
                            ==> a == b,
                    forall|b: int| 0 <= b < j && v[i as int].key == #[trigger] v[b].key ==> i == b,
                decreases n - j,
            {
                if j != i && manifest_data[i].file_name == manifest_data[j].file_name {
                    assert(v[i as int].key == v[j as int].key);
                    return Err(StoreError::DuplicateKey);
                }
                j = j + 1;
            }
            i = i + 1;
        }
        Ok(DataManager { data_folder, manifest_file, manifest_data })
    }

    /// Whether some record has key `key`.
    pub fn contains_key(&self, key: &String) -> (r: bool)
        ensures
            r == has_key(self@, key@),
    {
        let n = self.manifest_data.len();
        let mut i: usize = 0;
        while i < n
            invariant
                n == self@.len(),
                i <= n,
                forall|j: int| 0 <= j < i ==> #[trigger] self@[j].key != key@,
            decreases n - i,
        {
            if self.manifest_data[i].file_name == *key {
                assert(self@[i as int].key == key@);
                return true;
            }
            i = i + 1;
        }
        false
    }

    /// Adds a payload. Where a record already has its key, nothing changes; else the
    /// payload is classified and its record is put at position 0.
    pub fn add_item(&mut self, data: &[u8]) -> (r: Result<AddOutcome, StoreError>)
        requires
            old(self).well_formed(),
        ensures
            final(self).well_formed(),
            final(self)@ == added(old(self)@, data@),
            final(self).data_folder == old(self).data_folder,
            final(self).manifest_file == old(self).manifest_file,
            has_key(old(self)@, content_key(data@)) ==> r == Ok::<AddOutcome, StoreError>(
                AddOutcome::Duplicate),
            !has_key(old(self)@, content_key(data@)) && classification(data@) is Some ==> r
                == Ok::<AddOutcome, StoreError>(AddOutcome::Added),
            !has_key(old(self)@, content_key(data@)) && classification(data@) is None ==> r
                == Err::<AddOutcome, StoreError>(StoreError::Classify(ClassifyError::ImageHeader)),
    {
        let key = content_key_of(data);
        if self.contains_key(&key) {
            return Ok(AddOutcome::Duplicate);
        }
        match generate_preview_and_mime_type(data) {
            Ok((preview, mime_type)) => {
                let item = ClipboardItem { file_name: key, preview, mime_type };
                self.manifest_data.insert(0, item);
                proof {
                    assert(self@ =~= seq![new_item(data@)] + old(self)@);
                    lemma_added_keys_unique(old(self)@, data@);
                }
                Ok(AddOutcome::Added)
            },
            Err(e) => Err(StoreError::Classify(e)),
        }
    }

    /// Removes the record at `position`, shifting those after it one place forward, and
    /// returns it; a position past the end changes nothing.
    pub fn remove_item(&mut self, position: usize) -> (r: Result<ClipboardItem, StoreError>)
        requires
            old(self).well_formed(),
        ensures
            final(self).well_formed(),
            final(self).data_folder == old(self).data_folder,
            final(self).manifest_file == old(self).manifest_file,
            position >= old(self)@.len() ==> r == Err::<ClipboardItem, StoreError>(
                StoreError::InvalidPosition) && final(self)@ == old(self)@,
            position < old(self)@.len() ==> r is Ok && final(self)@ == old(self)@.remove(
                position as int),
            r matches Ok(item) ==> item@ == old(self)@[position as int],
    {
        if position >= self.manifest_data.len() {
            return Err(StoreError::InvalidPosition);
        }
        let item = self.manifest_data.remove(position);
        proof {
            let old_v = old(self)@;
            let new_v = self@;
            assert(new_v =~= old_v.remove(position as int));
            assert forall|i: int, j: int|
                0 <= i < new_v.len() && 0 <= j < new_v.len() && #[trigger] new_v[i].key
                    == #[trigger] new_v[j].key implies i == j by {
                let oi = if i < position { i } else { i + 1 };
                let oj = if j < position { j } else { j + 1 };
                assert(old_v[oi].key == old_v[oj].key);
            }
        }
        Ok(item)
    }

    /// Empties the history.
    pub fn clear_db(&mut self)
        ensures
            final(self)@.len() == 0,
            final(self).data_folder == old(self).data_folder,
            final(self).manifest_file == old(self).manifest_file,
    {
        self.manifest_data.clear();
        assert(self@ =~= Seq::<ItemView>::empty());
    }
}

} // verus!
