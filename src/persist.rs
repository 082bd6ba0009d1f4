use vstd::prelude::*;

use crate::cipher::{valid_key, vigenere, vignere, lemma_cipher_round_trip};
use crate::store::{Password, index, reindexed, is_indexed, lemma_reindex_indexed};

verus! {

/// A key the store accepts: empty, for a plaintext file, or valid for the
/// cipher.
pub open spec fn usable_key(key: Seq<u32>) -> bool {
    key.len() == 0 || valid_key(key)
}

/// The file text for a serialized store: the text itself under the empty key,
/// else its encryption.
pub open spec fn stored_text(json: Seq<char>, key: Seq<u32>) -> Seq<char> {
    if key.len() == 0 {
        json
    } else {
        vigenere(json, key, true)
    }
}

/// The serialized store read back from file text: the text itself under the
/// empty key, else its decryption.
pub open spec fn read_text(content: Seq<char>, key: Seq<u32>) -> Seq<char> {
    if key.len() == 0 {
        content
    } else {
        vigenere(content, key, false)
    }
}

/// The text to write to the store's file for the serialized entries `json`.
pub fn save_content(json: &String, key: &Vec<u32>) -> (r: String)
    requires
        usable_key(key@),
    ensures
        r@ == stored_text(json@, key@),
{
    if key.len() == 0 {
        json.clone()
    } else {
        vignere(json, key, true)
    }
}

/// The serialized entries held in the file text `content`.
pub fn load_content(content: &String, key: &Vec<u32>) -> (r: String)
    requires
        usable_key(key@),
    ensures
        r@ == read_text(content@, key@),
{
    if key.len() == 0 {
        content.clone()
    } else {
        vignere(content, key, false)
    }
}

/// The store after loading: the parsed entries, indexed by position, or an
/// empty store where the text did not parse.
pub fn load(parsed: Option<Vec<Password>>) -> (r: Vec<Password>)
    ensures
        parsed matches Some(v) ==> r@ == reindexed(v@),
        parsed is None ==> r@ == Seq::<Password>::empty(),
        is_indexed(r@),
{
    match parsed {
        Some(v) => index(v),
        None => Vec::new(),
    }
}

/// Reading back what was written gives the serialized entries again, under
/// any usable key, the empty one included.
pub proof fn lemma_content_round_trip(json: Seq<char>, key: Seq<u32>)
    requires
        usable_key(key),
    ensures
        read_text(stored_text(json, key), key) == json,
{
    if key.len() > 0 {
        lemma_cipher_round_trip(json, key);
    }
}

/// Loading entries as saved gives the same entries: the store is indexed
/// whenever it is saved, and loading indexes again.
pub proof fn lemma_load_saved(entries: Seq<Password>)
    requires
        is_indexed(entries),
    ensures
        reindexed(entries) == entries,
{
    lemma_reindex_indexed(entries);
}

} // verus!
