use vstd::prelude::*;
use vstd::std_specs::iter::IteratorSpec;

verus! {

/// Whether `c` is a lowercase ASCII letter, the only characters the cipher changes.
pub open spec fn is_lower(c: char) -> bool {
    'a' <= c && c <= 'z'
}

/// Shifts one character: lowercase letters move `shift` places forward in the
/// alphabet when encrypting and back when decrypting; anything else is kept.
pub open spec fn shift_char(c: char, shift: u32, encrypt: bool) -> char {
    if !is_lower(c) {
        c
    } else if encrypt {
        (97 + ((c as u32 - 97) + shift) % 26) as char
    } else {
        (97 + (26 + (c as u32 - 97) - shift % 26) % 26) as char
    }
}

pub fn caesar(target: char, shift: u32, encrypt: bool) -> (r: char)
    requires
        shift < 26,
    ensures
        r == shift_char(target, shift, encrypt),
{
    if !(target >= 'a' && target <= 'z') {
        return target;
    }
    let ascii: u8 = target as u8 - 97u8;
    let shifted: u8 = if encrypt {
        (ascii + (shift as u8)) % 26
    } else {
        (26 + ascii - (shift as u8 % 26)) % 26
    };
    (97u8 + shifted) as char
}

/// A key the cipher accepts: at least one shift, each below 26.
pub open spec fn valid_key(key: Seq<u32>) -> bool {
    key.len() > 0 && forall|i: int| 0 <= i < key.len() ==> #[trigger] key[i] < 26
}

/// The text with the character at position `i` shifted by `key[i % (key.len() as int)]`.
pub open spec fn vigenere(text: Seq<char>, key: Seq<u32>, encrypt: bool) -> Seq<char>
    recommends
        key.len() > 0,
{
    Seq::new(text.len(), |i: int| shift_char(text[i], key[i % (key.len() as int)], encrypt))
}

/// Relies on String::push: appends one character at the end.
#[verifier::external_body]
pub(crate) fn push_char(s: &mut String, c: char)
    ensures
        final(s)@ == old(s)@.push(c),
{
    s.push(c);
}

/// The characters of `s`, in order.
pub fn chars_of(s: &String) -> (r: Vec<char>)
    ensures
        r@ == s@,
{
    broadcast use vstd::string::group_string_axioms;
    let mut it = s.as_str().chars();
    let mut out: Vec<char> = Vec::new();
    loop
        invariant
            out@ + it.remaining() == s@,
            it.decrease() is Some,
        ensures
            out@ == s@,
        decreases it.decrease()->0,
    {
        match it.next() {
            Some(c) => {
                out.push(c);
            },
            None => {
                assert(out@ =~= out@ + it.remaining());
                break;
            },
        }
    }
    out
}

pub fn vignere(pass: &String, key: &Vec<u32>, encrypt: bool) -> (r: String)
    requires
        valid_key(key@),
    ensures
        r@ == vigenere(pass@, key@, encrypt),
{
    let chars = chars_of(pass);
    let len = key.len();
    let mut out = String::new();
    let mut i: usize = 0;
    while i < chars.len()
        invariant
            len == key@.len(),
            valid_key(key@),
            chars@ == pass@,
            i <= chars@.len(),
            out@ == vigenere(pass@, key@, encrypt).take(i as int),
        decreases chars@.len() - i,
    {
        let shift = key[i % len];
        let c = caesar(chars[i], shift, encrypt);
        push_char(&mut out, c);
        i = i + 1;
        assert(out@ =~= vigenere(pass@, key@, encrypt).take(i as int));
    }
    assert(out@ =~= vigenere(pass@, key@, encrypt));
    out
}

/// Decrypting with the key that encrypted restores every character.
pub proof fn lemma_shift_char_round_trip(c: char, shift: u32)
    requires
        shift < 26,
    ensures
        shift_char(shift_char(c, shift, true), shift, false) == c,
{
    if is_lower(c) {
        let x = c as u32 - 97;
        let e = shift_char(c, shift, true);
        assert(e as u32 == 97 + (x + shift) % 26);
        assert(is_lower(e));
        if x + shift < 26 {
            assert((x + shift) % 26 == x + shift);
            assert((26 + (x + shift) - shift) % 26 == x);
        } else {
            assert((x + shift) % 26 == x + shift - 26);
            assert((26 + (x + shift - 26) - shift) % 26 == x);
        }
    }
}

/// Round trip: for every text and every valid key, decrypting the encryption
/// gives the text back.
pub proof fn lemma_cipher_round_trip(text: Seq<char>, key: Seq<u32>)
    requires
        valid_key(key),
    ensures
        vigenere(vigenere(text, key, true), key, false) == text,
{
    let e = vigenere(text, key, true);
    let d = vigenere(e, key, false);
    assert forall|i: int| 0 <= i < text.len() implies d[i] == text[i] by {
        let k = key[i % (key.len() as int)];
        lemma_shift_char_round_trip(text[i], k);
    }
    assert(d =~= text);
}

/// A text without lowercase ASCII letters is left unchanged by the cipher, in
/// either direction.
pub proof fn lemma_cipher_keeps_non_letters(text: Seq<char>, key: Seq<u32>, encrypt: bool)
    requires
        valid_key(key),
        forall|i: int| 0 <= i < text.len() ==> !is_lower(#[trigger] text[i]),
    ensures
        vigenere(text, key, encrypt) == text,
{
    assert(vigenere(text, key, encrypt) =~= text);
}

/// Whether `c` is an ASCII letter of either case.
pub open spec fn is_ascii_letter(c: char) -> bool {
    ('a' <= c && c <= 'z') || ('A' <= c && c <= 'Z')
}

/// The alphabet position of an ASCII letter, case ignored.
pub open spec fn letter_shift(c: char) -> u32 {
    if is_lower(c) {
        (c as u32 - 97) as u32
    } else {
        (c as u32 - 65) as u32
    }
}

/// The key that a passphrase of ASCII letters stands for.
pub open spec fn key_of(pass: Seq<char>) -> Seq<u32> {
    Seq::new(pass.len(), |i: int| letter_shift(pass[i]))
}

/// Why a passphrase could not be turned into a key.
#[derive(Debug, Clone, Copy, PartialEq, Eq)]
pub enum KeyError {
    /// The passphrase holds a character that is not an ASCII letter.
    NotAlphabetic,
}

/// Turns a passphrase into its key. An empty passphrase gives the empty key,
/// which stands for no encryption.
pub fn convert_key(key: &String) -> (r: Result<Vec<u32>, KeyError>)
    ensures
        r is Ok <==> forall|i: int| 0 <= i < key@.len() ==> is_ascii_letter(#[trigger] key@[i]),
        r matches Ok(k) ==> k@ == key_of(key@),
        r matches Ok(k) ==> (key@.len() > 0 <==> valid_key(k@)),
{
    let chars = chars_of(key);
    let mut out: Vec<u32> = Vec::new();
    let mut i: usize = 0;
    while i < chars.len()
        invariant
            chars@ == key@,
            i <= chars@.len(),
            out@ == key_of(key@).take(i as int),
            forall|j: int| 0 <= j < i ==> is_ascii_letter(#[trigger] key@[j]),
        decreases chars@.len() - i,
    {
        let c = chars[i];
        if c >= 'a' && c <= 'z' {
            out.push((c as u32) - 97);
        } else if c >= 'A' && c <= 'Z' {
            out.push((c as u32) - 65);
        } else {
            return Err(KeyError::NotAlphabetic);
        }
        i = i + 1;
        assert(out@ =~= key_of(key@).take(i as int));
    }
    assert(out@ =~= key_of(key@));
    Ok(out)
}

} // verus!
