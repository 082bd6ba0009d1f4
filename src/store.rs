use vstd::prelude::*;

verus! {

/// One credential record. `index` is its position in the store, set by
/// [`index`]; it identifies nothing beyond that.
#[derive(Debug, Clone)]
pub struct Password {
    pub service: String,
    pub email: String,
    pub username: String,
    pub password: String,
    pub index: usize,
}

impl Password {
    /// A field-for-field copy.
    pub fn duplicate(&self) -> (r: Password)
        ensures
            r == *self,
    {
        Password {
            service: self.service.clone(),
            email: self.email.clone(),
            username: self.username.clone(),
            password: self.password.clone(),
            index: self.index,
        }
    }
}

/// `p` with its index set to `i`.
pub open spec fn at_index(p: Password, i: int) -> Password {
    Password {
        service: p.service,
        email: p.email,
        username: p.username,
        password: p.password,
        index: i as usize,
    }
}

/// The entries with each one's index set to its position.
pub open spec fn reindexed(s: Seq<Password>) -> Seq<Password> {
    Seq::new(s.len(), |i: int| at_index(s[i], i))
}

/// Whether each entry's index is its position.
pub open spec fn is_indexed(s: Seq<Password>) -> bool {
    forall|i: int| 0 <= i < s.len() ==> (#[trigger] s[i]).index == i
}

/// Sets every entry's index to its position, keeping the order and the
/// other fields.
pub fn index(passwords: Vec<Password>) -> (r: Vec<Password>)
    ensures
        r@ == reindexed(passwords@),
        is_indexed(r@),
{
    let mut passwords = passwords;
    let ghost orig = passwords@;
    let mut count: usize = 0;
    while count < passwords.len()
        invariant
            passwords@.len() == orig.len(),
            count <= orig.len(),
            forall|j: int| 0 <= j < count ==> #[trigger] passwords@[j] == at_index(orig[j], j),
            forall|j: int| count <= j < orig.len() ==> #[trigger] passwords@[j] == orig[j],
        decreases orig.len() - count,
    {
        passwords[count].index = count;
        count += 1;
    }
    assert(passwords@ =~= reindexed(orig));
    passwords
}

/// Indexing entries that are already indexed changes nothing.
pub proof fn lemma_reindex_indexed(s: Seq<Password>)
    requires
        is_indexed(s),
    ensures
        reindexed(s) == s,
{
    assert(reindexed(s) =~= s);
}

/// Appends a new entry, with its index set to the position it lands at.
pub fn new_password(
    passwords: Vec<Password>,
    service: String,
    password: String,
    username: String,
    email: String,
) -> (r: Vec<Password>)
    ensures
        r@ == passwords@.push(
            Password { service, email, username, password, index: passwords@.len() as usize },
        ),
{
    let mut passwords = passwords;
    let i = passwords.len();
    let entry = Password { service, email, username, password, index: i };
    passwords.push(entry);
    passwords
}

/// Whether `c` is an ASCII decimal digit.
pub open spec fn is_digit(c: char) -> bool {
    '0' <= c && c <= '9'
}

/// The number that a string of decimal digits writes.
pub open spec fn digits_value(s: Seq<char>) -> int
    decreases s.len(),
{
    if s.len() == 0 {
        0
    } else {
        digits_value(s.drop_last()) * 10 + (s.last() as int - '0' as int)
    }
}

/// The text with one leading `+` taken off, if it has one.
pub open spec fn unsigned_part(s: Seq<char>) -> Seq<char> {
    if s.len() > 0 && s[0] == '+' {
        s.drop_first()
    } else {
        s
    }
}

/// What std reads from `s` as a `usize`: an optional `+` and then one or
/// more decimal digits whose value fits.
pub open spec fn parsed_usize(s: Seq<char>) -> Option<usize> {
    let d = unsigned_part(s);
    if d.len() > 0 && (forall|i: int| 0 <= i < d.len() ==> is_digit(#[trigger] d[i]))
        && digits_value(d) <= usize::MAX {
        Some(digits_value(d) as usize)
    } else {
        None
    }
}

/// Relies on `<usize as FromStr>::from_str`: an optional `+` followed by
/// digits only, and a value that fits, or else an error.
#[verifier::external_body]
fn parse_usize(s: &str) -> (r: Option<usize>)
    ensures
        r == parsed_usize(s@),
{
    match s.parse::<usize>() {
        Ok(n) => Some(n),
        Err(_) => None,
    }
}

/// Why an entry position given as text was refused.
#[derive(Debug, Clone, Copy, PartialEq, Eq)]
pub enum IndexError {
    /// The text is not a non-negative whole number.
    Invalid,
    /// The number is not below the number of entries.
    OutOfRange,
}

/// Reads an entry position from `input` for a store of `len` entries.
pub fn parse_index(input: &String, len: usize) -> (r: Result<usize, IndexError>)
    ensures
        parsed_usize(input@) is None ==> r == Err::<usize, IndexError>(IndexError::Invalid),
        parsed_usize(input@) matches Some(n) ==> (n < len ==> r == Ok::<usize, IndexError>(n)),
        parsed_usize(input@) matches Some(n) ==> (n >= len ==> r == Err::<usize, IndexError>(
            IndexError::OutOfRange,
        )),
{
    match parse_usize(input.as_str()) {
        None => Err(IndexError::Invalid),
        Some(n) => {
            if n < len {
                Ok(n)
            } else {
                Err(IndexError::OutOfRange)
            }
        },
    }
}

/// Removes the entry at the position written in `input` and returns it. On an
/// error the entries are left as they were.
pub fn remove_password(passwords: &mut Vec<Password>, input: &String) -> (r: Result<
    Password,
    IndexError,
>)
    ensures
        parsed_usize(input@) is None ==> r == Err::<Password, IndexError>(IndexError::Invalid),
        parsed_usize(input@) matches Some(n) ==> (n >= old(passwords)@.len() ==> r == Err::<
            Password,
            IndexError,
        >(IndexError::OutOfRange)),
        r is Err ==> final(passwords)@ == old(passwords)@,
        parsed_usize(input@) matches Some(n) ==> (n < old(passwords)@.len() ==> r == Ok::<
            Password,
            IndexError,
        >(old(passwords)@[n as int]) && final(passwords)@ == old(passwords)@.remove(n as int)),
{
    match parse_index(input, passwords.len()) {
        Ok(n) => Ok(passwords.remove(n)),
        Err(e) => Err(e),
    }
}

/// The password of the entry at the position written in `input`.
pub fn password_at(passwords: &Vec<Password>, input: &String) -> (r: Result<String, IndexError>)
    ensures
        parsed_usize(input@) is None ==> r == Err::<String, IndexError>(IndexError::Invalid),
        parsed_usize(input@) matches Some(n) ==> (n >= passwords@.len() ==> r == Err::<
            String,
            IndexError,
        >(IndexError::OutOfRange)),
        parsed_usize(input@) matches Some(n) ==> (n < passwords@.len() ==> (r matches Ok(p) && p@
            == passwords@[n as int].password@)),
{
    match parse_index(input, passwords.len()) {
        Ok(n) => Ok(passwords[n].password.clone()),
        Err(e) => Err(e),
    }
}

/// What `str::to_lowercase` gives for a text; it depends on the text alone.
pub uninterp spec fn lower_of(s: Seq<char>) -> Seq<char>;

/// Relies on str::to_lowercase: the lowercase form of a text, which depends on
/// its characters alone.
#[verifier::external_body]
fn to_lowercase(s: &str) -> (r: String)
    ensures
        r@ == lower_of(s@),
{
    s.to_lowercase()
}

/// The entries at the positions `i` where `folded[i] == term`, in store order.
pub open spec fn kept(s: Seq<Password>, folded: Seq<Seq<char>>, term: Seq<char>) -> Seq<Password>
    decreases s.len(),
{
    if s.len() == 0 {
        Seq::empty()
    } else {
        let rest = kept(s.drop_last(), folded, term);
        if folded[s.len() - 1] == term {
            rest.push(s.last())
        } else {
            rest
        }
    }
}

/// The lowercase form of each entry's service.
pub open spec fn folded_services(s: Seq<Password>) -> Seq<Seq<char>> {
    Seq::new(s.len(), |i: int| lower_of(s[i].service@))
}

/// The entries whose service equals `term`, case ignored, in store order.
pub open spec fn matching(s: Seq<Password>, term: Seq<char>) -> Seq<Password> {
    kept(s, folded_services(s), lower_of(term))
}

/// Copies of the entries at the positions where `folded[i]` equals
/// `folded_term`, in store order: the selection step of a search, given the
/// services and the term already in lowercase.
pub fn select_matches(passwords: &Vec<Password>, folded: &Vec<String>, folded_term: &String) -> (r:
    Vec<Password>)
    requires
        folded@.len() == passwords@.len(),
    ensures
        r@ == kept(passwords@, folded@.map_values(|f: String| f@), folded_term@),
{
    let ghost fv = folded@.map_values(|f: String| f@);
    let mut results: Vec<Password> = Vec::new();
    let mut i: usize = 0;
    while i < passwords.len()
        invariant
            i <= passwords@.len(),
            folded@.len() == passwords@.len(),
            fv == folded@.map_values(|f: String| f@),
            results@ == kept(passwords@.take(i as int), fv, folded_term@),
        decreases passwords@.len() - i,
    {
        let ghost next = passwords@.take(i + 1);
        assert(next.drop_last() =~= passwords@.take(i as int));
        if folded[i] == *folded_term {
            results.push(passwords[i].duplicate());
        }
        i = i + 1;
    }
    assert(passwords@.take(i as int) =~= passwords@);
    results
}

/// Copies of the entries whose service equals `term`, case ignored, in store
/// order. No match gives an empty result.
pub fn search(passwords: &Vec<Password>, term: &String) -> (r: Vec<Password>)
    ensures
        r@ == matching(passwords@, term@),
{
    let folded_term = to_lowercase(term.as_str());
    let mut folded: Vec<String> = Vec::new();
    let mut i: usize = 0;
    while i < passwords.len()
        invariant
            i <= passwords@.len(),
            folded@.len() == i,
            forall|j: int| 0 <= j < i ==> (#[trigger] folded@[j])@ == lower_of(passwords@[j].service@),
        decreases passwords@.len() - i,
    {
        folded.push(to_lowercase(passwords[i].service.as_str()));
        i = i + 1;
    }
    assert(folded@.map_values(|f: String| f@) =~= folded_services(passwords@));
    select_matches(passwords, &folded, &folded_term)
}

} // verus!
