//! Resolution of field slots into the length-prefixed strings they point at,
//! with a cache for the few distinct values and an LRU cache for the many.
use std::collections::BTreeMap;

use vstd::prelude::*;
use vstd::utf8::{decode_utf8, valid_utf8};

use crate::record_field::{same_contents, RecordField, RecordFieldContent, RecordFieldContents};

verus! {

broadcast use vstd::std_specs::btree::group_btree_axioms, vstd::laws_cmp::group_laws_cmp;

/// The country name lies this many bytes after the country code's offset.
pub const COUNTRY_NAME_INDEX_OFFSET: u64 = 3;

/// Entries that the LRU cache of a resolver holds at most.
pub const LRU_CAPACITY: usize = 10000;

#[verifier::external_type_specification]
#[verifier::external_body]
#[verifier::reject_recursive_types(K)]
#[verifier::reject_recursive_types(V)]
#[verifier::reject_recursive_types(S)]
pub struct ExLruCache<K, V, S>(lru::LruCache<K, V, S>);

/// The LRU cache of a resolver: offset to text.
pub type TextLru = lru::LruCache<u32, String>;

/// What an LRU cache holds: offset to text.
pub uninterp spec fn lru_entries(c: TextLru) -> Map<u32, Seq<char>>;

/// The capacity that an LRU cache was made with.
pub uninterp spec fn lru_cap(c: TextLru) -> nat;

/// Relies on `lru::LruCache::new`: an empty cache that holds at most `cap`
/// entries.
#[verifier::external_body]
fn lru_new(cap: usize) -> (r: TextLru)
    ensures
        lru_entries(r).dom().is_empty(),
        lru_cap(r) == cap,
{
    lru::LruCache::new(cap)
}

/// Relies on `lru::LruCache::get`: the value stored under `k`, if any; the
/// entries stay, only their recency changes.
#[verifier::external_body]
fn lru_get(c: &mut TextLru, k: u32) -> (r: Option<String>)
    ensures
        lru_entries(*final(c)) == lru_entries(*old(c)),
        lru_cap(*final(c)) == lru_cap(*old(c)),
        r is Some == lru_entries(*old(c)).contains_key(k),
        r matches Some(v) ==> v@ == lru_entries(*old(c))[k],
{
    c.get(&k).cloned()
}

/// Relies on `lru::LruCache::push`: with a capacity above zero, `k` then
/// maps to `v` and every other key left maps to what it did (the least
/// recently used one may go); with capacity zero nothing changes.
#[verifier::external_body]
fn lru_push(c: &mut TextLru, k: u32, v: String)
    ensures
        lru_cap(*final(c)) == lru_cap(*old(c)),
        lru_cap(*old(c)) > 0 ==> lru_entries(*final(c)).contains_key(k) && lru_entries(
            *final(c),
        )[k] == v@,
        lru_cap(*old(c)) == 0 ==> lru_entries(*final(c)) == lru_entries(*old(c)),
        forall|j: u32|
            #![trigger lru_entries(*final(c)).contains_key(j)]
            lru_entries(*final(c)).contains_key(j) && j != k ==> lru_entries(*old(c)).contains_key(
                j,
            ) && lru_entries(*final(c))[j] == lru_entries(*old(c))[j],
{
    c.push(k, v);
}

/// Relies on `core::str::from_utf8`: `Ok` exactly for valid UTF-8, whose
/// characters it then holds.
#[verifier::external_body]
fn text_of_utf8(b: &[u8]) -> (r: Option<String>)
    ensures
        r is Some == valid_utf8(b@),
        r matches Some(s) ==> s@ == decode_utf8(b@),
{
    match core::str::from_utf8(b) {
        Ok(s) => Some(s.to_owned()),
        Err(_) => None,
    }
}

/// Why a string of the pool could not be read.
#[derive(Debug, Clone, Copy, PartialEq, Eq, Structural)]
pub enum FillError {
    /// The offset lies past the end of the file.
    ReadFailed,
    /// The string runs past the end of the file.
    ShortRead,
    ToUtf8Failed,
}

/// The string stored at byte `o` of `file`: a length byte `L`, then `L`
/// bytes of UTF-8.
pub open spec fn string_at(file: Seq<u8>, o: int) -> Result<Seq<char>, FillError> {
    if o < 0 || o >= file.len() {
        Err(FillError::ReadFailed)
    } else if o + 1 + file[o] > file.len() {
        Err(FillError::ShortRead)
    } else if !valid_utf8(file.subrange(o + 1, o + 1 + file[o])) {
        Err(FillError::ToUtf8Failed)
    } else {
        Ok(decode_utf8(file.subrange(o + 1, o + 1 + file[o])))
    }
}

/// Reads the string stored at byte `o` of `file`.
pub fn read_string(file: &[u8], o: u64) -> (r: Result<String, FillError>)
    ensures
        r matches Ok(s) ==> string_at(file@, o as int) == Ok::<Seq<char>, FillError>(s@),
        r matches Err(e) ==> string_at(file@, o as int) == Err::<Seq<char>, FillError>(e),
{
    if o >= file.len() as u64 {
        return Err(FillError::ReadFailed);
    }
    let start = o as usize;
    let len = file[start] as usize;
    if len > file.len() - start - 1 {
        return Err(FillError::ShortRead);
    }
    let mut bytes: Vec<u8> = Vec::new();
    let mut i: usize = 0;
    while i < len
        invariant
            start + 1 + len <= file.len(),
            i <= len,
            bytes@ == file@.subrange(start + 1, start + 1 + i),
        decreases len - i,
    {
        bytes.push(file[start + 1 + i]);
        i = i + 1;
        assert(bytes@ =~= file@.subrange(start + 1, start + 1 + i));
    }
    match text_of_utf8(bytes.as_slice()) {
        Some(s) => Ok(s),
        None => Err(FillError::ToUtf8Failed),
    }
}

/// What filling `c` from `file` yields: its text and its country name.
pub open spec fn slot_result(c: RecordFieldContent, file: Seq<u8>) -> Result<
    (Seq<char>, Seq<char>),
    FillError,
> {
    let f = c.field_spec();
    if f == RecordField::LATITUDE || f == RecordField::LONGITUDE || f == RecordField::IP {
        Ok((c.text_spec(), c.name_spec()))
    } else if f == RecordField::COUNTRY {
        match string_at(file, c.slot_spec() as int) {
            Err(e) => Err(e),
            Ok(code) => match string_at(file, c.slot_spec() + COUNTRY_NAME_INDEX_OFFSET) {
                Err(e) => Err(e),
                Ok(name) => Ok((code, name)),
            },
        }
    } else {
        match string_at(file, c.slot_spec() as int) {
            Err(e) => Err(e),
            Ok(text) => Ok((text, c.name_spec())),
        }
    }
}

/// The outcome of filling `s`: the first failing slot's error, in order.
pub open spec fn fill_outcome(s: Seq<RecordFieldContent>, file: Seq<u8>) -> Result<(), FillError>
    decreases s.len(),
{
    if s.len() == 0 {
        Ok(())
    } else {
        match fill_outcome(s.drop_last(), file) {
            Err(e) => Err(e),
            Ok(_) => match slot_result(s.last(), file) {
                Err(e) => Err(e),
                Ok(_) => Ok(()),
            },
        }
    }
}

proof fn lemma_outcome_prefix(s: Seq<RecordFieldContent>, file: Seq<u8>, k: int)
    requires
        0 <= k <= s.len(),
        fill_outcome(s.subrange(0, k), file) is Err,
    ensures
        fill_outcome(s, file) == fill_outcome(s.subrange(0, k), file),
    decreases s.len() - k,
{
    if k < s.len() {
        assert(s.drop_last().subrange(0, k) =~= s.subrange(0, k));
        lemma_outcome_prefix(s.drop_last(), file, k);
    } else {
        assert(s.subrange(0, k) =~= s);
    }
}

/// A fill whose slots before `i` succeed and whose slot `i` fails ends
/// with that slot's error.
proof fn lemma_fill_stops(s: Seq<RecordFieldContent>, file: Seq<u8>, i: int, e: FillError)
    requires
        0 <= i < s.len(),
        fill_outcome(s.subrange(0, i), file) is Ok,
        slot_result(s[i], file) == Err::<(Seq<char>, Seq<char>), FillError>(e),
    ensures
        fill_outcome(s, file) == Err::<(), FillError>(e),
{
    assert(s.subrange(0, i + 1).drop_last() =~= s.subrange(0, i));
    assert(s.subrange(0, i + 1).last() == s[i]);
    lemma_outcome_prefix(s, file, i + 1);
}

proof fn lemma_filled_extend(
    s: Seq<RecordFieldContent>,
    before: Seq<RecordFieldContent>,
    after: Seq<RecordFieldContent>,
    file: Seq<u8>,
    i: int,
)
    requires
        0 <= i < s.len(),
        before.len() == s.len(),
        after.len() == s.len(),
        filled_from(s.subrange(0, i), before.subrange(0, i), file),
        forall|j: int| 0 <= j < i ==> after[j] == before[j],
        after[i].field_spec() == s[i].field_spec(),
        after[i].slot_spec() == s[i].slot_spec(),
        slot_result(s[i], file) == Ok::<(Seq<char>, Seq<char>), FillError>(
            (after[i].text_spec(), after[i].name_spec()),
        ),
    ensures
        filled_from(s.subrange(0, i + 1), after.subrange(0, i + 1), file),
{
    assert forall|j: int| 0 <= j < i + 1 implies {
        &&& (#[trigger] after.subrange(0, i + 1)[j]).field_spec() == s.subrange(0, i + 1)[j].field_spec()
        &&& after.subrange(0, i + 1)[j].slot_spec() == s.subrange(0, i + 1)[j].slot_spec()
        &&& slot_result(s.subrange(0, i + 1)[j], file) == Ok::<(Seq<char>, Seq<char>), FillError>(
            (after.subrange(0, i + 1)[j].text_spec(), after.subrange(0, i + 1)[j].name_spec()),
        )
    } by {
        if j < i {
            assert(before.subrange(0, i)[j] == after[j]);
            assert(s.subrange(0, i)[j] == s[j]);
        }
    }
}

/// `new` holds the contents of `old` with the same fields and slots.
pub open spec fn keeps_slots(old: Seq<RecordFieldContent>, new: Seq<RecordFieldContent>) -> bool {
    &&& new.len() == old.len()
    &&& forall|i: int|
        0 <= i < new.len() ==> {
            &&& (#[trigger] new[i]).field_spec() == old[i].field_spec()
            &&& new[i].slot_spec() == old[i].slot_spec()
        }
}

/// `new` is `old` with every slot filled from `file`.
pub open spec fn filled_from(
    old: Seq<RecordFieldContent>,
    new: Seq<RecordFieldContent>,
    file: Seq<u8>,
) -> bool {
    &&& new.len() == old.len()
    &&& forall|i: int|
        0 <= i < new.len() ==> {
            &&& (#[trigger] new[i]).field_spec() == old[i].field_spec()
            &&& new[i].slot_spec() == old[i].slot_spec()
            &&& slot_result(old[i], file) == Ok::<(Seq<char>, Seq<char>), FillError>(
                (new[i].text_spec(), new[i].name_spec()),
            )
        }
}

/// The content resolver: reads the strings that slots point at, and caches
/// them by offset.
#[derive(Debug)]
pub struct Querier {
    static_cache: BTreeMap<u32, String>,
    lru_cache: TextLru,
}

impl Querier {
    pub closed spec fn static_entries(&self) -> Map<u32, String> {
        self.static_cache@
    }

    pub closed spec fn lru_entries(&self) -> Map<u32, Seq<char>> {
        lru_entries(self.lru_cache)
    }

    /// Every cached text is the string stored at its offset in `file`.
    pub open spec fn agrees_with(&self, file: Seq<u8>) -> bool {
        &&& forall|k: u32|
            #[trigger] self.static_entries().contains_key(k) ==> string_at(file, k as int) == Ok::<
                Seq<char>,
                FillError,
            >(self.static_entries()[k]@)
        &&& forall|k: u32|
            #[trigger] self.lru_entries().contains_key(k) ==> string_at(file, k as int) == Ok::<
                Seq<char>,
                FillError,
            >(self.lru_entries()[k])
    }

    /// A resolver with empty caches.
    pub fn new() -> (r: Querier)
        ensures
            r.static_entries() == Map::<u32, String>::empty(),
            r.lru_entries() == Map::<u32, Seq<char>>::empty(),
            forall|file: Seq<u8>| r.agrees_with(file),
    {
        Querier { static_cache: BTreeMap::new(), lru_cache: lru_new(LRU_CAPACITY) }
    }

    fn static_text(&mut self, file: &[u8], o: u64) -> (r: Result<String, FillError>)
        requires
            old(self).agrees_with(file@),
        ensures
            final(self).agrees_with(file@),
            r matches Ok(s) ==> string_at(file@, o as int) == Ok::<Seq<char>, FillError>(s@),
            r matches Err(e) ==> string_at(file@, o as int) == Err::<Seq<char>, FillError>(e),
    {
        if o > u32::MAX as u64 {
            return read_string(file, o);
        }
        let k = o as u32;
        let ghost before = self.static_entries();
        match self.static_cache.get(&k) {
            Some(s) => {
                assert(self.static_entries().contains_key(k));
                assert(self.static_entries() == before);
                assert(self.agrees_with(file@));
                Ok(s.clone())
            },
            None => {
                let s = match read_string(file, o) {
                    Ok(s) => s,
                    Err(e) => {
                        assert(self.static_entries() == before);
                        assert(self.agrees_with(file@));
                        return Err(e);
                    },
                };
                let s2 = s.clone();
                self.static_cache.insert(k, s2);
                assert(self.static_entries() == before.insert(k, s2));
                assert(o as int == k as int);
                proof {
                    assert forall|j: u32| #[trigger]
                        self.static_entries().contains_key(j) implies string_at(
                        file@,
                        j as int,
                    ) == Ok::<Seq<char>, FillError>(self.static_entries()[j]@) by {
                        if j != k {
                            assert(before.contains_key(j));
                        } else {
                            assert(self.static_entries()[j] == s2);
                        }
                    }
                    assert(self.lru_entries() == old(self).lru_entries());
                }
                Ok(s)
            },
        }
    }

    fn lru_text(&mut self, file: &[u8], o: u32) -> (r: Result<String, FillError>)
        requires
            old(self).agrees_with(file@),
        ensures
            final(self).agrees_with(file@),
            r matches Ok(s) ==> string_at(file@, o as int) == Ok::<Seq<char>, FillError>(s@),
            r matches Err(e) ==> string_at(file@, o as int) == Err::<Seq<char>, FillError>(e),
    {
        let ghost before = self.lru_entries();
        match lru_get(&mut self.lru_cache, o) {
            Some(s) => {
                assert(self.lru_entries() == before);
                Ok(s)
            },
            None => {
                assert(self.lru_entries() == before);
                assert(forall|k: u32| #[trigger] self.lru_entries().contains_key(k) ==> before.contains_key(k));
                assert(self.static_entries() == old(self).static_entries());
                assert(self.agrees_with(file@));
                let s = match read_string(file, o as u64) {
                    Ok(s) => s,
                    Err(e) => return Err(e),
                };
                lru_push(&mut self.lru_cache, o, s.clone());
                proof {
                    assert forall|j: u32| #[trigger]
                        self.lru_entries().contains_key(j) implies string_at(
                        file@,
                        j as int,
                    ) == Ok::<Seq<char>, FillError>(self.lru_entries()[j]) by {
                        if j != o {
                            assert(lru_entries(self.lru_cache).contains_key(j));
                            assert(before.contains_key(j));
                        }
                    }
                }
                Ok(s)
            },
        }
    }

    /// Fills every string slot of `contents` with the string its offset
    /// points at in `file`; the country name comes from three bytes past the
    /// code's offset. Cached texts are used where present.
    pub fn fill(&mut self, contents: &mut RecordFieldContents, file: &[u8]) -> (r: Result<
        (),
        FillError,
    >)
        requires
            old(self).agrees_with(file@),
        ensures
            final(self).agrees_with(file@),
            r == fill_outcome(old(contents)@, file@),
            keeps_slots(old(contents)@, final(contents)@),
            r is Ok ==> filled_from(old(contents)@, final(contents)@, file@),
    {
        let ghost s0 = contents@;
        let n = contents.len();
        let mut i: usize = 0;
        while i < n
            invariant
                self.agrees_with(file@),
                s0 == old(contents)@,
                n == s0.len(),
                i <= n,
                contents@.len() == n,
                keeps_slots(s0, contents@),
                fill_outcome(s0.subrange(0, i as int), file@) is Ok,
                filled_from(s0.subrange(0, i as int), contents@.subrange(0, i as int), file@),
                forall|j: int| i <= j < n ==> contents@[j] == s0[j],
            decreases n - i,
        {
            assert(s0.subrange(0, i + 1).drop_last() =~= s0.subrange(0, i as int));
            assert(s0.subrange(0, i + 1).last() == s0[i as int]);
            let ghost before = contents@;
            let c = contents.get(i);
            let field = c.field();
            let slot = c.slot();
            let ghost ci = s0[i as int];
            match field {
                RecordField::LATITUDE | RecordField::LONGITUDE | RecordField::IP => {},
                RecordField::COUNTRY => {
                    let code = match self.static_text(file, slot as u64) {
                        Ok(s) => s,
                        Err(e) => {
                            proof {
                                lemma_fill_stops(s0, file@, i as int, e);
                            }
                            return Err(e);
                        },
                    };
                    let name = match self.static_text(
                        file,
                        slot as u64 + COUNTRY_NAME_INDEX_OFFSET,
                    ) {
                        Ok(s) => s,
                        Err(e) => {
                            proof {
                                lemma_fill_stops(s0, file@, i as int, e);
                            }
                            return Err(e);
                        },
                    };
                    contents.set_text_at(i, code);
                    contents.set_name_at(i, name);
                },
                RecordField::PROXYTYPE | RecordField::USAGETYPE | RecordField::NETSPEED => {
                    let text = match self.static_text(file, slot as u64) {
                        Ok(s) => s,
                        Err(e) => {
                            proof {
                                lemma_fill_stops(s0, file@, i as int, e);
                            }
                            return Err(e);
                        },
                    };
                    contents.set_text_at(i, text);
                },
                RecordField::REGION | RecordField::CITY | RecordField::ZIPCODE
                | RecordField::TIMEZONE => {
                    let text = match self.lru_text(file, slot) {
                        Ok(s) => s,
                        Err(e) => {
                            proof {
                                lemma_fill_stops(s0, file@, i as int, e);
                            }
                            return Err(e);
                        },
                    };
                    contents.set_text_at(i, text);
                },
                _ => {
                    let text = match read_string(file, slot as u64) {
                        Ok(s) => s,
                        Err(e) => {
                            proof {
                                lemma_fill_stops(s0, file@, i as int, e);
                            }
                            return Err(e);
                        },
                    };
                    contents.set_text_at(i, text);
                },
            }
            proof {
                lemma_filled_extend(s0, before, contents@, file@, i as int);
            }
            i = i + 1;
            assert(s0.subrange(0, i as int).drop_last() =~= s0.subrange(0, i - 1));
        }
        assert(s0.subrange(0, n as int) =~= s0);
        assert(contents@.subrange(0, n as int) =~= contents@);
        Ok(())
    }
}

proof fn lemma_slot_result_same(a: RecordFieldContent, b: RecordFieldContent, file: Seq<u8>)
    requires
        a.field_spec() == b.field_spec(),
        a.slot_spec() == b.slot_spec(),
        a.text_spec() == b.text_spec(),
        a.name_spec() == b.name_spec(),
    ensures
        slot_result(a, file) == slot_result(b, file),
{
}

/// Contents that agree fill with the same outcome.
pub proof fn lemma_fill_outcome_same(
    a: Seq<RecordFieldContent>,
    b: Seq<RecordFieldContent>,
    file: Seq<u8>,
)
    requires
        same_contents(a, b),
    ensures
        fill_outcome(a, file) == fill_outcome(b, file),
    decreases a.len(),
{
    if a.len() > 0 {
        assert(same_contents(a.drop_last(), b.drop_last())) by {
            assert forall|i: int| 0 <= i < a.drop_last().len() implies {
                &&& (#[trigger] a.drop_last()[i]).field_spec() == b.drop_last()[i].field_spec()
                &&& a.drop_last()[i].slot_spec() == b.drop_last()[i].slot_spec()
                &&& a.drop_last()[i].text_spec() == b.drop_last()[i].text_spec()
                &&& a.drop_last()[i].name_spec() == b.drop_last()[i].name_spec()
            } by {
                assert(a.drop_last()[i] == a[i]);
                assert(b.drop_last()[i] == b[i]);
            }
        }
        lemma_fill_outcome_same(a.drop_last(), b.drop_last(), file);
        lemma_slot_result_same(a.last(), b.last(), file);
    }
}

/// Cache hits agree with cache misses: whatever a resolver's caches held,
/// as long as they agree with the file, filling contents that agree yields
/// contents that agree. A fill is fixed by the file and the slots alone.
pub proof fn lemma_fill_cache_independent(
    a: Seq<RecordFieldContent>,
    b: Seq<RecordFieldContent>,
    x: Seq<RecordFieldContent>,
    y: Seq<RecordFieldContent>,
    file: Seq<u8>,
)
    requires
        same_contents(a, b),
        filled_from(a, x, file),
        filled_from(b, y, file),
    ensures
        same_contents(x, y),
{
    assert forall|i: int| 0 <= i < x.len() implies {
        &&& (#[trigger] x[i]).field_spec() == y[i].field_spec()
        &&& x[i].slot_spec() == y[i].slot_spec()
        &&& x[i].text_spec() == y[i].text_spec()
        &&& x[i].name_spec() == y[i].name_spec()
    } by {
        assert(a[i].field_spec() == b[i].field_spec());
        lemma_slot_result_same(a[i], b[i], file);
    }
}

/// The text stored for an unknown value.
pub open spec fn unknown_text() -> Seq<char> {
    seq!['-']
}

/// Whether `s` is the unknown-value sentinel `"-"`.
pub fn is_unknown(s: &String) -> (r: bool)
    ensures
        r == (s@ == unknown_text()),
{
    let dash = "-".to_owned();
    proof {
        reveal_strlit("-");
        assert("-"@ =~= seq!['-']);
    }
    *s == dash
}

/// Whether `s` holds exactly the characters of `lit`.
pub fn text_is(s: &String, lit: &str) -> (r: bool)
    ensures
        r == (s@ == lit@),
{
    let l = lit.to_owned();
    *s == l
}

/// A text as an optional value: none for the unknown-value sentinel.
pub open spec fn known(t: Seq<char>) -> Option<Seq<char>> {
    if t == unknown_text() {
        None
    } else {
        Some(t)
    }
}

pub open spec fn opt_view(o: Option<String>) -> Option<Seq<char>> {
    match o {
        Some(s) => Some(s@),
        None => None,
    }
}

/// `Some(s)`, or none for the sentinel.
pub fn known_text(s: String) -> (r: Option<String>)
    ensures
        opt_view(r) == known(s@),
{
    if is_unknown(&s) {
        None
    } else {
        Some(s)
    }
}

} // verus!
