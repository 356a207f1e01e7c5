//! Call metadata: textual headers under case-insensitive names, and binary
//! values in a table of their own.
use vstd::prelude::*;
use vstd::string::{StrSliceExecFns, StringExecFns, StringSliceAdditionalSpecFns};
use bytes::Bytes;
use http::header::{HeaderMap, HeaderName, HeaderValue};
use std::str::FromStr;
use crate::codec::buffer::bytes_content;
use crate::error::Error;

verus! {

/// The characters a header name may hold.
pub open spec fn is_token_char(c: char) -> bool {
    ('a' <= c && c <= 'z') || ('A' <= c && c <= 'Z') || ('0' <= c && c <= '9') || c == '!' || c
        == '#' || c == '$' || c == '%' || c == '&' || c == '\'' || c == '*' || c == '+' || c == '-'
        || c == '.' || c == '^' || c == '_' || c == '`' || c == '|' || c == '~'
}

/// The lower-case form of an ASCII letter; any other character is itself.
pub open spec fn lower_char(c: char) -> char {
    if 'A' <= c && c <= 'Z' {
        ((c as u8 + 32) as u8) as char
    } else {
        c
    }
}

/// A legal header name: one to 65535 token characters.
pub open spec fn is_header_name(key: Seq<char>) -> bool {
    &&& 1 <= key.len() <= 65535
    &&& forall|i: int| 0 <= i < key.len() ==> is_token_char(#[trigger] key[i])
}

/// The canonical form under which a name is stored and looked up.
pub open spec fn lowered(key: Seq<char>) -> Seq<char> {
    Seq::new(key.len(), |i: int| lower_char(key[i]))
}

/// A character a textual value may hold: a tab, or anything that is not a
/// control character.
pub open spec fn is_value_char(c: char) -> bool {
    c == '\t' || (c >= ' ' && c != '\x7f')
}

/// A legal textual value.
pub open spec fn is_header_value(value: Seq<char>) -> bool {
    forall|i: int| 0 <= i < value.len() ==> is_value_char(#[trigger] value[i])
}

/// White space as `str::trim` understands it.
pub open spec fn is_white_space(c: char) -> bool {
    ('\u{9}' <= c && c <= '\u{d}') || c == ' ' || c == '\u{85}' || c == '\u{a0}' || c
        == '\u{1680}' || ('\u{2000}' <= c && c <= '\u{200a}') || c == '\u{2028}' || c
        == '\u{2029}' || c == '\u{202f}' || c == '\u{205f}' || c == '\u{3000}'
}

/// A key that holds nothing but white space.
pub open spec fn is_blank(key: Seq<char>) -> bool {
    forall|i: int| 0 <= i < key.len() ==> is_white_space(#[trigger] key[i])
}

/// Whether some entry of `s` stands under the name `k`.
pub open spec fn has_key<V>(s: Seq<(Seq<char>, V)>, k: Seq<char>) -> bool {
    exists|i: int| 0 <= i < s.len() && (#[trigger] s[i]).0 == k
}

/// The place of an entry of `s` under the name `k`.
pub open spec fn index_of<V>(s: Seq<(Seq<char>, V)>, k: Seq<char>) -> int {
    choose|i: int| 0 <= i < s.len() && (#[trigger] s[i]).0 == k
}

/// No two entries of `s` stand under one name.
pub open spec fn distinct_keys<V>(s: Seq<(Seq<char>, V)>) -> bool {
    forall|i: int, j: int|
        0 <= i < s.len() && 0 <= j < s.len() && i != j ==> (#[trigger] s[i]).0 != (#[trigger] s[j]).0
}

/// The mapping from name to value that the entries of `s` make up.
pub open spec fn entries_map<V>(s: Seq<(Seq<char>, V)>) -> Map<Seq<char>, V> {
    Map::new(|k: Seq<char>| has_key(s, k), |k: Seq<char>| s[index_of(s, k)].1)
}

/// Under distinct names, the entry at place `i` is the one found by its name.
pub proof fn lemma_entry_at<V>(s: Seq<(Seq<char>, V)>, i: int)
    requires
        distinct_keys(s),
        0 <= i < s.len(),
    ensures
        has_key(s, s[i].0),
        index_of(s, s[i].0) == i,
        entries_map(s).dom().contains(s[i].0),
        entries_map(s)[s[i].0] == s[i].1,
{
    assert(has_key(s, s[i].0));
}

/// Adding an entry under a new name extends the mapping by it.
pub proof fn lemma_push_entry<V>(s: Seq<(Seq<char>, V)>, k: Seq<char>, v: V)
    requires
        distinct_keys(s),
        !has_key(s, k),
    ensures
        distinct_keys(s.push((k, v))),
        entries_map(s.push((k, v))) == entries_map(s).insert(k, v),
{
    let t = s.push((k, v));
    assert(distinct_keys(t)) by {
        assert forall|i: int, j: int| 0 <= i < t.len() && 0 <= j < t.len() && i != j implies (
        #[trigger] t[i]).0 != (#[trigger] t[j]).0 by {
            if i < s.len() && j < s.len() {
                assert(s[i].0 != s[j].0);
            } else if i < s.len() {
                assert(s[i].0 != k);
            } else {
                assert(s[j].0 != k);
            }
        }
    }
    assert forall|q: Seq<char>| has_key(t, q) <==> (q == k || has_key(s, q)) by {
        if has_key(t, q) {
            let i = index_of(t, q);
            if i < s.len() {
                assert(s[i].0 == q);
            }
        }
        if q == k {
            assert(t[s.len() as int].0 == q);
        }
        if has_key(s, q) {
            let i = index_of(s, q);
            assert(t[i].0 == q);
        }
    }
    assert forall|q: Seq<char>| has_key(t, q) implies #[trigger] entries_map(t)[q]
        == entries_map(s).insert(k, v)[q] by {
        let i = index_of(t, q);
        lemma_entry_at(t, i);
        if i < s.len() {
            lemma_entry_at(s, i);
        }
    }
    assert(entries_map(t) =~= entries_map(s).insert(k, v));
}

/// Replacing the value at place `i` rebinds that entry's name and nothing else.
pub proof fn lemma_update_entry<V>(s: Seq<(Seq<char>, V)>, i: int, v: V)
    requires
        distinct_keys(s),
        0 <= i < s.len(),
    ensures
        distinct_keys(s.update(i, (s[i].0, v))),
        entries_map(s.update(i, (s[i].0, v))) == entries_map(s).insert(s[i].0, v),
{
    let k = s[i].0;
    let t = s.update(i, (k, v));
    assert(distinct_keys(t)) by {
        assert forall|a: int, b: int| 0 <= a < t.len() && 0 <= b < t.len() && a != b implies (
        #[trigger] t[a]).0 != (#[trigger] t[b]).0 by {
            assert(t[a].0 == s[a].0);
            assert(t[b].0 == s[b].0);
        }
    }
    assert forall|q: Seq<char>| has_key(t, q) <==> has_key(s, q) by {
        if has_key(t, q) {
            let a = index_of(t, q);
            assert(s[a].0 == q);
        }
        if has_key(s, q) {
            let a = index_of(s, q);
            assert(t[a].0 == q);
        }
    }
    lemma_entry_at(s, i);
    assert forall|q: Seq<char>| has_key(t, q) implies #[trigger] entries_map(t)[q]
        == entries_map(s).insert(k, v)[q] by {
        let a = index_of(t, q);
        lemma_entry_at(t, a);
        lemma_entry_at(s, a);
    }
    assert(entries_map(t) =~= entries_map(s).insert(k, v));
}


#[verifier::external_type_specification]
#[verifier::external_body]
#[verifier::reject_recursive_types(T)]
pub struct ExHeaderMap<T>(HeaderMap<T>);

#[verifier::external_type_specification]
#[verifier::external_body]
pub struct ExHeaderName(HeaderName);

#[verifier::external_type_specification]
#[verifier::external_body]
pub struct ExHeaderValue(HeaderValue);

/// The text of a header name.
pub uninterp spec fn header_name_text(name: HeaderName) -> Seq<char>;

/// The bytes of a header value.
pub uninterp spec fn header_value_bytes(value: HeaderValue) -> Seq<u8>;

/// What a header map holds: each name with a value stored under it, in the
/// order in which the map is walked.
pub uninterp spec fn header_map_entries(map: HeaderMap<HeaderValue>) -> Seq<(Seq<char>, Seq<u8>)>;

/// The number of entries up to which a header map is sure to take one more. Its
/// slot table stops at 32768 slots, and under colliding names it may ask to
/// grow past that from a fifth of that load on.
pub const MAX_ENTRIES: usize = 6553;

/// The stored binary entries as plain values.
pub open spec fn binary_seq(v: Seq<(String, Bytes)>) -> Seq<(Seq<char>, Seq<u8>)> {
    Seq::new(v.len(), |i: int| (v[i].0@, bytes_content(v[i].1)))
}

/// Pairs of a name and a value's bytes as plain values.
pub open spec fn pairs_seq(v: Seq<(String, Vec<u8>)>) -> Seq<(Seq<char>, Seq<u8>)> {
    Seq::new(v.len(), |i: int| (v[i].0@, v[i].1@))
}

/// `HeaderName::from_str`: a key of one to 65535 token characters is accepted
/// and its name is the key in lower case; any other key is refused.
#[verifier::external_body]
fn header_name_of(key: &str) -> (r: Option<HeaderName>)
    ensures
        r.is_some() == is_header_name(key@),
        r matches Some(name) ==> header_name_text(name) == lowered(key@),
{
    match HeaderName::from_str(key) {
        Ok(name) => Some(name),
        Err(_) => None,
    }
}

/// `HeaderName::as_str`: the text of the name.
#[verifier::external_body]
fn header_name_string(name: &HeaderName) -> (s: String)
    ensures
        s@ == header_name_text(*name),
{
    name.as_str().to_string()
}

/// `HeaderValue::from_str`: a value is accepted where each of its bytes is a tab
/// or is at least 32 and not 127, and then holds the bytes of the text.
#[verifier::external_body]
fn header_value_of(value: &str) -> (r: Option<HeaderValue>)
    ensures
        r.is_some() == is_header_value(value@),
        r matches Some(v) ==> header_value_bytes(v) == value.spec_bytes(),
{
    match HeaderValue::from_str(value) {
        Ok(v) => Some(v),
        Err(_) => None,
    }
}

/// `HeaderMap::new`: a map that holds nothing.
#[verifier::external_body]
fn header_map_new() -> (map: HeaderMap<HeaderValue>)
    ensures
        header_map_entries(map) == Seq::<(Seq<char>, Seq<u8>)>::empty(),
{
    HeaderMap::new()
}

/// `HeaderMap::len`: the number of values held, which is the number of
/// entries walked.
#[verifier::external_body]
fn header_map_len(map: &HeaderMap<HeaderValue>) -> (n: usize)
    ensures
        n == header_map_entries(*map).len(),
{
    map.len()
}

/// `HeaderMap::insert` on a map that holds each name once: the value is bound
/// to the name in place of what was bound to it, no other name is touched, and
/// each name is still held once. The call panics where the map cannot grow,
/// which the bound on the entries leaves out.
#[verifier::external_body]
fn header_map_insert(map: &mut HeaderMap<HeaderValue>, name: HeaderName, value: HeaderValue)
    requires
        distinct_keys(header_map_entries(*old(map))),
        header_map_entries(*old(map)).len() <= MAX_ENTRIES,
    ensures
        distinct_keys(header_map_entries(*final(map))),
        entries_map(header_map_entries(*final(map))) == entries_map(
            header_map_entries(*old(map)),
        ).insert(header_name_text(name), header_value_bytes(value)),
        header_map_entries(*final(map)).len() == if has_key(
            header_map_entries(*old(map)),
            header_name_text(name),
        ) {
            header_map_entries(*old(map)).len()
        } else {
            header_map_entries(*old(map)).len() + 1
        },
{
    map.insert(name, value);
}

/// `HeaderMap::get`: a value is found where the map holds the name, and it is
/// one that the map holds under that name.
#[verifier::external_body]
fn header_map_get<'a>(map: &'a HeaderMap<HeaderValue>, name: &HeaderName) -> (r: Option<
    &'a HeaderValue,
>)
    ensures
        r.is_some() == has_key(header_map_entries(*map), header_name_text(*name)),
        r matches Some(value) ==> exists|i: int|
            0 <= i < header_map_entries(*map).len() && (#[trigger] header_map_entries(*map)[i]) == (
                header_name_text(*name),
                header_value_bytes(*value),
            ),
{
    map.get(name)
}

/// `HeaderMap::iter`, each entry handed out as the text of its name and the
/// bytes of its value.
#[verifier::external_body]
fn header_map_pairs(map: &HeaderMap<HeaderValue>) -> (r: Vec<(String, Vec<u8>)>)
    ensures
        pairs_seq(r@) == header_map_entries(*map),
{
    map.iter().map(|(name, value)| (name.as_str().to_string(), value.as_bytes().to_vec())).collect()
}

/// `HeaderMap::clone`.
pub assume_specification<T: Clone>[ <HeaderMap<T> as Clone>::clone ](
    map: &HeaderMap<T>,
) -> (r: HeaderMap<T>)
;

/// Whether `c` is white space.
fn white_space(c: char) -> (b: bool)
    ensures
        b == is_white_space(c),
{
    ('\u{9}' <= c && c <= '\u{d}') || c == ' ' || c == '\u{85}' || c == '\u{a0}' || c
        == '\u{1680}' || ('\u{2000}' <= c && c <= '\u{200a}') || c == '\u{2028}' || c
        == '\u{2029}' || c == '\u{202f}' || c == '\u{205f}' || c == '\u{3000}'
}

/// Whether `key` holds nothing but white space.
fn blank(key: &str) -> (b: bool)
    ensures
        b == is_blank(key@),
{
    let n = key.unicode_len();
    let mut i: usize = 0;
    while i < n
        invariant
            n == key@.len(),
            i <= n,
            forall|j: int| 0 <= j < i ==> is_white_space(#[trigger] key@[j]),
        decreases n - i,
    {
        if !white_space(key.get_char(i)) {
            return false;
        }
        i += 1;
    }
    true
}

/// The canonical form of `key`, or the error that names the key as it was
/// given. A blank key is refused without being parsed.
pub fn normalize_key(key: &str) -> (r: Result<HeaderName, Error>)
    ensures
        r.is_ok() == is_header_name(key@),
        r matches Ok(name) ==> header_name_text(name) == lowered(key@),
        r matches Err(e) ==> (e matches Error::InvalidMetadataKey(k) && k@ == key@),
{
    if blank(key) {
        proof {
            if key@.len() > 0 {
                assert(is_white_space(key@[0]));
            }
        }
        return Err(Error::InvalidMetadataKey(key.to_owned()));
    }
    match header_name_of(key) {
        Some(name) => Ok(name),
        None => Err(Error::InvalidMetadataKey(key.to_owned())),
    }
}

/// The place of the entry under `name`, if there is one.
fn position<T>(entries: &Vec<(String, T)>, name: &String) -> (r: Option<usize>)
    ensures
        r matches Some(i) ==> i < entries.len() && entries[i as int].0@ == name@,
        r is None ==> forall|j: int| 0 <= j < entries.len() ==> (#[trigger] entries[j]).0@ != name@,
{
    let mut i: usize = 0;
    while i < entries.len()
        invariant
            i <= entries.len(),
            forall|j: int| 0 <= j < i ==> (#[trigger] entries[j]).0@ != name@,
        decreases entries.len() - i,
    {
        if entries[i].0 == *name {
            return Some(i);
        }
        i += 1;
    }
    None
}

/// The headers that accompany a call: textual values in a header map, each
/// name once and in canonical form, and binary values in a table of their own.
#[derive(Debug, Clone)]
pub struct Metadata {
    headers: HeaderMap,
    binary: Vec<(String, Bytes)>,
}

impl Default for Metadata {
    fn default() -> (m: Self)
        ensures
            m.wf(),
            m.entries() == Seq::<(Seq<char>, Seq<u8>)>::empty(),
            m.text() == Map::<Seq<char>, Seq<u8>>::empty(),
            m.binary() == Map::<Seq<char>, Seq<u8>>::empty(),
    {
        let m = Self { headers: header_map_new(), binary: Vec::new() };
        proof {
            assert(m.text() =~= Map::<Seq<char>, Seq<u8>>::empty());
            assert(m.binary() =~= Map::<Seq<char>, Seq<u8>>::empty());
        }
        m
    }
}

impl Metadata {
    /// The textual entries in the order in which `iter` hands them out.
    pub closed spec fn entries(&self) -> Seq<(Seq<char>, Seq<u8>)> {
        header_map_entries(self.headers)
    }

    /// The binary entries in the order in which they are stored.
    pub closed spec fn binary_entries(&self) -> Seq<(Seq<char>, Seq<u8>)> {
        binary_seq(self.binary@)
    }

    /// The textual headers: canonical name to the bytes of the value.
    pub open spec fn text(&self) -> Map<Seq<char>, Seq<u8>> {
        entries_map(self.entries())
    }

    /// The binary table: suffixed canonical name to bytes.
    pub open spec fn binary(&self) -> Map<Seq<char>, Seq<u8>> {
        entries_map(self.binary_entries())
    }

    /// Each name occurs once in its table.
    pub open spec fn wf(&self) -> bool {
        distinct_keys(self.entries()) && distinct_keys(self.binary_entries())
    }

    /// Metadata with no entry.
    pub fn new() -> (m: Self)
        ensures
            m.wf(),
            m.entries() == Seq::<(Seq<char>, Seq<u8>)>::empty(),
            m.text() == Map::<Seq<char>, Seq<u8>>::empty(),
            m.binary() == Map::<Seq<char>, Seq<u8>>::empty(),
    {
        Self::default()
    }

    /// The number of textual entries.
    pub fn len(&self) -> (n: usize)
        ensures
            n == self.entries().len(),
    {
        header_map_len(&self.headers)
    }

    /// Binds the canonical form of `key` to `value` among the textual headers,
    /// in place of what was bound to it. A key that is no header name, or a
    /// value that holds a control character, changes nothing. The header map
    /// must have room for one more entry.
    pub fn insert(&mut self, key: &str, value: &str) -> (r: Result<(), Error>)
        requires
            old(self).wf(),
            old(self).entries().len() <= MAX_ENTRIES,
        ensures
            final(self).wf(),
            final(self).binary_entries() == old(self).binary_entries(),
            !is_header_name(key@) ==> (r matches Err(Error::InvalidMetadataKey(k)) && k@ == key@)
                && final(self).entries() == old(self).entries(),
            is_header_name(key@) && !is_header_value(value@) ==> (r matches Err(
                Error::InvalidMetadataValue(v),
            ) && v@ == value@) && final(self).entries() == old(self).entries(),
            is_header_name(key@) && is_header_value(value@) ==> r == Ok::<(), Error>(())
                && final(self).text() == old(self).text().insert(
                lowered(key@),
                value.spec_bytes(),
            ) && final(self).entries().len() == if old(self).text().dom().contains(lowered(key@)) {
                old(self).entries().len()
            } else {
                old(self).entries().len() + 1
            },
    {
        let name = match normalize_key(key) {
            Ok(name) => name,
            Err(e) => {
                return Err(e);
            },
        };
        let stored = match header_value_of(value) {
            Some(stored) => stored,
            None => {
                return Err(Error::InvalidMetadataValue(value.to_owned()));
            },
        };
        header_map_insert(&mut self.headers, name, stored);
        Ok(())
    }

    /// Binds the canonical form of `key`, with `-bin` behind it, to `value` in
    /// the binary table. The textual headers are not touched.
    pub fn insert_bin(&mut self, key: &str, value: Bytes) -> (r: Result<(), Error>)
        requires
            old(self).wf(),
        ensures
            final(self).wf(),
            final(self).entries() == old(self).entries(),
            !is_header_name(key@) ==> (r matches Err(Error::InvalidMetadataKey(k)) && k@ == key@)
                && final(self).binary_entries() == old(self).binary_entries(),
            is_header_name(key@) ==> r == Ok::<(), Error>(()) && final(self).binary() == old(
                self,
            ).binary().insert(lowered(key@) + "-bin"@, bytes_content(value)),
    {
        let name = match normalize_key(key) {
            Ok(name) => header_name_string(&name).concat("-bin"),
            Err(e) => {
                return Err(e);
            },
        };
        let ghost before = self.binary_entries();
        let ghost bytes = bytes_content(value);
        match position(&self.binary, &name) {
            Some(i) => {
                self.binary.set(i, (name, value));
                proof {
                    lemma_update_entry(before, i as int, bytes);
                    assert(self.binary_entries() =~= before.update(
                        i as int,
                        (before[i as int].0, bytes),
                    ));
                }
            },
            None => {
                self.binary.push((name, value));
                proof {
                    assert(!has_key(before, name@)) by {
                        if has_key(before, name@) {
                            let j = index_of(before, name@);
                            assert(old(self).binary@[j].0@ == name@);
                        }
                    }
                    lemma_push_entry(before, name@, bytes);
                    assert(self.binary_entries() =~= before.push((name@, bytes)));
                }
            },
        }
        Ok(())
    }

    /// The textual value bound to the canonical form of `key`. Binary entries
    /// are never found here.
    pub fn get(&self, key: &str) -> (r: Option<&HeaderValue>)
        requires
            self.wf(),
        ensures
            r.is_some() == (is_header_name(key@) && self.text().dom().contains(lowered(key@))),
            r matches Some(value) ==> header_value_bytes(*value) == self.text()[lowered(key@)],
    {
        match normalize_key(key) {
            Ok(name) => {
                let found = header_map_get(&self.headers, &name);
                proof {
                    if let Some(value) = found {
                        let i = choose|i: int|
                            0 <= i < self.entries().len() && (#[trigger] self.entries()[i]) == (
                                lowered(key@),
                                header_value_bytes(*value),
                            );
                        lemma_entry_at(self.entries(), i);
                    }
                }
                found
            },
            Err(_) => None,
        }
    }

    /// The bytes bound in the binary table to the canonical form of `key` with
    /// `-bin` behind it. Textual entries are never found here.
    pub fn get_bin(&self, key: &str) -> (r: Option<&Bytes>)
        requires
            self.wf(),
        ensures
            r.is_some() == (is_header_name(key@) && self.binary().dom().contains(
                lowered(key@) + "-bin"@,
            )),
            r matches Some(value) ==> bytes_content(*value) == self.binary()[lowered(key@)
                + "-bin"@],
    {
        match normalize_key(key) {
            Ok(name) => {
                let name = header_name_string(&name).concat("-bin");
                match position(&self.binary, &name) {
                    Some(i) => {
                        proof {
                            lemma_entry_at(self.binary_entries(), i as int);
                        }
                        Some(&self.binary[i].1)
                    },
                    None => {
                        proof {
                            if has_key(self.binary_entries(), name@) {
                                let j = index_of(self.binary_entries(), name@);
                                assert(self.binary@[j].0@ == name@);
                            }
                        }
                        None
                    },
                }
            },
            Err(_) => None,
        }
    }

    /// The textual entries, each name with the bytes of the value bound to it.
    pub fn iter(&self) -> (r: Vec<(String, Vec<u8>)>)
        ensures
            pairs_seq(r@) == self.entries(),
    {
        header_map_pairs(&self.headers)
    }
}

/// Two characters with one lower-case form are both token characters or
/// neither is.
pub proof fn lemma_lower_char_token(a: char, b: char)
    requires
        lower_char(a) == lower_char(b),
    ensures
        is_token_char(a) == is_token_char(b),
{
    if 'A' <= a && a <= 'Z' {
        assert(65 <= a as u8 <= 90);
        assert(97 <= lower_char(a) as u8 <= 122);
    }
    if 'A' <= b && b <= 'Z' {
        assert(65 <= b as u8 <= 90);
        assert(97 <= lower_char(b) as u8 <= 122);
    }
}

/// The canonical form of a name is its own canonical form, so a name is found
/// under the spelling in which it is stored.
pub proof fn lemma_lowered_idempotent(key: Seq<char>)
    ensures
        lowered(lowered(key)) == lowered(key),
{
    assert forall|i: int| 0 <= i < key.len() implies lower_char(lower_char(#[trigger] key[i]))
        == lower_char(key[i]) by {
        let c = key[i];
        if 'A' <= c && c <= 'Z' {
            assert(65 <= c as u8 <= 90);
            assert(97 <= lower_char(c) as u8 <= 122);
        }
    }
    assert(lowered(lowered(key)) =~= lowered(key));
}

/// Lookup does not tell upper case from lower case: once a value is bound
/// under one spelling of a name, it is found under every spelling that differs
/// only in the case of its letters.
pub proof fn lemma_lookup_ignores_case(
    before: Metadata,
    after: Metadata,
    k1: Seq<char>,
    k2: Seq<char>,
    value: Seq<u8>,
)
    requires
        is_header_name(k1),
        after.text() == before.text().insert(lowered(k1), value),
        lowered(k1) == lowered(k2),
    ensures
        is_header_name(k2),
        after.text().dom().contains(lowered(k2)),
        after.text()[lowered(k2)] == value,
{
    assert(k1.len() == lowered(k1).len());
    assert(k2.len() == lowered(k2).len());
    assert forall|i: int| 0 <= i < k2.len() implies is_token_char(#[trigger] k2[i]) by {
        assert(is_token_char(k1[i]));
        assert(lowered(k1)[i] == lower_char(k1[i]));
        assert(lowered(k2)[i] == lower_char(k2[i]));
        lemma_lower_char_token(k1[i], k2[i]);
    }
}

/// A blank key, the empty one among them, is no header name; nor is a key that
/// holds a character outside the token set.
pub proof fn lemma_bad_keys(key: Seq<char>)
    ensures
        key.len() == 0 ==> !is_header_name(key),
        is_blank(key) ==> !is_header_name(key),
        (exists|i: int| 0 <= i < key.len() && !is_token_char(#[trigger] key[i]))
            ==> !is_header_name(key),
{
    if is_blank(key) && key.len() > 0 {
        assert(is_white_space(key[0]));
    }
}

/// A value that holds a NUL character is no header value.
pub proof fn lemma_nul_value(value: Seq<char>, i: int)
    requires
        0 <= i < value.len(),
        value[i] == '\0',
    ensures
        !is_header_value(value),
{
}

} // verus!
