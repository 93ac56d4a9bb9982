//! Registry value data: rendering raw value bytes as text, and the
//! change diff of one polling round.
//!
//! A registry value's bytes are first read as little-endian UTF-16 and
//! trimmed of NUL padding; when nothing but whitespace remains, the
//! bytes are read as UTF-8 instead (lossily) and trimmed the same way.
//! The diff compares the cached values of a key with the values read
//! now and reports an event per added, changed or removed value, in
//! the order the values stand in the inputs: changes and additions in
//! the order of the current values, removals in the order of the cache.

use vstd::prelude::*;
use crate::strutil::chars_of;
use crate::utf16::utf16_decode;
use crate::wire::le_bytes;

verus! {

/// The UTF-16 code units of a byte buffer read pairwise little endian;
/// a trailing odd byte is ignored.
pub open spec fn units_of(b: Seq<u8>) -> Seq<u16> {
    Seq::new(b.len() / 2, |i: int| le_bytes(b, 2 * i, 2) as u16)
}

/// `s` without its leading `c` characters.
pub open spec fn drop_leading(s: Seq<char>, c: char) -> Seq<char>
    decreases s.len(),
{
    if s.len() > 0 && s[0] == c {
        drop_leading(s.skip(1), c)
    } else {
        s
    }
}

/// `s` without its trailing `c` characters.
pub open spec fn drop_trailing(s: Seq<char>, c: char) -> Seq<char>
    decreases s.len(),
{
    if s.len() > 0 && s.last() == c {
        drop_trailing(s.drop_last(), c)
    } else {
        s
    }
}

/// `s` without leading and trailing `c` characters.
pub open spec fn trim_char(s: Seq<char>, c: char) -> Seq<char> {
    drop_trailing(drop_leading(s, c), c)
}

/// Dropping leading `c`s skips exactly up to the first other character.
proof fn lemma_drop_leading(s: Seq<char>, c: char, a: int)
    requires
        0 <= a <= s.len(),
        forall|j: int| 0 <= j < a ==> s[j] == c,
        a == s.len() || s[a] != c,
    ensures
        drop_leading(s, c) == s.skip(a),
    decreases a,
{
    if a == 0 {
        assert(s.skip(0) =~= s);
    } else {
        lemma_drop_leading(s.skip(1), c, a - 1);
        assert(s.skip(1).skip(a - 1) =~= s.skip(a));
    }
}

/// Dropping trailing `c`s takes exactly up to the last other character.
proof fn lemma_drop_trailing(s: Seq<char>, c: char, b: int)
    requires
        0 <= b <= s.len(),
        forall|j: int| b <= j < s.len() ==> s[j] == c,
        b == 0 || s[b - 1] != c,
    ensures
        drop_trailing(s, c) == s.take(b),
    decreases s.len(),
{
    if b == s.len() {
        assert(s.take(b) =~= s);
    } else {
        lemma_drop_trailing(s.drop_last(), c, b);
        assert(s.drop_last().take(b) =~= s.take(b));
    }
}

/// Trims leading and trailing `c` characters from a string.
pub fn trim_char_ends(s: &str, c: char) -> (r: String)
    ensures
        r@ == trim_char(s@, c),
{
    let v = chars_of(s);
    let n: usize = v.len();
    let mut a: usize = 0;
    while a < n && v[a] == c
        invariant
            a <= n,
            n == v@.len(),
            v@ == s@,
            forall|j: int| 0 <= j < a ==> v@[j] == c,
        decreases n - a,
    {
        a = a + 1;
    }
    let mut b: usize = n;
    while b > a && v[b - 1] == c
        invariant
            a <= b <= n,
            n == v@.len(),
            v@ == s@,
            forall|j: int| b <= j < n ==> v@[j] == c,
        decreases b,
    {
        b = b - 1;
    }
    proof {
        lemma_drop_leading(s@, c, a as int);
        let led = s@.skip(a as int);
        assert forall|j: int| b - a <= j < led.len() implies led[j] == c by {
            assert(led[j] == s@[j + a]);
        }
        if b > a {
            assert(led[b - a - 1] == s@[b - 1]);
        }
        lemma_drop_trailing(led, c, b - a);
        assert(led.take(b - a) =~= s@.subrange(a as int, b as int));
    }
    s.substring_char(a, b).to_owned()
}

/// Whether a character counts as Unicode whitespace, as the standard
/// library's character test decides it.
pub uninterp spec fn unicode_whitespace(c: char) -> bool;

/// Relies on char::is_whitespace: the Unicode white-space property of
/// the character alone decides the answer.
pub assume_specification[ char::is_whitespace ](c: char) -> (r: bool)
    ensures
        r == unicode_whitespace(c),
;

/// Holds when the text is nothing but whitespace.
pub open spec fn is_blank(s: Seq<char>) -> bool {
    forall|i: int| 0 <= i < s.len() ==> unicode_whitespace(#[trigger] s[i])
}

/// Decides whether a string is nothing but whitespace.
pub fn all_whitespace(s: &str) -> (r: bool)
    ensures
        r == is_blank(s@),
{
    let n: usize = s.unicode_len();
    let mut i: usize = 0;
    while i < n
        invariant
            i <= n,
            n == s@.len(),
            forall|j: int| 0 <= j < i ==> unicode_whitespace(#[trigger] s@[j]),
        decreases n - i,
    {
        if !s.get_char(i).is_whitespace() {
            return false;
        }
        i = i + 1;
    }
    true
}

/// The lossy UTF-8 reading of a byte buffer.
pub uninterp spec fn utf8_lossy_of(b: Seq<u8>) -> Seq<char>;

/// Relies on String::from_utf8_lossy: the result depends on the bytes
/// alone, and valid UTF-8 comes back as the text it encodes.
#[verifier::external_body]
fn utf8_lossy(data: &[u8]) -> (r: String)
    ensures
        r@ == utf8_lossy_of(data@),
        vstd::utf8::valid_utf8(data@) ==> r@ == vstd::utf8::decode_utf8(data@),
{
    String::from_utf8_lossy(data).into_owned()
}

/// The display text of a registry value's bytes: the NUL-trimmed
/// UTF-16 reading, or the NUL-trimmed lossy UTF-8 reading when the
/// former is nothing but whitespace.
pub open spec fn registry_value_text(data: Seq<u8>) -> Seq<char> {
    let wide = trim_char(utf16_decode(units_of(data)), '\u{0}');
    if is_blank(wide) {
        trim_char(utf8_lossy_of(data), '\u{0}')
    } else {
        wide
    }
}

/// Renders a registry value's bytes as display text.
pub fn clean_registry_data(data: &[u8]) -> (r: String)
    ensures
        r@ == registry_value_text(data@),
{
    let len: usize = data.len();
    let pairs: usize = len / 2;
    let mut units: Vec<u16> = Vec::new();
    let mut i: usize = 0;
    while i < pairs
        invariant
            i <= pairs,
            pairs == data@.len() / 2,
            len == data@.len(),
            units@ == units_of(data@).take(i as int),
        decreases pairs - i,
    {
        let lo = data[2 * i];
        let hi = data[2 * i + 1];
        let unit: u16 = (lo as u16) + 256 * (hi as u16);
        proof {
            reveal_with_fuel(le_bytes, 3);
            assert(unit as nat == le_bytes(data@, 2 * i, 2));
        }
        units.push(unit);
        proof {
            assert(units@ =~= units_of(data@).take(i + 1));
        }
        i = i + 1;
    }
    proof {
        assert(units_of(data@).take(pairs as int) =~= units_of(data@));
    }
    let wide_full = crate::utf16::utf16_to_string(units.as_slice());
    let wide = trim_char_ends(wide_full.as_str(), '\u{0}');
    if all_whitespace(wide.as_str()) {
        let narrow = utf8_lossy(data);
        trim_char_ends(narrow.as_str(), '\u{0}')
    } else {
        wide
    }
}

/// One named registry value with its raw bytes.
pub struct RegistryValue {
    /// Value name.
    pub name: String,
    /// Raw value bytes.
    pub data: Vec<u8>,
}

/// Mathematical image of a registry value.
pub struct RegistryValueModel {
    pub name: Seq<char>,
    pub data: Seq<u8>,
}

impl View for RegistryValue {
    type V = RegistryValueModel;

    open spec fn view(&self) -> RegistryValueModel {
        RegistryValueModel { name: self.name@, data: self.data@ }
    }
}

impl DeepView for RegistryValue {
    type V = RegistryValueModel;

    open spec fn deep_view(&self) -> RegistryValueModel {
        self.view()
    }
}

/// The bytes of the first value with this name, if any.
pub open spec fn value_of(entries: Seq<RegistryValueModel>, name: Seq<char>) -> Option<Seq<u8>>
    decreases entries.len(),
{
    if entries.len() == 0 {
        None
    } else if entries[0].name == name {
        Some(entries[0].data)
    } else {
        value_of(entries.skip(1), name)
    }
}

/// The event text of a changed value.
pub open spec fn updated_text(
    name: Seq<char>,
    key: Seq<char>,
    old_data: Seq<u8>,
    new_data: Seq<u8>,
) -> Seq<char> {
    "UPDATED: Value '"@ + name + "' in registry key '"@ + key + "'\nPrevious Data: '"@
        + registry_value_text(old_data) + "'\nNew Data: '"@ + registry_value_text(new_data) + "'"@
}

/// The event text of an added value.
pub open spec fn added_text(name: Seq<char>, key: Seq<char>, new_data: Seq<u8>) -> Seq<char> {
    "ADDED: Value '"@ + name + "' in registry key '"@ + key + "'\nNew Data: '"@
        + registry_value_text(new_data) + "'"@
}

/// The event text of a removed value.
pub open spec fn removed_text(name: Seq<char>, key: Seq<char>, old_data: Seq<u8>) -> Seq<char> {
    "REMOVED: Value '"@ + name + "' in registry key '"@ + key + "'\nPrevious Data: '"@
        + registry_value_text(old_data) + "'"@
}

/// The events one current value contributes: a change when the cache
/// holds the name with different bytes, an addition when it lacks the
/// name, nothing when the bytes are unchanged.
pub open spec fn events_of_value(
    cache: Seq<RegistryValueModel>,
    v: RegistryValueModel,
    key: Seq<char>,
) -> Seq<Seq<char>> {
    match value_of(cache, v.name) {
        Some(old_data) => if old_data != v.data {
            seq![updated_text(v.name, key, old_data, v.data)]
        } else {
            Seq::empty()
        },
        None => seq![added_text(v.name, key, v.data)],
    }
}

/// The change and addition events of one polling round, in the order
/// of the current values.
pub open spec fn update_events(
    cache: Seq<RegistryValueModel>,
    current: Seq<RegistryValueModel>,
    key: Seq<char>,
) -> Seq<Seq<char>>
    decreases current.len(),
{
    if current.len() == 0 {
        Seq::empty()
    } else {
        update_events(cache, current.drop_last(), key) + events_of_value(
            cache,
            current.last(),
            key,
        )
    }
}

/// The removal events of one polling round, in the order of the cache.
pub open spec fn removal_events(
    cache: Seq<RegistryValueModel>,
    current: Seq<RegistryValueModel>,
    key: Seq<char>,
) -> Seq<Seq<char>>
    decreases cache.len(),
{
    if cache.len() == 0 {
        Seq::empty()
    } else {
        removal_events(cache.drop_last(), current, key) + (
        if value_of(current, cache.last().name) is None {
            seq![removed_text(cache.last().name, key, cache.last().data)]
        } else {
            Seq::empty()
        })
    }
}

/// All events of one polling round: changes and additions, then
/// removals.
pub open spec fn diff_events(
    cache: Seq<RegistryValueModel>,
    current: Seq<RegistryValueModel>,
    key: Seq<char>,
) -> Seq<Seq<char>> {
    update_events(cache, current, key) + removal_events(cache, current, key)
}

/// Finds the first value with this name.
fn find_value<'a>(entries: &'a Vec<RegistryValue>, name: &str) -> (r: Option<&'a RegistryValue>)
    ensures
        match r {
            Some(v) => value_of(entries.deep_view(), name@) == Some(v.data@) && v.name@ == name@,
            None => value_of(entries.deep_view(), name@) is None,
        },
{
    let n: usize = entries.len();
    let mut i: usize = 0;
    while i < n
        invariant
            i <= n,
            n == entries@.len(),
            forall|j: int| 0 <= j < i ==> entries.deep_view()[j].name != name@,
        decreases n - i,
    {
        if crate::strutil::str_eq(entries[i].name.as_str(), name) {
            proof {
                assert(entries.deep_view()[i as int].name == name@);
                lemma_value_of_at(entries.deep_view(), name@, i as int);
            }
            return Some(&entries[i]);
        }
        proof {
            assert(entries.deep_view()[i as int].name == entries@[i as int].name@);
        }
        i = i + 1;
    }
    proof {
        lemma_value_of_absent(entries.deep_view(), name@);
    }
    None
}

/// A first match by name decides the lookup.
proof fn lemma_value_of_at(entries: Seq<RegistryValueModel>, name: Seq<char>, i: int)
    requires
        0 <= i < entries.len(),
        entries[i].name == name,
        forall|j: int| 0 <= j < i ==> entries[j].name != name,
    ensures
        value_of(entries, name) == Some(entries[i].data),
    decreases i,
{
    if i > 0 {
        lemma_value_of_at(entries.skip(1), name, i - 1);
    }
}

/// A name matching no entry has no value.
proof fn lemma_value_of_absent(entries: Seq<RegistryValueModel>, name: Seq<char>)
    requires
        forall|j: int| 0 <= j < entries.len() ==> entries[j].name != name,
    ensures
        value_of(entries, name) is None,
    decreases entries.len(),
{
    if entries.len() > 0 {
        lemma_value_of_absent(entries.skip(1), name);
    }
}

/// Decides whether two byte vectors hold the same bytes.
fn bytes_eq(a: &Vec<u8>, b: &Vec<u8>) -> (r: bool)
    ensures
        r == (a@ == b@),
{
    let n: usize = a.len();
    let m: usize = b.len();
    if n != m {
        return false;
    }
    let mut i: usize = 0;
    while i < n
        invariant
            i <= n,
            n == a@.len(),
            n == b@.len(),
            forall|j: int| 0 <= j < i ==> a@[j] == b@[j],
        decreases n - i,
    {
        if a[i] != b[i] {
            return false;
        }
        i = i + 1;
    }
    proof {
        assert(a@ =~= b@);
    }
    true
}

/// The change events of one polling round over a key's values: an
/// event per changed, added or removed value, against the cached
/// values.  The caller replaces its cache with the current values
/// afterwards.
pub fn registry_diff(
    cache: &Vec<RegistryValue>,
    current: &Vec<RegistryValue>,
    key_name: &str,
) -> (r: Vec<String>)
    ensures
        r.deep_view() == diff_events(cache.deep_view(), current.deep_view(), key_name@),
{
    let ghost cdv = cache.deep_view();
    let ghost ndv = current.deep_view();
    let mut events: Vec<String> = Vec::new();
    let n: usize = current.len();
    let mut i: usize = 0;
    proof {
        assert(ndv.take(0) =~= Seq::<RegistryValueModel>::empty());
        assert(events.deep_view() =~= update_events(cdv, ndv.take(0), key_name@));
    }
    while i < n
        invariant
            i <= n,
            n == current@.len(),
            cdv == cache.deep_view(),
            ndv == current.deep_view(),
            events.deep_view() == update_events(cdv, ndv.take(i as int), key_name@),
        decreases n - i,
    {
        proof {
            assert(ndv.take(i + 1).drop_last() =~= ndv.take(i as int));
            assert(ndv.take(i + 1).last() == ndv[i as int]);
            assert(ndv[i as int] == current@[i as int]@);
        }
        let ghost prev = events.deep_view();
        let v = &current[i];
        match find_value(cache, v.name.as_str()) {
            Some(old) => {
                if !bytes_eq(&old.data, &v.data) {
                    let mut e = String::from_str("UPDATED: Value '");
                    e.append(v.name.as_str());
                    e.append("' in registry key '");
                    e.append(key_name);
                    e.append("'\nPrevious Data: '");
                    let old_text = clean_registry_data(old.data.as_slice());
                    e.append(old_text.as_str());
                    e.append("'\nNew Data: '");
                    let new_text = clean_registry_data(v.data.as_slice());
                    e.append(new_text.as_str());
                    e.append("'");
                    proof {
                        assert(e@ == updated_text(v.name@, key_name@, old.data@, v.data@));
                        assert(events_of_value(cdv, ndv[i as int], key_name@) =~~= seq![e@]);
                    }
                    events.push(e);
                    proof {
                        assert(events.deep_view() =~~= prev + events_of_value(
                            cdv,
                            ndv[i as int],
                            key_name@,
                        ));
                    }
                } else {
                    proof {
                        assert(events_of_value(cdv, ndv[i as int], key_name@)
                            =~= Seq::<Seq<char>>::empty());
                        assert(events.deep_view() =~= prev + events_of_value(
                            cdv,
                            ndv[i as int],
                            key_name@,
                        ));
                    }
                }
            },
            None => {
                let mut e = String::from_str("ADDED: Value '");
                e.append(v.name.as_str());
                e.append("' in registry key '");
                e.append(key_name);
                e.append("'\nNew Data: '");
                let new_text = clean_registry_data(v.data.as_slice());
                e.append(new_text.as_str());
                e.append("'");
                proof {
                    assert(e@ == added_text(v.name@, key_name@, v.data@));
                    assert(events_of_value(cdv, ndv[i as int], key_name@) =~~= seq![e@]);
                }
                events.push(e);
                proof {
                    assert(events.deep_view() =~~= prev + events_of_value(
                        cdv,
                        ndv[i as int],
                        key_name@,
                    ));
                }
            },
        }
        i = i + 1;
    }
    proof {
        assert(ndv.take(n as int) =~= ndv);
    }
    let ghost upd = update_events(cdv, ndv, key_name@);
    let m: usize = cache.len();
    let mut k: usize = 0;
    proof {
        assert(cdv.take(0) =~= Seq::<RegistryValueModel>::empty());
        assert(removal_events(cdv.take(0), ndv, key_name@) =~= Seq::<Seq<char>>::empty());
        assert(events.deep_view() =~= upd + removal_events(cdv.take(0), ndv, key_name@));
    }
    while k < m
        invariant
            k <= m,
            m == cache@.len(),
            cdv == cache.deep_view(),
            ndv == current.deep_view(),
            upd == update_events(cdv, ndv, key_name@),
            events.deep_view() == upd + removal_events(cdv.take(k as int), ndv, key_name@),
        decreases m - k,
    {
        proof {
            assert(cdv.take(k + 1).drop_last() =~= cdv.take(k as int));
            assert(cdv.take(k + 1).last() == cdv[k as int]);
            assert(cdv[k as int] == cache@[k as int]@);
        }
        let ghost prev = events.deep_view();
        let v = &cache[k];
        match find_value(current, v.name.as_str()) {
            Some(_) => {
                proof {
                    assert(removal_events(cdv.take(k + 1), ndv, key_name@) =~= removal_events(
                        cdv.take(k as int),
                        ndv,
                        key_name@,
                    ));
                }
            },
            None => {
                let mut e = String::from_str("REMOVED: Value '");
                e.append(v.name.as_str());
                e.append("' in registry key '");
                e.append(key_name);
                e.append("'\nPrevious Data: '");
                let old_text = clean_registry_data(v.data.as_slice());
                e.append(old_text.as_str());
                e.append("'");
                proof {
                    assert(e@ == removed_text(v.name@, key_name@, v.data@));
                }
                events.push(e);
                proof {
                    assert(removal_events(cdv.take(k + 1), ndv, key_name@) =~~= removal_events(
                        cdv.take(k as int),
                        ndv,
                        key_name@,
                    ).push(e@));
                    assert(events.deep_view() =~~= prev.push(e@));
                    assert(prev.push(e@) =~= upd + removal_events(
                        cdv.take(k as int),
                        ndv,
                        key_name@,
                    ).push(e@));
                }
            },
        }
        k = k + 1;
    }
    proof {
        assert(cdv.take(m as int) =~= cdv);
    }
    events
}

} // verus!
