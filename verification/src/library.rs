//! The audio library: the index of imported sound files, keyed by id.

use vstd::prelude::*;
use std::collections::hash_map::DefaultHasher;
use std::time::SystemTime;
use std::hash::{Hash, Hasher};
use vstd::std_specs::hash::DefaultHasherAdditionalSpecFns;
use crate::text::string_push;

verus! {

/// What a library entry is for.
#[derive(Clone, Copy, Debug, PartialEq, Eq, Hash, Structural)]
pub enum Category {
    Bgm,
    Sfx,
    VoiceLine,
}

/// One imported sound file.
#[derive(Clone, Debug)]
pub struct LibraryItem {
    pub id: String,
    pub path: String,
    pub display_name: String,
    pub category: Category,
    pub hotkey: Option<String>,
}

/// The abstract content of a [`LibraryItem`].
pub struct ItemView {
    pub id: Seq<char>,
    pub path: Seq<char>,
    pub display_name: Seq<char>,
    pub category: Category,
    pub hotkey: Option<Seq<char>>,
}

/// The view of an optional string.
pub open spec fn opt_view(s: Option<String>) -> Option<Seq<char>> {
    match s {
        Some(x) => Some(x@),
        None => None,
    }
}

impl View for LibraryItem {
    type V = ItemView;

    open spec fn view(&self) -> ItemView {
        ItemView {
            id: self.id@,
            path: self.path@,
            display_name: self.display_name@,
            category: self.category,
            hotkey: opt_view(self.hotkey),
        }
    }
}

/// No two entries share an id.
pub open spec fn ids_distinct(s: Seq<LibraryItem>) -> bool {
    forall|i: int, j: int|
        0 <= i < s.len() && 0 <= j < s.len() && i != j ==> (#[trigger] s[i]).id@ != (#[trigger] s[j]).id@
}

/// Whether some entry has id `k`.
pub open spec fn has_id(s: Seq<LibraryItem>, k: Seq<char>) -> bool {
    exists|i: int| 0 <= i < s.len() && (#[trigger] s[i]).id@ == k
}

/// The entries of `s` keyed by id.
pub open spec fn items_map(s: Seq<LibraryItem>) -> Map<Seq<char>, ItemView> {
    Map::new(
        |k: Seq<char>| has_id(s, k),
        |k: Seq<char>| s[choose|i: int| 0 <= i < s.len() && (#[trigger] s[i]).id@ == k]@,
    )
}

/// With distinct ids, the entry stored under an id is the one that has it.
pub proof fn lemma_items_map_at(s: Seq<LibraryItem>, i: int)
    requires
        ids_distinct(s),
        0 <= i < s.len(),
    ensures
        items_map(s).contains_key(s[i].id@),
        items_map(s)[s[i].id@] == s[i]@,
{
    let k = s[i].id@;
    assert(has_id(s, k));
    let j = choose|j: int| 0 <= j < s.len() && (#[trigger] s[j]).id@ == k;
    assert(j == i);
}

/// The lower-case hexadecimal digits.
pub const HEX_DIGITS: [char; 16] = [
    '0', '1', '2', '3', '4', '5', '6', '7', '8', '9', 'a', 'b', 'c', 'd', 'e', 'f',
];

/// The last `n` hexadecimal digits of `x`, most significant first, as
/// `format!("{:0n$x}", x)` writes them when `x < 16^n`.
pub open spec fn spec_hex_digits(x: nat, n: nat) -> Seq<char>
    decreases n,
{
    if n == 0 {
        Seq::<char>::empty()
    } else {
        spec_hex_digits(x / 16, (n - 1) as nat).push(HEX_DIGITS@[(x % 16) as int])
    }
}

/// `format!("{:016x}", x)`: a `u64` as sixteen zero-padded lower-case hex digits.
pub open spec fn spec_hex16(x: u64) -> Seq<char> {
    spec_hex_digits(x as nat, 16)
}

fn hex_digits(x: u64, n: usize) -> (s: String)
    ensures
        s@ == spec_hex_digits(x as nat, n as nat),
    decreases n,
{
    if n == 0 {
        String::new()
    } else {
        let mut s = hex_digits(x / 16, n - 1);
        string_push(&mut s, HEX_DIGITS[(x % 16) as usize]);
        s
    }
}

/// Formats `x` as sixteen zero-padded lower-case hexadecimal digits.
pub fn format_hex16(x: u64) -> (s: String)
    ensures
        s@ == spec_hex16(x),
{
    hex_digits(x, 16)
}

/// Makes `std::time::SystemTime` known to the verifier, as an opaque value.
#[verifier::external_type_specification]
#[verifier::external_body]
pub struct ExSystemTime(SystemTime);

/// Calls `SystemTime::now`. Nothing is stated of the result: it is the clock.
#[verifier::external_body]
fn system_time_now() -> SystemTime {
    SystemTime::now()
}

/// The byte writes that `<Path as Hash>::hash` makes into a hasher for the
/// path `path` (its components, as the platform the library is built for
/// splits them).
pub uninterp spec fn spec_path_hash_writes(path: Seq<char>) -> Seq<Seq<u8>>;

/// Feeds the path `path` to the hasher `h`, through `<Path as Hash>::hash`.
/// The contract claims that the hasher receives the writes that hashing this
/// path makes, after those it had; which bytes they are is only named.
#[verifier::external_body]
fn hash_path(h: &mut DefaultHasher, path: &str)
    ensures
        final(h)@ == old(h)@ + spec_path_hash_writes(path@),
{
    std::path::Path::new(path).hash(h)
}

/// Feeds the time `t` to the hasher `h`, through `<SystemTime as Hash>::hash`.
/// The contract claims that at least one write is appended after those the
/// hasher had (the derived `Hash` of `SystemTime` writes its fields); which
/// bytes depends on the clock and is not stated.
#[verifier::external_body]
fn hash_system_time(h: &mut DefaultHasher, t: &SystemTime)
    ensures
        final(h)@.len() > old(h)@.len(),
        exists|w: Seq<Seq<u8>>| final(h)@ == old(h)@ + w,
{
    t.hash(h)
}

/// The ids that hashing the path `path` together with some moment of the
/// clock can give: the hash of the path's writes followed by the time's
/// writes, as sixteen hex digits.
pub open spec fn spec_id_for(path: Seq<char>, time_writes: Seq<Seq<u8>>) -> Seq<char> {
    spec_hex16(DefaultHasher::spec_finish(spec_path_hash_writes(path) + time_writes))
}

/// A fresh id for the file at `path`: a hash of the path and the current time,
/// as sixteen lower-case hex digits. Which hash comes out is not known in
/// advance (it depends on the clock); that it is sixteen hex digits is.
pub fn uuid_like(path: &str) -> (id: String)
    ensures
        exists|w: Seq<Seq<u8>>| w.len() > 0 && id@ == #[trigger] spec_id_for(path@, w),
        exists|x: u64| id@ == #[trigger] spec_hex16(x),
{
    let mut h = DefaultHasher::new();
    hash_path(&mut h, path);
    proof { assert(h@ =~= spec_path_hash_writes(path@)); }
    let now = system_time_now();
    hash_system_time(&mut h, &now);
    let ghost w = choose|w: Seq<Seq<u8>>| h@ == spec_path_hash_writes(path@) + w;
    assert(w.len() > 0);
    let x = h.finish();
    let id = format_hex16(x);
    assert(id@ == spec_id_for(path@, w));
    id
}

/// The file stem that `Path::file_stem` gives for `path` on the platform the
/// library is built for: the final component without its extension.
pub uninterp spec fn spec_file_stem(path: Seq<char>) -> Option<Seq<char>>;

/// Calls `Path::file_stem` on `path` and turns the stem back into a string.
/// The contract only names the result; the path syntax of the platform
/// (separators, prefixes, `..`) that decides it is not stated.
#[verifier::external_body]
fn path_file_stem(path: &str) -> (r: Option<String>)
    ensures
        opt_view(r) == spec_file_stem(path@),
{
    let stem = std::path::Path::new(path).file_stem()?;
    stem.to_str().map(str::to_string)
}

/// The name shown for a file: its stem, or `audio` when the path has none.
pub open spec fn spec_display_name(path: Seq<char>) -> Seq<char> {
    match spec_file_stem(path) {
        Some(stem) => stem,
        None => "audio"@,
    }
}

/// The name shown for a file whose path has the stem `stem`: the stem itself,
/// or `audio` when there is none.
pub fn display_name_from_stem(stem: Option<String>) -> (name: String)
    ensures
        name@ == match opt_view(stem) {
            Some(s) => s,
            None => "audio"@,
        },
{
    match stem {
        Some(s) => s,
        None => String::from_str("audio"),
    }
}

/// The name shown for the file at `path`.
pub fn display_name_for(path: &str) -> (name: String)
    ensures
        name@ == spec_display_name(path@),
{
    display_name_from_stem(path_file_stem(path))
}

/// The audio library: every imported file, keyed by its id.
///
/// The entries are held in a `Vec` under the invariant that no two share an
/// id, and the library is viewed as a map from id to entry. A `HashMap` keyed
/// by `String` is not used because vstd's specification of `HashMap` only
/// applies to key types that obey its key model, which it grants to integer
/// and boolean keys but not to `String`; with such keys nothing about
/// `insert`, `get` or `remove` could be proved.
#[derive(Debug)]
pub struct Library {
    items: Vec<LibraryItem>,
}

impl View for Library {
    type V = Map<Seq<char>, ItemView>;

    closed spec fn view(&self) -> Map<Seq<char>, ItemView> {
        items_map(self.items@)
    }
}

/// A copy of `it`, field by field.
fn copy_item(it: &LibraryItem) -> (r: LibraryItem)
    ensures
        r == *it,
{
    let hotkey = match &it.hotkey {
        Some(k) => Some(k.clone()),
        None => None,
    };
    LibraryItem {
        id: it.id.clone(),
        path: it.path.clone(),
        display_name: it.display_name.clone(),
        category: it.category,
        hotkey,
    }
}

impl Clone for Library {
    /// A copy of the library, holding the same entries.
    fn clone(&self) -> (r: Self)
        ensures
            r@ == self@,
    {
        proof { use_type_invariant(self); }
        let mut items: Vec<LibraryItem> = Vec::new();
        let mut i: usize = 0;
        while i < self.items.len()
            invariant
                i <= self.items@.len(),
                items@ =~= self.items@.take(i as int),
            decreases self.items@.len() - i,
        {
            items.push(copy_item(&self.items[i]));
            i = i + 1;
        }
        proof { assert(self.items@.take(self.items@.len() as int) =~= self.items@); }
        Library { items }
    }
}

impl Default for Library {
    fn default() -> (lib: Self)
        ensures
            lib@ == Map::<Seq<char>, ItemView>::empty(),
    {
        Library::new()
    }
}

impl Library {
    #[verifier::type_invariant]
    spec fn inv(self) -> bool {
        ids_distinct(self.items@)
    }

    /// An empty library.
    pub fn new() -> (lib: Library)
        ensures
            lib@ == Map::<Seq<char>, ItemView>::empty(),
    {
        let lib = Library { items: Vec::new() };
        assert(lib@ =~= Map::<Seq<char>, ItemView>::empty());
        lib
    }

    /// Index of the entry with id `key`, if any.
    fn index_of(&self, key: &String) -> (r: Option<usize>)
        ensures
            match r {
                Some(i) => i < self.items@.len() && self.items@[i as int].id@ == key@,
                None => !has_id(self.items@, key@),
            },
    {
        let mut i: usize = 0;
        while i < self.items.len()
            invariant
                i <= self.items@.len(),
                forall|j: int| 0 <= j < i ==> (#[trigger] self.items@[j]).id@ != key@,
            decreases self.items@.len() - i,
        {
            if self.items[i].id == *key {
                return Some(i);
            }
            i = i + 1;
        }
        None
    }

    /// The entry with id `id`, if any.
    pub fn get(&self, id: &str) -> (r: Option<&LibraryItem>)
        ensures
            match r {
                Some(it) => self@.contains_key(id@) && it@ == self@[id@] && it@.id == id@,
                None => !self@.contains_key(id@),
            },
    {
        proof { use_type_invariant(self); }
        let key = String::from_str(id);
        match self.index_of(&key) {
            Some(i) => {
                proof { lemma_items_map_at(self.items@, i as int); }
                Some(&self.items[i])
            },
            None => None,
        }
    }

    /// Adds the file at `path` under the id `id`, replacing any entry with that
    /// id, and returns the new entry: its display name is the file's stem and
    /// it has no hotkey.
    pub fn add_file_with_id(&mut self, id: String, path: String, category: Category) -> (r: &LibraryItem)
        ensures
            r@ == (ItemView {
                id: id@,
                path: path@,
                display_name: spec_display_name(path@),
                category,
                hotkey: None,
            }),
            final(self)@ == old(self)@.insert(id@, r@),
    {
        let display_name = display_name_for(path.as_str());
        let item = LibraryItem { id, path, display_name, category, hotkey: None };
        let at = self.put(item);
        &self.items[at]
    }

    /// Adds the file at `path` under a fresh id, and returns the new entry: its
    /// display name is the file's stem and it has no hotkey.
    pub fn add_file(&mut self, path: String, category: Category) -> (r: &LibraryItem)
        ensures
            exists|w: Seq<Seq<u8>>| w.len() > 0 && r@.id == #[trigger] spec_id_for(path@, w),
            exists|x: u64| r@.id == #[trigger] spec_hex16(x),
            r@.path == path@,
            r@.display_name == spec_display_name(path@),
            r@.category == category,
            r@.hotkey is None,
            final(self)@ == old(self)@.insert(r@.id, r@),
    {
        let id = uuid_like(path.as_str());
        self.add_file_with_id(id, path, category)
    }

    /// Stores `item` under its id, replacing any entry that has that id.
    pub fn insert(&mut self, item: LibraryItem)
        ensures
            final(self)@ == old(self)@.insert(item.id@, item@),
    {
        self.put(item);
    }

    /// The entries, each once, in no particular order.
    pub fn items(&self) -> (r: &Vec<LibraryItem>)
        ensures
            ids_distinct(r@),
            items_map(r@) == self@,
    {
        proof { use_type_invariant(self); }
        &self.items
    }

    /// Drops the entry with id `id`, if there is one.
    pub fn remove(&mut self, id: &str)
        ensures
            final(self)@ == old(self)@.remove(id@),
    {
        proof { use_type_invariant(&*self); }
        let key = String::from_str(id);
        let ghost s = self.items@;
        let ghost k = id@;
        match self.index_of(&key) {
            Some(j) => {
                let mut items = Vec::new();
                std::mem::swap(&mut items, &mut self.items);
                items.remove(j);
                proof {
                    let t = items@;
                    assert(t =~= s.remove(j as int));
                    assert forall|a: int, b: int|
                        0 <= a < t.len() && 0 <= b < t.len() && a != b implies
                        (#[trigger] t[a]).id@ != (#[trigger] t[b]).id@ by {
                        let a0 = if a < j { a } else { a + 1 };
                        let b0 = if b < j { b } else { b + 1 };
                        assert(t[a] == s[a0] && t[b] == s[b0]);
                    }
                    assert forall|a: Seq<char>| #[trigger] items_map(t).contains_key(a)
                        == (items_map(s).contains_key(a) && a != k) by {
                        if has_id(s, a) && a != k {
                            let i = choose|i: int| 0 <= i < s.len() && (#[trigger] s[i]).id@ == a;
                            if i < j { assert(t[i].id@ == a); } else { assert(t[i - 1].id@ == a); }
                        }
                        if has_id(t, a) {
                            let i = choose|i: int| 0 <= i < t.len() && (#[trigger] t[i]).id@ == a;
                            let i0 = if i < j { i } else { i + 1 };
                            assert(s[i0].id@ == a);
                            assert(i0 != j);
                        }
                    }
                    assert forall|a: Seq<char>| #[trigger] items_map(t).contains_key(a) implies
                        items_map(t)[a] == items_map(s)[a] by {
                        let i = choose|i: int| 0 <= i < t.len() && (#[trigger] t[i]).id@ == a;
                        lemma_items_map_at(t, i);
                        let i0 = if i < j { i } else { i + 1 };
                        assert(s[i0] == t[i]);
                        lemma_items_map_at(s, i0);
                    }
                    assert(items_map(t) =~= items_map(s).remove(k));
                }
                self.items = items;
            },
            None => {
                proof { assert(items_map(s).remove(k) =~= items_map(s)); }
            },
        }
    }

    /// Binds `hotkey` to the entry with id `id` (or unbinds it, for `None`);
    /// does nothing when there is no such entry.
    pub fn set_hotkey(&mut self, id: &str, hotkey: Option<String>)
        ensures
            final(self)@ == if old(self)@.contains_key(id@) {
                old(self)@.insert(id@, ItemView { hotkey: opt_view(hotkey), ..old(self)@[id@] })
            } else {
                old(self)@
            },
    {
        proof { use_type_invariant(&*self); }
        let key = String::from_str(id);
        match self.index_of(&key) {
            Some(j) => {
                proof { lemma_items_map_at(self.items@, j as int); }
                let it = &self.items[j];
                let updated = LibraryItem {
                    id: it.id.clone(),
                    path: it.path.clone(),
                    display_name: it.display_name.clone(),
                    category: it.category,
                    hotkey,
                };
                self.put(updated);
            },
            None => {},
        }
    }

    /// Stores `item` under its id, replacing any entry that has that id.
    /// Returns where it is stored.
    fn put(&mut self, item: LibraryItem) -> (at: usize)
        ensures
            final(self)@ == old(self)@.insert(item.id@, item@),
            at < final(self).items@.len(),
            final(self).items@[at as int] == item,
    {
        proof { use_type_invariant(&*self); }
        let ghost s = self.items@;
        let ghost k = item.id@;
        match self.index_of(&item.id) {
            Some(j) => {
                let mut items = Vec::new();
                std::mem::swap(&mut items, &mut self.items);
                items.set(j, item);
                proof {
                    let t = items@;
                    assert(t =~= s.update(j as int, item));
                    assert forall|a: Seq<char>| #[trigger] items_map(t).contains_key(a)
                        == (items_map(s).contains_key(a) || a == k) by {
                        if has_id(s, a) {
                            let i = choose|i: int| 0 <= i < s.len() && (#[trigger] s[i]).id@ == a;
                            if i == j { assert(t[j as int].id@ == a); } else { assert(t[i].id@ == a); }
                        }
                        if has_id(t, a) {
                            let i = choose|i: int| 0 <= i < t.len() && (#[trigger] t[i]).id@ == a;
                            if i == j { assert(a == k); } else { assert(s[i].id@ == a); }
                        }
                    }
                    assert forall|a: Seq<char>| #[trigger] items_map(t).contains_key(a) implies
                        items_map(t)[a] == items_map(s).insert(k, item@)[a] by {
                        let i = choose|i: int| 0 <= i < t.len() && (#[trigger] t[i]).id@ == a;
                        lemma_items_map_at(t, i);
                        if i != j {
                            lemma_items_map_at(s, i);
                        }
                    }
                    assert(items_map(t) =~= items_map(s).insert(k, item@));
                }
                self.items = items;
                j
            },
            None => {
                let mut items = Vec::new();
                std::mem::swap(&mut items, &mut self.items);
                items.push(item);
                proof {
                    let t = items@;
                    assert(t =~= s.push(item));
                    assert forall|a: Seq<char>| #[trigger] items_map(t).contains_key(a)
                        == (items_map(s).contains_key(a) || a == k) by {
                        if has_id(s, a) {
                            let i = choose|i: int| 0 <= i < s.len() && (#[trigger] s[i]).id@ == a;
                            assert(t[i].id@ == a);
                        }
                        if a == k {
                            assert(t[s.len() as int].id@ == a);
                        }
                        if has_id(t, a) {
                            let i = choose|i: int| 0 <= i < t.len() && (#[trigger] t[i]).id@ == a;
                            if i < s.len() { assert(s[i].id@ == a); }
                        }
                    }
                    assert forall|a: Seq<char>| #[trigger] items_map(t).contains_key(a) implies
                        items_map(t)[a] == items_map(s).insert(k, item@)[a] by {
                        let i = choose|i: int| 0 <= i < t.len() && (#[trigger] t[i]).id@ == a;
                        lemma_items_map_at(t, i);
                        if i < s.len() {
                            lemma_items_map_at(s, i);
                        }
                    }
                    assert(items_map(t) =~= items_map(s).insert(k, item@));
                }
                self.items = items;
                self.items.len() - 1
            },
        }
    }
}

/// Every entry of a library is stored under its own id.
pub proof fn lemma_entries_keyed_by_id(lib: Library)
    ensures
        forall|k: Seq<char>| #[trigger] lib@.contains_key(k) ==> lib@[k].id == k,
{
    let s = lib.items@;
    assert forall|k: Seq<char>| #[trigger] items_map(s).contains_key(k) implies items_map(s)[k].id == k by {
        let i = choose|i: int| 0 <= i < s.len() && (#[trigger] s[i]).id@ == k;
    }
}

/// What a lookup gives back after an entry was stored under `k`: that entry
/// under `k`, and under every other id what was there before.
pub proof fn lemma_get_after_store(m: Map<Seq<char>, ItemView>, k: Seq<char>, v: ItemView, other: Seq<char>)
    requires
        other != k,
    ensures
        m.insert(k, v).contains_key(k),
        m.insert(k, v)[k] == v,
        m.insert(k, v).contains_key(other) == m.contains_key(other),
        m.contains_key(other) ==> m.insert(k, v)[other] == m[other],
{
}

/// After an entry is removed, a lookup of its id finds nothing, and every other
/// entry is untouched.
pub proof fn lemma_get_after_remove(m: Map<Seq<char>, ItemView>, k: Seq<char>, other: Seq<char>)
    requires
        other != k,
    ensures
        !m.remove(k).contains_key(k),
        m.remove(k).contains_key(other) == m.contains_key(other),
        m.contains_key(other) ==> m.remove(k)[other] == m[other],
{
}

/// Binding a hotkey changes nothing but the hotkey of that one entry.
pub proof fn lemma_set_hotkey_only_touches_hotkey(
    m: Map<Seq<char>, ItemView>,
    k: Seq<char>,
    hotkey: Option<Seq<char>>,
    other: Seq<char>,
)
    requires
        m.contains_key(k),
        other != k,
    ensures
        ({
            let n = m.insert(k, ItemView { hotkey, ..m[k] });
            &&& n.dom() == m.dom()
            &&& n[k].id == m[k].id
            &&& n[k].path == m[k].path
            &&& n[k].display_name == m[k].display_name
            &&& n[k].category == m[k].category
            &&& n[k].hotkey == hotkey
            &&& m.contains_key(other) ==> n[other] == m[other]
        }),
{
    let n = m.insert(k, ItemView { hotkey, ..m[k] });
    assert(n.dom() =~= m.dom());
}

/// A generated id is sixteen lower-case hexadecimal digits.
pub proof fn lemma_hex16_shape(x: u64)
    ensures
        spec_hex16(x).len() == 16,
        forall|i: int| 0 <= i < 16 ==> HEX_DIGITS@.contains(#[trigger] spec_hex16(x)[i]),
{
    lemma_hex_digits_shape(x as nat, 16);
}

proof fn lemma_hex_digits_shape(x: nat, n: nat)
    ensures
        spec_hex_digits(x, n).len() == n,
        forall|i: int| 0 <= i < n ==> HEX_DIGITS@.contains(#[trigger] spec_hex_digits(x, n)[i]),
    decreases n,
{
    if n > 0 {
        lemma_hex_digits_shape(x / 16, (n - 1) as nat);
        let d = (x % 16) as int;
        assert(HEX_DIGITS@[d] == spec_hex_digits(x, n)[n - 1]);
        assert forall|i: int| 0 <= i < n implies HEX_DIGITS@.contains(#[trigger] spec_hex_digits(x, n)[i]) by {
            if i < n - 1 {
                assert(spec_hex_digits(x, n)[i] == spec_hex_digits(x / 16, (n - 1) as nat)[i]);
            } else {
                assert(HEX_DIGITS@[d] == spec_hex_digits(x, n)[i]);
            }
        }
    }
}

} // verus!
