//! The registry of object paths: which path stands for which device and for
//! which connection.
//!
//! Entries keep the order in which they were added. A name or an id occurs
//! at most once; adding it again replaces its path in place. A new registry
//! is well formed and every operation keeps it so.
use crate::text::str_eq;
use vstd::prelude::*;

verus! {

/// One entry: a device name or a connection id, and the path registered
/// for it.
pub struct EntryView {
    pub key: Seq<char>,
    pub path: Seq<char>,
}

/// The position of the first entry at or after `from` with the given key.
pub open spec fn index_of(entries: Seq<EntryView>, key: Seq<char>, from: int) -> Option<int>
    decreases entries.len() - from,
{
    if from < 0 || from >= entries.len() {
        None
    } else if entries[from].key == key {
        Some(from)
    } else {
        index_of(entries, key, from + 1)
    }
}

/// The path registered for a key, if there is one.
pub open spec fn lookup(entries: Seq<EntryView>, key: Seq<char>) -> Option<Seq<char>> {
    match index_of(entries, key, 0) {
        Some(i) => Some(entries[i].path),
        None => None,
    }
}

/// The entries after a path is registered for a key: the path replaces the
/// one that the key had, or a new entry is added at the end.
pub open spec fn inserted(entries: Seq<EntryView>, key: Seq<char>, path: Seq<char>) -> Seq<
    EntryView,
> {
    match index_of(entries, key, 0) {
        Some(i) => entries.update(i, EntryView { key, path }),
        None => entries.push(EntryView { key, path }),
    }
}

/// The entries after a key is taken out.
pub open spec fn removed(entries: Seq<EntryView>, key: Seq<char>) -> Seq<EntryView> {
    match index_of(entries, key, 0) {
        Some(i) => entries.remove(i),
        None => entries,
    }
}

/// The paths of the entries, in their order.
pub open spec fn paths_of(entries: Seq<EntryView>) -> Seq<Seq<char>> {
    Seq::new(entries.len(), |i: int| entries[i].path)
}

/// Whether no key occurs twice.
pub open spec fn unique_keys(entries: Seq<EntryView>) -> bool {
    forall|i: int, j: int|
        0 <= i < entries.len() && 0 <= j < entries.len() && i != j ==> (#[trigger] entries[i]).key
            != (#[trigger] entries[j]).key
}

/// The registry as a mathematical value.
pub struct RegistryView {
    pub devices: Seq<EntryView>,
    pub connections: Seq<EntryView>,
}

impl RegistryView {
    /// Whether no device name and no connection id occurs twice.
    pub open spec fn wf(self) -> bool {
        unique_keys(self.devices) && unique_keys(self.connections)
    }
}

/// What `index_of` finds is an entry with the key, and the first one.
pub proof fn lemma_index_of(entries: Seq<EntryView>, key: Seq<char>, from: int)
    requires
        0 <= from,
    ensures
        match index_of(entries, key, from) {
            Some(i) => from <= i < entries.len() && entries[i].key == key && forall|j: int|
                from <= j < i ==> (#[trigger] entries[j]).key != key,
            None => forall|j: int| from <= j < entries.len() ==> (#[trigger] entries[j]).key != key,
        },
    decreases entries.len() - from,
{
    if from < entries.len() && entries[from].key != key {
        lemma_index_of(entries, key, from + 1);
    }
}

/// Registering a path keeps keys unique, and the key then has that path.
pub proof fn lemma_inserted(entries: Seq<EntryView>, key: Seq<char>, path: Seq<char>)
    requires
        unique_keys(entries),
    ensures
        unique_keys(inserted(entries, key, path)),
        lookup(inserted(entries, key, path), key) == Some(path),
        forall|other: Seq<char>|
            other != key ==> lookup(inserted(entries, key, path), other) == lookup(entries, other),
{
    let after = inserted(entries, key, path);
    lemma_index_of(entries, key, 0);
    lemma_index_of(after, key, 0);
    let at = match index_of(entries, key, 0) {
        Some(i) => i,
        None => entries.len() as int,
    };
    assert(after[at] == EntryView { key, path });
    match index_of(after, key, 0) {
        Some(k) => {
            if k < at {
                assert(after[k] == entries[k]);
            }
        },
        None => {},
    }
    assert forall|i: int, j: int|
        0 <= i < after.len() && 0 <= j < after.len() && i != j implies (#[trigger] after[i]).key
        != (#[trigger] after[j]).key by {
        if i < entries.len() && j < entries.len() {
            assert(entries[i].key != entries[j].key);
        }
    }
    assert forall|other: Seq<char>| other != key implies lookup(after, other) == lookup(
        entries,
        other,
    ) by {
        lemma_index_of(entries, other, 0);
        lemma_index_of(after, other, 0);
        match index_of(entries, other, 0) {
            Some(i) => {
                assert(after[i].key == other);
                match index_of(after, other, 0) {
                    Some(k) => {
                        if k < i {
                            assert(entries[k].key == after[k].key);
                        } else if k > i {
                        }
                    },
                    None => {},
                }
            },
            None => {
                match index_of(after, other, 0) {
                    Some(k) => {
                        if k < entries.len() {
                            assert(entries[k].key != other);
                        }
                    },
                    None => {},
                }
            },
        }
    }
}

/// Taking a key out keeps keys unique, and the key then has no path.
pub proof fn lemma_removed(entries: Seq<EntryView>, key: Seq<char>)
    requires
        unique_keys(entries),
    ensures
        unique_keys(removed(entries, key)),
        lookup(removed(entries, key), key) is None,
{
    let after = removed(entries, key);
    lemma_index_of(entries, key, 0);
    lemma_index_of(after, key, 0);
    match index_of(entries, key, 0) {
        Some(p) => {
            assert forall|i: int, j: int|
                0 <= i < after.len() && 0 <= j < after.len() && i != j implies (
            #[trigger] after[i]).key != (#[trigger] after[j]).key by {
                let oi = if i < p {
                    i
                } else {
                    i + 1
                };
                let oj = if j < p {
                    j
                } else {
                    j + 1
                };
                assert(after[i] == entries[oi]);
                assert(after[j] == entries[oj]);
            }
            match index_of(after, key, 0) {
                Some(k) => {
                    let ok = if k < p {
                        k
                    } else {
                        k + 1
                    };
                    assert(after[k] == entries[ok]);
                    assert(entries[ok].key != entries[p].key);
                },
                None => {},
            }
        },
        None => {},
    }
}

/// The rule for object paths: at least one character; the first is a slash;
/// only letters and digits of ASCII, underscores and slashes; no two slashes
/// in a row; no slash at the end unless the path is the single slash.
pub open spec fn valid_object_path(s: Seq<char>) -> bool {
    &&& s.len() >= 1
    &&& s[0] == '/'
    &&& forall|i: int| 0 <= i < s.len() ==> s[i] == '/' || is_path_char(#[trigger] s[i])
    &&& forall|i: int| 0 <= i < s.len() - 1 ==> !(#[trigger] s[i] == '/' && s[i + 1] == '/')
    &&& (s.len() > 1 ==> s[s.len() - 1] != '/')
}

/// Whether `c` may stand in an element of an object path.
pub open spec fn is_path_char(c: char) -> bool {
    ||| 'a' as int <= c as int <= 'z' as int
    ||| 'A' as int <= c as int <= 'Z' as int
    ||| '0' as int <= c as int <= '9' as int
    ||| c == '_'
}

/// The paths of a list that are valid object paths, in their order.
pub open spec fn valid_paths(paths: Seq<Seq<char>>) -> Seq<Seq<char>>
    decreases paths.len(),
{
    if paths.len() == 0 {
        Seq::empty()
    } else if valid_object_path(paths.last()) {
        valid_paths(paths.drop_last()).push(paths.last())
    } else {
        valid_paths(paths.drop_last())
    }
}

/// Whether `path` is an object path by the rules of the message bus, as
/// `ObjectPath::try_from` of zbus's zvariant decides it. The contract states
/// those rules as `valid_object_path`; they are taken from the checks that
/// zvariant makes on the bytes of the text, none of which a character
/// outside ASCII passes.
#[verifier::external_body]
fn is_object_path(path: &str) -> (ok: bool)
    ensures
        ok == valid_object_path(path@),
{
    zbus::zvariant::ObjectPath::try_from(path).is_ok()
}

/// Keeps the paths that are valid object paths, in their order.
pub fn valid_object_paths(paths: Vec<String>) -> (r: Vec<String>)
    ensures
        crate::text::view_each(r@) == valid_paths(crate::text::view_each(paths@)),
{
    let ghost texts = crate::text::view_each(paths@);
    let mut r: Vec<String> = Vec::new();
    let mut i: usize = 0;
    assert(texts.take(0) =~= Seq::<Seq<char>>::empty());
    assert(crate::text::view_each(r@) =~= Seq::<Seq<char>>::empty());
    while i < paths.len()
        invariant
            i <= paths.len(),
            texts == crate::text::view_each(paths@),
            crate::text::view_each(r@) == valid_paths(texts.take(i as int)),
        decreases paths.len() - i,
    {
        let ghost kept = crate::text::view_each(r@);
        proof {
            assert(texts.take(i + 1).drop_last() =~= texts.take(i as int));
            assert(texts.take(i + 1).last() == paths[i as int]@);
        }
        if is_object_path(paths[i].as_str()) {
            r.push(paths[i].clone());
            assert(crate::text::view_each(r@) =~= kept.push(paths[i as int]@));
        }
        i = i + 1;
    }
    assert(texts.take(i as int) =~= texts);
    r
}

struct Entry {
    key: String,
    path: String,
}

impl View for Entry {
    type V = EntryView;

    closed spec fn view(&self) -> EntryView {
        EntryView { key: self.key@, path: self.path@ }
    }
}

spec fn entry_views(items: Seq<Entry>) -> Seq<EntryView> {
    Seq::new(items.len(), |i: int| items[i]@)
}

/// The object paths of the known devices and connections.
pub struct ObjectsRegistry {
    devices: Vec<Entry>,
    connections: Vec<Entry>,
}

impl View for ObjectsRegistry {
    type V = RegistryView;

    closed spec fn view(&self) -> RegistryView {
        RegistryView {
            devices: entry_views(self.devices@),
            connections: entry_views(self.connections@),
        }
    }
}

/// Finds the entry with the given key.
fn find_entry(entries: &Vec<Entry>, key: &str) -> (r: Option<usize>)
    ensures
        match r {
            Some(i) => index_of(entry_views(entries@), key@, 0) == Some(i as int) && i
                < entries.len(),
            None => index_of(entry_views(entries@), key@, 0) is None,
        },
{
    let ghost views = entry_views(entries@);
    let mut i: usize = 0;
    while i < entries.len()
        invariant
            i <= entries.len(),
            views == entry_views(entries@),
            index_of(views, key@, 0) == index_of(views, key@, i as int),
        decreases entries.len() - i,
    {
        assert(views[i as int] == entries[i as int]@);
        if str_eq(entries[i].key.as_str(), key) {
            return Some(i);
        }
        i = i + 1;
    }
    None
}

/// Registers a path for a key in a list of entries.
fn insert_entry(entries: &mut Vec<Entry>, key: &str, path: &str)
    ensures
        entry_views(final(entries)@) == inserted(entry_views(old(entries)@), key@, path@),
{
    let entry = Entry { key: String::from_str(key), path: String::from_str(path) };
    match find_entry(entries, key) {
        Some(i) => {
            entries[i] = entry;
            assert(entry_views(entries@) =~= inserted(entry_views(old(entries)@), key@, path@));
        },
        None => {
            entries.push(entry);
            assert(entry_views(entries@) =~= inserted(entry_views(old(entries)@), key@, path@));
        },
    }
}

/// The paths of a list of entries.
fn entry_paths(entries: &Vec<Entry>) -> (r: Vec<String>)
    ensures
        crate::text::view_each(r@) == paths_of(entry_views(entries@)),
{
    let mut r: Vec<String> = Vec::new();
    let mut i: usize = 0;
    while i < entries.len()
        invariant
            i <= entries.len(),
            r.len() == i,
            forall|j: int| 0 <= j < i ==> r[j]@ == entries[j].path@,
        decreases entries.len() - i,
    {
        r.push(entries[i].path.clone());
        i = i + 1;
    }
    assert(crate::text::view_each(r@) =~= paths_of(entry_views(entries@)));
    r
}

impl ObjectsRegistry {
    /// A registry that knows nothing.
    pub fn new() -> (r: Self)
        ensures
            r@.devices == Seq::<EntryView>::empty(),
            r@.connections == Seq::<EntryView>::empty(),
            r@.wf(),
    {
        let r = ObjectsRegistry { devices: Vec::new(), connections: Vec::new() };
        assert(r@.devices =~= Seq::<EntryView>::empty());
        assert(r@.connections =~= Seq::<EntryView>::empty());
        r
    }

    /// Registers the path of the device of the given name.
    pub fn add_device(&mut self, name: &str, path: &str)
        ensures
            final(self)@.devices == inserted(old(self)@.devices, name@, path@),
            final(self)@.connections == old(self)@.connections,
            old(self)@.wf() ==> final(self)@.wf(),
    {
        proof {
            if unique_keys(entry_views(self.devices@)) {
                lemma_inserted(entry_views(self.devices@), name@, path@);
            }
        }
        insert_entry(&mut self.devices, name, path);
    }

    /// Registers the path of the connection of the given id.
    pub fn add_connection(&mut self, id: &str, path: &str)
        ensures
            final(self)@.connections == inserted(old(self)@.connections, id@, path@),
            final(self)@.devices == old(self)@.devices,
            old(self)@.wf() ==> final(self)@.wf(),
    {
        proof {
            if unique_keys(entry_views(self.connections@)) {
                lemma_inserted(entry_views(self.connections@), id@, path@);
            }
        }
        insert_entry(&mut self.connections, id, path);
    }

    /// Takes the connection of the given id out of the registry. Says
    /// whether it was there.
    pub fn remove_connection(&mut self, id: &str) -> (found: bool)
        ensures
            found == (lookup(old(self)@.connections, id@) is Some),
            final(self)@.connections == removed(old(self)@.connections, id@),
            final(self)@.devices == old(self)@.devices,
            old(self)@.wf() ==> final(self)@.wf(),
    {
        proof {
            if unique_keys(entry_views(self.connections@)) {
                lemma_removed(entry_views(self.connections@), id@);
            }
        }
        match find_entry(&self.connections, id) {
            Some(i) => {
                let _ = self.connections.remove(i);
                assert(entry_views(self.connections@) =~= removed(
                    entry_views(old(self).connections@),
                    id@,
                ));
                true
            },
            None => false,
        }
    }

    /// The path of the connection of the given id; none if no such
    /// connection is registered.
    pub fn connection_path(&self, id: &str) -> (r: Option<String>)
        ensures
            match r {
                Some(path) => lookup(self@.connections, id@) == Some(path@),
                None => lookup(self@.connections, id@) is None,
            },
    {
        match find_entry(&self.connections, id) {
            Some(i) => Some(self.connections[i].path.clone()),
            None => None,
        }
    }

    /// The paths of the devices, in the order in which they were first
    /// registered.
    pub fn devices_paths(&self) -> (r: Vec<String>)
        ensures
            crate::text::view_each(r@) == paths_of(self@.devices),
    {
        entry_paths(&self.devices)
    }

    /// The paths of the connections, in the order in which they were first
    /// registered.
    pub fn connections_paths(&self) -> (r: Vec<String>)
        ensures
            crate::text::view_each(r@) == paths_of(self@.connections),
    {
        entry_paths(&self.connections)
    }
}

} // verus!
