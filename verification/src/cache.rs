use crate::text::same;
use vstd::prelude::*;

verus! {

/// The error of `bitcode::decode`; nothing is read from it.
#[verifier::external_type_specification]
#[verifier::external_body]
pub struct ExBitcodeError(bitcode::Error);

/// The bytes that `bitcode::encode` gives for a list of entries.
pub uninterp spec fn encoded_entries(
    entries: Seq<(Seq<char>, (Seq<char>, Option<Seq<char>>))>,
) -> Seq<u8>;

/// The list of entries that `bitcode::decode` reads from `bytes`, where it reads one.
pub uninterp spec fn decoded_entries(bytes: Seq<u8>) -> Option<
    Seq<(Seq<char>, (Seq<char>, Option<Seq<char>>))>,
>;

/// What the cache holds for one command, as plain values: the package identifier, and the
/// path of the executable where it is known.
pub type Choice = (Seq<char>, Option<Seq<char>>);

/// One resolved command.
#[derive(Clone, Debug)]
pub struct CacheEntry {
    /// The package identifier.
    pub derivation: String,
    /// The path of the built executable, where it was built before.
    pub path: Option<String>,
}

/// A command as it is resolved, on its way to being dispatched: the entry that the cache
/// keeps for it.
pub type PackageChoice = CacheEntry;

impl View for CacheEntry {
    type V = Choice;

    open spec fn view(&self) -> Choice {
        (self.derivation@, self.path.deep_view())
    }
}

impl DeepView for CacheEntry {
    type V = Choice;

    open spec fn deep_view(&self) -> Choice {
        self@
    }
}

/// The entries of a list as plain values, in the order of the list.
pub open spec fn listing(slots: Seq<(String, CacheEntry)>) -> Seq<(Seq<char>, Choice)> {
    Seq::new(slots.len(), |i: int| (slots[i].0@, slots[i].1@))
}

/// The mapping that a list of entries stands for: of two entries for one command the
/// later counts.
pub open spec fn mapping(entries: Seq<(Seq<char>, Choice)>) -> Map<Seq<char>, Choice>
    decreases entries.len(),
{
    if entries.len() == 0 {
        Map::empty()
    } else {
        mapping(entries.drop_last()).insert(entries.last().0, entries.last().1)
    }
}

/// Whether no command has two entries in the list.
pub open spec fn distinct(entries: Seq<(Seq<char>, Choice)>) -> bool {
    forall|i: int, j: int|
        0 <= i < j < entries.len() ==> (#[trigger] entries[i]).0 != (#[trigger] entries[j]).0
}

/// The mapping of a list holds a command exactly where the list has an entry for it.
pub proof fn lemma_mapping_domain(entries: Seq<(Seq<char>, Choice)>, command: Seq<char>)
    ensures
        mapping(entries).contains_key(command) <==> exists|i: int|
            0 <= i < entries.len() && (#[trigger] entries[i]).0 == command,
    decreases entries.len(),
{
    if entries.len() > 0 {
        let init = entries.drop_last();
        lemma_mapping_domain(init, command);
        if exists|i: int| 0 <= i < entries.len() && (#[trigger] entries[i]).0 == command {
            let i = choose|i: int| 0 <= i < entries.len() && (#[trigger] entries[i]).0 == command;
            if i < init.len() {
                assert(init[i].0 == command);
            }
        }
    }
}

/// In a list without doubles the mapping gives each command what its entry holds.
pub proof fn lemma_mapping_at(entries: Seq<(Seq<char>, Choice)>, i: int)
    requires
        distinct(entries),
        0 <= i < entries.len(),
    ensures
        mapping(entries).contains_key(entries[i].0),
        mapping(entries)[entries[i].0] == entries[i].1,
    decreases entries.len(),
{
    let init = entries.drop_last();
    if i < init.len() {
        lemma_mapping_at(init, i);
    }
}

/// Replacing the entry of a command in a list without doubles is an insertion into its
/// mapping.
pub proof fn lemma_mapping_update(entries: Seq<(Seq<char>, Choice)>, i: int, choice: Choice)
    requires
        distinct(entries),
        0 <= i < entries.len(),
    ensures
        distinct(entries.update(i, (entries[i].0, choice))),
        mapping(entries.update(i, (entries[i].0, choice))) == mapping(entries).insert(
            entries[i].0,
            choice,
        ),
    decreases entries.len(),
{
    let command = entries[i].0;
    let after = entries.update(i, (command, choice));
    let init = entries.drop_last();
    if i == entries.len() - 1 {
        assert(after.drop_last() =~= init);
    } else {
        lemma_mapping_update(init, i, choice);
        assert(after.drop_last() =~= init.update(i, (command, choice)));
    }
}

/// Taking the entry of a command out of a list without doubles takes the command out of
/// its mapping.
pub proof fn lemma_mapping_remove(entries: Seq<(Seq<char>, Choice)>, i: int)
    requires
        distinct(entries),
        0 <= i < entries.len(),
    ensures
        distinct(entries.remove(i)),
        mapping(entries.remove(i)) == mapping(entries).remove(entries[i].0),
    decreases entries.len(),
{
    let command = entries[i].0;
    let after = entries.remove(i);
    let init = entries.drop_last();
    if i == entries.len() - 1 {
        lemma_mapping_domain(init, command);
    } else {
        lemma_mapping_remove(init, i);
        assert(after.drop_last() =~= init.remove(i));
    }
}

/// Calls `bitcode::encode` on the entries, each written as a pair of the command and a
/// pair of the package identifier and the optional path. The contract names the bytes
/// that come back, and claims of them what the crate encodes for: that `bitcode::decode`
/// reads the same list from them again.
#[verifier::external_body]
fn encode_entries(slots: &Vec<(String, CacheEntry)>) -> (out: Vec<u8>)
    ensures
        out@ == encoded_entries(listing(slots@)),
        decoded_entries(out@) == Some(listing(slots@)),
{
    let plain: Vec<(&str, (&str, Option<&str>))> = slots.iter().map(
        |slot| (slot.0.as_str(), (slot.1.derivation.as_str(), slot.1.path.as_deref())),
    ).collect();
    bitcode::encode(&plain)
}

/// Calls `bitcode::decode` for a list of entries in the form that `encode_entries` writes.
/// The contract names the list that comes back; the call fails where the bytes hold none.
#[verifier::external_body]
fn decode_entries(bytes: &[u8]) -> (res: Result<Vec<(String, CacheEntry)>, bitcode::Error>)
    ensures
        res is Ok <==> decoded_entries(bytes@) is Some,
        res matches Ok(slots) ==> decoded_entries(bytes@) == Some(listing(slots@)),
{
    let plain: Vec<(String, (String, Option<String>))> = bitcode::decode(bytes)?;
    Ok(plain.into_iter().map(|e| (e.0, CacheEntry { derivation: e.1.0, path: e.1.1 })).collect())
}

/// The mapping that the bytes of a state file hold, where they hold one.
pub open spec fn stored(bytes: Seq<u8>) -> Option<Map<Seq<char>, Choice>> {
    match decoded_entries(bytes) {
        Some(entries) => Some(mapping(entries)),
        None => None,
    }
}

/// What a flush of the cache `before` does: `after` is the cache it leaves, `out` what it
/// hands out.
pub open spec fn flushes(before: Cache, after: Cache, out: Option<Vec<u8>>) -> bool {
    &&& after@ == before@
    &&& after.entries() == before.entries()
    &&& !after.is_dirty()
    &&& before.is_dirty() ==> (out matches Some(bytes) && bytes@ == encoded_entries(
        before.entries(),
    ) && stored(bytes@) == Some(before@))
    &&& !before.is_dirty() ==> out is None
}

/// What loading a cache from the state file `file` gives.
pub open spec fn loads(file: StateFile, res: Result<Cache, CacheLoadError>) -> bool {
    match file {
        StateFile::Absent => res matches Ok(cache) && cache@ == Map::<Seq<char>, Choice>::empty()
            && !cache.is_dirty(),
        StateFile::Unreadable => res == Err::<Cache, CacheLoadError>(CacheLoadError::Unreadable),
        StateFile::Contents(bytes) => match stored(bytes@) {
            Some(held) => res matches Ok(cache) && cache@ == held && !cache.is_dirty(),
            None => res == Err::<Cache, CacheLoadError>(CacheLoadError::Corrupt),
        },
    }
}

/// What was found at the place of the state file.
#[derive(Debug)]
pub enum StateFile {
    /// There is no file.
    Absent,
    /// There is one, and it could not be read.
    Unreadable,
    /// The bytes of the file.
    Contents(Vec<u8>),
}

/// Why no cache could be loaded.
#[derive(Debug, Clone, Copy, PartialEq, Eq, Structural)]
pub enum CacheLoadError {
    /// The state file could not be read.
    Unreadable,
    /// The state file does not hold a cache.
    Corrupt,
}

/// The choices made for commands so far, and whether they changed since they were loaded
/// or last flushed.
pub struct Cache {
    slots: Vec<(String, CacheEntry)>,
    update: bool,
}

/// The index of the entry for `command`, where there is one.
fn find(slots: &Vec<(String, CacheEntry)>, command: &str) -> (res: Option<usize>)
    ensures
        res matches Some(i) ==> i < slots@.len() && slots@[i as int].0@ == command@,
        res is None ==> forall|i: int| 0 <= i < slots@.len() ==> slots@[i].0@ != command@,
{
    let n: usize = slots.len();
    let mut i: usize = 0;
    while i < n
        invariant
            n == slots@.len(),
            i <= n,
            forall|j: int| 0 <= j < i ==> slots@[j].0@ != command@,
        decreases n - i,
    {
        if same(slots[i].0.as_str(), command) {
            return Some(i);
        }
        i += 1;
    }
    None
}

impl View for Cache {
    type V = Map<Seq<char>, Choice>;

    closed spec fn view(&self) -> Map<Seq<char>, Choice> {
        mapping(listing(self.slots@))
    }
}

impl Cache {
    #[verifier::type_invariant]
    spec fn no_doubles(self) -> bool {
        distinct(listing(self.slots@))
    }

    /// Whether the cache changed since it was loaded or last flushed.
    pub closed spec fn is_dirty(&self) -> bool {
        self.update
    }

    /// The entries in the order in which a flush writes them.
    pub closed spec fn entries(&self) -> Seq<(Seq<char>, Choice)> {
        listing(self.slots@)
    }

    /// What `query` finds for `command`.
    pub open spec fn lookup(&self, command: Seq<char>) -> Option<Choice> {
        if self@.contains_key(command) {
            Some(self@[command])
        } else {
            None
        }
    }

    /// The cache that the state file holds. Without a file it is empty, which is no error; a
    /// file that cannot be read, or whose bytes hold no cache, is one. A file that lists a
    /// command twice counts the later entry. The cache that is handed back is not dirty.
    pub fn new(file: StateFile) -> (res: Result<Cache, CacheLoadError>)
        ensures
            loads(file, res),
    {
        let bytes = match file {
            StateFile::Absent => {
                return Ok(Cache { slots: Vec::new(), update: false });
            },
            StateFile::Unreadable => {
                return Err(CacheLoadError::Unreadable);
            },
            StateFile::Contents(bytes) => bytes,
        };
        let found = match decode_entries(bytes.as_slice()) {
            Ok(found) => found,
            Err(_) => {
                return Err(CacheLoadError::Corrupt);
            },
        };
        let mut cache = Cache { slots: Vec::new(), update: false };
        let n: usize = found.len();
        let mut i: usize = 0;
        while i < n
            invariant
                n == found@.len(),
                i <= n,
                cache@ == mapping(listing(found@).take(i as int)),
            decreases n - i,
        {
            let entry = CacheEntry {
                derivation: found[i].1.derivation.clone(),
                path: found[i].1.path.clone(),
            };
            proof {
                let next = listing(found@).take(i + 1);
                assert(next.drop_last() =~= listing(found@).take(i as int));
            }
            cache.update(found[i].0.as_str(), entry);
            i += 1;
        }
        assert(listing(found@).take(n as int) =~= listing(found@));
        proof {
            use_type_invariant(&cache);
        }
        cache.update = false;
        Ok(cache)
    }

    /// Puts `entry` in the place of whatever the cache held for `command`.
    pub fn update(&mut self, command: &str, entry: CacheEntry)
        ensures
            final(self)@ == old(self)@.insert(command@, entry@),
            final(self).is_dirty(),
    {
        proof {
            use_type_invariant(&*self);
        }
        let mut slots: Vec<(String, CacheEntry)> = Vec::new();
        core::mem::swap(&mut slots, &mut self.slots);
        let ghost before = listing(slots@);
        let ghost choice = entry@;
        match find(&slots, command) {
            Some(i) => {
                proof {
                    lemma_mapping_update(before, i as int, choice);
                }
                slots[i] = (command.to_owned(), entry);
                assert(listing(slots@) =~= before.update(i as int, (command@, choice)));
            },
            None => {
                slots.push((command.to_owned(), entry));
                proof {
                    let after = listing(slots@);
                    assert(after.drop_last() =~= before);
                    assert forall|a: int, b: int| 0 <= a < b < after.len() implies (
                    #[trigger] after[a]).0 != (#[trigger] after[b]).0 by {
                        assert(after[a] == before[a]);
                        if b < before.len() {
                            assert(after[b] == before[b]);
                        }
                    }
                }
            },
        }
        self.slots = slots;
        self.update = true;
    }

    /// Takes out what the cache held for `command`. The cache is dirty afterwards, also
    /// where it held nothing for it.
    pub fn delete(&mut self, command: &str)
        ensures
            final(self)@ == old(self)@.remove(command@),
            final(self).is_dirty(),
    {
        proof {
            use_type_invariant(&*self);
        }
        let mut slots: Vec<(String, CacheEntry)> = Vec::new();
        core::mem::swap(&mut slots, &mut self.slots);
        let ghost before = listing(slots@);
        match find(&slots, command) {
            Some(i) => {
                proof {
                    lemma_mapping_remove(before, i as int);
                }
                slots.remove(i);
                assert(listing(slots@) =~= before.remove(i as int));
            },
            None => {
                proof {
                    lemma_mapping_domain(before, command@);
                }
            },
        }
        self.slots = slots;
        self.update = true;
    }

    /// Takes out every entry.
    pub fn empty(&mut self)
        ensures
            final(self)@ == Map::<Seq<char>, Choice>::empty(),
            final(self).is_dirty(),
    {
        self.slots = Vec::new();
        self.update = true;
    }

    /// Whether a flush would hand out bytes.
    pub fn needs_flush(&self) -> (dirty: bool)
        ensures
            dirty == self.is_dirty(),
    {
        self.update
    }

    /// Hands out the bytes to put in the place of the state file, where the cache changed
    /// since it was loaded or last flushed, and nothing where it did not. The cache keeps its
    /// entries and is not dirty afterwards, whether or not the bytes reach the file.
    pub fn flush(&mut self) -> (out: Option<Vec<u8>>)
        ensures
            flushes(*old(self), *final(self), out),
    {
        proof {
            use_type_invariant(&*self);
        }
        if !self.update {
            return None;
        }
        let bytes = encode_entries(&self.slots);
        self.update = false;
        Some(bytes)
    }

    /// The entry for `command`, where there is one.
    pub fn query(&self, command: &str) -> (res: Option<CacheEntry>)
        ensures
            res.deep_view() == self.lookup(command@),
    {
        proof {
            use_type_invariant(self);
            lemma_mapping_domain(listing(self.slots@), command@);
        }
        match find(&self.slots, command) {
            Some(i) => {
                proof {
                    lemma_mapping_at(listing(self.slots@), i as int);
                }
                let entry = &self.slots[i].1;
                Some(CacheEntry { derivation: entry.derivation.clone(), path: entry.path.clone() })
            },
            None => {
                assert forall|i: int| 0 <= i < self.slots@.len() implies (#[trigger] listing(
                    self.slots@,
                )[i]).0 != command@ by {}
                None
            },
        }
    }
}

/// What the cache holds, where there is one.
pub open spec fn held(cache: Option<Cache>) -> Option<Map<Seq<char>, Choice>> {
    match cache {
        Some(cache) => Some(cache@),
        None => None,
    }
}

/// Whether there is a cache with changes that no flush has handed out.
pub open spec fn unsaved(cache: Option<Cache>) -> bool {
    cache matches Some(cache) && cache.is_dirty()
}

/// Puts `entry` in the cache as the choice for `command`, where there is a cache.
pub fn remember(cache: &mut Option<Cache>, command: &str, entry: CacheEntry)
    ensures
        held(*final(cache)) == match held(*old(cache)) {
            Some(choices) => Some(choices.insert(command@, entry@)),
            None => None,
        },
        unsaved(*final(cache)) == (*old(cache) is Some),
{
    match cache {
        Some(cache) => {
            cache.update(command, entry);
        },
        None => {},
    }
}

/// Flushes the cache, where there is one: hands out the bytes for the state file where the
/// cache has changes that no flush handed out yet, and leaves none behind.
pub fn save(cache: &mut Option<Cache>) -> (out: Option<Vec<u8>>)
    ensures
        saves(*old(cache), *final(cache), out),
{
    match cache {
        Some(cache) => cache.flush(),
        None => None,
    }
}

/// What saving does to a cache that may be absent: `flushes`, where there is one.
pub open spec fn saves(before: Option<Cache>, after: Option<Cache>, out: Option<Vec<u8>>) -> bool {
    match before {
        Some(cache) => after matches Some(left) && flushes(cache, left, out),
        None => after is None && out is None,
    }
}

/// Saving leaves no change behind that was not handed out: what the cache held goes out
/// as bytes that hold it, at the latest with the save, and a save that follows hands out
/// nothing.
pub proof fn lemma_save_leaves_nothing_unsaved(
    before: Option<Cache>,
    after: Option<Cache>,
    out: Option<Vec<u8>>,
    later: Option<Cache>,
    again: Option<Vec<u8>>,
)
    requires
        saves(before, after, out),
        saves(after, later, again),
    ensures
        !unsaved(after),
        held(after) == held(before),
        unsaved(before) ==> (out matches Some(bytes) && stored(bytes@) == held(before)),
        again is None,
{
}

/// A cache that is loaded from the bytes that a flush handed out answers every query as
/// the flushed cache did.
pub proof fn lemma_flush_then_load(
    before: Cache,
    after: Cache,
    bytes: Vec<u8>,
    res: Result<Cache, CacheLoadError>,
)
    requires
        flushes(before, after, Some(bytes)),
        loads(StateFile::Contents(bytes), res),
    ensures
        res matches Ok(loaded) && loaded@ == before@ && forall|command: Seq<char>|
            loaded.lookup(command) == before.lookup(command),
{
}

/// Of two flushes with no change between them the second hands out nothing, and the
/// cache holds after both what it held before them.
pub proof fn lemma_flush_twice(
    before: Cache,
    between: Cache,
    first: Option<Vec<u8>>,
    after: Cache,
    second: Option<Vec<u8>>,
)
    requires
        flushes(before, between, first),
        flushes(between, after, second),
    ensures
        second is None,
        after@ == before@,
        first is Some <==> before.is_dirty(),
{
}

} // verus!
