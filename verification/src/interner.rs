use rustc_hash::FxBuildHasher;
use rustc_hash::FxHashMap;
use vstd::prelude::*;

verus! {

/// The hasher factory of `rustc_hash`, which `FxHashMap` is keyed with.
#[verifier::external_type_specification]
#[verifier::external_body]
pub struct ExFxBuildHasher(FxBuildHasher);

/// A handle to an interned string.
///
/// Two handles of one interner are equal exactly when their strings are.
#[derive(Clone, Copy, PartialEq, Eq, Structural, Debug, Hash)]
pub struct StrId(pub u32);

impl StrId {
    /// The position of the handle's string in its interner.
    pub open spec fn index(self) -> int {
        self.0 as int
    }
}

/// The handles that a string-keyed `FxHashMap` holds, by the characters of
/// each key.
pub uninterp spec fn handles(m: FxHashMap<String, u32>) -> Map<Seq<char>, u32>;

/// `FxHashMap::default` makes a map without entries.
#[verifier::external_body]
fn handles_new() -> (m: FxHashMap<String, u32>)
    ensures
        handles(m) == (Map::<Seq<char>, u32>::empty()),
{
    FxHashMap::default()
}

/// `HashMap::get` on an `FxHashMap`: the value stored under the key with
/// these characters, if there is one.
#[verifier::external_body]
fn handles_get(m: &FxHashMap<String, u32>, name: &str) -> (r: Option<u32>)
    ensures
        r == (if handles(*m).contains_key(name@) {
            Some(handles(*m)[name@])
        } else {
            None
        }),
{
    m.get(name).copied()
}

/// `HashMap::insert` on an `FxHashMap`: afterwards the key maps to the new
/// value and every other key is as before.
#[verifier::external_body]
fn handles_insert(m: &mut FxHashMap<String, u32>, name: String, id: u32)
    ensures
        handles(*final(m)) == handles(*old(m)).insert(name@, id),
{
    m.insert(name, id);
}

/// A deduplicating string store: every distinct string gets one handle, in
/// the order of first interning, and keeps it.
pub struct Interner {
    map: FxHashMap<String, u32>,
    names: Vec<String>,
}

/// The most strings that one interner holds: handles are 32 bits wide.
pub const INTERNER_LIMIT: usize = 0xffff_ffff;

impl View for Interner {
    type V = Seq<Seq<char>>;

    /// The interned strings; the string of handle `i` is at index `i`.
    closed spec fn view(&self) -> Seq<Seq<char>> {
        Seq::new(self.names@.len(), |i: int| self.names@[i]@)
    }
}

impl Interner {
    /// The handle table and the string list describe one another.
    pub closed spec fn wf(&self) -> bool {
        &&& self.names@.len() <= INTERNER_LIMIT
        &&& forall|i: int|
            0 <= i < self.names@.len() ==> {
                &&& #[trigger] handles(self.map).contains_key(self.names@[i]@)
                &&& handles(self.map)[self.names@[i]@] == i
            }
        &&& forall|s: Seq<char>| #[trigger]
            handles(self.map).contains_key(s) ==> {
                &&& handles(self.map)[s] < self.names@.len()
                &&& self.names@[handles(self.map)[s] as int]@ == s
            }
    }

    /// Whether `later` holds every string of this interner under its handle.
    pub open spec fn kept_by(&self, later: &Interner) -> bool {
        &&& self@.len() <= later@.len()
        &&& forall|i: int| 0 <= i < self@.len() ==> #[trigger] later@[i] == self@[i]
    }

    /// Whether `id` is a handle of this interner.
    pub open spec fn knows(&self, id: StrId) -> bool {
        0 <= id.index() < self@.len()
    }

    /// No string is interned twice, and no interner outgrows its handles.
    pub proof fn lemma_distinct(&self)
        requires
            self.wf(),
        ensures
            self@.len() <= INTERNER_LIMIT,
            forall|i: int, j: int|
                0 <= i < self@.len() && 0 <= j < self@.len() && self@[i] == self@[j] ==> i == j,
    {
        assert forall|i: int, j: int|
            0 <= i < self@.len() && 0 <= j < self@.len() && self@[i] == self@[j] implies i
            == j by {
            assert(handles(self.map).contains_key(self.names@[i]@));
            assert(handles(self.map).contains_key(self.names@[j]@));
        }
    }

    /// Creates an interner with room set aside for about `cap` strings.
    pub fn with_capacity(cap: usize) -> (interner: Interner)
        ensures
            interner.wf(),
            interner@.len() == 0,
    {
        let room: usize = if cap <= 65536 {
            cap
        } else {
            65536
        };
        Interner { map: handles_new(), names: Vec::with_capacity(room) }
    }

    /// How many strings are interned.
    pub fn len(&self) -> (n: usize)
        ensures
            n == self@.len(),
    {
        self.names.len()
    }

    /// The handle of `name`, if it is interned.
    pub fn find(&self, name: &str) -> (r: Option<StrId>)
        requires
            self.wf(),
        ensures
            r is Some <==> self@.contains(name@),
            r is Some ==> self.knows(r.unwrap()) && self@[r.unwrap().index()] == name@,
    {
        let r = handles_get(&self.map, name);
        proof {
            if r is Some {
                assert(self@[r->0 as int] == name@);
            } else if self@.contains(name@) {
                let i = choose|i: int| 0 <= i < self@.len() && self@[i] == name@;
                assert(handles(self.map).contains_key(self.names@[i]@));
            }
        }
        match r {
            Some(id) => Some(StrId(id)),
            None => None,
        }
    }

    /// Interns `name` unless the interner is full: the handle of `name`, which
    /// is new exactly when `name` was not interned before.
    ///
    /// Every handle given out earlier keeps its string. `None` comes only for
    /// a new string when all handles are taken, and then nothing changes.
    pub fn try_intern(&mut self, name: &str) -> (r: Option<StrId>)
        requires
            old(self).wf(),
        ensures
            final(self).wf(),
            r is None <==> !old(self)@.contains(name@) && old(self)@.len() == INTERNER_LIMIT,
            r is None ==> final(self)@ == old(self)@,
            r is Some ==> final(self)@ == (if old(self)@.contains(name@) {
                old(self)@
            } else {
                old(self)@.push(name@)
            }),
            r is Some ==> final(self).knows(r->0) && final(self)@[r.unwrap().index()] == name@,
            final(self)@ == interned(old(self)@, name@),
            r == (if has_room(old(self)@, name@) {
                Some(handle_of(old(self)@, name@))
            } else {
                None
            }),
    {
        proof {
            self.lemma_distinct();
        }
        match self.find(name) {
            Some(id) => {
                proof {
                    let at = self@.index_of(name@);
                    assert(self@[at] == name@);
                    assert(at == id.index());
                }
                return Some(id);
            },
            None => {},
        }
        if self.names.len() >= INTERNER_LIMIT {
            return None;
        }
        let id: u32 = self.names.len() as u32;
        let ghost before = *self;
        handles_insert(&mut self.map, name.to_owned(), id);
        self.names.push(name.to_owned());
        proof {
            assert(self@ =~= before@.push(name@));
            assert forall|i: int| 0 <= i < self.names@.len() implies {
                &&& #[trigger] handles(self.map).contains_key(self.names@[i]@)
                &&& handles(self.map)[self.names@[i]@] == i
            } by {
                if i < before.names@.len() {
                    assert(handles(before.map).contains_key(before.names@[i]@));
                    assert(before@[i] == before.names@[i]@);
                    assert(before@[i] != name@);
                }
            }
            assert forall|s: Seq<char>| #[trigger]
                handles(self.map).contains_key(s) implies {
                &&& handles(self.map)[s] < self.names@.len()
                &&& self.names@[handles(self.map)[s] as int]@ == s
            } by {
                if s != name@ {
                    assert(handles(before.map).contains_key(s));
                }
            }
        }
        Some(StrId(id))
    }

    /// Interns `name`: the handle of `name`, which is new exactly when `name`
    /// was not interned before. Every handle given out earlier keeps its
    /// string.
    pub fn intern(&mut self, name: &str) -> (id: StrId)
        requires
            old(self).wf(),
            old(self)@.contains(name@) || old(self)@.len() < INTERNER_LIMIT,
        ensures
            final(self).wf(),
            final(self)@ == (if old(self)@.contains(name@) {
                old(self)@
            } else {
                old(self)@.push(name@)
            }),
            final(self).knows(id),
            final(self)@[id.index()] == name@,
    {
        match self.try_intern(name) {
            Some(id) => id,
            None => StrId(0),
        }
    }

    /// The string of a handle of this interner.
    pub fn lookup(&self, id: &StrId) -> (s: &str)
        requires
            self.knows(*id),
        ensures
            s@ == self@[id.index()],
    {
        self.names[id.0 as usize].as_str()
    }

    /// The string of a handle, or `None` for a handle that this interner never
    /// gave out.
    pub fn get(&self, id: StrId) -> (s: Option<&str>)
        ensures
            s is Some <==> self.knows(id),
            s is Some ==> s->0@ == self@[id.index()],
    {
        if (id.0 as usize) < self.names.len() {
            Some(self.names[id.0 as usize].as_str())
        } else {
            None
        }
    }
}

/// Interning is idempotent: a string that is interned again gets the handle
/// it already has, and the interner does not change.
pub proof fn lemma_intern_idempotent(before: Interner, id: StrId, name: Seq<char>)
    requires
        before.wf(),
        before.knows(id),
        before@[id.index()] == name,
    ensures
        before@.contains(name),
        forall|other: StrId| before.knows(other) && before@[other.index()] == name ==> other == id,
{
    before.lemma_distinct();
    assert forall|other: StrId|
        before.knows(other) && before@[other.index()] == name implies other == id by {
        assert(other.0 as int == id.0 as int);
    }
}

/// Handles do not depend on the order of interning: whatever was interned in
/// between, two handles of one interner are equal exactly when their strings
/// are.
pub proof fn lemma_handles_agree_with_strings(interner: Interner, a: StrId, b: StrId)
    requires
        interner.wf(),
        interner.knows(a),
        interner.knows(b),
    ensures
        a == b <==> interner@[a.index()] == interner@[b.index()],
{
    interner.lemma_distinct();
    if interner@[a.index()] == interner@[b.index()] {
        assert(a.0 as int == b.0 as int);
    }
}

/// Whether `text` can be interned: it is interned already, or there is
/// room for it.
pub open spec fn has_room(strings: Seq<Seq<char>>, text: Seq<char>) -> bool {
    strings.contains(text) || strings.len() < INTERNER_LIMIT
}

/// The strings after `text` was interned, if it can be.
pub open spec fn interned(strings: Seq<Seq<char>>, text: Seq<char>) -> Seq<Seq<char>> {
    if strings.contains(text) || strings.len() >= INTERNER_LIMIT {
        strings
    } else {
        strings.push(text)
    }
}

/// The handle of `text` after it was interned: the one that it has, or the
/// next that is free.
pub open spec fn handle_of(strings: Seq<Seq<char>>, text: Seq<char>) -> StrId {
    if strings.contains(text) {
        StrId(strings.index_of(text) as u32)
    } else {
        StrId(strings.len() as u32)
    }
}

} // verus!
