//! The table of sizeable types: which type names have a width, and which one.

use crate::width::SizedData;
use anchor_lang::prelude::Pubkey;
use vstd::prelude::*;

verus! {

/// One registered type: its name and its width in bytes.
struct Entry {
    name: String,
    width: usize,
}

/// The table that a list of entries stands for. A name keeps the width it
/// was first given.
spec fn table_of(entries: Seq<Entry>) -> Map<Seq<char>, nat>
    decreases entries.len(),
{
    if entries.len() == 0 {
        Map::empty()
    } else {
        let earlier = table_of(entries.drop_last());
        let e = entries.last();
        if earlier.contains_key(e.name@) {
            earlier
        } else {
            earlier.insert(e.name@, e.width as nat)
        }
    }
}

/// The names and widths of the four primitive sizeable types.
pub open spec fn primitive_table() -> Map<Seq<char>, nat> {
    Map::empty().insert("u64"@, 8nat).insert("[u8; 32]"@, 32nat).insert("Pubkey"@, 32nat).insert(
        "u8"@,
        1nat,
    )
}

/// No entry of the list carries the name.
proof fn lemma_absent(entries: Seq<Entry>, name: Seq<char>)
    requires
        forall|j: int| 0 <= j < entries.len() ==> entries[j].name@ != name,
    ensures
        !table_of(entries).contains_key(name),
    decreases entries.len(),
{
    if entries.len() > 0 {
        let front = entries.drop_last();
        assert forall|j: int| 0 <= j < front.len() implies front[j].name@ != name by {
            assert(front[j] == entries[j]);
        }
        lemma_absent(front, name);
    }
}

/// The first entry that carries a name decides its width.
proof fn lemma_first_entry_decides(entries: Seq<Entry>, i: int)
    requires
        0 <= i < entries.len(),
        forall|j: int| 0 <= j < i ==> entries[j].name@ != entries[i].name@,
    ensures
        table_of(entries).contains_key(entries[i].name@),
        table_of(entries)[entries[i].name@] == entries[i].width as nat,
    decreases entries.len(),
{
    let front = entries.drop_last();
    if i == entries.len() - 1 {
        assert forall|j: int| 0 <= j < front.len() implies front[j].name@
            != entries[i].name@ by {
            assert(front[j] == entries[j]);
        }
        lemma_absent(front, entries[i].name@);
    } else {
        assert(front[i] == entries[i]);
        assert forall|j: int| 0 <= j < i implies front[j].name@ != front[i].name@ by {
            assert(front[j] == entries[j]);
        }
        lemma_first_entry_decides(front, i);
    }
}

/// The sizeable types known at one point of a build, by name.
///
/// Its view is the map from each registered name to that type's width. A name
/// is registered once and keeps its width from then on, so a width computed
/// from the table never goes stale.
pub struct Registry {
    entries: Vec<Entry>,
}

impl View for Registry {
    type V = Map<Seq<char>, nat>;

    closed spec fn view(&self) -> Map<Seq<char>, nat> {
        table_of(self.entries@)
    }
}

impl Registry {
    /// A registry without any type.
    pub fn new() -> (r: Self)
        ensures
            r@ == Map::<Seq<char>, nat>::empty(),
    {
        Registry { entries: Vec::new() }
    }

    /// The width registered for a type name, if there is one.
    pub fn lookup(&self, name: &String) -> (r: Option<usize>)
        ensures
            self@.contains_key(name@) ==> r.is_some() && r.unwrap() as nat
                == self@[name@],
            !self@.contains_key(name@) ==> r.is_none(),
    {
        let mut i: usize = 0;
        while i < self.entries.len()
            invariant
                i <= self.entries.len(),
                forall|j: int| 0 <= j < i ==> self.entries@[j].name@ != name@,
            decreases self.entries.len() - i,
        {
            if self.entries[i].name == *name {
                proof {
                    lemma_first_entry_decides(self.entries@, i as int);
                }
                return Some(self.entries[i].width);
            }
            i += 1;
        }
        proof {
            lemma_absent(self.entries@, name@);
        }
        None
    }

    /// Registers a type name with its width, unless the name is taken.
    ///
    /// Returns whether the name was new. A name that is already registered
    /// keeps its width and the registry stays as it was.
    pub fn insert(&mut self, name: String, width: usize) -> (fresh: bool)
        ensures
            fresh == !old(self)@.contains_key(name@),
            fresh ==> final(self)@ == old(self)@.insert(name@, width as nat),
            !fresh ==> final(self)@ == old(self)@,
    {
        if self.lookup(&name).is_some() {
            return false;
        }
        let ghost before = self.entries@;
        self.entries.push(Entry { name, width });
        proof {
            assert(self.entries@.drop_last() =~= before);
        }
        true
    }

    /// Registers `T` under a name, with the width that `T` states of itself.
    pub fn register<T: SizedData>(&mut self, name: String) -> (fresh: bool)
        requires
            T::spec_size() <= usize::MAX,
        ensures
            fresh == !old(self)@.contains_key(name@),
            fresh ==> final(self)@ == old(self)@.insert(name@, T::spec_size()),
            !fresh ==> final(self)@ == old(self)@,
    {
        self.insert(name, T::size())
    }

    /// The registry of the four primitive sizeable types, each under the name
    /// by which a record declares a field of it.
    pub fn with_primitives() -> (r: Self)
        ensures
            r@ == primitive_table(),
    {
        let mut r = Registry::new();
        proof {
            reveal_strlit("u64");
            reveal_strlit("[u8; 32]");
            reveal_strlit("Pubkey");
            reveal_strlit("u8");
            assert("u64"@.len() == 3);
            assert("[u8; 32]"@.len() == 8);
            assert("Pubkey"@.len() == 6);
            assert("u8"@.len() == 2);
        }
        r.register::<u64>("u64".to_owned());
        r.register::<[u8; 32]>("[u8; 32]".to_owned());
        r.register::<Pubkey>("Pubkey".to_owned());
        r.register::<u8>("u8".to_owned());
        r
    }
}

} // verus!
