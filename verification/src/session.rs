//! Interned names.
//!
//! An [`Interner`] keeps one table of strings; a [`Name`] is the position of
//! a string in that table. Interning a string that the table already holds
//! gives back the position it has; a new string goes to the end.

use vstd::prelude::*;

verus! {

/// Handle of an interned string: its position in the interner's table.
#[derive(Clone, Copy, Debug, PartialEq, Eq, PartialOrd, Ord, Hash, Structural)]
pub struct Name(pub usize);

impl View for Name {
    type V = nat;

    open spec fn view(&self) -> nat {
        self.0 as nat
    }
}

/// Position of the first entry of `table` that equals `text`, or the length
/// of `table` where no entry does: the handle that interning `text` gives.
pub open spec fn first_index(table: Seq<Seq<char>>, text: Seq<char>) -> nat
    decreases table.len(),
{
    if table.len() == 0 {
        0
    } else {
        let before = first_index(table.drop_last(), text);
        if before < table.len() - 1 {
            before
        } else if table.last() == text {
            before
        } else {
            table.len()
        }
    }
}

/// The table after `text` was interned: unchanged where it holds `text`,
/// one entry longer where it does not.
pub open spec fn interned(table: Seq<Seq<char>>, text: Seq<char>) -> Seq<Seq<char>> {
    if first_index(table, text) < table.len() {
        table
    } else {
        table.push(text)
    }
}

/// `first_index` is at most the length; below the length it points at an
/// entry equal to `text`, and no earlier entry equals `text`.
pub proof fn lemma_first_index(table: Seq<Seq<char>>, text: Seq<char>)
    ensures
        first_index(table, text) <= table.len(),
        first_index(table, text) < table.len() ==> table[first_index(table, text) as int] == text,
        forall|j: int| 0 <= j < first_index(table, text) ==> table[j] != text,
    decreases table.len(),
{
    if table.len() > 0 {
        lemma_first_index(table.drop_last(), text);
        let before = first_index(table.drop_last(), text);
        assert forall|j: int| 0 <= j < first_index(table, text) implies table[j] != text by {
            if j < table.len() - 1 {
                assert(table.drop_last()[j] == table[j]);
            }
        }
        if before < table.len() - 1 {
            assert(table.drop_last()[before as int] == table[before as int]);
        }
    }
}

/// A position that meets the description of `first_index` is `first_index`.
pub proof fn lemma_first_index_is(table: Seq<Seq<char>>, text: Seq<char>, p: nat)
    requires
        p <= table.len(),
        p < table.len() ==> table[p as int] == text,
        forall|j: int| 0 <= j < p ==> table[j] != text,
    ensures
        first_index(table, text) == p,
{
    lemma_first_index(table, text);
    let q = first_index(table, text);
    if q < p {
        assert(table[q as int] == text);
    } else if p < q {
        assert(table[p as int] == text);
    }
}

/// The string table behind the names of one compilation.
pub struct Interner {
    strings: Vec<String>,
}

impl View for Interner {
    type V = Seq<Seq<char>>;

    closed spec fn view(&self) -> Seq<Seq<char>> {
        self.strings@.map_values(|s: String| s@)
    }
}

impl Interner {
    /// An interner that holds no string.
    pub fn new() -> (interner: Interner)
        ensures
            interner@ == Seq::<Seq<char>>::empty(),
    {
        let interner = Interner { strings: Vec::new() };
        assert(interner@ =~= Seq::<Seq<char>>::empty());
        interner
    }

    /// Number of strings held.
    pub fn len(&self) -> (n: usize)
        ensures
            n == self@.len(),
    {
        self.strings.len()
    }

    /// The handle of `text`, which is added to the table unless it is there.
    pub fn intern(&mut self, text: String) -> (name: Name)
        ensures
            name@ == first_index(old(self)@, text@),
            final(self)@ == interned(old(self)@, text@),
            old(self)@.no_duplicates() ==> final(self)@.no_duplicates(),
    {
        let mut i: usize = 0;
        while i < self.strings.len()
            invariant
                i <= self.strings.len(),
                self@ == old(self)@,
                forall|j: int| 0 <= j < i ==> self@[j] != text@,
            decreases self.strings.len() - i,
        {
            if self.strings[i] == text {
                proof {
                    lemma_first_index_is(self@, text@, i as nat);
                }
                return Name(i);
            }
            i += 1;
        }
        proof {
            lemma_first_index_is(self@, text@, i as nat);
        }
        self.strings.push(text);
        assert(self@ =~= old(self)@.push(text@));
        Name(i)
    }

    /// The string that `name` stands for, if this interner gave it out.
    pub fn lookup(&self, name: Name) -> (text: Option<&String>)
        ensures
            match text {
                Some(s) => name@ < self@.len() && s@ == self@[name@ as int],
                None => name@ >= self@.len(),
            },
    {
        if name.0 < self.strings.len() {
            Some(&self.strings[name.0])
        } else {
            None
        }
    }
}

} // verus!
