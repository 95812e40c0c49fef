//! The structs that paths are worked out for.

use vstd::prelude::*;
use crate::paths::{Field, FieldModel};
use crate::text::str_eq;

verus! {

/// A struct: its name and its fields in their order, and whether paths
/// are wanted for it, with the type they give and the name to give them
/// under.
#[derive(Debug)]
pub struct Struct {
    pub ident: String,
    pub fields: Vec<Field>,
    pub generate: bool,
    pub return_type: Option<String>,
    pub replacement_type: Option<String>,
}

/// A struct, as far as its paths go: its name and its fields.
pub struct StructModel {
    pub ident: Seq<char>,
    pub fields: Seq<FieldModel>,
}

impl View for Struct {
    type V = StructModel;

    open spec fn view(&self) -> StructModel {
        StructModel {
            ident: self.ident@,
            fields: Seq::new(self.fields@.len(), |i: int| self.fields@[i]@),
        }
    }
}

impl Struct {
    /// The name of the type that paths are written for: the name to give
    /// them under, where there is one, else the name of the struct.
    pub fn implemented_for(&self) -> (res: &str)
        ensures
            res@ == match self.replacement_type {
                Some(name) => name@,
                None => self.ident@,
            },
    {
        match &self.replacement_type {
            Some(name) => name.as_str(),
            None => self.ident.as_str(),
        }
    }
}

/// The structs, texts as their characters.
pub open spec fn structs_view(structs: Seq<Struct>) -> Seq<StructModel> {
    Seq::new(structs.len(), |i: int| structs[i]@)
}

/// Every field of every struct has a type of at least one name.
pub open spec fn typed(structs: Seq<StructModel>) -> bool {
    forall|i: int, j: int|
        0 <= i < structs.len() && 0 <= j < structs[i].fields.len() ==> (
        #[trigger] structs[i].fields[j]).types.len() > 0
}

/// The place of the first struct of the given name.
pub open spec fn position(structs: Seq<StructModel>, name: Seq<char>) -> Option<int>
    decreases structs.len(),
{
    if structs.len() == 0 {
        None
    } else {
        match position(structs.drop_last(), name) {
            Some(i) => Some(i),
            None => if structs.last().ident == name {
                Some(structs.len() - 1)
            } else {
                None
            },
        }
    }
}

/// Finds the first struct of the given name.
pub fn find_struct(structs: &Vec<Struct>, name: &str) -> (res: Option<usize>)
    ensures
        match res {
            Some(i) => position(structs_view(structs@), name@) == Some(i as int) && i
                < structs@.len(),
            None => position(structs_view(structs@), name@) is None,
        },
{
    let ghost all = structs_view(structs@);
    let mut i: usize = 0;
    proof {
        assert(all.take(0) =~= Seq::empty());
    }
    while i < structs.len()
        invariant
            i <= structs@.len(),
            all == structs_view(structs@),
            position(all.take(i as int), name@) is None,
        decreases structs@.len() - i,
    {
        proof {
            assert(all.take(i + 1).drop_last() =~= all.take(i as int));
            assert(all.take(i + 1).last() == structs@[i as int]@);
        }
        if str_eq(structs[i].ident.as_str(), name) {
            proof {
                lemma_position_stays(all, name@, i + 1);
            }
            return Some(i);
        }
        i += 1;
    }
    proof {
        assert(all.take(structs@.len() as int) =~= all);
    }
    None
}

/// A struct found among the first structs is the one found among all.
pub proof fn lemma_position_stays(structs: Seq<StructModel>, name: Seq<char>, n: int)
    requires
        0 <= n <= structs.len(),
        position(structs.take(n), name) is Some,
    ensures
        position(structs, name) == position(structs.take(n), name),
    decreases structs.len() - n,
{
    if n == structs.len() {
        assert(structs.take(n) =~= structs);
    } else {
        assert(structs.take(n + 1).drop_last() =~= structs.take(n));
        lemma_position_stays(structs, name, n + 1);
    }
}

/// Whether every field of every struct has a type of at least one name.
pub fn is_typed(structs: &Vec<Struct>) -> (res: bool)
    ensures
        res == typed(structs_view(structs@)),
{
    let ghost all = structs_view(structs@);
    let mut i: usize = 0;
    while i < structs.len()
        invariant
            i <= structs@.len(),
            all == structs_view(structs@),
            forall|a: int, b: int|
                0 <= a < i && 0 <= b < all[a].fields.len() ==> (#[trigger] all[a].fields[b]).types.len()
                    > 0,
        decreases structs@.len() - i,
    {
        let fields = &structs[i].fields;
        let mut j: usize = 0;
        while j < fields.len()
            invariant
                i < structs@.len(),
                j <= fields@.len(),
                all == structs_view(structs@),
                fields == &structs@[i as int].fields,
                forall|b: int| 0 <= b < j ==> (#[trigger] all[i as int].fields[b]).types.len() > 0,
            decreases fields@.len() - j,
        {
            if fields[j].types.len() == 0 {
                assert(all[i as int].fields[j as int].types.len() == 0);
                return false;
            }
            j += 1;
        }
        i += 1;
    }
    true
}

/// Those of the first `n` structs that are not of the given name, in their
/// order.
pub open spec fn others(structs: Seq<Struct>, name: Seq<char>, n: nat) -> Seq<Struct>
    decreases n,
{
    if n == 0 {
        Seq::empty()
    } else {
        let before = others(structs, name, (n - 1) as nat);
        if structs[n - 1].ident@ == name {
            before
        } else {
            before.push(structs[n - 1])
        }
    }
}

/// None of the others has the name.
pub proof fn lemma_others_have_other_names(structs: Seq<Struct>, name: Seq<char>, n: nat)
    requires
        n <= structs.len(),
    ensures
        forall|i: int|
            0 <= i < others(structs, name, n).len() ==> (#[trigger] others(
                structs,
                name,
                n,
            )[i]).ident@ != name,
    decreases n,
{
    if n > 0 {
        lemma_others_have_other_names(structs, name, (n - 1) as nat);
    }
}

/// Puts a struct among the structs, in the place of any that had its name:
/// no earlier struct keeps that name, the others stay in their order, and
/// the new one is last.
pub fn put_struct(structs: &mut Vec<Struct>, s: Struct)
    ensures
        final(structs)@ == others(old(structs)@, s.ident@, old(structs)@.len()).push(s),
{
    let mut earlier: Vec<Struct> = Vec::new();
    core::mem::swap(structs, &mut earlier);
    let ghost held = earlier@;
    for other in it: earlier
        invariant
            held == it.seq(),
            structs@ == others(held, s.ident@, it.index() as nat),
    {
        if !str_eq(other.ident.as_str(), s.ident.as_str()) {
            structs.push(other);
        }
    }
    structs.push(s);
}

} // verus!
