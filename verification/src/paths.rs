//! The fields of a struct, and the path that a chain of them makes.

use vstd::prelude::*;
use vstd::string::StringExecFns;
use crate::text::str_eq;

verus! {


/// A field of a struct: its name, and the names that make up its type from
/// the outside in, so that `Option<Vec<Item>>` gives `Option`, `Vec`,
/// `Item`.
#[derive(Debug)]
pub struct Field {
    pub ident: String,
    pub types: Vec<String>,
}

/// A field, texts as their characters.
pub struct FieldModel {
    pub ident: Seq<char>,
    pub types: Seq<Seq<char>>,
}

/// The characters of each text.
pub open spec fn names_view(names: Seq<String>) -> Seq<Seq<char>> {
    Seq::new(names.len(), |i: int| names[i]@)
}

impl View for Field {
    type V = FieldModel;

    open spec fn view(&self) -> FieldModel {
        FieldModel { ident: self.ident@, types: names_view(self.types@) }
    }
}

/// The fields behind the references.
pub open spec fn fields_view(fields: Seq<&Field>) -> Seq<FieldModel> {
    Seq::new(fields.len(), |i: int| fields[i]@)
}

impl FieldModel {
    /// The step that the field is in a path: its name, and behind it the
    /// first place where it holds a list, or the English entry where it
    /// holds a map of names.
    pub open spec fn step(self) -> Seq<char> {
        if self.types.contains("Vec"@) {
            self.ident + "[0]"@
        } else if self.types.contains("BTreeMap"@) {
            self.ident + "[\"en\"]"@
        } else {
            self.ident
        }
    }
}

/// The steps of a path written out, a dot between one and the next.
pub open spec fn path_text(fields: Seq<FieldModel>) -> Seq<char>
    decreases fields.len(),
{
    if fields.len() == 0 {
        Seq::empty()
    } else if fields.len() == 1 {
        fields[0].step()
    } else {
        path_text(fields.drop_last()) + "."@ + fields.last().step()
    }
}

/// Whether a name is among the names of a type.
pub fn has_type(field: &Field, name: &str) -> (res: bool)
    ensures
        res == field@.types.contains(name@),
{
    let mut i: usize = 0;
    while i < field.types.len()
        invariant
            i <= field.types@.len(),
            forall|j: int| 0 <= j < i ==> field@.types[j] != name@,
        decreases field.types@.len() - i,
    {
        if str_eq(field.types[i].as_str(), name) {
            assert(field@.types[i as int] == name@);
            return true;
        }
        i += 1;
    }
    false
}

/// Writes out the path that the fields make, one in the other.
pub fn fields_to_path(fields: &[&Field]) -> (res: String)
    ensures
        res@ == path_text(fields_view(fields@)),
{
    let mut res = String::new();
    let ghost all = fields_view(fields@);
    let mut i: usize = 0;
    proof {
        assert(all.take(0) =~= Seq::empty());
    }
    while i < fields.len()
        invariant
            i <= fields@.len(),
            all == fields_view(fields@),
            res@ == path_text(all.take(i as int)),
        decreases fields@.len() - i,
    {
        let field = fields[i];
        proof {
            assert(all.take(i + 1).drop_last() =~= all.take(i as int));
            assert(all.take(i + 1).last() == field@);
            if i == 0 {
                assert(all.take(i + 1)[0] == field@);
                assert(Seq::<char>::empty() + field@.ident =~= field@.ident);
            }
        }
        if i > 0 {
            res.append(".");
        }
        res.append(field.ident.as_str());
        if has_type(field, "Vec") {
            res.append("[0]");
        } else if has_type(field, "BTreeMap") {
            res.append("[\"en\"]");
        }
        proof {
            let step = field@.step();
            if i == 0 {
                assert(res@ =~= step);
            } else {
                assert(res@ =~= path_text(all.take(i as int)) + "."@ + step);
            }
        }
        i += 1;
    }
    proof {
        assert(all.take(fields@.len() as int) =~= all);
    }
    res
}

} // verus!
