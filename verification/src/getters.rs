//! The getter of a chain of fields: the expression that gives the field at
//! its end.

use vstd::prelude::*;
use vstd::string::StringExecFns;
use crate::chains::{chains_of, chains_view, field_chains, path_texts};
use crate::paths::{fields_to_path, fields_view, names_view, Field, FieldModel};
use crate::structs::{structs_view, typed, Struct};
use crate::text::str_eq;

verus! {

/// What a field holds, as far as a getter cares.
#[derive(Debug, PartialEq, Eq, Structural, Clone, Copy)]
pub enum Shape {
    /// An optional list, of which a getter takes the first item.
    List,
    /// An optional map of names, of which a getter takes the English one.
    Names,
    /// An optional value.
    Plain,
}

/// The shape that the names of a type give: `Option`, `Vec` and one name
/// more are a list; `Option`, `BTreeMap` and two names more are a map of
/// names; `Option` and one name more are a plain value. A type of any
/// other names has no getter.
pub open spec fn shape_of(types: Seq<Seq<char>>) -> Option<Shape> {
    if types.len() == 3 && types[0] == "Option"@ && types[1] == "Vec"@ {
        Some(Shape::List)
    } else if types.len() == 4 && types[0] == "Option"@ && types[1] == "BTreeMap"@ {
        Some(Shape::Names)
    } else if types.len() == 2 && types[0] == "Option"@ {
        Some(Shape::Plain)
    } else {
        None
    }
}

/// The call that opens a field: on the struct itself for the first field
/// of a chain, through the `Option` before it for every other.
pub open spec fn opened(ident: Seq<char>, first: bool) -> Seq<char> {
    if first {
        "."@ + ident + ".as_ref()"@
    } else {
        ".and_then(|x| x."@ + ident + ".as_ref())"@
    }
}

/// The calls that one field of a chain adds to a getter.
pub open spec fn step_calls(ident: Seq<char>, shape: Shape, first: bool, last: bool) -> Seq<char> {
    match shape {
        Shape::List => opened(ident, first) + ".and_then(|x| x.first())"@,
        Shape::Names => opened(ident, first) + ".and_then(|x| x.get(\"en\").copied())"@,
        Shape::Plain => if !last {
            opened(ident, first)
        } else if first {
            "."@ + ident
        } else {
            ".and_then(|x| x."@ + ident + ")"@
        },
    }
}

/// The calls that the first `n` fields of a chain add to a getter, or
/// `None` where one of them has no shape.
pub open spec fn chain_calls(fields: Seq<FieldModel>, n: nat) -> Option<Seq<char>>
    decreases n,
{
    if n == 0 {
        Some(Seq::empty())
    } else {
        match (chain_calls(fields, (n - 1) as nat), shape_of(fields[n - 1].types)) {
            (Some(before), Some(shape)) => Some(
                before + step_calls(fields[n - 1].ident, shape, n == 1, n == fields.len()),
            ),
            _ => None,
        }
    }
}

/// The getter of a chain of fields: the expression that gives the field at
/// its end, out of `self`, or nothing where a field on the way is absent.
/// `None` where a field of the chain has no shape.
pub open spec fn getter_text(fields: Seq<FieldModel>) -> Option<Seq<char>> {
    match chain_calls(fields, fields.len()) {
        Some(calls) => Some("self"@ + calls + ".into()"@),
        None => None,
    }
}

/// The getter of each chain, or `None` where one of the first `n` chains
/// has none.
pub open spec fn getter_texts(chains: Seq<Seq<FieldModel>>, n: nat) -> Option<Seq<Seq<char>>>
    decreases n,
{
    if n == 0 {
        Some(Seq::empty())
    } else {
        match (getter_texts(chains, (n - 1) as nat), getter_text(chains[n - 1])) {
            (Some(before), Some(getter)) => Some(before.push(getter)),
            _ => None,
        }
    }
}

/// The shape of a field.
pub fn shape(field: &Field) -> (res: Option<Shape>)
    ensures
        res == shape_of(field@.types),
{
    let n = field.types.len();
    if n < 2 || n > 4 {
        return None;
    }
    assert(field@.types[0] == field.types@[0]@);
    assert(field@.types[1] == field.types@[1]@);
    if !str_eq(field.types[0].as_str(), "Option") {
        return None;
    }
    if n == 2 {
        Some(Shape::Plain)
    } else if n == 3 && str_eq(field.types[1].as_str(), "Vec") {
        Some(Shape::List)
    } else if n == 4 && str_eq(field.types[1].as_str(), "BTreeMap") {
        Some(Shape::Names)
    } else {
        None
    }
}

/// Adds to `text` the call that opens a field.
fn append_opened(text: &mut String, ident: &str, first: bool)
    ensures
        final(text)@ == old(text)@ + opened(ident@, first),
{
    if first {
        text.append(".");
        text.append(ident);
        text.append(".as_ref()");
        proof {
            assert(text@ =~= old(text)@ + opened(ident@, first));
        }
    } else {
        text.append(".and_then(|x| x.");
        text.append(ident);
        text.append(".as_ref())");
        proof {
            assert(text@ =~= old(text)@ + opened(ident@, first));
        }
    }
}

/// Whether every field of a chain has a shape.
pub open spec fn shaped(fields: Seq<FieldModel>) -> bool {
    forall|i: int| 0 <= i < fields.len() ==> shape_of((#[trigger] fields[i]).types) is Some
}

/// A chain whose fields all have a shape has a getter.
pub proof fn lemma_shaped_has_getter(fields: Seq<FieldModel>, n: nat)
    requires
        shaped(fields),
        n <= fields.len(),
    ensures
        chain_calls(fields, n) is Some,
        n == fields.len() ==> getter_text(fields) is Some,
    decreases n,
{
    if n > 0 {
        lemma_shaped_has_getter(fields, (n - 1) as nat);
        assert(shape_of(fields[n - 1].types) is Some);
    }
}

/// A chain with a field that has no shape has no getter.
pub proof fn lemma_unshaped_has_no_getter(fields: Seq<FieldModel>)
    requires
        !shaped(fields),
    ensures
        getter_text(fields) is None,
{
    let i = choose|i: int| 0 <= i < fields.len() && shape_of((#[trigger] fields[i]).types) is None;
    assert(chain_calls(fields, (i + 1) as nat) is None);
    lemma_calls_stay_none(fields, (i + 1) as nat, fields.len());
}

/// Whether every field of a chain has a shape.
pub fn is_shaped(fields: &[&Field]) -> (res: bool)
    ensures
        res == shaped(fields_view(fields@)),
{
    let ghost all = fields_view(fields@);
    let mut i: usize = 0;
    while i < fields.len()
        invariant
            i <= fields@.len(),
            all == fields_view(fields@),
            forall|j: int| 0 <= j < i ==> shape_of((#[trigger] all[j]).types) is Some,
        decreases fields@.len() - i,
    {
        assert(all[i as int] == fields@[i as int]@);
        if shape(fields[i]).is_none() {
            return false;
        }
        i += 1;
    }
    true
}

/// Writes the getter of a chain of fields. Every field in the chain has a
/// shape; `shape` tells of one field whether it has, `is_shaped` of a chain.
pub fn fields_to_getter(fields: &[&Field]) -> (res: String)
    requires
        shaped(fields_view(fields@)),
    ensures
        getter_text(fields_view(fields@)) == Some(res@),
{
    let ghost all = fields_view(fields@);
    let mut text = "self".to_owned();
    let count = fields.len();
    let mut i: usize = 0;
    proof {
        assert("self"@ + Seq::<char>::empty() =~= "self"@);
    }
    while i < count
        invariant
            i <= count,
            count == fields@.len(),
            all == fields_view(fields@),
            shaped(all),
            chain_calls(all, i as nat) matches Some(calls) && text@ == "self"@ + calls,
        decreases count - i,
    {
        let field = fields[i];
        assert(all[i as int] == field@);
        assert(shape_of(all[i as int].types) is Some);
        let ghost before = chain_calls(all, i as nat)->0;
        let first = i == 0;
        let last = i == count - 1;
        match shape(field) {
            None => {},
            Some(Shape::List) => {
                append_opened(&mut text, field.ident.as_str(), first);
                text.append(".and_then(|x| x.first())");
            },
            Some(Shape::Names) => {
                append_opened(&mut text, field.ident.as_str(), first);
                text.append(".and_then(|x| x.get(\"en\").copied())");
            },
            Some(Shape::Plain) => {
                if !last {
                    append_opened(&mut text, field.ident.as_str(), first);
                } else if first {
                    text.append(".");
                    text.append(field.ident.as_str());
                } else {
                    text.append(".and_then(|x| x.");
                    text.append(field.ident.as_str());
                    text.append(")");
                }
            },
        }
        proof {
            let step = step_calls(field@.ident, shape_of(field@.types)->0, first, last);
            assert(text@ =~= "self"@ + (before + step));
        }
        i += 1;
    }
    text.append(".into()");
    text
}

/// Once a field of a chain has no shape, the chain has no getter.
pub proof fn lemma_calls_stay_none(fields: Seq<FieldModel>, n: nat, m: nat)
    requires
        n <= m,
        chain_calls(fields, n) is None,
    ensures
        chain_calls(fields, m) is None,
    decreases m - n,
{
    if n < m {
        lemma_calls_stay_none(fields, n + 1, m);
    }
}

/// Once a chain has no getter, the chains have none together.
pub proof fn lemma_getters_stay_none(chains: Seq<Seq<FieldModel>>, n: nat, m: nat)
    requires
        n <= m,
        getter_texts(chains, n) is None,
    ensures
        getter_texts(chains, m) is None,
    decreases m - n,
{
    if n < m {
        lemma_getters_stay_none(chains, n + 1, m);
    }
}

/// The paths into the struct of the given name and into the structs
/// nested in it, and beside each path the getter of the field it leads
/// to. `None` where there is no struct of that name, where structs hold
/// one another in a circle, and where a field on the way to a path has no
/// shape.
pub fn generate_getters(target: &str, structs: &Vec<Struct>) -> (res: Option<
    (Vec<String>, Vec<String>),
>)
    requires
        typed(structs_view(structs@)),
    ensures
        match chains_of(structs_view(structs@), target@) {
            Some(chains) => match getter_texts(chains, chains.len()) {
                Some(getters) => res matches Some(found) && names_view(found.0@) == path_texts(
                    chains,
                ) && names_view(found.1@) == getters,
                None => res is None,
            },
            None => res is None,
        },
{
    let chains = match field_chains(target, structs) {
        Some(chains) => chains,
        None => {
            return None;
        },
    };
    let ghost all = chains_view(chains@);
    let mut paths: Vec<String> = Vec::new();
    let mut getters: Vec<String> = Vec::new();
    let mut i: usize = 0;
    while i < chains.len()
        invariant
            i <= chains@.len(),
            all == chains_view(chains@),
            chains_of(structs_view(structs@), target@) == Some(all),
            names_view(paths@) == path_texts(all).take(i as int),
            getter_texts(all, i as nat) matches Some(texts) && names_view(getters@) == texts,
        decreases chains@.len() - i,
    {
        let ghost paths_before = paths@;
        let ghost getters_before = getters@;
        assert(all[i as int] == fields_view(chains@[i as int]@));
        if !is_shaped(chains[i].as_slice()) {
            proof {
                lemma_unshaped_has_no_getter(all[i as int]);
                assert(getter_texts(all, (i + 1) as nat) is None);
                lemma_getters_stay_none(all, (i + 1) as nat, chains@.len());
            }
            return None;
        }
        let getter = fields_to_getter(chains[i].as_slice());
        let path = fields_to_path(chains[i].as_slice());
        paths.push(path);
        getters.push(getter);
        proof {
            assert(names_view(paths@) =~= names_view(paths_before).push(path@));
            assert(names_view(paths@) =~= path_texts(all).take(i + 1));
            assert(names_view(getters@) =~= names_view(getters_before).push(getter@));
        }
        i += 1;
    }
    proof {
        assert(path_texts(all).take(chains@.len() as int) =~= path_texts(all));
    }
    Some((paths, getters))
}

} // verus!
