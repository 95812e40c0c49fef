//! The chains of fields that lead into a struct and the structs nested in
//! it, and the path of each.

use vstd::prelude::*;
use crate::paths::{fields_to_path, fields_view, names_view, path_text, Field, FieldModel};
use crate::structs::{find_struct, position, structs_view, typed, Struct, StructModel};

verus! {

/// The struct that a field holds, if its type ends in the name of one.
pub open spec fn held_struct(structs: Seq<StructModel>, field: FieldModel) -> Option<int> {
    position(structs, field.types.last())
}

/// The chains of fields that lead to those of the first `k` fields of a
/// struct that hold no struct, in the order of the fields. `prefix` leads
/// to the struct.
pub open spec fn leaf_chains(
    structs: Seq<StructModel>,
    at: int,
    prefix: Seq<FieldModel>,
    k: nat,
) -> Seq<Seq<FieldModel>>
    decreases k,
{
    if k == 0 {
        Seq::empty()
    } else {
        let field = structs[at].fields[k - 1];
        let before = leaf_chains(structs, at, prefix, (k - 1) as nat);
        if held_struct(structs, field) is None {
            before.push(prefix.push(field))
        } else {
            before
        }
    }
}

/// The chains of fields into a struct: first those to its fields that
/// hold no struct, in their order, then those into the structs that its
/// other fields hold, the last such field first. `None` where structs are
/// nested more than `depth` deep.
pub open spec fn chains_below(
    structs: Seq<StructModel>,
    at: int,
    prefix: Seq<FieldModel>,
    depth: nat,
) -> Option<Seq<Seq<FieldModel>>>
    decreases depth, 0nat, 0nat,
{
    if depth == 0 {
        None
    } else {
        match nested_chains(
            structs,
            at,
            prefix,
            (depth - 1) as nat,
            structs[at].fields.len(),
        ) {
            Some(below) => Some(
                leaf_chains(structs, at, prefix, structs[at].fields.len()) + below,
            ),
            None => None,
        }
    }
}

/// The chains of fields into the structs that the first `k` fields of a
/// struct hold, the last such field first.
pub open spec fn nested_chains(
    structs: Seq<StructModel>,
    at: int,
    prefix: Seq<FieldModel>,
    depth: nat,
    k: nat,
) -> Option<Seq<Seq<FieldModel>>>
    decreases depth, 1nat, k,
{
    if k == 0 {
        Some(Seq::empty())
    } else {
        let field = structs[at].fields[k - 1];
        let before = nested_chains(structs, at, prefix, depth, (k - 1) as nat);
        match held_struct(structs, field) {
            None => before,
            Some(child) => match chains_below(structs, child, prefix.push(field), depth) {
                None => None,
                Some(chains) => match before {
                    None => None,
                    Some(rest) => Some(chains + rest),
                },
            },
        }
    }
}

/// The chains of fields into the struct of the given name: every chain
/// that ends in a field that holds no struct. `None` where structs hold
/// one another in a circle: a chain of more structs than there are goes
/// round in one.
pub open spec fn chains_of(structs: Seq<StructModel>, target: Seq<char>) -> Option<
    Seq<Seq<FieldModel>>,
> {
    match position(structs, target) {
        Some(at) => chains_below(structs, at, Seq::empty(), structs.len()),
        None => None,
    }
}

/// Chains, and then more of them if there are any.
pub open spec fn followed_by(
    chains: Seq<Seq<FieldModel>>,
    more: Option<Seq<Seq<FieldModel>>>,
) -> Option<Seq<Seq<FieldModel>>> {
    match more {
        Some(rest) => Some(chains + rest),
        None => None,
    }
}

/// The fields behind the references of each chain.
pub open spec fn chains_view(chains: Seq<Vec<&Field>>) -> Seq<Seq<FieldModel>> {
    Seq::new(chains.len(), |i: int| fields_view(chains[i]@))
}

/// The path of each chain.
pub open spec fn path_texts(chains: Seq<Seq<FieldModel>>) -> Seq<Seq<char>> {
    Seq::new(chains.len(), |i: int| path_text(chains[i]))
}

/// The chain that a field makes at the end of a prefix.
fn extended<'a>(prefix: &Vec<&'a Field>, field: &'a Field) -> (res: Vec<&'a Field>)
    ensures
        res@ == prefix@.push(field),
{
    let mut res: Vec<&'a Field> = Vec::with_capacity(prefix.len());
    let mut i: usize = 0;
    while i < prefix.len()
        invariant
            i <= prefix@.len(),
            res@ == prefix@.take(i as int),
        decreases prefix@.len() - i,
    {
        res.push(prefix[i]);
        proof {
            assert(res@ =~= prefix@.take(i + 1));
        }
        i += 1;
    }
    res.push(field);
    proof {
        assert(prefix@.take(prefix@.len() as int) =~= prefix@);
    }
    res
}

/// Adds to `out` the chains into the struct at `at`, which `prefix` leads
/// to. Says whether there was depth enough for them all.
fn collect_chains<'a>(
    structs: &'a Vec<Struct>,
    at: usize,
    prefix: &mut Vec<&'a Field>,
    depth: usize,
    out: &mut Vec<Vec<&'a Field>>,
) -> (ok: bool)
    requires
        at < structs@.len(),
        typed(structs_view(structs@)),
    ensures
        final(prefix)@ == old(prefix)@,
        match chains_below(
            structs_view(structs@),
            at as int,
            fields_view(old(prefix)@),
            depth as nat,
        ) {
            Some(chains) => ok && chains_view(final(out)@) == chains_view(old(out)@) + chains,
            None => !ok,
        },
    decreases depth,
{
    if depth == 0 {
        return false;
    }
    let ghost all = structs_view(structs@);
    let ghost start = fields_view(prefix@);
    let ghost base = chains_view(out@);
    let fields = &structs[at].fields;
    let count = fields.len();
    assert(all[at as int].fields.len() == count);
    let mut k: usize = 0;
    while k < count
        invariant
            k <= count,
            at < structs@.len(),
            all == structs_view(structs@),
            typed(all),
            fields == &structs@[at as int].fields,
            count == fields@.len(),
            prefix@ == old(prefix)@,
            start == fields_view(prefix@),
            chains_view(out@) == base + leaf_chains(all, at as int, start, k as nat),
        decreases count - k,
    {
        let field = &fields[k];
        assert(all[at as int].fields[k as int] == field@);
        assert(field@.types.len() > 0);
        assert(field@.types.last() == field.types@[field.types@.len() - 1]@);
        let last = field.types[field.types.len() - 1].as_str();
        let ghost before = out@;
        if find_struct(structs, last).is_none() {
            let chain = extended(prefix, field);
            proof {
                assert(fields_view(chain@) =~= start.push(field@));
            }
            out.push(chain);
            proof {
                assert(chains_view(out@) =~= chains_view(before).push(start.push(field@)));
            }
        }
        k += 1;
    }
    let ghost leaves = leaf_chains(all, at as int, start, count as nat);
    let ghost below = (depth - 1) as nat;
    let ghost done = Seq::<Seq<FieldModel>>::empty();
    let mut k: usize = count;
    proof {
        assert(base + leaves + done =~= base + leaves);
        assert(followed_by(done, nested_chains(all, at as int, start, below, count as nat))
            =~= nested_chains(all, at as int, start, below, count as nat)) by {
            if let Some(rest) = nested_chains(all, at as int, start, below, count as nat) {
                assert(done + rest =~= rest);
            }
        }
    }
    while k > 0
        invariant
            k <= count,
            depth > 0,
            below == (depth - 1) as nat,
            at < structs@.len(),
            all == structs_view(structs@),
            typed(all),
            fields == &structs@[at as int].fields,
            count == fields@.len(),
            prefix@ == old(prefix)@,
            start == fields_view(prefix@),
            chains_view(out@) == base + leaves + done,
            nested_chains(all, at as int, start, below, count as nat) == followed_by(
                done,
                nested_chains(all, at as int, start, below, k as nat),
            ),
        decreases k,
    {
        k -= 1;
        let field = &fields[k];
        assert(all[at as int].fields[k as int] == field@);
        assert(field@.types.len() > 0);
        assert(field@.types.last() == field.types@[field.types@.len() - 1]@);
        let last = field.types[field.types.len() - 1].as_str();
        match find_struct(structs, last) {
            None => {},
            Some(child) => {
                prefix.push(field);
                proof {
                    assert(fields_view(prefix@) =~= start.push(field@));
                }
                let ok = collect_chains(structs, child, prefix, depth - 1, out);
                prefix.pop();
                proof {
                    assert(prefix@ =~= old(prefix)@);
                }
                if !ok {
                    return false;
                }
                proof {
                    let chains = chains_below(all, child as int, start.push(field@), below)->0;
                    let rest = nested_chains(all, at as int, start, below, k as nat);
                    assert(chains_view(out@) =~= base + leaves + (done + chains));
                    if let Some(r) = rest {
                        assert(done + (chains + r) =~= (done + chains) + r);
                    }
                    done = done + chains;
                }
            },
        }
    }
    proof {
        assert(done + Seq::<Seq<FieldModel>>::empty() =~= done);
        assert(base + leaves + done =~= base + (leaves + done));
    }
    true
}

/// The chains of fields into the struct of the given name and into the
/// structs nested in it. `None` where there is no struct of that name, and
/// where structs hold one another in a circle, so that the chains have no
/// end.
pub fn field_chains<'a>(target: &str, structs: &'a Vec<Struct>) -> (res: Option<
    Vec<Vec<&'a Field>>,
>)
    requires
        typed(structs_view(structs@)),
    ensures
        match chains_of(structs_view(structs@), target@) {
            Some(chains) => res matches Some(found) && chains_view(found@) == chains,
            None => res is None,
        },
{
    let at = match find_struct(structs, target) {
        Some(at) => at,
        None => {
            return None;
        },
    };
    let mut prefix: Vec<&Field> = Vec::new();
    let mut out: Vec<Vec<&Field>> = Vec::new();
    proof {
        assert(fields_view(prefix@) =~= Seq::empty());
        assert(chains_view(out@) =~= Seq::empty());
    }
    let ok = collect_chains(structs, at, &mut prefix, structs.len(), &mut out);
    if ok {
        proof {
            let chains = chains_of(structs_view(structs@), target@)->0;
            assert(Seq::<Seq<FieldModel>>::empty() + chains =~= chains);
        }
        Some(out)
    } else {
        None
    }
}

/// The paths into the struct of the given name and into the structs
/// nested in it, one for each chain of fields.
pub fn generate_paths(target: &str, structs: &Vec<Struct>) -> (res: Option<Vec<String>>)
    requires
        typed(structs_view(structs@)),
    ensures
        match chains_of(structs_view(structs@), target@) {
            Some(chains) => res matches Some(found) && names_view(found@) == path_texts(chains),
            None => res is None,
        },
{
    let chains = match field_chains(target, structs) {
        Some(chains) => chains,
        None => {
            return None;
        },
    };
    let mut paths: Vec<String> = Vec::new();
    let mut i: usize = 0;
    while i < chains.len()
        invariant
            i <= chains@.len(),
            names_view(paths@) == path_texts(chains_view(chains@)).take(i as int),
        decreases chains@.len() - i,
    {
        let ghost before = paths@;
        let path = fields_to_path(chains[i].as_slice());
        paths.push(path);
        proof {
            assert(names_view(paths@) =~= names_view(before).push(path@));
            assert(names_view(paths@) =~= path_texts(chains_view(chains@)).take(i + 1));
        }
        i += 1;
    }
    proof {
        let all = path_texts(chains_view(chains@));
        assert(all.take(chains@.len() as int) =~= all);
    }
    Some(paths)
}

} // verus!
