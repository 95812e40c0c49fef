//! The names that make up a type, from the outside in.

use std::collections::VecDeque;
use vstd::prelude::*;
use crate::paths::names_view;

verus! {

/// A type as it is written: a path, a reference to a type, or anything
/// else.
#[derive(Debug)]
pub enum TypeExpr {
    /// A path such as `std::vec::Vec<T>`, by its segments.
    Path(Vec<Segment>),
    /// `&T` or `&mut T`, with or without a lifetime.
    Reference(Box<TypeExpr>),
    /// A tuple, an array, a function pointer or whatever else.
    Other,
}

/// One segment of a path: a name, and what is handed to it.
#[derive(Debug)]
pub struct Segment {
    pub ident: String,
    pub arguments: Arguments,
}

/// What is handed to a segment of a path.
#[derive(Debug)]
pub enum Arguments {
    /// Nothing, as in `u8`.
    Nothing,
    /// Arguments between angle brackets, as in `Vec<T>`.
    AngleBracketed(Vec<Argument>),
    /// Arguments between round brackets, as in `Fn(A) -> B`.
    Parenthesized,
}

/// One argument between angle brackets.
#[derive(Debug)]
pub enum Argument {
    Type(TypeExpr),
    Lifetime,
    /// A constant, a binding or a constraint.
    Other,
}

/// Why a type has no names.
#[derive(Debug, PartialEq, Eq, Structural, Clone, Copy)]
pub enum UnsupportedType {
    /// An argument is neither a type nor a lifetime.
    Argument,
    /// A segment has its arguments between round brackets.
    Arguments,
    /// A type is neither a path nor a reference.
    Type,
}

/// The types among the first `m` arguments, in their order. Lifetimes are
/// passed over.
pub open spec fn argument_types(args: Seq<Argument>, m: nat) -> Result<
    Seq<TypeExpr>,
    UnsupportedType,
>
    decreases m,
{
    if m == 0 {
        Ok(Seq::empty())
    } else {
        match argument_types(args, (m - 1) as nat) {
            Err(e) => Err(e),
            Ok(before) => match args[m - 1] {
                Argument::Type(t) => Ok(before.push(t)),
                Argument::Lifetime => Ok(before),
                Argument::Other => Err(UnsupportedType::Argument),
            },
        }
    }
}

/// The types that are handed to a segment.
pub open spec fn segment_types(segment: Segment) -> Result<Seq<TypeExpr>, UnsupportedType> {
    match segment.arguments {
        Arguments::Nothing => Ok(Seq::empty()),
        Arguments::AngleBracketed(args) => argument_types(args@, args@.len()),
        Arguments::Parenthesized => Err(UnsupportedType::Arguments),
    }
}

/// The names of the first `n` segments of a path, and the types that are
/// handed to them, both in the order of the segments.
pub open spec fn segments_step(segments: Seq<Segment>, n: nat) -> Result<
    (Seq<Seq<char>>, Seq<TypeExpr>),
    UnsupportedType,
>
    decreases n,
{
    if n == 0 {
        Ok((Seq::empty(), Seq::empty()))
    } else {
        match segments_step(segments, (n - 1) as nat) {
            Err(e) => Err(e),
            Ok((names, types)) => match segment_types(segments[n - 1]) {
                Err(e) => Err(e),
                Ok(more) => Ok((names.push(segments[n - 1].ident@), types + more)),
            },
        }
    }
}

/// The names that a type has of its own, and the types in it that have
/// names of theirs.
pub open spec fn type_step(t: TypeExpr) -> Result<(Seq<Seq<char>>, Seq<TypeExpr>), UnsupportedType> {
    match t {
        TypeExpr::Path(segments) => segments_step(segments@, segments@.len()),
        TypeExpr::Reference(elem) => Ok((Seq::empty(), seq![*elem])),
        TypeExpr::Other => Err(UnsupportedType::Type),
    }
}

/// How much there is to a type: one for itself and as much as there is to
/// the types in it.
pub open spec fn weight(t: TypeExpr) -> nat
    decreases t, 0nat,
{
    match t {
        TypeExpr::Path(segments) => 1 + segments_weight(segments@, segments@.len()),
        TypeExpr::Reference(elem) => 1 + weight(*elem),
        TypeExpr::Other => 1,
    }
}

/// How much there is to the types handed to the first `n` segments.
pub open spec fn segments_weight(segments: Seq<Segment>, n: nat) -> nat
    decreases segments, n,
{
    if n == 0 || n > segments.len() {
        0
    } else {
        segments_weight(segments, (n - 1) as nat) + match segments[n - 1].arguments {
            Arguments::AngleBracketed(args) => arguments_weight(args@, args@.len()),
            _ => 0,
        }
    }
}

/// How much there is to the types among the first `m` arguments.
pub open spec fn arguments_weight(args: Seq<Argument>, m: nat) -> nat
    decreases args, m,
{
    if m == 0 || m > args.len() {
        0
    } else {
        arguments_weight(args, (m - 1) as nat) + match args[m - 1] {
            Argument::Type(t) => weight(t),
            _ => 0,
        }
    }
}

/// How much there is to a row of types.
pub open spec fn total_weight(types: Seq<TypeExpr>) -> nat
    decreases types.len(),
{
    if types.len() == 0 {
        0
    } else {
        total_weight(types.drop_last()) + weight(types.last())
    }
}

/// Names, and then more of them unless there is an error instead.
pub open spec fn then_names(
    names: Seq<Seq<char>>,
    more: Result<Seq<Seq<char>>, UnsupportedType>,
) -> Result<Seq<Seq<char>>, UnsupportedType> {
    match more {
        Ok(rest) => Ok(names + rest),
        Err(e) => Err(e),
    }
}

/// A row of one type weighs what the type weighs.
pub proof fn lemma_weight_of_one(t: TypeExpr)
    ensures
        total_weight(seq![t]) == weight(t),
{
    let row = seq![t];
    assert(row.drop_last() =~= Seq::<TypeExpr>::empty());
    assert(total_weight(Seq::<TypeExpr>::empty()) == 0);
    assert(row.last() == t);
}

/// The weight of two rows of types, one after the other.
pub proof fn lemma_weight_of_both(first: Seq<TypeExpr>, second: Seq<TypeExpr>)
    ensures
        total_weight(first + second) == total_weight(first) + total_weight(second),
    decreases second.len(),
{
    if second.len() == 0 {
        assert(first + second =~= first);
    } else {
        assert((first + second).drop_last() =~= first + second.drop_last());
        lemma_weight_of_both(first, second.drop_last());
    }
}

/// The types among arguments weigh what the arguments weigh.
pub proof fn lemma_argument_types_weight(args: Seq<Argument>, m: nat)
    requires
        m <= args.len(),
    ensures
        argument_types(args, m) matches Ok(types) ==> total_weight(types) == arguments_weight(
            args,
            m,
        ),
    decreases m,
{
    if m > 0 {
        lemma_argument_types_weight(args, (m - 1) as nat);
        if let Ok(before) = argument_types(args, (m - 1) as nat) {
            if let Argument::Type(t) = args[m - 1] {
                assert(before.push(t).drop_last() =~= before);
            }
        }
    }
}

/// The types handed to segments weigh what the segments weigh.
pub proof fn lemma_segment_types_weight(segments: Seq<Segment>, n: nat)
    requires
        n <= segments.len(),
    ensures
        segments_step(segments, n) matches Ok((_, types)) ==> total_weight(types)
            == segments_weight(segments, n),
    decreases n,
{
    if n > 0 {
        lemma_segment_types_weight(segments, (n - 1) as nat);
        if let Ok((names, types)) = segments_step(segments, (n - 1) as nat) {
            if let Ok(more) = segment_types(segments[n - 1]) {
                lemma_weight_of_both(types, more);
                match segments[n - 1].arguments {
                    Arguments::AngleBracketed(args) => {
                        lemma_argument_types_weight(args@, args@.len());
                    },
                    _ => {
                        assert(total_weight(more) == 0);
                    },
                }
            }
        }
    }
}

/// The types in a type weigh less than the type.
pub proof fn lemma_step_weighs_less(t: TypeExpr)
    ensures
        type_step(t) matches Ok((_, types)) ==> total_weight(types) < weight(t),
{
    match t {
        TypeExpr::Path(segments) => {
            lemma_segment_types_weight(segments@, segments@.len());
        },
        TypeExpr::Reference(elem) => {
            lemma_weight_of_one(*elem);
        },
        TypeExpr::Other => {},
    }
}

/// A row of types with its first one replaced by the types in it weighs
/// less.
pub proof fn lemma_queue_weighs_less(queue: Seq<TypeExpr>)
    requires
        queue.len() > 0,
    ensures
        type_step(queue[0]) matches Ok((_, types)) ==> total_weight(queue.drop_first() + types)
            < total_weight(queue),
{
    if let Ok((_, types)) = type_step(queue[0]) {
        lemma_step_weighs_less(queue[0]);
        lemma_weight_of_both(queue.drop_first(), types);
        let head = seq![queue[0]];
        lemma_weight_of_one(queue[0]);
        assert(head + queue.drop_first() =~= queue);
        lemma_weight_of_both(head, queue.drop_first());
    }
}

/// The names of the types in a queue, in the order in which the queue
/// yields them: the names of the first type, then those of the rest of the
/// queue with the types in the first type behind them.
pub open spec fn flattened(queue: Seq<TypeExpr>) -> Result<Seq<Seq<char>>, UnsupportedType>
    decreases total_weight(queue),
{
    if queue.len() == 0 {
        Ok(Seq::empty())
    } else {
        match type_step(queue[0]) {
            Err(e) => Err(e),
            Ok((names, types)) => {
                proof {
                    lemma_queue_weighs_less(queue);
                }
                then_names(names, flattened(queue.drop_first() + types))
            },
        }
    }
}

/// The names that make up a type, from the outside in and, on one level,
/// from left to right: `Option<Vec<Item>>` gives `Option`, `Vec`, `Item`,
/// and `Map<&str, Vec<u8>>` gives `Map`, `Vec`, `str`, `u8`.
pub open spec fn type_names(t: TypeExpr) -> Result<Seq<Seq<char>>, UnsupportedType> {
    flattened(seq![t])
}

/// The types behind the references.
pub open spec fn types_of(queue: Seq<&TypeExpr>) -> Seq<TypeExpr> {
    Seq::new(queue.len(), |i: int| *queue[i])
}

/// Once an argument is unsupported, so are the arguments.
pub proof fn lemma_argument_error_stays(args: Seq<Argument>, m: nat, k: nat)
    requires
        m <= k,
        argument_types(args, m) is Err,
    ensures
        argument_types(args, k) == argument_types(args, m),
    decreases k - m,
{
    if m < k {
        lemma_argument_error_stays(args, m, (k - 1) as nat);
    }
}

/// Once a segment is unsupported, so is the path.
pub proof fn lemma_segment_error_stays(segments: Seq<Segment>, n: nat, k: nat)
    requires
        n <= k,
        segments_step(segments, n) is Err,
    ensures
        segments_step(segments, k) == segments_step(segments, n),
    decreases k - n,
{
    if n < k {
        lemma_segment_error_stays(segments, n, (k - 1) as nat);
    }
}

/// Works out the names that make up a type, if it has them. A type that is
/// neither a path nor a reference has none, and neither has one that holds
/// such a type, arguments between round brackets, or an argument that is
/// neither a type nor a lifetime: the error says which was met first.
#[verifier::loop_isolation(false)]
pub fn try_extract_types_deque(start_type: &TypeExpr) -> (res: Result<
    Vec<String>,
    UnsupportedType,
>)
    ensures
        match type_names(*start_type) {
            Ok(names) => res matches Ok(found) && names_view(found@) == names,
            Err(e) => res == Err::<Vec<String>, UnsupportedType>(e),
        },
{
    let mut res: Vec<String> = Vec::new();
    let mut queue: VecDeque<&TypeExpr> = VecDeque::new();
    queue.push_front(start_type);
    proof {
        assert(types_of(queue@) =~= seq![*start_type]);
        assert(names_view(res@) =~= Seq::empty());
        if let Ok(names) = flattened(seq![*start_type]) {
            assert(Seq::<Seq<char>>::empty() + names =~= names);
        }
    }
    while queue.len() > 0
        invariant
            type_names(*start_type) == then_names(names_view(res@), flattened(types_of(queue@))),
        decreases total_weight(types_of(queue@)),
    {
        let ghost waiting = types_of(queue@);
        let ghost found = names_view(res@);
        let ty = queue.pop_front().unwrap();
        let ghost rest = types_of(queue@);
        proof {
            assert(waiting[0] == *ty);
            assert(rest =~= waiting.drop_first());
            lemma_queue_weighs_less(waiting);
        }
        match ty {
            TypeExpr::Path(segments) => {
                let mut n: usize = 0;
                proof {
                    assert(found + Seq::<Seq<char>>::empty() =~= found);
                    assert(rest + Seq::<TypeExpr>::empty() =~= rest);
                }
                while n < segments.len()
                    invariant
                        n <= segments@.len(),
                        segments_step(segments@, n as nat) matches Ok((names, types))
                            && names_view(res@) == found + names && types_of(queue@) == rest
                            + types,
                    decreases segments@.len() - n,
                {
                    let segment = &segments[n];
                    let ghost names = segments_step(segments@, n as nat)->Ok_0.0;
                    let ghost types = segments_step(segments@, n as nat)->Ok_0.1;
                    let ghost listed = res@;
                    let name = segment.ident.clone();
                    res.push(name);
                    proof {
                        assert(names_view(res@) =~= names_view(listed).push(segment.ident@));
                        assert(names_view(res@) =~= found + names.push(segment.ident@));
                    }
                    match &segment.arguments {
                        Arguments::Nothing => {
                            proof {
                                assert(types + Seq::<TypeExpr>::empty() =~= types);
                            }
                        },
                        Arguments::Parenthesized => {
                            proof {
                                lemma_segment_error_stays(
                                    segments@,
                                    (n + 1) as nat,
                                    segments@.len(),
                                );
                            }
                            return Err(UnsupportedType::Arguments);
                        },
                        Arguments::AngleBracketed(args) => {
                            let mut m: usize = 0;
                            proof {
                                assert(rest + types + Seq::<TypeExpr>::empty() =~= rest + types);
                            }
                            while m < args.len()
                                invariant
                                    m <= args@.len(),
                                    argument_types(args@, m as nat) matches Ok(more) && types_of(
                                        queue@,
                                    ) == rest + types + more,
                                decreases args@.len() - m,
                            {
                                let ghost more = argument_types(args@, m as nat)->Ok_0;
                                match &args[m] {
                                    Argument::Type(t) => {
                                        let ghost held = queue@;
                                        queue.push_back(t);
                                        proof {
                                            assert(types_of(queue@) =~= types_of(held).push(*t));
                                            assert(types_of(queue@) =~= rest + types + more.push(
                                                *t,
                                            ));
                                        }
                                    },
                                    Argument::Lifetime => {},
                                    Argument::Other => {
                                        proof {
                                            lemma_argument_error_stays(
                                                args@,
                                                (m + 1) as nat,
                                                args@.len(),
                                            );
                                            lemma_segment_error_stays(
                                                segments@,
                                                (n + 1) as nat,
                                                segments@.len(),
                                            );
                                        }
                                        return Err(UnsupportedType::Argument);
                                    },
                                }
                                m += 1;
                            }
                            proof {
                                let more = argument_types(args@, args@.len())->Ok_0;
                                assert(rest + types + more =~= rest + (types + more));
                            }
                        },
                    }
                    n += 1;
                }
            },
            TypeExpr::Reference(elem) => {
                queue.push_back(&**elem);
                proof {
                    assert(types_of(queue@) =~= rest + seq![**elem]);
                    assert(found + Seq::<Seq<char>>::empty() =~= found);
                }
            },
            TypeExpr::Other => {
                return Err(UnsupportedType::Type);
            },
        }
        proof {
            let names = type_step(*ty)->Ok_0.0;
            let types = type_step(*ty)->Ok_0.1;
            if let Ok(later) = flattened(rest + types) {
                assert(found + (names + later) =~= (found + names) + later);
            }
        }
    }
    proof {
        assert(names_view(res@) + Seq::<Seq<char>>::empty() =~= names_view(res@));
    }
    Ok(res)
}

/// The names that make up a type that has them: one that is made of
/// nothing but paths, references, lifetimes and arguments between angle
/// brackets. `try_extract_types_deque` tells whether a type is such a one.
pub fn extract_types_deque(start_type: &TypeExpr) -> (res: Vec<String>)
    requires
        type_names(*start_type) is Ok,
    ensures
        type_names(*start_type) == Ok::<Seq<Seq<char>>, UnsupportedType>(names_view(res@)),
{
    match try_extract_types_deque(start_type) {
        Ok(names) => names,
        Err(_) => Vec::new(),
    }
}

impl UnsupportedType {
    /// What is wrong with the type.
    pub fn message(self) -> (res: &'static str)
        ensures
            res@ == match self {
                UnsupportedType::Argument => "only types as arguments are supported"@,
                UnsupportedType::Arguments => "only angle-bracketed type segments are supported"@,
                UnsupportedType::Type => "only type paths are supported"@,
            },
    {
        match self {
            UnsupportedType::Argument => "only types as arguments are supported",
            UnsupportedType::Arguments => "only angle-bracketed type segments are supported",
            UnsupportedType::Type => "only type paths are supported",
        }
    }
}

} // verus!
