use pandas_maxminddb::type_names::{
    extract_types_deque, try_extract_types_deque, Argument, Arguments, Segment, TypeExpr, UnsupportedType,
};

fn segment(ident: &str, arguments: Arguments) -> Segment {
    Segment { ident: ident.to_string(), arguments }
}

/// `name`
fn plain(name: &str) -> TypeExpr {
    TypeExpr::Path(vec![segment(name, Arguments::Nothing)])
}

/// `name<args>`
fn generic(name: &str, args: Vec<Argument>) -> TypeExpr {
    TypeExpr::Path(vec![segment(name, Arguments::AngleBracketed(args))])
}

/// `name<types>`
fn of(name: &str, types: Vec<TypeExpr>) -> TypeExpr {
    generic(name, types.into_iter().map(Argument::Type).collect())
}

/// `&T`
fn reference(to: TypeExpr) -> TypeExpr {
    TypeExpr::Reference(Box::new(to))
}

fn names(t: &TypeExpr) -> Vec<String> {
    let names = extract_types_deque(t);
    assert_eq!(try_extract_types_deque(t), Ok(names.clone()));
    names
}

fn fault(t: &TypeExpr) -> Option<UnsupportedType> {
    try_extract_types_deque(t).err()
}

#[test]
fn a_plain_type_is_its_name() {
    assert_eq!(names(&plain("u8")), vec!["u8"]);
}

#[test]
fn an_option_of_a_struct_with_a_lifetime() {
    // Option<City2<'a>>
    let t = of("Option", vec![generic("City2", vec![Argument::Lifetime])]);
    assert_eq!(names(&t), vec!["Option", "City2"]);
}

#[test]
fn an_option_of_a_list() {
    // Option<Vec<Subdivision<'a>>>
    let t = of("Option", vec![of("Vec", vec![generic("Subdivision", vec![Argument::Lifetime])])]);
    assert_eq!(names(&t), vec!["Option", "Vec", "Subdivision"]);
}

#[test]
fn an_option_of_a_map_of_texts() {
    // Option<BTreeMap<&'a str, &'a str>>
    let t = of("Option", vec![of("BTreeMap", vec![reference(plain("str")), reference(plain("str"))])]);
    assert_eq!(names(&t), vec!["Option", "BTreeMap", "str", "str"]);
}

#[test]
fn an_option_of_a_text() {
    // Option<&'a str>
    assert_eq!(names(&of("Option", vec![reference(plain("str"))])), vec!["Option", "str"]);
}

#[test]
fn references_are_seen_through() {
    assert_eq!(names(&reference(reference(plain("T")))), vec!["T"]);
}

#[test]
fn names_come_level_by_level() {
    // Map<&str, Vec<u8>>
    let t = of("Map", vec![reference(plain("str")), of("Vec", vec![plain("u8")])]);
    assert_eq!(names(&t), vec!["Map", "Vec", "str", "u8"]);
    // A<B<D, E>, C<F>>
    let t = of("A", vec![of("B", vec![plain("D"), plain("E")]), of("C", vec![plain("F")])]);
    assert_eq!(names(&t), vec!["A", "B", "C", "D", "E", "F"]);
}

#[test]
fn every_segment_of_a_path_counts() {
    // std::collections::BTreeMap<K, V>
    let t = TypeExpr::Path(vec![
        segment("std", Arguments::Nothing),
        segment("collections", Arguments::Nothing),
        segment(
            "BTreeMap",
            Arguments::AngleBracketed(vec![Argument::Type(plain("K")), Argument::Type(plain("V"))]),
        ),
    ]);
    assert_eq!(names(&t), vec!["std", "collections", "BTreeMap", "K", "V"]);
    // a::B<X>::C<Y>
    let t = TypeExpr::Path(vec![
        segment("a", Arguments::Nothing),
        segment("B", Arguments::AngleBracketed(vec![Argument::Type(plain("X"))])),
        segment("C", Arguments::AngleBracketed(vec![Argument::Type(plain("Y"))])),
    ]);
    assert_eq!(names(&t), vec!["a", "B", "C", "X", "Y"]);
}

#[test]
fn empty_brackets_and_an_empty_path() {
    assert_eq!(names(&generic("A", vec![])), vec!["A"]);
    assert_eq!(names(&generic("A", vec![Argument::Lifetime, Argument::Lifetime])), vec!["A"]);
    assert!(names(&TypeExpr::Path(vec![])).is_empty());
}

#[test]
fn anything_but_a_path_or_a_reference_is_refused() {
    assert_eq!(fault(&TypeExpr::Other), Some(UnsupportedType::Type));
    assert_eq!(fault(&reference(TypeExpr::Other)), Some(UnsupportedType::Type));
    assert_eq!(fault(&of("Option", vec![plain("u8"), TypeExpr::Other])), Some(UnsupportedType::Type));
}

#[test]
fn round_brackets_are_refused() {
    let t = TypeExpr::Path(vec![segment("Fn", Arguments::Parenthesized)]);
    assert_eq!(fault(&t), Some(UnsupportedType::Arguments));
    assert_eq!(fault(&of("Box", vec![t])), Some(UnsupportedType::Arguments));
}

#[test]
fn an_argument_that_is_no_type_is_refused() {
    let t = generic("Array", vec![Argument::Type(plain("u8")), Argument::Other]);
    assert_eq!(fault(&t), Some(UnsupportedType::Argument));
}

#[test]
fn the_first_fault_met_is_the_one_reported() {
    // the argument is met while its segment is read, the type only when its turn comes
    let t = generic("Pair", vec![Argument::Type(TypeExpr::Other), Argument::Other]);
    assert_eq!(fault(&t), Some(UnsupportedType::Argument));
    // the second segment is read before the type handed to the first
    let t = TypeExpr::Path(vec![
        segment("A", Arguments::AngleBracketed(vec![Argument::Type(TypeExpr::Other)])),
        segment("B", Arguments::Parenthesized),
    ]);
    assert_eq!(fault(&t), Some(UnsupportedType::Arguments));
    // on one level, from left to right
    let t = of("A", vec![TypeExpr::Other, TypeExpr::Path(vec![segment("F", Arguments::Parenthesized)])]);
    assert_eq!(fault(&t), Some(UnsupportedType::Type));
    let t = of("A", vec![TypeExpr::Path(vec![segment("F", Arguments::Parenthesized)]), TypeExpr::Other]);
    assert_eq!(fault(&t), Some(UnsupportedType::Arguments));
    // a level is done before the next
    let t = of("A", vec![of("B", vec![TypeExpr::Other]), generic("C", vec![Argument::Other])]);
    assert_eq!(fault(&t), Some(UnsupportedType::Argument));
}

#[test]
fn every_fault_says_what_it_is() {
    assert_eq!(UnsupportedType::Argument.message(), "only types as arguments are supported");
    assert_eq!(UnsupportedType::Arguments.message(), "only angle-bracketed type segments are supported");
    assert_eq!(UnsupportedType::Type.message(), "only type paths are supported");
}
