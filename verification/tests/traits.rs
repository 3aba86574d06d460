use std::collections::hash_map::DefaultHasher;
use std::collections::HashMap;
use std::hash::{Hash, Hasher};

use noirc_blocks::hir_types::{
    CrateId, DefinitionId, FileId, FuncId, Ident, ItemVisibility, LocalModuleId, Location,
    NamedGeneric, NodeInterner, ResolvedGeneric, Signedness, Span, TraitGenerics, TraitId, Type,
    TypeVariable,
};
use noirc_blocks::traits::{
    NamedType, ResolvedTraitBound, Trait, TraitConstraint, TraitFunction,
};
use rustc_hash::FxHashMap;

fn loc(start: u32) -> Location {
    Location { span: Span { start, end: start + 1 }, file: FileId(0) }
}

fn ident(name: &str) -> Ident {
    Ident::new(name.to_string(), loc(0))
}

fn generic(name: &str, id: u32) -> ResolvedGeneric {
    ResolvedGeneric { name: name.to_string(), type_var: TypeVariable { id }, location: loc(id) }
}

fn named(name: &str, id: u32) -> Type {
    Type::NamedGeneric(NamedGeneric {
        type_var: TypeVariable { id },
        name: name.to_string(),
        implicit: false,
    })
}

fn method(name: &str, typ: Type) -> TraitFunction {
    TraitFunction {
        name: ident(name),
        typ,
        location: loc(1),
        default_impl: None,
        default_impl_module_id: LocalModuleId(0),
        trait_constraints: vec![],
        direct_generics: vec![],
    }
}

fn u8_type() -> Type {
    Type::Integer(Signedness::Unsigned, 8)
}

fn fn_type(args: Vec<Type>, ret: Type) -> Type {
    Type::Function(args, Box::new(ret), Box::new(Type::Unit), false)
}

fn sample_trait() -> Trait {
    let mut method_ids = FxHashMap::default();
    method_ids.insert("foo".to_string(), FuncId(10));
    method_ids.insert("bar".to_string(), FuncId(11));
    let mut associated_constant_ids = FxHashMap::default();
    associated_constant_ids.insert("LIMIT".to_string(), DefinitionId(77));
    associated_constant_ids.insert("foo".to_string(), DefinitionId(78));
    Trait {
        id: TraitId(3),
        crate_id: CrateId(0),
        methods: vec![
            method("foo", fn_type(vec![u8_type()], Type::Bool)),
            method("bar", fn_type(vec![], Type::Unit)),
        ],
        method_ids,
        associated_types: vec![generic("Item", 20), generic("Output", 21)],
        associated_type_bounds: FxHashMap::default(),
        name: ident("Container"),
        generics: vec![generic("T", 1), generic("U", 2)],
        location: loc(0),
        visibility: ItemVisibility::Public,
        self_type_typevar: TypeVariable { id: 99 },
        trait_bounds: vec![],
        where_clause: vec![],
        all_generics: vec![],
        associated_constant_ids,
    }
}

fn sample_interner() -> NodeInterner {
    let mut interner = NodeInterner::new();
    interner.push_function_definition(FuncId(10), DefinitionId(100));
    interner.push_function_definition(FuncId(11), DefinitionId(101));
    interner
}

#[test]
fn find_method_gives_definition_of_named_method() {
    let t = sample_trait();
    let interner = sample_interner();
    assert_eq!(t.find_method("foo", &interner), Some(DefinitionId(100)));
    assert_eq!(t.find_method("bar", &interner), Some(DefinitionId(101)));
    assert_eq!(t.find_method("baz", &interner), None);
    assert_eq!(t.find_method("LIMIT", &interner), None);
}

#[test]
fn find_method_or_constant_prefers_methods() {
    let t = sample_trait();
    let interner = sample_interner();
    // `foo` is both a method and a constant name: the method wins.
    assert_eq!(t.find_method_or_constant("foo", &interner), Some(DefinitionId(100)));
    assert_eq!(t.find_method_or_constant("LIMIT", &interner), Some(DefinitionId(77)));
    assert_eq!(t.find_method_or_constant("missing", &interner), None);
}

#[test]
fn get_associated_type_finds_by_name() {
    let t = sample_trait();
    assert_eq!(t.get_associated_type("Output"), Some(&generic("Output", 21)));
    assert_eq!(t.get_associated_type("Item"), Some(&generic("Item", 20)));
    assert_eq!(t.get_associated_type("T"), None);
}

#[test]
fn get_associated_type_returns_first_match() {
    let mut t = sample_trait();
    t.associated_types = vec![generic("Item", 20), generic("Item", 30)];
    assert_eq!(t.get_associated_type("Item").map(|g| g.type_var.id), Some(20));
}

#[test]
fn get_generics_names_each_generic() {
    let t = sample_trait();
    let (ordered, assoc) = t.get_generics();
    assert_eq!(ordered, vec![named("T", 1), named("U", 2)]);
    assert_eq!(assoc, vec![named("Item", 20), named("Output", 21)]);
}

#[test]
fn get_trait_generics_names_associated_types_at_location() {
    let t = sample_trait();
    let generics = t.get_trait_generics(loc(42));
    assert_eq!(generics.ordered, vec![named("T", 1), named("U", 2)]);
    assert_eq!(generics.named.len(), 2);
    assert_eq!(generics.named[0].name.contents, "Item");
    assert_eq!(generics.named[0].name.location, loc(42));
    assert_eq!(generics.named[0].typ, named("Item", 20));
    assert_eq!(generics.named[1].name.contents, "Output");
    assert_eq!(generics.named[1].typ, named("Output", 21));
}

#[test]
fn as_constraint_is_self_bound_by_the_trait() {
    let t = sample_trait();
    let constraint = t.as_constraint(loc(7));
    assert_eq!(constraint.typ, Type::TypeVariable(TypeVariable { id: 99 }));
    assert_eq!(constraint.trait_bound.trait_id, TraitId(3));
    assert_eq!(constraint.trait_bound.location, loc(7));
    assert_eq!(constraint.trait_bound.trait_generics, t.get_trait_generics(loc(7)));
}

#[test]
fn setters_replace_one_field() {
    let mut t = sample_trait();
    t.set_visibility(ItemVisibility::Private);
    assert_eq!(t.visibility, ItemVisibility::Private);
    t.set_methods(vec![]);
    assert!(t.methods.is_empty());
    t.set_all_generics(vec![generic("Z", 5)]);
    assert_eq!(t.all_generics, vec![generic("Z", 5)]);
    let bound = t.as_constraint(loc(1)).trait_bound;
    t.set_trait_bounds(vec![bound.clone()]);
    assert_eq!(t.trait_bounds, vec![bound.clone()]);
    t.set_where_clause(vec![t.as_constraint(loc(2))]);
    assert_eq!(t.where_clause.len(), 1);
    let mut bounds = FxHashMap::default();
    bounds.insert("Item".to_string(), vec![bound]);
    t.set_associated_type_bounds(bounds);
    assert_eq!(t.associated_type_bounds.len(), 1);
    assert_eq!(t.id, TraitId(3));
    assert_eq!(t.name.contents, "Container");
}

#[test]
fn traits_are_equal_by_id_and_hash_alike() {
    let a = sample_trait();
    let mut b = sample_trait();
    b.name = ident("Other");
    b.methods = vec![];
    assert!(a == b);
    let mut ha = DefaultHasher::new();
    a.hash(&mut ha);
    let mut hb = DefaultHasher::new();
    b.hash(&mut hb);
    assert_eq!(ha.finish(), hb.finish());
    let mut c = sample_trait();
    c.id = TraitId(4);
    assert!(a != c);
}

#[test]
fn trait_displays_as_its_name() {
    assert_eq!(sample_trait().to_display_string(), "Container");
}

#[test]
fn bound_equality_ignores_location() {
    let t = sample_trait();
    let a = t.as_constraint(loc(1)).trait_bound;
    let mut b = a.clone();
    b.location = loc(50);
    assert!(a == b);
    let mut c = a.clone();
    c.trait_generics.ordered[0] = u8_type();
    assert!(a != c);
    let mut d = a.clone();
    d.trait_id = TraitId(8);
    assert!(a != d);
}

#[test]
fn trait_function_parts_of_plain_function() {
    let f = method("foo", fn_type(vec![u8_type(), Type::Bool], Type::FieldElement));
    assert_eq!(f.arguments(), &[u8_type(), Type::Bool][..]);
    assert_eq!(f.return_type(), &Type::FieldElement);
    assert!(f.generics().is_empty());
}

#[test]
fn trait_function_parts_under_forall() {
    let vars = vec![TypeVariable { id: 4 }, TypeVariable { id: 5 }];
    let inner = fn_type(vec![named("A", 4)], named("B", 5));
    let f = method("map", Type::Forall(vars.clone(), Box::new(inner)));
    assert_eq!(f.arguments(), &[named("A", 4)][..]);
    assert_eq!(f.return_type(), &named("B", 5));
    assert_eq!(f.generics(), &vars[..]);
}

#[test]
fn substitute_replaces_bound_variables_at_any_depth() {
    let mut bindings = HashMap::new();
    bindings.insert(1u32, u8_type());
    bindings.insert(4u32, Type::Bool);
    let t = Type::Forall(
        vec![TypeVariable { id: 7 }],
        Box::new(fn_type(
            vec![named("T", 1), Type::TypeVariable(TypeVariable { id: 2 })],
            Type::TypeVariable(TypeVariable { id: 4 }),
        )),
    );
    let expected = Type::Forall(
        vec![TypeVariable { id: 7 }],
        Box::new(fn_type(
            vec![u8_type(), Type::TypeVariable(TypeVariable { id: 2 })],
            Type::Bool,
        )),
    );
    assert_eq!(t.substitute(&bindings), expected);
    assert_eq!(t.substitute(&HashMap::new()), t);
}

#[test]
fn constraint_apply_bindings_substitutes_type_and_generics() {
    let mut bindings = HashMap::new();
    bindings.insert(99u32, Type::FieldElement);
    bindings.insert(20u32, Type::Bool);
    let t = sample_trait();
    let mut constraint: TraitConstraint = t.as_constraint(loc(3));
    constraint.apply_bindings(&bindings);
    assert_eq!(constraint.typ, Type::FieldElement);
    assert_eq!(constraint.trait_bound.trait_generics.ordered, vec![named("T", 1), named("U", 2)]);
    assert_eq!(constraint.trait_bound.trait_generics.named[0].typ, Type::Bool);
    assert_eq!(constraint.trait_bound.trait_generics.named[0].name.contents, "Item");
    assert_eq!(constraint.trait_bound.trait_generics.named[1].typ, named("Output", 21));
    assert_eq!(constraint.trait_bound.location, loc(3));
}

#[test]
fn bound_apply_bindings_without_bindings_keeps_bound() {
    let t = sample_trait();
    let original: ResolvedTraitBound = t.as_constraint(loc(3)).trait_bound;
    let mut bound = original.clone();
    bound.apply_bindings(&HashMap::new());
    assert!(bound == original);
    assert_eq!(bound.location, original.location);
}

#[test]
fn type_equality_and_clone() {
    let t = fn_type(vec![named("T", 1)], Type::Integer(Signedness::Signed, 64));
    assert_eq!(t.clone(), t);
    assert!(t != fn_type(vec![named("T", 2)], Type::Integer(Signedness::Signed, 64)));
    assert!(named("T", 1) != named("U", 1));
    assert!(Type::Unit != Type::Bool);
    let a = NamedType { name: ident("Item"), typ: u8_type() };
    let b = NamedType { name: Ident::new("Item".to_string(), loc(9)), typ: u8_type() };
    assert!(a == b);
    assert_eq!(a.clone(), a);
    let g = TraitGenerics { ordered: vec![u8_type()], named: vec![a] };
    assert_eq!(g.clone(), g);
}

#[test]
fn ident_equality_ignores_location() {
    assert!(Ident::new("x".to_string(), loc(1)) == Ident::new("x".to_string(), loc(2)));
    assert!(Ident::new("x".to_string(), loc(1)) != Ident::new("y".to_string(), loc(1)));
}

#[test]
fn type_display_text() {
    assert_eq!(Type::FieldElement.to_display_string(), "Field");
    assert_eq!(Type::Integer(Signedness::Unsigned, 32).to_display_string(), "u32");
    assert_eq!(Type::Integer(Signedness::Signed, 128).to_display_string(), "i128");
    assert_eq!(Type::Integer(Signedness::Unsigned, 0).to_display_string(), "u0");
    assert_eq!(Type::Unit.to_display_string(), "()");
    assert_eq!(Type::Bool.to_display_string(), "bool");
    assert_eq!(Type::Error.to_display_string(), "error");
    assert_eq!(Type::TypeVariable(TypeVariable { id: 3 }).to_display_string(), "_");
    assert_eq!(named("T", 1).to_display_string(), "T");
    assert_eq!(fn_type(vec![], Type::Unit).to_display_string(), "fn() -> ()");
    assert_eq!(
        fn_type(vec![u8_type(), named("T", 1)], Type::Bool).to_display_string(),
        "fn(u8, T) -> bool"
    );
    let closure = Type::Function(vec![Type::Bool], Box::new(Type::Unit), Box::new(u8_type()), true);
    assert_eq!(closure.to_display_string(), "unconstrained fn[u8](bool) -> ()");
    let generic = Type::Forall(
        vec![TypeVariable { id: 4 }, TypeVariable { id: 15 }],
        Box::new(fn_type(vec![named("A", 4)], named("B", 15))),
    );
    assert_eq!(generic.to_display_string(), "forall 4 15. fn(A) -> B");
}

#[test]
fn named_type_display_text() {
    let n = NamedType { name: ident("Item"), typ: u8_type() };
    assert_eq!(n.to_display_string(), "Item = u8");
}

#[test]
fn constraint_to_string_names_trait_and_generics() {
    let t = sample_trait();
    let mut interner = sample_interner();
    interner.push_trait_name(TraitId(3), "Container".to_string());
    let constraint = t.as_constraint(loc(0));
    assert_eq!(constraint.to_string(&interner), "_: Container<T, U, Item = Item, Output = Output>");

    let mut bindings = HashMap::new();
    bindings.insert(99u32, Type::FieldElement);
    bindings.insert(1u32, u8_type());
    bindings.insert(20u32, Type::Bool);
    let mut applied = constraint.clone();
    applied.apply_bindings(&bindings);
    assert_eq!(applied.to_string(&interner), "Field: Container<u8, U, Item = bool, Output = Output>");

    let plain = TraitConstraint {
        typ: Type::Bool,
        trait_bound: ResolvedTraitBound {
            trait_id: TraitId(3),
            trait_generics: TraitGenerics { ordered: vec![], named: vec![] },
            location: loc(0),
        },
    };
    assert_eq!(plain.to_string(&interner), "bool: Container");

    let only_named = TraitConstraint {
        typ: u8_type(),
        trait_bound: ResolvedTraitBound {
            trait_id: TraitId(3),
            trait_generics: TraitGenerics {
                ordered: vec![],
                named: vec![NamedType { name: ident("Item"), typ: Type::Unit }],
            },
            location: loc(0),
        },
    };
    assert_eq!(only_named.to_string(&interner), "u8: Container<Item = ()>");
}
