//! Traits of the type system: their methods, constants, bounds and impls.
use vstd::prelude::*;
use vstd::std_specs::cmp::PartialEqSpec;

use rustc_hash::FxHashMap;

use crate::display::constraint_text;
use crate::fx::{fx_map_get, has_str_key};
use crate::hir_types::{
    bindings_are_closed, lemma_same_type_reflexive, lemma_substitution_keeps_unbound_variables,
    lemma_substitution_removes_bound_variables, lemma_substitution_without_bindings, mentions,
    named_generic_of,
    same_named_types, same_type, same_types, substituted, CrateId, DefinitionId, FileId, FuncId, Generics,
    Ident, ItemVisibility, LocalModuleId, Location, NodeInterner, NoirFunction, ResolvedGeneric,
    Span, TraitGenerics, TraitId, Type, TypeBindings, TypeVariable,
};

verus! {

/// A method declared by a trait.
#[derive(Clone, Debug, PartialEq, Eq)]
pub struct TraitFunction {
    pub name: Ident,
    pub typ: Type,
    pub location: Location,
    pub default_impl: Option<Box<NoirFunction>>,
    pub default_impl_module_id: LocalModuleId,
    pub trait_constraints: Vec<TraitConstraint>,
    pub direct_generics: Generics,
}

/// A constant declared by a trait.
#[derive(Clone, Debug, PartialEq, Eq)]
pub struct TraitConstant {
    pub name: Ident,
    pub typ: Type,
    pub span: Span,
}

/// An associated type given by name, such as `Item = u32`.
#[derive(Debug, Eq, Hash, PartialOrd, Ord)]
pub struct NamedType {
    pub name: Ident,
    pub typ: Type,
}

impl PartialEq for NamedType {
    fn eq(&self, other: &Self) -> (r: bool) {
        self.name == other.name && self.typ == other.typ
    }
}

impl vstd::std_specs::cmp::PartialEqSpecImpl for NamedType {
    open spec fn obeys_eq_spec() -> bool {
        true
    }

    open spec fn eq_spec(&self, other: &Self) -> bool {
        self.name.contents@ == other.name.contents@ && same_type(self.typ, other.typ)
    }
}

impl Clone for NamedType {
    fn clone(&self) -> (r: Self)
        ensures
            r.name == self.name,
            same_type(self.typ, r.typ),
    {
        NamedType { name: self.name.clone(), typ: self.typ.clone() }
    }
}

/// A trait of the type system. Each instance is shared by all the types that
/// refer to the same trait.
#[derive(Debug, Eq)]
pub struct Trait {
    /// A unique id of this trait; two traits are equal when their ids are.
    pub id: TraitId,
    pub crate_id: CrateId,
    pub methods: Vec<TraitFunction>,
    /// Maps each method's name to the method's id. It is kept apart from
    /// `methods` because method ids are created during collection, before
    /// the full methods can be built.
    pub method_ids: FxHashMap<String, FuncId>,
    pub associated_types: Generics,
    pub associated_type_bounds: FxHashMap<String, Vec<ResolvedTraitBound>>,
    pub name: Ident,
    pub generics: Generics,
    pub location: Location,
    pub visibility: ItemVisibility,
    /// What `Self` resolves to in the trait's items. When an impl is checked
    /// against the trait, this variable is bound to the impl's `Self` type.
    pub self_type_typevar: TypeVariable,
    /// The traits this one is bounded by: `Bar + Baz` in `trait Foo: Bar + Baz`.
    pub trait_bounds: Vec<ResolvedTraitBound>,
    pub where_clause: Vec<TraitConstraint>,
    pub all_generics: Generics,
    /// Maps each associated constant's name to its definition.
    pub associated_constant_ids: FxHashMap<String, DefinitionId>,
}

/// An impl of a trait for a type.
#[derive(Debug)]
pub struct TraitImpl {
    pub ident: Ident,
    pub location: Location,
    pub typ: Type,
    pub trait_id: TraitId,
    /// The ordered generics of the implemented trait: `A, B` in
    /// `impl Foo<A, B, C = D> for Bar`. Named ones are kept elsewhere.
    pub trait_generics: Vec<Type>,
    pub file: FileId,
    pub crate_id: CrateId,
    /// `methods[i]` implements the trait's `methods[i]` for `typ`.
    pub methods: Vec<FuncId>,
    /// What must hold for the impl to be selected: `T: Eq` in
    /// `impl Eq for [T] where T: Eq`; empty without a where clause.
    pub where_clause: Vec<TraitConstraint>,
}

/// A constraint that a type implements a trait: `typ: trait_bound`.
#[derive(Debug, Clone, PartialEq, Eq)]
pub struct TraitConstraint {
    pub typ: Type,
    pub trait_bound: ResolvedTraitBound,
}

/// A trait applied to generics, as it stands in a bound.
#[derive(Debug, Clone, Eq)]
pub struct ResolvedTraitBound {
    pub trait_id: TraitId,
    pub trait_generics: TraitGenerics,
    pub location: Location,
}

/// Whether `new` is the bound `old` with the bindings applied to each of its
/// generics, its trait and location kept.
pub open spec fn bound_substituted(
    old: ResolvedTraitBound,
    new: ResolvedTraitBound,
    bindings: Map<u32, Type>,
) -> bool {
    let old_generics = old.trait_generics;
    let new_generics = new.trait_generics;
    &&& new.trait_id == old.trait_id
    &&& new.location == old.location
    &&& new_generics.ordered.len() == old_generics.ordered.len()
    &&& forall|i: int|
        0 <= i < old_generics.ordered.len() ==> substituted(
            #[trigger] old_generics.ordered[i],
            new_generics.ordered[i],
            bindings,
        )
    &&& new_generics.named.len() == old_generics.named.len()
    &&& forall|i: int|
        0 <= i < old_generics.named.len() ==> {
            &&& new_generics.named[i].name == (#[trigger] old_generics.named[i]).name
            &&& substituted(old_generics.named[i].typ, new_generics.named[i].typ, bindings)
        }
}

impl TraitConstraint {
    /// The constraint as messages show it: `typ: Trait<generics>`.
    pub fn to_string(&self, interner: &NodeInterner) -> (r: String)
        requires
            interner.trait_names().contains_key(self.trait_bound.trait_id.0),
        ensures
            r@ == constraint_text(
                self.typ,
                interner.trait_names()[self.trait_bound.trait_id.0]@,
                self.trait_bound.trait_generics.ordered@,
                self.trait_bound.trait_generics.named@,
            ),
    {
        interner.trait_constraint_string(
            &self.typ,
            self.trait_bound.trait_id,
            self.trait_bound.trait_generics.ordered.as_slice(),
            self.trait_bound.trait_generics.named.as_slice(),
        )
    }

    /// Applies the bindings to the constrained type and to the bound's generics.
    pub fn apply_bindings(&mut self, type_bindings: &TypeBindings)
        ensures
            substituted(old(self).typ, final(self).typ, type_bindings@),
            bound_substituted(old(self).trait_bound, final(self).trait_bound, type_bindings@),
    {
        self.typ = self.typ.substitute(type_bindings);
        self.trait_bound.apply_bindings(type_bindings);
    }
}

impl ResolvedTraitBound {
    /// Applies the bindings to each of the bound's generics, ordered and named.
    pub fn apply_bindings(&mut self, type_bindings: &TypeBindings)
        ensures
            bound_substituted(*old(self), *final(self), type_bindings@),
    {
        let mut ordered: Vec<Type> = Vec::new();
        let mut i: usize = 0;
        while i < self.trait_generics.ordered.len()
            invariant
                i <= self.trait_generics.ordered.len(),
                ordered.len() == i,
                forall|j: int|
                    0 <= j < i ==> substituted(
                        #[trigger] self.trait_generics.ordered[j],
                        ordered[j],
                        type_bindings@,
                    ),
            decreases self.trait_generics.ordered.len() - i,
        {
            ordered.push(self.trait_generics.ordered[i].substitute(type_bindings));
            i = i + 1;
        }
        let mut named: Vec<NamedType> = Vec::new();
        let mut i: usize = 0;
        while i < self.trait_generics.named.len()
            invariant
                i <= self.trait_generics.named.len(),
                named.len() == i,
                forall|j: int|
                    0 <= j < i ==> {
                        &&& named[j].name == (#[trigger] self.trait_generics.named[j]).name
                        &&& substituted(
                            self.trait_generics.named[j].typ,
                            named[j].typ,
                            type_bindings@,
                        )
                    },
            decreases self.trait_generics.named.len() - i,
        {
            let old_named = &self.trait_generics.named[i];
            named.push(
                NamedType {
                    name: old_named.name.clone(),
                    typ: old_named.typ.substitute(type_bindings),
                },
            );
            i = i + 1;
        }
        self.trait_generics = TraitGenerics { ordered, named };
    }
}

impl PartialEq for ResolvedTraitBound {
    /// The location does not take part in equality.
    fn eq(&self, other: &Self) -> (r: bool) {
        self.trait_id == other.trait_id && self.trait_generics == other.trait_generics
    }
}

impl vstd::std_specs::cmp::PartialEqSpecImpl for ResolvedTraitBound {
    open spec fn obeys_eq_spec() -> bool {
        true
    }

    open spec fn eq_spec(&self, other: &Self) -> bool {
        &&& self.trait_id == other.trait_id
        &&& same_types(self.trait_generics.ordered@, other.trait_generics.ordered@)
        &&& same_named_types(self.trait_generics.named@, other.trait_generics.named@)
    }
}

impl std::hash::Hash for Trait {
    fn hash<H: std::hash::Hasher>(&self, state: &mut H) {
        self.id.0.hash(state);
    }
}

impl Trait {
    /// The trait as it is displayed: its name.
    pub fn to_display_string(&self) -> (r: String)
        ensures
            r@ == self.name.contents@,
    {
        self.name.contents.clone()
    }
}

impl PartialEq for Trait {
    fn eq(&self, other: &Self) -> (r: bool) {
        self.id == other.id
    }
}

impl vstd::std_specs::cmp::PartialEqSpecImpl for Trait {
    open spec fn obeys_eq_spec() -> bool {
        true
    }

    open spec fn eq_spec(&self, other: &Self) -> bool {
        self.id == other.id
    }
}

/// The types that name the generics `generics`, in order.
pub open spec fn named_generics_of(generics: Seq<ResolvedGeneric>) -> Seq<Type> {
    generics.map_values(|g: ResolvedGeneric| named_generic_of(g))
}

/// The named type that a trait's associated type `g` stands for, named at `location`.
pub open spec fn associated_type_of(g: ResolvedGeneric, location: Location) -> NamedType {
    NamedType {
        name: Ident { contents: g.name, location },
        typ: named_generic_of(g),
    }
}

/// The types that name each of `generics`, in order.
fn named_generics(generics: &Generics) -> (r: Vec<Type>)
    ensures
        r@ == named_generics_of(generics@),
{
    let mut r: Vec<Type> = Vec::new();
    let mut i: usize = 0;
    while i < generics.len()
        invariant
            i <= generics@.len(),
            r@ == named_generics_of(generics@.take(i as int)),
        decreases generics@.len() - i,
    {
        r.push(generics[i].as_named_generic());
        i = i + 1;
        assert(r@ =~= named_generics_of(generics@.take(i as int)));
    }
    assert(generics@.take(generics@.len() as int) =~= generics@);
    r
}

impl Trait {
    /// Whether the trait declares a method with this name.
    pub open spec fn has_method_named(self, name: Seq<char>) -> bool {
        exists|i: int|
            0 <= i < self.methods.len() && (#[trigger] self.methods[i]).name.contents@ == name
    }

    /// Whether `definition` is the definition of the method that `method_ids`
    /// maps `name` to.
    pub open spec fn is_method_definition(
        self,
        name: Seq<char>,
        interner: NodeInterner,
        definition: DefinitionId,
    ) -> bool {
        exists|k: String|
            #[trigger] self.method_ids@.contains_key(k) && k@ == name
                && interner.function_definitions().contains_key(self.method_ids@[k].0)
                && interner.function_definitions()[self.method_ids@[k].0] == definition
    }

    /// What looking a method up by name needs: where a method has that name,
    /// `method_ids` has an entry for it, and the interner knows that method.
    pub open spec fn method_lookup_resolves(self, name: Seq<char>, interner: NodeInterner) -> bool {
        self.has_method_named(name) ==> {
            &&& has_str_key(self.method_ids@, name)
            &&& forall|k: String|
                #[trigger] self.method_ids@.contains_key(k) && k@ == name
                    ==> interner.function_definitions().contains_key(self.method_ids@[k].0)
        }
    }

    /// The generics that the trait applies to itself: its ordered generics and
    /// its associated types, each as a named generic, the latter named at `location`.
    pub open spec fn own_trait_generics(self, location: Location, generics: TraitGenerics) -> bool {
        &&& generics.ordered@ == named_generics_of(self.generics@)
        &&& generics.named@ == self.associated_types@.map_values(
            |g: ResolvedGeneric| associated_type_of(g, location),
        )
    }

    pub fn set_methods(&mut self, methods: Vec<TraitFunction>)
        ensures
            *final(self) == (Trait { methods, ..*old(self) }),
    {
        self.methods = methods;
    }

    pub fn set_trait_bounds(&mut self, trait_bounds: Vec<ResolvedTraitBound>)
        ensures
            *final(self) == (Trait { trait_bounds, ..*old(self) }),
    {
        self.trait_bounds = trait_bounds;
    }

    pub fn set_where_clause(&mut self, where_clause: Vec<TraitConstraint>)
        ensures
            *final(self) == (Trait { where_clause, ..*old(self) }),
    {
        self.where_clause = where_clause;
    }

    pub fn set_visibility(&mut self, visibility: ItemVisibility)
        ensures
            *final(self) == (Trait { visibility, ..*old(self) }),
    {
        self.visibility = visibility;
    }

    pub fn set_all_generics(&mut self, generics: Generics)
        ensures
            *final(self) == (Trait { all_generics: generics, ..*old(self) }),
    {
        self.all_generics = generics;
    }

    pub fn set_associated_type_bounds(
        &mut self,
        associated_type_bounds: FxHashMap<String, Vec<ResolvedTraitBound>>,
    )
        ensures
            *final(self) == (Trait { associated_type_bounds, ..*old(self) }),
    {
        self.associated_type_bounds = associated_type_bounds;
    }

    /// The definition of the method with this name, if the trait declares one.
    pub fn find_method(&self, name: &str, interner: &NodeInterner) -> (r: Option<DefinitionId>)
        requires
            self.method_lookup_resolves(name@, *interner),
        ensures
            r is Some <==> self.has_method_named(name@),
            r matches Some(definition) ==> self.is_method_definition(name@, *interner, definition),
    {
        let wanted = name.to_owned();
        let mut i: usize = 0;
        while i < self.methods.len()
            invariant
                i <= self.methods.len(),
                wanted@ == name@,
                self.method_lookup_resolves(name@, *interner),
                forall|j: int| 0 <= j < i ==> (#[trigger] self.methods[j]).name.contents@ != name@,
            decreases self.methods.len() - i,
        {
            if self.methods[i].name.contents == wanted {
                assert(self.has_method_named(name@)) by {
                    assert(self.methods[i as int].name.contents@ == name@);
                }
                let id = *fx_map_get(&self.method_ids, name).unwrap();
                let ghost key = choose|k: String|
                    #[trigger] self.method_ids@.contains_key(k) && k@ == name@
                        && self.method_ids@[k] == id;
                let definition = interner.function_definition_id(id);
                assert(self.is_method_definition(name@, *interner, definition)) by {
                    assert(self.method_ids@.contains_key(key) && key@ == name@);
                }
                return Some(definition);
            }
            i = i + 1;
        }
        None
    }

    /// The definition of the method with this name, or else of the associated
    /// constant with this name, if there is one.
    pub fn find_method_or_constant(&self, name: &str, interner: &NodeInterner) -> (r: Option<
        DefinitionId,
    >)
        requires
            self.method_lookup_resolves(name@, *interner),
        ensures
            self.has_method_named(name@) ==> (r matches Some(definition)
                && self.is_method_definition(name@, *interner, definition)),
            !self.has_method_named(name@) ==> (r is Some <==> has_str_key(
                self.associated_constant_ids@,
                name@,
            )),
            !self.has_method_named(name@) ==> (r matches Some(definition) ==> exists|k: String|
                #[trigger] self.associated_constant_ids@.contains_key(k) && k@ == name@
                    && self.associated_constant_ids@[k] == definition),
    {
        if let Some(method) = self.find_method(name, interner) {
            return Some(method);
        }
        match fx_map_get(&self.associated_constant_ids, name) {
            Some(definition) => Some(*definition),
            None => None,
        }
    }

    /// The first associated type with this name, if any.
    pub fn get_associated_type(&self, last_name: &str) -> (r: Option<&ResolvedGeneric>)
        ensures
            r is None <==> forall|i: int|
                0 <= i < self.associated_types.len() ==> (
                #[trigger] self.associated_types[i]).name@ != last_name@,
            r matches Some(g) ==> exists|i: int|
                0 <= i < self.associated_types.len() && *g == self.associated_types[i]
                    && g.name@ == last_name@ && forall|j: int|
                    0 <= j < i ==> (#[trigger] self.associated_types[j]).name@ != last_name@,
    {
        let wanted = last_name.to_owned();
        let mut i: usize = 0;
        while i < self.associated_types.len()
            invariant
                i <= self.associated_types.len(),
                wanted@ == last_name@,
                forall|j: int|
                    0 <= j < i ==> (#[trigger] self.associated_types[j]).name@ != last_name@,
            decreases self.associated_types.len() - i,
        {
            if self.associated_types[i].name == wanted {
                return Some(&self.associated_types[i]);
            }
            i = i + 1;
        }
        None
    }

    /// The trait's ordered generics and its associated types, each as the
    /// named generic it declares, not instantiated.
    pub fn get_generics(&self) -> (r: (Vec<Type>, Vec<Type>))
        ensures
            r.0@ == named_generics_of(self.generics@),
            r.1@ == named_generics_of(self.associated_types@),
    {
        let ordered = named_generics(&self.generics);
        let named = named_generics(&self.associated_types);
        (ordered, named)
    }

    /// The generics that the trait applies to itself, with its associated
    /// types named at `location`.
    pub fn get_trait_generics(&self, location: Location) -> (r: TraitGenerics)
        ensures
            self.own_trait_generics(location, r),
    {
        let ordered = named_generics(&self.generics);
        let mut named: Vec<NamedType> = Vec::new();
        let mut i: usize = 0;
        while i < self.associated_types.len()
            invariant
                i <= self.associated_types@.len(),
                named@ == self.associated_types@.take(i as int).map_values(
                    |g: ResolvedGeneric| associated_type_of(g, location),
                ),
            decreases self.associated_types@.len() - i,
        {
            let generic = &self.associated_types[i];
            let name = Ident::new(generic.name.clone(), location);
            named.push(NamedType { name, typ: generic.as_named_generic() });
            i = i + 1;
            assert(named@ =~= self.associated_types@.take(i as int).map_values(
                |g: ResolvedGeneric| associated_type_of(g, location),
            ));
        }
        assert(self.associated_types@.take(self.associated_types@.len() as int)
            =~= self.associated_types@);
        TraitGenerics { ordered, named }
    }

    /// The constraint `Self: ThisTrait<..>`, with the trait's own generics
    /// left uninstantiated.
    pub fn as_constraint(&self, location: Location) -> (r: TraitConstraint)
        ensures
            r.typ == Type::TypeVariable(self.self_type_typevar),
            r.trait_bound.trait_id == self.id,
            r.trait_bound.location == location,
            self.own_trait_generics(location, r.trait_bound.trait_generics),
    {
        let trait_generics = self.get_trait_generics(location);
        TraitConstraint {
            typ: Type::TypeVariable(self.self_type_typevar),
            trait_bound: ResolvedTraitBound { trait_generics, trait_id: self.id, location },
        }
    }
}

impl TraitFunction {
    /// Whether the method's type is a function type, possibly under a `Forall`.
    pub open spec fn has_function_type(self) -> bool {
        match self.typ {
            Type::Function(..) => true,
            Type::Forall(_, inner) => *inner is Function,
            _ => false,
        }
    }

    /// The method's argument types.
    pub fn arguments(&self) -> (r: &[Type])
        requires
            self.has_function_type(),
        ensures
            self.typ matches Type::Function(args, _, _, _) ==> r@ == args@,
            self.typ matches Type::Forall(_, inner) ==> (*inner matches Type::Function(args, _, _, _)
                && r@ == args@),
    {
        match &self.typ {
            Type::Function(args, _, _, _) => args.as_slice(),
            Type::Forall(_, typ) => match &**typ {
                Type::Function(args, _, _, _) => args.as_slice(),
                _ => {
                    proof {
                        assert(false);
                    }
                    &[]
                },
            },
            _ => {
                proof {
                    assert(false);
                }
                &[]
            },
        }
    }

    /// The method's own generics: none for a plain function type.
    pub fn generics(&self) -> (r: &[TypeVariable])
        requires
            self.typ is Function || self.typ is Forall,
        ensures
            self.typ is Function ==> r@.len() == 0,
            self.typ matches Type::Forall(generics, _) ==> r@ == generics@,
    {
        match &self.typ {
            Type::Function(..) => &[],
            Type::Forall(generics, _) => generics.as_slice(),
            _ => {
                proof {
                    assert(false);
                }
                &[]
            },
        }
    }

    /// The method's return type.
    pub fn return_type(&self) -> (r: &Type)
        requires
            self.has_function_type(),
        ensures
            self.typ matches Type::Function(_, ret, _, _) ==> *r == *ret,
            self.typ matches Type::Forall(_, inner) ==> (*inner matches Type::Function(_, ret, _, _)
                && *r == *ret),
    {
        match &self.typ {
            Type::Function(_, return_type, _, _) => &**return_type,
            Type::Forall(_, typ) => match &**typ {
                Type::Function(_, return_type, _, _) => &**return_type,
                _ => {
                    proof {
                        assert(false);
                    }
                    &self.typ
                },
            },
            _ => {
                proof {
                    assert(false);
                }
                &self.typ
            },
        }
    }
}

/// Where a bound stands does not take part in its equality: a bound equals
/// the same bound at any other location.
pub proof fn lemma_bound_equality_ignores_location(bound: ResolvedTraitBound, location: Location)
    ensures
        bound.eq_spec(&(ResolvedTraitBound { location, ..bound })),
{
    let generics = bound.trait_generics;
    assert forall|i: int| 0 <= i < generics.ordered.len() implies same_type(
        #[trigger] generics.ordered[i],
        generics.ordered[i],
    ) by {
        lemma_same_type_reflexive(generics.ordered[i]);
    }
    assert forall|i: int| 0 <= i < generics.named.len() implies same_type(
        (#[trigger] generics.named[i]).typ,
        generics.named[i].typ,
    ) by {
        lemma_same_type_reflexive(generics.named[i].typ);
    }
}

/// Applying no bindings to a bound gives back a bound equal to it, at the
/// same location.
pub proof fn lemma_bound_without_bindings(old: ResolvedTraitBound, new: ResolvedTraitBound)
    requires
        bound_substituted(old, new, Map::<u32, Type>::empty()),
    ensures
        old.eq_spec(&new),
        new.location == old.location,
{
    let old_generics = old.trait_generics;
    let new_generics = new.trait_generics;
    assert forall|i: int| 0 <= i < old_generics.ordered.len() implies same_type(
        #[trigger] old_generics.ordered[i],
        new_generics.ordered[i],
    ) by {
        lemma_substitution_without_bindings(old_generics.ordered[i], new_generics.ordered[i]);
    }
    assert forall|i: int| 0 <= i < old_generics.named.len() implies same_type(
        (#[trigger] old_generics.named[i]).typ,
        new_generics.named[i].typ,
    ) by {
        lemma_substitution_without_bindings(old_generics.named[i].typ, new_generics.named[i].typ);
    }
}

/// The generics a trait applies to itself at a location are determined by
/// the trait and the location, so the bound of `as_constraint` carries
/// exactly what `get_trait_generics` returns.
pub proof fn lemma_own_trait_generics_determined(
    tr: Trait,
    location: Location,
    first: TraitGenerics,
    second: TraitGenerics,
)
    requires
        tr.own_trait_generics(location, first),
        tr.own_trait_generics(location, second),
    ensures
        first.ordered@ == second.ordered@,
        first.named@ == second.named@,
{
}

/// Applying bindings to a bound keeps the number of its generics, removes
/// every bound variable from each of them, ordered and named, the last one
/// included, and keeps every variable that is not bound.
pub proof fn lemma_bound_substitution_variables(
    old: ResolvedTraitBound,
    new: ResolvedTraitBound,
    bindings: Map<u32, Type>,
    id: u32,
)
    requires
        bound_substituted(old, new, bindings),
    ensures
        new.trait_generics.ordered.len() == old.trait_generics.ordered.len(),
        new.trait_generics.named.len() == old.trait_generics.named.len(),
        bindings_are_closed(bindings) && bindings.contains_key(id) ==> {
            &&& forall|i: int|
                0 <= i < new.trait_generics.ordered.len() ==> !mentions(
                    #[trigger] new.trait_generics.ordered[i],
                    id,
                )
            &&& forall|i: int|
                0 <= i < new.trait_generics.named.len() ==> !mentions(
                    (#[trigger] new.trait_generics.named[i]).typ,
                    id,
                )
        },
        !bindings.contains_key(id) ==> {
            &&& forall|i: int|
                0 <= i < old.trait_generics.ordered.len() && mentions(
                    #[trigger] old.trait_generics.ordered[i],
                    id,
                ) ==> mentions(new.trait_generics.ordered[i], id)
            &&& forall|i: int|
                0 <= i < old.trait_generics.named.len() && mentions(
                    (#[trigger] old.trait_generics.named[i]).typ,
                    id,
                ) ==> mentions(new.trait_generics.named[i].typ, id)
        },
{
    let o = old.trait_generics;
    let n = new.trait_generics;
    if bindings_are_closed(bindings) && bindings.contains_key(id) {
        assert forall|i: int| 0 <= i < n.ordered.len() implies !mentions(
            #[trigger] n.ordered[i],
            id,
        ) by {
            lemma_substitution_removes_bound_variables(o.ordered[i], n.ordered[i], bindings, id);
        }
        assert forall|i: int| 0 <= i < n.named.len() implies !mentions(
            (#[trigger] n.named[i]).typ,
            id,
        ) by {
            assert(substituted(o.named[i].typ, n.named[i].typ, bindings));
            lemma_substitution_removes_bound_variables(o.named[i].typ, n.named[i].typ, bindings, id);
        }
    }
    if !bindings.contains_key(id) {
        assert forall|i: int|
            0 <= i < o.ordered.len() && mentions(#[trigger] o.ordered[i], id) implies mentions(
            n.ordered[i],
            id,
        ) by {
            lemma_substitution_keeps_unbound_variables(o.ordered[i], n.ordered[i], bindings, id);
        }
        assert forall|i: int|
            0 <= i < o.named.len() && mentions((#[trigger] o.named[i]).typ, id) implies mentions(
            n.named[i].typ,
            id,
        ) by {
            lemma_substitution_keeps_unbound_variables(o.named[i].typ, n.named[i].typ, bindings, id);
        }
    }
}

/// Two equal bounds are bounds of the same trait whose ordered generics are
/// pairwise the same types and whose named generics pair the same names with
/// the same types; only where they stand may differ.
pub proof fn lemma_equal_bounds_agree(a: ResolvedTraitBound, b: ResolvedTraitBound)
    requires
        a.eq_spec(&b),
    ensures
        a.trait_id == b.trait_id,
        a.trait_generics.ordered.len() == b.trait_generics.ordered.len(),
        forall|i: int|
            0 <= i < a.trait_generics.ordered.len() ==> same_type(
                #[trigger] a.trait_generics.ordered[i],
                b.trait_generics.ordered[i],
            ),
        a.trait_generics.named.len() == b.trait_generics.named.len(),
        forall|i: int|
            0 <= i < a.trait_generics.named.len() ==> (#[trigger] a.trait_generics.named[i]).name.contents@
                == b.trait_generics.named[i].name.contents@ && same_type(
                a.trait_generics.named[i].typ,
                b.trait_generics.named[i].typ,
            ),
{
}

/// Bounds of the same trait are equal exactly when their generics are: the
/// equality of bounds is that of `TraitGenerics` plus the trait.
pub proof fn lemma_bound_equality_is_generics_equality(a: ResolvedTraitBound, b: ResolvedTraitBound)
    ensures
        a.eq_spec(&b) <==> (a.trait_id == b.trait_id && a.trait_generics.eq_spec(
            &b.trait_generics,
        )),
{
}

/// Equal trait generics have pairwise the same ordered types, and named
/// generics that pair the same names with the same types.
pub proof fn lemma_equal_trait_generics_agree(a: TraitGenerics, b: TraitGenerics)
    requires
        a.eq_spec(&b),
    ensures
        a.ordered.len() == b.ordered.len(),
        forall|i: int| 0 <= i < a.ordered.len() ==> same_type(#[trigger] a.ordered[i], b.ordered[i]),
        a.named.len() == b.named.len(),
        forall|i: int|
            0 <= i < a.named.len() ==> (#[trigger] a.named[i]).name.contents@
                == b.named[i].name.contents@ && same_type(a.named[i].typ, b.named[i].typ),
{
}

} // verus!
