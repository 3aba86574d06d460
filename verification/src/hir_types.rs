//! The frontend's names, locations, ids and types that trait definitions are
//! made of, with type equality, cloning and substitution of type variables.
use std::collections::HashMap;
use vstd::prelude::*;

use crate::traits::NamedType;

verus! {

/// Identifies a source file.
#[derive(Clone, Copy, Debug, PartialEq, Eq, Structural, Hash, PartialOrd, Ord)]
pub struct FileId(pub usize);

/// A byte range in a source file.
#[derive(Clone, Copy, Debug, PartialEq, Eq, Structural, Hash, PartialOrd, Ord)]
pub struct Span {
    pub start: u32,
    pub end: u32,
}

/// A span in a given file.
#[derive(Clone, Copy, Debug, PartialEq, Eq, Structural, Hash, PartialOrd, Ord)]
pub struct Location {
    pub span: Span,
    pub file: FileId,
}

/// A name as written in the source, with where it was written. Two
/// identifiers are equal when their text is, wherever they stand.
#[derive(Debug, Eq, PartialOrd, Ord)]
pub struct Ident {
    pub contents: String,
    pub location: Location,
}

impl Ident {
    pub fn new(contents: String, location: Location) -> (ident: Ident)
        ensures
            ident.contents == contents,
            ident.location == location,
    {
        Ident { contents, location }
    }
}

impl Clone for Ident {
    fn clone(&self) -> (r: Self)
        ensures
            r == *self,
    {
        Ident { contents: self.contents.clone(), location: self.location }
    }
}

impl PartialEq for Ident {
    fn eq(&self, other: &Self) -> (r: bool) {
        self.contents == other.contents
    }
}

impl vstd::std_specs::cmp::PartialEqSpecImpl for Ident {
    open spec fn obeys_eq_spec() -> bool {
        true
    }

    open spec fn eq_spec(&self, other: &Self) -> bool {
        self.contents@ == other.contents@
    }
}

/// Feeds a `u32` to a hasher (std's `Hash` for `u32`); what the hasher does
/// with it is not stated.
pub assume_specification<H: std::hash::Hasher>[ <u32 as std::hash::Hash>::hash::<H> ](
    data: &u32,
    state: &mut H,
);

/// Feeds a `String` to a hasher (std's `Hash` for `String`); what the hasher
/// does with it is not stated.
pub assume_specification<H: std::hash::Hasher>[ <String as std::hash::Hash>::hash::<H> ](
    data: &String,
    state: &mut H,
);

impl std::hash::Hash for Ident {
    fn hash<H: std::hash::Hasher>(&self, state: &mut H) {
        self.contents.hash(state);
    }
}

/// Identifies a function.
#[derive(Clone, Copy, Debug, PartialEq, Eq, Structural, Hash, PartialOrd, Ord)]
pub struct FuncId(pub u32);

/// Identifies a definition (a function, a global, a constant).
#[derive(Clone, Copy, Debug, PartialEq, Eq, Structural, Hash, PartialOrd, Ord)]
pub struct DefinitionId(pub u32);

/// Identifies a trait.
#[derive(Clone, Copy, Debug, PartialEq, Eq, Structural, Hash, PartialOrd, Ord)]
pub struct TraitId(pub u32);

/// Identifies a crate of the program.
#[derive(Clone, Copy, Debug, PartialEq, Eq, Structural, Hash, PartialOrd, Ord)]
pub struct CrateId(pub u32);

/// Identifies a module within its crate.
#[derive(Clone, Copy, Debug, PartialEq, Eq, Structural, Hash, PartialOrd, Ord)]
pub struct LocalModuleId(pub u32);

/// Who may name an item.
#[derive(Clone, Copy, Debug, PartialEq, Eq, Structural, Hash, PartialOrd, Ord)]
pub enum ItemVisibility {
    Private,
    PublicCrate,
    Public,
}

/// Identifies a type variable.
pub type TypeVariableId = u32;

/// A type variable, to be bound to a type by unification or substitution.
#[derive(Clone, Copy, Debug, PartialEq, Eq, Structural, Hash, PartialOrd, Ord)]
pub struct TypeVariable {
    pub id: TypeVariableId,
}

/// Whether an integer type is signed.
#[derive(Clone, Copy, Debug, PartialEq, Eq, Structural, Hash, PartialOrd, Ord)]
pub enum Signedness {
    Unsigned,
    Signed,
}

/// A generic named in the source, such as `T` in `trait Foo<T>`.
#[derive(Debug, PartialEq, Eq, Hash, PartialOrd, Ord)]
pub struct NamedGeneric {
    pub type_var: TypeVariable,
    pub name: String,
    pub implicit: bool,
}

/// A type of the frontend.
#[derive(Debug, Eq, Hash, PartialOrd, Ord)]
pub enum Type {
    FieldElement,
    Integer(Signedness, u32),
    Bool,
    Unit,
    TypeVariable(TypeVariable),
    NamedGeneric(NamedGeneric),
    /// Arguments, return type, captured environment, and whether the function is unconstrained.
    Function(Vec<Type>, Box<Type>, Box<Type>, bool),
    /// A type generic over the given type variables.
    Forall(Vec<TypeVariable>, Box<Type>),
    Error,
}

/// Whether two types are the same: equal up to the storage of their parts.
pub open spec fn same_type(a: Type, b: Type) -> bool
    decreases a,
{
    match a {
        Type::Function(a_args, a_ret, a_env, a_unconstrained) => match b {
            Type::Function(b_args, b_ret, b_env, b_unconstrained) => {
                &&& a_unconstrained == b_unconstrained
                &&& a_args.len() == b_args.len()
                &&& forall|i: int|
                    0 <= i < a_args.len() ==> same_type(#[trigger] a_args[i], b_args[i])
                &&& same_type(*a_ret, *b_ret)
                &&& same_type(*a_env, *b_env)
            },
            _ => false,
        },
        Type::Forall(a_vars, a_body) => match b {
            Type::Forall(b_vars, b_body) => a_vars@ == b_vars@ && same_type(*a_body, *b_body),
            _ => false,
        },
        Type::NamedGeneric(x) => match b {
            Type::NamedGeneric(y) => x.type_var == y.type_var && x.name@ == y.name@ && x.implicit
                == y.implicit,
            _ => false,
        },
        _ => a == b,
    }
}

/// Every type is the same as itself.
pub proof fn lemma_same_type_reflexive(t: Type)
    ensures
        same_type(t, t),
    decreases t,
{
    match t {
        Type::Function(args, ret, env, _) => {
            assert forall|i: int| 0 <= i < args.len() implies same_type(
                #[trigger] args[i],
                args[i],
            ) by {
                lemma_same_type_reflexive(args[i]);
            }
            lemma_same_type_reflexive(*ret);
            lemma_same_type_reflexive(*env);
        },
        Type::Forall(_, body) => lemma_same_type_reflexive(*body),
        _ => {},
    }
}

/// Whether two sequences of types are pairwise the same.
pub open spec fn same_types(a: Seq<Type>, b: Seq<Type>) -> bool {
    &&& a.len() == b.len()
    &&& forall|i: int| 0 <= i < a.len() ==> same_type(#[trigger] a[i], b[i])
}

/// A copy of a list of type variables.
fn copy_type_variables(vars: &Vec<TypeVariable>) -> (r: Vec<TypeVariable>)
    ensures
        r@ == vars@,
{
    let mut r: Vec<TypeVariable> = Vec::new();
    let mut i: usize = 0;
    while i < vars.len()
        invariant
            i <= vars@.len(),
            r@ == vars@.take(i as int),
        decreases vars@.len() - i,
    {
        r.push(vars[i]);
        i = i + 1;
        assert(r@ =~= vars@.take(i as int));
    }
    assert(vars@.take(vars@.len() as int) =~= vars@);
    r
}

/// Whether two lists of type variables hold the same variables in the same order.
fn same_type_variables(a: &Vec<TypeVariable>, b: &Vec<TypeVariable>) -> (r: bool)
    ensures
        r == (a@ == b@),
{
    if a.len() != b.len() {
        return false;
    }
    let mut i: usize = 0;
    while i < a.len()
        invariant
            i <= a@.len(),
            a@.len() == b@.len(),
            forall|j: int| 0 <= j < i ==> a@[j] == b@[j],
        decreases a@.len() - i,
    {
        if a[i] != b[i] {
            return false;
        }
        i = i + 1;
    }
    assert(a@ =~= b@);
    true
}

/// Decides whether two types are the same.
#[verifier::loop_isolation(false)]
fn types_equal(a: &Type, b: &Type) -> (r: bool)
    ensures
        r == same_type(*a, *b),
    decreases a,
{
    match a {
        Type::Function(a_args, a_ret, a_env, a_unconstrained) => match b {
            Type::Function(b_args, b_ret, b_env, b_unconstrained) => {
                if *a_unconstrained != *b_unconstrained || a_args.len() != b_args.len() {
                    return false;
                }
                let mut i: usize = 0;
                while i < a_args.len()
                    invariant
                        i <= a_args.len(),
                        a_args.len() == b_args.len(),
                        *a == Type::Function(*a_args, *a_ret, *a_env, *a_unconstrained),
                        *b == Type::Function(*b_args, *b_ret, *b_env, *b_unconstrained),
                        *a_unconstrained == *b_unconstrained,
                        forall|j: int| 0 <= j < i ==> same_type(#[trigger] a_args[j], b_args[j]),
                    decreases a_args.len() - i,
                {
                    if !types_equal(&a_args[i], &b_args[i]) {
                        return false;
                    }
                    i = i + 1;
                }
                types_equal(a_ret, b_ret) && types_equal(a_env, b_env)
            },
            _ => false,
        },
        Type::Forall(a_vars, a_body) => match b {
            Type::Forall(b_vars, b_body) => same_type_variables(a_vars, b_vars) && types_equal(
                a_body,
                b_body,
            ),
            _ => false,
        },
        Type::NamedGeneric(x) => match b {
            Type::NamedGeneric(y) => x.type_var == y.type_var && x.name == y.name && x.implicit
                == y.implicit,
            _ => false,
        },
        Type::FieldElement => match b {
            Type::FieldElement => true,
            _ => false,
        },
        Type::Integer(x_sign, x_bits) => match b {
            Type::Integer(y_sign, y_bits) => *x_sign == *y_sign && *x_bits == *y_bits,
            _ => false,
        },
        Type::Bool => match b {
            Type::Bool => true,
            _ => false,
        },
        Type::Unit => match b {
            Type::Unit => true,
            _ => false,
        },
        Type::TypeVariable(x) => match b {
            Type::TypeVariable(y) => *x == *y,
            _ => false,
        },
        Type::Error => match b {
            Type::Error => true,
            _ => false,
        },
    }
}

impl PartialEq for Type {
    fn eq(&self, other: &Self) -> (r: bool) {
        types_equal(self, other)
    }
}

impl vstd::std_specs::cmp::PartialEqSpecImpl for Type {
    open spec fn obeys_eq_spec() -> bool {
        true
    }

    open spec fn eq_spec(&self, other: &Self) -> bool {
        same_type(*self, *other)
    }
}

/// A copy of a type.
#[verifier::loop_isolation(false)]
fn clone_type(t: &Type) -> (r: Type)
    ensures
        same_type(*t, r),
    decreases t,
{
    match t {
        Type::Function(args, ret, env, unconstrained) => {
            let mut new_args: Vec<Type> = Vec::new();
            let mut i: usize = 0;
            while i < args.len()
                invariant
                    i <= args.len(),
                    new_args.len() == i,
                    *t == Type::Function(*args, *ret, *env, *unconstrained),
                    forall|j: int| 0 <= j < i ==> same_type(#[trigger] args[j], new_args[j]),
                decreases args.len() - i,
            {
                new_args.push(clone_type(&args[i]));
                i = i + 1;
            }
            Type::Function(
                new_args,
                Box::new(clone_type(ret)),
                Box::new(clone_type(env)),
                *unconstrained,
            )
        },
        Type::Forall(vars, body) => Type::Forall(copy_type_variables(vars), Box::new(clone_type(body))),
        Type::NamedGeneric(g) => Type::NamedGeneric(
            NamedGeneric { type_var: g.type_var, name: g.name.clone(), implicit: g.implicit },
        ),
        Type::FieldElement => Type::FieldElement,
        Type::Integer(sign, bits) => Type::Integer(*sign, *bits),
        Type::Bool => Type::Bool,
        Type::Unit => Type::Unit,
        Type::TypeVariable(v) => Type::TypeVariable(*v),
        Type::Error => Type::Error,
    }
}

impl Clone for Type {
    fn clone(&self) -> (r: Self)
        ensures
            same_type(*self, r),
    {
        clone_type(self)
    }
}

/// Bindings of type variables to the types they stand for.
pub type TypeBindings = HashMap<TypeVariableId, Type>;

/// Whether `r` is `t` with every type variable and named generic that
/// `bindings` binds replaced by its binding, at any depth.
pub open spec fn substituted(t: Type, r: Type, bindings: Map<TypeVariableId, Type>) -> bool
    decreases t,
{
    match t {
        Type::TypeVariable(v) => if bindings.contains_key(v.id) {
            same_type(bindings[v.id], r)
        } else {
            r == t
        },
        Type::NamedGeneric(g) => if bindings.contains_key(g.type_var.id) {
            same_type(bindings[g.type_var.id], r)
        } else {
            r == t
        },
        Type::Function(args, ret, env, unconstrained) => match r {
            Type::Function(r_args, r_ret, r_env, r_unconstrained) => {
                &&& r_unconstrained == unconstrained
                &&& r_args.len() == args.len()
                &&& forall|i: int|
                    0 <= i < args.len() ==> substituted(#[trigger] args[i], r_args[i], bindings)
                &&& substituted(*ret, *r_ret, bindings)
                &&& substituted(*env, *r_env, bindings)
            },
            _ => false,
        },
        Type::Forall(vars, body) => match r {
            Type::Forall(r_vars, r_body) => r_vars@ == vars@ && substituted(*body, *r_body, bindings),
            _ => false,
        },
        _ => r == t,
    }
}

/// Substituting with no bindings gives back the same type.
pub proof fn lemma_substitution_without_bindings(t: Type, r: Type)
    requires
        substituted(t, r, Map::<TypeVariableId, Type>::empty()),
    ensures
        same_type(t, r),
    decreases t,
{
    match t {
        Type::Function(args, ret, env, _) => {
            if let Type::Function(r_args, r_ret, r_env, _) = r {
                assert forall|i: int| 0 <= i < args.len() implies same_type(
                    #[trigger] args[i],
                    r_args[i],
                ) by {
                    lemma_substitution_without_bindings(args[i], r_args[i]);
                }
                lemma_substitution_without_bindings(*ret, *r_ret);
                lemma_substitution_without_bindings(*env, *r_env);
            }
        },
        Type::Forall(_, body) => {
            if let Type::Forall(_, r_body) = r {
                lemma_substitution_without_bindings(*body, *r_body);
            }
        },
        _ => lemma_same_type_reflexive(t),
    }
}

/// Whether the type variable `id` occurs in `t`, as a type variable or as
/// the variable of a named generic, anywhere: in arguments, return types,
/// closure environments and under `forall`.
pub open spec fn mentions(t: Type, id: TypeVariableId) -> bool
    decreases t,
{
    match t {
        Type::TypeVariable(v) => v.id == id,
        Type::NamedGeneric(g) => g.type_var.id == id,
        Type::Function(args, ret, env, _) => {
            ||| exists|i: int| 0 <= i < args.len() && mentions(#[trigger] args[i], id)
            ||| mentions(*ret, id)
            ||| mentions(*env, id)
        },
        Type::Forall(_, body) => mentions(*body, id),
        _ => false,
    }
}

/// Bindings whose types mention none of the variables they bind, so that
/// substituting once replaces every bound variable for good.
pub open spec fn bindings_are_closed(bindings: Map<TypeVariableId, Type>) -> bool {
    forall|k: TypeVariableId, id: TypeVariableId|
        #![trigger bindings[k], bindings.contains_key(id)]
        bindings.contains_key(k) && bindings.contains_key(id) ==> !mentions(bindings[k], id)
}

/// The same type mentions the same variables.
pub proof fn lemma_same_type_mentions(a: Type, b: Type, id: TypeVariableId)
    requires
        same_type(a, b),
    ensures
        mentions(a, id) == mentions(b, id),
    decreases a,
{
    match a {
        Type::Function(a_args, a_ret, a_env, _) => {
            if let Type::Function(b_args, b_ret, b_env, _) = b {
                assert forall|i: int| 0 <= i < a_args.len() implies mentions(#[trigger] a_args[i], id)
                    == mentions(b_args[i], id) by {
                    lemma_same_type_mentions(a_args[i], b_args[i], id);
                }
                if exists|i: int| 0 <= i < b_args.len() && mentions(#[trigger] b_args[i], id) {
                    let i = choose|i: int| 0 <= i < b_args.len() && mentions(#[trigger] b_args[i], id);
                    assert(mentions(a_args[i], id));
                }
                lemma_same_type_mentions(*a_ret, *b_ret, id);
                lemma_same_type_mentions(*a_env, *b_env, id);
            }
        },
        Type::Forall(_, a_body) => {
            if let Type::Forall(_, b_body) = b {
                lemma_same_type_mentions(*a_body, *b_body, id);
            }
        },
        _ => {},
    }
}

/// Substitution removes every variable it binds, wherever it occurs in the
/// type (arguments, return type, closure environment, under `forall`),
/// as long as the bindings do not reintroduce bound variables.
pub proof fn lemma_substitution_removes_bound_variables(
    t: Type,
    r: Type,
    bindings: Map<TypeVariableId, Type>,
    id: TypeVariableId,
)
    requires
        substituted(t, r, bindings),
        bindings_are_closed(bindings),
        bindings.contains_key(id),
    ensures
        !mentions(r, id),
    decreases t,
{
    match t {
        Type::TypeVariable(v) => {
            if bindings.contains_key(v.id) {
                assert(!mentions(bindings[v.id], id));
                lemma_same_type_mentions(bindings[v.id], r, id);
            }
        },
        Type::NamedGeneric(g) => {
            if bindings.contains_key(g.type_var.id) {
                assert(!mentions(bindings[g.type_var.id], id));
                lemma_same_type_mentions(bindings[g.type_var.id], r, id);
            }
        },
        Type::Function(args, ret, env, _) => {
            if let Type::Function(r_args, r_ret, r_env, _) = r {
                assert forall|i: int| 0 <= i < r_args.len() implies !mentions(
                    #[trigger] r_args[i],
                    id,
                ) by {
                    lemma_substitution_removes_bound_variables(args[i], r_args[i], bindings, id);
                }
                lemma_substitution_removes_bound_variables(*ret, *r_ret, bindings, id);
                lemma_substitution_removes_bound_variables(*env, *r_env, bindings, id);
            }
        },
        Type::Forall(_, body) => {
            if let Type::Forall(_, r_body) = r {
                lemma_substitution_removes_bound_variables(*body, *r_body, bindings, id);
            }
        },
        _ => {},
    }
}

/// Substitution keeps every variable it does not bind.
pub proof fn lemma_substitution_keeps_unbound_variables(
    t: Type,
    r: Type,
    bindings: Map<TypeVariableId, Type>,
    id: TypeVariableId,
)
    requires
        substituted(t, r, bindings),
        !bindings.contains_key(id),
        mentions(t, id),
    ensures
        mentions(r, id),
    decreases t,
{
    match t {
        Type::Function(args, ret, env, _) => {
            if let Type::Function(r_args, r_ret, r_env, _) = r {
                if exists|i: int| 0 <= i < args.len() && mentions(#[trigger] args[i], id) {
                    let i = choose|i: int| 0 <= i < args.len() && mentions(#[trigger] args[i], id);
                    lemma_substitution_keeps_unbound_variables(args[i], r_args[i], bindings, id);
                    assert(mentions(r_args[i], id));
                } else if mentions(*ret, id) {
                    lemma_substitution_keeps_unbound_variables(*ret, *r_ret, bindings, id);
                } else {
                    lemma_substitution_keeps_unbound_variables(*env, *r_env, bindings, id);
                }
            }
        },
        Type::Forall(_, body) => {
            if let Type::Forall(_, r_body) = r {
                lemma_substitution_keeps_unbound_variables(*body, *r_body, bindings, id);
            }
        },
        _ => {},
    }
}

impl Type {
    /// This type with the type variables and named generics that
    /// `type_bindings` binds replaced by their bindings.
    #[verifier::loop_isolation(false)]
    pub fn substitute(&self, type_bindings: &TypeBindings) -> (r: Type)
        ensures
            substituted(*self, r, type_bindings@),
        decreases self,
    {
        match self {
            Type::TypeVariable(v) => match type_bindings.get(&v.id) {
                Some(bound) => clone_type(bound),
                None => Type::TypeVariable(*v),
            },
            Type::NamedGeneric(g) => match type_bindings.get(&g.type_var.id) {
                Some(bound) => clone_type(bound),
                None => Type::NamedGeneric(
                    NamedGeneric { type_var: g.type_var, name: g.name.clone(), implicit: g.implicit },
                ),
            },
            Type::Function(args, ret, env, unconstrained) => {
                let mut new_args: Vec<Type> = Vec::new();
                let mut i: usize = 0;
                while i < args.len()
                    invariant
                        i <= args.len(),
                        new_args.len() == i,
                        forall|j: int|
                            0 <= j < i ==> substituted(
                                #[trigger] args[j],
                                new_args[j],
                                type_bindings@,
                            ),
                    decreases args.len() - i,
                {
                    new_args.push(args[i].substitute(type_bindings));
                    i = i + 1;
                }
                Type::Function(
                    new_args,
                    Box::new(ret.substitute(type_bindings)),
                    Box::new(env.substitute(type_bindings)),
                    *unconstrained,
                )
            },
            Type::Forall(vars, body) => Type::Forall(
                copy_type_variables(vars),
                Box::new(body.substitute(type_bindings)),
            ),
            Type::FieldElement => Type::FieldElement,
            Type::Integer(sign, bits) => Type::Integer(*sign, *bits),
            Type::Bool => Type::Bool,
            Type::Unit => Type::Unit,
            Type::Error => Type::Error,
        }
    }
}

/// A generic as it was resolved: its name, its type variable and where it
/// was declared.
#[derive(Clone, Debug, PartialEq, Eq, Hash, PartialOrd, Ord)]
pub struct ResolvedGeneric {
    pub name: String,
    pub type_var: TypeVariable,
    pub location: Location,
}

/// The type that names the generic `g`.
pub open spec fn named_generic_of(g: ResolvedGeneric) -> Type {
    Type::NamedGeneric(NamedGeneric { type_var: g.type_var, name: g.name, implicit: false })
}

impl ResolvedGeneric {
    /// The type that names this generic.
    pub fn as_named_generic(&self) -> (t: Type)
        ensures
            t == named_generic_of(*self),
    {
        Type::NamedGeneric(
            NamedGeneric { type_var: self.type_var, name: self.name.clone(), implicit: false },
        )
    }
}

/// The generics of an item, in declaration order.
pub type Generics = Vec<ResolvedGeneric>;

/// The generics that a trait is applied to: `A, B` and `C = D` in `Foo<A, B, C = D>`.
#[derive(Clone, Debug, Eq, Hash, PartialOrd, Ord)]
pub struct TraitGenerics {
    pub ordered: Vec<Type>,
    pub named: Vec<NamedType>,
}

/// Whether two lists of named types pair the same names with the same types.
pub open spec fn same_named_types(a: Seq<NamedType>, b: Seq<NamedType>) -> bool {
    &&& a.len() == b.len()
    &&& forall|i: int|
        0 <= i < a.len() ==> (#[trigger] a[i]).name.contents@ == b[i].name.contents@ && same_type(
            a[i].typ,
            b[i].typ,
        )
}

impl PartialEq for TraitGenerics {
    fn eq(&self, other: &Self) -> (r: bool) {
        self.ordered == other.ordered && self.named == other.named
    }
}

impl vstd::std_specs::cmp::PartialEqSpecImpl for TraitGenerics {
    open spec fn obeys_eq_spec() -> bool {
        true
    }

    open spec fn eq_spec(&self, other: &Self) -> bool {
        same_types(self.ordered@, other.ordered@) && same_named_types(self.named@, other.named@)
    }
}

/// The body of a function as it was parsed; only its name is kept here.
#[derive(Clone, Debug, PartialEq, Eq)]
pub struct NoirFunction {
    pub name: Ident,
}

/// The interner's tables: the definition that names each function, and the
/// name of each trait.
pub struct NodeInterner {
    function_definitions: HashMap<u32, DefinitionId>,
    trait_names: HashMap<u32, String>,
}

impl NodeInterner {
    /// The definition of each function that has one, keyed by the function's id.
    pub closed spec fn function_definitions(&self) -> Map<u32, DefinitionId> {
        self.function_definitions@
    }

    /// The name of each trait the interner knows, keyed by the trait's id.
    pub closed spec fn trait_names(&self) -> Map<u32, String> {
        self.trait_names@
    }

    /// An interner that knows no function and no trait yet.
    pub fn new() -> (interner: NodeInterner)
        ensures
            interner.function_definitions() == Map::<u32, DefinitionId>::empty(),
            interner.trait_names() == Map::<u32, String>::empty(),
    {
        NodeInterner { function_definitions: HashMap::new(), trait_names: HashMap::new() }
    }

    /// Records that the trait `trait_id` is named `name`.
    pub fn push_trait_name(&mut self, trait_id: TraitId, name: String)
        ensures
            final(self).trait_names() == old(self).trait_names().insert(trait_id.0, name),
            final(self).function_definitions() == old(self).function_definitions(),
    {
        self.trait_names.insert(trait_id.0, name);
    }

    /// The name of a trait the interner knows.
    pub fn trait_name(&self, trait_id: TraitId) -> (name: &String)
        requires
            self.trait_names().contains_key(trait_id.0),
        ensures
            *name == self.trait_names()[trait_id.0],
    {
        self.trait_names.get(&trait_id.0).unwrap()
    }

    /// Records that `definition` is the definition of function `function`.
    pub fn push_function_definition(&mut self, function: FuncId, definition: DefinitionId)
        ensures
            final(self).function_definitions() == old(self).function_definitions().insert(
                function.0,
                definition,
            ),
            final(self).trait_names() == old(self).trait_names(),
    {
        self.function_definitions.insert(function.0, definition);
    }

    /// The definition of a function the interner knows.
    pub fn function_definition_id(&self, function: FuncId) -> (definition: DefinitionId)
        requires
            self.function_definitions().contains_key(function.0),
        ensures
            definition == self.function_definitions()[function.0],
    {
        *self.function_definitions.get(&function.0).unwrap()
    }
}

} // verus!
