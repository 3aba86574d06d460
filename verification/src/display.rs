//! How frontend types are written out in messages: the text of a type, of
//! a list of types, and of a number.
use vstd::prelude::*;

use crate::hir_types::{NodeInterner, Signedness, TraitId, Type};
use crate::traits::NamedType;

verus! {

/// The text of a decimal digit.
pub open spec fn digit_text(d: nat) -> Seq<char> {
    if d == 0 {
        "0"@
    } else if d == 1 {
        "1"@
    } else if d == 2 {
        "2"@
    } else if d == 3 {
        "3"@
    } else if d == 4 {
        "4"@
    } else if d == 5 {
        "5"@
    } else if d == 6 {
        "6"@
    } else if d == 7 {
        "7"@
    } else if d == 8 {
        "8"@
    } else {
        "9"@
    }
}

/// The decimal text of a number, without leading zeros.
pub open spec fn decimal_text(n: nat) -> Seq<char>
    decreases n,
{
    if n < 10 {
        digit_text(n)
    } else {
        decimal_text(n / 10) + digit_text(n % 10)
    }
}

/// The texts joined, with `separator` between each two of them.
pub open spec fn join_text(texts: Seq<Seq<char>>, separator: Seq<char>) -> Seq<char>
    decreases texts.len(),
{
    if texts.len() == 0 {
        Seq::empty()
    } else if texts.len() == 1 {
        texts[0]
    } else {
        join_text(texts.drop_last(), separator) + separator + texts.last()
    }
}

/// The text of a type as messages show it.
pub open spec fn type_text(t: Type) -> Seq<char>
    decreases t, 1nat, 0nat,
{
    match t {
        Type::FieldElement => "Field"@,
        Type::Integer(Signedness::Signed, bits) => "i"@ + decimal_text(bits as nat),
        Type::Integer(Signedness::Unsigned, bits) => "u"@ + decimal_text(bits as nat),
        Type::Bool => "bool"@,
        Type::Unit => "()"@,
        Type::TypeVariable(_) => "_"@,
        Type::NamedGeneric(g) => g.name@,
        Type::Function(args, ret, env, unconstrained) => {
            let head = if unconstrained {
                "unconstrained fn"@
            } else {
                "fn"@
            };
            let env_text = match *env {
                Type::Unit => Seq::empty(),
                _ => "["@ + type_text(*env) + "]"@,
            };
            head + env_text + "("@ + arguments_text(t, args.len() as nat) + ") -> "@ + type_text(
                *ret,
            )
        },
        Type::Forall(vars, body) => {
            let var_texts = Seq::new(vars@.len(), |i: int| decimal_text(vars@[i].id as nat));
            "forall "@ + join_text(var_texts, " "@) + ". "@ + type_text(*body)
        },
        Type::Error => "error"@,
    }
}

/// The texts of the first `n` arguments of the function type `t`,
/// separated by commas.
pub open spec fn arguments_text(t: Type, n: nat) -> Seq<char>
    decreases t, 0nat, n,
{
    match t {
        Type::Function(args, _, _, _) => if n == 0 || n > args.len() {
            Seq::empty()
        } else if n == 1 {
            type_text(args[0])
        } else {
            arguments_text(t, (n - 1) as nat) + ", "@ + type_text(args[n - 1])
        },
        _ => Seq::empty(),
    }
}

/// The text of an associated type given by name: `name = type`.
pub open spec fn named_type_text(n: NamedType) -> Seq<char> {
    n.name.contents@ + " = "@ + type_text(n.typ)
}

/// The texts of the generics a trait is applied to: the ordered ones, then
/// the named ones.
pub open spec fn generic_texts(ordered: Seq<Type>, named: Seq<NamedType>) -> Seq<Seq<char>> {
    ordered.map_values(|t: Type| type_text(t)) + named.map_values(
        |n: NamedType| named_type_text(n),
    )
}

/// The text of the constraint that `object` implements the trait named
/// `trait_name` with the given generics: `object: Trait<A, B = C>`, or
/// `object: Trait` without generics.
pub open spec fn constraint_text(
    object: Type,
    trait_name: Seq<char>,
    ordered: Seq<Type>,
    named: Seq<NamedType>,
) -> Seq<char> {
    let texts = generic_texts(ordered, named);
    type_text(object) + ": "@ + trait_name + if texts.len() == 0 {
        Seq::empty()
    } else {
        "<"@ + join_text(texts, ", "@) + ">"@
    }
}

/// Adding one more text to a list adds the separator and that text.
pub proof fn lemma_join_push(texts: Seq<Seq<char>>, separator: Seq<char>, text: Seq<char>)
    ensures
        join_text(texts.push(text), separator) == if texts.len() == 0 {
            text
        } else {
            join_text(texts, separator) + separator + text
        },
{
    assert(texts.push(text).drop_last() =~= texts);
}

/// Whether `part` occurs in `text` starting at position `at`.
pub open spec fn occurs_at(text: Seq<char>, part: Seq<char>, at: int) -> bool {
    &&& 0 <= at
    &&& at + part.len() <= text.len()
    &&& text.subrange(at, at + part.len()) == part
}

/// Whether `part` occurs in `text` starting after position `from`.
pub open spec fn occurs_after(text: Seq<char>, part: Seq<char>, from: int) -> bool {
    exists|k: int| from < k && #[trigger] occurs_at(text, part, k)
}

/// Whether `part` occurs somewhere in `text`.
pub open spec fn contains_text(text: Seq<char>, part: Seq<char>) -> bool {
    exists|k: int| #[trigger] occurs_at(text, part, k)
}

/// Each of the joined texts occurs in the joined text.
pub proof fn lemma_join_contains(texts: Seq<Seq<char>>, separator: Seq<char>, i: int)
    requires
        0 <= i < texts.len(),
    ensures
        exists|k: int| #[trigger] occurs_at(join_text(texts, separator), texts[i], k),
    decreases texts.len(),
{
    let joined = join_text(texts, separator);
    let len = texts[i].len() as int;
    if texts.len() == 1 {
        assert(joined == texts[0]);
        assert(joined.subrange(0, len) =~= texts[i]);
        assert(occurs_at(joined, texts[i], 0));
    } else {
        let front = join_text(texts.drop_last(), separator);
        assert(joined == front + separator + texts.last());
        if i == texts.len() - 1 {
            let k: int = (front.len() + separator.len()) as int;
            assert(joined.subrange(k, k + len) =~= texts[i]);
            assert(occurs_at(joined, texts[i], k));
        } else {
            lemma_join_contains(texts.drop_last(), separator, i);
            assert(texts.drop_last()[i] == texts[i]);
            let k = choose|k: int| #[trigger] occurs_at(front, texts[i], k);
            assert(joined.subrange(k, k + len) =~= front.subrange(k, k + len));
            assert(occurs_at(joined, texts[i], k));
        }
    }
}

/// Text that occurs in `text` occurs in any text that contains `text`.
proof fn lemma_occurs_in_concat(a: Seq<char>, text: Seq<char>, b: Seq<char>, part: Seq<char>, k: int)
    requires
        occurs_at(text, part, k),
    ensures
        occurs_at(a + text + b, part, a.len() + k),
{
    assert((a + text + b).subrange(a.len() + k, a.len() + k + part.len()) =~= text.subrange(
        k,
        k + part.len(),
    ));
}

/// The first `n` arguments' texts of a function type each occur in the text
/// of those arguments.
proof fn lemma_arguments_text_contains(t: Type, n: nat, i: int)
    requires
        t is Function,
        0 <= i < n <= t->Function_0.len(),
    ensures
        exists|k: int| #[trigger] occurs_at(arguments_text(t, n), type_text(t->Function_0[i]), k),
    decreases n,
{
    let args = t->Function_0;
    let text = arguments_text(t, n);
    let part = type_text(args[i]);
    if n == 1 {
        assert(text == part);
        assert(text.subrange(0, part.len() as int) =~= part);
        assert(occurs_at(text, part, 0));
    } else {
        let front = arguments_text(t, (n - 1) as nat);
        assert(text == front + ", "@ + type_text(args[n - 1]));
        if i == n - 1 {
            let k: int = (front.len() + ", "@.len()) as int;
            assert(text.subrange(k, k + part.len()) =~= part);
            assert(occurs_at(text, part, k));
        } else {
            lemma_arguments_text_contains(t, (n - 1) as nat, i);
            let k = choose|k: int| #[trigger] occurs_at(front, part, k);
            lemma_occurs_in_concat(Seq::empty(), front, ", "@ + type_text(args[n - 1]), part, k);
            assert(Seq::<char>::empty() + front + (", "@ + type_text(args[n - 1])) =~= text);
            assert(occurs_at(text, part, k));
        }
    }
}

/// The text of a function type shows the text of every argument, of the
/// return type, and of the closure environment unless that is `()`; the text
/// of a `forall` type shows the text of its body.
pub proof fn lemma_type_text_shows_parts(t: Type)
    ensures
        t matches Type::Function(args, ret, env, _) ==> {
            &&& forall|i: int|
                0 <= i < args.len() ==> contains_text(type_text(t), type_text(#[trigger] args[i]))
            &&& contains_text(type_text(t), type_text(*ret))
            &&& !(*env is Unit) ==> contains_text(type_text(t), type_text(*env))
        },
        t matches Type::Forall(_, body) ==> contains_text(type_text(t), type_text(*body)),
{
    let text = type_text(t);
    match t {
        Type::Function(args, ret, env, unconstrained) => {
            let head = if unconstrained {
                "unconstrained fn"@
            } else {
                "fn"@
            };
            let env_text = match *env {
                Type::Unit => Seq::<char>::empty(),
                _ => "["@ + type_text(*env) + "]"@,
            };
            let args_text = arguments_text(t, args.len() as nat);
            let before_args = head + env_text + "("@;
            assert(text == before_args + args_text + (") -> "@ + type_text(*ret)));
            assert forall|i: int| 0 <= i < args.len() implies contains_text(
                text,
                type_text(#[trigger] args[i]),
            ) by {
                lemma_arguments_text_contains(t, args.len() as nat, i);
                let k = choose|k: int| #[trigger] occurs_at(args_text, type_text(args[i]), k);
                lemma_occurs_in_concat(
                    before_args,
                    args_text,
                    ") -> "@ + type_text(*ret),
                    type_text(args[i]),
                    k,
                );
                assert(occurs_at(text, type_text(args[i]), before_args.len() + k));
            }
            let r: int = (before_args.len() + args_text.len() + ") -> "@.len()) as int;
            assert(text.subrange(r, r + type_text(*ret).len()) =~= type_text(*ret));
            assert(occurs_at(text, type_text(*ret), r));
            if !(*env is Unit) {
                let e: int = (head.len() + "["@.len()) as int;
                assert(env_text == "["@ + type_text(*env) + "]"@);
                assert(text.subrange(e, e + type_text(*env).len()) =~= type_text(*env));
                assert(occurs_at(text, type_text(*env), e));
            }
        },
        Type::Forall(vars, body) => {
            let var_texts = Seq::new(vars@.len(), |i: int| decimal_text(vars@[i].id as nat));
            let front = "forall "@ + join_text(var_texts, " "@) + ". "@;
            assert(text == front + type_text(*body));
            let b: int = front.len() as int;
            assert(text.subrange(b, b + type_text(*body).len()) =~= type_text(*body));
            assert(occurs_at(text, type_text(*body), b));
        },
        _ => {},
    }
}

/// The text of a constraint is the constrained type, `: ` and the trait's
/// name; when the trait has any generics, ordered or named, it goes on with
/// `<`, shows the text of every generic after that point, and ends with `>`.
pub proof fn lemma_constraint_text_shows_generics(
    object: Type,
    trait_name: Seq<char>,
    ordered: Seq<Type>,
    named: Seq<NamedType>,
)
    ensures
        ({
            let head = type_text(object) + ": "@ + trait_name;
            let text = constraint_text(object, trait_name, ordered, named);
            &&& occurs_at(text, head, 0)
            &&& ordered.len() == 0 && named.len() == 0 ==> text == head
            &&& ordered.len() + named.len() > 0 ==> {
                &&& text[head.len() as int] == '<'
                &&& text.last() == '>'
                &&& forall|i: int|
                    0 <= i < ordered.len() ==> occurs_after(
                        text,
                        type_text(#[trigger] ordered[i]),
                        head.len() as int,
                    )
                &&& forall|i: int|
                    0 <= i < named.len() ==> occurs_after(
                        text,
                        named_type_text(#[trigger] named[i]),
                        head.len() as int,
                    )
            }
        }),
{
    reveal_strlit("<");
    reveal_strlit(">");
    let head = type_text(object) + ": "@ + trait_name;
    let text = constraint_text(object, trait_name, ordered, named);
    let texts = generic_texts(ordered, named);
    assert(texts.len() == ordered.len() + named.len());
    if texts.len() == 0 {
        assert(text =~= head);
        assert(text.subrange(0, head.len() as int) =~= head);
    } else {
        let joined = join_text(texts, ", "@);
        assert(text == head + "<"@ + joined + ">"@);
        assert(text.subrange(0, head.len() as int) =~= head);
        assert forall|i: int| 0 <= i < ordered.len() implies occurs_after(
            text,
            type_text(#[trigger] ordered[i]),
            head.len() as int,
        ) by {
            assert(texts[i] == type_text(ordered[i]));
            lemma_join_contains(texts, ", "@, i);
            let k = choose|k: int| #[trigger] occurs_at(joined, texts[i], k);
            let at: int = head.len() as int + 1 + k;
            assert(text.subrange(at, at + texts[i].len()) =~= joined.subrange(k, k + texts[i].len()));
            assert(occurs_at(text, type_text(ordered[i]), at));
        }
        assert forall|i: int| 0 <= i < named.len() implies occurs_after(
            text,
            named_type_text(#[trigger] named[i]),
            head.len() as int,
        ) by {
            let n: int = ordered.len() as int + i;
            assert(texts[n] == named_type_text(named[i]));
            lemma_join_contains(texts, ", "@, n);
            let k = choose|k: int| #[trigger] occurs_at(joined, texts[n], k);
            let at: int = head.len() as int + 1 + k;
            assert(text.subrange(at, at + texts[n].len()) =~= joined.subrange(k, k + texts[n].len()));
            assert(occurs_at(text, named_type_text(named[i]), at));
        }
    }
}

/// The text of the digit `d`.
fn digit_str(d: u32) -> (r: &'static str)
    requires
        d < 10,
    ensures
        r@ == digit_text(d as nat),
{
    if d == 0 {
        "0"
    } else if d == 1 {
        "1"
    } else if d == 2 {
        "2"
    } else if d == 3 {
        "3"
    } else if d == 4 {
        "4"
    } else if d == 5 {
        "5"
    } else if d == 6 {
        "6"
    } else if d == 7 {
        "7"
    } else if d == 8 {
        "8"
    } else {
        "9"
    }
}

/// Appends the decimal text of `n`.
pub fn push_decimal(out: &mut String, n: u32)
    ensures
        final(out)@ == old(out)@ + decimal_text(n as nat),
    decreases n,
{
    if n >= 10 {
        push_decimal(out, n / 10);
    }
    out.append(digit_str(n % 10));
    proof {
        if n >= 10 {
            assert(old(out)@ + decimal_text(n as nat) =~= old(out)@ + decimal_text((n / 10) as nat)
                + digit_text((n % 10) as nat));
        }
    }
}

/// Appends the text of the type `t`.
pub fn push_type_text(out: &mut String, t: &Type)
    ensures
        final(out)@ == old(out)@ + type_text(*t),
    decreases t, 1nat,
{
    let ghost start = out@;
    match t {
        Type::FieldElement => out.append("Field"),
        Type::Integer(sign, bits) => {
            match sign {
                Signedness::Signed => out.append("i"),
                Signedness::Unsigned => out.append("u"),
            }
            push_decimal(out, *bits);
            assert(out@ =~= start + type_text(*t));
        },
        Type::Bool => out.append("bool"),
        Type::Unit => out.append("()"),
        Type::TypeVariable(_) => out.append("_"),
        Type::NamedGeneric(g) => out.append(g.name.as_str()),
        Type::Function(..) => push_function_text(out, t),
        Type::Forall(..) => push_forall_text(out, t),
        Type::Error => out.append("error"),
    }
}

/// Appends the text of the function type `t`.
#[verifier::loop_isolation(false)]
fn push_function_text(out: &mut String, t: &Type)
    requires
        *t is Function,
    ensures
        final(out)@ == old(out)@ + type_text(*t),
    decreases t, 0nat,
{
    let ghost start = out@;
    if let Type::Function(args, ret, env, unconstrained) = t {
        if *unconstrained {
            out.append("unconstrained fn");
        } else {
            out.append("fn");
        }
        let ghost prefix = out@;
        match &**env {
            Type::Unit => {},
            _ => {
                out.append("[");
                push_type_text(out, env);
                out.append("]");
            },
        }
        let ghost env_text = match **env {
            Type::Unit => Seq::<char>::empty(),
            _ => "["@ + type_text(**env) + "]"@,
        };
        assert(out@ =~= prefix + env_text);
        out.append("(");
        let ghost before_args = out@;
        let mut i: usize = 0;
        while i < args.len()
            invariant
                i <= args@.len(),
                out@ == before_args + arguments_text(*t, i as nat),
            decreases args@.len() - i,
        {
            if i > 0 {
                out.append(", ");
            }
            push_type_text(out, &args[i]);
            proof {
                assert(out@ =~= before_args + arguments_text(*t, (i + 1) as nat));
            }
            i = i + 1;
        }
        out.append(") -> ");
        push_type_text(out, ret);
        proof {
            assert(out@ =~= start + type_text(*t));
        }
    }
}

/// Appends the text of the type `t`, generic over type variables.
#[verifier::loop_isolation(false)]
fn push_forall_text(out: &mut String, t: &Type)
    requires
        *t is Forall,
    ensures
        final(out)@ == old(out)@ + type_text(*t),
    decreases t, 0nat,
{
    let ghost start = out@;
    if let Type::Forall(vars, body) = t {
        out.append("forall ");
        let ghost before_vars = out@;
        let ghost mut texts: Seq<Seq<char>> = Seq::empty();
        let mut i: usize = 0;
        while i < vars.len()
            invariant
                i <= vars@.len(),
                texts.len() == i,
                forall|j: int| 0 <= j < i ==> texts[j] == decimal_text(vars@[j].id as nat),
                out@ == before_vars + join_text(texts, " "@),
            decreases vars@.len() - i,
        {
            if i > 0 {
                out.append(" ");
            }
            push_decimal(out, vars[i].id);
            proof {
                lemma_join_push(texts, " "@, decimal_text(vars@[i as int].id as nat));
                texts = texts.push(decimal_text(vars@[i as int].id as nat));
                assert(out@ =~= before_vars + join_text(texts, " "@));
            }
            i = i + 1;
        }
        out.append(". ");
        push_type_text(out, body);
        proof {
            assert(texts =~= Seq::new(vars@.len(), |i: int| decimal_text(vars@[i].id as nat)));
            assert(out@ =~= start + type_text(*t));
        }
    }
}

impl Type {
    /// The type as messages show it.
    pub fn to_display_string(&self) -> (r: String)
        ensures
            r@ == type_text(*self),
    {
        let mut out = String::new();
        push_type_text(&mut out, self);
        out
    }
}

impl NamedType {
    /// The associated type as messages show it: `name = type`.
    pub fn to_display_string(&self) -> (r: String)
        ensures
            r@ == named_type_text(*self),
    {
        let mut out = self.name.contents.clone();
        out.append(" = ");
        push_type_text(&mut out, &self.typ);
        assert(out@ =~= named_type_text(*self));
        out
    }
}

impl NodeInterner {
    #[verifier::rlimit(40)]
    /// The text of the constraint that `object` implements the trait
    /// `trait_id` applied to the given generics.
    pub fn trait_constraint_string(
        &self,
        object: &Type,
        trait_id: TraitId,
        ordered: &[Type],
        named: &[NamedType],
    ) -> (r: String)
        requires
            self.trait_names().contains_key(trait_id.0),
        ensures
            r@ == constraint_text(*object, self.trait_names()[trait_id.0]@, ordered@, named@),
    {
        let mut out = String::new();
        push_type_text(&mut out, object);
        out.append(": ");
        out.append(self.trait_name(trait_id).as_str());
        let ghost before = out@;
        let ghost all = generic_texts(ordered@, named@);
        if ordered.len() > 0 || named.len() > 0 {
            out.append("<");
            let ghost before_list = out@;
            let ghost mut texts: Seq<Seq<char>> = Seq::empty();
            let mut i: usize = 0;
            while i < ordered.len()
                invariant
                    i <= ordered@.len(),
                    texts == all.take(i as int),
                    all == generic_texts(ordered@, named@),
                    out@ == before_list + join_text(texts, ", "@),
                decreases ordered@.len() - i,
            {
                if i > 0 {
                    out.append(", ");
                }
                push_type_text(&mut out, &ordered[i]);
                proof {
                    lemma_join_push(texts, ", "@, type_text(ordered@[i as int]));
                    texts = texts.push(type_text(ordered@[i as int]));
                    assert(texts =~= all.take(i + 1));
                    assert(out@ =~= before_list + join_text(texts, ", "@));
                }
                i = i + 1;
            }
            let mut j: usize = 0;
            while j < named.len()
                invariant
                    j <= named@.len(),
                    texts == all.take(ordered@.len() + j),
                    all == generic_texts(ordered@, named@),
                    out@ == before_list + join_text(texts, ", "@),
                decreases named@.len() - j,
            {
                if ordered.len() > 0 || j > 0 {
                    out.append(", ");
                }
                let n = &named[j];
                out.append(n.name.contents.as_str());
                out.append(" = ");
                push_type_text(&mut out, &n.typ);
                proof {
                    lemma_join_push(texts, ", "@, named_type_text(named@[j as int]));
                    texts = texts.push(named_type_text(named@[j as int]));
                    assert(texts =~= all.take(ordered@.len() + j + 1));
                    assert(out@ =~= before_list + join_text(texts, ", "@));
                }
                j = j + 1;
            }
            out.append(">");
            proof {
                assert(texts =~= all);
            }
        }
        proof {
            assert(out@ =~= constraint_text(
                *object,
                self.trait_names()[trait_id.0]@,
                ordered@,
                named@,
            ));
        }
        out
    }
}

} // verus!
