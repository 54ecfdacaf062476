//! The asset manifest resolver: statically evaluates the manifest module,
//! a self-invoking function whose return object maps logical keys to
//! arrays of asset paths. Parameters are paired positionally with the
//! call's string-literal arguments to form a substitution environment;
//! identifier elements resolve through it.

use vstd::prelude::*;

use crate::errors::{Error, Mismatch};
use crate::navigate::{manifest_call_steps, manifest_call_path, nav, navigate};
use crate::text::{inner_quoted, inner_quoted_spec, str_eq};
use crate::tree::{SynKind, SynNode};

verus! {

/// A usable parameter: a single pattern holding a name.
pub open spec fn param_ok(p: SynNode) -> bool {
    p.kind == SynKind::SinglePattern && p.children@.len() >= 1 && p.children@[0].kind
        == SynKind::Name
}

/// The parameter's name.
pub open spec fn param_name(p: SynNode) -> Seq<char> {
    p.children@[0].text@
}

/// A usable argument: a quoted string literal.
pub open spec fn arg_ok(a: SynNode) -> bool {
    a.kind == SynKind::Literal && inner_quoted_spec(a.text@) is Some
}

/// The argument's unquoted value.
pub open spec fn arg_value(a: SynNode) -> Seq<char> {
    match inner_quoted_spec(a.text@) {
        Some(s) => s,
        None => Seq::empty(),
    }
}

/// Every argument pairs with a parameter, and each pair has the usable
/// shape.
pub open spec fn env_ok(params: Seq<SynNode>, args: Seq<SynNode>) -> bool {
    args.len() <= params.len() && forall|j: int|
        0 <= j < args.len() ==> arg_ok(#[trigger] args[j]) && param_ok(params[j])
}

/// The substitution environment: parameter name to unquoted argument, in
/// position order.
pub open spec fn env_of(params: Seq<SynNode>, args: Seq<SynNode>) -> Seq<(Seq<char>, Seq<char>)> {
    Seq::new(args.len(), |j: int| (param_name(params[j]), arg_value(args[j])))
}

/// The binding of `name` in the environment. When one name is bound
/// twice, the later binding wins.
pub open spec fn env_lookup(env: Seq<(Seq<char>, Seq<char>)>, name: Seq<char>) -> Option<
    Seq<char>,
>
    decreases env.len(),
{
    if env.len() == 0 {
        None
    } else if env[env.len() - 1].0 == name {
        Some(env[env.len() - 1].1)
    } else {
        env_lookup(env.take(env.len() - 1), name)
    }
}

/// Why one array element fails to resolve, when it does: an identifier
/// without a binding, a literal that is not a quoted string, or any other
/// element kind.
pub open spec fn elem_err(e: SynNode, env: Seq<(Seq<char>, Seq<char>)>) -> Option<Error> {
    if e.kind == SynKind::NameRef {
        match env_lookup(env, e.text@) {
            None => Some(Error::UnexpectedShape),
            Some(_) => None,
        }
    } else if e.kind == SynKind::Literal {
        match inner_quoted_spec(e.text@) {
            None => Some(Error::UnexpectedShape),
            Some(_) => None,
        }
    } else {
        Some(Error::UnexpectedShape)
    }
}

/// The path one array element resolves to.
pub open spec fn elem_value(e: SynNode, env: Seq<(Seq<char>, Seq<char>)>) -> Seq<char> {
    if e.kind == SynKind::NameRef {
        match env_lookup(env, e.text@) {
            Some(v) => v,
            None => Seq::empty(),
        }
    } else {
        match inner_quoted_spec(e.text@) {
            Some(v) => v,
            None => Seq::empty(),
        }
    }
}

/// The first failure among an entry's array elements.
pub open spec fn elems_err(elems: Seq<SynNode>, env: Seq<(Seq<char>, Seq<char>)>) -> Option<
    Error,
>
    decreases elems.len(),
{
    if elems.len() == 0 {
        None
    } else {
        match elem_err(elems[0], env) {
            Some(e) => Some(e),
            None => elems_err(elems.skip(1), env),
        }
    }
}

/// The resolved paths of an entry's array elements, in order.
pub open spec fn elem_values(elems: Seq<SynNode>, env: Seq<(Seq<char>, Seq<char>)>) -> Seq<
    Seq<char>,
> {
    Seq::new(elems.len(), |j: int| elem_value(elems[j], env))
}

/// An object property that contributes a manifest entry: a literal
/// property whose key is itself a literal. Other properties are passed
/// over.
pub open spec fn prop_is_entry(p: SynNode) -> bool {
    p.kind == SynKind::LiteralProp && p.children@.len() >= 2 && p.children@[0].kind
        == SynKind::Literal
}

/// Why one entry fails, when it does: a key that is not a quoted string, a
/// value that is not an array, or a failing element.
pub open spec fn entry_err(p: SynNode, env: Seq<(Seq<char>, Seq<char>)>) -> Option<Error> {
    match inner_quoted_spec(p.children@[0].text@) {
        None => Some(Error::UnexpectedShape),
        Some(_) => if p.children@[1].kind != SynKind::ArrayExpr {
            Some(Error::UnexpectedShape)
        } else {
            elems_err(p.children@[1].children@, env)
        },
    }
}

/// The entry a property contributes.
pub open spec fn entry_of(p: SynNode, env: Seq<(Seq<char>, Seq<char>)>) -> (
    Seq<char>,
    Seq<Seq<char>>,
) {
    (
        match inner_quoted_spec(p.children@[0].text@) {
            Some(k) => k,
            None => Seq::empty(),
        },
        elem_values(p.children@[1].children@, env),
    )
}

/// The first failure among the return object's entry properties.
pub open spec fn entries_err(props: Seq<SynNode>, env: Seq<(Seq<char>, Seq<char>)>) -> Option<
    Error,
>
    decreases props.len(),
{
    if props.len() == 0 {
        None
    } else if !prop_is_entry(props[0]) {
        entries_err(props.skip(1), env)
    } else {
        match entry_err(props[0], env) {
            Some(e) => Some(e),
            None => entries_err(props.skip(1), env),
        }
    }
}

/// The manifest: every entry property's key and resolved paths, in source
/// order.
pub open spec fn manifest_entries(props: Seq<SynNode>, env: Seq<(Seq<char>, Seq<char>)>) -> Seq<
    (Seq<char>, Seq<Seq<char>>),
>
    decreases props.len(),
{
    if props.len() == 0 {
        Seq::empty()
    } else if prop_is_entry(props[0]) {
        seq![entry_of(props[0], env)] + manifest_entries(props.skip(1), env)
    } else {
        manifest_entries(props.skip(1), env)
    }
}

/// The first child of kind `k`.
pub open spec fn first_of_kind(cs: Seq<SynNode>, k: SynKind) -> Option<SynNode>
    decreases cs.len(),
{
    if cs.len() == 0 {
        None
    } else if cs[0].kind == k {
        Some(cs[0])
    } else {
        first_of_kind(cs.skip(1), k)
    }
}

/// The resolution of the whole manifest module, from its root: locate the
/// top-level call, check its shape, build the environment, and resolve the
/// return object's entries.
pub open spec fn spec_manifest(root: SynNode) -> Result<Seq<(Seq<char>, Seq<Seq<char>>)>, Error> {
    match nav(root, manifest_call_path()) {
        Err(_) => Err(Error::StructuralMismatch(Mismatch::MissingCall)),
        Ok(call) => {
            if call.children@.len() < 2 {
                Err(Error::StructuralMismatch(Mismatch::MissingCall))
            } else {
                let callee = call.children@[0];
                let arglist = call.children@[call.children@.len() - 1];
                if callee.kind != SynKind::FnExpr {
                    Err(Error::StructuralMismatch(Mismatch::NonFunctionCallee))
                } else if arglist.kind != SynKind::ArgList {
                    Err(Error::StructuralMismatch(Mismatch::MissingCall))
                } else {
                    match first_of_kind(callee.children@, SynKind::ParameterList) {
                        None => Err(Error::StructuralMismatch(Mismatch::ArgumentShape)),
                        Some(plist) => {
                            if !env_ok(plist.children@, arglist.children@) {
                                Err(Error::StructuralMismatch(Mismatch::ArgumentShape))
                            } else {
                                let env = env_of(plist.children@, arglist.children@);
                                let body = callee.children@[callee.children@.len() - 1];
                                if body.children@.len() == 0 {
                                    Err(Error::StructuralMismatch(Mismatch::MissingReturn))
                                } else if body.children@[0].kind != SynKind::ReturnStmt {
                                    Err(Error::StructuralMismatch(Mismatch::MissingReturn))
                                } else if body.children@[0].children@.len() == 0 {
                                    Err(Error::StructuralMismatch(Mismatch::NonObjectReturn))
                                } else {
                                    let obj = body.children@[0].children@[0];
                                    if obj.kind != SynKind::ObjectExpr {
                                        Err(Error::StructuralMismatch(Mismatch::NonObjectReturn))
                                    } else {
                                        match entries_err(obj.children@, env) {
                                            Some(e) => Err(e),
                                            None => Ok(manifest_entries(obj.children@, env)),
                                        }
                                    }
                                }
                            }
                        },
                    }
                }
            }
        },
    }
}

/// The first child of kind `ParameterList`, when there is one.
fn find_param_list<'a>(n: &'a SynNode) -> (r: Option<&'a SynNode>)
    ensures
        match r {
            Some(p) => first_of_kind(n.children@, SynKind::ParameterList) == Some(*p),
            None => first_of_kind(n.children@, SynKind::ParameterList) is None,
        },
{
    let mut i: usize = 0;
    proof {
        assert(n.children@.skip(0) =~= n.children@);
    }
    while i < n.children.len()
        invariant
            i <= n.children@.len(),
            first_of_kind(n.children@, SynKind::ParameterList) == first_of_kind(
                n.children@.skip(i as int),
                SynKind::ParameterList,
            ),
        decreases n.children@.len() - i,
    {
        proof {
            assert(n.children@.skip(i as int)[0] == n.children@[i as int]);
            assert(n.children@.skip(i as int).skip(1) =~= n.children@.skip(i + 1));
        }
        if n.children[i].kind == SynKind::ParameterList {
            return Some(&n.children[i]);
        }
        i += 1;
    }
    None
}

/// The binding of `name`, when there is one: the later of two bindings of
/// one name wins.
fn env_get<'a>(env: &'a Vec<(String, String)>, name: &str) -> (r: Option<&'a String>)
    ensures
        match r {
            Some(v) => env_lookup(env.deep_view(), name@) == Some(v@),
            None => env_lookup(env.deep_view(), name@) is None,
        },
{
    let mut i: usize = env.len();
    proof {
        assert(env.deep_view().take(env@.len() as int) =~= env.deep_view());
    }
    while i > 0
        invariant
            i <= env@.len(),
            env.deep_view().len() == env@.len(),
            env_lookup(env.deep_view(), name@) == env_lookup(
                env.deep_view().take(i as int),
                name@,
            ),
        decreases i,
    {
        proof {
            assert(env.deep_view().take(i as int)[i - 1] == env.deep_view()[i - 1]);
            assert(env.deep_view().take(i as int).take(i - 1) =~= env.deep_view().take(i - 1));
            assert(env.deep_view()[i - 1] == (env@[i - 1].0@, env@[i - 1].1@));
        }
        if str_eq(env[i - 1].0.as_str(), name) {
            return Some(&env[i - 1].1);
        }
        i -= 1;
    }
    proof {
        assert(env.deep_view().take(0) =~= Seq::<(Seq<char>, Seq<char>)>::empty());
    }
    None
}

/// Statically evaluates a parsed manifest module into the asset manifest:
/// each entry key with its resolved asset paths, in source order.
#[verifier::loop_isolation(false)]
pub fn get_build_manifest(root: &SynNode) -> (r: Result<Vec<(String, Vec<String>)>, Error>)
    ensures
        match r {
            Ok(m) => spec_manifest(*root) == Ok::<Seq<(Seq<char>, Seq<Seq<char>>)>, Error>(
                m.deep_view(),
            ),
            Err(e) => spec_manifest(*root) == Err::<Seq<(Seq<char>, Seq<Seq<char>>)>, Error>(e),
        },
{
    let steps = manifest_call_steps();
    let call = match navigate(root, &steps) {
        Ok(c) => c,
        Err(_) => {
            return Err(Error::StructuralMismatch(Mismatch::MissingCall));
        },
    };
    if call.children.len() < 2 {
        return Err(Error::StructuralMismatch(Mismatch::MissingCall));
    }
    let callee = &call.children[0];
    let arglist = &call.children[call.children.len() - 1];
    if callee.kind != SynKind::FnExpr {
        return Err(Error::StructuralMismatch(Mismatch::NonFunctionCallee));
    }
    if arglist.kind != SynKind::ArgList {
        return Err(Error::StructuralMismatch(Mismatch::MissingCall));
    }
    let plist = match find_param_list(callee) {
        Some(p) => p,
        None => {
            return Err(Error::StructuralMismatch(Mismatch::ArgumentShape));
        },
    };
    if arglist.children.len() > plist.children.len() {
        return Err(Error::StructuralMismatch(Mismatch::ArgumentShape));
    }
    let mut env: Vec<(String, String)> = Vec::new();
    let mut j: usize = 0;
    while j < arglist.children.len()
        invariant
            j <= arglist.children@.len(),
            env@.len() == j,
            forall|k: int|
                0 <= k < j ==> arg_ok(#[trigger] arglist.children@[k]) && param_ok(
                    plist.children@[k],
                ),
            forall|k: int|
                0 <= k < j ==> (#[trigger] env@[k]).0@ == param_name(plist.children@[k])
                    && env@[k].1@ == arg_value(arglist.children@[k]),
        decreases arglist.children@.len() - j,
    {
        let a = &arglist.children[j];
        if a.kind != SynKind::Literal {
            proof {
                assert(!arg_ok(arglist.children@[j as int]));
            }
            return Err(Error::StructuralMismatch(Mismatch::ArgumentShape));
        }
        let av = match inner_quoted(a.text.as_str()) {
            Some(v) => v,
            None => {
                proof {
                    assert(!arg_ok(arglist.children@[j as int]));
                }
                return Err(Error::StructuralMismatch(Mismatch::ArgumentShape));
            },
        };
        let p = &plist.children[j];
        if p.kind != SynKind::SinglePattern || p.children.len() == 0 {
            proof {
                assert(!param_ok(plist.children@[j as int]));
            }
            return Err(Error::StructuralMismatch(Mismatch::ArgumentShape));
        }
        let pn = &p.children[0];
        if pn.kind != SynKind::Name {
            proof {
                assert(!param_ok(plist.children@[j as int]));
            }
            return Err(Error::StructuralMismatch(Mismatch::ArgumentShape));
        }
        env.push((pn.text.clone(), av));
        j += 1;
    }
    proof {
        assert(env_ok(plist.children@, arglist.children@));
        assert forall|k: int| 0 <= k < env@.len() implies env.deep_view()[k] == env_of(
            plist.children@,
            arglist.children@,
        )[k] by {
            assert(env.deep_view()[k] == (env@[k].0@, env@[k].1@));
        }
        assert(env.deep_view() =~= env_of(plist.children@, arglist.children@));
    }
    let ghost genv = env_of(plist.children@, arglist.children@);
    if callee.children.len() == 0 {
        proof {
            assert(first_of_kind(callee.children@, SynKind::ParameterList) is None);
        }
        return Err(Error::StructuralMismatch(Mismatch::ArgumentShape));
    }
    let body = &callee.children[callee.children.len() - 1];
    if body.children.len() == 0 {
        return Err(Error::StructuralMismatch(Mismatch::MissingReturn));
    }
    let ret = &body.children[0];
    if ret.kind != SynKind::ReturnStmt {
        return Err(Error::StructuralMismatch(Mismatch::MissingReturn));
    }
    if ret.children.len() == 0 {
        return Err(Error::StructuralMismatch(Mismatch::NonObjectReturn));
    }
    let obj = &ret.children[0];
    if obj.kind != SynKind::ObjectExpr {
        return Err(Error::StructuralMismatch(Mismatch::NonObjectReturn));
    }
    let mut out: Vec<(String, Vec<String>)> = Vec::new();
    let mut i: usize = 0;
    proof {
        assert(obj.children@.skip(0) =~= obj.children@);
        assert(out.deep_view() + manifest_entries(obj.children@, genv) =~= manifest_entries(
            obj.children@,
            genv,
        ));
    }
    while i < obj.children.len()
        invariant
            i <= obj.children@.len(),
            entries_err(obj.children@, genv) == entries_err(obj.children@.skip(i as int), genv),
            out.deep_view() + manifest_entries(obj.children@.skip(i as int), genv)
                == manifest_entries(obj.children@, genv),
        decreases obj.children@.len() - i,
    {
        let p = &obj.children[i];
        proof {
            assert(obj.children@.skip(i as int)[0] == obj.children@[i as int]);
            assert(obj.children@.skip(i as int).skip(1) =~= obj.children@.skip(i + 1));
        }
        if p.kind == SynKind::LiteralProp && p.children.len() >= 2 && p.children[0].kind
            == SynKind::Literal {
            let key = match inner_quoted(p.children[0].text.as_str()) {
                Some(k) => k,
                None => {
                    return Err(Error::UnexpectedShape);
                },
            };
            let val_node = &p.children[1];
            if val_node.kind != SynKind::ArrayExpr {
                return Err(Error::UnexpectedShape);
            }
            let mut vals: Vec<String> = Vec::new();
            let mut k: usize = 0;
            proof {
                assert(val_node.children@.skip(0) =~= val_node.children@);
            }
            while k < val_node.children.len()
                invariant
                    k <= val_node.children@.len(),
                    vals@.len() == k,
                    elems_err(val_node.children@, genv) == elems_err(
                        val_node.children@.skip(k as int),
                        genv,
                    ),
                    forall|q: int|
                        0 <= q < k ==> (#[trigger] vals@[q])@ == elem_value(
                            val_node.children@[q],
                            genv,
                        ),
                decreases val_node.children@.len() - k,
            {
                let e = &val_node.children[k];
                proof {
                    assert(val_node.children@.skip(k as int)[0] == val_node.children@[k as int]);
                    assert(val_node.children@.skip(k as int).skip(1) =~= val_node.children@.skip(
                        k + 1,
                    ));
                }
                if e.kind == SynKind::NameRef {
                    match env_get(&env, e.text.as_str()) {
                        Some(v) => {
                            vals.push(v.clone());
                        },
                        None => {
                            return Err(Error::UnexpectedShape);
                        },
                    }
                } else if e.kind == SynKind::Literal {
                    match inner_quoted(e.text.as_str()) {
                        Some(s) => {
                            vals.push(s);
                        },
                        None => {
                            return Err(Error::UnexpectedShape);
                        },
                    }
                } else {
                    return Err(Error::UnexpectedShape);
                }
                k += 1;
            }
            proof {
                assert(val_node.children@.skip(val_node.children@.len() as int) =~= Seq::<
                    SynNode,
                >::empty());
                assert(vals.deep_view() =~= elem_values(val_node.children@, genv));
            }
            let ghost prev_dv = out.deep_view();
            out.push((key, vals));
            proof {
                let entry = entry_of(obj.children@[i as int], genv);
                assert(out.deep_view() =~= prev_dv.push(entry));
                assert(manifest_entries(obj.children@.skip(i as int), genv) == seq![entry]
                    + manifest_entries(obj.children@.skip(i + 1), genv));
                assert(prev_dv + (seq![entry] + manifest_entries(obj.children@.skip(i + 1), genv))
                    =~= prev_dv.push(entry) + manifest_entries(obj.children@.skip(i + 1), genv));
            }
        } else {
            proof {
                assert(!prop_is_entry(obj.children@[i as int]));
            }
        }
        i += 1;
    }
    proof {
        assert(obj.children@.skip(obj.children@.len() as int) =~= Seq::<SynNode>::empty());
        assert(out.deep_view() + manifest_entries(
            obj.children@.skip(obj.children@.len() as int),
            genv,
        ) =~= out.deep_view());
    }
    Ok(out)
}

} // verus!
