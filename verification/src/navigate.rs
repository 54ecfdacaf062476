//! The structural navigator: a fixed positional descent through the syntax
//! tree, written as a table of steps. Each step selects one child and may
//! assert its syntactic kind; the first step that fails aborts the descent
//! and names its index.

use vstd::prelude::*;

use crate::errors::{Error, Mismatch};
use crate::tree::{SynKind, SynNode};

verus! {

/// How a step picks the next node among the children of the current one.
#[derive(Clone, Copy, Debug, PartialEq, Eq, Structural)]
pub enum Selector {
    First,
    Last,
    Nth(usize),
}

/// The kind a step asserts of the selected child, if any.
#[derive(Clone, Copy, Debug, PartialEq, Eq, Structural)]
pub enum Expect {
    Any,
    Kind(SynKind),
}

/// One step of a fixed descent.
#[derive(Clone, Copy, Debug, PartialEq, Eq, Structural)]
pub struct NavStep {
    pub sel: Selector,
    pub expect: Expect,
}

/// The child a selector picks, when it exists.
pub open spec fn select_child(n: SynNode, sel: Selector) -> Option<SynNode> {
    match sel {
        Selector::First => if n.children@.len() > 0 {
            Some(n.children@[0])
        } else {
            None
        },
        Selector::Last => if n.children@.len() > 0 {
            Some(n.children@[n.children@.len() - 1])
        } else {
            None
        },
        Selector::Nth(i) => if (i as int) < n.children@.len() {
            Some(n.children@[i as int])
        } else {
            None
        },
    }
}

/// The node a step reaches: the selected child, provided it has the
/// expected kind.
pub open spec fn step_child(n: SynNode, step: NavStep) -> Option<SynNode> {
    match select_child(n, step.sel) {
        None => None,
        Some(c) => match step.expect {
            Expect::Any => Some(c),
            Expect::Kind(k) => if c.kind == k {
                Some(c)
            } else {
                None
            },
        },
    }
}

/// The node reached by following `path` from `n`, starting at step `i`, or
/// the index of the first step that fails.
pub open spec fn nav_from(n: SynNode, path: Seq<NavStep>, i: int) -> Result<SynNode, int>
    decreases path.len() - i,
{
    if i < 0 || i >= path.len() {
        Ok(n)
    } else {
        match step_child(n, path[i]) {
            Some(c) => nav_from(c, path, i + 1),
            None => Err(i),
        }
    }
}

/// The node reached by following the whole of `path` from `n`.
pub open spec fn nav(n: SynNode, path: Seq<NavStep>) -> Result<SynNode, int> {
    nav_from(n, path, 0)
}

/// Follows `path` from `root`; a failure names the step that did not match.
pub fn navigate<'a>(root: &'a SynNode, path: &Vec<NavStep>) -> (r: Result<&'a SynNode, Error>)
    ensures
        match r {
            Ok(n) => nav(*root, path@) == Ok::<SynNode, int>(*n),
            Err(e) => nav(*root, path@) is Err && e == Error::StructuralMismatch(
                Mismatch::Step(nav(*root, path@)->Err_0 as usize),
            ),
        },
{
    let mut cur: &SynNode = root;
    let mut i: usize = 0;
    while i < path.len()
        invariant
            i <= path@.len(),
            nav(*root, path@) == nav_from(*cur, path@, i as int),
        decreases path@.len() - i,
    {
        let step = path[i];
        let len = cur.children.len();
        let picked: Option<usize> = match step.sel {
            Selector::First => if len > 0 {
                Some(0)
            } else {
                None
            },
            Selector::Last => if len > 0 {
                Some(len - 1)
            } else {
                None
            },
            Selector::Nth(k) => if k < len {
                Some(k)
            } else {
                None
            },
        };
        match picked {
            None => {
                return Err(Error::StructuralMismatch(Mismatch::Step(i)));
            },
            Some(k) => {
                let c = &cur.children[k];
                let kind_ok = match step.expect {
                    Expect::Any => true,
                    Expect::Kind(want) => c.kind == want,
                };
                if !kind_ok {
                    return Err(Error::StructuralMismatch(Mismatch::Step(i)));
                }
                cur = c;
            },
        }
        i += 1;
    }
    Ok(cur)
}

/// The descent from the module root to the list whose elements hold the
/// embedded operation documents. Positions follow the one observed bundle
/// shape; no intermediate kind is asserted.
pub open spec fn operations_list_path() -> Seq<NavStep> {
    seq![
        (NavStep { sel: Selector::Last, expect: Expect::Any }),
        (NavStep { sel: Selector::First, expect: Expect::Any }),
        (NavStep { sel: Selector::Nth(1), expect: Expect::Any }),
        (NavStep { sel: Selector::First, expect: Expect::Any }),
        (NavStep { sel: Selector::Nth(1), expect: Expect::Any }),
        (NavStep { sel: Selector::First, expect: Expect::Any }),
        (NavStep { sel: Selector::Nth(1), expect: Expect::Any }),
        (NavStep { sel: Selector::Last, expect: Expect::Any }),
    ]
}

/// The further descent from the operations list to the property holding the
/// introspection-types array; the final step must land on a literal
/// property.
pub open spec fn types_prop_suffix() -> Seq<NavStep> {
    seq![
        (NavStep { sel: Selector::Last, expect: Expect::Any }),
        (NavStep { sel: Selector::First, expect: Expect::Any }),
        (NavStep { sel: Selector::Last, expect: Expect::Any }),
        (NavStep { sel: Selector::First, expect: Expect::Any }),
        (NavStep { sel: Selector::Last, expect: Expect::Any }),
        (NavStep { sel: Selector::Nth(3), expect: Expect::Kind(SynKind::LiteralProp) }),
    ]
}

/// The descent from the module root to the introspection-types property.
pub open spec fn types_prop_path() -> Seq<NavStep> {
    operations_list_path() + types_prop_suffix()
}

/// The descent from the manifest module's root to its one top-level call.
pub open spec fn manifest_call_path() -> Seq<NavStep> {
    seq![
        (NavStep { sel: Selector::First, expect: Expect::Any }),
        (NavStep { sel: Selector::First, expect: Expect::Any }),
        (NavStep { sel: Selector::First, expect: Expect::Any }),
        (NavStep { sel: Selector::Last, expect: Expect::Kind(SynKind::CallExpr) }),
    ]
}

/// The descent from one operations-list element to the string literal that
/// holds its document.
pub open spec fn document_path() -> Seq<NavStep> {
    seq![
        (NavStep { sel: Selector::Nth(2), expect: Expect::Any }),
        (NavStep { sel: Selector::First, expect: Expect::Any }),
        (NavStep { sel: Selector::First, expect: Expect::Any }),
        (NavStep { sel: Selector::Nth(1), expect: Expect::Any }),
        (NavStep { sel: Selector::Nth(1), expect: Expect::Any }),
        (NavStep { sel: Selector::First, expect: Expect::Any }),
        (NavStep { sel: Selector::First, expect: Expect::Any }),
    ]
}

/// Builds the table of `operations_list_path`.
pub fn operations_list_steps() -> (r: Vec<NavStep>)
    ensures
        r@ == operations_list_path(),
{
    let mut v: Vec<NavStep> = Vec::new();
    v.push(NavStep { sel: Selector::Last, expect: Expect::Any });
    v.push(NavStep { sel: Selector::First, expect: Expect::Any });
    v.push(NavStep { sel: Selector::Nth(1), expect: Expect::Any });
    v.push(NavStep { sel: Selector::First, expect: Expect::Any });
    v.push(NavStep { sel: Selector::Nth(1), expect: Expect::Any });
    v.push(NavStep { sel: Selector::First, expect: Expect::Any });
    v.push(NavStep { sel: Selector::Nth(1), expect: Expect::Any });
    v.push(NavStep { sel: Selector::Last, expect: Expect::Any });
    proof {
        assert(v@ =~= operations_list_path());
    }
    v
}

/// Builds the table of `types_prop_path`.
pub fn types_prop_steps() -> (r: Vec<NavStep>)
    ensures
        r@ == types_prop_path(),
{
    let mut v = operations_list_steps();
    v.push(NavStep { sel: Selector::Last, expect: Expect::Any });
    v.push(NavStep { sel: Selector::First, expect: Expect::Any });
    v.push(NavStep { sel: Selector::Last, expect: Expect::Any });
    v.push(NavStep { sel: Selector::First, expect: Expect::Any });
    v.push(NavStep { sel: Selector::Last, expect: Expect::Any });
    v.push(NavStep { sel: Selector::Nth(3), expect: Expect::Kind(SynKind::LiteralProp) });
    proof {
        assert(v@ =~= types_prop_path());
    }
    v
}

/// Builds the table of `manifest_call_path`.
pub fn manifest_call_steps() -> (r: Vec<NavStep>)
    ensures
        r@ == manifest_call_path(),
{
    let mut v: Vec<NavStep> = Vec::new();
    v.push(NavStep { sel: Selector::First, expect: Expect::Any });
    v.push(NavStep { sel: Selector::First, expect: Expect::Any });
    v.push(NavStep { sel: Selector::First, expect: Expect::Any });
    v.push(NavStep { sel: Selector::Last, expect: Expect::Kind(SynKind::CallExpr) });
    proof {
        assert(v@ =~= manifest_call_path());
    }
    v
}

/// Builds the table of `document_path`.
pub fn document_steps() -> (r: Vec<NavStep>)
    ensures
        r@ == document_path(),
{
    let mut v: Vec<NavStep> = Vec::new();
    v.push(NavStep { sel: Selector::Nth(2), expect: Expect::Any });
    v.push(NavStep { sel: Selector::First, expect: Expect::Any });
    v.push(NavStep { sel: Selector::First, expect: Expect::Any });
    v.push(NavStep { sel: Selector::Nth(1), expect: Expect::Any });
    v.push(NavStep { sel: Selector::Nth(1), expect: Expect::Any });
    v.push(NavStep { sel: Selector::First, expect: Expect::Any });
    v.push(NavStep { sel: Selector::First, expect: Expect::Any });
    proof {
        assert(v@ =~= document_path());
    }
    v
}

} // verus!
