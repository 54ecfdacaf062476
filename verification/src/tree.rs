//! The library's picture of a parsed JavaScript module: a tree of nodes,
//! each with a syntactic kind, the kind of its first token, the source text
//! of its subtree, and its child nodes in source order.
//!
//! An outside parser produces the real syntax tree; a thin converter hands
//! it to the library in this form, and everything that reads it is verified.

use vstd::prelude::*;

use crate::text::str_eq;

verus! {

/// The syntactic kinds the pipeline distinguishes. Every other kind of node
/// is carried as `Other`: the fixed descent selects such nodes by position
/// alone.
#[derive(Clone, Copy, Debug, PartialEq, Eq, Structural)]
pub enum SynKind {
    CallExpr,
    FnExpr,
    ReturnStmt,
    ObjectExpr,
    ArrayExpr,
    Literal,
    NameRef,
    Name,
    LiteralProp,
    SinglePattern,
    ParameterList,
    ArgList,
    Other,
}

/// The kind of the first token under a node. Only the `!` sentinel that ends
/// the operations list is distinguished.
#[derive(Clone, Copy, Debug, PartialEq, Eq, Structural)]
pub enum TokKind {
    Bang,
    Other,
}

/// One node of the module's syntax tree.
#[derive(Debug)]
pub struct SynNode {
    pub kind: SynKind,
    pub first_token: TokKind,
    pub text: String,
    pub children: Vec<SynNode>,
}

/// A literal object property whose key is a plain identifier.
pub open spec fn is_ident_prop(p: SynNode) -> bool {
    p.kind == SynKind::LiteralProp && p.children@.len() >= 2 && p.children@[0].kind
        == SynKind::Name
}

/// The value of the first identifier-keyed literal property named `key`:
/// the first such property wins.
pub open spec fn prop_lookup(props: Seq<SynNode>, key: Seq<char>) -> Option<SynNode>
    decreases props.len(),
{
    if props.len() == 0 {
        None
    } else if is_ident_prop(props[0]) && props[0].children@[0].text@ == key {
        Some(props[0].children@[1])
    } else {
        prop_lookup(props.skip(1), key)
    }
}

/// The value of the first identifier-keyed property named `key` whose value
/// is a literal; properties with other values are passed over.
pub open spec fn lit_prop_lookup(props: Seq<SynNode>, key: Seq<char>) -> Option<SynNode>
    decreases props.len(),
{
    if props.len() == 0 {
        None
    } else if is_ident_prop(props[0]) && props[0].children@[0].text@ == key
        && props[0].children@[1].kind == SynKind::Literal {
        Some(props[0].children@[1])
    } else {
        lit_prop_lookup(props.skip(1), key)
    }
}

impl SynNode {
    /// The value of the first identifier-keyed literal property named `key`
    /// among this node's children.
    pub fn lookup_prop<'a>(&'a self, key: &str) -> (r: Option<&'a SynNode>)
        ensures
            match r {
                Some(v) => prop_lookup(self.children@, key@) == Some(*v),
                None => prop_lookup(self.children@, key@) is None,
            },
    {
        let mut i: usize = 0;
        proof {
            assert(self.children@.skip(0) =~= self.children@);
        }
        while i < self.children.len()
            invariant
                i <= self.children@.len(),
                prop_lookup(self.children@, key@) == prop_lookup(
                    self.children@.skip(i as int),
                    key@,
                ),
            decreases self.children@.len() - i,
        {
            let p = &self.children[i];
            proof {
                assert(self.children@.skip(i as int)[0] == self.children@[i as int]);
                assert(self.children@.skip(i as int).skip(1) =~= self.children@.skip(i + 1));
            }
            if p.kind == SynKind::LiteralProp && p.children.len() >= 2 {
                let k = &p.children[0];
                if k.kind == SynKind::Name && str_eq(k.text.as_str(), key) {
                    return Some(&p.children[1]);
                }
            }
            i += 1;
        }
        None
    }

    /// The value of the first identifier-keyed property named `key` whose
    /// value is a literal, among this node's children.
    pub fn lookup_lit_prop<'a>(&'a self, key: &str) -> (r: Option<&'a SynNode>)
        ensures
            match r {
                Some(v) => lit_prop_lookup(self.children@, key@) == Some(*v),
                None => lit_prop_lookup(self.children@, key@) is None,
            },
    {
        let mut i: usize = 0;
        proof {
            assert(self.children@.skip(0) =~= self.children@);
        }
        while i < self.children.len()
            invariant
                i <= self.children@.len(),
                lit_prop_lookup(self.children@, key@) == lit_prop_lookup(
                    self.children@.skip(i as int),
                    key@,
                ),
            decreases self.children@.len() - i,
        {
            let p = &self.children[i];
            proof {
                assert(self.children@.skip(i as int)[0] == self.children@[i as int]);
                assert(self.children@.skip(i as int).skip(1) =~= self.children@.skip(i + 1));
            }
            if p.kind == SynKind::LiteralProp && p.children.len() >= 2 {
                let k = &p.children[0];
                if k.kind == SynKind::Name && str_eq(k.text.as_str(), key) && p.children[1].kind
                    == SynKind::Literal {
                    return Some(&p.children[1]);
                }
            }
            i += 1;
        }
        None
    }
}

} // verus!
