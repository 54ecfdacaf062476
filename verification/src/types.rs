//! The recovered type graph and its SDL printer: GraphQL's type-wrapper
//! algebra (`NON_NULL` and `LIST` around a leaf `SCALAR`/`OBJECT`/`UNION`),
//! object and union declarations, and their deterministic rendering.

use vstd::prelude::*;

use crate::errors::{Error, Mismatch};
use crate::navigate::{nav, navigate, types_prop_path, types_prop_steps};
use crate::text::{inner_quoted, inner_quoted_spec, join_strings, join_with, remove_quotes,
    str_eq, strip_quotes};
use crate::tree::{lit_prop_lookup, prop_lookup, SynKind, SynNode};

verus! {

/// The deepest nesting of type wrappers the resolver follows before it
/// reports the reference as malformed.
pub const TYPE_DEPTH_LIMIT: usize = 32;

/// One node of a GraphQL type reference: a wrapper kind around an inner
/// reference, or a leaf kind with an optional name.
#[derive(Debug)]
pub struct TypeModif {
    pub kind: String,
    pub name: Option<String>,
    pub of_type: Option<Box<TypeModif>>,
}

impl TypeModif {
    /// The type-wrapper invariant: wrappers carry an inner reference, the
    /// named leaf kinds carry a name, and no other kind occurs.
    pub open spec fn wf(self) -> bool
        decreases self,
    {
        if self.kind@ == "NON_NULL"@ || self.kind@ == "LIST"@ {
            match self.of_type {
                Some(inner) => inner.wf(),
                None => false,
            }
        } else if self.kind@ == "SCALAR"@ {
            true
        } else if self.kind@ == "OBJECT"@ || self.kind@ == "UNION"@ {
            self.name is Some
        } else {
            false
        }
    }

    /// The rendering of one type reference: `!` after a non-null inner,
    /// brackets around a list inner, the placeholder token for a scalar,
    /// and the name of an object or union.
    pub open spec fn rendered(self) -> Seq<char>
        decreases self,
    {
        if self.kind@ == "NON_NULL"@ {
            match self.of_type {
                Some(inner) => inner.rendered() + "!"@,
                None => Seq::empty(),
            }
        } else if self.kind@ == "LIST"@ {
            match self.of_type {
                Some(inner) => "["@ + inner.rendered() + "]"@,
                None => Seq::empty(),
            }
        } else if self.kind@ == "SCALAR"@ {
            "SCALAR"@
        } else {
            match self.name {
                Some(n) => n@,
                None => Seq::empty(),
            }
        }
    }

    /// Whether the type-wrapper invariant holds.
    pub fn is_wf(&self) -> (b: bool)
        ensures
            b == self.wf(),
        decreases *self,
    {
        if str_eq(self.kind.as_str(), "NON_NULL") || str_eq(self.kind.as_str(), "LIST") {
            match &self.of_type {
                Some(inner) => inner.is_wf(),
                None => false,
            }
        } else if str_eq(self.kind.as_str(), "SCALAR") {
            true
        } else if str_eq(self.kind.as_str(), "OBJECT") || str_eq(self.kind.as_str(), "UNION") {
            self.name.is_some()
        } else {
            false
        }
    }

    /// Renders this type reference.
    pub fn to_string(&self) -> (r: String)
        requires
            self.wf(),
        ensures
            r@ == self.rendered(),
        decreases *self,
    {
        if str_eq(self.kind.as_str(), "NON_NULL") {
            let inner = self.of_type.as_ref().unwrap();
            inner.to_string().concat("!")
        } else if str_eq(self.kind.as_str(), "LIST") {
            let inner = self.of_type.as_ref().unwrap();
            let s = String::from_str("[");
            let s = s.concat(inner.to_string().as_str());
            s.concat("]")
        } else if str_eq(self.kind.as_str(), "SCALAR") {
            String::from_str("SCALAR")
        } else {
            self.name.as_ref().unwrap().clone()
        }
    }
}

/// A recovered union declaration.
#[derive(Debug)]
pub struct Union {
    pub name: String,
    pub possible_types: Vec<String>,
}

impl Union {
    /// `union <name> = <p1> | <p2> ...` followed by a newline.
    pub open spec fn rendered(self) -> Seq<char> {
        "union "@ + self.name@ + " = "@ + join_with(self.possible_types.deep_view(), " | "@)
            + "\n"@
    }
}

/// One field of a recovered object declaration.
#[derive(Debug)]
pub struct OType {
    pub name: String,
    pub obj_type: TypeModif,
}

impl OType {
    /// `<name>: <type>`.
    pub open spec fn rendered(self) -> Seq<char> {
        self.name@ + ": "@ + self.obj_type.rendered()
    }

    /// The field's type reference is well formed.
    pub open spec fn wf(self) -> bool {
        self.obj_type.wf()
    }
}

/// The renderings of a sequence of fields, in order.
pub open spec fn fields_rendered(fs: Seq<OType>) -> Seq<Seq<char>> {
    fs.map_values(|f: OType| f.rendered())
}

/// A recovered object declaration.
#[derive(Debug)]
pub struct Object {
    pub name: String,
    pub fields: Vec<OType>,
}

impl Object {
    /// Every field's type reference is well formed.
    pub open spec fn wf(self) -> bool {
        forall|i: int| 0 <= i < self.fields@.len() ==> self.fields@[i].wf()
    }

    /// `type <name> { ... }`, fields joined by newline and tab, in
    /// declaration order.
    pub open spec fn rendered(self) -> Seq<char> {
        "type "@ + self.name@ + " {\n\t"@ + join_with(fields_rendered(self.fields@), "\n\t"@)
            + "\n}\n"@
    }
}

/// One recovered schema declaration: a union or an object.
#[derive(Debug)]
pub enum UnionOrObjectType {
    Union(Union),
    Object(Object),
}

impl UnionOrObjectType {
    /// The declaration's rendering invariant.
    pub open spec fn wf(self) -> bool {
        match self {
            UnionOrObjectType::Union(_) => true,
            UnionOrObjectType::Object(o) => o.wf(),
        }
    }

    /// The declaration's rendering.
    pub open spec fn rendered(self) -> Seq<char> {
        match self {
            UnionOrObjectType::Union(u) => u.rendered(),
            UnionOrObjectType::Object(o) => o.rendered(),
        }
    }

    /// Whether the rendering invariant holds.
    pub fn is_wf(&self) -> (b: bool)
        ensures
            b == self.wf(),
    {
        match self {
            UnionOrObjectType::Union(_) => true,
            UnionOrObjectType::Object(o) => {
                proof {
                    assert(self.wf() == o.wf());
                }
                let mut i: usize = 0;
                while i < o.fields.len()
                    invariant
                        i <= o.fields@.len(),
                        self.wf() == o.wf(),
                        forall|k: int| 0 <= k < i ==> o.fields@[k].wf(),
                    decreases o.fields@.len() - i,
                {
                    if !o.fields[i].obj_type.is_wf() {
                        proof {
                            assert(!o.fields@[i as int].wf());
                            assert(!o.wf());
                        }
                        return false;
                    }
                    i += 1;
                }
                true
            },
        }
    }

    /// Renders this declaration.
    pub fn to_string(&self) -> (r: String)
        requires
            self.wf(),
        ensures
            r@ == self.rendered(),
    {
        match self {
            UnionOrObjectType::Union(t) => {
                let joined = join_strings(&t.possible_types, " | ");
                let s = String::from_str("union ");
                let s = s.concat(t.name.as_str());
                let s = s.concat(" = ");
                let s = s.concat(joined.as_str());
                s.concat("\n")
            },
            UnionOrObjectType::Object(t) => {
                let mut parts: Vec<String> = Vec::new();
                let mut i: usize = 0;
                proof {
                    assert(parts.deep_view() =~= fields_rendered(t.fields@.take(0)));
                }
                while i < t.fields.len()
                    invariant
                        i <= t.fields@.len(),
                        forall|k: int| 0 <= k < t.fields@.len() ==> t.fields@[k].wf(),
                        parts.deep_view() == fields_rendered(t.fields@.take(i as int)),
                    decreases t.fields@.len() - i,
                {
                    let f = &t.fields[i];
                    let part = f.name.clone().concat(": ").concat(f.obj_type.to_string().as_str());
                    let ghost prev = parts@;
                    let ghost prev_dv = parts.deep_view();
                    parts.push(part);
                    proof {
                        assert(parts@ == prev.push(part));
                        assert(prev_dv.len() == i as int);
                        assert(prev.len() == i as int);
                        assert(parts@.len() == i + 1);
                        assert(i + 1 <= t.fields@.len());
                        assert(part@ == t.fields@[i as int].rendered());
                        assert forall|j: int| 0 <= j < parts@.len() implies parts.deep_view()[j]
                            == fields_rendered(t.fields@.take(i + 1))[j] by {
                            assert(t.fields@.take(i + 1)[j] == t.fields@[j]);
                            if j < i {
                                assert(parts@[j] == prev[j]);
                                assert(prev_dv[j] == prev[j]@);
                                assert(prev_dv[j] == fields_rendered(t.fields@.take(i as int))[j]);
                                assert(t.fields@.take(i as int)[j] == t.fields@[j]);
                            } else {
                                assert(parts@[j] == part);
                            }
                        }
                        assert(parts.deep_view() =~= fields_rendered(t.fields@.take(i + 1)));
                    }
                    i += 1;
                }
                proof {
                    assert(t.fields@.take(t.fields@.len() as int) =~= t.fields@);
                }
                let joined = join_strings(&parts, "\n\t");
                let s = String::from_str("type ");
                let s = s.concat(t.name.as_str());
                let s = s.concat(" {\n\t");
                let s = s.concat(joined.as_str());
                s.concat("\n}\n")
            },
        }
    }
}

/// The concatenation of every declaration's rendering, in source order,
/// with no separators.
pub open spec fn schema_rendered(ts: Seq<UnionOrObjectType>) -> Seq<char>
    decreases ts.len(),
{
    if ts.len() == 0 {
        Seq::empty()
    } else {
        ts[0].rendered() + schema_rendered(ts.skip(1))
    }
}

/// Renders a whole recovered schema.
pub fn render_schema(types: &Vec<UnionOrObjectType>) -> (r: String)
    requires
        forall|i: int| 0 <= i < types@.len() ==> types@[i].wf(),
    ensures
        r@ == schema_rendered(types@),
{
    let mut out = String::new();
    let mut i: usize = 0;
    proof {
        assert(types@.skip(0) =~= types@);
        assert(out@ + schema_rendered(types@) =~= schema_rendered(types@));
    }
    while i < types.len()
        invariant
            i <= types@.len(),
            forall|k: int| 0 <= k < types@.len() ==> types@[k].wf(),
            out@ + schema_rendered(types@.skip(i as int)) == schema_rendered(types@),
        decreases types@.len() - i,
    {
        let part = types[i].to_string();
        out.append(part.as_str());
        proof {
            assert(types@.skip(i as int)[0] == types@[i as int]);
            assert(types@.skip(i as int).skip(1) =~= types@.skip(i + 1));
            assert(out@ + schema_rendered(types@.skip(i + 1)) =~= (out@.subrange(
                0,
                out@.len() - part@.len(),
            ) + (types@[i as int].rendered() + schema_rendered(types@.skip(i + 1)))));
        }
        i += 1;
    }
    proof {
        assert(types@.skip(types@.len() as int) =~= Seq::<UnionOrObjectType>::empty());
        assert(out@ + schema_rendered(types@.skip(types@.len() as int)) =~= out@);
    }
    out
}

/// The stripped text of a node's `kind` property: the first literal value
/// under that key wins, properties with non-literal values are passed
/// over.
pub open spec fn kind_text(n: SynNode) -> Option<Seq<char>> {
    match lit_prop_lookup(n.children@, "kind"@) {
        None => None,
        Some(kv) => Some(strip_quotes(kv.text@)),
    }
}

/// Why resolving a type-wrapper node fails, when it does: a missing
/// literal `kind`, a wrapper without an object `ofType`, nesting past the
/// depth cap, a leaf `name` literal that is not a quoted string, or an
/// object or union leaf without a name.
pub open spec fn type_node_err(n: SynNode, depth: nat) -> Option<Error>
    decreases depth,
{
    match kind_text(n) {
        None => Some(Error::UnexpectedShape),
        Some(k) => if k == "NON_NULL"@ || k == "LIST"@ {
            match prop_lookup(n.children@, "ofType"@) {
                None => Some(Error::MalformedType),
                Some(ov) => if ov.kind != SynKind::ObjectExpr {
                    Some(Error::MalformedType)
                } else if depth == 0 {
                    Some(Error::MalformedType)
                } else {
                    type_node_err(ov, (depth - 1) as nat)
                },
            }
        } else {
            match lit_prop_lookup(n.children@, "name"@) {
                Some(nv) => if inner_quoted_spec(nv.text@) is None {
                    Some(Error::UnexpectedShape)
                } else {
                    None
                },
                None => if k == "OBJECT"@ || k == "UNION"@ {
                    Some(Error::UnexpectedShape)
                } else {
                    None
                },
            }
        },
    }
}

/// `t` is the resolution of the type-wrapper node `n`: wrappers carry the
/// resolved `ofType` as their inner reference, leaves carry their quoted
/// `name` when one is present.
pub open spec fn parses_as_type(n: SynNode, t: TypeModif, depth: nat) -> bool
    decreases depth,
{
    match kind_text(n) {
        None => false,
        Some(k) => t.kind@ == k && if k == "NON_NULL"@ || k == "LIST"@ {
            t.name is None && match (prop_lookup(n.children@, "ofType"@), t.of_type) {
                (Some(ov), Some(inner)) => ov.kind == SynKind::ObjectExpr && depth > 0
                    && parses_as_type(ov, *inner, (depth - 1) as nat),
                _ => false,
            }
        } else {
            t.of_type is None && match lit_prop_lookup(n.children@, "name"@) {
                Some(nv) => match (inner_quoted_spec(nv.text@), t.name) {
                    (Some(s), Some(tn)) => tn@ == s,
                    _ => false,
                },
                None => t.name is None,
            }
        },
    }
}

fn parse_of_type_bounded(v: &SynNode, depth: usize) -> (r: Result<TypeModif, Error>)
    ensures
        match r {
            Ok(t) => type_node_err(*v, depth as nat) is None && parses_as_type(
                *v,
                t,
                depth as nat,
            ),
            Err(e) => type_node_err(*v, depth as nat) == Some(e),
        },
    decreases depth,
{
    let kv = match v.lookup_lit_prop("kind") {
        Some(k) => k,
        None => {
            return Err(Error::UnexpectedShape);
        },
    };
    let kind = remove_quotes(kv.text.as_str());
    if str_eq(kind.as_str(), "NON_NULL") || str_eq(kind.as_str(), "LIST") {
        let ov = match v.lookup_prop("ofType") {
            Some(o) => o,
            None => {
                return Err(Error::MalformedType);
            },
        };
        if ov.kind != SynKind::ObjectExpr {
            return Err(Error::MalformedType);
        }
        if depth == 0 {
            return Err(Error::MalformedType);
        }
        let inner = match parse_of_type_bounded(ov, depth - 1) {
            Ok(t) => t,
            Err(e) => {
                return Err(e);
            },
        };
        Ok(TypeModif { kind, name: None, of_type: Some(Box::new(inner)) })
    } else {
        let name = match v.lookup_lit_prop("name") {
            Some(nv) => {
                match inner_quoted(nv.text.as_str()) {
                    Some(s) => Some(s),
                    None => {
                        return Err(Error::UnexpectedShape);
                    },
                }
            },
            None => None,
        };
        if name.is_none() && (str_eq(kind.as_str(), "OBJECT") || str_eq(kind.as_str(), "UNION")) {
            return Err(Error::UnexpectedShape);
        }
        Ok(TypeModif { kind, name, of_type: None })
    }
}

/// Resolves one type-wrapper node, following `ofType` at most
/// `TYPE_DEPTH_LIMIT` levels deep.
pub fn parse_of_type(v: &SynNode) -> (r: Result<TypeModif, Error>)
    ensures
        match r {
            Ok(t) => type_node_err(*v, TYPE_DEPTH_LIMIT as nat) is None && parses_as_type(
                *v,
                t,
                TYPE_DEPTH_LIMIT as nat,
            ),
            Err(e) => type_node_err(*v, TYPE_DEPTH_LIMIT as nat) == Some(e),
        },
{
    parse_of_type_bounded(v, TYPE_DEPTH_LIMIT)
}

/// The raw literal text of a node's `kind` property, quotes included: the
/// first literal value under that key wins.
pub open spec fn decl_kind_raw(n: SynNode) -> Option<Seq<char>> {
    match lit_prop_lookup(n.children@, "kind"@) {
        None => None,
        Some(kv) => Some(kv.text@),
    }
}

/// Why reading one `possibleTypes` element fails, when it does.
pub open spec fn member_name_err(e: SynNode) -> Option<Error> {
    if e.kind != SynKind::ObjectExpr {
        Some(Error::UnexpectedShape)
    } else {
        match lit_prop_lookup(e.children@, "name"@) {
            None => Some(Error::UnexpectedShape),
            Some(_) => None,
        }
    }
}

/// The stripped name a `possibleTypes` element contributes.
pub open spec fn member_name(e: SynNode) -> Seq<char> {
    match lit_prop_lookup(e.children@, "name"@) {
        Some(nv) => strip_quotes(nv.text@),
        None => Seq::empty(),
    }
}

/// The first failure among a union's `possibleTypes` elements.
pub open spec fn members_err(elems: Seq<SynNode>) -> Option<Error>
    decreases elems.len(),
{
    if elems.len() == 0 {
        None
    } else {
        match member_name_err(elems[0]) {
            Some(e) => Some(e),
            None => members_err(elems.skip(1)),
        }
    }
}

/// The names the `possibleTypes` elements contribute, in order.
pub open spec fn member_names(elems: Seq<SynNode>) -> Seq<Seq<char>> {
    Seq::new(elems.len(), |j: int| member_name(elems[j]))
}

/// Why reading one field element fails, when it does.
pub open spec fn field_err(e: SynNode, depth: nat) -> Option<Error> {
    if e.kind != SynKind::ObjectExpr {
        Some(Error::UnexpectedShape)
    } else {
        match lit_prop_lookup(e.children@, "name"@) {
            None => Some(Error::UnexpectedShape),
            Some(_) => match prop_lookup(e.children@, "type"@) {
                None => Some(Error::UnexpectedShape),
                Some(tv) => if tv.kind != SynKind::ObjectExpr {
                    Some(Error::UnexpectedShape)
                } else {
                    type_node_err(tv, depth)
                },
            },
        }
    }
}

/// `f` is the reading of the field element `e`.
pub open spec fn parses_as_field(e: SynNode, f: OType, depth: nat) -> bool {
    field_err(e, depth) is None && match (
        lit_prop_lookup(e.children@, "name"@),
        prop_lookup(e.children@, "type"@),
    ) {
        (Some(nv), Some(tv)) => f.name@ == strip_quotes(nv.text@) && parses_as_type(
            tv,
            f.obj_type,
            depth,
        ),
        _ => false,
    }
}

/// The first failure among an object's field elements.
pub open spec fn fields_err(elems: Seq<SynNode>, depth: nat) -> Option<Error>
    decreases elems.len(),
{
    if elems.len() == 0 {
        None
    } else {
        match field_err(elems[0], depth) {
            Some(e) => Some(e),
            None => fields_err(elems.skip(1), depth),
        }
    }
}

/// `fs` is the element-wise reading of the field elements.
pub open spec fn parses_as_fields(elems: Seq<SynNode>, fs: Seq<OType>, depth: nat) -> bool {
    fs.len() == elems.len() && forall|j: int|
        0 <= j < elems.len() ==> parses_as_field(elems[j], #[trigger] fs[j], depth)
}

/// Why reading one introspection element fails, when it does. Elements
/// whose `kind` is neither `"UNION"` nor `"OBJECT"` never fail: they are
/// dropped.
pub open spec fn decl_err(n: SynNode) -> Option<Error> {
    match decl_kind_raw(n) {
        None => Some(Error::UnexpectedShape),
        Some(raw) => if raw == "\"UNION\""@ {
            match lit_prop_lookup(n.children@, "name"@) {
                None => Some(Error::UnexpectedShape),
                Some(_) => match prop_lookup(n.children@, "possibleTypes"@) {
                    None => Some(Error::UnexpectedShape),
                    Some(pv) => if pv.kind != SynKind::ArrayExpr {
                        Some(Error::UnexpectedShape)
                    } else {
                        members_err(pv.children@)
                    },
                },
            }
        } else if raw == "\"OBJECT\""@ {
            match lit_prop_lookup(n.children@, "name"@) {
                None => Some(Error::UnexpectedShape),
                Some(_) => match prop_lookup(n.children@, "fields"@) {
                    None => Some(Error::UnexpectedShape),
                    Some(fv) => if fv.kind != SynKind::ArrayExpr {
                        Some(Error::UnexpectedShape)
                    } else {
                        fields_err(fv.children@, TYPE_DEPTH_LIMIT as nat)
                    },
                },
            }
        } else {
            None
        },
    }
}

/// The element's `kind` names neither a union nor an object: the element is
/// silently dropped from the output.
pub open spec fn decl_skipped(n: SynNode) -> bool {
    match decl_kind_raw(n) {
        Some(raw) => raw != "\"UNION\""@ && raw != "\"OBJECT\""@,
        None => false,
    }
}

/// `d` is the reading of the introspection element `n`.
pub open spec fn parses_as_decl(n: SynNode, d: UnionOrObjectType) -> bool {
    decl_err(n) is None && !decl_skipped(n) && match decl_kind_raw(n) {
        None => false,
        Some(raw) => if raw == "\"UNION\""@ {
            match d {
                UnionOrObjectType::Union(u) => match (
                    lit_prop_lookup(n.children@, "name"@),
                    prop_lookup(n.children@, "possibleTypes"@),
                ) {
                    (Some(nv), Some(pv)) => u.name@ == strip_quotes(nv.text@)
                        && u.possible_types.deep_view() == member_names(pv.children@),
                    _ => false,
                },
                UnionOrObjectType::Object(_) => false,
            }
        } else {
            match d {
                UnionOrObjectType::Object(o) => match (
                    lit_prop_lookup(n.children@, "name"@),
                    prop_lookup(n.children@, "fields"@),
                ) {
                    (Some(nv), Some(fv)) => o.name@ == strip_quotes(nv.text@) && parses_as_fields(
                        fv.children@,
                        o.fields@,
                        TYPE_DEPTH_LIMIT as nat,
                    ),
                    _ => false,
                },
                UnionOrObjectType::Union(_) => false,
            }
        },
    }
}

/// Reads one introspection element: a union, an object, or nothing when the
/// element's `kind` is some other literal.
#[verifier::loop_isolation(false)]
pub fn parse_type(obj: &SynNode) -> (r: Result<Option<UnionOrObjectType>, Error>)
    ensures
        match r {
            Ok(d) => decl_err(*obj) is None && match d {
                Some(d) => !decl_skipped(*obj) && parses_as_decl(*obj, d),
                None => decl_skipped(*obj),
            },
            Err(e) => decl_err(*obj) == Some(e),
        },
{
    let kv = match obj.lookup_lit_prop("kind") {
        Some(k) => k,
        None => {
            return Err(Error::UnexpectedShape);
        },
    };
    if str_eq(kv.text.as_str(), "\"UNION\"") {
        let nv = match obj.lookup_lit_prop("name") {
            Some(v) => v,
            None => {
                return Err(Error::UnexpectedShape);
            },
        };
        let name = remove_quotes(nv.text.as_str());
        let pv = match obj.lookup_prop("possibleTypes") {
            Some(v) => v,
            None => {
                return Err(Error::UnexpectedShape);
            },
        };
        if pv.kind != SynKind::ArrayExpr {
            return Err(Error::UnexpectedShape);
        }
        let mut members: Vec<String> = Vec::new();
        let mut i: usize = 0;
        proof {
            assert(pv.children@.skip(0) =~= pv.children@);
        }
        while i < pv.children.len()
            invariant
                i <= pv.children@.len(),
                members@.len() == i,
                members_err(pv.children@) == members_err(pv.children@.skip(i as int)),
                forall|j: int| 0 <= j < i ==> members@[j]@ == member_name(pv.children@[j]),
            decreases pv.children@.len() - i,
        {
            let e = &pv.children[i];
            proof {
                assert(pv.children@.skip(i as int)[0] == pv.children@[i as int]);
                assert(pv.children@.skip(i as int).skip(1) =~= pv.children@.skip(i + 1));
            }
            if e.kind != SynKind::ObjectExpr {
                return Err(Error::UnexpectedShape);
            }
            let nv2 = match e.lookup_lit_prop("name") {
                Some(v) => v,
                None => {
                    return Err(Error::UnexpectedShape);
                },
            };
            members.push(remove_quotes(nv2.text.as_str()));
            i += 1;
        }
        proof {
            assert(pv.children@.skip(pv.children@.len() as int) =~= Seq::<SynNode>::empty());
            assert(members.deep_view() =~= member_names(pv.children@));
        }
        Ok(Some(UnionOrObjectType::Union(Union { name, possible_types: members })))
    } else if str_eq(kv.text.as_str(), "\"OBJECT\"") {
        let nv = match obj.lookup_lit_prop("name") {
            Some(v) => v,
            None => {
                return Err(Error::UnexpectedShape);
            },
        };
        let name = remove_quotes(nv.text.as_str());
        let fv = match obj.lookup_prop("fields") {
            Some(v) => v,
            None => {
                return Err(Error::UnexpectedShape);
            },
        };
        if fv.kind != SynKind::ArrayExpr {
            return Err(Error::UnexpectedShape);
        }
        let mut fields: Vec<OType> = Vec::new();
        let mut i: usize = 0;
        proof {
            assert(fv.children@.skip(0) =~= fv.children@);
        }
        while i < fv.children.len()
            invariant
                i <= fv.children@.len(),
                fields@.len() == i,
                fields_err(fv.children@, TYPE_DEPTH_LIMIT as nat) == fields_err(
                    fv.children@.skip(i as int),
                    TYPE_DEPTH_LIMIT as nat,
                ),
                forall|j: int| 0 <= j < i ==> parses_as_field(
                    fv.children@[j],
                    #[trigger] fields@[j],
                    TYPE_DEPTH_LIMIT as nat,
                ),
            decreases fv.children@.len() - i,
        {
            let e = &fv.children[i];
            proof {
                assert(fv.children@.skip(i as int)[0] == fv.children@[i as int]);
                assert(fv.children@.skip(i as int).skip(1) =~= fv.children@.skip(i + 1));
            }
            if e.kind != SynKind::ObjectExpr {
                return Err(Error::UnexpectedShape);
            }
            let nv2 = match e.lookup_lit_prop("name") {
                Some(v) => v,
                None => {
                    return Err(Error::UnexpectedShape);
                },
            };
            let fname = remove_quotes(nv2.text.as_str());
            let tv = match e.lookup_prop("type") {
                Some(v) => v,
                None => {
                    return Err(Error::UnexpectedShape);
                },
            };
            if tv.kind != SynKind::ObjectExpr {
                return Err(Error::UnexpectedShape);
            }
            let ftype = match parse_of_type(tv) {
                Ok(t) => t,
                Err(err) => {
                    return Err(err);
                },
            };
            fields.push(OType { name: fname, obj_type: ftype });
            i += 1;
        }
        proof {
            assert(fv.children@.skip(fv.children@.len() as int) =~= Seq::<SynNode>::empty());
        }
        Ok(Some(UnionOrObjectType::Object(Object { name, fields })))
    } else {
        Ok(None)
    }
}

/// The reading relation pins the result: two type references read from
/// the same node agree on their kind and render identically.
pub proof fn lemma_type_reading_determined(n: SynNode, t1: TypeModif, t2: TypeModif, depth: nat)
    requires
        parses_as_type(n, t1, depth),
        parses_as_type(n, t2, depth),
    ensures
        t1.kind@ == t2.kind@,
        t1.rendered() == t2.rendered(),
    decreases depth,
{
    let k = match kind_text(n) {
        Some(k) => k,
        None => Seq::empty(),
    };
    if k == "NON_NULL"@ || k == "LIST"@ {
        let ov = prop_lookup(n.children@, "ofType"@)->Some_0;
        let inner1 = t1.of_type->Some_0;
        let inner2 = t2.of_type->Some_0;
        lemma_type_reading_determined(ov, *inner1, *inner2, (depth - 1) as nat);
    }
}

/// The reading relation pins one declaration: two declarations read from
/// the same introspection element render identically.
pub proof fn lemma_decl_reading_determined(
    n: SynNode,
    d1: UnionOrObjectType,
    d2: UnionOrObjectType,
)
    requires
        parses_as_decl(n, d1),
        parses_as_decl(n, d2),
    ensures
        d1.rendered() == d2.rendered(),
{
    match (d1, d2) {
        (UnionOrObjectType::Union(u1), UnionOrObjectType::Union(u2)) => {
            assert(u1.name@ == u2.name@);
            assert(u1.possible_types.deep_view() == u2.possible_types.deep_view());
        },
        (UnionOrObjectType::Object(o1), UnionOrObjectType::Object(o2)) => {
            let fv = prop_lookup(n.children@, "fields"@)->Some_0;
            assert(o1.name@ == o2.name@);
            assert forall|j: int| 0 <= j < o1.fields@.len() implies fields_rendered(o1.fields@)[j]
                == fields_rendered(o2.fields@)[j] by {
                lemma_type_reading_determined(
                    prop_lookup(fv.children@[j].children@, "type"@)->Some_0,
                    o1.fields@[j].obj_type,
                    o2.fields@[j].obj_type,
                    TYPE_DEPTH_LIMIT as nat,
                );
                assert(o1.fields@[j].name@ == o2.fields@[j].name@);
            }
            assert(fields_rendered(o1.fields@) =~= fields_rendered(o2.fields@));
        },
        _ => {},
    }
}

/// The first failure among the elements of the introspection-types array.
pub open spec fn decl_list_err(elems: Seq<SynNode>) -> Option<Error>
    decreases elems.len(),
{
    if elems.len() == 0 {
        None
    } else if elems[0].kind != SynKind::ObjectExpr {
        decl_list_err(elems.skip(1))
    } else {
        match decl_err(elems[0]) {
            Some(e) => Some(e),
            None => decl_list_err(elems.skip(1)),
        }
    }
}

/// `out` is the reading of the introspection-types array: object-literal
/// elements contribute their declarations in order, and every other
/// element, like every dropped `kind`, contributes nothing.
pub open spec fn parses_as_decl_list(elems: Seq<SynNode>, out: Seq<UnionOrObjectType>) -> bool
    decreases elems.len(),
{
    if elems.len() == 0 {
        out.len() == 0
    } else if elems[0].kind != SynKind::ObjectExpr || decl_skipped(elems[0]) {
        parses_as_decl_list(elems.skip(1), out)
    } else {
        out.len() > 0 && parses_as_decl(elems[0], out[0]) && parses_as_decl_list(
            elems.skip(1),
            out.skip(1),
        )
    }
}

proof fn lemma_decl_list_snoc_kept(
    elems: Seq<SynNode>,
    out: Seq<UnionOrObjectType>,
    e: SynNode,
    d: UnionOrObjectType,
)
    requires
        parses_as_decl_list(elems, out),
        e.kind == SynKind::ObjectExpr,
        !decl_skipped(e),
        parses_as_decl(e, d),
    ensures
        parses_as_decl_list(elems.push(e), out.push(d)),
    decreases elems.len(),
{
    if elems.len() == 0 {
        assert(elems.push(e)[0] == e);
        assert(elems.push(e).skip(1) =~= Seq::<SynNode>::empty());
        assert(out.push(d)[0] == d);
        assert(out.push(d).skip(1) =~= Seq::<UnionOrObjectType>::empty());
        assert(parses_as_decl_list(Seq::<SynNode>::empty(), Seq::<UnionOrObjectType>::empty()));
        assert(parses_as_decl_list(elems.push(e).skip(1), out.push(d).skip(1)));
    } else {
        assert(elems.push(e)[0] == elems[0]);
        assert(elems.push(e).skip(1) =~= elems.skip(1).push(e));
        if elems[0].kind != SynKind::ObjectExpr || decl_skipped(elems[0]) {
            lemma_decl_list_snoc_kept(elems.skip(1), out, e, d);
            assert(parses_as_decl_list(elems.push(e).skip(1), out.push(d)));
        } else {
            assert(out.len() > 0);
            assert(out.push(d)[0] == out[0]);
            assert(out.push(d).skip(1) =~= out.skip(1).push(d));
            lemma_decl_list_snoc_kept(elems.skip(1), out.skip(1), e, d);
            assert(parses_as_decl_list(elems.push(e).skip(1), out.push(d).skip(1)));
        }
    }
}

proof fn lemma_decl_list_snoc_dropped(
    elems: Seq<SynNode>,
    out: Seq<UnionOrObjectType>,
    e: SynNode,
)
    requires
        parses_as_decl_list(elems, out),
        e.kind != SynKind::ObjectExpr || decl_skipped(e),
    ensures
        parses_as_decl_list(elems.push(e), out),
    decreases elems.len(),
{
    if elems.len() == 0 {
        assert(elems.push(e)[0] == e);
        assert(elems.push(e).skip(1) =~= Seq::<SynNode>::empty());
        assert(parses_as_decl_list(Seq::<SynNode>::empty(), out));
        assert(parses_as_decl_list(elems.push(e).skip(1), out));
    } else {
        assert(elems.push(e)[0] == elems[0]);
        assert(elems.push(e).skip(1) =~= elems.skip(1).push(e));
        if elems[0].kind != SynKind::ObjectExpr || decl_skipped(elems[0]) {
            lemma_decl_list_snoc_dropped(elems.skip(1), out, e);
            assert(parses_as_decl_list(elems.push(e).skip(1), out));
        } else {
            lemma_decl_list_snoc_dropped(elems.skip(1), out.skip(1), e);
            assert(parses_as_decl_list(elems.push(e).skip(1), out.skip(1)));
        }
    }
}

/// The reading relation pins the whole list: two declaration lists read
/// from the same elements render to the same schema text.
pub proof fn lemma_decl_list_reading_determined(
    elems: Seq<SynNode>,
    out1: Seq<UnionOrObjectType>,
    out2: Seq<UnionOrObjectType>,
)
    requires
        parses_as_decl_list(elems, out1),
        parses_as_decl_list(elems, out2),
    ensures
        schema_rendered(out1) == schema_rendered(out2),
    decreases elems.len(),
{
    if elems.len() == 0 {
    } else if elems[0].kind != SynKind::ObjectExpr || decl_skipped(elems[0]) {
        lemma_decl_list_reading_determined(elems.skip(1), out1, out2);
    } else {
        lemma_decl_reading_determined(elems[0], out1[0], out2[0]);
        lemma_decl_list_reading_determined(elems.skip(1), out1.skip(1), out2.skip(1));
        assert(schema_rendered(out1) == out1[0].rendered() + schema_rendered(out1.skip(1)));
        assert(schema_rendered(out2) == out2[0].rendered() + schema_rendered(out2.skip(1)));
    }
}

/// Why reading the whole types property fails, when it does. A property
/// whose value is not an array is a structural mismatch: the expected
/// introspection-types array is absent.
pub open spec fn types_prop_err(n: SynNode) -> Option<Error> {
    if n.kind != SynKind::LiteralProp || n.children@.len() < 2 {
        Some(Error::UnexpectedShape)
    } else if n.children@[1].kind != SynKind::ArrayExpr {
        Some(Error::StructuralMismatch(Mismatch::MissingTypesArray))
    } else {
        decl_list_err(n.children@[1].children@)
    }
}

/// `out` is the reading of the types property `n`.
pub open spec fn parses_as_types_prop(n: SynNode, out: Seq<UnionOrObjectType>) -> bool {
    types_prop_err(n) is None && parses_as_decl_list(n.children@[1].children@, out)
}

/// Reads the introspection-types property: every object-literal element of
/// its array value that declares a union or an object, in source order.
#[verifier::loop_isolation(false)]
pub fn parse_types(obj: &SynNode) -> (r: Result<Vec<UnionOrObjectType>, Error>)
    ensures
        match r {
            Ok(ds) => parses_as_types_prop(*obj, ds@),
            Err(e) => types_prop_err(*obj) == Some(e),
        },
{
    if obj.kind != SynKind::LiteralProp || obj.children.len() < 2 {
        return Err(Error::UnexpectedShape);
    }
    let v = &obj.children[1];
    if v.kind != SynKind::ArrayExpr {
        return Err(Error::StructuralMismatch(Mismatch::MissingTypesArray));
    }
    let mut out: Vec<UnionOrObjectType> = Vec::new();
    let mut i: usize = 0;
    proof {
        assert(v.children@.skip(0) =~= v.children@);
        assert(v.children@.take(0) =~= Seq::<SynNode>::empty());
    }
    while i < v.children.len()
        invariant
            i <= v.children@.len(),
            decl_list_err(v.children@) == decl_list_err(v.children@.skip(i as int)),
            parses_as_decl_list(v.children@.take(i as int), out@),
        decreases v.children@.len() - i,
    {
        let e = &v.children[i];
        proof {
            assert(v.children@.skip(i as int)[0] == v.children@[i as int]);
            assert(v.children@.skip(i as int).skip(1) =~= v.children@.skip(i + 1));
            assert(v.children@.take(i as int).push(v.children@[i as int]) =~= v.children@.take(
                i + 1,
            ));
        }
        if e.kind == SynKind::ObjectExpr {
            match parse_type(e) {
                Err(err) => {
                    return Err(err);
                },
                Ok(Some(d)) => {
                    proof {
                        lemma_decl_list_snoc_kept(
                            v.children@.take(i as int),
                            out@,
                            v.children@[i as int],
                            d,
                        );
                    }
                    out.push(d);
                },
                Ok(None) => {
                    proof {
                        lemma_decl_list_snoc_dropped(
                            v.children@.take(i as int),
                            out@,
                            v.children@[i as int],
                        );
                    }
                },
            }
        } else {
            proof {
                lemma_decl_list_snoc_dropped(
                    v.children@.take(i as int),
                    out@,
                    v.children@[i as int],
                );
            }
        }
        i += 1;
    }
    proof {
        assert(v.children@.take(v.children@.len() as int) =~= v.children@);
        assert(v.children@.skip(v.children@.len() as int) =~= Seq::<SynNode>::empty());
    }
    Ok(out)
}

/// Recovers the schema type declarations from the root of a parsed chunk:
/// descend to the introspection-types property, then read it.
pub fn get_graphql_types(root: &SynNode) -> (r: Result<Vec<UnionOrObjectType>, Error>)
    ensures
        match r {
            Ok(ds) => nav(*root, types_prop_path()) is Ok && parses_as_types_prop(
                nav(*root, types_prop_path())->Ok_0,
                ds@,
            ),
            Err(e) => {
                ||| (nav(*root, types_prop_path()) is Err && e == Error::StructuralMismatch(
                    Mismatch::Step(nav(*root, types_prop_path())->Err_0 as usize),
                ))
                ||| (nav(*root, types_prop_path()) is Ok && types_prop_err(
                    nav(*root, types_prop_path())->Ok_0,
                ) == Some(e))
            },
        },
{
    let steps = types_prop_steps();
    let prop = match navigate(root, &steps) {
        Ok(p) => p,
        Err(e) => {
            return Err(e);
        },
    };
    parse_types(prop)
}

/// The SDL printer is deterministic: identical sequences of declarations
/// render to byte-identical text.
pub proof fn lemma_render_deterministic(ts: Seq<UnionOrObjectType>, r1: Seq<char>, r2: Seq<char>)
    requires
        r1 == schema_rendered(ts),
        r2 == schema_rendered(ts),
    ensures
        r1 == r2,
{
}

} // verus!
