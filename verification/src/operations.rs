//! The operation extractor: walks the operations list in order, stops at
//! the `!` sentinel that ends the data section, and normalizes each
//! document literal on the way.

use vstd::prelude::*;

use crate::errors::{Error, Mismatch};
use crate::navigate::{document_path, document_steps, nav, navigate, operations_list_path,
    operations_list_steps};
use crate::text::{join_with, join_strings, remove_quotes, replace_pair, replace_pair_str,
    strip_quotes, trim_spec, trim_str};
use crate::tree::{SynNode, TokKind};

verus! {

/// The normalization of one raw document literal: quote characters
/// removed, escaped newline sequences made real newlines, double spaces
/// made tabs, and the ends trimmed.
pub open spec fn normalize_doc(raw: Seq<char>) -> Seq<char> {
    trim_spec(replace_pair(replace_pair(strip_quotes(raw), '\\', 'n', '\n'), ' ', ' ', '\t'))
}

/// Normalizes one raw document literal.
pub fn normalize_document(raw: &str) -> (r: String)
    ensures
        r@ == normalize_doc(raw@),
{
    let unquoted = remove_quotes(raw);
    let newlines = replace_pair_str(unquoted.as_str(), '\\', 'n', '\n');
    let tabs = replace_pair_str(newlines.as_str(), ' ', ' ', '\t');
    trim_str(tabs.as_str())
}

/// The sentinel that separates the data section of the operations list
/// from the unrelated code after it.
pub open spec fn is_sentinel(n: SynNode) -> bool {
    n.first_token == TokKind::Bang
}

/// The documents of the elements from index `i` up to the first sentinel:
/// the sentinel and everything after it contribute nothing, a list that
/// ends without a sentinel is a mismatch, and so is an element without its
/// document literal.
pub open spec fn extract_ops_from(elems: Seq<SynNode>, i: int) -> Result<Seq<Seq<char>>, Error>
    decreases elems.len() - i,
{
    if i < 0 || i >= elems.len() {
        Err(Error::StructuralMismatch(Mismatch::MissingSentinel))
    } else if is_sentinel(elems[i]) {
        Ok(Seq::empty())
    } else {
        match nav(elems[i], document_path()) {
            Err(_) => Err(Error::StructuralMismatch(Mismatch::OperationShape)),
            Ok(lit) => match extract_ops_from(elems, i + 1) {
                Ok(rest) => Ok(seq![normalize_doc(lit.text@)] + rest),
                Err(e) => Err(e),
            },
        }
    }
}

/// The whole operations list: its first two elements are bundle preamble
/// and are skipped.
pub open spec fn spec_extract_operations(mo: SynNode) -> Result<Seq<Seq<char>>, Error> {
    extract_ops_from(mo.children@, 2)
}

/// Extracts the operation documents from the operations-list node, in
/// source order, stopping at the sentinel without reading past it.
#[verifier::loop_isolation(false)]
pub fn extract_operations(mo: &SynNode) -> (r: Result<Vec<String>, Error>)
    ensures
        match r {
            Ok(docs) => spec_extract_operations(*mo) == Ok::<Seq<Seq<char>>, Error>(
                docs.deep_view(),
            ),
            Err(e) => spec_extract_operations(*mo) == Err::<Seq<Seq<char>>, Error>(e),
        },
{
    let steps = document_steps();
    let mut out: Vec<String> = Vec::new();
    let mut i: usize = 2;
    proof {
        if extract_ops_from(mo.children@, 2) is Ok {
            assert(out.deep_view() + extract_ops_from(mo.children@, 2)->Ok_0
                =~= extract_ops_from(mo.children@, 2)->Ok_0);
        }
    }
    while i < mo.children.len()
        invariant
            2 <= i,
            match extract_ops_from(mo.children@, i as int) {
                Ok(rest) => extract_ops_from(mo.children@, 2) == Ok::<Seq<Seq<char>>, Error>(
                    out.deep_view() + rest,
                ),
                Err(e) => extract_ops_from(mo.children@, 2) == Err::<Seq<Seq<char>>, Error>(e),
            },
        decreases mo.children@.len() - i,
    {
        let m = &mo.children[i];
        if m.first_token == TokKind::Bang {
            proof {
                assert(out.deep_view() + Seq::<Seq<char>>::empty() =~= out.deep_view());
            }
            return Ok(out);
        }
        let lit = match navigate(m, &steps) {
            Ok(l) => l,
            Err(_) => {
                return Err(Error::StructuralMismatch(Mismatch::OperationShape));
            },
        };
        let doc = normalize_document(lit.text.as_str());
        let ghost prev_dv = out.deep_view();
        out.push(doc);
        proof {
            let elems = mo.children@;
            let d = normalize_doc(lit.text@);
            assert(out.deep_view() =~= prev_dv.push(d));
            if extract_ops_from(elems, i + 1) is Ok {
                let rest = extract_ops_from(elems, i + 1)->Ok_0;
                assert(extract_ops_from(elems, i as int) == Ok::<Seq<Seq<char>>, Error>(
                    seq![d] + rest,
                ));
                assert(prev_dv + (seq![d] + rest) =~= prev_dv.push(d) + rest);
            } else {
                assert(extract_ops_from(elems, i as int) == extract_ops_from(elems, i + 1));
            }
        }
        i += 1;
    }
    Err(Error::StructuralMismatch(Mismatch::MissingSentinel))
}

/// The computed part of recovering the operation documents from a parsed
/// chunk: descend to the operations list, then extract.
pub open spec fn spec_queries(root: SynNode) -> Result<Seq<Seq<char>>, Error> {
    match nav(root, operations_list_path()) {
        Err(i) => Err(Error::StructuralMismatch(Mismatch::Step(i as usize))),
        Ok(mo) => spec_extract_operations(mo),
    }
}

/// Recovers the operation documents from the root of a parsed chunk.
pub fn get_graphql_queries(root: &SynNode) -> (r: Result<Vec<String>, Error>)
    ensures
        match r {
            Ok(docs) => spec_queries(*root) == Ok::<Seq<Seq<char>>, Error>(docs.deep_view()),
            Err(e) => spec_queries(*root) == Err::<Seq<Seq<char>>, Error>(e),
        },
{
    let steps = operations_list_steps();
    let mo = match navigate(root, &steps) {
        Ok(m) => m,
        Err(e) => {
            return Err(e);
        },
    };
    extract_operations(mo)
}

/// Joins recovered documents with one blank line between them.
pub fn join_documents(docs: &Vec<String>) -> (r: String)
    ensures
        r@ == join_with(docs.deep_view(), "\n\n"@),
{
    join_strings(docs, "\n\n")
}

/// The sentinel truncates extraction: a list whose data section holds two
/// extractable elements before the sentinel yields exactly their two
/// documents, in order, whatever stands at or after the sentinel.
pub proof fn lemma_sentinel_ends_extraction(
    mo: SynNode,
    e1: SynNode,
    e2: SynNode,
    s: SynNode,
    e3: SynNode,
)
    requires
        mo.children@.len() == 6,
        mo.children@[2] == e1,
        mo.children@[3] == e2,
        mo.children@[4] == s,
        mo.children@[5] == e3,
        !is_sentinel(e1),
        !is_sentinel(e2),
        is_sentinel(s),
        nav(e1, document_path()) is Ok,
        nav(e2, document_path()) is Ok,
    ensures
        spec_extract_operations(mo) == Ok::<Seq<Seq<char>>, Error>(
            seq![
                normalize_doc(nav(e1, document_path())->Ok_0.text@),
                normalize_doc(nav(e2, document_path())->Ok_0.text@),
            ],
        ),
{
    let elems = mo.children@;
    let d1 = normalize_doc(nav(e1, document_path())->Ok_0.text@);
    let d2 = normalize_doc(nav(e2, document_path())->Ok_0.text@);
    assert(extract_ops_from(elems, 4) == Ok::<Seq<Seq<char>>, Error>(Seq::empty()));
    assert(extract_ops_from(elems, 3) == Ok::<Seq<Seq<char>>, Error>(seq![d2] + Seq::<Seq<
        char,
    >>::empty()));
    assert(seq![d2] + Seq::<Seq<char>>::empty() =~= seq![d2]);
    assert(extract_ops_from(elems, 2) == Ok::<Seq<Seq<char>>, Error>(seq![d1] + seq![d2]));
    assert(seq![d1] + seq![d2] =~= seq![d1, d2]);
}

} // verus!
