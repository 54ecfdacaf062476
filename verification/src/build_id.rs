//! The build identifier resolver: a narrow textual scan over the site's
//! root document. Find the marker token, scan forward to a colon, then to
//! an opening quote; the text up to the next quote is the build id.

use vstd::prelude::*;

use crate::errors::Error;
use crate::text::{find_char, find_char_from, find_pat_from, find_sub};

verus! {

/// A found character index lies between the start of the search and the
/// end of the text, and holds the sought character.
pub proof fn lemma_find_char_bounds(s: Seq<char>, c: char, from: int)
    requires
        find_char_from(s, c, from) is Some,
    ensures
        from <= find_char_from(s, c, from)->Some_0 < s.len(),
        s[find_char_from(s, c, from)->Some_0] == c,
    decreases s.len() - from,
{
    if from < 0 || from >= s.len() {
    } else if s[from] == c {
    } else {
        lemma_find_char_bounds(s, c, from + 1);
    }
}

/// A found pattern index lies between the start of the search and the end
/// of the text.
pub proof fn lemma_find_pat_bounds(s: Seq<char>, pat: Seq<char>, from: int)
    requires
        find_pat_from(s, pat, from) is Some,
    ensures
        from <= find_pat_from(s, pat, from)->Some_0,
        find_pat_from(s, pat, from)->Some_0 + pat.len() <= s.len(),
    decreases s.len() + 1 - from,
{
    if from < 0 || from + pat.len() > s.len() {
    } else if find_pat_from(s, pat, from) == Some(from) {
    } else {
        lemma_find_pat_bounds(s, pat, from + 1);
    }
}

/// The scan of the build identifier resolver. The marker must occur; a
/// colon is sought from the marker on, an opening quote after the colon,
/// and the next quote after the opening one closes it; the enclosed text,
/// possibly empty, is the build id. A missing marker is `NotFound`; a scan
/// that runs past the end of the text is `ParseError`.
pub open spec fn build_id_spec(t: Seq<char>) -> Result<Seq<char>, Error> {
    match find_pat_from(t, "buildId"@, 0) {
        None => Err(Error::NotFound),
        Some(m) => match find_char_from(t, ':', m) {
            None => Err(Error::ParseError),
            Some(c) => match find_char_from(t, '"', c + 1) {
                None => Err(Error::ParseError),
                Some(q1) => match find_char_from(t, '"', q1 + 1) {
                    None => Err(Error::ParseError),
                    Some(q2) => Ok(t.subrange(q1 + 1, q2)),
                },
            },
        },
    }
}

/// Recovers the build identifier from the root document's text.
pub fn get_current_build_id(t: &str) -> (r: Result<String, Error>)
    ensures
        match r {
            Ok(id) => build_id_spec(t@) == Ok::<Seq<char>, Error>(id@),
            Err(e) => build_id_spec(t@) == Err::<Seq<char>, Error>(e),
        },
{
    // Binds the text's length to a machine word, so that the scan's
    // successor indices cannot overflow.
    let _n = t.unicode_len();
    let m = match find_sub(t, "buildId", 0) {
        Some(m) => m,
        None => {
            return Err(Error::NotFound);
        },
    };
    proof {
        lemma_find_pat_bounds(t@, "buildId"@, 0);
    }
    let c = match find_char(t, ':', m) {
        Some(c) => c,
        None => {
            return Err(Error::ParseError);
        },
    };
    proof {
        lemma_find_char_bounds(t@, ':', m as int);
    }
    let q1 = match find_char(t, '"', c + 1) {
        Some(q) => q,
        None => {
            return Err(Error::ParseError);
        },
    };
    proof {
        lemma_find_char_bounds(t@, '"', c + 1);
    }
    let q2 = match find_char(t, '"', q1 + 1) {
        Some(q) => q,
        None => {
            return Err(Error::ParseError);
        },
    };
    proof {
        lemma_find_char_bounds(t@, '"', q1 + 1);
    }
    Ok(t.substring_char(q1 + 1, q2).to_owned())
}

} // verus!
