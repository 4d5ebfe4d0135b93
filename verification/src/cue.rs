//! Cue metadata: the compact slug sent by the control surface, parsed into
//! structured cue information, and the per-cue record a sequence keeps.

use vstd::prelude::*;

use crate::error::BridgeError;
use crate::text::{joined, split_tokens, tokens_of};

verus! {

/// Structured cue metadata parsed from a slug. `number` is non-empty for
/// every value this module constructs; `name` may be empty if the slug held
/// only a sequence name and a number.
#[derive(Debug)]
pub struct CueInfo {
    pub number: String,
    pub name: String,
    pub sequence_name: String,
}

/// The mathematical content of a `CueInfo`.
pub struct CueInfoV {
    pub number: Seq<char>,
    pub name: Seq<char>,
    pub sequence_name: Seq<char>,
}

impl View for CueInfo {
    type V = CueInfoV;

    open spec fn view(&self) -> CueInfoV {
        CueInfoV { number: self.number@, name: self.name@, sequence_name: self.sequence_name@ }
    }
}

/// What parsing a slug yields: the first token is the sequence name, the
/// second the cue number, and the remaining tokens joined with single spaces
/// form the cue name. Fewer than two tokens is a parse error.
pub open spec fn parse_cue_info_spec(slug: Seq<char>) -> Result<CueInfoV, BridgeError> {
    let toks = tokens_of(slug);
    if toks.len() < 2 {
        Err(BridgeError::ParseError)
    } else {
        Ok(CueInfoV { number: toks[1], name: joined(toks.skip(2)), sequence_name: toks[0] })
    }
}

/// Parses a cue slug into structured cue metadata.
///
/// The slug format is defined by the upstream control surface: tokens are the
/// maximal space-separated runs, the first being the sequence name and the
/// second the cue number; everything after them, rejoined with single spaces,
/// is the cue display name (possibly empty).
pub fn parse_cue_info(cue_slug: String) -> (r: Result<CueInfo, BridgeError>)
    ensures
        r matches Ok(ci) ==> parse_cue_info_spec(cue_slug@) == Ok::<CueInfoV, BridgeError>(ci@),
        r matches Err(e) ==> parse_cue_info_spec(cue_slug@) == Err::<CueInfoV, BridgeError>(e)
            && e == BridgeError::ParseError,
{
    let mut toks = split_tokens(cue_slug.as_str());
    let ghost tv: Seq<Seq<char>> = tokens_of(cue_slug@);
    if toks.len() < 2 {
        return Err(BridgeError::ParseError);
    }
    let sequence_name = toks.remove(0);
    let number = toks.remove(0);
    proof {
        assert(toks@.map_values(|t: String| t@) =~= tv.skip(2));
    }
    let mut name = String::new();
    let remaining = toks.len();
    let mut i: usize = 0;
    while i < remaining
        invariant
            0 <= i <= remaining,
            remaining == toks@.len(),
            toks@.map_values(|t: String| t@) =~= tv.skip(2),
            name@ == joined(tv.skip(2).take(i as int)),
        decreases remaining - i,
    {
        proof {
            crate::text::lemma_joined_push(tv.skip(2).take(i as int), tv.skip(2)[i as int]);
            assert(tv.skip(2).take(i + 1) =~= tv.skip(2).take(i as int).push(tv.skip(2)[i as int]));
        }
        if i > 0 {
            name.append(" ");
            proof {
                reveal_strlit(" ");
                assert(" "@ =~= seq![' ']);
            }
        }
        name.append(toks[i].as_str());
        proof {
            assert(toks@[i as int]@ == tv.skip(2)[i as int]);
            if i > 0 {
                assert(name@ =~= joined(tv.skip(2).take(i + 1)));
            } else {
                assert(name@ =~= joined(tv.skip(2).take(1)));
            }
        }
        i += 1;
    }
    proof {
        assert(tv.skip(2).take(tv.skip(2).len() as int) =~= tv.skip(2));
    }
    Ok(CueInfo { number, name, sequence_name })
}

/// One distinct cue number within a sequence. Its identity is its number,
/// immutable after creation; the remote representation that carries its
/// display name is keyed by the owning sequence's id and this number.
pub struct Cue {
    pub number: String,
}

impl Cue {
    /// Creates the record for a newly sighted cue number.
    pub fn new(cue_info: &CueInfo) -> (r: Cue)
        ensures
            r.number@ == cue_info@.number,
    {
        Cue { number: cue_info.number.clone() }
    }
}

} // verus!
