//! The one entry point for both URI forms.

use crate::codec::form_pairs;
use crate::config::{outcome_view, well_formed, SSConfig, SSConfigView, SSParseError};
use crate::extra::{collected, lemma_collected_distinct};
use crate::legacy::legacy_outcome;
use crate::padding::without_unsafe_padding;
use crate::sip002::{query_of_parts, sip002_outcome};
use crate::uri::uri_parts;
use vstd::prelude::*;

verus! {

/// What parsing a text in either form gives: what the structured form
/// gives where that succeeds, else what the older form gives where that
/// succeeds, else the error of the structured form.
pub open spec fn parse_outcome(text: Seq<char>) -> Result<SSConfigView, SSParseError> {
    match sip002_outcome(text) {
        Ok(config) => Ok(config),
        Err(e) => match legacy_outcome(text) {
            Ok(config) => Ok(config),
            Err(_) => Err(e),
        },
    }
}

/// A text that only the older form accepts is parsed as the older form
/// parses it, and a text that neither form accepts gets the error of the
/// structured form.
pub proof fn lemma_fallback_precedence(text: Seq<char>)
    ensures
        sip002_outcome(text) is Ok ==> parse_outcome(text) == sip002_outcome(text),
        sip002_outcome(text) is Err && legacy_outcome(text) is Ok ==> parse_outcome(text)
            == legacy_outcome(text),
        sip002_outcome(text) is Err && legacy_outcome(text) is Err ==> parse_outcome(text)
            == sip002_outcome(text),
{
}

/// Whatever form a text is parsed in, the configuration that comes out
/// has its metadata absent or with an entry, and no key twice.
pub proof fn lemma_outcome_well_formed(text: Seq<char>)
    ensures
        sip002_outcome(text) matches Ok(c) ==> well_formed(c),
        legacy_outcome(text) matches Ok(c) ==> well_formed(c),
        parse_outcome(text) matches Ok(c) ==> well_formed(c),
{
    match uri_parts(without_unsafe_padding(text)) {
        Some(parts) => {
            lemma_collected_distinct(form_pairs(query_of_parts(parts)));
        },
        None => {},
    }
}

impl SSConfig {
    /// Parses a URI of either form: the structured form is tried first and
    /// the older form second. Where both refuse the text, the error is that
    /// of the structured form.
    pub fn parse(s: &str) -> (r: Result<SSConfig, SSParseError>)
        ensures
            outcome_view(r) == parse_outcome(s@),
            r matches Ok(c) ==> c.wf(),
    {
        match Self::parse_sip002(s) {
            Ok(config) => Ok(config),
            Err(e) => match Self::parse_legacy_base64(s) {
                Ok(config) => Ok(config),
                Err(_) => Err(e),
            },
        }
    }
}

} // verus!
