//! Interpretation of a fetched payload. Three shapes are recognized, tried
//! in order: a structured JSON document with a `trackers` field holding a
//! list of strings; comma-separated flat text; blank-line-separated flat
//! text. The first shape that applies wins; a payload matching none of the
//! three fails.

use vstd::prelude::*;
use crate::text::{views, spec_find, spec_split, split_str, find_from};
use crate::sources::partition_sources;
use crate::trackers::{TrackerCollection, batch_views, spec_merge, merge_trackers};

verus! {

/// The list of strings under the `trackers` field, when the payload is one
/// valid JSON document of that shape; nothing otherwise. The result depends
/// on the payload text alone.
pub uninterp spec fn trackers_doc_of(text: Seq<char>) -> Option<Seq<Seq<char>>>;

/// Relies on serde_json::from_str::<Value> to parse the payload as one JSON
/// document, and on Value::get / Value::as_array / Value::as_str to read a
/// `trackers` field holding an array of strings; yields the strings exactly
/// when the document has that shape.
#[verifier::external_body]
fn parse_trackers_json(text: &str) -> (r: Option<Vec<String>>)
    ensures
        match r {
            Some(v) => trackers_doc_of(text@) == Some(views(v@)),
            None => trackers_doc_of(text@) is None,
        },
{
    let doc: serde_json::Value = match serde_json::from_str(text) {
        Ok(v) => v,
        Err(_) => return None,
    };
    let arr = doc.get("trackers")?.as_array()?;
    let mut out: Vec<String> = Vec::new();
    for item in arr {
        out.push(item.as_str()?.to_string());
    }
    Some(out)
}

/// Why a fetched payload was rejected.
#[derive(Clone, Copy, Debug, PartialEq, Eq, Structural)]
pub enum ParseError {
    /// The payload matches none of the three recognized shapes.
    UnrecognizedFormat,
}

/// What the three-shape policy makes of a payload: the strings of a JSON
/// `trackers` document if the payload is one; otherwise the pieces between
/// commas if it holds a comma; otherwise the pieces between blank lines if
/// it holds a blank line; otherwise nothing.
pub open spec fn spec_parse(text: Seq<char>) -> Option<Seq<Seq<char>>> {
    match trackers_doc_of(text) {
        Some(l) => Some(l),
        None => if spec_find(text, ","@, 0) is Some {
            Some(spec_split(text, ","@))
        } else if spec_find(text, "\n\n"@, 0) is Some {
            Some(spec_split(text, "\n\n"@))
        } else {
            None::<Seq<Seq<char>>>
        },
    }
}

/// Resolves one fetched payload into tracker strings per the three-shape
/// policy: a JSON `trackers` document wins outright; otherwise text holding
/// a comma is split at every comma; otherwise text holding a blank line is
/// split at every blank line; anything else is rejected.
pub fn parse_tracker(text: &str) -> (r: Result<Vec<String>, ParseError>)
    ensures
        match r {
            Ok(v) => spec_parse(text@) == Some(views(v@)),
            Err(e) => e == ParseError::UnrecognizedFormat && spec_parse(text@) is None,
        },
{
    proof {
        reveal_strlit(",");
        reveal_strlit("\n\n");
    }
    match parse_trackers_json(text) {
        Some(v) => {
            return Ok(v);
        },
        None => {},
    }
    if find_from(text, ",", 0).is_some() {
        return Ok(split_str(text, ","));
    }
    if find_from(text, "\n\n", 0).is_some() {
        return Ok(split_str(text, "\n\n"));
    }
    Err(ParseError::UnrecognizedFormat)
}

/// Resolves every fetched payload, all or nothing: one payload that
/// matches no recognized shape fails the whole batch, with no partial
/// result.
pub fn parse_all(bodies: &Vec<String>) -> (r: Result<Vec<Vec<String>>, ParseError>)
    ensures
        match r {
            Ok(batches) => batches@.len() == bodies@.len() && forall|i: int|
                0 <= i < bodies@.len() ==> spec_parse(bodies@[i]@) == Some(
                    views(#[trigger] batches@[i]@),
                ),
            Err(e) => e == ParseError::UnrecognizedFormat && exists|i: int|
                0 <= i < bodies@.len() && spec_parse(#[trigger] bodies@[i]@) is None,
        },
{
    let mut batches: Vec<Vec<String>> = Vec::new();
    let mut i: usize = 0;
    while i < bodies.len()
        invariant
            i <= bodies@.len(),
            batches@.len() == i,
            forall|k: int|
                0 <= k < i ==> spec_parse(bodies@[k]@) == Some(views(#[trigger] batches@[k]@)),
        decreases bodies@.len() - i,
    {
        match parse_tracker(bodies[i].as_str()) {
            Ok(v) => {
                batches.push(v);
            },
            Err(e) => {
                return Err(e);
            },
        }
        i = i + 1;
    }
    Ok(batches)
}

/// The resolved batches of a list of payloads that all parse; a payload
/// that does not parse stands as an empty batch.
pub open spec fn spec_parsed(bodies: Seq<Seq<char>>) -> Seq<Seq<Seq<char>>> {
    bodies.map_values(
        |b: Seq<char>|
            match spec_parse(b) {
                Some(l) => l,
                None => Seq::<Seq<char>>::empty(),
            },
    )
}

/// The fetch-and-merge pipeline after the network: partitions the
/// configured descriptors, resolves the payload fetched for each fetchable
/// reference, and merges the literal trackers with every resolved batch
/// into one deduplicated collection. One unrecognized payload fails the
/// whole operation.
pub fn assemble_trackers(sources: &Vec<String>, bodies: &Vec<String>) -> (r: Result<
    TrackerCollection,
    ParseError,
>)
    ensures
        match r {
            Ok(ts) => ts.wf() && (forall|i: int|
                0 <= i < bodies@.len() ==> spec_parse(#[trigger] bodies@[i]@) is Some) && ts@
                == spec_merge(
                crate::sources::spec_literals(views(sources@)),
                spec_parsed(views(bodies@)),
            ),
            Err(e) => e == ParseError::UnrecognizedFormat && exists|i: int|
                0 <= i < bodies@.len() && spec_parse(#[trigger] bodies@[i]@) is None,
        },
{
    let (literals, _fetchables) = partition_sources(sources);
    let batches = match parse_all(bodies) {
        Ok(b) => b,
        Err(e) => {
            return Err(e);
        },
    };
    let ts = merge_trackers(&literals, &batches);
    proof {
        assert forall|i: int| 0 <= i < bodies@.len() implies batch_views(batches@)[i]
            == spec_parsed(views(bodies@))[i] by {
            assert(spec_parse(bodies@[i]@) == Some(views(batches@[i]@)));
        }
        assert(batch_views(batches@) =~= spec_parsed(views(bodies@)));
        assert forall|i: int| 0 <= i < bodies@.len() implies spec_parse(
            #[trigger] bodies@[i]@,
        ) is Some by {
            assert(spec_parse(bodies@[i]@) == Some(views(batches@[i]@)));
        }
    }
    Ok(ts)
}

} // verus!
