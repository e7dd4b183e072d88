//! The runtime that executes on the host: how its feature switches become
//! overrides of the configuration.

use vstd::prelude::*;
use crate::text::{lemma_texts_push, texts};

verus! {

pub open spec fn override_of(feature: Seq<char>, enabled: bool) -> Seq<char> {
    "features."@ + feature + (if enabled {
        "=true"@
    } else {
        "=false"@
    })
}

/// The overrides: those given, then one for each feature switched on, then one
/// for each switched off.
pub open spec fn overrides(
    given: Seq<Seq<char>>,
    enable: Seq<Seq<char>>,
    disable: Seq<Seq<char>>,
) -> Seq<Seq<char>> {
    given + enable.map_values(|f: Seq<char>| override_of(f, true)) + disable.map_values(
        |f: Seq<char>| override_of(f, false),
    )
}

fn push_overrides(raw: &mut Vec<String>, features: &Vec<String>, enabled: bool)
    ensures
        texts(final(raw)@) == texts(old(raw)@) + texts(features@).map_values(
            |f: Seq<char>| override_of(f, enabled),
        ),
{
    broadcast use lemma_texts_push;

    let ghost start = texts(raw@);
    let ghost added = texts(features@).map_values(|f: Seq<char>| override_of(f, enabled));
    let mut i: usize = 0;
    assert(start + added.take(0) =~= start);
    while i < features.len()
        invariant
            i <= features.len(),
            added == texts(features@).map_values(|f: Seq<char>| override_of(f, enabled)),
            texts(raw@) == start + added.take(i as int),
        decreases features.len() - i,
    {
        let mut text = "features.".to_owned();
        text.push_str(&features[i]);
        if enabled {
            text.push_str("=true");
        } else {
            text.push_str("=false");
        }
        assert(added[i as int] == text@);
        assert(start + added.take(i as int + 1) =~= (start + added.take(i as int)).push(
            added[i as int],
        ));
        raw.push(text);
        i = i + 1;
    }
    assert(added.take(i as int) =~= added);
}

/// Adds the overrides that the feature switches stand for.
pub fn feature_overrides(raw: Vec<String>, enable: &Vec<String>, disable: &Vec<String>) -> (r: Vec<
    String,
>)
    ensures
        texts(r@) == overrides(texts(raw@), texts(enable@), texts(disable@)),
{
    let mut raw = raw;
    push_overrides(&mut raw, enable, true);
    push_overrides(&mut raw, disable, false);
    raw
}

} // verus!
