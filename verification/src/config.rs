//! Upstream provider records and their resolution: the first record whose
//! `id` equals the path identifier wins; no prefix or partial matching.

use vstd::prelude::*;

verus! {

/// One configured upstream provider record, immutable for the duration of
/// a single request.
pub struct ModelConfig {
    /// The unique key selected by the inbound path identifier.
    pub id: String,
    /// The model name written into eligible JSON bodies, when present.
    pub model: Option<String>,
    /// The upstream base URL; a record without one is misconfigured.
    pub base_url: Option<String>,
    /// The credential injected as a bearer `authorization` header.
    pub api_key: Option<String>,
}

/// The first record in `s` whose `id` equals `id`.
pub open spec fn spec_find(s: Seq<ModelConfig>, id: Seq<char>) -> Option<ModelConfig>
    decreases s.len(),
{
    if s.len() == 0 {
        None
    } else if s[0].id@ == id {
        Some(s[0])
    } else {
        spec_find(s.drop_first(), id)
    }
}

/// Looks up the first record whose `id` equals `identifier`: whole-key
/// equality against the freshly loaded list.
pub fn find_config<'a>(configs: &'a Vec<ModelConfig>, identifier: &String) -> (r: Option<
    &'a ModelConfig,
>)
    ensures
        (match r {
            Some(c) => spec_find(configs@, identifier@) == Some(*c),
            None => spec_find(configs@, identifier@) is None,
        }),
{
    let mut i: usize = 0;
    proof {
        assert(configs@.skip(0) =~= configs@);
    }
    while i < configs.len()
        invariant
            i <= configs@.len(),
            spec_find(configs@, identifier@) == spec_find(configs@.skip(i as int), identifier@),
        decreases configs@.len() - i,
    {
        if configs[i].id == *identifier {
            proof {
                assert(configs@.skip(i as int)[0] == configs@[i as int]);
            }
            return Some(&configs[i]);
        }
        proof {
            assert(configs@.skip(i as int)[0] == configs@[i as int]);
            assert(configs@.skip(i as int).drop_first() =~= configs@.skip(i as int + 1));
        }
        i += 1;
    }
    None
}

} // verus!
