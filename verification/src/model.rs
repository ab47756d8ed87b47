//! The model catalog: known model families, their wire identifiers and
//! per-model metadata.

use vstd::prelude::*;

verus! {

use crate::strutil::{spec_starts_with, str_starts_with};

/// A model the client can address: one of the known families, each with a
/// fixed wire identifier, or an open variant carrying an arbitrary name and
/// an optional token-count override.
#[derive(Clone, Debug, PartialEq)]
pub enum Model {
    Lyra3_5Vega,
    Lyra3Altair,
    Lyra3Vega,
    Lyra3Corvus,
    Custom { name: String, max_tokens: Option<usize> },
}

/// The mathematical value of a [`Model`]: the open variant's name as a
/// character sequence.
pub enum ModelV {
    Lyra3_5Vega,
    Lyra3Altair,
    Lyra3Vega,
    Lyra3Corvus,
    Custom { name: Seq<char>, max_tokens: Option<usize> },
}

impl View for Model {
    type V = ModelV;

    open spec fn view(&self) -> ModelV {
        match self {
            Model::Lyra3_5Vega => ModelV::Lyra3_5Vega,
            Model::Lyra3Altair => ModelV::Lyra3Altair,
            Model::Lyra3Vega => ModelV::Lyra3Vega,
            Model::Lyra3Corvus => ModelV::Lyra3Corvus,
            Model::Custom { name, max_tokens } => ModelV::Custom {
                name: name@,
                max_tokens: *max_tokens,
            },
        }
    }
}

/// The wire identifier of a model: fixed for each known family, the stored
/// name unchanged for the open variant.
pub open spec fn spec_model_id(m: ModelV) -> Seq<char> {
    match m {
        ModelV::Lyra3_5Vega => "lyra-3-5-vega-20240620"@,
        ModelV::Lyra3Altair => "lyra-3-altair-20240229"@,
        ModelV::Lyra3Vega => "lyra-3-vega-20240229"@,
        ModelV::Lyra3Corvus => "lyra-3-corvus-20240307"@,
        ModelV::Custom { name, .. } => name,
    }
}

/// The model an identifier denotes: family prefixes are tried in a fixed
/// priority order, the most specific first; anything unmatched becomes the
/// open variant with the identifier as its name and no override.
pub open spec fn spec_model_from_id(id: Seq<char>) -> ModelV {
    if spec_starts_with(id, "lyra-3-5-vega"@) {
        ModelV::Lyra3_5Vega
    } else if spec_starts_with(id, "lyra-3-altair"@) {
        ModelV::Lyra3Altair
    } else if spec_starts_with(id, "lyra-3-vega"@) {
        ModelV::Lyra3Vega
    } else if spec_starts_with(id, "lyra-3-corvus"@) {
        ModelV::Lyra3Corvus
    } else {
        ModelV::Custom { name: id, max_tokens: None }
    }
}

/// The display name of a model.
pub open spec fn spec_display_name(m: ModelV) -> Seq<char> {
    match m {
        ModelV::Lyra3_5Vega => "Lyra 3.5 Vega"@,
        ModelV::Lyra3Altair => "Lyra 3 Altair"@,
        ModelV::Lyra3Vega => "Lyra 3 Vega"@,
        ModelV::Lyra3Corvus => "Lyra 3 Corvus"@,
        ModelV::Custom { name, .. } => name,
    }
}

/// The maximum context size of a model: 200,000 for the known families and
/// whenever the open variant carries no positive override.
pub open spec fn spec_max_token_count(m: ModelV) -> usize {
    match m {
        ModelV::Custom { max_tokens: Some(n), .. } => if n > 0 {
            n
        } else {
            200_000
        },
        _ => 200_000,
    }
}

impl Model {
    /// Resolves a wire identifier to a model by prefix-matching the known
    /// family names in priority order; never fails, unmatched identifiers
    /// become the open variant unchanged.
    pub fn from_id(id: &str) -> (res: Model)
        ensures
            res@ == spec_model_from_id(id@),
    {
        if str_starts_with(id, "lyra-3-5-vega") {
            Model::Lyra3_5Vega
        } else if str_starts_with(id, "lyra-3-altair") {
            Model::Lyra3Altair
        } else if str_starts_with(id, "lyra-3-vega") {
            Model::Lyra3Vega
        } else if str_starts_with(id, "lyra-3-corvus") {
            Model::Lyra3Corvus
        } else {
            Model::Custom { name: id.to_owned(), max_tokens: None }
        }
    }

    /// The exact wire identifier of this model; never empty.
    pub fn id(&self) -> (res: &str)
        ensures
            res@ == spec_model_id(self@),
    {
        match self {
            Model::Lyra3_5Vega => "lyra-3-5-vega-20240620",
            Model::Lyra3Altair => "lyra-3-altair-20240229",
            Model::Lyra3Vega => "lyra-3-vega-20240229",
            Model::Lyra3Corvus => "lyra-3-corvus-20240307",
            Model::Custom { name, .. } => name.as_str(),
        }
    }

    /// The human-readable name of this model.
    pub fn display_name(&self) -> (res: &str)
        ensures
            res@ == spec_display_name(self@),
    {
        match self {
            Model::Lyra3_5Vega => "Lyra 3.5 Vega",
            Model::Lyra3Altair => "Lyra 3 Altair",
            Model::Lyra3Vega => "Lyra 3 Vega",
            Model::Lyra3Corvus => "Lyra 3 Corvus",
            Model::Custom { name, .. } => name.as_str(),
        }
    }

    /// The maximum context size of this model, in tokens; always positive.
    pub fn max_token_count(&self) -> (res: usize)
        ensures
            res == spec_max_token_count(self@),
            res > 0,
    {
        match self {
            Model::Lyra3_5Vega
            | Model::Lyra3Altair
            | Model::Lyra3Vega
            | Model::Lyra3Corvus => 200_000,
            Model::Custom { max_tokens, .. } => match max_tokens {
                Some(n) => if *n > 0 {
                    *n
                } else {
                    200_000
                },
                None => 200_000,
            },
        }
    }
}

/// Every known model family survives the round trip from its wire identifier
/// back through the catalog, and an identifier that matches no family is
/// absorbed into the open variant with its name unchanged.
pub proof fn lemma_model_id_round_trip(m: ModelV, id: Seq<char>)
    ensures
        !(m matches ModelV::Custom { .. }) ==> spec_model_from_id(spec_model_id(m)) == m,
        !spec_starts_with(id, "lyra-3-5-vega"@) && !spec_starts_with(id, "lyra-3-altair"@)
            && !spec_starts_with(id, "lyra-3-vega"@) && !spec_starts_with(id, "lyra-3-corvus"@)
            ==> spec_model_id(spec_model_from_id(id)) == id,
{
    reveal_strlit("lyra-3-5-vega");
    reveal_strlit("lyra-3-altair");
    reveal_strlit("lyra-3-vega");
    reveal_strlit("lyra-3-corvus");
    reveal_strlit("lyra-3-5-vega-20240620");
    reveal_strlit("lyra-3-altair-20240229");
    reveal_strlit("lyra-3-vega-20240229");
    reveal_strlit("lyra-3-corvus-20240307");
    assert(spec_starts_with("lyra-3-5-vega-20240620"@, "lyra-3-5-vega"@)) by {
        assert("lyra-3-5-vega-20240620"@.subrange(0, 13) =~= "lyra-3-5-vega"@);
    }
    assert(!spec_starts_with("lyra-3-altair-20240229"@, "lyra-3-5-vega"@)) by {
        lemma_differs_at("lyra-3-altair-20240229"@, "lyra-3-5-vega"@, 9);
    }
    assert(spec_starts_with("lyra-3-altair-20240229"@, "lyra-3-altair"@)) by {
        assert("lyra-3-altair-20240229"@.subrange(0, 13) =~= "lyra-3-altair"@);
    }
    assert(!spec_starts_with("lyra-3-vega-20240229"@, "lyra-3-5-vega"@)) by {
        lemma_differs_at("lyra-3-vega-20240229"@, "lyra-3-5-vega"@, 9);
    }
    assert(!spec_starts_with("lyra-3-vega-20240229"@, "lyra-3-altair"@)) by {
        lemma_differs_at("lyra-3-vega-20240229"@, "lyra-3-altair"@, 9);
    }
    assert(spec_starts_with("lyra-3-vega-20240229"@, "lyra-3-vega"@)) by {
        assert("lyra-3-vega-20240229"@.subrange(0, 11) =~= "lyra-3-vega"@);
    }
    assert(!spec_starts_with("lyra-3-corvus-20240307"@, "lyra-3-5-vega"@)) by {
        lemma_differs_at("lyra-3-corvus-20240307"@, "lyra-3-5-vega"@, 9);
    }
    assert(!spec_starts_with("lyra-3-corvus-20240307"@, "lyra-3-altair"@)) by {
        lemma_differs_at("lyra-3-corvus-20240307"@, "lyra-3-altair"@, 9);
    }
    assert(!spec_starts_with("lyra-3-corvus-20240307"@, "lyra-3-vega"@)) by {
        lemma_differs_at("lyra-3-corvus-20240307"@, "lyra-3-vega"@, 9);
    }
    assert(spec_starts_with("lyra-3-corvus-20240307"@, "lyra-3-corvus"@)) by {
        assert("lyra-3-corvus-20240307"@.subrange(0, 13) =~= "lyra-3-corvus"@);
    }
}

/// A sequence whose character at `i` differs from the candidate prefix's
/// character there does not begin with that prefix.
proof fn lemma_differs_at(s: Seq<char>, p: Seq<char>, i: int)
    requires
        0 <= i < p.len(),
        i < s.len() ==> s[i] != p[i],
    ensures
        !spec_starts_with(s, p),
{
    if spec_starts_with(s, p) {
        assert(s.subrange(0, p.len() as int)[i] == p[i]);
    }
}

} // verus!
