//! The records of the model store, as the engine reads them.

pub mod models;

use vstd::prelude::*;
use vstd::string::StrSliceExecFns;
use vstd::string::StringExecFns;
use crate::text::{ends_with_text, is_suffix, lowercase, lowercase_text};

verus! {

/// A text without the copies of `suffix` that it ends with.
pub open spec fn without_trailing(text: Seq<char>, suffix: Seq<char>) -> Seq<char>
    decreases text.len(),
{
    if suffix.len() > 0 && is_suffix(text, suffix) {
        without_trailing(text.take(text.len() - suffix.len()), suffix)
    } else {
        text
    }
}

/// A text with an underscore in place of each space.
pub open spec fn underscored(text: Seq<char>) -> Seq<char> {
    Seq::new(text.len(), |i: int| if text[i] == ' ' { '_' } else { text[i] })
}

/// The id under which a model file that ships with the server is
/// registered: `character_`, then the name of the file without its
/// `.glb` ending, in lower case, with underscores for spaces.
pub open spec fn test_model_id_text(file_name: Seq<char>) -> Seq<char> {
    "character_"@ + underscored(lowercase_text(without_trailing(file_name, ".glb"@)))
}

/// The id under which a model file that ships with the server is registered.
pub fn test_model_id(file_name: &str) -> (id: String)
    ensures
        id@ == test_model_id_text(file_name@),
{
    proof {
        reveal_strlit(".glb");
    }
    let mut stem: &str = file_name;
    while ends_with_text(stem, ".glb")
        invariant
            ".glb"@.len() == 4,
            without_trailing(stem@, ".glb"@) == without_trailing(file_name@, ".glb"@),
        decreases stem@.len(),
    {
        let n = stem.unicode_len();
        stem = stem.substring_char(0, n - 4);
    }
    let lower = lowercase(stem);
    let mut id = "character_".to_owned();
    let n = lower.as_str().unicode_len();
    let mut i: usize = 0;
    while i < n
        invariant
            n == lower@.len(),
            i <= n,
            id@ == "character_"@ + underscored(lower@).take(i as int),
        decreases n - i,
    {
        let c = lower.as_str().get_char(i);
        let ghost before = id@;
        if c == ' ' {
            id.append("_");
            proof {
                reveal_strlit("_");
                assert("_"@ =~= seq!['_']);
            }
        } else {
            id.push(c);
        }
        proof {
            assert(underscored(lower@).take(i + 1) =~= underscored(lower@).take(i as int).push(
                underscored(lower@)[i as int],
            ));
            assert(id@ =~= "character_"@ + underscored(lower@).take(i + 1));
        }
        i += 1;
    }
    proof {
        assert(underscored(lower@).take(n as int) =~= underscored(lower@));
    }
    id
}

} // verus!
