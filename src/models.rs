//! Choosing the speech recognition model file from what the user asked for.
use vstd::prelude::*;
use vstd::string::*;
use crate::templates::{lookup, lookup_shared, shared_view};

verus! {

/// The known model names and the files that hold them.
pub open spec fn known_models() -> Seq<(Seq<char>, Seq<char>)> {
    seq![
        ("tiny"@, "ggml-tiny.bin"@),
        ("tiny.en"@, "ggml-tiny.en.bin"@),
        ("base"@, "ggml-base.bin"@),
        ("base.en"@, "ggml-base.en.bin"@),
        ("small"@, "ggml-small.bin"@),
        ("small.en"@, "ggml-small.en.bin"@),
        ("medium"@, "ggml-medium.bin"@),
        ("medium.en"@, "ggml-medium.en.bin"@),
        ("large"@, "ggml-large-v3-turbo.bin"@),
    ]
}

/// Where a model is to be taken from.
#[derive(Debug)]
pub enum ModelLocation {
    /// A model file that exists at the given path.
    Path(String),
    /// A known model, kept in the model cache under `filename`.
    Known { name: String, filename: String },
}

/// A model input that is neither an existing file nor a known model name.
#[derive(Debug)]
pub struct UnknownModel {
    pub input: String,
}

/// A table entry of owned strings.
fn entry(name: &str, file: &str) -> (r: (String, String))
    ensures
        r.0@ == name@,
        r.1@ == file@,
{
    (String::from_str(name), String::from_str(file))
}

/// The known models as pairs of name and file.
fn known_model_table() -> (r: Vec<(String, String)>)
    ensures
        shared_view(r@) == known_models(),
{
    let r = vec![
        entry("tiny", "ggml-tiny.bin"),
        entry("tiny.en", "ggml-tiny.en.bin"),
        entry("base", "ggml-base.bin"),
        entry("base.en", "ggml-base.en.bin"),
        entry("small", "ggml-small.bin"),
        entry("small.en", "ggml-small.en.bin"),
        entry("medium", "ggml-medium.bin"),
        entry("medium.en", "ggml-medium.en.bin"),
        entry("large", "ggml-large-v3-turbo.bin"),
    ];
    proof {
        assert(shared_view(r@) =~= known_models());
    }
    r
}

/// The file of the known model called `name`.
pub fn known_model_file(name: &str) -> (r: Option<String>)
    ensures
        r matches Some(f) ==> lookup(known_models(), name@) == Some(f@),
        r is None ==> lookup(known_models(), name@) is None,
{
    let table = known_model_table();
    lookup_shared(&table, &String::from_str(name))
}

/// Resolves what the user gave as the model: a path to an existing file
/// (`input_is_file`) is used as it is; otherwise it must name a known
/// model, which is then taken from its file in the model cache.
pub fn resolve_model_path(input: &str, input_is_file: bool) -> (r: Result<ModelLocation, UnknownModel>)
    ensures
        input_is_file ==> (r matches Ok(ModelLocation::Path(p)) && p@ == input@),
        !input_is_file ==> match lookup(known_models(), input@) {
            Some(f) => (r matches Ok(ModelLocation::Known { name, filename }) && name@ == input@
                && filename@ == f),
            None => r matches Err(e) && e.input@ == input@,
        },
{
    if input_is_file {
        return Ok(ModelLocation::Path(String::from_str(input)));
    }
    match known_model_file(input) {
        Some(filename) => Ok(ModelLocation::Known { name: String::from_str(input), filename }),
        None => Err(UnknownModel { input: String::from_str(input) }),
    }
}

} // verus!
