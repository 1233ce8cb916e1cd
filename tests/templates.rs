use sonica::effects::expand_effects;
use sonica::models::{known_model_file, resolve_model_path, ModelLocation};
use sonica::templates::{preprocess_imports, shader_imports, ShaderPaths};

fn names(v: &[&str]) -> Vec<String> {
    v.iter().map(|s| s.to_string()).collect()
}

#[test]
fn import_is_replaced_by_shared_source() {
    let src = "fn a() {}\n  // #import \"common.wgsl\"  \nfn b() {}";
    let shared = vec![("common.wgsl".to_string(), "fn common() {}".to_string())];
    let out = preprocess_imports(src, &shared).unwrap();
    assert_eq!(out, "fn a() {}\nfn common() {}\nfn b() {}\n");
}

#[test]
fn lines_without_imports_are_kept_with_newlines() {
    let src = "line one\r\n  indented\n\nlast\n";
    let out = preprocess_imports(src, &Vec::new()).unwrap();
    assert_eq!(out, "line one\n  indented\n\nlast\n");
}

#[test]
fn missing_import_is_an_error() {
    let src = "// #import \"a.wgsl\"\n// #import \"b.wgsl\"\n";
    let shared = vec![("a.wgsl".to_string(), "A".to_string())];
    let err = preprocess_imports(src, &shared).unwrap_err();
    assert_eq!(err.name, "b.wgsl");
}

#[test]
fn malformed_directive_is_kept_as_text() {
    let src = "// #import \"open\n// #import common.wgsl";
    let out = preprocess_imports(src, &Vec::new()).unwrap();
    assert_eq!(out, "// #import \"open\n// #import common.wgsl\n");
}

#[test]
fn first_shared_shader_of_a_name_wins() {
    let src = "// #import \"x\"";
    let shared = vec![
        ("x".to_string(), "first".to_string()),
        ("x".to_string(), "second".to_string()),
    ];
    assert_eq!(preprocess_imports(src, &shared).unwrap(), "first\n");
}

#[test]
fn imports_are_listed_in_order() {
    let src = "// #import \"a.wgsl\"\ncode\n\t// #import \"b.wgsl\"\n// #import \"a.wgsl\"";
    assert_eq!(shader_imports(src), names(&["a.wgsl", "b.wgsl", "a.wgsl"]));
}

#[test]
fn shader_paths_hold_names() {
    let p = ShaderPaths { fragment: "main.wgsl".to_string(), compute: None };
    assert_eq!(p.fragment, "main.wgsl");
    assert!(p.compute.is_none());
}

#[test]
fn effects_expand_shorthands() {
    let out = expand_effects(&names(&["bloom", "crt"]));
    assert_eq!(
        out,
        names(&["bloom", "crt_scanlines", "chromatic_aberration", "vignette", "film_grain", "color_grading"])
    );
    let all = expand_effects(&names(&["all"]));
    assert_eq!(all.len(), 6);
    assert_eq!(all[0], "bloom");
}

#[test]
fn effects_none_clears_everything() {
    assert!(expand_effects(&names(&["bloom", "none", "vignette"])).is_empty());
    assert!(expand_effects(&Vec::new()).is_empty());
}

#[test]
fn known_models_map_to_files() {
    assert_eq!(known_model_file("tiny").unwrap(), "ggml-tiny.bin");
    assert_eq!(known_model_file("large").unwrap(), "ggml-large-v3-turbo.bin");
    assert!(known_model_file("huge").is_none());
}

#[test]
fn model_resolution() {
    match resolve_model_path("/models/custom.bin", true).unwrap() {
        ModelLocation::Path(p) => assert_eq!(p, "/models/custom.bin"),
        other => panic!("unexpected {:?}", other),
    }
    match resolve_model_path("base.en", false).unwrap() {
        ModelLocation::Known { name, filename } => {
            assert_eq!(name, "base.en");
            assert_eq!(filename, "ggml-base.en.bin");
        }
        other => panic!("unexpected {:?}", other),
    }
    assert_eq!(resolve_model_path("nope", false).unwrap_err().input, "nope");
}
