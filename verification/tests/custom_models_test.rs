use yumo_core::custom_models::{spec_from_raw, validate_spec, CustomModelSpec, LoadSpec, RawSpec};

/// A minimal spec, as a YAML file with only the required keys would give
/// it: schema 1, the given id, name `Test`, 1 MB, `zh: 中文`, speed and
/// accuracy 5, module `pkg`, loaded by `pkg.load` without arguments.
fn make_minimal_spec(id: &str) -> CustomModelSpec {
    let raw = RawSpec {
        schema_version: 1,
        id: id.to_string(),
        name: "Test".to_string(),
        description: None,
        size_mb: 1,
        languages: vec![("zh".to_string(), "中文".to_string())],
        speed: 5,
        accuracy: 5,
        recommended: false,
        python_module: "pkg".to_string(),
        pip_packages: None,
        download: None,
        load: LoadSpec { function: "pkg.load".to_string(), kwargs: vec![] },
        transcribe_method: None,
        language_param: None,
    };
    spec_from_raw(raw, "/tmp/t.yaml".to_string())
}

#[test]
fn validate_rejects_id_collision_with_builtin() {
    let spec = make_minimal_spec("ggml-tiny");
    let builtin: Vec<String> = vec!["ggml-tiny".to_string()];
    let err = validate_spec(&spec, &builtin).unwrap_err();
    assert!(err.to_string().contains("ggml-tiny"));
    assert!(err.to_string().to_lowercase().contains("collide") || err.to_string().contains("已存在"));
}

#[test]
fn validate_rejects_speed_out_of_range() {
    let mut spec = make_minimal_spec("ok");
    spec.speed = 11;
    let err = validate_spec(&spec, &Vec::new()).unwrap_err();
    assert!(err.to_string().to_lowercase().contains("speed"));
}

#[test]
fn validate_rejects_accuracy_out_of_range() {
    let mut spec = make_minimal_spec("ok");
    spec.accuracy = 0;
    let err = validate_spec(&spec, &Vec::new()).unwrap_err();
    assert!(err.to_string().to_lowercase().contains("accuracy"));
}

#[test]
fn validate_rejects_empty_languages() {
    let mut spec = make_minimal_spec("ok");
    spec.languages.clear();
    let err = validate_spec(&spec, &Vec::new()).unwrap_err();
    assert!(err.to_string().to_lowercase().contains("languages"));
}

#[test]
fn validate_rejects_unsupported_schema_version() {
    let mut spec = make_minimal_spec("ok");
    spec.schema_version = 99;
    let err = validate_spec(&spec, &Vec::new()).unwrap_err();
    assert!(err.to_string().contains("schema_version"));
}

#[test]
fn validate_passes_for_valid_spec() {
    let spec = make_minimal_spec("custom-ok");
    validate_spec(&spec, &Vec::new()).unwrap();
}
