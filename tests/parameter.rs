use one_publish::keyed::StrMap;
use one_publish::parameter::{
    ParameterDefinition, ParameterRenderer, ParameterSchema, ParameterType, RenderError,
};
use one_publish::value::SpecValue;

fn create_test_schema() -> ParameterSchema {
    let mut parameters = StrMap::new();
    parameters.insert(
        "release".to_string(),
        ParameterDefinition {
            param_type: ParameterType::Boolean,
            flag: "--release".to_string(),
            multiple: None,
            prefix: None,
            description: Some("Build in release mode".to_string()),
        },
    );
    parameters.insert(
        "target".to_string(),
        ParameterDefinition {
            param_type: ParameterType::String,
            flag: "--target".to_string(),
            multiple: None,
            prefix: None,
            description: Some("Target triple".to_string()),
        },
    );
    parameters.insert(
        "features".to_string(),
        ParameterDefinition {
            param_type: ParameterType::Array,
            flag: "--features".to_string(),
            multiple: None,
            prefix: None,
            description: Some("List of features".to_string()),
        },
    );
    parameters.insert(
        "defines".to_string(),
        ParameterDefinition {
            param_type: ParameterType::Dict,
            flag: "".to_string(),
            multiple: None,
            prefix: Some("--define=".to_string()),
            description: Some("Preprocessor defines".to_string()),
        },
    );
    ParameterSchema { parameters }
}

#[test]
fn boolean_flag_rendered_when_true() {
    let renderer = ParameterRenderer::new(create_test_schema());
    let mut params = StrMap::new();
    params.insert("release".to_string(), SpecValue::Bool(true));
    let result = renderer.render(&params).expect("render");
    assert_eq!(result.args, vec!["--release"]);
}

#[test]
fn boolean_flag_omitted_when_false() {
    let renderer = ParameterRenderer::new(create_test_schema());
    let mut params = StrMap::new();
    params.insert("release".to_string(), SpecValue::Bool(false));
    let result = renderer.render(&params).expect("render");
    assert!(result.args.is_empty());
}

#[test]
fn boolean_flag_omitted_when_null() {
    let renderer = ParameterRenderer::new(create_test_schema());
    let mut params = StrMap::new();
    params.insert("release".to_string(), SpecValue::Null);
    let result = renderer.render(&params).expect("render");
    assert!(result.args.is_empty());
}

#[test]
fn string_value_rendered() {
    let renderer = ParameterRenderer::new(create_test_schema());
    let mut params = StrMap::new();
    params.insert("target".to_string(), SpecValue::String("x86_64-apple-darwin".to_string()));
    let result = renderer.render(&params).expect("render");
    assert_eq!(result.args, vec!["--target", "x86_64-apple-darwin"]);
}

#[test]
fn number_value_rendered_as_its_text() {
    let renderer = ParameterRenderer::new(create_test_schema());
    let mut params = StrMap::new();
    params.insert("target".to_string(), SpecValue::Number("1.5".to_string()));
    let result = renderer.render(&params).expect("render");
    assert_eq!(result.args, vec!["--target", "1.5"]);
}

#[test]
fn array_rendered_as_multiple_flags() {
    let renderer = ParameterRenderer::new(create_test_schema());
    let mut params = StrMap::new();
    params.insert(
        "features".to_string(),
        SpecValue::List(vec![
            SpecValue::String("feature1".to_string()),
            SpecValue::String("feature2".to_string()),
        ]),
    );
    let result = renderer.render(&params).expect("render");
    assert_eq!(result.args, vec!["--features", "feature1", "--features", "feature2"]);
}

#[test]
fn array_expansion_repeats_flag() {
    let renderer = ParameterRenderer::new(create_test_schema());
    let mut params = StrMap::new();
    params.insert(
        "features".to_string(),
        SpecValue::List(vec![SpecValue::String("a".to_string()), SpecValue::String("b".to_string())]),
    );
    let result = renderer.render(&params).expect("render");
    assert_eq!(result.args, vec!["--features", "a", "--features", "b"]);
}

#[test]
fn map_rendered_with_prefix() {
    let renderer = ParameterRenderer::new(create_test_schema());
    let mut inner = StrMap::new();
    inner.insert("DEBUG".to_string(), SpecValue::Bool(true));
    inner.insert("VERSION".to_string(), SpecValue::String("1.0".to_string()));
    let mut params = StrMap::new();
    params.insert("defines".to_string(), SpecValue::Dict(inner));
    let result = renderer.render(&params).expect("render");
    assert!(result.args.contains(&"--define=DEBUG=true".to_string()));
    assert!(result.args.contains(&"--define=VERSION=1.0".to_string()));
    assert_eq!(result.args.len(), 2);
}

#[test]
fn unknown_parameter_returns_error() {
    let renderer = ParameterRenderer::new(create_test_schema());
    let mut params = StrMap::new();
    params.insert("unknown".to_string(), SpecValue::Bool(true));
    let result = renderer.render(&params);
    assert!(result.is_err());
    match result {
        Err(RenderError::UnknownParameter(s)) => assert_eq!(s, "unknown"),
        _ => panic!("expected UnknownParameter error"),
    }
}

#[test]
fn nonexistent_parameter_is_unknown_even_after_valid_ones() {
    let renderer = ParameterRenderer::new(create_test_schema());
    let mut params = StrMap::new();
    params.insert("release".to_string(), SpecValue::Bool(true));
    params.insert("nonexistent".to_string(), SpecValue::Bool(true));
    match renderer.render(&params) {
        Err(RenderError::UnknownParameter(s)) => assert_eq!(s, "nonexistent"),
        _ => panic!("expected UnknownParameter error"),
    }
}

#[test]
fn invalid_type_returns_error() {
    let renderer = ParameterRenderer::new(create_test_schema());
    let mut params = StrMap::new();
    params.insert("release".to_string(), SpecValue::String("not a bool".to_string()));
    let result = renderer.render(&params);
    assert!(result.is_err());
}

#[test]
fn invalid_array_item_returns_error() {
    let renderer = ParameterRenderer::new(create_test_schema());
    let mut params = StrMap::new();
    params.insert("features".to_string(), SpecValue::List(vec![SpecValue::Bool(true)]));
    match renderer.render(&params) {
        Err(RenderError::InvalidArrayTypeItem { parameter, .. }) => assert_eq!(parameter, "features"),
        _ => panic!("expected InvalidArrayTypeItem"),
    }
}

#[test]
fn invalid_map_value_returns_error() {
    let renderer = ParameterRenderer::new(create_test_schema());
    let mut inner = StrMap::new();
    inner.insert("X".to_string(), SpecValue::Null);
    let mut params = StrMap::new();
    params.insert("defines".to_string(), SpecValue::Dict(inner));
    match renderer.render(&params) {
        Err(RenderError::InvalidMapValue { parameter, key, .. }) => {
            assert_eq!(parameter, "defines");
            assert_eq!(key, "X");
        }
        _ => panic!("expected InvalidMapValue"),
    }
}

#[test]
fn map_without_prefix_is_missing_prefix() {
    let mut parameters = StrMap::new();
    parameters.insert(
        "props".to_string(),
        ParameterDefinition {
            param_type: ParameterType::Dict,
            flag: "-p".to_string(),
            multiple: None,
            prefix: None,
            description: None,
        },
    );
    let renderer = ParameterRenderer::new(ParameterSchema { parameters });
    let mut params = StrMap::new();
    params.insert("props".to_string(), SpecValue::Null);
    match renderer.render(&params) {
        Err(RenderError::MissingPrefix(p)) => assert_eq!(p, "props"),
        _ => panic!("expected MissingPrefix"),
    }
}

#[test]
fn combined_parameters_render_correctly() {
    let renderer = ParameterRenderer::new(create_test_schema());
    let mut inner = StrMap::new();
    inner.insert("FOO".to_string(), SpecValue::String("bar".to_string()));
    let mut params = StrMap::new();
    params.insert("release".to_string(), SpecValue::Bool(true));
    params.insert("target".to_string(), SpecValue::String("x86_64".to_string()));
    params.insert("defines".to_string(), SpecValue::Dict(inner));
    let result = renderer.render(&params).expect("render");
    assert!(result.args.contains(&"--release".to_string()));
    assert!(result.args.contains(&"--target".to_string()));
    assert!(result.args.contains(&"x86_64".to_string()));
    assert!(result.args.contains(&"--define=FOO=bar".to_string()));
}

#[test]
fn rendering_twice_gives_identical_arguments() {
    let renderer = ParameterRenderer::new(create_test_schema());
    let mut params = StrMap::new();
    params.insert("release".to_string(), SpecValue::Bool(true));
    params.insert("target".to_string(), SpecValue::String("x86_64".to_string()));
    let a = renderer.render(&params).expect("render").args;
    let b = renderer.render(&params).expect("render").args;
    assert_eq!(a, b);
}

#[test]
fn insert_keeps_place_of_existing_key() {
    let mut m = StrMap::new();
    m.insert("a".to_string(), 1u32);
    m.insert("b".to_string(), 2u32);
    m.insert("a".to_string(), 3u32);
    assert_eq!(m.len(), 2);
    assert_eq!(m.key_at(0), "a");
    assert_eq!(m.get("a"), Some(&3u32));
    assert!(m.contains_key("b"));
    assert!(!m.contains_key("c"));
}

#[test]
fn array_and_map_accept_only_their_own_shape() {
    let renderer = ParameterRenderer::new(create_test_schema());
    let mut params = StrMap::new();
    params.insert("features".to_string(), SpecValue::Null);
    assert!(matches!(renderer.render(&params), Err(RenderError::InvalidType { .. })));
    let mut params = StrMap::new();
    params.insert("defines".to_string(), SpecValue::String("x".to_string()));
    assert!(matches!(renderer.render(&params), Err(RenderError::InvalidType { .. })));
}

#[test]
fn parameters_render_in_ascending_key_order() {
    let renderer = ParameterRenderer::new(create_test_schema());
    let mut params = StrMap::new();
    params.insert("target".to_string(), SpecValue::String("x".to_string()));
    params.insert("release".to_string(), SpecValue::Bool(true));
    params.insert("features".to_string(), SpecValue::List(vec![SpecValue::String("f".to_string())]));
    let result = renderer.render(&params).expect("render");
    assert_eq!(result.args, vec!["--features", "f", "--release", "--target", "x"]);
    assert_eq!(params.key_at(0), "features");
    assert_eq!(params.key_at(2), "target");
}
