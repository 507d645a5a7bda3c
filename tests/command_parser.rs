use one_publish::command_parser::{map_cargo_flag, map_dotnet_flag, map_go_flag, map_java_flag, tokenize, CommandParser};
use one_publish::keyed::StrMap;
use one_publish::parameter::{ParameterDefinition, ParameterSchema, ParameterType};
use one_publish::value::SpecValue;

fn parameter(param_type: ParameterType, flag: &str, prefix: Option<&str>) -> ParameterDefinition {
    ParameterDefinition {
        param_type,
        flag: flag.to_string(),
        multiple: None,
        prefix: prefix.map(ToString::to_string),
        description: None,
    }
}

fn dotnet_schema() -> ParameterSchema {
    let mut parameters = StrMap::new();
    parameters.insert("configuration".to_string(), parameter(ParameterType::String, "-c", None));
    parameters.insert("runtime".to_string(), parameter(ParameterType::String, "-r", None));
    parameters.insert("self_contained".to_string(), parameter(ParameterType::Boolean, "--self-contained", None));
    ParameterSchema { parameters }
}

fn cargo_schema() -> ParameterSchema {
    let mut parameters = StrMap::new();
    parameters.insert("release".to_string(), parameter(ParameterType::Boolean, "--release", None));
    parameters.insert("target".to_string(), parameter(ParameterType::String, "--target", None));
    parameters.insert("features".to_string(), parameter(ParameterType::Array, "--features", None));
    ParameterSchema { parameters }
}

fn java_schema() -> ParameterSchema {
    let mut parameters = StrMap::new();
    parameters.insert("properties".to_string(), parameter(ParameterType::Dict, "", Some("-D")));
    parameters.insert("offline".to_string(), parameter(ParameterType::Boolean, "--offline", None));
    ParameterSchema { parameters }
}

fn go_schema() -> ParameterSchema {
    let mut parameters = StrMap::new();
    parameters.insert("output".to_string(), parameter(ParameterType::String, "-o", None));
    parameters.insert("target".to_string(), parameter(ParameterType::String, "", Some("GOOS=")));
    parameters.insert("arch".to_string(), parameter(ParameterType::String, "", Some("GOARCH=")));
    ParameterSchema { parameters }
}

#[test]
fn tokenize_simple_command() {
    let tokens = tokenize("dotnet publish -c Release -r win-x64");
    assert_eq!(
        tokens,
        vec![
            "dotnet".to_string(),
            "publish".to_string(),
            "-c".to_string(),
            "Release".to_string(),
            "-r".to_string(),
            "win-x64".to_string(),
        ]
    );
}

#[test]
fn tokenize_command_with_quotes() {
    let tokens = tokenize("cargo build --features \"feature1,feature2\"");
    assert_eq!(
        tokens,
        vec![
            "cargo".to_string(),
            "build".to_string(),
            "--features".to_string(),
            "feature1,feature2".to_string(),
        ]
    );
}

#[test]
fn tokenize_keeps_quoted_spaces() {
    let tokens = tokenize("a  \"b c\"\td");
    assert_eq!(tokens, vec!["a".to_string(), "b c".to_string(), "d".to_string()]);
}

#[test]
fn tokenize_flag_with_equals() {
    let tokens = tokenize("./gradlew build -Dversion=1.2.3");
    assert_eq!(
        tokens,
        vec!["./gradlew".to_string(), "build".to_string(), "-Dversion=1.2.3".to_string()]
    );
}

#[test]
fn map_dotnet_configuration_flag() {
    assert_eq!(map_dotnet_flag("-c"), Some("configuration".to_string()));
    assert_eq!(map_dotnet_flag("--configuration"), Some("configuration".to_string()));
}

#[test]
fn map_cargo_release_flag() {
    assert_eq!(map_cargo_flag("--release"), Some("release".to_string()));
}

#[test]
fn map_go_output_flag() {
    assert_eq!(map_go_flag("-o"), Some("output".to_string()));
}

#[test]
fn map_java_property_flag() {
    assert_eq!(map_java_flag("-D"), Some("properties".to_string()));
    assert_eq!(map_java_flag("--nope"), None);
}

#[test]
fn parse_dotnet_command() {
    let parser = CommandParser::new("dotnet".to_string());
    let command = "dotnet publish -c Release -r win-x64 --self-contained";
    let schema = dotnet_schema();
    let result = parser.parse_command(command, "test.csproj".to_string(), &schema);
    assert!(result.is_ok());
    let spec = result.unwrap();
    assert_eq!(spec.provider_id, "dotnet");
    assert_eq!(spec.project_path, "test.csproj");
    assert_eq!(spec.parameters.get("configuration"), Some(&SpecValue::String("Release".to_string())));
    assert_eq!(spec.parameters.get("runtime"), Some(&SpecValue::String("win-x64".to_string())));
    assert_eq!(spec.parameters.get("self_contained"), Some(&SpecValue::Bool(true)));
    assert_eq!(spec.parameters.len(), 3);
}

#[test]
fn parse_cargo_command() {
    let parser = CommandParser::new("cargo".to_string());
    let command = "cargo build --release --target x86_64-apple-darwin";
    let schema = cargo_schema();
    let result = parser.parse_command(command, "Cargo.toml".to_string(), &schema);
    assert!(result.is_ok());
    let spec = result.unwrap();
    assert_eq!(spec.provider_id, "cargo");
    assert_eq!(spec.project_path, "Cargo.toml");
    assert_eq!(spec.parameters.get("release"), Some(&SpecValue::Bool(true)));
    assert_eq!(
        spec.parameters.get("target"),
        Some(&SpecValue::String("x86_64-apple-darwin".to_string()))
    );
}

#[test]
fn parse_cargo_features_list_is_split_and_trimmed() {
    let parser = CommandParser::new("cargo".to_string());
    let schema = cargo_schema();
    let spec = parser
        .parse_command("cargo build --features \"a, b\"", "Cargo.toml".to_string(), &schema)
        .expect("parse");
    assert_eq!(
        spec.parameters.get("features"),
        Some(&SpecValue::List(vec![SpecValue::String("a".to_string()), SpecValue::String("b".to_string())]))
    );
}

#[test]
fn parse_ignores_unknown_flags() {
    let parser = CommandParser::new("cargo".to_string());
    let schema = cargo_schema();
    let spec = parser
        .parse_command("cargo build --frobnicate --release", "Cargo.toml".to_string(), &schema)
        .expect("parse");
    assert_eq!(spec.parameters.len(), 1);
    assert_eq!(spec.parameters.get("release"), Some(&SpecValue::Bool(true)));
}

#[test]
fn parse_java_command_maps_prefixed_properties() {
    let parser = CommandParser::new("java".to_string());
    let command = "./gradlew build -Dversion=1.2.3 -Dprofile=prod --offline";
    let schema = java_schema();
    let spec = parser
        .parse_command(command, "build.gradle".to_string(), &schema)
        .expect("parse java command");
    let properties = spec.parameters.get("properties").expect("properties");
    match properties {
        SpecValue::Dict(map) => {
            assert_eq!(map.get("version"), Some(&SpecValue::String("1.2.3".to_string())));
            assert_eq!(map.get("profile"), Some(&SpecValue::String("prod".to_string())));
            assert_eq!(map.len(), 2);
        }
        _ => panic!("properties should be map"),
    }
    assert_eq!(spec.parameters.get("offline"), Some(&SpecValue::Bool(true)));
}

#[test]
fn parse_go_command_maps_env_prefix_tokens() {
    let parser = CommandParser::new("go".to_string());
    let command = "GOOS=linux GOARCH=amd64 go build -o ./dist/app";
    let schema = go_schema();
    let spec = parser.parse_command(command, "go.mod".to_string(), &schema).expect("parse go command");
    assert_eq!(spec.parameters.get("target"), Some(&SpecValue::String("linux".to_string())));
    assert_eq!(spec.parameters.get("arch"), Some(&SpecValue::String("amd64".to_string())));
    assert_eq!(spec.parameters.get("output"), Some(&SpecValue::String("./dist/app".to_string())));
}
