use one_publish::command_parser::CommandParser;
use one_publish::keyed::StrMap;
use one_publish::parameter::ParameterRenderer;
use one_publish::provider::{Provider, ProviderKind};
use one_publish::value::SpecValue;

#[test]
fn rendered_cargo_parameters_parse_back() {
    let schema = Provider::new(ProviderKind::Cargo).get_schema().expect("schema");
    let mut params = StrMap::new();
    params.insert("release".to_string(), SpecValue::Bool(true));
    params.insert("target".to_string(), SpecValue::String("x86_64-unknown-linux-gnu".to_string()));
    params.insert("features".to_string(), SpecValue::List(vec![SpecValue::String("serde".to_string())]));
    let args = ParameterRenderer::new(Provider::new(ProviderKind::Cargo).get_schema().expect("schema"))
        .render(&params)
        .expect("render")
        .args;
    let command = format!("cargo {}", args.join(" "));
    let spec = CommandParser::new("cargo".to_string())
        .parse_command(&command, "Cargo.toml".to_string(), &schema)
        .expect("parse");
    assert_eq!(spec.parameters, params);
}

#[test]
fn rendered_java_properties_parse_back() {
    let schema = Provider::new(ProviderKind::Java).get_schema().expect("schema");
    let mut props = StrMap::new();
    props.insert("version".to_string(), SpecValue::String("1.2.3".to_string()));
    props.insert("profile".to_string(), SpecValue::String("prod".to_string()));
    let mut params = StrMap::new();
    params.insert("properties".to_string(), SpecValue::Dict(props));
    params.insert("offline".to_string(), SpecValue::Bool(true));
    let args = ParameterRenderer::new(Provider::new(ProviderKind::Java).get_schema().expect("schema"))
        .render(&params)
        .expect("render")
        .args;
    assert_eq!(args, vec!["--offline", "-Dprofile=prod", "-Dversion=1.2.3"]);
    let command = format!("./gradlew build {}", args.join(" "));
    let spec = CommandParser::new("java".to_string())
        .parse_command(&command, "build.gradle".to_string(), &schema)
        .expect("parse");
    assert_eq!(spec.parameters, params);
}

#[test]
fn rendered_list_of_several_items_parses_back() {
    let schema = Provider::new(ProviderKind::Cargo).get_schema().expect("schema");
    let mut params = StrMap::new();
    params.insert(
        "features".to_string(),
        SpecValue::List(vec![
            SpecValue::String("a".to_string()),
            SpecValue::String("b".to_string()),
            SpecValue::String("c".to_string()),
        ]),
    );
    let args = ParameterRenderer::new(Provider::new(ProviderKind::Cargo).get_schema().expect("schema"))
        .render(&params)
        .expect("render")
        .args;
    assert_eq!(args, vec!["--features", "a", "--features", "b", "--features", "c"]);
    let command = format!("cargo build {}", args.join(" "));
    let spec = CommandParser::new("cargo".to_string())
        .parse_command(&command, "Cargo.toml".to_string(), &schema)
        .expect("parse");
    assert_eq!(spec.parameters, params);
}

#[test]
fn rendered_dotnet_properties_parse_back() {
    let schema = Provider::new(ProviderKind::Dotnet).get_schema().expect("schema");
    let mut props = StrMap::new();
    props.insert("PublishProfile".to_string(), SpecValue::String("FolderProfile".to_string()));
    let mut params = StrMap::new();
    params.insert("configuration".to_string(), SpecValue::String("Release".to_string()));
    params.insert("properties".to_string(), SpecValue::Dict(props));
    let args = ParameterRenderer::new(Provider::new(ProviderKind::Dotnet).get_schema().expect("schema"))
        .render(&params)
        .expect("render")
        .args;
    assert_eq!(args, vec!["-c", "Release", "/p:PublishProfile=FolderProfile"]);
    let command = format!("dotnet publish {}", args.join(" "));
    let spec = CommandParser::new("dotnet".to_string())
        .parse_command(&command, "app.csproj".to_string(), &schema)
        .expect("parse");
    assert_eq!(spec.parameters, params);
}
