use one_publish::publish::{build_dotnet_publish_plan, build_dotnet_spec_from_config, PublishConfig};
use one_publish::value::SpecValue;

fn base_config() -> PublishConfig {
    PublishConfig {
        configuration: "Release".to_string(),
        runtime: "".to_string(),
        self_contained: false,
        output_dir: "".to_string(),
        use_profile: false,
        profile_name: "".to_string(),
    }
}

#[test]
fn plan_with_profile_uses_pubxml_property() {
    let mut cfg = base_config();
    cfg.use_profile = true;
    cfg.profile_name = "FolderProfile".to_string();
    let plan = build_dotnet_publish_plan("/p/app.csproj", &cfg);
    assert_eq!(plan.program, "dotnet");
    assert_eq!(
        plan.args,
        vec![
            "publish".to_string(),
            "/p/app.csproj".to_string(),
            "/p:PublishProfile=FolderProfile".to_string(),
        ]
    );
}

#[test]
fn plan_without_profile_includes_flags() {
    let mut cfg = base_config();
    cfg.runtime = "win-x64".to_string();
    cfg.self_contained = true;
    cfg.output_dir = "./out".to_string();
    let plan = build_dotnet_publish_plan("/p/app.csproj", &cfg);
    assert_eq!(
        plan.args,
        vec![
            "publish".to_string(),
            "/p/app.csproj".to_string(),
            "-c".to_string(),
            "Release".to_string(),
            "--runtime".to_string(),
            "win-x64".to_string(),
            "--self-contained".to_string(),
            "-o".to_string(),
            "./out".to_string(),
        ]
    );
}

#[test]
fn build_dotnet_spec_maps_profile_to_properties() {
    let mut config = base_config();
    config.use_profile = true;
    config.profile_name = "FolderProfile".to_string();
    let spec = build_dotnet_spec_from_config("/tmp/app.csproj".to_string(), config);
    match spec.parameters.get("properties") {
        Some(SpecValue::Dict(properties)) => {
            assert_eq!(
                properties.get("PublishProfile"),
                Some(&SpecValue::String("FolderProfile".to_string()))
            );
        }
        _ => panic!("expected properties map"),
    }
}
