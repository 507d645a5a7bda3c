//! The dotnet publish form: from its settings to a command line or a spec.

use vstd::prelude::*;
use crate::keyed::StrMap;
use crate::text::{push_str, views};
use crate::value::{PublishSpec, SpecValue, SPEC_VERSION, Val, Leaf, params_model, val_of};
use crate::keyed::put;
use crate::command_parser::lemma_params_put;

verus! {

/// The settings of the dotnet publish form.
#[derive(Debug)]
pub struct PublishConfig {
    pub configuration: String,
    pub runtime: String,
    pub self_contained: bool,
    pub output_dir: String,
    pub use_profile: bool,
    pub profile_name: String,
}

/// A program and its arguments.
#[derive(Debug, PartialEq, Eq)]
pub struct DotnetPublishPlan {
    pub program: String,
    pub args: Vec<String>,
}

/// The form uses a named publish profile.
pub open spec fn uses_profile(c: PublishConfig) -> bool {
    c.use_profile && c.profile_name@.len() > 0
}

/// The arguments of `dotnet publish` for the form: with a profile, only the
/// profile property; else the configuration, and the runtime,
/// self-contained flag and output directory where given.
pub open spec fn dotnet_publish_args(project_path: Seq<char>, c: PublishConfig) -> Seq<Seq<char>> {
    let head = seq!["publish"@, project_path];
    if uses_profile(c) {
        head.push("/p:PublishProfile="@ + c.profile_name@)
    } else {
        let a = head + seq!["-c"@, c.configuration@];
        let a = if c.runtime@.len() > 0 {
            a + seq!["--runtime"@, c.runtime@]
        } else {
            a
        };
        let a = if c.self_contained {
            a.push("--self-contained"@)
        } else {
            a
        };
        if c.output_dir@.len() > 0 {
            a + seq!["-o"@, c.output_dir@]
        } else {
            a
        }
    }
}

/// The `dotnet publish` command for the form.
pub fn build_dotnet_publish_plan(project_path: &str, config: &PublishConfig) -> (r: DotnetPublishPlan)
    ensures
        r.program@ == "dotnet"@,
        views(r.args@) == dotnet_publish_args(project_path@, *config),
{
    let mut args: Vec<String> = Vec::new();
    args.push("publish".to_owned());
    args.push(project_path.to_owned());
    let ghost head = seq!["publish"@, project_path@];
    assert(views(args@) =~= head);
    if config.use_profile && config.profile_name.as_str().unicode_len() > 0 {
        let mut p = "/p:PublishProfile=".to_owned();
        push_str(&mut p, config.profile_name.as_str());
        args.push(p);
        assert(views(args@) =~= head.push("/p:PublishProfile="@ + config.profile_name@));
    } else {
        args.push("-c".to_owned());
        args.push(config.configuration.clone());
        let ghost a1 = head + seq!["-c"@, config.configuration@];
        assert(views(args@) =~= a1);
        let ghost a2 = if config.runtime@.len() > 0 { a1 + seq!["--runtime"@, config.runtime@] } else { a1 };
        if config.runtime.as_str().unicode_len() > 0 {
            args.push("--runtime".to_owned());
            args.push(config.runtime.clone());
        }
        assert(views(args@) =~= a2);
        let ghost a3 = if config.self_contained { a2.push("--self-contained"@) } else { a2 };
        if config.self_contained {
            args.push("--self-contained".to_owned());
        }
        assert(views(args@) =~= a3);
        if config.output_dir.as_str().unicode_len() > 0 {
            args.push("-o".to_owned());
            args.push(config.output_dir.clone());
        }
        assert(views(args@) =~= (if config.output_dir@.len() > 0 { a3 + seq!["-o"@, config.output_dir@] } else { a3 }));
    }
    DotnetPublishPlan { program: "dotnet".to_owned(), args }
}

/// The parameters of the dotnet spec for the form.
pub open spec fn dotnet_form_params(c: PublishConfig) -> Seq<(Seq<char>, Val)> {
    let s = Seq::empty();
    if uses_profile(c) {
        put(s, "properties"@, Val::Dict(seq![("PublishProfile"@, Leaf::Text(c.profile_name@))]))
    } else {
        let s = put(s, "configuration"@, Val::Text(c.configuration@));
        let s = if c.runtime@.len() > 0 {
            put(s, "runtime"@, Val::Text(c.runtime@))
        } else {
            s
        };
        let s = if c.self_contained {
            put(s, "self_contained"@, Val::Bool(true))
        } else {
            s
        };
        if c.output_dir@.len() > 0 {
            put(s, "output"@, Val::Text(c.output_dir@))
        } else {
            s
        }
    }
}

/// Stores `v` under `k`, keeping track of the contract view.
fn put_param(m: &mut StrMap<SpecValue>, k: &str, v: SpecValue)
    ensures
        params_model(final(m)@) == put(params_model(old(m)@), k@, val_of(v)),
        old(m).wf() ==> final(m).wf(),
{
    proof {
        lemma_params_put(m@, k@, v);
    }
    m.insert(k.to_owned(), v);
}

/// The dotnet spec for the form.
pub fn build_dotnet_spec_from_config(project_path: String, config: PublishConfig) -> (r: PublishSpec)
    ensures
        r.version == SPEC_VERSION,
        r.provider_id@ == "dotnet"@,
        r.project_path@ == project_path@,
        params_model(r.parameters@) == dotnet_form_params(config),
        r.parameters.wf(),
{
    let ghost c = config;
    let mut parameters: StrMap<SpecValue> = StrMap::new();
    assert(params_model(parameters@) =~= Seq::<(Seq<char>, Val)>::empty());
    if config.use_profile && config.profile_name.as_str().unicode_len() > 0 {
        let mut properties: StrMap<SpecValue> = StrMap::new();
        properties.insert("PublishProfile".to_owned(), SpecValue::String(config.profile_name));
        assert(properties@ =~= seq![("PublishProfile"@, SpecValue::String(c.profile_name))]);
        assert(crate::value::leaf_entries(properties@) =~= seq![("PublishProfile"@, Leaf::Text(c.profile_name@))]);
        put_param(&mut parameters, "properties", SpecValue::Dict(properties));
    } else {
        put_param(&mut parameters, "configuration", SpecValue::String(config.configuration));
        if config.runtime.as_str().unicode_len() > 0 {
            put_param(&mut parameters, "runtime", SpecValue::String(config.runtime));
        }
        if config.self_contained {
            put_param(&mut parameters, "self_contained", SpecValue::Bool(true));
        }
        if config.output_dir.as_str().unicode_len() > 0 {
            put_param(&mut parameters, "output", SpecValue::String(config.output_dir));
        }
    }
    PublishSpec { version: SPEC_VERSION, provider_id: "dotnet".to_owned(), project_path, parameters }
}

} // verus!
