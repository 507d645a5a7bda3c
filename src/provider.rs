//! The fixed set of providers, their schemas, and the registry that finds
//! them by id.

use vstd::prelude::*;
use crate::compiler::{CompileError, CompileFault};
use crate::keyed::{StrMap, put};
use crate::parameter::{
    ParameterSchema, ParameterDefinition, ParameterType, RenderError, DefView, schema_view,
    lemma_schema_put,
};
use crate::plan::{ExecutionPlan, PlanStep, PLAN_VERSION};
use crate::text::same_text;
use crate::value::{PublishSpec, SpecValue, SPEC_VERSION, Val, params_model};

verus! {

/// The toolchains this library compiles for.
#[derive(PartialEq, Eq, Structural, Clone, Copy, Debug)]
pub enum ProviderKind {
    Dotnet,
    Cargo,
    Go,
    Java,
}

/// A provider's public description.
#[derive(Debug, PartialEq)]
pub struct ProviderManifest {
    pub id: String,
    pub display_name: String,
    pub version: String,
}

pub open spec fn provider_name(k: ProviderKind) -> Seq<char> {
    match k {
        ProviderKind::Dotnet => "dotnet"@,
        ProviderKind::Cargo => "cargo"@,
        ProviderKind::Go => "go"@,
        ProviderKind::Java => "java"@,
    }
}

/// The provider whose id is `id`.
pub open spec fn kind_named(id: Seq<char>) -> Option<ProviderKind> {
    if id == "dotnet"@ {
        Some(ProviderKind::Dotnet)
    } else if id == "cargo"@ {
        Some(ProviderKind::Cargo)
    } else if id == "go"@ {
        Some(ProviderKind::Go)
    } else if id == "java"@ {
        Some(ProviderKind::Java)
    } else {
        None
    }
}

/// The id of a provider's single plan step.
pub open spec fn step_id(k: ProviderKind) -> Seq<char> {
    match k {
        ProviderKind::Dotnet => "dotnet.publish"@,
        ProviderKind::Cargo => "cargo.build"@,
        ProviderKind::Go => "go.build"@,
        ProviderKind::Java => "gradle.build"@,
    }
}

/// The program and skeleton arguments of a provider's step.
pub open spec fn step_title(k: ProviderKind) -> Seq<char> {
    match k {
        ProviderKind::Dotnet => "dotnet publish"@,
        ProviderKind::Cargo => "cargo build"@,
        ProviderKind::Go => "go build"@,
        ProviderKind::Java => "./gradlew build"@,
    }
}

pub open spec fn flag_def(ty: ParameterType, flag: Seq<char>) -> DefView {
    DefView { ty, flag, prefix: None }
}

pub open spec fn prefix_def(ty: ParameterType, prefix: Seq<char>) -> DefView {
    DefView { ty, flag: Seq::empty(), prefix: Some(prefix) }
}

/// dotnet's schema.
pub open spec fn dotnet_defs() -> Seq<(Seq<char>, DefView)> {
    let s = Seq::empty();
    let s = put(s, "configuration"@, flag_def(ParameterType::String, "-c"@));
    let s = put(s, "runtime"@, flag_def(ParameterType::String, "-r"@));
    let s = put(s, "framework"@, flag_def(ParameterType::String, "-f"@));
    let s = put(s, "output"@, flag_def(ParameterType::String, "-o"@));
    let s = put(s, "self_contained"@, flag_def(ParameterType::Boolean, "--self-contained"@));
    let s = put(s, "no_build"@, flag_def(ParameterType::Boolean, "--no-build"@));
    let s = put(s, "no_restore"@, flag_def(ParameterType::Boolean, "--no-restore"@));
    let s = put(s, "verbosity"@, flag_def(ParameterType::String, "--verbosity"@));
    let s = put(s, "no_logo"@, flag_def(ParameterType::Boolean, "--no-logo"@));
    let s = put(s, "define"@, flag_def(ParameterType::Array, "-d"@));
    let s = put(s, "properties"@, prefix_def(ParameterType::Dict, "/p:"@));
    s
}

/// cargo's schema.
pub open spec fn cargo_defs() -> Seq<(Seq<char>, DefView)> {
    let s = Seq::empty();
    let s = put(s, "release"@, flag_def(ParameterType::Boolean, "--release"@));
    let s = put(s, "target"@, flag_def(ParameterType::String, "--target"@));
    let s = put(s, "features"@, flag_def(ParameterType::Array, "--features"@));
    let s = put(s, "all_features"@, flag_def(ParameterType::Boolean, "--all-features"@));
    let s = put(s, "no_default_features"@, flag_def(ParameterType::Boolean, "--no-default-features"@));
    let s = put(s, "target_dir"@, flag_def(ParameterType::String, "--target-dir"@));
    let s = put(s, "message_format"@, flag_def(ParameterType::String, "--message-format"@));
    let s = put(s, "verbose"@, flag_def(ParameterType::Boolean, "--verbose"@));
    let s = put(s, "quiet"@, flag_def(ParameterType::Boolean, "--quiet"@));
    s
}

/// go's schema.
pub open spec fn go_defs() -> Seq<(Seq<char>, DefView)> {
    let s = Seq::empty();
    let s = put(s, "output"@, flag_def(ParameterType::String, "-o"@));
    let s = put(s, "tags"@, flag_def(ParameterType::String, "-tags"@));
    let s = put(s, "race"@, flag_def(ParameterType::Boolean, "-race"@));
    let s = put(s, "v"@, flag_def(ParameterType::Boolean, "-v"@));
    let s = put(s, "work"@, flag_def(ParameterType::Boolean, "-work"@));
    let s = put(s, "trimpath"@, flag_def(ParameterType::Boolean, "-trimpath"@));
    s
}

/// Gradle's schema.
pub open spec fn java_defs() -> Seq<(Seq<char>, DefView)> {
    let s = Seq::empty();
    let s = put(s, "task"@, flag_def(ParameterType::String, Seq::empty()));
    let s = put(s, "properties"@, prefix_def(ParameterType::Dict, "-D"@));
    let s = put(s, "offline"@, flag_def(ParameterType::Boolean, "--offline"@));
    let s = put(s, "quiet"@, flag_def(ParameterType::Boolean, "--quiet"@));
    let s = put(s, "info"@, flag_def(ParameterType::Boolean, "--info"@));
    let s = put(s, "debug"@, flag_def(ParameterType::Boolean, "--debug"@));
    let s = put(s, "stacktrace"@, flag_def(ParameterType::Boolean, "--stacktrace"@));
    let s = put(s, "rerun_tasks"@, flag_def(ParameterType::Boolean, "--rerun-tasks"@));
    let s = put(s, "exclude_task"@, flag_def(ParameterType::String, "--exclude-task"@));
    s
}

/// A provider's schema, as rendering and parsing read it.
pub open spec fn builtin_defs(k: ProviderKind) -> Seq<(Seq<char>, DefView)> {
    match k {
        ProviderKind::Dotnet => dotnet_defs(),
        ProviderKind::Cargo => cargo_defs(),
        ProviderKind::Go => go_defs(),
        ProviderKind::Java => java_defs(),
    }
}

/// The schema of the provider named `id` (empty for an unknown id).
pub open spec fn builtin_defs_of(id: Seq<char>) -> Seq<(Seq<char>, DefView)> {
    match kind_named(id) {
        Some(k) => builtin_defs(k),
        None => Seq::empty(),
    }
}

/// Adds an entry with a flag.
fn add_flag(m: &mut StrMap<ParameterDefinition>, name: &str, ty: ParameterType, flag: &str)
    ensures
        schema_view(final(m)@) == put(schema_view(old(m)@), name@, flag_def(ty, flag@)),
        old(m).wf() ==> final(m).wf(),
{
    let def = ParameterDefinition {
        param_type: ty,
        flag: flag.to_owned(),
        multiple: None,
        prefix: None,
        description: None,
    };
    proof {
        lemma_schema_put(m@, name@, def);
    }
    m.insert(name.to_owned(), def);
}

/// Adds a flagless entry matched by a non-empty prefix.
fn add_prefixed(m: &mut StrMap<ParameterDefinition>, name: &str, ty: ParameterType, prefix: &str)
    requires
        prefix@.len() > 0,
    ensures
        schema_view(final(m)@) == put(schema_view(old(m)@), name@, prefix_def(ty, prefix@)),
        old(m).wf() ==> final(m).wf(),
{
    let def = ParameterDefinition {
        param_type: ty,
        flag: String::new(),
        multiple: None,
        prefix: Some(prefix.to_owned()),
        description: None,
    };
    proof {
        lemma_schema_put(m@, name@, def);
    }
    m.insert(name.to_owned(), def);
}

/// One of the compiled-in providers.
#[derive(PartialEq, Eq, Structural, Clone, Copy, Debug)]
pub struct Provider {
    pub kind: ProviderKind,
}

impl Provider {
    pub fn new(kind: ProviderKind) -> (r: Provider)
        ensures
            r.kind == kind,
    {
        Provider { kind }
    }

    /// The provider's id.
    pub fn id(&self) -> (r: &'static str)
        ensures
            r@ == provider_name(self.kind),
    {
        match self.kind {
            ProviderKind::Dotnet => "dotnet",
            ProviderKind::Cargo => "cargo",
            ProviderKind::Go => "go",
            ProviderKind::Java => "java",
        }
    }

    pub fn manifest(&self) -> (r: ProviderManifest)
        ensures
            r.id@ == provider_name(self.kind),
            r.display_name@ == provider_name(self.kind),
            r.version@ == "1"@,
    {
        ProviderManifest {
            id: self.id().to_owned(),
            display_name: self.id().to_owned(),
            version: "1".to_owned(),
        }
    }

    /// The provider's parameter schema.
    pub fn get_schema(&self) -> (r: Result<ParameterSchema, RenderError>)
        ensures
            r matches Ok(s) && schema_view(s.parameters@) == builtin_defs(self.kind) && s.parameters.wf(),
    {
        let mut m: StrMap<ParameterDefinition> = StrMap::new();
        assert(schema_view(m@) =~= Seq::<(Seq<char>, DefView)>::empty());
        match self.kind {
            ProviderKind::Dotnet => {
                add_flag(&mut m, "configuration", ParameterType::String, "-c");
                add_flag(&mut m, "runtime", ParameterType::String, "-r");
                add_flag(&mut m, "framework", ParameterType::String, "-f");
                add_flag(&mut m, "output", ParameterType::String, "-o");
                add_flag(&mut m, "self_contained", ParameterType::Boolean, "--self-contained");
                add_flag(&mut m, "no_build", ParameterType::Boolean, "--no-build");
                add_flag(&mut m, "no_restore", ParameterType::Boolean, "--no-restore");
                add_flag(&mut m, "verbosity", ParameterType::String, "--verbosity");
                add_flag(&mut m, "no_logo", ParameterType::Boolean, "--no-logo");
                add_flag(&mut m, "define", ParameterType::Array, "-d");
                proof {
                    reveal_strlit("/p:");
                }
                add_prefixed(&mut m, "properties", ParameterType::Dict, "/p:");
            },
            ProviderKind::Cargo => {
                add_flag(&mut m, "release", ParameterType::Boolean, "--release");
                add_flag(&mut m, "target", ParameterType::String, "--target");
                add_flag(&mut m, "features", ParameterType::Array, "--features");
                add_flag(&mut m, "all_features", ParameterType::Boolean, "--all-features");
                add_flag(&mut m, "no_default_features", ParameterType::Boolean, "--no-default-features");
                add_flag(&mut m, "target_dir", ParameterType::String, "--target-dir");
                add_flag(&mut m, "message_format", ParameterType::String, "--message-format");
                add_flag(&mut m, "verbose", ParameterType::Boolean, "--verbose");
                add_flag(&mut m, "quiet", ParameterType::Boolean, "--quiet");
            },
            ProviderKind::Go => {
                add_flag(&mut m, "output", ParameterType::String, "-o");
                add_flag(&mut m, "tags", ParameterType::String, "-tags");
                add_flag(&mut m, "race", ParameterType::Boolean, "-race");
                add_flag(&mut m, "v", ParameterType::Boolean, "-v");
                add_flag(&mut m, "work", ParameterType::Boolean, "-work");
                add_flag(&mut m, "trimpath", ParameterType::Boolean, "-trimpath");
            },
            ProviderKind::Java => {
                proof {
                    reveal_strlit("");
                    reveal_strlit("-D");
                }
                add_flag(&mut m, "task", ParameterType::String, "");
                add_prefixed(&mut m, "properties", ParameterType::Dict, "-D");
                add_flag(&mut m, "offline", ParameterType::Boolean, "--offline");
                add_flag(&mut m, "quiet", ParameterType::Boolean, "--quiet");
                add_flag(&mut m, "info", ParameterType::Boolean, "--info");
                add_flag(&mut m, "debug", ParameterType::Boolean, "--debug");
                add_flag(&mut m, "stacktrace", ParameterType::Boolean, "--stacktrace");
                add_flag(&mut m, "rerun_tasks", ParameterType::Boolean, "--rerun-tasks");
                add_flag(&mut m, "exclude_task", ParameterType::String, "--exclude-task");
                assert(""@ =~= Seq::<char>::empty());
            },
        }
        Ok(ParameterSchema { parameters: m })
    }

    /// Compiles `spec` into this provider's single-step plan.
    pub fn compile(&self, spec: &PublishSpec) -> (r: Result<ExecutionPlan, CompileError>)
        ensures
            match r {
                Ok(plan) => spec.version == SPEC_VERSION && crate::compiler::plan_matches(
                    plan,
                    *spec,
                    (step_id(self.kind), step_title(self.kind)),
                ),
                Err(e) => spec.version != SPEC_VERSION && e.fault()
                    == CompileFault::UnsupportedSpecVersion(spec.version),
            },
    {
        let (id, title) = match self.kind {
            ProviderKind::Dotnet => ("dotnet.publish", "dotnet publish"),
            ProviderKind::Cargo => ("cargo.build", "cargo build"),
            ProviderKind::Go => ("go.build", "go build"),
            ProviderKind::Java => ("gradle.build", "./gradlew build"),
        };
        compile_single_step(spec, id, title)
    }
}

/// The plan with one step `step_id` titled `title`, after checking the
/// spec's version.
pub fn compile_single_step(spec: &PublishSpec, step_id: &str, title: &str) -> (r: Result<
    ExecutionPlan,
    CompileError,
>)
    ensures
        match r {
            Ok(plan) => spec.version == SPEC_VERSION && crate::compiler::plan_matches(
                plan,
                *spec,
                (step_id@, title@),
            ),
            Err(e) => spec.version != SPEC_VERSION && e.fault() == CompileFault::UnsupportedSpecVersion(
                spec.version,
            ),
        },
{
    if spec.version != SPEC_VERSION {
        return Err(CompileError::UnsupportedSpecVersion(spec.version));
    }
    let mut payload: StrMap<SpecValue> = StrMap::new();
    assert(params_model(payload@) =~= Seq::<(Seq<char>, Val)>::empty());
    let path = SpecValue::String(spec.project_path.clone());
    proof {
        crate::command_parser::lemma_params_put(payload@, "project_path"@, path);
    }
    payload.insert("project_path".to_owned(), path);
    let params = SpecValue::Dict(crate::value::copy_map(&spec.parameters));
    proof {
        crate::command_parser::lemma_params_put(payload@, "parameters"@, params);
    }
    payload.insert("parameters".to_owned(), params);
    let step = PlanStep {
        id: step_id.to_owned(),
        title: title.to_owned(),
        kind: "process".to_owned(),
        payload,
    };
    let mut steps: Vec<PlanStep> = Vec::new();
    steps.push(step);
    Ok(ExecutionPlan { version: PLAN_VERSION, spec: spec.duplicate(), steps })
}

/// The providers, looked up by id with a linear scan.
#[derive(Debug)]
pub struct ProviderRegistry {
    providers: Vec<Provider>,
}

/// The registry's contents, in lookup order.
pub open spec fn standard_providers() -> Seq<Provider> {
    seq![
        Provider { kind: ProviderKind::Dotnet },
        Provider { kind: ProviderKind::Cargo },
        Provider { kind: ProviderKind::Go },
        Provider { kind: ProviderKind::Java },
    ]
}

impl ProviderRegistry {
    #[verifier::type_invariant]
    spec fn holds_standard(&self) -> bool {
        self.providers@ == standard_providers()
    }

    pub fn new() -> (r: ProviderRegistry) {
        let mut providers: Vec<Provider> = Vec::new();
        providers.push(Provider::new(ProviderKind::Dotnet));
        providers.push(Provider::new(ProviderKind::Cargo));
        providers.push(Provider::new(ProviderKind::Go));
        providers.push(Provider::new(ProviderKind::Java));
        assert(providers@ =~= standard_providers());
        ProviderRegistry { providers }
    }

    /// The manifests of all providers, in lookup order.
    pub fn manifests(&self) -> (r: Vec<ProviderManifest>)
        ensures
            r@.len() == 4,
            forall|i: int| 0 <= i < 4 ==> (#[trigger] r@[i]).id@ == provider_name(standard_providers()[i].kind),
    {
        proof {
            use_type_invariant(self);
        }
        let mut out: Vec<ProviderManifest> = Vec::new();
        let mut i: usize = 0;
        while i < self.providers.len()
            invariant
                self.providers@ == standard_providers(),
                i <= 4,
                out@.len() == i,
                forall|j: int| 0 <= j < i ==> (#[trigger] out@[j]).id@ == provider_name(standard_providers()[j].kind),
            decreases 4 - i,
        {
            out.push(self.providers[i].manifest());
            i = i + 1;
        }
        out
    }

    /// The provider whose id is `id`, or `UnsupportedProvider(id)`.
    pub fn get(&self, id: &str) -> (r: Result<&Provider, CompileError>)
        ensures
            match r {
                Ok(p) => kind_named(id@) == Some(p.kind),
                Err(e) => kind_named(id@) is None && e.fault() == CompileFault::UnsupportedProvider(id@),
            },
    {
        proof {
            use_type_invariant(self);
        }
        let mut i: usize = 0;
        while i < self.providers.len()
            invariant
                self.providers@ == standard_providers(),
                i <= 4,
                forall|j: int| 0 <= j < i ==> id@ != provider_name(#[trigger] standard_providers()[j].kind),
            decreases 4 - i,
        {
            let p = &self.providers[i];
            if same_text(p.id(), id) {
                proof {
                    let sp = standard_providers();
                    if i >= 1 {
                        assert(id@ != provider_name(sp[0].kind));
                    }
                    if i >= 2 {
                        assert(id@ != provider_name(sp[1].kind));
                    }
                    if i >= 3 {
                        assert(id@ != provider_name(sp[2].kind));
                    }
                }
                return Ok(p);
            }
            i = i + 1;
        }
        assert(id@ != provider_name(standard_providers()[0].kind));
        assert(id@ != provider_name(standard_providers()[1].kind));
        assert(id@ != provider_name(standard_providers()[2].kind));
        assert(id@ != provider_name(standard_providers()[3].kind));
        Err(CompileError::UnsupportedProvider(id.to_owned()))
    }
}

/// The manifests of all providers.
pub fn list_providers() -> (r: Vec<ProviderManifest>)
    ensures
        r@.len() == 4,
        r@[0].id@ == "dotnet"@,
        r@[1].id@ == "cargo"@,
        r@[2].id@ == "go"@,
        r@[3].id@ == "java"@,
{
    let r = ProviderRegistry::new().manifests();
    assert(r@[0].id@ == provider_name(standard_providers()[0].kind));
    assert(r@[1].id@ == provider_name(standard_providers()[1].kind));
    assert(r@[2].id@ == provider_name(standard_providers()[2].kind));
    assert(r@[3].id@ == provider_name(standard_providers()[3].kind));
    r
}

} // verus!
