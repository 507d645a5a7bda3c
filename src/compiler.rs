//! Compiling a spec through its provider.

use vstd::prelude::*;
use crate::parameter::{ParameterRenderer, RenderError, render_params};
use crate::plan::ExecutionPlan;
use crate::provider::{ProviderRegistry, kind_named, builtin_defs_of, step_id, step_title};
use crate::value::{PublishSpec, SPEC_VERSION};

verus! {

/// Why a spec could not be compiled.
#[derive(Debug)]
pub enum CompileError {
    UnsupportedSpecVersion(u32),
    UnsupportedProvider(String),
    RenderError(String),
}

/// A compile failure as contracts see it.
pub enum CompileFault {
    UnsupportedSpecVersion(u32),
    UnsupportedProvider(Seq<char>),
    RenderError,
}

impl CompileError {
    pub open spec fn fault(self) -> CompileFault {
        match self {
            CompileError::UnsupportedSpecVersion(v) => CompileFault::UnsupportedSpecVersion(v),
            CompileError::UnsupportedProvider(p) => CompileFault::UnsupportedProvider(p@),
            CompileError::RenderError(_) => CompileFault::RenderError,
        }
    }

    /// A render failure, carried as its message.
    pub fn from_render(err: RenderError) -> (r: CompileError)
        ensures
            r.fault() == CompileFault::RenderError,
    {
        CompileError::RenderError(err.message())
    }
}

/// What compiling `spec` yields, as contracts see it: the provider's single
/// step, or the first failure among provider lookup and version check.
pub open spec fn compile_outcome(spec: PublishSpec) -> Result<(Seq<char>, Seq<char>), CompileFault> {
    match kind_named(spec.provider_id@) {
        None => Err(CompileFault::UnsupportedProvider(spec.provider_id@)),
        Some(k) => if spec.version != SPEC_VERSION {
            Err(CompileFault::UnsupportedSpecVersion(spec.version))
        } else {
            Ok((step_id(k), step_title(k)))
        },
    }
}

/// `plan` is the single-step plan with step id and title `st` for `spec`.
pub open spec fn plan_matches(plan: ExecutionPlan, spec: PublishSpec, st: (Seq<char>, Seq<char>)) -> bool {
    &&& plan.version == crate::plan::PLAN_VERSION
    &&& plan.steps@.len() == 1
    &&& plan.steps@[0].id@ == st.0
    &&& plan.steps@[0].title@ == st.1
    &&& plan.spec.version == spec.version
    &&& plan.spec.provider_id@ == spec.provider_id@
    &&& plan.spec.project_path@ == spec.project_path@
    &&& crate::value::params_model(plan.spec.parameters@) == crate::value::params_model(spec.parameters@)
    &&& plan.steps@[0].kind@ == "process"@
    &&& crate::value::params_model(plan.steps@[0].payload@) == payload_of(spec)
    &&& plan.steps@[0].payload.wf()
}

/// A plan step's payload: the project path and the parameters.
pub open spec fn payload_of(spec: PublishSpec) -> Seq<(Seq<char>, crate::value::Val)> {
    let s = Seq::empty();
    let s = crate::keyed::put(s, "project_path"@, crate::value::Val::Text(spec.project_path@));
    crate::keyed::put(s, "parameters"@, crate::value::Val::Dict(crate::value::leaf_entries(spec.parameters@)))
}

/// Compiles `spec` with the provider that its `provider_id` names.
pub fn compile(spec: &PublishSpec) -> (r: Result<ExecutionPlan, CompileError>)
    ensures
        match r {
            Ok(plan) => compile_outcome(*spec) matches Ok(st) && plan_matches(plan, *spec, st),
            Err(e) => compile_outcome(*spec) == Err::<(Seq<char>, Seq<char>), CompileFault>(e.fault()),
        },
{
    let registry = ProviderRegistry::new();
    let provider = registry.get(spec.provider_id.as_str())?;
    provider.compile(spec)
}

/// Compiles `spec` after checking that its parameters render against the
/// provider's schema.
pub fn compile_with_renderer(spec: &PublishSpec) -> (r: Result<ExecutionPlan, CompileError>)
    ensures
        match r {
            Ok(plan) => compile_outcome(*spec) matches Ok(st) && plan_matches(plan, *spec, st)
                && render_params(builtin_defs_of(spec.provider_id@), spec.parameters@) is Ok,
            Err(e) => match kind_named(spec.provider_id@) {
                None => e.fault() == CompileFault::UnsupportedProvider(spec.provider_id@),
                Some(k) => if render_params(builtin_defs_of(spec.provider_id@), spec.parameters@) is Err {
                    e.fault() == CompileFault::RenderError
                } else {
                    compile_outcome(*spec) == Err::<(Seq<char>, Seq<char>), CompileFault>(e.fault())
                },
            },
        },
{
    let registry = ProviderRegistry::new();
    let provider = registry.get(spec.provider_id.as_str())?;
    let schema = match provider.get_schema() {
        Ok(s) => s,
        Err(e) => {
            return Err(CompileError::from_render(e));
        },
    };
    let renderer = ParameterRenderer::new(schema);
    match renderer.render(&spec.parameters) {
        Ok(_) => {},
        Err(e) => {
            return Err(CompileError::from_render(e));
        },
    }
    provider.compile(spec)
}

} // verus!
