//! Exporting and importing configurations: machine-specific paths are
//! taken out on export, and imported profiles are checked against the
//! providers' schemas.

use vstd::prelude::*;
use crate::keyed::{StrMap, lookup, put};
use crate::parameter::{DefView, ParameterType, schema_view, lemma_schema_lookup};
use crate::provider::{ProviderRegistry, kind_named, builtin_defs};
use crate::text::push_str;
use crate::command_parser::lemma_params_put;
use crate::value::{PublishSpec, SpecValue, Val, params_model, copy_map};

verus! {

/// Relies on `Path::is_absolute`: whether a path is absolute on this
/// platform. Nothing is stated of the answer, which differs between
/// platforms.
#[verifier::external_body]
fn path_is_absolute(p: &str) -> (r: bool) {
    std::path::Path::new(p).is_absolute()
}

/// Where a path was.
pub open spec fn local_path_text() -> Seq<char> {
    "<local-path>"@
}

/// `params` with the text under `key` replaced by the placeholder when
/// `absolute`.
pub open spec fn mask_path(params: Seq<(Seq<char>, Val)>, key: Seq<char>, absolute: bool) -> Seq<(Seq<char>, Val)> {
    match lookup(params, key) {
        Some(Val::Text(_)) => if absolute {
            put(params, key, Val::Text(local_path_text()))
        } else {
            params
        },
        _ => params,
    }
}

/// Replaces the string under `key` by the placeholder when `absolute`.
fn mask(params: &mut crate::keyed::StrMap<SpecValue>, key: &str, absolute: bool)
    ensures
        params_model(final(params)@) == mask_path(params_model(old(params)@), key@, absolute),
{
    proof {
        lemma_params_put(params@, key@, SpecValue::Null);
    }
    let is_text = match params.get(key) {
        Some(SpecValue::String(_)) => true,
        _ => false,
    };
    if is_text && absolute {
        let placeholder = "<local-path>".to_owned();
        proof {
            lemma_params_put(params@, key@, SpecValue::String(placeholder));
        }
        params.insert(key.to_owned(), SpecValue::String(placeholder));
    }
}

/// `spec` without its project path, and with its `output` and `target_dir`
/// masked as the flags say.
pub fn sanitize_with(spec: &PublishSpec, output_absolute: bool, target_dir_absolute: bool) -> (r: PublishSpec)
    ensures
        r.version == spec.version,
        r.provider_id@ == spec.provider_id@,
        r.project_path@.len() == 0,
        params_model(r.parameters@) == mask_path(
            mask_path(params_model(spec.parameters@), "output"@, output_absolute),
            "target_dir"@,
            target_dir_absolute,
        ),
{
    let mut parameters = copy_map(&spec.parameters);
    mask(&mut parameters, "output", output_absolute);
    mask(&mut parameters, "target_dir", target_dir_absolute);
    PublishSpec {
        version: spec.version,
        provider_id: spec.provider_id.clone(),
        project_path: String::new(),
        parameters,
    }
}

fn text_under<'a>(spec: &'a PublishSpec, key: &str) -> (r: Option<&'a String>)
    ensures
        match r {
            Some(s) => lookup(spec.parameters@, key@) == Some(SpecValue::String(*s)),
            None => !(lookup(spec.parameters@, key@) matches Some(SpecValue::String(_))),
        },
{
    match spec.parameters.get(key) {
        Some(SpecValue::String(s)) => Some(s),
        _ => None,
    }
}

/// Removes machine-specific paths for export: the project path, and an
/// absolute `output` or `target_dir`.
pub fn sanitize_for_export(spec: &PublishSpec) -> (r: PublishSpec)
    ensures
        r.version == spec.version,
        r.provider_id@ == spec.provider_id@,
        r.project_path@.len() == 0,
        exists|o: bool, t: bool| params_model(r.parameters@) == mask_path(
            mask_path(params_model(spec.parameters@), "output"@, o),
            "target_dir"@,
            t,
        ),
{
    let output_absolute = match text_under(spec, "output") {
        Some(s) => path_is_absolute(s.as_str()),
        None => false,
    };
    let target_absolute = match text_under(spec, "target_dir") {
        Some(s) => path_is_absolute(s.as_str()),
        None => false,
    };
    sanitize_with(spec, output_absolute, target_absolute)
}

/// The configuration format version this library reads.
pub const CONFIG_VERSION: u32 = 1;

/// A saved set of build settings.
#[derive(Debug)]
pub struct ConfigProfile {
    pub name: String,
    pub provider_id: String,
    pub parameters: StrMap<SpecValue>,
    /// RFC 3339 text.
    pub created_at: String,
    pub is_system_default: bool,
}

/// An exported configuration.
#[derive(Debug)]
pub struct ConfigExport {
    pub version: u32,
    /// RFC 3339 text.
    pub exported_at: String,
    pub profiles: Vec<ConfigProfile>,
}

/// Why an imported configuration is refused.
#[derive(Debug)]
pub enum ImportError {
    UnsupportedVersion(u32),
    InvalidFormat(String),
    ProviderNotFound(String),
    ValidationFailed(String),
}

/// An import failure as contracts see it.
pub enum ImportFault {
    UnsupportedVersion(u32),
    ProviderNotFound(Seq<char>),
    /// The parameter whose value has the wrong type.
    WrongType(Seq<char>),
}

/// A value has the shape a parameter type asks for.
pub open spec fn shape_fits(ty: ParameterType, v: SpecValue) -> bool {
    match ty {
        ParameterType::Boolean => v is Bool,
        ParameterType::String => v is String,
        ParameterType::Array => v is List,
        ParameterType::Dict => v is Dict,
    }
}

/// The first parameter the schema knows whose value does not fit its
/// type; unknown parameters are let through.
pub open spec fn first_misfit(schema: Seq<(Seq<char>, DefView)>, params: Seq<(Seq<char>, SpecValue)>) -> Option<Seq<char>>
    decreases params.len(),
{
    if params.len() == 0 {
        None
    } else {
        match lookup(schema, params[0].0) {
            Some(d) => if !shape_fits(d.ty, params[0].1) {
                Some(params[0].0)
            } else {
                first_misfit(schema, params.drop_first())
            },
            None => first_misfit(schema, params.drop_first()),
        }
    }
}

/// The verdict on the profiles, in order: each must name a provider, and
/// its parameters must fit that provider's schema.
pub open spec fn profiles_fault(profiles: Seq<ConfigProfile>) -> Option<ImportFault>
    decreases profiles.len(),
{
    if profiles.len() == 0 {
        None
    } else {
        let p = profiles[0];
        match kind_named(p.provider_id@) {
            None => Some(ImportFault::ProviderNotFound(p.provider_id@)),
            Some(k) => match first_misfit(builtin_defs(k), p.parameters@) {
                Some(key) => Some(ImportFault::WrongType(key)),
                None => profiles_fault(profiles.drop_first()),
            },
        }
    }
}

/// The verdict on an imported configuration.
pub open spec fn import_fault(config: ConfigExport) -> Option<ImportFault> {
    if config.version > CONFIG_VERSION {
        Some(ImportFault::UnsupportedVersion(config.version))
    } else {
        profiles_fault(config.profiles@)
    }
}

impl ImportError {
    pub open spec fn fault(self) -> Option<ImportFault> {
        match self {
            ImportError::UnsupportedVersion(v) => Some(ImportFault::UnsupportedVersion(v)),
            ImportError::ProviderNotFound(p) => Some(ImportFault::ProviderNotFound(p@)),
            ImportError::ValidationFailed(_) => None,
            ImportError::InvalidFormat(_) => None,
        }
    }
}

/// The parameter whose value does not fit, if any.
fn find_misfit(schema: &crate::parameter::ParameterSchema, params: &StrMap<SpecValue>) -> (r: Option<usize>)
    ensures
        match r {
            Some(i) => i < params@.len() && first_misfit(schema_view(schema.parameters@), params@) == Some(params@[i as int].0),
            None => first_misfit(schema_view(schema.parameters@), params@) is None,
        },
{
    let ghost sv = schema_view(schema.parameters@);
    let n = params.len();
    assert(params@.subrange(0, n as int) =~= params@);
    let mut i: usize = 0;
    while i < n
        invariant
            n == params@.len(),
            i <= n,
            sv == schema_view(schema.parameters@),
            first_misfit(sv, params@) == first_misfit(sv, params@.subrange(i as int, n as int)),
        decreases n - i,
    {
        let ghost rest = params@.subrange(i as int, n as int);
        assert(rest[0] == params@[i as int]);
        assert(rest.drop_first() =~= params@.subrange(i + 1, n as int));
        let key = params.key_at(i);
        proof {
            lemma_schema_lookup(schema.parameters@, key@);
        }
        match schema.parameters.get(key.as_str()) {
            Some(def) => {
                let fits = match (def.param_type, params.value_at(i)) {
                    (ParameterType::Boolean, SpecValue::Bool(_)) => true,
                    (ParameterType::String, SpecValue::String(_)) => true,
                    (ParameterType::Array, SpecValue::List(_)) => true,
                    (ParameterType::Dict, SpecValue::Dict(_)) => true,
                    _ => false,
                };
                if !fits {
                    return Some(i);
                }
            },
            None => {},
        }
        i = i + 1;
    }
    None
}

/// Checks an imported configuration: a newer format version is refused,
/// each profile must name a known provider, and each parameter the
/// provider's schema knows must hold a value of its type.
pub fn validate_import(config: &ConfigExport) -> (r: Result<(), ImportError>)
    ensures
        match r {
            Ok(()) => import_fault(*config) is None,
            Err(e) => match import_fault(*config) {
                Some(ImportFault::WrongType(_)) => e is ValidationFailed,
                Some(f) => e.fault() == Some(f),
                None => false,
            },
        },
{
    if config.version > CONFIG_VERSION {
        return Err(ImportError::UnsupportedVersion(config.version));
    }
    let registry = ProviderRegistry::new();
    let n = config.profiles.len();
    assert(config.profiles@.subrange(0, n as int) =~= config.profiles@);
    let mut i: usize = 0;
    while i < n
        invariant
            n == config.profiles@.len(),
            i <= n,
            config.version <= CONFIG_VERSION,
            profiles_fault(config.profiles@) == profiles_fault(config.profiles@.subrange(i as int, n as int)),
        decreases n - i,
    {
        let ghost rest = config.profiles@.subrange(i as int, n as int);
        assert(rest[0] == config.profiles@[i as int]);
        assert(rest.drop_first() =~= config.profiles@.subrange(i + 1, n as int));
        let profile = &config.profiles[i];
        let provider = match registry.get(profile.provider_id.as_str()) {
            Ok(p) => p,
            Err(_) => {
                return Err(ImportError::ProviderNotFound(profile.provider_id.clone()));
            },
        };
        let schema = match provider.get_schema() {
            Ok(s) => s,
            Err(_) => {
                return Err(ImportError::ValidationFailed("failed to load schema".to_owned()));
            },
        };
        match find_misfit(&schema, &profile.parameters) {
            Some(j) => {
                let mut message = "parameter '".to_owned();
                push_str(&mut message, profile.parameters.key_at(j).as_str());
                push_str(&mut message, "' does not have the type its schema asks for");
                return Err(ImportError::ValidationFailed(message));
            },
            None => {},
        }
        i = i + 1;
    }
    Ok(())
}

} // verus!
