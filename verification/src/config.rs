//! Rules of the development server's configuration step: which module
//! system a project uses, how the TypeScript configuration is run, and
//! which user-defined functions are fresh.
use vstd::prelude::*;

use crate::json::{JsonValue, JsonView, json_as_str, json_field};
use crate::util::owned;

verus! {

/// The kind of a user-defined function.
#[derive(Debug, Clone, Copy, PartialEq, Eq, Structural)]
pub enum UdfKind {
    Resolver,
    Authorizer,
}

/// A user-defined function found in the schema.
#[derive(Debug)]
pub struct DetectedUdf {
    pub udf_name: String,
    pub udf_kind: UdfKind,
    /// Whether its build is newer than the last parsed schema.
    pub fresh: bool,
}

/// The module system of a JavaScript project.
#[derive(Debug, Clone, Copy, PartialEq, Eq, Structural)]
pub enum ModuleType {
    CommonJS,
    Esm,
}

impl Default for ModuleType {
    fn default() -> (r: ModuleType)
        ensures
            r == ModuleType::CommonJS,
    {
        ModuleType::CommonJS
    }
}

/// The module type a `package.json` document declares: its `type` field,
/// when it is a string, selects ES modules for `module` and CommonJS
/// otherwise; no string there declares nothing.
pub open spec fn declared_module_type(doc: JsonView) -> Option<ModuleType> {
    match json_as_str(json_field(doc, "type"@)) {
        Some(t) => if t == "module"@ {
            Some(ModuleType::Esm)
        } else {
            Some(ModuleType::CommonJS)
        },
        None => None,
    }
}

impl ModuleType {
    /// The module type a `package.json` document declares, if any.
    pub fn from_package_json(package_json: &JsonValue) -> (r: Option<ModuleType>)
        ensures
            r == declared_module_type(package_json@),
    {
        let ty = match package_json.get("type") {
            Some(v) => v.as_str(),
            None => None,
        };
        match ty {
            Some(t) => {
                if crate::util::str_eq(t, "module") {
                    Some(ModuleType::Esm)
                } else {
                    Some(ModuleType::CommonJS)
                }
            },
            None => None,
        }
    }
}

/// A file modification time: seconds and nanoseconds since the Unix epoch.
#[derive(Debug, Clone, Copy, PartialEq, Eq, Structural)]
pub struct FileTime {
    pub secs: i64,
    pub nanos: u32,
}

/// `a` is strictly later than `b`.
pub open spec fn later(a: FileTime, b: FileTime) -> bool {
    a.secs > b.secs || (a.secs == b.secs && a.nanos > b.nanos)
}

/// A function is fresh when both times are known and its entry point was
/// written after the schema was last parsed.
pub fn is_fresh(registry_mtime: Option<FileTime>, entrypoint_mtime: Option<FileTime>) -> (r: bool)
    ensures
        r == (registry_mtime matches Some(reg) && entrypoint_mtime matches Some(ent) && later(ent, reg)),
{
    match (registry_mtime, entrypoint_mtime) {
        (Some(reg), Some(ent)) => ent.secs > reg.secs || (ent.secs == reg.secs && ent.nanos > reg.nanos),
        _ => false,
    }
}

/// The time the schema was last parsed, from its offset in milliseconds
/// since the Unix epoch.
pub fn registry_mtime(offset_millis: u64) -> (r: FileTime)
    ensures
        r.secs == offset_millis / 1000,
        r.nanos == (offset_millis % 1000) * 1_000_000,
{
    let secs = (offset_millis / 1000) as i64;
    let nanos = ((offset_millis % 1000) * 1_000_000) as u32;
    FileTime { secs, nanos }
}

/// The detected function with its freshness.
pub fn detect_udf(
    udf_kind: UdfKind,
    udf_name: String,
    registry_mtime: Option<FileTime>,
    entrypoint_mtime: Option<FileTime>,
) -> (r: DetectedUdf)
    ensures
        r.udf_name == udf_name,
        r.udf_kind == udf_kind,
        r.fresh == (registry_mtime matches Some(reg) && entrypoint_mtime matches Some(ent) && later(ent, reg)),
{
    DetectedUdf { udf_name, udf_kind, fresh: is_fresh(registry_mtime, entrypoint_mtime) }
}

/// The configuration parser script for the module type.
pub fn config_parser_script<'a>(module_type: ModuleType, common_js_script: &'a str, esm_script: &'a str) -> (r: &'a str)
    ensures
        r@ == (match module_type {
            ModuleType::CommonJS => common_js_script@,
            ModuleType::Esm => esm_script@,
        }),
{
    match module_type {
        ModuleType::CommonJS => common_js_script,
        ModuleType::Esm => esm_script,
    }
}

/// The compiler options that make `ts-node` load ES modules.
pub const ESM_COMPILER_OPTIONS: &'static str = "{\"module\": \"esnext\", \"moduleResolution\": \"node\", \"esModuleInterop\": true}";

/// The arguments `node` runs the configuration parser with.
pub open spec fn node_args_spec(
    module_type: ModuleType,
    ts_node: Seq<char>,
    parser: Seq<char>,
    ts_config: Seq<char>,
    output: Seq<char>,
) -> Seq<Seq<char>> {
    match module_type {
        ModuleType::CommonJS => seq![ts_node, parser, ts_config, output],
        ModuleType::Esm => seq![
            ts_node,
            "--compilerOptions"@,
            ESM_COMPILER_OPTIONS@,
            "--esm"@,
            parser,
            ts_config,
            output
        ],
    }
}

/// The arguments `node` runs the configuration parser with: the `ts-node`
/// script, (for ES modules, the options that enable them), the parser
/// script, the TypeScript configuration and the schema file to write.
pub fn node_args(
    module_type: ModuleType,
    ts_node_path: &str,
    config_parser_path: &str,
    ts_config_path: &str,
    generated_config_path: &str,
) -> (r: Vec<String>)
    ensures
        r@.map_values(|s: String| s@) == node_args_spec(
            module_type,
            ts_node_path@,
            config_parser_path@,
            ts_config_path@,
            generated_config_path@,
        ),
{
    let mut args: Vec<String> = Vec::new();
    args.push(owned(ts_node_path));
    match module_type {
        ModuleType::CommonJS => {},
        ModuleType::Esm => {
            args.push(owned("--compilerOptions"));
            args.push(owned(ESM_COMPILER_OPTIONS));
            args.push(owned("--esm"));
        },
    }
    args.push(owned(config_parser_path));
    args.push(owned(ts_config_path));
    args.push(owned(generated_config_path));
    let ghost target = node_args_spec(
        module_type,
        ts_node_path@,
        config_parser_path@,
        ts_config_path@,
        generated_config_path@,
    );
    assert(args@.map_values(|s: String| s@) =~= target);
    args
}

/// Why the configuration could not be built.
#[derive(Debug)]
pub enum ConfigError {
    /// A path of the project is not valid UTF-8.
    ProjectPath,
    /// Running the TypeScript configuration failed; its error output.
    LoadTsConfig(String),
}

/// The outcome of running the TypeScript configuration: when `node`
/// failed, `LoadTsConfig` with its error output; else the path of the
/// generated schema, or `ProjectPath` when that path is not valid UTF-8
/// (`None`).
pub fn ts_config_outcome(node_succeeded: bool, stderr_text: &str, generated_config_path: Option<&str>) -> (r: Result<
    String,
    ConfigError,
>)
    ensures
        !node_succeeded ==> (r matches Err(ConfigError::LoadTsConfig(m)) && m@ == stderr_text@),
        node_succeeded ==> match generated_config_path {
            Some(p) => r matches Ok(x) && x@ == p@,
            None => r matches Err(e) && e is ProjectPath,
        },
{
    if !node_succeeded {
        return Err(ConfigError::LoadTsConfig(owned(stderr_text)));
    }
    match generated_config_path {
        Some(p) => Ok(owned(p)),
        None => Err(ConfigError::ProjectPath),
    }
}

} // verus!
