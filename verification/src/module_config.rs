//! Module manifests: what a loadable module declares about itself — platform
//! behaviour, an executable runtime, and the actions it advertises.

use vstd::prelude::*;

use crate::config::ConfigValue;
use crate::text::{chars_of, string_of};

verus! {

#[derive(Debug, Clone)]
pub struct RequirementsConfig {
    pub modules: Vec<String>,
    pub components: Vec<String>,
}

#[derive(Debug, Clone)]
pub struct DatabaseCliConfig {
    pub tables_command: String,
    pub describe_command: String,
    pub query_command: String,
}

#[derive(Debug, Clone)]
pub struct GroupingTemplate {
    pub id: String,
    pub name: String,
    pub pattern_template: String,
}

#[derive(Debug, Clone)]
pub struct NetworkGroupingTemplate {
    pub id: String,
    pub name: String,
}

#[derive(Debug, Clone)]
pub struct SiteGroupingTemplate {
    pub id_template: String,
    pub name_template: String,
    pub pattern_template: String,
}

#[derive(Debug, Clone)]
pub struct MultisiteGroupingTemplate {
    pub network: Option<NetworkGroupingTemplate>,
    pub site: Option<SiteGroupingTemplate>,
}

#[derive(Debug, Clone)]
pub struct DatabaseConfig {
    pub cli: Option<DatabaseCliConfig>,
    pub default_table_prefix: Option<String>,
    pub prefix_detection_suffixes: Option<Vec<String>>,
    pub table_suffixes: Option<Vec<(String, Vec<String>)>>,
    pub protected_suffixes: Option<Vec<String>>,
    pub default_grouping: Option<GroupingTemplate>,
    pub multisite_grouping: Option<MultisiteGroupingTemplate>,
}

#[derive(Debug, Clone)]
pub struct ArgInjectionConfig {
    pub setting_key: String,
    pub arg_template: String,
}

#[derive(Debug, Clone)]
pub struct CliConfig {
    pub tool: String,
    pub display_name: String,
    pub command_template: String,
    pub default_cli_path: Option<String>,
    pub arg_injections: Vec<ArgInjectionConfig>,
}

#[derive(Debug, Clone)]
pub struct DiscoveryConfig {
    pub find_command: String,
    pub base_path_transform: String,
    pub display_name_command: Option<String>,
}

#[derive(Debug, Clone)]
pub struct DeployVerification {
    pub path_pattern: String,
    pub verify_command: Option<String>,
    pub verify_error_message: Option<String>,
}

#[derive(Debug, Clone)]
pub struct VersionPatternConfig {
    pub extension: String,
    pub pattern: String,
}

#[derive(Debug, Clone)]
pub struct BuildConfig {
    pub artifact_extensions: Vec<String>,
    pub script_names: Vec<String>,
    pub command_template: Option<String>,
}

#[derive(Debug, Clone, Copy, PartialEq, Eq, Structural)]
pub enum RuntimeType {
    Python,
    Shell,
    Cli,
}

#[derive(Debug, Clone)]
pub struct RuntimeConfig {
    pub runtime_type: RuntimeType,
    pub entrypoint: Option<String>,
    pub dependencies: Option<Vec<String>>,
    pub playwright_browsers: Option<Vec<String>>,
    pub args: Option<String>,
    pub default_site: Option<String>,
}

#[derive(Debug, Clone)]
pub struct SelectOption {
    pub value: String,
    pub label: String,
}

#[derive(Debug, Clone)]
pub struct InputConfig {
    pub id: String,
    pub input_type: String,
    pub label: String,
    pub placeholder: Option<String>,
    pub default: Option<ConfigValue>,
    pub min: Option<i32>,
    pub max: Option<i32>,
    pub options: Option<Vec<SelectOption>>,
    pub arg: String,
}

#[derive(Debug, Clone)]
pub struct OutputSchema {
    pub schema_type: String,
    pub items: Option<Vec<(String, String)>>,
}

#[derive(Debug, Clone)]
pub struct OutputConfig {
    pub schema: OutputSchema,
    pub display: String,
    pub selectable: bool,
}

#[derive(Debug, Clone)]
pub struct ActionConfig {
    pub id: String,
    pub label: String,
    pub action_type: String,
    pub builtin: Option<String>,
    pub column: Option<String>,
    pub endpoint: Option<String>,
    pub method: Option<String>,
    pub requires_auth: Option<bool>,
}

#[derive(Debug, Clone)]
pub struct SettingConfig {
    pub id: String,
    pub setting_type: String,
    pub label: String,
    pub placeholder: Option<String>,
    pub default: Option<ConfigValue>,
}

#[derive(Debug, Clone)]
pub struct ModuleManifest {
    pub id: String,
    pub name: String,
    pub version: String,
    pub icon: String,
    pub description: Option<String>,
    pub author: Option<String>,
    pub homepage: Option<String>,
    pub config_schema: Option<String>,
    pub default_pinned_files: Vec<String>,
    pub default_pinned_logs: Vec<String>,
    pub database: Option<DatabaseConfig>,
    pub cli: Option<CliConfig>,
    pub discovery: Option<DiscoveryConfig>,
    pub deploy: Vec<DeployVerification>,
    pub version_patterns: Vec<VersionPatternConfig>,
    pub build: Option<BuildConfig>,
    pub commands: Vec<String>,
    pub runtime: Option<RuntimeConfig>,
    pub inputs: Vec<InputConfig>,
    pub output: Option<OutputConfig>,
    pub actions: Vec<ActionConfig>,
    pub settings: Vec<SettingConfig>,
    pub requires: Option<RequirementsConfig>,
    pub manifest_dir: Option<String>,
}

impl ModuleManifest {
    /// Whether this module contributes a CLI tool.
    pub fn has_cli(&self) -> (r: bool)
        ensures
            r == (self.cli is Some),
    {
        self.cli.is_some()
    }

    /// Whether this module has a runnable entrypoint.
    pub fn has_runtime(&self) -> (r: bool)
        ensures
            r == (self.runtime is Some),
    {
        self.runtime.is_some()
    }
}

/// The directory part of a slash-separated path: everything before the last
/// separator; the path itself when it has none, the root when it is the only
/// separator.
pub open spec fn spec_dirname(path: Seq<char>) -> Seq<char> {
    if exists|i: int| 0 <= i < path.len() && path[i] == '/' {
        let last = choose|i: int|
            0 <= i < path.len() && path[i] == '/' && (forall|j: int|
                i < j < path.len() ==> path[j] != '/');
        if last == 0 {
            seq!['/']
        } else {
            path.subrange(0, last)
        }
    } else {
        path
    }
}

impl DiscoveryConfig {
    /// Turns a discovered path into the base path this module works under:
    /// the `dirname` transform strips the final path component, any other
    /// transform keeps the path as it is.
    pub fn transform_to_base_path(&self, path: &str) -> (r: String)
        ensures
            self.base_path_transform@ == "dirname"@ ==> r@ == spec_dirname(path@),
            self.base_path_transform@ != "dirname"@ ==> r@ == path@,
    {
        let dirname = String::from_str("dirname");
        if self.base_path_transform.eq(&dirname) {
            let v = chars_of(path);
            let mut last: Option<usize> = None;
            let mut i: usize = 0;
            while i < v.len()
                invariant
                    0 <= i <= v@.len(),
                    match last {
                        Some(l) => l < i && v@[l as int] == '/' && (forall|j: int|
                            l < j < i ==> v@[j] != '/'),
                        None => forall|j: int| 0 <= j < i ==> v@[j] != '/',
                    },
                decreases v@.len() - i,
            {
                if v[i] == '/' {
                    last = Some(i);
                }
                i = i + 1;
            }
            match last {
                None => {
                    proof {
                        assert(!(exists|k: int| 0 <= k < v@.len() && v@[k] == '/'));
                    }
                    let out = string_of(&v);
                    out
                },
                Some(l) => {
                    proof {
                        assert(v@[l as int] == '/');
                        let w = choose|k: int|
                            0 <= k < v@.len() && v@[k] == '/' && (forall|j: int|
                                k < j < v@.len() ==> v@[j] != '/');
                        if w != l as int {
                            if w < l as int {
                                assert(v@[l as int] != '/');
                            } else {
                                assert(v@[w] != '/');
                            }
                            assert(false);
                        }
                    }
                    if l == 0 {
                        let mut root: Vec<char> = Vec::new();
                        root.push('/');
                        proof {
                            assert(root@ =~= seq!['/']);
                        }
                        string_of(&root)
                    } else {
                        let mut out: Vec<char> = Vec::new();
                        let mut j: usize = 0;
                        while j < l
                            invariant
                                0 <= j <= l < v@.len(),
                                out@ == v@.subrange(0, j as int),
                            decreases l - j,
                        {
                            out.push(v[j]);
                            proof {
                                assert(out@ =~= v@.subrange(0, j + 1));
                            }
                            j = j + 1;
                        }
                        string_of(&out)
                    }
                },
            }
        } else {
            String::from_str(path)
        }
    }
}

} // verus!
