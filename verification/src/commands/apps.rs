//! The applications of the monorepo, as they are shown.

use crate::text::{insert_point, sorted_by, str_le};
use crate::utils::config_schema::{no_config, AppConfigSchema};
use crate::utils::pio_parser::{DiscoveredEnvironment, PlatformioConfig};
use crate::table::StringMap;
use vstd::prelude::*;

verus! {

/// One application: where it is, its environments and its configuration.
#[derive(Debug, Clone)]
pub struct AppInfo {
    pub name: String,
    pub path: String,
    pub has_config: bool,
    pub environments: Vec<DiscoveredEnvironment>,
    pub config_schema: AppConfigSchema,
}

/// The monorepo: where it is, where its build tool is, and its applications.
#[derive(Debug, Clone)]
pub struct MonorepoInfo {
    pub path: String,
    pub pio_path: String,
    pub apps: Vec<AppInfo>,
}

/// The key by which applications are put in order: the name.
pub open spec fn app_key() -> spec_fn(AppInfo) -> Seq<char> {
    |app: AppInfo| app.name@
}

/// Puts together what is known of one application. A project file that could
/// not be parsed leaves it without environments, a configuration header that
/// could not be read leaves it without configuration; neither is an error.
pub fn get_app_info(
    name: String,
    path: String,
    parsed: Result<PlatformioConfig, String>,
    schema: Result<AppConfigSchema, String>,
) -> (info: AppInfo)
    ensures
        info.name == name,
        info.path == path,
        info.environments@ == (match parsed {
            Ok(config) => config.environments@,
            Err(_) => Seq::empty(),
        }),
        match schema {
            Ok(s) => info.config_schema == s,
            Err(_) => info.config_schema@ == no_config() && info.config_schema.platform_conditional.wf(),
        },
        info.has_config == info.config_schema.has_config,
{
    let environments = match parsed {
        Ok(config) => config.environments,
        Err(_) => Vec::new(),
    };
    let config_schema = match schema {
        Ok(s) => s,
        Err(_) => {
            let none = AppConfigSchema {
                has_config: false,
                defines: Vec::new(),
                platform_conditional: StringMap::new(),
            };
            assert(none@.defines =~= Seq::empty());
            assert(none@.platform_conditional =~= Map::empty());
            none
        },
    };
    AppInfo { name, path, has_config: config_schema.has_config, environments, config_schema }
}

/// Puts the applications found in the monorepo in the order of their names.
pub fn discover_apps(monorepo_path: String, pio_path: String, apps: Vec<AppInfo>) -> (info:
    MonorepoInfo)
    ensures
        info.path == monorepo_path,
        info.pio_path == pio_path,
        info.apps@ == sorted_by(apps@, app_key()),
{
    let mut rest = apps;
    let mut sorted: Vec<AppInfo> = Vec::new();
    assert(apps@.subrange(apps@.len() as int, apps@.len() as int) =~= Seq::<AppInfo>::empty());
    while rest.len() > 0
        invariant
            rest@.len() <= apps@.len(),
            rest@ == apps@.subrange(0, rest@.len() as int),
            sorted@ == sorted_by(apps@.subrange(rest@.len() as int, apps@.len() as int), app_key()),
        decreases rest@.len(),
    {
        let ghost n = rest@.len() as int;
        let ghost tail = apps@.subrange(n, apps@.len() as int);
        let app = match rest.pop() {
            Some(app) => app,
            None => {
                return MonorepoInfo { path: monorepo_path, pio_path, apps: sorted };
            },
        };
        proof {
            let grown = apps@.subrange(n - 1, apps@.len() as int);
            assert(grown.drop_first() =~= tail);
            assert(grown[0] == app);
            assert(rest@ =~= apps@.subrange(0, n - 1));
        }
        let mut at: usize = 0;
        assert(sorted@.subrange(0, sorted@.len() as int) =~= sorted@);
        while at < sorted.len() && !str_le(app.name.as_str(), sorted[at].name.as_str())
            invariant
                at <= sorted@.len(),
                insert_point(sorted@, app.name@, app_key()) == at + insert_point(
                    sorted@.subrange(at as int, sorted@.len() as int),
                    app.name@,
                    app_key(),
                ),
            decreases sorted@.len() - at,
        {
            assert(sorted@.subrange(at as int, sorted@.len() as int).drop_first()
                =~= sorted@.subrange(at as int + 1, sorted@.len() as int));
            at += 1;
        }
        sorted.insert(at, app);
    }
    assert(apps@.subrange(0, apps@.len() as int) =~= apps@);
    MonorepoInfo { path: monorepo_path, pio_path, apps: sorted }
}

} // verus!
