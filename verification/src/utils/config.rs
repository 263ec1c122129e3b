use crate::error::ImportError;
use crate::network::identity_of;
use crate::network::network_type_named;
use crate::network::resolve;
use crate::network::NetworkIdentity;
use crate::text::parse_number;
use crate::text::parsed_number;
use crate::text::same_text;
use vstd::prelude::*;
use vstd::string::StringExecFns;

verus! {

/// Deployment environment a configuration was written for.
#[derive(Clone, Copy, Debug, PartialEq, Eq, Structural)]
pub enum Env {
    Dev,
    Uat,
    Prod,
}

impl Env {
    /// The environment that a name stands for: `dev`, `uat` or `prod`,
    /// written exactly so.
    pub open spec fn named(name: Seq<char>) -> Option<Env> {
        if name == "dev"@ {
            Some(Env::Dev)
        } else if name == "uat"@ {
            Some(Env::Uat)
        } else if name == "prod"@ {
            Some(Env::Prod)
        } else {
            None
        }
    }

    /// The name an environment is written as.
    pub open spec fn spec_name(self) -> Seq<char> {
        match self {
            Env::Dev => "dev"@,
            Env::Uat => "uat"@,
            Env::Prod => "prod"@,
        }
    }

    /// Reads an environment out of its name.
    pub fn from_name(name: &str) -> (r: Option<Env>)
        ensures
            r == Env::named(name@),
    {
        if same_text(name, "dev") {
            Some(Env::Dev)
        } else if same_text(name, "uat") {
            Some(Env::Uat)
        } else if same_text(name, "prod") {
            Some(Env::Prod)
        } else {
            None
        }
    }

    /// Writes the environment as its name.
    pub fn name(&self) -> (r: String)
        ensures
            r@ == self.spec_name(),
    {
        match self {
            Env::Dev => "dev".to_owned(),
            Env::Uat => "uat".to_owned(),
            Env::Prod => "prod".to_owned(),
        }
    }
}

/// Reading a name back gives the environment it was written from.
pub proof fn lemma_env_name_round_trip(env: Env)
    ensures
        Env::named(env.spec_name()) == Some(env),
{
    reveal_strlit("dev");
    reveal_strlit("uat");
    reveal_strlit("prod");
    assert("dev"@.len() == 3 && "uat"@.len() == 3 && "prod"@.len() == 4);
    assert("dev"@[0] == 'd' && "uat"@[0] == 'u');
}

/// The variables of the environment that a configuration is made of, each
/// as it was found: `None` for one that is not set.
#[derive(Clone, Debug, PartialEq, Eq, Default)]
pub struct EnvVars {
    pub env: Option<String>,
    pub network: Option<String>,
    pub netsuffix: Option<String>,
    pub app_dir: Option<String>,
    pub home_dir: Option<String>,
    pub rpc_url: Option<String>,
    pub db_uri: Option<String>,
    pub smtp_host: Option<String>,
    pub smtp_port: Option<String>,
    pub smtp_from: Option<String>,
    pub smtp_to: Option<String>,
}

/// The characters of a variable that is set.
pub open spec fn text_of(value: Option<String>) -> Option<Seq<char>> {
    match value {
        Some(text) => Some(text@),
        None => None,
    }
}

/// The variables as mathematical values.
pub struct EnvVarsModel {
    pub env: Option<Seq<char>>,
    pub network: Option<Seq<char>>,
    pub netsuffix: Option<Seq<char>>,
    pub app_dir: Option<Seq<char>>,
    pub home_dir: Option<Seq<char>>,
    pub rpc_url: Option<Seq<char>>,
    pub db_uri: Option<Seq<char>>,
    pub smtp_host: Option<Seq<char>>,
    pub smtp_port: Option<Seq<char>>,
    pub smtp_from: Option<Seq<char>>,
    pub smtp_to: Option<Seq<char>>,
}

impl View for EnvVars {
    type V = EnvVarsModel;

    open spec fn view(&self) -> EnvVarsModel {
        EnvVarsModel {
            env: text_of(self.env),
            network: text_of(self.network),
            netsuffix: text_of(self.netsuffix),
            app_dir: text_of(self.app_dir),
            home_dir: text_of(self.home_dir),
            rpc_url: text_of(self.rpc_url),
            db_uri: text_of(self.db_uri),
            smtp_host: text_of(self.smtp_host),
            smtp_port: text_of(self.smtp_port),
            smtp_from: text_of(self.smtp_from),
            smtp_to: text_of(self.smtp_to),
        }
    }
}

/// The settings of one run.
#[derive(Clone, Debug, PartialEq, Eq)]
pub struct Config {
    pub env: Env,
    pub network_id: NetworkIdentity,
    pub app_dir: String,
    pub rpc_url: Option<String>,
    pub db_uri: String,
    pub smtp_host: String,
    pub smtp_port: u16,
    pub smtp_from: String,
    pub smtp_to: String,
}

/// The settings as a mathematical value.
pub struct ConfigModel {
    pub env: Env,
    pub network_id: NetworkIdentity,
    pub app_dir: Seq<char>,
    pub rpc_url: Option<Seq<char>>,
    pub db_uri: Seq<char>,
    pub smtp_host: Seq<char>,
    pub smtp_port: u16,
    pub smtp_from: Seq<char>,
    pub smtp_to: Seq<char>,
}

impl View for Config {
    type V = ConfigModel;

    open spec fn view(&self) -> ConfigModel {
        ConfigModel {
            env: self.env,
            network_id: self.network_id,
            app_dir: self.app_dir@,
            rpc_url: text_of(self.rpc_url),
            db_uri: self.db_uri@,
            smtp_host: self.smtp_host@,
            smtp_port: self.smtp_port,
            smtp_from: self.smtp_from@,
            smtp_to: self.smtp_to@,
        }
    }
}

/// The suffix that the variable for it gives: a number if the variable is
/// set to one, and none if it is unset, empty or anything else.
pub open spec fn configured_suffix(netsuffix: Option<Seq<char>>) -> Option<u32> {
    match netsuffix {
        None => None,
        Some(text) => match parsed_number(text, u32::MAX as u64) {
            Some(n) => Some(n as u32),
            None => None,
        },
    }
}

/// The application directory: the one that is set, if it is not empty, and
/// otherwise `.rusty-kaspa` under the home directory.
pub open spec fn configured_app_dir(
    app_dir: Option<Seq<char>>,
    home_dir: Option<Seq<char>>,
) -> Option<Seq<char>> {
    if app_dir is Some && app_dir->0.len() > 0 {
        app_dir
    } else {
        match home_dir {
            Some(home) => Some(home + "/.rusty-kaspa"@),
            None => None,
        }
    }
}

/// The settings that the variables give. Every variable but the suffix, the
/// application directory and the RPC URL must be set; the environment, the
/// network and the port must be readable; the network and the suffix must
/// make an identity.
pub open spec fn configured(vars: EnvVarsModel) -> Option<ConfigModel> {
    if vars.env is Some && Env::named(vars.env->0) is Some && vars.network is Some && identity_of(
        network_type_named(vars.network->0),
        configured_suffix(vars.netsuffix),
    ) is Ok && configured_app_dir(vars.app_dir, vars.home_dir) is Some && vars.db_uri is Some
        && vars.smtp_host is Some && vars.smtp_port is Some && parsed_number(
        vars.smtp_port->0,
        u16::MAX as u64,
    ) is Some && vars.smtp_from is Some && vars.smtp_to is Some {
        Some(
            ConfigModel {
                env: Env::named(vars.env->0)->0,
                network_id: identity_of(
                    network_type_named(vars.network->0),
                    configured_suffix(vars.netsuffix),
                )->Ok_0,
                app_dir: configured_app_dir(vars.app_dir, vars.home_dir)->0,
                rpc_url: vars.rpc_url,
                db_uri: vars.db_uri->0,
                smtp_host: vars.smtp_host->0,
                smtp_port: parsed_number(vars.smtp_port->0, u16::MAX as u64)->0 as u16,
                smtp_from: vars.smtp_from->0,
                smtp_to: vars.smtp_to->0,
            },
        )
    } else {
        None
    }
}

/// The value of a variable that must be set.
fn required(value: Option<String>) -> (r: Result<String, ImportError>)
    ensures
        match value {
            Some(text) => r is Ok && r->Ok_0@ == text@,
            None => r is Err && r->Err_0 == ImportError::InvalidConfiguration,
        },
{
    match value {
        Some(text) => Ok(text),
        None => Err(ImportError::InvalidConfiguration),
    }
}

impl Config {
    /// Makes the settings out of the variables of the environment.
    pub fn from_env(vars: EnvVars) -> (r: Result<Config, ImportError>)
        ensures
            match configured(vars@) {
                Some(config) => r is Ok && r->Ok_0@ == config,
                None => r is Err && r->Err_0 == ImportError::InvalidConfiguration,
            },
    {
        let env_name: String = required(vars.env)?;
        let env = match Env::from_name(env_name.as_str()) {
            Some(env) => env,
            None => {
                return Err(ImportError::InvalidConfiguration);
            },
        };
        let network: String = required(vars.network)?;
        let suffix: Option<u32> = match vars.netsuffix {
            None => None,
            Some(text) => match parse_number(text.as_str(), 0xffff_ffff) {
                Some(n) => Some(n as u32),
                None => None,
            },
        };
        let network_id = match resolve(network.as_str(), suffix) {
            Ok(id) => id,
            Err(_) => {
                return Err(ImportError::InvalidConfiguration);
            },
        };
        let app_dir: String = match vars.app_dir {
            Some(dir) if !dir.as_str().is_empty() => dir,
            _ => {
                let mut dir: String = required(vars.home_dir)?;
                dir.append("/.rusty-kaspa");
                dir
            },
        };
        let db_uri: String = required(vars.db_uri)?;
        let smtp_host: String = required(vars.smtp_host)?;
        let port_text: String = required(vars.smtp_port)?;
        let smtp_port: u16 = match parse_number(port_text.as_str(), 0xffff) {
            Some(n) => n as u16,
            None => {
                return Err(ImportError::InvalidConfiguration);
            },
        };
        let smtp_from: String = required(vars.smtp_from)?;
        let smtp_to: String = required(vars.smtp_to)?;
        Ok(
            Config {
                env,
                network_id,
                app_dir,
                rpc_url: vars.rpc_url,
                db_uri,
                smtp_host,
                smtp_port,
                smtp_from,
                smtp_to,
            },
        )
    }
}

} // verus!
