//! Tower configuration: typed parameters that remember where their value
//! came from, the command line options, and the verification of a
//! complete configuration.

use vstd::prelude::*;
use vstd::string::*;

verus! {

/// Where a configuration value came from. The overwrite policy goes,
/// from weakest to strongest: defaults, configuration file, command line.
#[derive(Clone, Copy, Debug, PartialEq, Eq, Structural)]
pub enum ParamSource {
    ConfigFile,
    CommandLine,
    Default,
}

/// One configuration value together with its provenance.
#[derive(Debug, PartialEq, Eq)]
pub struct ConfigParam<T> {
    pub inner: T,
    pub source: ParamSource,
    pub sensitive: bool,
}

impl<T> ConfigParam<T> {
    /// A value read from the configuration file.
    pub fn from_file(inner: T) -> (r: Self)
        ensures
            r.inner == inner,
            r.source is ConfigFile,
            !r.sensitive,
    {
        ConfigParam { inner, source: ParamSource::ConfigFile, sensitive: false }
    }

    /// A value set on the command line.
    pub fn from_cmd(inner: T) -> (r: Self)
        ensures
            r.inner == inner,
            r.source is CommandLine,
            !r.sensitive,
    {
        ConfigParam { inner, source: ParamSource::CommandLine, sensitive: false }
    }

    /// A built-in default.
    pub fn from_default(inner: T) -> (r: Self)
        ensures
            r.inner == inner,
            r.source is Default,
            !r.sensitive,
    {
        ConfigParam { inner, source: ParamSource::Default, sensitive: false }
    }

    /// Replaces the value, keeping its provenance.
    pub fn set_inner(&mut self, inner: T)
        ensures
            final(self).inner == inner,
            final(self).source == old(self).source,
            final(self).sensitive == old(self).sensitive,
    {
        self.inner = inner;
    }

    /// Whether the value is still the built-in default.
    pub fn is_default(&self) -> (r: bool)
        ensures
            r == (self.source is Default),
    {
        matches!(self.source, ParamSource::Default)
    }
}

/// A fresh copy of a string-valued parameter.
pub fn clone_param_string(p: &ConfigParam<String>) -> (r: ConfigParam<String>)
    ensures
        r == *p,
{
    ConfigParam { inner: p.inner.clone(), source: p.source, sensitive: p.sensitive }
}


/// A fresh copy of a parameter whose value is a plain copyable type.
pub fn clone_param_copy<T: Copy>(p: &ConfigParam<T>) -> (r: ConfigParam<T>)
    ensures
        r == *p,
{
    ConfigParam { inner: p.inner, source: p.source, sensitive: p.sensitive }
}

/// Whether a string-valued parameter equals another, field by field.
pub fn eq_param_string(a: &ConfigParam<String>, b: &ConfigParam<String>) -> (r: bool)
    ensures
        r == (a.inner@ == b.inner@ && a.source == b.source && a.sensitive == b.sensitive),
{
    a.inner == b.inner && a.source == b.source && a.sensitive == b.sensitive
}


/// Whether a u16-valued parameter equals another, field by field.
pub fn eq_param_u16(a: &ConfigParam<u16>, b: &ConfigParam<u16>) -> (r: bool)
    ensures
        r == (a.inner == b.inner && a.source == b.source && a.sensitive == b.sensitive),
{
    a.inner == b.inner && a.source == b.source && a.sensitive == b.sensitive
}

/// Whether a u32-valued parameter equals another, field by field.
pub fn eq_param_u32(a: &ConfigParam<u32>, b: &ConfigParam<u32>) -> (r: bool)
    ensures
        r == (a.inner == b.inner && a.source == b.source && a.sensitive == b.sensitive),
{
    a.inner == b.inner && a.source == b.source && a.sensitive == b.sensitive
}

/// Whether a bool-valued parameter equals another, field by field.
pub fn eq_param_bool(a: &ConfigParam<bool>, b: &ConfigParam<bool>) -> (r: bool)
    ensures
        r == (a.inner == b.inner && a.source == b.source && a.sensitive == b.sensitive),
{
    a.inner == b.inner && a.source == b.source && a.sensitive == b.sensitive
}

/// Whether a string equals a literal.
pub fn string_is(s: &String, lit: &str) -> (r: bool)
    ensures
        r == (s@ == lit@),
{
    let t = String::from_str(lit);
    *s == t
}


/// Overwrites a parameter with a command line value, when one was given.
pub fn patch_string(param: &mut ConfigParam<String>, value: Option<String>)
    ensures
        match value {
            Some(v) => final(param).inner == v && final(param).source is CommandLine && !final(param).sensitive,
            None => *final(param) == *old(param),
        },
{
    match value {
        Some(v) => {
            *param = ConfigParam::from_cmd(v);
        },
        None => {},
    }
}

/// Overwrites a numeric parameter with a command line value, when one was
/// given.
pub fn patch_u16(param: &mut ConfigParam<u16>, value: Option<u16>)
    ensures
        match value {
            Some(v) => final(param).inner == v && final(param).source is CommandLine && !final(param).sensitive,
            None => *final(param) == *old(param),
        },
{
    match value {
        Some(v) => {
            *param = ConfigParam::from_cmd(v);
        },
        None => {},
    }
}

/// Overwrites a flag from the command line, only when the flag was set.
pub fn patch_flag(param: &mut ConfigParam<bool>, value: bool)
    ensures
        if value {
            final(param).inner == true && final(param).source is CommandLine && !final(param).sensitive
        } else {
            *final(param) == *old(param)
        },
{
    if value {
        *param = ConfigParam::from_cmd(value);
    }
}

/// Error raised if something is wrong with the configuration.
#[derive(Debug, PartialEq, Eq)]
pub struct ConfigError(pub String);

impl ConfigError {
    /// The message carried.
    pub fn message(&self) -> (r: String)
        ensures
            r@ == self.0@,
    {
        self.0.clone()
    }
}

/// Holds all the command line options.
#[derive(Debug)]
pub struct Opt {
    /// Address the HTTP(s) API will bind to.
    pub api_bind: Option<String>,
    /// Port the HTTP(s) API will bind to.
    pub api_port: Option<u16>,
    /// Address the RPC server will bind to.
    pub rpc_bind: Option<String>,
    /// Port the RPC server will bind to.
    pub rpc_port: Option<u16>,
    /// Network bitcoind is connected to: mainnet, testnet, signet or
    /// regtest.
    pub btc_network: Option<String>,
    /// bitcoind rpcuser.
    pub btc_rpc_user: Option<String>,
    /// bitcoind rpcpassword.
    pub btc_rpc_password: Option<String>,
    /// bitcoind rpcconnect.
    pub btc_rpc_connect: Option<String>,
    /// bitcoind rpcport.
    pub btc_rpc_port: Option<u16>,
    /// The data directory.
    pub data_dir: String,
    /// Run in debug mode.
    pub debug: bool,
    /// Run third party libs in debug mode.
    pub deps_debug: bool,
    /// Overwrite the tower secret key.
    pub overwrite_key: bool,
    /// Create a Tor endpoint beside the clearnet HTTP API.
    pub tor_support: bool,
    /// Run even if the underlying chain has gone too far out of sync.
    pub force_update: bool,
    /// Tor control port.
    pub tor_control_port: Option<u16>,
    /// Port for the onion hidden service to listen on.
    pub onion_hidden_service_port: Option<u16>,
}

/// Holds all configuration options.
#[derive(Debug, PartialEq, Eq)]
pub struct Config {
    // API
    pub api_bind: ConfigParam<String>,
    pub api_port: ConfigParam<u16>,
    // RPC
    pub rpc_bind: ConfigParam<String>,
    pub rpc_port: ConfigParam<u16>,
    // Bitcoind
    pub btc_network: ConfigParam<String>,
    pub btc_rpc_user: ConfigParam<String>,
    pub btc_rpc_password: ConfigParam<String>,
    pub btc_rpc_connect: ConfigParam<String>,
    pub btc_rpc_port: ConfigParam<u16>,
    // Flags
    pub debug: ConfigParam<bool>,
    pub deps_debug: ConfigParam<bool>,
    pub overwrite_key: ConfigParam<bool>,
    pub force_update: ConfigParam<bool>,
    // General
    pub subscription_slots: ConfigParam<u32>,
    pub subscription_duration: ConfigParam<u32>,
    pub expiry_delta: ConfigParam<u32>,
    pub min_to_self_delay: ConfigParam<u16>,
    pub polling_delta: ConfigParam<u16>,
    // Internal API
    pub internal_api_bind: ConfigParam<String>,
    pub internal_api_port: ConfigParam<u32>,
    // Tor
    pub tor_support: ConfigParam<bool>,
    pub tor_control_port: ConfigParam<u16>,
    pub onion_hidden_service_port: ConfigParam<u16>,
}

/// A parameter that still carries its built-in default value.
pub open spec fn def_string(p: ConfigParam<String>, v: Seq<char>) -> bool {
    p.inner@ == v && p.source is Default && !p.sensitive
}

pub open spec fn def_u16(p: ConfigParam<u16>, v: u16) -> bool {
    p.inner == v && p.source is Default && !p.sensitive
}

pub open spec fn def_u32(p: ConfigParam<u32>, v: u32) -> bool {
    p.inner == v && p.source is Default && !p.sensitive
}

pub open spec fn def_bool(p: ConfigParam<bool>, v: bool) -> bool {
    p.inner == v && p.source is Default && !p.sensitive
}

/// The configuration exactly as `Config::default` builds it.
pub open spec fn config_is_default(c: Config) -> bool {
    &&& def_string(c.api_bind, "127.0.0.1"@)
    &&& def_u16(c.api_port, 9814)
    &&& def_bool(c.tor_support, false)
    &&& def_u16(c.tor_control_port, 9051)
    &&& def_u16(c.onion_hidden_service_port, 9814)
    &&& def_string(c.rpc_bind, "127.0.0.1"@)
    &&& def_u16(c.rpc_port, 8814)
    &&& def_string(c.btc_network, "mainnet"@)
    &&& def_string(c.btc_rpc_user, ""@)
    &&& def_string(c.btc_rpc_password, ""@)
    &&& def_string(c.btc_rpc_connect, "localhost"@)
    &&& def_u16(c.btc_rpc_port, 0)
    &&& def_bool(c.debug, false)
    &&& def_bool(c.deps_debug, false)
    &&& def_bool(c.overwrite_key, false)
    &&& def_bool(c.force_update, false)
    &&& def_u32(c.subscription_slots, 10000)
    &&& def_u32(c.subscription_duration, 4320)
    &&& def_u32(c.expiry_delta, 6)
    &&& def_u16(c.min_to_self_delay, 20)
    &&& def_u16(c.polling_delta, 60)
    &&& def_string(c.internal_api_bind, "127.0.0.1"@)
    &&& def_u32(c.internal_api_port, 50051)
}

impl Default for Config {
    /// The tower configuration defaults.
    ///
    /// The defaults are not enough on their own: `btc_rpc_user` and
    /// `btc_rpc_password` are empty so the user is forced to set them.
    fn default() -> (r: Self)
        ensures
            config_is_default(r),
    {
        proof {
            reveal_strlit("");
            assert(""@ =~= Seq::<char>::empty());
        }
        Config {
            api_bind: ConfigParam::from_default(String::from_str("127.0.0.1")),
            api_port: ConfigParam::from_default(9814),
            tor_support: ConfigParam::from_default(false),
            tor_control_port: ConfigParam::from_default(9051),
            onion_hidden_service_port: ConfigParam::from_default(9814),
            rpc_bind: ConfigParam::from_default(String::from_str("127.0.0.1")),
            rpc_port: ConfigParam::from_default(8814),
            btc_network: ConfigParam::from_default(String::from_str("mainnet")),
            btc_rpc_user: ConfigParam::from_default(String::new()),
            btc_rpc_password: ConfigParam::from_default(String::new()),
            btc_rpc_connect: ConfigParam::from_default(String::from_str("localhost")),
            btc_rpc_port: ConfigParam::from_default(0),
            debug: ConfigParam::from_default(false),
            deps_debug: ConfigParam::from_default(false),
            overwrite_key: ConfigParam::from_default(false),
            force_update: ConfigParam::from_default(false),
            subscription_slots: ConfigParam::from_default(10000),
            subscription_duration: ConfigParam::from_default(4320),
            expiry_delta: ConfigParam::from_default(6),
            min_to_self_delay: ConfigParam::from_default(20),
            polling_delta: ConfigParam::from_default(60),
            internal_api_bind: ConfigParam::from_default(String::from_str("127.0.0.1")),
            internal_api_port: ConfigParam::from_default(50051),
        }
    }
}

/// Networks the configuration accepts, before normalization.
pub open spec fn network_recognized(n: Seq<char>) -> bool {
    n == "mainnet"@ || n == "testnet"@ || n == "main"@ || n == "test"@ || n == "regtest"@ || n
        == "signet"@
}

/// `mainnet` and `testnet` shortened to the names bitcoind uses.
pub open spec fn normalized_network(n: Seq<char>) -> Seq<char> {
    if n == "mainnet"@ {
        "main"@
    } else if n == "testnet"@ {
        "test"@
    } else {
        n
    }
}

/// The default bitcoind RPC port of a normalized, recognized network.
pub open spec fn default_rpc_port(n: Seq<char>) -> u16 {
    if n == "main"@ {
        8332
    } else if n == "test"@ {
        18332
    } else if n == "regtest"@ {
        18443
    } else {
        38332
    }
}

impl Config {
    /// Patches the configuration options with the command line options:
    /// every option present on the command line overwrites the stored
    /// parameter; flags overwrite only when set.
    pub fn patch_with_options(&mut self, options: Opt)
        ensures
            (match options.api_bind {
                Some(v) => final(self).api_bind.inner == v && final(self).api_bind.source
                    is CommandLine && !final(self).api_bind.sensitive,
                None => final(self).api_bind == old(self).api_bind,
            }),
            (match options.api_port {
                Some(v) => final(self).api_port.inner == v && final(self).api_port.source
                    is CommandLine && !final(self).api_port.sensitive,
                None => final(self).api_port == old(self).api_port,
            }),
            (match options.rpc_bind {
                Some(v) => final(self).rpc_bind.inner == v && final(self).rpc_bind.source
                    is CommandLine && !final(self).rpc_bind.sensitive,
                None => final(self).rpc_bind == old(self).rpc_bind,
            }),
            (match options.rpc_port {
                Some(v) => final(self).rpc_port.inner == v && final(self).rpc_port.source
                    is CommandLine && !final(self).rpc_port.sensitive,
                None => final(self).rpc_port == old(self).rpc_port,
            }),
            (match options.btc_network {
                Some(v) => final(self).btc_network.inner == v && final(self).btc_network.source
                    is CommandLine && !final(self).btc_network.sensitive,
                None => final(self).btc_network == old(self).btc_network,
            }),
            (match options.btc_rpc_user {
                Some(v) => final(self).btc_rpc_user.inner == v && final(self).btc_rpc_user.source
                    is CommandLine && !final(self).btc_rpc_user.sensitive,
                None => final(self).btc_rpc_user == old(self).btc_rpc_user,
            }),
            (match options.btc_rpc_password {
                Some(v) => final(self).btc_rpc_password.inner == v && final(self).btc_rpc_password.source is CommandLine && !final(self).btc_rpc_password.sensitive,
                None => final(self).btc_rpc_password == old(self).btc_rpc_password,
            }),
            (match options.btc_rpc_connect {
                Some(v) => final(self).btc_rpc_connect.inner == v && final(self).btc_rpc_connect.source is CommandLine && !final(self).btc_rpc_connect.sensitive,
                None => final(self).btc_rpc_connect == old(self).btc_rpc_connect,
            }),
            (match options.btc_rpc_port {
                Some(v) => final(self).btc_rpc_port.inner == v && final(self).btc_rpc_port.source
                    is CommandLine && !final(self).btc_rpc_port.sensitive,
                None => final(self).btc_rpc_port == old(self).btc_rpc_port,
            }),
            (match options.tor_control_port {
                Some(v) => final(self).tor_control_port.inner == v && final(self).tor_control_port.source is CommandLine && !final(self).tor_control_port.sensitive,
                None => final(self).tor_control_port == old(self).tor_control_port,
            }),
            (match options.onion_hidden_service_port {
                Some(v) => final(self).onion_hidden_service_port.inner == v && final(self).onion_hidden_service_port.source is CommandLine && !final(self).onion_hidden_service_port.sensitive,
                None => final(self).onion_hidden_service_port == old(self).onion_hidden_service_port,
            }),
            (if options.tor_support {
                final(self).tor_support.inner == true && final(self).tor_support.source
                    is CommandLine && !final(self).tor_support.sensitive
            } else {
                final(self).tor_support == old(self).tor_support
            }),
            (if options.debug {
                final(self).debug.inner == true && final(self).debug.source is CommandLine
                    && !final(self).debug.sensitive
            } else {
                final(self).debug == old(self).debug
            }),
            (if options.deps_debug {
                final(self).deps_debug.inner == true && final(self).deps_debug.source
                    is CommandLine && !final(self).deps_debug.sensitive
            } else {
                final(self).deps_debug == old(self).deps_debug
            }),
            (if options.overwrite_key {
                final(self).overwrite_key.inner == true && final(self).overwrite_key.source
                    is CommandLine && !final(self).overwrite_key.sensitive
            } else {
                final(self).overwrite_key == old(self).overwrite_key
            }),
            (if options.force_update {
                final(self).force_update.inner == true && final(self).force_update.source
                    is CommandLine && !final(self).force_update.sensitive
            } else {
                final(self).force_update == old(self).force_update
            }),
            final(self).subscription_slots == old(self).subscription_slots,
            final(self).subscription_duration == old(self).subscription_duration,
            final(self).expiry_delta == old(self).expiry_delta,
            final(self).min_to_self_delay == old(self).min_to_self_delay,
            final(self).polling_delta == old(self).polling_delta,
            final(self).internal_api_bind == old(self).internal_api_bind,
            final(self).internal_api_port == old(self).internal_api_port,
    {
        patch_string(&mut self.api_bind, options.api_bind);
        patch_u16(&mut self.api_port, options.api_port);
        patch_string(&mut self.rpc_bind, options.rpc_bind);
        patch_u16(&mut self.rpc_port, options.rpc_port);
        patch_string(&mut self.btc_network, options.btc_network);
        patch_string(&mut self.btc_rpc_user, options.btc_rpc_user);
        patch_string(&mut self.btc_rpc_password, options.btc_rpc_password);
        patch_string(&mut self.btc_rpc_connect, options.btc_rpc_connect);
        patch_u16(&mut self.btc_rpc_port, options.btc_rpc_port);
        patch_u16(&mut self.tor_control_port, options.tor_control_port);
        patch_u16(&mut self.onion_hidden_service_port, options.onion_hidden_service_port);
        patch_flag(&mut self.tor_support, options.tor_support);
        patch_flag(&mut self.debug, options.debug);
        patch_flag(&mut self.deps_debug, options.deps_debug);
        patch_flag(&mut self.overwrite_key, options.overwrite_key);
        patch_flag(&mut self.force_update, options.force_update);
    }

    /// Verifies that the configuration is properly built: the bitcoind
    /// credentials are set and the network is recognized. Normalizes
    /// `mainnet`/`testnet` to the names bitcoind uses and assigns the
    /// network's default RPC port where none was given.
    pub fn verify(&mut self) -> (r: Result<(), ConfigError>)
        ensures
            r is Err <==> (old(self).btc_rpc_user.source is Default || old(self).btc_rpc_password.source is Default || !network_recognized(
                old(self).btc_network.inner@,
            )),
            r is Err ==> *final(self) == *old(self),
            r matches Err(e) ==> e.0@ == (if old(self).btc_rpc_user.source is Default {
                "btc_rpc_user must be set"@
            } else if old(self).btc_rpc_password.source is Default {
                "btc_rpc_password must be set"@
            } else {
                "btc_network not recognized. Expected {mainnet, testnet, signet, regtest}"@
            }),
            r is Ok ==> final(self).btc_network.inner@ == normalized_network(
                old(self).btc_network.inner@,
            ) && final(self).btc_network.source == old(self).btc_network.source && final(self).btc_network.sensitive == old(self).btc_network.sensitive,
            r is Ok ==> final(self).btc_rpc_port.inner == (if old(self).btc_rpc_port.source
                is Default {
                default_rpc_port(normalized_network(old(self).btc_network.inner@))
            } else {
                old(self).btc_rpc_port.inner
            }) && final(self).btc_rpc_port.source == old(self).btc_rpc_port.source && final(self).btc_rpc_port.sensitive == old(self).btc_rpc_port.sensitive,
            r is Ok ==> final(self).api_bind == old(self).api_bind && final(self).api_port == old(self).api_port && final(self).rpc_bind == old(self).rpc_bind && final(self).rpc_port
                == old(self).rpc_port && final(self).btc_rpc_user == old(self).btc_rpc_user
                && final(self).btc_rpc_password == old(self).btc_rpc_password && final(self).btc_rpc_connect == old(self).btc_rpc_connect && final(self).debug == old(self).debug
                && final(self).deps_debug == old(self).deps_debug && final(self).overwrite_key
                == old(self).overwrite_key && final(self).force_update == old(self).force_update
                && final(self).subscription_slots == old(self).subscription_slots && final(self).subscription_duration == old(self).subscription_duration && final(self).expiry_delta
                == old(self).expiry_delta && final(self).min_to_self_delay == old(self).min_to_self_delay && final(self).polling_delta == old(self).polling_delta && final(self).internal_api_bind == old(self).internal_api_bind && final(self).internal_api_port
                == old(self).internal_api_port && final(self).tor_support == old(self).tor_support
                && final(self).tor_control_port == old(self).tor_control_port && final(self).onion_hidden_service_port == old(self).onion_hidden_service_port,
    {
        if self.btc_rpc_user.is_default() {
            return Err(ConfigError(String::from_str("btc_rpc_user must be set")));
        }
        if self.btc_rpc_password.is_default() {
            return Err(ConfigError(String::from_str("btc_rpc_password must be set")));
        }
        // Normalize the network option to the names used by bitcoind.
        if string_is(&self.btc_network.inner, "mainnet") {
            self.btc_network.set_inner(String::from_str("main"));
        } else if string_is(&self.btc_network.inner, "testnet") {
            self.btc_network.set_inner(String::from_str("test"));
        }
        let default_port: u16 = if string_is(&self.btc_network.inner, "main") {
            8332
        } else if string_is(&self.btc_network.inner, "test") {
            18332
        } else if string_is(&self.btc_network.inner, "regtest") {
            18443
        } else if string_is(&self.btc_network.inner, "signet") {
            38332
        } else {
            return Err(
                ConfigError(
                    String::from_str(
                        "btc_network not recognized. Expected {mainnet, testnet, signet, regtest}",
                    ),
                ),
            );
        };
        // Set the port to the network's default if it has not been
        // overwritten at this point.
        if self.btc_rpc_port.is_default() {
            self.btc_rpc_port.set_inner(default_port);
        }
        Ok(())
    }

    /// Whether the whole configuration still carries only default values.
    pub fn is_default(&self) -> (r: bool)
        ensures
            r == config_is_default(*self),
    {
        let d = Config::default();
        eq_param_string(&self.api_bind, &d.api_bind) && eq_param_u16(&self.api_port, &d.api_port)
            && eq_param_string(&self.rpc_bind, &d.rpc_bind) && eq_param_u16(
            &self.rpc_port,
            &d.rpc_port,
        ) && eq_param_string(&self.btc_network, &d.btc_network) && eq_param_string(
            &self.btc_rpc_user,
            &d.btc_rpc_user,
        ) && eq_param_string(&self.btc_rpc_password, &d.btc_rpc_password) && eq_param_string(
            &self.btc_rpc_connect,
            &d.btc_rpc_connect,
        ) && eq_param_u16(&self.btc_rpc_port, &d.btc_rpc_port) && eq_param_bool(
            &self.debug,
            &d.debug,
        ) && eq_param_bool(&self.deps_debug, &d.deps_debug) && eq_param_bool(
            &self.overwrite_key,
            &d.overwrite_key,
        ) && eq_param_bool(&self.force_update, &d.force_update) && eq_param_u32(
            &self.subscription_slots,
            &d.subscription_slots,
        ) && eq_param_u32(&self.subscription_duration, &d.subscription_duration) && eq_param_u32(
            &self.expiry_delta,
            &d.expiry_delta,
        ) && eq_param_u16(&self.min_to_self_delay, &d.min_to_self_delay) && eq_param_u16(
            &self.polling_delta,
            &d.polling_delta,
        ) && eq_param_string(&self.internal_api_bind, &d.internal_api_bind) && eq_param_u32(
            &self.internal_api_port,
            &d.internal_api_port,
        ) && eq_param_bool(&self.tor_support, &d.tor_support) && eq_param_u16(
            &self.tor_control_port,
            &d.tor_control_port,
        ) && eq_param_u16(&self.onion_hidden_service_port, &d.onion_hidden_service_port)
    }
}

impl Clone for Config {
    fn clone(&self) -> (r: Self)
        ensures
            r == *self,
    {
        Config {
            api_bind: clone_param_string(&self.api_bind),
            api_port: clone_param_copy(&self.api_port),
            tor_support: clone_param_copy(&self.tor_support),
            tor_control_port: clone_param_copy(&self.tor_control_port),
            onion_hidden_service_port: clone_param_copy(&self.onion_hidden_service_port),
            rpc_bind: clone_param_string(&self.rpc_bind),
            rpc_port: clone_param_copy(&self.rpc_port),
            btc_network: clone_param_string(&self.btc_network),
            btc_rpc_user: clone_param_string(&self.btc_rpc_user),
            btc_rpc_password: clone_param_string(&self.btc_rpc_password),
            btc_rpc_connect: clone_param_string(&self.btc_rpc_connect),
            btc_rpc_port: clone_param_copy(&self.btc_rpc_port),
            debug: clone_param_copy(&self.debug),
            deps_debug: clone_param_copy(&self.deps_debug),
            overwrite_key: clone_param_copy(&self.overwrite_key),
            force_update: clone_param_copy(&self.force_update),
            subscription_slots: clone_param_copy(&self.subscription_slots),
            subscription_duration: clone_param_copy(&self.subscription_duration),
            expiry_delta: clone_param_copy(&self.expiry_delta),
            min_to_self_delay: clone_param_copy(&self.min_to_self_delay),
            polling_delta: clone_param_copy(&self.polling_delta),
            internal_api_bind: clone_param_string(&self.internal_api_bind),
            internal_api_port: clone_param_copy(&self.internal_api_port),
        }
    }
}

} // verus!
