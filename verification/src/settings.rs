//! The settings of the daemon: how the configuration file, the
//! environment and the command line come together.

use vstd::prelude::*;
use vstd::string::*;
use crate::console::{chars_of, is};

verus! {

/// The default file name for configuration.
pub const CONFIG_FILE_NAME: &'static str = "stegos.toml";

/// The general section of the configuration.
#[derive(Debug)]
pub struct GeneralConfig {
    /// The chain to follow: `dev`, `testnet` or `mainnet`.
    pub chain: String,
    pub data_dir: String,
    /// Whether proofs and signatures are checked again on recovery.
    pub force_check: bool,
    pub log_config: String,
    pub prometheus_endpoint: String,
    pub api_endpoint: String,
}

/// What the daemon is configured with, as far as the settings go.
#[derive(Debug)]
pub struct Config {
    pub general: GeneralConfig,
    /// The name under which the seed nodes of the chain are looked up.
    pub seed_pool: String,
    /// Whether the file changes an option of the chain section.
    pub chain_overridden: bool,
    /// Whether the file changes an option of the node section.
    pub node_overridden: bool,
}

/// What the environment and the command line say.
#[derive(Debug)]
pub struct Overrides {
    /// The chain named in the environment.
    pub env_chain: Option<String>,
    pub chain: Option<String>,
    pub data_dir: Option<String>,
    pub force_check: bool,
    pub log_config: Option<String>,
    pub prometheus_endpoint: Option<String>,
    pub api_endpoint: Option<String>,
}

/// Why the settings are refused.
#[derive(Clone, Copy, Debug, PartialEq, Eq, Structural)]
pub enum ConfigError {
    InvalidPrometheusEndpoint,
    InvalidApiEndpoint,
    /// The chain section cannot be changed for this chain.
    ChainOverride,
    /// The node section cannot be changed for this chain.
    NodeOverride,
}

/// The later of two settings: the second where there is one.
pub open spec fn spec_pick(base: Seq<char>, over: Option<String>) -> Seq<char> {
    match over {
        Some(v) => v@,
        None => base,
    }
}

/// The later of two settings.
pub fn pick(base: String, over: Option<String>) -> (r: String)
    ensures
        r@ == spec_pick(base@, over),
{
    match over {
        Some(v) => v,
        None => base,
    }
}

/// The settings after the environment and the command line have had their
/// say: the command line goes before the environment, and both before
/// the file.
pub fn merge(cfg: Config, over: Overrides) -> (r: Config)
    ensures
        r.general.chain@ == spec_pick(spec_pick(cfg.general.chain@, over.env_chain), over.chain),
        r.general.data_dir@ == spec_pick(cfg.general.data_dir@, over.data_dir),
        r.general.force_check == (cfg.general.force_check || over.force_check),
        r.general.log_config@ == spec_pick(cfg.general.log_config@, over.log_config),
        r.general.prometheus_endpoint@ == spec_pick(
            cfg.general.prometheus_endpoint@,
            over.prometheus_endpoint,
        ),
        r.general.api_endpoint@ == spec_pick(cfg.general.api_endpoint@, over.api_endpoint),
        r.seed_pool@ == cfg.seed_pool@,
        r.chain_overridden == cfg.chain_overridden,
        r.node_overridden == cfg.node_overridden,
{
    let general = cfg.general;
    // Override global.chain via ENV, and then via command-line.
    let chain = pick(pick(general.chain, over.env_chain), over.chain);
    Config {
        general: GeneralConfig {
            chain,
            data_dir: pick(general.data_dir, over.data_dir),
            force_check: general.force_check || over.force_check,
            log_config: pick(general.log_config, over.log_config),
            prometheus_endpoint: pick(general.prometheus_endpoint, over.prometheus_endpoint),
            api_endpoint: pick(general.api_endpoint, over.api_endpoint),
        },
        seed_pool: cfg.seed_pool,
        chain_overridden: cfg.chain_overridden,
        node_overridden: cfg.node_overridden,
    }
}

/// Three texts, one after another.
pub fn concat3(a: &str, b: &str, c: &str) -> (r: String)
    ensures
        r@ == a@ + b@ + c@,
{
    let mut out = String::from_str(a);
    out.append(b);
    out.append(c);
    out
}

/// The name under which the seed nodes of a chain are looked up, where
/// the settings name none.
pub open spec fn spec_default_seed_pool(chain: Seq<char>) -> Seq<char> {
    "_stegos._tcp."@ + chain + ".aws.stegos.com"@
}

/// Whether the chain is one on which the chain and node sections stand fast.
pub open spec fn spec_is_prod(chain: Seq<char>) -> bool {
    chain == "mainnet"@ || chain == "testnet"@
}

/// The verdict on merged settings. `prometheus_ok` and `api_ok` say
/// whether the endpoints are socket addresses; they count only for
/// endpoints that are not empty.
pub open spec fn spec_check(cfg: Config, prometheus_ok: bool, api_ok: bool) -> Result<(), ConfigError> {
    if cfg.general.prometheus_endpoint@.len() != 0 && !prometheus_ok {
        Err(ConfigError::InvalidPrometheusEndpoint)
    } else if cfg.general.api_endpoint@.len() != 0 && !api_ok {
        Err(ConfigError::InvalidApiEndpoint)
    } else if spec_is_prod(cfg.general.chain@) && cfg.chain_overridden {
        Err(ConfigError::ChainOverride)
    } else if spec_is_prod(cfg.general.chain@) && cfg.node_overridden {
        Err(ConfigError::NodeOverride)
    } else {
        Ok(())
    }
}

/// Whether a text is one of two names.
pub fn is_prod(chain: &str) -> (r: bool)
    ensures
        r == spec_is_prod(chain@),
{
    let s = chars_of(chain);
    assert(chain@.subrange(0, chain@.len() as int) =~= chain@);
    is(&s, 0, s.len(), "mainnet") || is(&s, 0, s.len(), "testnet")
}

/// The chains that a node can join.
#[derive(Clone, Copy, Debug, PartialEq, Eq, Structural)]
pub enum Chain {
    /// The chain of a developer's own nodes.
    Dev,
    /// The public chain for trials.
    Testnet,
    /// The public chain.
    Mainnet,
}

/// The chain that a name stands for; nothing for any other text.
pub open spec fn spec_chain_of(name: Seq<char>) -> Option<Chain> {
    if name == "dev"@ {
        Some(Chain::Dev)
    } else if name == "testnet"@ {
        Some(Chain::Testnet)
    } else if name == "mainnet"@ {
        Some(Chain::Mainnet)
    } else {
        None
    }
}

/// The chain that a name stands for: `dev`, `testnet` or `mainnet`, written
/// so; nothing for any other text.
pub fn chain_of(name: &str) -> (r: Option<Chain>)
    ensures
        r == spec_chain_of(name@),
{
    let s = chars_of(name);
    assert(name@.subrange(0, name@.len() as int) =~= name@);
    if is(&s, 0, s.len(), "dev") {
        Some(Chain::Dev)
    } else if is(&s, 0, s.len(), "testnet") {
        Some(Chain::Testnet)
    } else if is(&s, 0, s.len(), "mainnet") {
        Some(Chain::Mainnet)
    } else {
        None
    }
}

impl Chain {
    /// The text with which the addresses of the chain begin.
    pub open spec fn spec_prefix(self) -> Seq<char> {
        match self {
            Chain::Dev => "dev"@,
            Chain::Testnet => "stt"@,
            Chain::Mainnet => "stg"@,
        }
    }

    /// The text with which the addresses of the chain begin, so that an
    /// address of one chain is not taken for one of another.
    pub fn prefix(self) -> (r: &'static str)
        ensures
            r@ == self.spec_prefix(),
    {
        match self {
            Chain::Dev => "dev",
            Chain::Testnet => "stt",
            Chain::Mainnet => "stg",
        }
    }
}

/// No two chains begin their addresses alike.
pub proof fn lemma_prefixes_differ(a: Chain, b: Chain)
    requires
        a != b,
    ensures
        a.spec_prefix() != b.spec_prefix(),
{
    reveal_strlit("dev");
    reveal_strlit("stt");
    reveal_strlit("stg");
    assert("dev"@[0] == 'd' && "stt"@[0] == 's' && "stg"@[0] == 's');
    assert("stt"@[2] == 't' && "stg"@[2] == 'g');
}

/// On the public chains the chain and node sections of the settings may
/// not be changed.
pub proof fn lemma_prod_chains(name: Seq<char>)
    ensures
        spec_is_prod(name) <==> (spec_chain_of(name) == Some(Chain::Testnet) || spec_chain_of(name)
            == Some(Chain::Mainnet)),
{
    reveal_strlit("dev");
    reveal_strlit("testnet");
    reveal_strlit("mainnet");
    assert("dev"@.len() == 3 && "testnet"@.len() == 7 && "mainnet"@.len() == 7);
    assert("testnet"@[0] == 't' && "mainnet"@[0] == 'm');
}

/// Finishes the settings: endpoints that are given must be socket
/// addresses; every chain but `dev` gets its default seed pool where none
/// is named; and on `mainnet` and `testnet` the chain and node sections
/// may not be changed.
pub fn load_configuration(cfg: Config, prometheus_ok: bool, api_ok: bool) -> (r: Result<
    Config,
    ConfigError,
>)
    ensures
        r matches Err(e) ==> spec_check(cfg, prometheus_ok, api_ok) == Err::<(), ConfigError>(e),
        r matches Ok(c) ==> {
            &&& spec_check(cfg, prometheus_ok, api_ok) is Ok
            &&& c.general.chain@ == cfg.general.chain@
            &&& c.general.data_dir@ == cfg.general.data_dir@
            &&& c.general.force_check == cfg.general.force_check
            &&& c.general.log_config@ == cfg.general.log_config@
            &&& c.general.prometheus_endpoint@ == cfg.general.prometheus_endpoint@
            &&& c.general.api_endpoint@ == cfg.general.api_endpoint@
            &&& c.chain_overridden == cfg.chain_overridden
            &&& c.node_overridden == cfg.node_overridden
            &&& c.seed_pool@ == if cfg.general.chain@ != "dev"@ && cfg.seed_pool@.len() == 0 {
                spec_default_seed_pool(cfg.general.chain@)
            } else {
                cfg.seed_pool@
            }
        },
{
    if !cfg.general.prometheus_endpoint.as_str().is_empty() && !prometheus_ok {
        return Err(ConfigError::InvalidPrometheusEndpoint);
    }
    if !cfg.general.api_endpoint.as_str().is_empty() && !api_ok {
        return Err(ConfigError::InvalidApiEndpoint);
    }
    // Disable [chain] and [node] sections for mainnet and testnet.
    let prod = is_prod(cfg.general.chain.as_str());
    if prod && cfg.chain_overridden {
        return Err(ConfigError::ChainOverride);
    }
    if prod && cfg.node_overridden {
        return Err(ConfigError::NodeOverride);
    }
    // Use default SRV record for the chain
    let chain_chars = chars_of(cfg.general.chain.as_str());
    let dev = is(&chain_chars, 0, chain_chars.len(), "dev");
    assert(cfg.general.chain@.subrange(0, cfg.general.chain@.len() as int) =~= cfg.general.chain@);
    let seed_pool = if !dev && cfg.seed_pool.as_str().is_empty() {
        concat3("_stegos._tcp.", cfg.general.chain.as_str(), ".aws.stegos.com")
    } else {
        cfg.seed_pool
    };
    Ok(
        Config {
            general: cfg.general,
            seed_pool,
            chain_overridden: cfg.chain_overridden,
            node_overridden: cfg.node_overridden,
        },
    )
}

/// The levels of the log.
#[derive(Clone, Copy, Debug, PartialEq, Eq, Structural)]
pub enum LogLevel {
    Info,
    Debug,
    Trace,
}

/// The level of the log for a number of `-v` flags.
pub fn log_level(verbosity: u64) -> (r: LogLevel)
    ensures
        r == match verbosity {
            0 => LogLevel::Info,
            1 => LogLevel::Debug,
            _ => LogLevel::Trace,
        },
{
    match verbosity {
        0 => LogLevel::Info,
        1 => LogLevel::Debug,
        _ => LogLevel::Trace,
    }
}

/// Whether the list holds the text.
pub fn holds(list: &Vec<String>, text: &String) -> (r: bool)
    ensures
        r == exists|i: int| 0 <= i < list@.len() && (#[trigger] list@[i])@ == text@,
{
    let mut i: usize = 0;
    while i < list.len()
        invariant
            0 <= i <= list.len(),
            forall|k: int| 0 <= k < i ==> (#[trigger] list@[k])@ != text@,
        decreases list.len() - i,
    {
        if list[i] == *text {
            return true;
        }
        i = i + 1;
    }
    false
}

/// Whether a text stands in a list of texts.
pub open spec fn spec_holds(list: Seq<Seq<char>>, text: Seq<char>) -> bool {
    list.contains(text)
}

/// What the texts of a list say.
pub open spec fn spec_texts(list: Seq<String>) -> Seq<Seq<char>> {
    Seq::new(list.len(), |i: int| list[i]@)
}

/// The seed nodes after the addresses that the seed pool resolves to have
/// been added: each address that is neither one of our own nor a seed
/// node already stands behind the others.
pub open spec fn spec_with_pool(
    seed_nodes: Seq<Seq<char>>,
    advertised: Seq<Seq<char>>,
    found: Seq<Seq<char>>,
) -> Seq<Seq<char>>
    decreases found.len(),
{
    if found.len() == 0 {
        seed_nodes
    } else {
        let before = spec_with_pool(seed_nodes, advertised, found.drop_last());
        if advertised.contains(found.last()) || before.contains(found.last()) {
            before
        } else {
            before.push(found.last())
        }
    }
}

/// Adds the addresses that the seed pool resolves to to the seed nodes.
/// We don't try to connect to ourselves or to already configured seed
/// nodes.
pub fn resolve_pool(seed_nodes: &mut Vec<String>, advertised: &Vec<String>, found: Vec<String>)
    ensures
        spec_texts(final(seed_nodes)@) == spec_with_pool(
            spec_texts(old(seed_nodes)@),
            spec_texts(advertised@),
            spec_texts(found@),
        ),
{
    let ghost all = spec_texts(found@);
    let ghost start = spec_texts(seed_nodes@);
    let ghost own = spec_texts(advertised@);
    let n = found.len();
    let mut rest = found;
    let mut i: usize = 0;
    proof {
        assert(all.take(0) =~= Seq::<Seq<char>>::empty());
        assert(rest@.skip(0) =~= rest@);
    }
    while i < n
        invariant
            0 <= i <= n == all.len(),
            all == spec_texts(found@),
            own == spec_texts(advertised@),
            rest@ == found@.skip(i as int),
            spec_texts(seed_nodes@) == spec_with_pool(start, own, all.take(i as int)),
        decreases n - i,
    {
        let maddr = rest.remove(0);
        proof {
            assert(maddr == found@[i as int]);
            assert(rest@ =~= found@.skip(i + 1));
            assert(all.take(i + 1).drop_last() =~= all.take(i as int));
            assert(all.take(i + 1).last() == maddr@);
        }
        let ghost before = spec_texts(seed_nodes@);
        let known = holds(advertised, &maddr) || holds(seed_nodes, &maddr);
        proof {
            lemma_holds(advertised@, maddr@);
            lemma_holds(seed_nodes@, maddr@);
        }
        if !known {
            seed_nodes.push(maddr);
            proof {
                assert(spec_texts(seed_nodes@) =~= before.push(maddr@));
            }
        }
        i = i + 1;
    }
    proof {
        assert(all.take(i as int) =~= all);
    }
}

/// A list holds a text where its texts hold it.
pub proof fn lemma_holds(list: Seq<String>, text: Seq<char>)
    ensures
        spec_texts(list).contains(text) <==> exists|i: int|
            0 <= i < list.len() && (#[trigger] list[i])@ == text,
{
    if spec_texts(list).contains(text) {
        let i = choose|i: int| 0 <= i < spec_texts(list).len() && spec_texts(list)[i] == text;
        assert(list[i]@ == text);
    }
    if exists|i: int| 0 <= i < list.len() && (#[trigger] list[i])@ == text {
        let i = choose|i: int| 0 <= i < list.len() && (#[trigger] list[i])@ == text;
        assert(spec_texts(list)[i] == text);
    }
}

} // verus!
