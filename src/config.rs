use vstd::prelude::*;
use vstd::string::*;
use crate::buffered::BufferedChain;
use crate::chain::{
    TransformChain, Transforms, chain_errors, side_chain_errors, concat_lines, head_lines, headed, indent,
    indent_lines, lines_view,
};
use crate::frame::Frame;
use crate::ports_rewrite::RedisClusterPortsRewriteConfig;
use crate::sampler::Sampler;
use crate::tee::{Tee, TeeMode};
use crate::timestamp_tagging::RedisTimestampTaggerConfig;

verus! {

broadcast use {
    vstd::std_specs::vec::axiom_vec_index_decreases,
    vstd::std_specs::vec::axiom_vec_decreases_to_view,
    vstd::seq::axiom_seq_index_decreases,
};

/// The configuration of one transform of a chain.
pub enum TransformsConfig {
    NullSink,
    EchoSink,
    ReplySink(Frame),
    ErrorSink,
    CountingSink,
    RedisClusterPortsRewrite(RedisClusterPortsRewriteConfig),
    RedisTimestampTagger(RedisTimestampTaggerConfig),
    Tee(TeeConfig),
    Sampler(SamplerConfig),
}

/// How a tee treats the side chain's answer; the mismatch chain is configured
/// with the behaviour that uses it.
pub enum ConsistencyBehavior {
    Ignore,
    FailOnMismatch,
    SubchainOnMismatch(Vec<TransformsConfig>),
}

/// The configuration of a tee.
pub struct TeeConfig {
    pub behavior: Option<ConsistencyBehavior>,
    pub timeout_micros: Option<u64>,
    pub chain: Vec<TransformsConfig>,
    pub buffer_size: Option<usize>,
}

/// The configuration of a sampler.
pub struct SamplerConfig {
    pub numerator: u32,
    pub denominator: u32,
    pub sample_chain: Vec<TransformsConfig>,
}

/// The client settings of a Kafka producer, by setting name.
pub struct KafkaConfig {
    pub keys: std::collections::HashMap<String, String>,
}

/// The buffer size of a tee where none is configured.
pub const DEFAULT_BUFFER_SIZE: usize = 5;

/// The mode that a configured behaviour selects; none selects `Ignore`.
pub open spec fn mode_of(b: Option<ConsistencyBehavior>) -> TeeMode {
    match b {
        Some(ConsistencyBehavior::FailOnMismatch) => TeeMode::FailOnMismatch,
        Some(ConsistencyBehavior::SubchainOnMismatch(_)) => TeeMode::SubchainOnMismatch,
        _ => TeeMode::Ignore,
    }
}

/// The configured buffer size, or the default.
pub open spec fn buffer_size_of(b: Option<usize>) -> usize {
    match b {
        Some(n) => n,
        None => DEFAULT_BUFFER_SIZE,
    }
}

/// `t` is the transform that `c` configures.
pub open spec fn matches_config(t: Transforms, c: TransformsConfig) -> bool
    decreases c,
{
    match c {
        TransformsConfig::NullSink => t is NullSink,
        TransformsConfig::EchoSink => t is EchoSink,
        TransformsConfig::ReplySink(f) => match t {
            Transforms::ReplySink(g) => g@ == f@,
            _ => false,
        },
        TransformsConfig::ErrorSink => t is ErrorSink,
        TransformsConfig::CountingSink => t is CountingSink,
        TransformsConfig::RedisClusterPortsRewrite(pc) => match t {
            Transforms::PortsRewrite(p) => p.new_port == pc.new_port,
            _ => false,
        },
        TransformsConfig::RedisTimestampTagger(_) => t is TimestampTagger,
        TransformsConfig::Tee(tc) => match t {
            Transforms::Tee(tee) => {
                &&& tee.behavior == mode_of(tc.behavior)
                &&& tee.buffer_size == buffer_size_of(tc.buffer_size)
                &&& tee.timeout_micros == tc.timeout_micros
                &&& tee.tx.buffer_size == tee.buffer_size
                &&& tee.tx.queue@.len() == 0
                &&& tee.tx.chain.name@ == "tee_chain"@
                &&& chain_matches(tee.tx.chain.chain@, tc.chain@, tc.chain@.len() as int)
                &&& match tc.behavior {
                    Some(ConsistencyBehavior::SubchainOnMismatch(m)) => match tee.mismatch_chain {
                        Some(mc) => {
                            &&& mc.buffer_size == tee.buffer_size
                            &&& mc.queue@.len() == 0
                            &&& mc.chain.name@ == "mismatch_chain"@
                            &&& chain_matches(mc.chain.chain@, m@, m@.len() as int)
                        },
                        None => false,
                    },
                    _ => tee.mismatch_chain is None,
                }
            },
            _ => false,
        },
        TransformsConfig::Sampler(sc) => match t {
            Transforms::Sampler(s) => {
                &&& s.numerator == sc.numerator
                &&& s.denominator == sc.denominator
                &&& s.sample_chain.name@ == "sample_chain"@
                &&& chain_matches(s.sample_chain.chain@, sc.sample_chain@, sc.sample_chain@.len() as int)
            },
            _ => false,
        },
    }
}

/// The first `n` transforms of `ts` are those that the first `n` entries of
/// `cs` configure, and `ts` has as many transforms as `cs` has entries.
pub open spec fn chain_matches(ts: Seq<Transforms>, cs: Seq<TransformsConfig>, n: int) -> bool
    decreases cs, n,
{
    if n <= 0 || n > cs.len() {
        ts.len() == cs.len()
    } else {
        chain_matches(ts, cs, n - 1) && matches_config(ts[n - 1], cs[n - 1])
    }
}

/// Builds the transform that `c` configures.
pub fn build_transform(c: &TransformsConfig) -> (r: Transforms)
    ensures
        matches_config(r, *c),
    decreases c,
{
    match c {
        TransformsConfig::NullSink => Transforms::NullSink,
        TransformsConfig::EchoSink => Transforms::EchoSink,
        TransformsConfig::ReplySink(f) => Transforms::ReplySink(f.deep_copy()),
        TransformsConfig::ErrorSink => Transforms::ErrorSink,
        TransformsConfig::CountingSink => Transforms::CountingSink,
        TransformsConfig::RedisClusterPortsRewrite(pc) => Transforms::PortsRewrite(pc.get_source()),
        TransformsConfig::RedisTimestampTagger(tc) => Transforms::TimestampTagger(tc.get_source()),
        TransformsConfig::Tee(tc) => Transforms::Tee(tc.get_builder().build()),
        TransformsConfig::Sampler(sc) => {
            let chain = build_chain_from_config(String::from_str("sample_chain"), &sc.sample_chain);
            Transforms::Sampler(
                Sampler { numerator: sc.numerator, denominator: sc.denominator, sample_chain: chain },
            )
        },
    }
}

/// Builds the chain named `name` that `configs` describes, in order.
pub fn build_chain_from_config(name: String, configs: &Vec<TransformsConfig>) -> (r: TransformChain)
    ensures
        r.name@ == name@,
        chain_matches(r.chain@, configs@, configs@.len() as int),
    decreases configs,
{
    let mut chain: Vec<Transforms> = Vec::new();
    let mut i: usize = 0;
    assert forall|j: int| 0 <= j < configs@.len() implies decreases_to!(*configs => configs[j]) by {}
    while i < configs.len()
        invariant
            i <= configs@.len(),
            chain@.len() == i,
            forall|j: int| 0 <= j < i ==> matches_config(#[trigger] chain@[j], configs@[j]),
            forall|j: int| 0 <= j < configs@.len() ==> decreases_to!(*configs => configs[j]),
        decreases configs@.len() - i,
    {
        let t = build_transform(&configs[i]);
        chain.push(t);
        i += 1;
    }
    proof {
        lemma_chain_matches(chain@, configs@, configs@.len() as int);
    }
    TransformChain { name, chain }
}

proof fn lemma_chain_matches(ts: Seq<Transforms>, cs: Seq<TransformsConfig>, n: int)
    requires
        ts.len() == cs.len(),
        0 <= n <= cs.len(),
        forall|j: int| 0 <= j < n ==> matches_config(#[trigger] ts[j], cs[j]),
    ensures
        chain_matches(ts, cs, n),
    decreases n,
{
    if n > 0 {
        lemma_chain_matches(ts, cs, n - 1);
    }
}

/// The parts of a tee before its chains are put behind buffers.
pub struct TeeBuilder {
    pub tx: TransformChain,
    pub mismatch_chain: Option<TransformChain>,
    pub buffer_size: usize,
    pub behavior: TeeMode,
    pub timeout_micros: Option<u64>,
}

/// The validation errors of a tee with these chains.
pub open spec fn tee_errors(tx: TransformChain, mismatch: Option<TransformChain>) -> Seq<Seq<char>> {
    headed(
        "Tee"@,
        indent(side_chain_errors(tx)) + match mismatch {
            Some(m) => indent(chain_errors(m)),
            None => Seq::empty(),
        },
    )
}

impl TeeBuilder {
    pub fn new(
        tx: TransformChain,
        mismatch_chain: Option<TransformChain>,
        buffer_size: usize,
        behavior: TeeMode,
        timeout_micros: Option<u64>,
    ) -> (r: TeeBuilder)
        ensures
            r == (TeeBuilder { tx, mismatch_chain, buffer_size, behavior, timeout_micros }),
    {
        TeeBuilder { tx, mismatch_chain, buffer_size, behavior, timeout_micros }
    }

    pub fn get_name(&self) -> (r: &'static str)
        ensures
            r@ == "Tee"@,
    {
        "Tee"
    }

    /// The errors of the side chain (which must end in a terminating
    /// transform) and of the mismatch chain, each indented, under `Tee:`;
    /// nothing where both chains are valid.
    pub fn validate(&self) -> (r: Vec<String>)
        ensures
            lines_view(r@) == tee_errors(self.tx, self.mismatch_chain),
    {
        let main = indent_lines(self.tx.validate_as_side());
        let side = match &self.mismatch_chain {
            Some(m) => indent_lines(m.validate()),
            None => {
                let e: Vec<String> = Vec::new();
                assert(lines_view(e@) =~= Seq::empty());
                e
            },
        };
        head_lines(self.get_name(), concat_lines(main, side))
    }

    /// A tee never answers requests itself.
    pub fn is_terminating(&self) -> (r: bool)
        ensures
            !r,
    {
        false
    }

    /// Puts each chain behind a buffer of the configured size.
    pub fn build(self) -> (r: Tee)
        ensures
            r.tx.chain == self.tx,
            r.tx.buffer_size == self.buffer_size,
            r.tx.queue@.len() == 0,
            match self.mismatch_chain {
                Some(m) => r.mismatch_chain matches Some(b) && b.chain == m && b.buffer_size
                    == self.buffer_size && b.queue@.len() == 0,
                None => r.mismatch_chain is None,
            },
            r.buffer_size == self.buffer_size,
            r.behavior == self.behavior,
            r.timeout_micros == self.timeout_micros,
    {
        let mismatch_chain = match self.mismatch_chain {
            Some(m) => Some(BufferedChain::new(m, self.buffer_size)),
            None => None,
        };
        Tee {
            tx: BufferedChain::new(self.tx, self.buffer_size),
            mismatch_chain,
            buffer_size: self.buffer_size,
            behavior: self.behavior,
            timeout_micros: self.timeout_micros,
        }
    }
}

impl TeeConfig {
    /// The builder for the tee this configuration describes: the side chain
    /// `tee_chain`, the mismatch chain `mismatch_chain` where the behaviour
    /// names one, a buffer of five places unless configured, `Ignore` unless
    /// configured.
    pub fn get_builder(&self) -> (r: TeeBuilder)
        ensures
            r.tx.name@ == "tee_chain"@,
            chain_matches(r.tx.chain@, self.chain@, self.chain@.len() as int),
            match self.behavior {
                Some(ConsistencyBehavior::SubchainOnMismatch(m)) => r.mismatch_chain matches Some(mc)
                    && mc.name@ == "mismatch_chain"@ && chain_matches(mc.chain@, m@, m@.len() as int),
                _ => r.mismatch_chain is None,
            },
            r.buffer_size == buffer_size_of(self.buffer_size),
            r.behavior == mode_of(self.behavior),
            r.timeout_micros == self.timeout_micros,
        decreases self,
    {
        let buffer_size = match self.buffer_size {
            Some(n) => n,
            None => DEFAULT_BUFFER_SIZE,
        };
        let (mismatch_chain, behavior) = match &self.behavior {
            Some(ConsistencyBehavior::SubchainOnMismatch(m)) => (
                Some(build_chain_from_config(String::from_str("mismatch_chain"), m)),
                TeeMode::SubchainOnMismatch,
            ),
            Some(ConsistencyBehavior::FailOnMismatch) => (None, TeeMode::FailOnMismatch),
            _ => (None, TeeMode::Ignore),
        };
        let tx = build_chain_from_config(String::from_str("tee_chain"), &self.chain);
        TeeBuilder::new(tx, mismatch_chain, buffer_size, behavior, self.timeout_micros)
    }
}

} // verus!
