//! Tunable parameters of a node and of the chain it follows.
//!
//! All time spans are whole milliseconds.

use vstd::prelude::*;

verus! {

/// Node configuration.
#[derive(Debug, Clone, Copy, PartialEq, Eq, Structural)]
pub struct NodeConfig {
    /// How long to wait for transactions before starting to create a new block.
    pub tx_wait_timeout: u64,
    /// How long to wait for a micro block.
    pub micro_block_timeout: u64,
    /// How long to wait for a macro block.
    pub macro_block_timeout: u64,
    /// The maximal number of inputs + outputs in a transaction.
    pub max_utxo_in_tx: usize,
    /// The maximal number of inputs + outputs in a micro block.
    pub max_utxo_in_block: usize,
    /// The maximal number of inputs + outputs in mempool.
    pub max_utxo_in_mempool: usize,
    /// Loader sends at most this many epochs at a time.
    pub loader_speed_in_epoch: u64,
    /// Fixed fee for payment transactions.
    pub payment_fee: i64,
    /// Fixed fee for the stake transactions.
    pub stake_fee: i64,
}

/// What all nodes of a chain agree on.
#[derive(Debug, Clone, Copy, PartialEq, Eq, Structural)]
pub struct ChainConfig {
    /// How many blocks an epoch has, the macro block that opens it included.
    pub blocks_in_epoch: u32,
    /// For how many epochs a stake counts.
    pub stake_epochs: u64,
}

impl ChainConfig {
    /// The last epoch in which a stake made in `epoch` counts.
    pub fn active_until(&self, epoch: u64) -> (r: u64)
        ensures
            r == if epoch + self.stake_epochs > u64::MAX {
                u64::MAX as int
            } else {
                epoch + self.stake_epochs
            },
    {
        if self.stake_epochs > u64::MAX - epoch {
            u64::MAX
        } else {
            epoch + self.stake_epochs
        }
    }
}

impl NodeConfig {
    /// The configuration a node runs with when nothing is overridden.
    pub open spec fn spec_default() -> NodeConfig {
        NodeConfig {
            tx_wait_timeout: 10_000,
            micro_block_timeout: 30_000,
            macro_block_timeout: 30_000,
            max_utxo_in_tx: 10,
            max_utxo_in_block: 1000,
            max_utxo_in_mempool: 10000,
            loader_speed_in_epoch: 100,
            payment_fee: 1_000,
            stake_fee: 0,
        }
    }

    /// The timeout after which a follower that holds a precommit quorum seals
    /// the block on its own: the smaller of the two block timeouts.
    pub open spec fn spec_auto_commit_timeout(self) -> u64 {
        if self.micro_block_timeout <= self.macro_block_timeout {
            self.micro_block_timeout
        } else {
            self.macro_block_timeout
        }
    }

    /// The timeout after which a follower that holds a precommit quorum seals
    /// the block on its own.
    pub fn auto_commit_timeout(&self) -> (r: u64)
        ensures
            r == self.spec_auto_commit_timeout(),
    {
        if self.micro_block_timeout <= self.macro_block_timeout {
            self.micro_block_timeout
        } else {
            self.macro_block_timeout
        }
    }
}

impl Default for NodeConfig {
    fn default() -> (r: Self)
        ensures
            r == NodeConfig::spec_default(),
    {
        NodeConfig {
            tx_wait_timeout: 10_000,
            micro_block_timeout: 30_000,
            macro_block_timeout: 30_000,
            max_utxo_in_tx: 10,
            max_utxo_in_block: 1000,
            max_utxo_in_mempool: 10000,
            loader_speed_in_epoch: 100,
            payment_fee: 1_000,  // 0.001 STG
            stake_fee: 0,  // free
        }
    }
}

} // verus!
