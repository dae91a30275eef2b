use stegos::config::NodeConfig;

#[test]
fn default_config_values() {
    let cfg = NodeConfig::default();
    assert_eq!(cfg.tx_wait_timeout, 10_000);
    assert_eq!(cfg.micro_block_timeout, 30_000);
    assert_eq!(cfg.macro_block_timeout, 30_000);
    assert_eq!(cfg.max_utxo_in_tx, 10);
    assert_eq!(cfg.max_utxo_in_block, 1000);
    assert_eq!(cfg.max_utxo_in_mempool, 10000);
    assert_eq!(cfg.loader_speed_in_epoch, 100);
    assert_eq!(cfg.payment_fee, 1_000);
    assert_eq!(cfg.stake_fee, 0);
}
