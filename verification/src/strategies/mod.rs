//! The strategies.

pub mod eth_1h_rules_210_min_votes_1;
pub mod eth_5m_rules_542_min_votes_1;
pub mod five_year_70pct_btc_1h_rules_586_min_votes_1;
pub mod five_year_70pct_btc_5m_rules_71_min_votes_1;
pub mod five_year_70pct_eth_1h_rules_632_min_votes_1;
pub mod meche;
pub mod ethusd_perp_coinm_15m_microstructure_mixed_13;
