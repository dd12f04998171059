//! Strategies by name.

use vstd::prelude::*;
use vstd::string::*;
use crate::binary64::Binary64;
use crate::candle::Candle;
use crate::exact;
use crate::meters;
use crate::meters::{PyAtrEwmState, PyRsiState};
use crate::strategies::eth_1h_rules_210_min_votes_1::EthH1Rules210;
use crate::strategies::eth_5m_rules_542_min_votes_1::EthRules542;
use crate::strategies::five_year_70pct_btc_1h_rules_586_min_votes_1::FiveYear70PctBtcH1Rules586;
use crate::strategies::five_year_70pct_btc_5m_rules_71_min_votes_1::FiveYear70PctBtcM5Rules71;
use crate::strategies::five_year_70pct_eth_1h_rules_632_min_votes_1::FiveYear70PctEthH1Rules632;
use crate::strategies::meche::{BollFade, ReversalPro, StreakRsi, TrioVote2};
use crate::strategy::Strategy;
use crate::text;

verus! {

/// Every name that `create_strategy` knows.
pub const KNOWN_STRATEGIES: [&'static str; 23] = [
    "three_candle_rsi7_reversal",
    "btc_5m_rules_90_min_votes_1",
    "btc_5m_rules_23_min_votes_1",
    "btc_5m_rules_626_min_votes_1",
    "btc_15m_rules_18_min_votes_1",
    "btc_15m_rules_461_min_votes_1",
    "btc_1h_rules_15_min_votes_1",
    "eth_5m_rules_25_min_votes_1",
    "eth_5m_rules_542_min_votes_1",
    "eth_15m_rules_24_min_votes_1",
    "eth_15m_rules_663_min_votes_1",
    "eth_1h_rules_17_min_votes_1",
    "eth_1h_rules_210_min_votes_1",
    "five_year_70pct_btc_5m_rules_71_min_votes_1",
    "five_year_70pct_btc_15m_rules_176_min_votes_1",
    "five_year_70pct_btc_1h_rules_586_min_votes_1",
    "five_year_70pct_eth_5m_rules_75_min_votes_1",
    "five_year_70pct_eth_15m_rules_181_min_votes_1",
    "five_year_70pct_eth_1h_rules_632_min_votes_1",
    "boll_fade",
    "streak_rsi",
    "trio_vote2",
    "reversal_pro",
];

/// What choosing a strategy takes from the configuration.
#[derive(Debug)]
pub struct StrategyConfig {
    pub strategy: String,
    pub rsi_overbought: Binary64,
    pub rsi_oversold: Binary64,
    pub ensemble_min_votes: u32,
}

/// A strategy by name, ready to be fed.
#[derive(Debug)]
pub enum CreatedStrategy {
    EthRules542(EthRules542),
    EthH1Rules210(EthH1Rules210),
    FiveYear70PctBtcM5Rules71(FiveYear70PctBtcM5Rules71),
    FiveYear70PctBtcH1Rules586(FiveYear70PctBtcH1Rules586),
    FiveYear70PctEthH1Rules632(FiveYear70PctEthH1Rules632),
    BollFade(BollFade),
    StreakRsi(StreakRsi),
    TrioVote2(TrioVote2),
    ReversalPro(ReversalPro),
    /// Three candles of one color and an extreme strength index, at these two bounds.
    ThreeCandleRsi7Reversal { overbought: Binary64, oversold: Binary64 },
    /// An ensemble whose rules the library does not hold, and how many votes it asks for.
    Elsewhere { name: &'static str, min_votes: u32 },
}

/// Whether a name is among some.
pub open spec fn among(name: Seq<char>, names: Seq<&'static str>) -> bool {
    exists|i: int| 0 <= i < names.len() && (#[trigger] names[i])@ == name
}

/// Whether a strategy has a variant of its own.
pub open spec fn singled_out(name: Seq<char>) -> bool {
    ||| name == "three_candle_rsi7_reversal"@
    ||| name == "eth_5m_rules_542_min_votes_1"@
    ||| name == "eth_1h_rules_210_min_votes_1"@
    ||| name == "five_year_70pct_btc_5m_rules_71_min_votes_1"@
    ||| name == "five_year_70pct_btc_1h_rules_586_min_votes_1"@
    ||| name == "five_year_70pct_eth_1h_rules_632_min_votes_1"@
    ||| name == "boll_fade"@
    ||| name == "streak_rsi"@
    ||| name == "trio_vote2"@
    ||| name == "reversal_pro"@
}

impl CreatedStrategy {
    /// The name it goes by.
    pub open spec fn title(&self) -> Seq<char> {
        match self {
            CreatedStrategy::EthRules542(_) => "eth_5m_rules_542_min_votes_1"@,
            CreatedStrategy::EthH1Rules210(_) => "eth_1h_rules_210_min_votes_1"@,
            CreatedStrategy::FiveYear70PctBtcM5Rules71(_) => "five_year_70pct_btc_5m_rules_71_min_votes_1"@,
            CreatedStrategy::FiveYear70PctBtcH1Rules586(_) => "five_year_70pct_btc_1h_rules_586_min_votes_1"@,
            CreatedStrategy::FiveYear70PctEthH1Rules632(_) => "five_year_70pct_eth_1h_rules_632_min_votes_1"@,
            CreatedStrategy::BollFade(_) => "boll_fade"@,
            CreatedStrategy::StreakRsi(_) => "streak_rsi"@,
            CreatedStrategy::TrioVote2(_) => "trio_vote2"@,
            CreatedStrategy::ReversalPro(_) => "reversal_pro"@,
            CreatedStrategy::ThreeCandleRsi7Reversal { .. } => "three_candle_rsi7_reversal"@,
            CreatedStrategy::Elsewhere { name, .. } => name@,
        }
    }

    /// Whether this is the strategy that a configuration asks for, with nothing seen yet.
    pub open spec fn answers(&self, config: StrategyConfig) -> bool {
        &&& self.title() == config.strategy@
        &&& match self {
            CreatedStrategy::EthRules542(s) => s.well_formed()
                && s.ensemble.is_fresh(config.ensemble_min_votes),
            CreatedStrategy::EthH1Rules210(s) => s.well_formed()
                && s.ensemble.is_fresh(config.ensemble_min_votes),
            CreatedStrategy::FiveYear70PctBtcM5Rules71(s) => s.well_formed()
                && s.ensemble.is_fresh(config.ensemble_min_votes),
            CreatedStrategy::FiveYear70PctBtcH1Rules586(s) => s.well_formed()
                && s.ensemble.is_fresh(config.ensemble_min_votes),
            CreatedStrategy::FiveYear70PctEthH1Rules632(s) => s.well_formed()
                && s.ensemble.is_fresh(config.ensemble_min_votes),
            CreatedStrategy::BollFade(s) => s.well_formed() && s.candles@ == Seq::<Candle>::empty(),
            CreatedStrategy::StreakRsi(s) => s.well_formed() && s.is_fresh(
                PyRsiState::fresh(7),
                PyAtrEwmState::fresh(14),
            ),
            CreatedStrategy::TrioVote2(s) => s.well_formed() && s.is_fresh(
                PyRsiState::fresh(7),
                PyAtrEwmState::fresh(14),
            ),
            CreatedStrategy::ReversalPro(s) => s.well_formed() && s.is_fresh(
                PyRsiState::fresh(7),
                PyAtrEwmState::fresh(14),
            ),
            CreatedStrategy::ThreeCandleRsi7Reversal { overbought, oversold } => overbought
                == config.rsi_overbought && oversold == config.rsi_oversold,
            CreatedStrategy::Elsewhere { name, min_votes } => !singled_out(name@) && among(
                name@,
                KNOWN_STRATEGIES@,
            ) && min_votes == config.ensemble_min_votes,
        }
    }

    pub fn name(&self) -> (r: &str)
        ensures
            r@ == self.title(),
    {
        match self {
            CreatedStrategy::EthRules542(s) => s.name(),
            CreatedStrategy::EthH1Rules210(s) => s.name(),
            CreatedStrategy::FiveYear70PctBtcM5Rules71(s) => s.name(),
            CreatedStrategy::FiveYear70PctBtcH1Rules586(s) => s.name(),
            CreatedStrategy::FiveYear70PctEthH1Rules632(s) => s.name(),
            CreatedStrategy::BollFade(s) => s.name(),
            CreatedStrategy::StreakRsi(s) => s.name(),
            CreatedStrategy::TrioVote2(s) => s.name(),
            CreatedStrategy::ReversalPro(s) => s.name(),
            CreatedStrategy::ThreeCandleRsi7Reversal { .. } => "three_candle_rsi7_reversal",
            CreatedStrategy::Elsewhere { name, .. } => name,
        }
    }
}

/// Names in a row, with a comma and a blank between any two.
pub open spec fn listed(names: Seq<&'static str>) -> Seq<char>
    decreases names.len(),
{
    if names.len() == 0 {
        Seq::empty()
    } else if names.len() == 1 {
        names[0]@
    } else {
        listed(names.drop_last()) + ", "@ + names.last()@
    }
}

/// What is answered to a name that is not known.
pub open spec fn refusal_of(name: Seq<char>) -> Seq<char> {
    "Stratégie '"@ + name + "' inconnue. Stratégies disponibles: "@ + listed(KNOWN_STRATEGIES@)
}

fn refusal(name: &String) -> (r: String)
    ensures
        r@ == refusal_of(name@),
{
    let mut r: String = String::from_str("Stratégie '");
    r.append(name.as_str());
    r.append("' inconnue. Stratégies disponibles: ");
    let ghost head = r@;
    let mut i: usize = 0;
    assert(r@ =~= head + listed(KNOWN_STRATEGIES@.take(0)));
    while i < 23
        invariant
            i <= 23,
            KNOWN_STRATEGIES@.len() == 23,
            r@ == head + listed(KNOWN_STRATEGIES@.take(i as int)),
        decreases 23 - i,
    {
        if i > 0 {
            r.append(", ");
        }
        r.append(KNOWN_STRATEGIES[i]);
        i = i + 1;
        assert(KNOWN_STRATEGIES@.take(i as int).drop_last() =~= KNOWN_STRATEGIES@.take(i - 1));
        assert(r@ =~= head + listed(KNOWN_STRATEGIES@.take(i as int)));
    }
    assert(KNOWN_STRATEGIES@.take(i as int) =~= KNOWN_STRATEGIES@);
    r
}

proof fn lemma_singled_out_known(name: Seq<char>)
    requires
        singled_out(name),
    ensures
        among(name, KNOWN_STRATEGIES@),
{
    let names = KNOWN_STRATEGIES@;
    assert(names[0]@ == "three_candle_rsi7_reversal"@);
    assert(names[8]@ == "eth_5m_rules_542_min_votes_1"@);
    assert(names[12]@ == "eth_1h_rules_210_min_votes_1"@);
    assert(names[13]@ == "five_year_70pct_btc_5m_rules_71_min_votes_1"@);
    assert(names[15]@ == "five_year_70pct_btc_1h_rules_586_min_votes_1"@);
    assert(names[18]@ == "five_year_70pct_eth_1h_rules_632_min_votes_1"@);
    assert(names[19]@ == "boll_fade"@);
    assert(names[20]@ == "streak_rsi"@);
    assert(names[21]@ == "trio_vote2"@);
    assert(names[22]@ == "reversal_pro"@);
}

/// The strategy that a configuration asks for, or what to tell whoever wrote it.
pub fn create_strategy(config: &StrategyConfig) -> (r: Result<CreatedStrategy, String>)
    ensures
        r is Ok <==> among(config.strategy@, KNOWN_STRATEGIES@),
        r matches Ok(s) ==> s.answers(*config),
        r matches Err(e) ==> e@ == refusal_of(config.strategy@),
{
    let name: &String = &config.strategy;
    let min_votes: u32 = config.ensemble_min_votes;
    proof {
        if singled_out(config.strategy@) {
            lemma_singled_out_known(config.strategy@);
        }
    }
    if text::reads(name, "three_candle_rsi7_reversal") {
        return Ok(
            CreatedStrategy::ThreeCandleRsi7Reversal {
                overbought: config.rsi_overbought,
                oversold: config.rsi_oversold,
            },
        );
    }
    if text::reads(name, "eth_5m_rules_542_min_votes_1") {
        return Ok(CreatedStrategy::EthRules542(EthRules542::new(min_votes)));
    }
    if text::reads(name, "eth_1h_rules_210_min_votes_1") {
        return Ok(CreatedStrategy::EthH1Rules210(EthH1Rules210::new(min_votes)));
    }
    if text::reads(name, "five_year_70pct_btc_5m_rules_71_min_votes_1") {
        return Ok(CreatedStrategy::FiveYear70PctBtcM5Rules71(FiveYear70PctBtcM5Rules71::new(min_votes)));
    }
    if text::reads(name, "five_year_70pct_btc_1h_rules_586_min_votes_1") {
        return Ok(CreatedStrategy::FiveYear70PctBtcH1Rules586(FiveYear70PctBtcH1Rules586::new(min_votes)));
    }
    if text::reads(name, "five_year_70pct_eth_1h_rules_632_min_votes_1") {
        return Ok(CreatedStrategy::FiveYear70PctEthH1Rules632(FiveYear70PctEthH1Rules632::new(min_votes)));
    }
    if text::reads(name, "boll_fade") {
        return Ok(CreatedStrategy::BollFade(BollFade::new()));
    }
    if text::reads(name, "streak_rsi") {
        return Ok(CreatedStrategy::StreakRsi(StreakRsi::new()));
    }
    if text::reads(name, "trio_vote2") {
        return Ok(CreatedStrategy::TrioVote2(TrioVote2::new()));
    }
    if text::reads(name, "reversal_pro") {
        return Ok(CreatedStrategy::ReversalPro(ReversalPro::new()));
    }
    let mut i: usize = 0;
    while i < 23
        invariant
            i <= 23,
            KNOWN_STRATEGIES@.len() == 23,
            name == &config.strategy,
            min_votes == config.ensemble_min_votes,
            !singled_out(config.strategy@),
            forall|j: int| 0 <= j < i ==> (#[trigger] KNOWN_STRATEGIES@[j])@ != config.strategy@,
        decreases 23 - i,
    {
        let known: &'static str = KNOWN_STRATEGIES[i];
        if text::reads(name, known) {
            assert(KNOWN_STRATEGIES@[i as int]@ == config.strategy@);
            return Ok(CreatedStrategy::Elsewhere { name: known, min_votes });
        }
        i = i + 1;
    }
    Err(refusal(name))
}

/// What is configured reaches the strategy: the two bounds each their own, the votes to every
/// ensemble; and the meters of the fades move with one part in 7 and one in 14.
pub proof fn law_configuration_is_followed(strategy: CreatedStrategy, config: StrategyConfig)
    requires
        strategy.answers(config),
    ensures
        config.strategy@ == "three_candle_rsi7_reversal"@ && strategy is ThreeCandleRsi7Reversal
            ==> strategy->overbought == config.rsi_overbought && strategy->oversold
            == config.rsi_oversold,
        strategy matches CreatedStrategy::Elsewhere { name, min_votes } ==> name@
            == config.strategy@ && min_votes == config.ensemble_min_votes,
        strategy matches CreatedStrategy::EthRules542(s) ==> config.strategy@
            == "eth_5m_rules_542_min_votes_1"@ && s.ensemble.is_fresh(config.ensemble_min_votes),
        strategy matches CreatedStrategy::EthH1Rules210(s) ==> config.strategy@
            == "eth_1h_rules_210_min_votes_1"@ && s.ensemble.is_fresh(config.ensemble_min_votes),
        strategy matches CreatedStrategy::FiveYear70PctBtcM5Rules71(s) ==> config.strategy@
            == "five_year_70pct_btc_5m_rules_71_min_votes_1"@ && s.ensemble.is_fresh(
            config.ensemble_min_votes,
        ),
        strategy matches CreatedStrategy::FiveYear70PctBtcH1Rules586(s) ==> config.strategy@
            == "five_year_70pct_btc_1h_rules_586_min_votes_1"@ && s.ensemble.is_fresh(
            config.ensemble_min_votes,
        ),
        strategy matches CreatedStrategy::FiveYear70PctEthH1Rules632(s) ==> config.strategy@
            == "five_year_70pct_eth_1h_rules_632_min_votes_1"@ && s.ensemble.is_fresh(
            config.ensemble_min_votes,
        ),
        strategy is BollFade ==> config.strategy@ == "boll_fade"@,
        strategy matches CreatedStrategy::StreakRsi(s) ==> config.strategy@ == "streak_rsi"@
            && exact::rounds_to(s.rsi.alpha, 1real / 7real) && exact::rounds_to(
            s.atr.alpha,
            1real / 14real,
        ),
        strategy matches CreatedStrategy::TrioVote2(s) ==> config.strategy@ == "trio_vote2"@
            && exact::rounds_to(s.streak.rsi.alpha, 1real / 7real) && exact::rounds_to(
            s.streak.atr.alpha,
            1real / 14real,
        ),
        strategy matches CreatedStrategy::ReversalPro(s) ==> config.strategy@ == "reversal_pro"@
            && exact::rounds_to(s.rsi.alpha, 1real / 7real) && exact::rounds_to(
            s.atr.alpha,
            1real / 14real,
        ),
{
    meters::law_parts(7);
    meters::law_parts(14);
}

} // verus!
