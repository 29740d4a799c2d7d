//! Where a portfolio leg comes from.

use vstd::prelude::*;

verus! {

/// The kind of position that a portfolio leg was built from.
#[derive(Clone, Copy, Debug, PartialEq, Eq, Structural)]
pub enum PortfolioLegSource {
    /// A bet at decimal odds.
    Standard,
    /// A prediction-market contract.
    Polymarket,
    /// A stock trade with a target and a stop.
    Stock,
    /// A two-way arbitrage.
    Arbitrage2,
    /// An arbitrage over several outcomes.
    ArbitrageN,
}

impl PortfolioLegSource {
    /// The name under which the source is reported.
    pub open spec fn label(self) -> Seq<char> {
        match self {
            PortfolioLegSource::Standard => "standard"@,
            PortfolioLegSource::Polymarket => "polymarket"@,
            PortfolioLegSource::Stock => "stock"@,
            PortfolioLegSource::Arbitrage2 => "arbitrage2"@,
            PortfolioLegSource::ArbitrageN => "arbitrageN"@,
        }
    }

    /// The name under which the source is reported.
    pub fn as_str(self) -> (name: &'static str)
        ensures
            name@ == self.label(),
    {
        match self {
            PortfolioLegSource::Standard => "standard",
            PortfolioLegSource::Polymarket => "polymarket",
            PortfolioLegSource::Stock => "stock",
            PortfolioLegSource::Arbitrage2 => "arbitrage2",
            PortfolioLegSource::ArbitrageN => "arbitrageN",
        }
    }

    /// Different sources are reported under different names.
    pub proof fn lemma_labels_differ(self, other: PortfolioLegSource)
        requires
            self != other,
        ensures
            self.label() != other.label(),
    {
        reveal_strlit("standard");
        reveal_strlit("polymarket");
        reveal_strlit("stock");
        reveal_strlit("arbitrage2");
        reveal_strlit("arbitrageN");
        assert("standard"@.len() == 8);
        assert("polymarket"@.len() == 10);
        assert("stock"@.len() == 5);
        assert("arbitrage2"@.len() == 10);
        assert("arbitrageN"@.len() == 10);
        assert("polymarket"@[0] == 'p');
        assert("arbitrage2"@[0] == 'a');
        assert("arbitrageN"@[0] == 'a');
        assert("arbitrage2"@[9] == '2');
        assert("arbitrageN"@[9] == 'N');
    }
}

} // verus!
