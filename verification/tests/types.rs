use bo::types::PortfolioLegSource;

#[test]
fn each_source_has_its_name() {
    assert_eq!(PortfolioLegSource::Standard.as_str(), "standard");
    assert_eq!(PortfolioLegSource::Polymarket.as_str(), "polymarket");
    assert_eq!(PortfolioLegSource::Stock.as_str(), "stock");
    assert_eq!(PortfolioLegSource::Arbitrage2.as_str(), "arbitrage2");
    assert_eq!(PortfolioLegSource::ArbitrageN.as_str(), "arbitrageN");
}

#[test]
fn sources_compare_by_kind() {
    assert_eq!(PortfolioLegSource::Stock, PortfolioLegSource::Stock);
    assert_ne!(PortfolioLegSource::Arbitrage2, PortfolioLegSource::ArbitrageN);
    let copy = PortfolioLegSource::Polymarket;
    assert_eq!(copy.as_str(), copy.clone().as_str());
}
