//! The chain-domain registry: a static table mapping each supported chain to
//! its numeric domain identifier, its canonical lower-case name and its kind.

use vstd::prelude::*;
use vstd::string::StringExecFns;
use crate::text::str_equal;

verus! {

/// All domains supported by the relayer.
#[derive(Clone, Copy, PartialEq, Eq, Structural, Debug)]
pub enum HyperlaneDomain {
    /// Ethereum mainnet.
    Ethereum,
    /// Ethereum testnet Goerli.
    Goerli,
    /// Ethereum testnet Kovan.
    Kovan,
    /// Polygon mainnet.
    Polygon,
    /// Polygon testnet Mumbai.
    Mumbai,
    /// Avalanche mainnet.
    Avalanche,
    /// Avalanche testnet Fuji.
    Fuji,
    /// Arbitrum mainnet.
    Arbitrum,
    /// Arbitrum testnet Rinkeby.
    ArbitrumRinkeby,
    /// Arbitrum testnet Goerli.
    ArbitrumGoerli,
    /// Optimism mainnet.
    Optimism,
    /// Optimism testnet Kovan.
    OptimismKovan,
    /// Optimism testnet Goerli.
    OptimismGoerli,
    /// Binance Smart Chain mainnet.
    BinanceSmartChain,
    /// Binance Smart Chain testnet.
    BinanceSmartChainTestnet,
    /// Celo mainnet.
    Celo,
    /// Celo testnet Alfajores.
    Alfajores,
    /// Moonbeam testnet MoonbaseAlpha.
    MoonbaseAlpha,
    /// Moonbeam mainnet.
    Moonbeam,
    /// zkSync 2 testnet.
    Zksync2Testnet,
    /// First local test chain.
    Test1,
    /// Second local test chain.
    Test2,
    /// Third local test chain.
    Test3,
}

/// Kinds of Hyperlane domains.
#[derive(Clone, Copy, PartialEq, Eq, Structural, Debug)]
pub enum HyperlaneDomainType {
    /// A mainnet.
    Mainnet,
    /// A testnet.
    Testnet,
    /// A local chain for testing.
    LocalTestChain,
}

/// The numeric domain identifier of each chain.
pub open spec fn domain_id_spec(d: HyperlaneDomain) -> u32 {
    match d {
        HyperlaneDomain::Ethereum => 0x657468,
        HyperlaneDomain::Goerli => 5,
        HyperlaneDomain::Kovan => 3000,
        HyperlaneDomain::Polygon => 0x706f6c79,
        HyperlaneDomain::Mumbai => 80001,
        HyperlaneDomain::Avalanche => 0x61766178,
        HyperlaneDomain::Fuji => 43113,
        HyperlaneDomain::Arbitrum => 0x617262,
        HyperlaneDomain::ArbitrumRinkeby => 0x61722d72,
        HyperlaneDomain::ArbitrumGoerli => 421613,
        HyperlaneDomain::Optimism => 0x6f70,
        HyperlaneDomain::OptimismKovan => 0x6f702d6b,
        HyperlaneDomain::OptimismGoerli => 420,
        HyperlaneDomain::BinanceSmartChain => 0x627363,
        HyperlaneDomain::BinanceSmartChainTestnet => 0x62732d74,
        HyperlaneDomain::Celo => 0x63656c6f,
        HyperlaneDomain::Alfajores => 1000,
        HyperlaneDomain::MoonbaseAlpha => 0x6d6f2d61,
        HyperlaneDomain::Moonbeam => 0x6d6f2d6d,
        HyperlaneDomain::Zksync2Testnet => 280,
        HyperlaneDomain::Test1 => 13371,
        HyperlaneDomain::Test2 => 13372,
        HyperlaneDomain::Test3 => 13373,
    }
}

/// The canonical lower-case name of each chain.
pub open spec fn name_spec(d: HyperlaneDomain) -> Seq<char> {
    match d {
        HyperlaneDomain::Ethereum => "ethereum"@,
        HyperlaneDomain::Goerli => "goerli"@,
        HyperlaneDomain::Kovan => "kovan"@,
        HyperlaneDomain::Polygon => "polygon"@,
        HyperlaneDomain::Mumbai => "mumbai"@,
        HyperlaneDomain::Avalanche => "avalanche"@,
        HyperlaneDomain::Fuji => "fuji"@,
        HyperlaneDomain::Arbitrum => "arbitrum"@,
        HyperlaneDomain::ArbitrumRinkeby => "arbitrumrinkeby"@,
        HyperlaneDomain::ArbitrumGoerli => "arbitrumgoerli"@,
        HyperlaneDomain::Optimism => "optimism"@,
        HyperlaneDomain::OptimismKovan => "optimismkovan"@,
        HyperlaneDomain::OptimismGoerli => "optimismgoerli"@,
        HyperlaneDomain::BinanceSmartChain => "bsc"@,
        HyperlaneDomain::BinanceSmartChainTestnet => "bsctestnet"@,
        HyperlaneDomain::Celo => "celo"@,
        HyperlaneDomain::Alfajores => "alfajores"@,
        HyperlaneDomain::MoonbaseAlpha => "moonbasealpha"@,
        HyperlaneDomain::Moonbeam => "moonbeam"@,
        HyperlaneDomain::Zksync2Testnet => "zksync2testnet"@,
        HyperlaneDomain::Test1 => "test1"@,
        HyperlaneDomain::Test2 => "test2"@,
        HyperlaneDomain::Test3 => "test3"@,
    }
}

/// The domain with the given identifier, if one is registered.
pub open spec fn domain_of_id(domain_id: u32) -> Option<HyperlaneDomain> {
    if domain_id == 0x657468 { Some(HyperlaneDomain::Ethereum) }
    else if domain_id == 5 { Some(HyperlaneDomain::Goerli) }
    else if domain_id == 3000 { Some(HyperlaneDomain::Kovan) }
    else if domain_id == 0x706f6c79 { Some(HyperlaneDomain::Polygon) }
    else if domain_id == 80001 { Some(HyperlaneDomain::Mumbai) }
    else if domain_id == 0x61766178 { Some(HyperlaneDomain::Avalanche) }
    else if domain_id == 43113 { Some(HyperlaneDomain::Fuji) }
    else if domain_id == 0x617262 { Some(HyperlaneDomain::Arbitrum) }
    else if domain_id == 0x61722d72 { Some(HyperlaneDomain::ArbitrumRinkeby) }
    else if domain_id == 421613 { Some(HyperlaneDomain::ArbitrumGoerli) }
    else if domain_id == 0x6f70 { Some(HyperlaneDomain::Optimism) }
    else if domain_id == 0x6f702d6b { Some(HyperlaneDomain::OptimismKovan) }
    else if domain_id == 420 { Some(HyperlaneDomain::OptimismGoerli) }
    else if domain_id == 0x627363 { Some(HyperlaneDomain::BinanceSmartChain) }
    else if domain_id == 0x62732d74 { Some(HyperlaneDomain::BinanceSmartChainTestnet) }
    else if domain_id == 0x63656c6f { Some(HyperlaneDomain::Celo) }
    else if domain_id == 1000 { Some(HyperlaneDomain::Alfajores) }
    else if domain_id == 0x6d6f2d61 { Some(HyperlaneDomain::MoonbaseAlpha) }
    else if domain_id == 0x6d6f2d6d { Some(HyperlaneDomain::Moonbeam) }
    else if domain_id == 280 { Some(HyperlaneDomain::Zksync2Testnet) }
    else if domain_id == 13371 { Some(HyperlaneDomain::Test1) }
    else if domain_id == 13372 { Some(HyperlaneDomain::Test2) }
    else if domain_id == 13373 { Some(HyperlaneDomain::Test3) }
    else { None }
}

/// The domain with the given canonical name, if one is registered.
pub open spec fn domain_of_name(s: Seq<char>) -> Option<HyperlaneDomain> {
    if s == "ethereum"@ { Some(HyperlaneDomain::Ethereum) }
    else if s == "goerli"@ { Some(HyperlaneDomain::Goerli) }
    else if s == "kovan"@ { Some(HyperlaneDomain::Kovan) }
    else if s == "polygon"@ { Some(HyperlaneDomain::Polygon) }
    else if s == "mumbai"@ { Some(HyperlaneDomain::Mumbai) }
    else if s == "avalanche"@ { Some(HyperlaneDomain::Avalanche) }
    else if s == "fuji"@ { Some(HyperlaneDomain::Fuji) }
    else if s == "arbitrum"@ { Some(HyperlaneDomain::Arbitrum) }
    else if s == "arbitrumrinkeby"@ { Some(HyperlaneDomain::ArbitrumRinkeby) }
    else if s == "arbitrumgoerli"@ { Some(HyperlaneDomain::ArbitrumGoerli) }
    else if s == "optimism"@ { Some(HyperlaneDomain::Optimism) }
    else if s == "optimismkovan"@ { Some(HyperlaneDomain::OptimismKovan) }
    else if s == "optimismgoerli"@ { Some(HyperlaneDomain::OptimismGoerli) }
    else if s == "bsc"@ { Some(HyperlaneDomain::BinanceSmartChain) }
    else if s == "bsctestnet"@ { Some(HyperlaneDomain::BinanceSmartChainTestnet) }
    else if s == "celo"@ { Some(HyperlaneDomain::Celo) }
    else if s == "alfajores"@ { Some(HyperlaneDomain::Alfajores) }
    else if s == "moonbasealpha"@ { Some(HyperlaneDomain::MoonbaseAlpha) }
    else if s == "moonbeam"@ { Some(HyperlaneDomain::Moonbeam) }
    else if s == "zksync2testnet"@ { Some(HyperlaneDomain::Zksync2Testnet) }
    else if s == "test1"@ { Some(HyperlaneDomain::Test1) }
    else if s == "test2"@ { Some(HyperlaneDomain::Test2) }
    else if s == "test3"@ { Some(HyperlaneDomain::Test3) }
    else { None }
}

/// The kind of each domain.
pub open spec fn domain_type_spec(d: HyperlaneDomain) -> HyperlaneDomainType {
    match d {
        HyperlaneDomain::Ethereum => HyperlaneDomainType::Mainnet,
        HyperlaneDomain::Goerli => HyperlaneDomainType::Testnet,
        HyperlaneDomain::Kovan => HyperlaneDomainType::Testnet,
        HyperlaneDomain::Polygon => HyperlaneDomainType::Mainnet,
        HyperlaneDomain::Mumbai => HyperlaneDomainType::Testnet,
        HyperlaneDomain::Avalanche => HyperlaneDomainType::Mainnet,
        HyperlaneDomain::Fuji => HyperlaneDomainType::Testnet,
        HyperlaneDomain::Arbitrum => HyperlaneDomainType::Mainnet,
        HyperlaneDomain::ArbitrumRinkeby => HyperlaneDomainType::Testnet,
        HyperlaneDomain::ArbitrumGoerli => HyperlaneDomainType::Testnet,
        HyperlaneDomain::Optimism => HyperlaneDomainType::Mainnet,
        HyperlaneDomain::OptimismKovan => HyperlaneDomainType::Testnet,
        HyperlaneDomain::OptimismGoerli => HyperlaneDomainType::Testnet,
        HyperlaneDomain::BinanceSmartChain => HyperlaneDomainType::Mainnet,
        HyperlaneDomain::BinanceSmartChainTestnet => HyperlaneDomainType::Testnet,
        HyperlaneDomain::Celo => HyperlaneDomainType::Mainnet,
        HyperlaneDomain::Alfajores => HyperlaneDomainType::Testnet,
        HyperlaneDomain::MoonbaseAlpha => HyperlaneDomainType::Testnet,
        HyperlaneDomain::Moonbeam => HyperlaneDomainType::Mainnet,
        HyperlaneDomain::Zksync2Testnet => HyperlaneDomainType::Testnet,
        HyperlaneDomain::Test1 => HyperlaneDomainType::LocalTestChain,
        HyperlaneDomain::Test2 => HyperlaneDomainType::LocalTestChain,
        HyperlaneDomain::Test3 => HyperlaneDomainType::LocalTestChain,
    }
}

impl HyperlaneDomain {
    /// The numeric domain identifier of this chain.
    pub fn domain_id(&self) -> (id: u32)
        ensures
            id == domain_id_spec(*self),
    {
        match self {
            HyperlaneDomain::Ethereum => 0x657468,
            HyperlaneDomain::Goerli => 5,
            HyperlaneDomain::Kovan => 3000,
            HyperlaneDomain::Polygon => 0x706f6c79,
            HyperlaneDomain::Mumbai => 80001,
            HyperlaneDomain::Avalanche => 0x61766178,
            HyperlaneDomain::Fuji => 43113,
            HyperlaneDomain::Arbitrum => 0x617262,
            HyperlaneDomain::ArbitrumRinkeby => 0x61722d72,
            HyperlaneDomain::ArbitrumGoerli => 421613,
            HyperlaneDomain::Optimism => 0x6f70,
            HyperlaneDomain::OptimismKovan => 0x6f702d6b,
            HyperlaneDomain::OptimismGoerli => 420,
            HyperlaneDomain::BinanceSmartChain => 0x627363,
            HyperlaneDomain::BinanceSmartChainTestnet => 0x62732d74,
            HyperlaneDomain::Celo => 0x63656c6f,
            HyperlaneDomain::Alfajores => 1000,
            HyperlaneDomain::MoonbaseAlpha => 0x6d6f2d61,
            HyperlaneDomain::Moonbeam => 0x6d6f2d6d,
            HyperlaneDomain::Zksync2Testnet => 280,
            HyperlaneDomain::Test1 => 13371,
            HyperlaneDomain::Test2 => 13372,
            HyperlaneDomain::Test3 => 13373,
        }
    }

    /// The canonical lower-case name of this chain.
    pub fn name(&self) -> (n: String)
        ensures
            n@ == name_spec(*self),
    {
        let s: &'static str = match self {
            HyperlaneDomain::Ethereum => "ethereum",
            HyperlaneDomain::Goerli => "goerli",
            HyperlaneDomain::Kovan => "kovan",
            HyperlaneDomain::Polygon => "polygon",
            HyperlaneDomain::Mumbai => "mumbai",
            HyperlaneDomain::Avalanche => "avalanche",
            HyperlaneDomain::Fuji => "fuji",
            HyperlaneDomain::Arbitrum => "arbitrum",
            HyperlaneDomain::ArbitrumRinkeby => "arbitrumrinkeby",
            HyperlaneDomain::ArbitrumGoerli => "arbitrumgoerli",
            HyperlaneDomain::Optimism => "optimism",
            HyperlaneDomain::OptimismKovan => "optimismkovan",
            HyperlaneDomain::OptimismGoerli => "optimismgoerli",
            HyperlaneDomain::BinanceSmartChain => "bsc",
            HyperlaneDomain::BinanceSmartChainTestnet => "bsctestnet",
            HyperlaneDomain::Celo => "celo",
            HyperlaneDomain::Alfajores => "alfajores",
            HyperlaneDomain::MoonbaseAlpha => "moonbasealpha",
            HyperlaneDomain::Moonbeam => "moonbeam",
            HyperlaneDomain::Zksync2Testnet => "zksync2testnet",
            HyperlaneDomain::Test1 => "test1",
            HyperlaneDomain::Test2 => "test2",
            HyperlaneDomain::Test3 => "test3",
        };
        String::from_str(s)
    }

    /// The domain with the given identifier, if one is registered.
    pub fn from_domain_id(domain_id: u32) -> (d: Option<HyperlaneDomain>)
        ensures
            d == domain_of_id(domain_id),
    {
        match domain_id {
            0x657468 => Some(HyperlaneDomain::Ethereum),
            5 => Some(HyperlaneDomain::Goerli),
            3000 => Some(HyperlaneDomain::Kovan),
            0x706f6c79 => Some(HyperlaneDomain::Polygon),
            80001 => Some(HyperlaneDomain::Mumbai),
            0x61766178 => Some(HyperlaneDomain::Avalanche),
            43113 => Some(HyperlaneDomain::Fuji),
            0x617262 => Some(HyperlaneDomain::Arbitrum),
            0x61722d72 => Some(HyperlaneDomain::ArbitrumRinkeby),
            421613 => Some(HyperlaneDomain::ArbitrumGoerli),
            0x6f70 => Some(HyperlaneDomain::Optimism),
            0x6f702d6b => Some(HyperlaneDomain::OptimismKovan),
            420 => Some(HyperlaneDomain::OptimismGoerli),
            0x627363 => Some(HyperlaneDomain::BinanceSmartChain),
            0x62732d74 => Some(HyperlaneDomain::BinanceSmartChainTestnet),
            0x63656c6f => Some(HyperlaneDomain::Celo),
            1000 => Some(HyperlaneDomain::Alfajores),
            0x6d6f2d61 => Some(HyperlaneDomain::MoonbaseAlpha),
            0x6d6f2d6d => Some(HyperlaneDomain::Moonbeam),
            280 => Some(HyperlaneDomain::Zksync2Testnet),
            13371 => Some(HyperlaneDomain::Test1),
            13372 => Some(HyperlaneDomain::Test2),
            13373 => Some(HyperlaneDomain::Test3),
            _ => None,
        }
    }

    /// The domain with the given canonical name, if one is registered.
    pub fn from_name(name: &str) -> (d: Option<HyperlaneDomain>)
        ensures
            d == domain_of_name(name@),
    {
        if str_equal(name, "ethereum") { Some(HyperlaneDomain::Ethereum) }
        else if str_equal(name, "goerli") { Some(HyperlaneDomain::Goerli) }
        else if str_equal(name, "kovan") { Some(HyperlaneDomain::Kovan) }
        else if str_equal(name, "polygon") { Some(HyperlaneDomain::Polygon) }
        else if str_equal(name, "mumbai") { Some(HyperlaneDomain::Mumbai) }
        else if str_equal(name, "avalanche") { Some(HyperlaneDomain::Avalanche) }
        else if str_equal(name, "fuji") { Some(HyperlaneDomain::Fuji) }
        else if str_equal(name, "arbitrum") { Some(HyperlaneDomain::Arbitrum) }
        else if str_equal(name, "arbitrumrinkeby") { Some(HyperlaneDomain::ArbitrumRinkeby) }
        else if str_equal(name, "arbitrumgoerli") { Some(HyperlaneDomain::ArbitrumGoerli) }
        else if str_equal(name, "optimism") { Some(HyperlaneDomain::Optimism) }
        else if str_equal(name, "optimismkovan") { Some(HyperlaneDomain::OptimismKovan) }
        else if str_equal(name, "optimismgoerli") { Some(HyperlaneDomain::OptimismGoerli) }
        else if str_equal(name, "bsc") { Some(HyperlaneDomain::BinanceSmartChain) }
        else if str_equal(name, "bsctestnet") { Some(HyperlaneDomain::BinanceSmartChainTestnet) }
        else if str_equal(name, "celo") { Some(HyperlaneDomain::Celo) }
        else if str_equal(name, "alfajores") { Some(HyperlaneDomain::Alfajores) }
        else if str_equal(name, "moonbasealpha") { Some(HyperlaneDomain::MoonbaseAlpha) }
        else if str_equal(name, "moonbeam") { Some(HyperlaneDomain::Moonbeam) }
        else if str_equal(name, "zksync2testnet") { Some(HyperlaneDomain::Zksync2Testnet) }
        else if str_equal(name, "test1") { Some(HyperlaneDomain::Test1) }
        else if str_equal(name, "test2") { Some(HyperlaneDomain::Test2) }
        else if str_equal(name, "test3") { Some(HyperlaneDomain::Test3) }
        else { None }
    }

    /// The kind of this domain: mainnet, testnet or local test chain.
    pub fn domain_type(&self) -> (t: HyperlaneDomainType)
        ensures
            t == domain_type_spec(*self),
    {
        match self {
            HyperlaneDomain::Ethereum => HyperlaneDomainType::Mainnet,
            HyperlaneDomain::Goerli => HyperlaneDomainType::Testnet,
            HyperlaneDomain::Kovan => HyperlaneDomainType::Testnet,
            HyperlaneDomain::Polygon => HyperlaneDomainType::Mainnet,
            HyperlaneDomain::Mumbai => HyperlaneDomainType::Testnet,
            HyperlaneDomain::Avalanche => HyperlaneDomainType::Mainnet,
            HyperlaneDomain::Fuji => HyperlaneDomainType::Testnet,
            HyperlaneDomain::Arbitrum => HyperlaneDomainType::Mainnet,
            HyperlaneDomain::ArbitrumRinkeby => HyperlaneDomainType::Testnet,
            HyperlaneDomain::ArbitrumGoerli => HyperlaneDomainType::Testnet,
            HyperlaneDomain::Optimism => HyperlaneDomainType::Mainnet,
            HyperlaneDomain::OptimismKovan => HyperlaneDomainType::Testnet,
            HyperlaneDomain::OptimismGoerli => HyperlaneDomainType::Testnet,
            HyperlaneDomain::BinanceSmartChain => HyperlaneDomainType::Mainnet,
            HyperlaneDomain::BinanceSmartChainTestnet => HyperlaneDomainType::Testnet,
            HyperlaneDomain::Celo => HyperlaneDomainType::Mainnet,
            HyperlaneDomain::Alfajores => HyperlaneDomainType::Testnet,
            HyperlaneDomain::MoonbaseAlpha => HyperlaneDomainType::Testnet,
            HyperlaneDomain::Moonbeam => HyperlaneDomainType::Mainnet,
            HyperlaneDomain::Zksync2Testnet => HyperlaneDomainType::Testnet,
            HyperlaneDomain::Test1 => HyperlaneDomainType::LocalTestChain,
            HyperlaneDomain::Test2 => HyperlaneDomainType::LocalTestChain,
            HyperlaneDomain::Test3 => HyperlaneDomainType::LocalTestChain,
        }
    }
}

/// The name of the chain with the given domain identifier, or `None` when the
/// identifier is not recognized.
pub fn name_from_domain_id(domain_id: u32) -> (r: Option<String>)
    ensures
        (r is Some) == (domain_of_id(domain_id) is Some),
        r matches Some(s) ==> domain_of_id(domain_id) matches Some(d) && s@ == name_spec(d),
{
    match HyperlaneDomain::from_domain_id(domain_id) {
        Some(d) => Some(d.name()),
        None => None,
    }
}

/// The domain identifier of the chain with the given name, or `None` when the
/// name is not recognized.
pub fn domain_id_from_name(name: &'static str) -> (r: Option<u32>)
    ensures
        (r is Some) == (domain_of_name(name@) is Some),
        r matches Some(id) ==> domain_of_name(name@) matches Some(d) && id == domain_id_spec(d),
{
    match HyperlaneDomain::from_name(name) {
        Some(d) => Some(d.domain_id()),
        None => None,
    }
}

} // verus!
