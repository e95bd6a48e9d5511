//! Assets traded on the exchange.
use vstd::prelude::*;
use vstd::string::StrSliceExecFns;

verus! {

#[derive(Debug, Clone, PartialEq, Eq, Hash, Structural)]
pub enum Asset {
    USDC,
    USDT,
    BTC,
    ETH,
    SOL,
}

/// A market's base and quote asset.
#[derive(Debug, Clone)]
pub struct AssetPair {
    pub base: Asset,
    pub quote: Asset,
}

/// Whether two strings hold the same characters.
pub fn str_equal(a: &str, b: &str) -> (r: bool)
    ensures
        r == (a@ == b@),
{
    let n = a.unicode_len();
    if n != b.unicode_len() {
        return false;
    }
    let mut i: usize = 0;
    while i < n
        invariant
            n == a@.len(),
            n == b@.len(),
            i <= n,
            forall|k: int| 0 <= k < i ==> a@[k] == b@[k],
        decreases n - i,
    {
        if a.get_char(i) != b.get_char(i) {
            return false;
        }
        i = i + 1;
    }
    assert(a@ =~= b@);
    true
}

impl Asset {
    /// The asset named exactly by `asset_str`.
    pub fn from_str(asset_str: &str) -> (r: Result<Asset, &'static str>)
        ensures
            r == (if asset_str@ == "USDC"@ {
                Ok::<Asset, &'static str>(Asset::USDC)
            } else if asset_str@ == "USDT"@ {
                Ok(Asset::USDT)
            } else if asset_str@ == "BTC"@ {
                Ok(Asset::BTC)
            } else if asset_str@ == "ETH"@ {
                Ok(Asset::ETH)
            } else if asset_str@ == "SOL"@ {
                Ok(Asset::SOL)
            } else {
                Err("unsupported asset")
            }),
    {
        let asset = if str_equal(asset_str, "USDC") {
            Asset::USDC
        } else if str_equal(asset_str, "USDT") {
            Asset::USDT
        } else if str_equal(asset_str, "BTC") {
            Asset::BTC
        } else if str_equal(asset_str, "ETH") {
            Asset::ETH
        } else if str_equal(asset_str, "SOL") {
            Asset::SOL
        } else {
            return Err("unsupported asset");
        };

        Ok(asset)
    }
}

} // verus!
