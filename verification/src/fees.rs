//! Fee-tier selection.
//!
//! A factory keeps up to one pool per standard trading-fee tier for a token
//! pair. The caller picks tiers with a selector string: `"1"`, `"5"`, `"30"`
//! and `"100"` name the 1, 5, 30 and 100 basis-point tiers; an absent
//! selector means all four, in tier order. Any other selector is a caller
//! configuration mistake, reported before any monitoring begins — never a
//! process abort.

use vstd::prelude::*;
use crate::price::Address;

verus! {

/// The caller's fee-tier selector is not one the factory knows.
#[derive(Clone, Copy, PartialEq, Eq, Structural, Debug)]
pub enum ConfigurationError {
    UnknownSelector,
}

/// The factory's pool addresses for one token pair, one per standard fee
/// tier, in tier order: 1, 5, 30 and 100 basis points.
#[derive(Clone, Copy, PartialEq, Eq, Structural, Debug)]
pub struct TierAddresses {
    pub bp1: Address,
    pub bp5: Address,
    pub bp30: Address,
    pub bp100: Address,
}

/// The factory fee parameters a selector designates, in hundredths of a
/// basis point: `"1"` names fee 100, `"5"` fee 500, `"30"` fee 3000 and
/// `"100"` fee 10000; an absent selector names all four, in tier order.
/// Any other selector designates nothing.
pub open spec fn spec_fee_tiers(sel: Option<Seq<char>>) -> Option<Seq<u32>> {
    match sel {
        None => Some(seq![100u32, 500u32, 3000u32, 10000u32]),
        Some(s) => if s == "1"@ {
            Some(seq![100u32])
        } else if s == "5"@ {
            Some(seq![500u32])
        } else if s == "30"@ {
            Some(seq![3000u32])
        } else if s == "100"@ {
            Some(seq![10000u32])
        } else {
            None
        },
    }
}

/// The pool addresses a selector designates out of a factory's per-tier
/// candidates: the one pool of the selected tier, or all four in tier order
/// when the selector is absent.
pub open spec fn spec_selected_pools(sel: Option<Seq<char>>, c: TierAddresses) -> Option<
    Seq<Address>,
> {
    match sel {
        None => Some(seq![c.bp1, c.bp5, c.bp30, c.bp100]),
        Some(s) => if s == "1"@ {
            Some(seq![c.bp1])
        } else if s == "5"@ {
            Some(seq![c.bp5])
        } else if s == "30"@ {
            Some(seq![c.bp30])
        } else if s == "100"@ {
            Some(seq![c.bp100])
        } else {
            None
        },
    }
}

/// The view of an optional selector string.
pub open spec fn selector_view(bp: Option<String>) -> Option<Seq<char>> {
    match bp {
        None => None,
        Some(s) => Some(s@),
    }
}

/// Resolves a fee-tier selector to the factory fee parameters to query,
/// rejecting an unknown selector before any subscription is opened.
pub fn fee_tiers_for_selector(bp: &Option<String>) -> (r: Result<Vec<u32>, ConfigurationError>)
    ensures
        match spec_fee_tiers(selector_view(*bp)) {
            Some(tiers) => r matches Ok(v) && v@ == tiers,
            None => r == Err::<Vec<u32>, ConfigurationError>(ConfigurationError::UnknownSelector),
        },
{
    match bp {
        None => {
            let mut v: Vec<u32> = Vec::new();
            v.push(100);
            v.push(500);
            v.push(3000);
            v.push(10000);
            proof {
                assert(v@ =~= seq![100u32, 500u32, 3000u32, 10000u32]);
            }
            Ok(v)
        },
        Some(s) => {
            let fee: Option<u32> = if *s == "1".to_owned() {
                Some(100)
            } else if *s == "5".to_owned() {
                Some(500)
            } else if *s == "30".to_owned() {
                Some(3000)
            } else if *s == "100".to_owned() {
                Some(10000)
            } else {
                None
            };
            match fee {
                Some(f) => {
                    let mut v: Vec<u32> = Vec::new();
                    v.push(f);
                    proof {
                        assert(v@ =~= seq![f]);
                    }
                    Ok(v)
                },
                None => Err(ConfigurationError::UnknownSelector),
            }
        },
    }
}

/// Selects, from a factory's per-tier pool addresses, the pools a fee-tier
/// selector designates: exactly one pool for a named tier, all four in tier
/// order for an absent selector, and a configuration error otherwise.
pub fn select_pool_addresses(bp: &Option<String>, candidates: &TierAddresses) -> (r: Result<
    Vec<Address>,
    ConfigurationError,
>)
    ensures
        match spec_selected_pools(selector_view(*bp), *candidates) {
            Some(pools) => r matches Ok(v) && v@ == pools,
            None => r == Err::<Vec<Address>, ConfigurationError>(
                ConfigurationError::UnknownSelector,
            ),
        },
{
    match bp {
        None => {
            let mut v: Vec<Address> = Vec::new();
            v.push(candidates.bp1);
            v.push(candidates.bp5);
            v.push(candidates.bp30);
            v.push(candidates.bp100);
            proof {
                assert(v@ =~= seq![candidates.bp1, candidates.bp5, candidates.bp30,
                    candidates.bp100]);
            }
            Ok(v)
        },
        Some(s) => {
            let chosen: Option<Address> = if *s == "1".to_owned() {
                Some(candidates.bp1)
            } else if *s == "5".to_owned() {
                Some(candidates.bp5)
            } else if *s == "30".to_owned() {
                Some(candidates.bp30)
            } else if *s == "100".to_owned() {
                Some(candidates.bp100)
            } else {
                None
            };
            match chosen {
                Some(a) => {
                    let mut v: Vec<Address> = Vec::new();
                    v.push(a);
                    proof {
                        assert(v@ =~= seq![a]);
                    }
                    Ok(v)
                },
                None => Err(ConfigurationError::UnknownSelector),
            }
        },
    }
}

} // verus!
