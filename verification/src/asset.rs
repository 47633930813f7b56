//! Containers for basic asset data.

use vstd::prelude::*;
use crate::currency::Currency;
use crate::data::DataError;
use crate::data::DataItem;

verus! {

/// A stock: an optional persistent id and a name.
#[derive(Debug, Clone)]
pub struct Stock {
    pub id: Option<i32>,
    pub name: String,
}

/// Any supported asset.
#[derive(Debug, Clone)]
pub enum Asset {
    Currency(Currency),
    Stock(Stock),
}

/// A row of a choice list from which an asset can be picked.
#[derive(Debug, Clone)]
pub struct AssetSelector {
    pub id: i32,
    pub name: String,
    pub class: String,
}

impl Asset {
    /// The asset class of the contained asset, as a lowercase name.
    pub fn class(&self) -> (r: String)
        ensures
            self is Currency ==> r@ == "currency"@,
            self is Stock ==> r@ == "stock"@,
    {
        match self {
            Self::Currency(_) => String::from_str("currency"),
            Self::Stock(_) => String::from_str("stock"),
        }
    }

    /// The display name of the contained asset: the ISO code of a
    /// currency, or the name of a stock.
    pub fn name(&self) -> (r: String)
        ensures
            match self {
                Asset::Currency(c) => r@ == c.iso_code@,
                Asset::Stock(s) => r@ == s.name@,
            },
    {
        match self {
            Self::Currency(c) => c.to_string(),
            Self::Stock(s) => s.name.clone(),
        }
    }
}

impl DataItem for Stock {
    open spec fn id_of(&self) -> Option<int> {
        match self.id {
            Some(i) => Some(i as int),
            None => None,
        }
    }

    open spec fn with_id(&self, id: i32) -> Stock {
        Stock { id: Some(id), name: self.name }
    }

    fn get_id(&self) -> (r: Result<i32, DataError>) {
        match self.id {
            Some(id) => Ok(id),
            None => Err(
                DataError::DataAccessFailure(String::from_str("Can't get id of temporary stock")),
            ),
        }
    }

    fn set_id(&mut self, id: i32) -> (r: Result<(), DataError>) {
        match self.id {
            Some(_) => Err(
                DataError::DataAccessFailure(String::from_str("Can't change id of persistent stock")),
            ),
            None => {
                self.id = Some(id);
                Ok(())
            },
        }
    }
}

impl DataItem for Asset {
    open spec fn id_of(&self) -> Option<int> {
        match self {
            Asset::Currency(c) => c.id_of(),
            Asset::Stock(s) => s.id_of(),
        }
    }

    open spec fn with_id(&self, id: i32) -> Asset {
        match self {
            Asset::Currency(c) => Asset::Currency(c.with_id(id)),
            Asset::Stock(s) => Asset::Stock(s.with_id(id)),
        }
    }

    fn get_id(&self) -> (r: Result<i32, DataError>) {
        match self {
            Asset::Currency(c) => c.get_id(),
            Asset::Stock(s) => s.get_id(),
        }
    }

    fn set_id(&mut self, id: i32) -> (r: Result<(), DataError>) {
        let updated = match &*self {
            Asset::Currency(c) => {
                let mut c2 = *c;
                match c2.set_id(id) {
                    Ok(()) => Asset::Currency(c2),
                    Err(e) => {
                        return Err(e);
                    },
                }
            },
            Asset::Stock(s) => {
                let mut s2 = Stock { id: s.id, name: s.name.clone() };
                match s2.set_id(id) {
                    Ok(()) => Asset::Stock(s2),
                    Err(e) => {
                        return Err(e);
                    },
                }
            },
        };
        *self = updated;
        Ok(())
    }
}

} // verus!
