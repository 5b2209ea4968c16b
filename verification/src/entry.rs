//! The entries that the board stores.

use vstd::prelude::*;

verus! {

/// A price update as stored: both rates, the direction of the buying rate
/// against the update before it, the signed change, and when the source
/// made it.
#[derive(Clone, Debug)]
pub struct GoldEntry {
    pub buying_rate: i64,
    pub selling_rate: i64,
    pub status: String,
    pub diff: i64,
    pub created_at: String,
}

/// A price update as a plain value.
pub ghost struct GoldEntryView {
    pub buying_rate: i64,
    pub selling_rate: i64,
    pub status: Seq<char>,
    pub diff: i64,
    pub created_at: Seq<char>,
}

impl View for GoldEntry {
    type V = GoldEntryView;

    open spec fn view(&self) -> GoldEntryView {
        GoldEntryView {
            buying_rate: self.buying_rate,
            selling_rate: self.selling_rate,
            status: self.status@,
            diff: self.diff,
            created_at: self.created_at@,
        }
    }
}

/// An exchange-rate reading as stored.
#[derive(Clone, Debug)]
pub struct UsdIdrEntry {
    pub price: String,
    pub time: String,
}

/// An exchange-rate reading as a plain value.
pub ghost struct UsdIdrEntryView {
    pub price: Seq<char>,
    pub time: Seq<char>,
}

impl View for UsdIdrEntry {
    type V = UsdIdrEntryView;

    open spec fn view(&self) -> UsdIdrEntryView {
        UsdIdrEntryView { price: self.price@, time: self.time@ }
    }
}

/// The plain values of a run of price updates.
pub open spec fn gold_views(s: Seq<GoldEntry>) -> Seq<GoldEntryView> {
    s.map_values(|e: GoldEntry| e@)
}

/// The plain values of a run of exchange-rate readings.
pub open spec fn usd_views(s: Seq<UsdIdrEntry>) -> Seq<UsdIdrEntryView> {
    s.map_values(|e: UsdIdrEntry| e@)
}

} // verus!
