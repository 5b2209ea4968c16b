//! Readings of the exchange rate.

use vstd::prelude::*;
use vstd::string::*;
use bytes::Bytes;
use crate::config::MAX_USD_HISTORY;
use crate::entry::{usd_views, UsdIdrEntry, UsdIdrEntryView};
use crate::history::appended;
use crate::json::{bytes_clone, bytes_of};
use crate::snapshot::is_snapshot_of;
use crate::state::{after_get, after_invalidate, AppState, AppView};
use crate::text::same_text;
use crate::utils::{current_timestamp, wib_clock, wib_time_at, ProfitFigures};

verus! {

/// Whether a price is news: there is no reading yet, or the newest reading
/// has another price.
pub open spec fn is_news(v: AppView, price: Seq<char>) -> bool {
    v.usd_idr_history.len() == 0 || v.usd_idr_history.last().price != price
}

/// The board after a reading was added to the history of the exchange rate.
pub open spec fn after_reading(v: AppView, e: UsdIdrEntryView) -> AppView {
    AppView { usd_idr_history: appended(v.usd_idr_history, e, MAX_USD_HISTORY as nat), ..v }
}

impl<F: Fn(i64, i64, i64, i64) -> ProfitFigures> AppState<F> {
    /// Takes a price of the exchange rate in, read at the time of day
    /// `time`, at millisecond `now_ms` of the board's clock. Where the price
    /// is news, it is added to the history with its time, the board moves on to
    /// its next version, and a snapshot of it is built, cached, sent to
    /// every subscriber and handed back; else nothing changes.
    pub fn record_usd_price_at(&mut self, price: String, time: String, now_ms: u64) -> (sent: Option<
        Bytes,
    >)
        requires
            old(self).wf(),
        ensures
            final(self).follows(old(self)),
            sent is Some == is_news(old(self)@, price@),
            sent is None ==> final(self)@ == old(self)@,
            sent is Some ==> {
                &&& final(self)@ == after_get(
                    after_invalidate(
                        after_reading(old(self)@, UsdIdrEntryView { price: price@, time: time@ }),
                    ),
                    now_ms,
                    bytes_of(sent->0),
                )
                &&& is_snapshot_of(
                    &final(self).estimator(),
                    final(self)@.history,
                    final(self)@.usd_idr_history,
                    final(self)@.limit_bulan as int,
                    bytes_of(sent->0),
                )
            },
    {
        let should_update = match self.usd_idr_history.back() {
            Some(last) => !same_text(last.price.as_str(), price.as_str()),
            None => true,
        };
        if !should_update {
            return None;
        }
        let ghost before = self@;
        let ghost e = UsdIdrEntryView { price: price@, time: time@ };
        self.invalidate_cache();
        let entry = UsdIdrEntry { price, time };
        proof {
            self.usd_idr_history.lemma_wf();
            assert(usd_views(appended(self.usd_idr_history@, entry, MAX_USD_HISTORY as nat))
                =~= appended(usd_views(self.usd_idr_history@), e, MAX_USD_HISTORY as nat));
        }
        self.usd_idr_history.push(entry);
        proof {
            assert(self@ == after_invalidate(after_reading(before, e)));
        }
        let doc = self.get_cached_state_at(now_ms);
        self.ws_manager.broadcast(bytes_clone(&doc));
        Some(doc)
    }

    /// Takes a price of the exchange rate in at the present moment; the
    /// reading is given the present time of day.
    pub fn record_usd_price(&mut self, price: String) -> (sent: Option<Bytes>)
        requires
            old(self).wf(),
        ensures
            final(self).follows(old(self)),
            sent is Some == is_news(old(self)@, price@),
            sent is None ==> final(self)@ == old(self)@,
            sent is Some ==> {
                &&& exists|secs: u64, now_ms: u64|
                    final(self)@ == #[trigger] after_get(
                        after_invalidate(
                            after_reading(
                                old(self)@,
                                UsdIdrEntryView { price: price@, time: wib_clock(secs as int) },
                            ),
                        ),
                        now_ms,
                        bytes_of(sent->0),
                    )
                &&& is_snapshot_of(
                    &final(self).estimator(),
                    final(self)@.history,
                    final(self)@.usd_idr_history,
                    final(self)@.limit_bulan as int,
                    bytes_of(sent->0),
                )
            },
    {
        let secs = current_timestamp();
        let time = wib_time_at(secs);
        let now_ms = self.clock_millis();
        self.record_usd_price_at(price, time, now_ms)
    }
}

} // verus!
