//! Price updates from the upstream feed.

use vstd::prelude::*;
use vstd::string::*;
use bytes::Bytes;
use crate::config::{MAX_HISTORY, MAX_SHOWN_UPDATES};
use crate::entry::{gold_views, GoldEntry, GoldEntryView};
use crate::history::appended;
use crate::json::bytes_of;
use crate::snapshot::is_snapshot_of;
use crate::state::{after_get, after_invalidate, distinct, texts, AppState, AppView};
use crate::text::{parse_i64, parsed_i64, same_text, strip_separators, without_separators};
use crate::utils::ProfitFigures;

verus! {

/// A rate as the feed sends it: a number, a text, or something else.
#[derive(Clone, Debug)]
pub enum RateValue {
    Number(i64),
    Text(String),
    Other,
}

/// A rate of the feed as a plain value.
pub ghost enum RateValueView {
    Number(i64),
    Text(Seq<char>),
    Other,
}

impl View for RateValue {
    type V = RateValueView;

    open spec fn view(&self) -> RateValueView {
        match self {
            RateValue::Number(n) => RateValueView::Number(*n),
            RateValue::Text(s) => RateValueView::Text(s@),
            RateValue::Other => RateValueView::Other,
        }
    }
}

/// The payload of a price event; any part of it may be missing.
#[derive(Clone, Debug)]
pub struct GoldRateData {
    pub buying_rate: Option<RateValue>,
    pub selling_rate: Option<RateValue>,
    pub created_at: Option<String>,
}

/// The payload of a price event as a plain value.
pub ghost struct GoldRateView {
    pub buying_rate: Option<RateValueView>,
    pub selling_rate: Option<RateValueView>,
    pub created_at: Option<Seq<char>>,
}

impl View for GoldRateData {
    type V = GoldRateView;

    open spec fn view(&self) -> GoldRateView {
        GoldRateView {
            buying_rate: match self.buying_rate {
                Some(v) => Some(v@),
                None => None,
            },
            selling_rate: match self.selling_rate {
                Some(v) => Some(v@),
                None => None,
            },
            created_at: match self.created_at {
                Some(s) => Some(s@),
                None => None,
            },
        }
    }
}

/// The amount a rate stands for: a number is itself, a text is read as a
/// decimal numeral once its dots and commas are taken out, and anything
/// else stands for nothing.
pub open spec fn number_of(v: RateValueView) -> Option<i64> {
    match v {
        RateValueView::Number(n) => Some(n),
        RateValueView::Text(s) => parsed_i64(without_separators(s)),
        RateValueView::Other => None,
    }
}

/// The amount a rate stands for.
pub fn parse_number(v: &RateValue) -> (r: Option<i64>)
    ensures
        r == number_of(v@),
{
    match v {
        RateValue::Number(n) => Some(*n),
        RateValue::Text(s) => {
            let plain = strip_separators(s.as_str());
            parse_i64(plain.as_str())
        },
        RateValue::Other => None,
    }
}

/// The amount of a rate that may be missing.
pub open spec fn amount(v: Option<RateValueView>) -> Option<i64> {
    match v {
        Some(x) => number_of(x),
        None => None,
    }
}

/// The amount nearest to `d` that a stored change can hold.
pub open spec fn clamped(d: int) -> i64 {
    if d > i64::MAX {
        i64::MAX
    } else if d < i64::MIN {
        i64::MIN
    } else {
        d as i64
    }
}

/// The direction of a buying rate against the one before it, and the
/// signed change, as near as it can be held: level and zero where there is
/// none before it.
pub open spec fn direction(last_buy: Option<i64>, buy: i64) -> (Seq<char>, i64) {
    match last_buy {
        None => ("➖"@, 0),
        Some(last) => if buy > last {
            ("🚀"@, clamped(buy - last))
        } else if buy < last {
            ("🔻"@, clamped(buy - last))
        } else {
            ("➖"@, 0)
        },
    }
}

/// The entry that a payload adds to the history, if it adds one. A payload
/// adds none where a rate is missing or stands for no amount, where the
/// time of the update is missing or empty, and where an update of that
/// time was seen already.
pub open spec fn accepted(v: AppView, d: GoldRateView) -> Option<GoldEntryView> {
    if amount(d.buying_rate) is None || amount(d.selling_rate) is None || d.created_at is None {
        None
    } else {
        let buy = amount(d.buying_rate)->0;
        let sell = amount(d.selling_rate)->0;
        let at = d.created_at->0;
        let (status, diff) = direction(v.last_buy, buy);
        if at.len() == 0 || v.shown_updates.contains(at) {
            None
        } else {
            Some(
                GoldEntryView {
                    buying_rate: buy,
                    selling_rate: sell,
                    status,
                    diff,
                    created_at: at,
                },
            )
        }
    }
}

/// The update keys remembered after one more: the memory starts over with
/// the new key alone once it would hold more than it may.
pub open spec fn remembered(shown: Seq<Seq<char>>, key: Seq<char>) -> Seq<Seq<char>> {
    if shown.len() + 1 > MAX_SHOWN_UPDATES {
        seq![key]
    } else {
        shown.push(key)
    }
}

/// The board after an accepted update: the entry is added to the history,
/// its time is remembered, and its buying rate is the last one.
pub open spec fn after_update(v: AppView, e: GoldEntryView) -> AppView {
    AppView {
        history: appended(v.history, e, MAX_HISTORY as nat),
        shown_updates: remembered(v.shown_updates, e.created_at),
        last_buy: Some(e.buying_rate),
        ..v
    }
}

/// Whether `key` is among `keys`.
fn is_shown(keys: &Vec<String>, key: &str) -> (r: bool)
    ensures
        r == texts(keys@).contains(key@),
{
    let mut i: usize = 0;
    while i < keys.len()
        invariant
            i <= keys@.len(),
            forall|j: int| 0 <= j < i ==> texts(keys@)[j] != key@,
        decreases keys@.len() - i,
    {
        if same_text(keys[i].as_str(), key) {
            proof {
                assert(texts(keys@)[i as int] == key@);
            }
            return true;
        }
        i = i + 1;
    }
    false
}

impl<F: Fn(i64, i64, i64, i64) -> ProfitFigures> AppState<F> {
    /// Takes a payload of the feed in at millisecond `now_ms` of the
    /// board's clock. Where the payload adds an entry, the board moves on
    /// to its next version, and a snapshot of it is built, cached, sent to
    /// every subscriber and handed back; else nothing changes.
    pub fn process_data_at(&mut self, data: &GoldRateData, now_ms: u64) -> (sent: Option<Bytes>)
        requires
            old(self).wf(),
        ensures
            final(self).follows(old(self)),
            sent is Some == accepted(old(self)@, data@) is Some,
            sent is None ==> final(self)@ == old(self)@,
            sent is Some ==> {
                &&& final(self)@ == after_get(
                    after_invalidate(after_update(old(self)@, accepted(old(self)@, data@)->0)),
                    now_ms,
                    bytes_of(sent->0),
                )
                &&& is_snapshot_of(
                    &final(self).estimator(),
                    final(self)@.history,
                    final(self)@.usd_idr_history,
                    final(self)@.limit_bulan as int,
                    bytes_of(sent->0),
                )
            },
    {
        let buy = match &data.buying_rate {
            Some(v) => match parse_number(v) {
                Some(n) => n,
                None => {
                    return None;
                },
            },
            None => {
                return None;
            },
        };
        let sell = match &data.selling_rate {
            Some(v) => match parse_number(v) {
                Some(n) => n,
                None => {
                    return None;
                },
            },
            None => {
                return None;
            },
        };
        let created_at = match &data.created_at {
            Some(s) => s.clone(),
            None => {
                return None;
            },
        };
        if created_at.as_str().unicode_len() == 0 {
            return None;
        }
        if is_shown(&self.shown_updates, created_at.as_str()) {
            return None;
        }
        let (status, diff) = if !self.has_last_buy {
            (String::from_str("➖"), 0i64)
        } else if buy > self.last_buy {
            match buy.checked_sub(self.last_buy) {
                Some(d) => (String::from_str("🚀"), d),
                None => (String::from_str("🚀"), i64::MAX),
            }
        } else if buy < self.last_buy {
            match buy.checked_sub(self.last_buy) {
                Some(d) => (String::from_str("🔻"), d),
                None => (String::from_str("🔻"), i64::MIN),
            }
        } else {
            (String::from_str("➖"), 0i64)
        };
        let ghost before = self@;
        let ghost e = accepted(before, data@)->0;
        self.invalidate_cache();
        let ghost keys = self.shown_updates@;
        if self.shown_updates.len() + 1 > MAX_SHOWN_UPDATES {
            self.shown_updates = Vec::new();
        }
        self.shown_updates.push(created_at.clone());
        let entry = GoldEntry { buying_rate: buy, selling_rate: sell, status, diff, created_at };
        proof {
            assert(entry@ == e);
            assert(texts(self.shown_updates@) =~= remembered(texts(keys), e.created_at));
            assert(distinct(texts(self.shown_updates@)));
            self.history.lemma_wf();
            assert(gold_views(appended(self.history@, entry, MAX_HISTORY as nat)) =~= appended(
                gold_views(self.history@),
                e,
                MAX_HISTORY as nat,
            ));
        }
        self.history.push(entry);
        self.last_buy = buy;
        self.has_last_buy = true;
        proof {
            assert(self@ == after_invalidate(after_update(before, e)));
        }
        let doc = self.get_cached_state_at(now_ms);
        self.ws_manager.broadcast(crate::json::bytes_clone(&doc));
        Some(doc)
    }

    /// Takes a payload of the feed in at the present moment.
    pub fn process_data(&mut self, data: &GoldRateData) -> (sent: Option<Bytes>)
        requires
            old(self).wf(),
        ensures
            final(self).follows(old(self)),
            sent is Some == accepted(old(self)@, data@) is Some,
            sent is None ==> final(self)@ == old(self)@,
            sent is Some ==> {
                &&& exists|now_ms: u64|
                    final(self)@ == #[trigger] after_get(
                        after_invalidate(after_update(old(self)@, accepted(old(self)@, data@)->0)),
                        now_ms,
                        bytes_of(sent->0),
                    )
                &&& is_snapshot_of(
                    &final(self).estimator(),
                    final(self)@.history,
                    final(self)@.usd_idr_history,
                    final(self)@.limit_bulan as int,
                    bytes_of(sent->0),
                )
            },
    {
        let now_ms = self.clock_millis();
        self.process_data_at(data, now_ms)
    }
}

/// A payload whose rates both stand for amounts and whose time is given,
/// not empty and not seen before always adds an entry: the one with these
/// amounts and this time.
pub proof fn lemma_new_update_is_accepted(v: AppView, d: GoldRateView)
    requires
        amount(d.buying_rate) is Some,
        amount(d.selling_rate) is Some,
        d.created_at is Some,
        d.created_at->0.len() > 0,
        !v.shown_updates.contains(d.created_at->0),
    ensures
        accepted(v, d) is Some,
        accepted(v, d)->0.buying_rate == amount(d.buying_rate)->0,
        accepted(v, d)->0.selling_rate == amount(d.selling_rate)->0,
        accepted(v, d)->0.created_at == d.created_at->0,
{
}

/// An accepted update makes the history one entry longer, until it holds as
/// many as it keeps; from then on its length stays, the new entry is its
/// last, and its oldest entry has left.
pub proof fn lemma_update_keeps_history_bounded(v: AppView, e: GoldEntryView)
    requires
        v.history.len() <= MAX_HISTORY,
    ensures
        after_update(v, e).history.len() == (if v.history.len() < MAX_HISTORY {
            v.history.len() + 1
        } else {
            MAX_HISTORY as nat
        }),
        after_update(v, e).history.last() == e,
        v.history.len() == MAX_HISTORY ==> after_update(v, e).history == v.history.drop_first().push(
            e,
        ),
{
}

} // verus!
