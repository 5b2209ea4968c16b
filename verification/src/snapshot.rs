//! The snapshot document: what is shown of each entry, and its JSON form.

use vstd::prelude::*;
use vstd::string::*;
use bytes::Bytes;
use crate::entry::{gold_views, usd_views, GoldEntry, GoldEntryView, UsdIdrEntry, UsdIdrEntryView};
use crate::history::RollingHistory;
use crate::json::{bytes_of, json_int, json_string, JsonWriter};
use crate::utils::{
    calc_profit, clock_field, diff_display, format_diff_display, format_rupiah, format_waktu_only,
    rupiah, shows_profit, ProfitFigures,
};

verus! {

/// What the snapshot shows of one price update.
pub struct HistoryItemOwned {
    pub buying_rate: String,
    pub selling_rate: String,
    pub buying_rate_raw: i64,
    pub selling_rate_raw: i64,
    pub waktu_display: String,
    pub diff_display: String,
    pub transaction_display: String,
    pub created_at: String,
    pub jt10: String,
    pub jt20: String,
    pub jt30: String,
    pub jt40: String,
    pub jt50: String,
}

/// A shown price update as a plain value.
pub ghost struct HistoryItemView {
    pub buying_rate: Seq<char>,
    pub selling_rate: Seq<char>,
    pub buying_rate_raw: i64,
    pub selling_rate_raw: i64,
    pub waktu_display: Seq<char>,
    pub diff_display: Seq<char>,
    pub transaction_display: Seq<char>,
    pub created_at: Seq<char>,
    pub jt10: Seq<char>,
    pub jt20: Seq<char>,
    pub jt30: Seq<char>,
    pub jt40: Seq<char>,
    pub jt50: Seq<char>,
}

impl View for HistoryItemOwned {
    type V = HistoryItemView;

    open spec fn view(&self) -> HistoryItemView {
        HistoryItemView {
            buying_rate: self.buying_rate@,
            selling_rate: self.selling_rate@,
            buying_rate_raw: self.buying_rate_raw,
            selling_rate_raw: self.selling_rate_raw,
            waktu_display: self.waktu_display@,
            diff_display: self.diff_display@,
            transaction_display: self.transaction_display@,
            created_at: self.created_at@,
            jt10: self.jt10@,
            jt20: self.jt20@,
            jt30: self.jt30@,
            jt40: self.jt40@,
            jt50: self.jt50@,
        }
    }
}

/// The line that sums a price update up.
pub open spec fn transaction_text(buy: Seq<char>, sell: Seq<char>, diff: Seq<char>) -> Seq<char> {
    "Beli: "@ + buy + "<br>Jual: "@ + sell + "<br>"@ + diff
}

/// `item` is what the snapshot shows of the update `h`: the rates in rupiah
/// notation and as stored, the time of day and the change with their
/// markers, the summing-up line, and the profit `estimate` gives for each
/// of the five capital tiers.
pub open spec fn is_item_of<F: Fn(i64, i64, i64, i64) -> ProfitFigures>(
    estimate: &F,
    h: GoldEntryView,
    item: HistoryItemView,
) -> bool {
    &&& item.buying_rate == rupiah(h.buying_rate as int)
    &&& item.selling_rate == rupiah(h.selling_rate as int)
    &&& item.buying_rate_raw == h.buying_rate
    &&& item.selling_rate_raw == h.selling_rate
    &&& item.waktu_display == clock_field(h.created_at) + h.status
    &&& item.diff_display == diff_display(h.diff as int, h.status)
    &&& item.transaction_display == transaction_text(
        item.buying_rate,
        item.selling_rate,
        item.diff_display,
    )
    &&& item.created_at == h.created_at
    &&& shows_profit(estimate, h.buying_rate, h.selling_rate, 10_000_000, 9_669_000, item.jt10)
    &&& shows_profit(estimate, h.buying_rate, h.selling_rate, 20_000_000, 19_330_000, item.jt20)
    &&& shows_profit(estimate, h.buying_rate, h.selling_rate, 30_000_000, 28_995_000, item.jt30)
    &&& shows_profit(estimate, h.buying_rate, h.selling_rate, 40_000_000, 38_660_000, item.jt40)
    &&& shows_profit(estimate, h.buying_rate, h.selling_rate, 50_000_000, 48_325_000, item.jt50)
}

/// `items` are what the snapshot shows of the updates `history`, one for one.
pub open spec fn are_items_of<F: Fn(i64, i64, i64, i64) -> ProfitFigures>(
    estimate: &F,
    history: Seq<GoldEntryView>,
    items: Seq<HistoryItemView>,
) -> bool {
    &&& items.len() == history.len()
    &&& forall|i: int| 0 <= i < history.len() ==> is_item_of(estimate, history[i], #[trigger] items[i])
}

/// What the snapshot shows of one price update.
pub fn build_item<F: Fn(i64, i64, i64, i64) -> ProfitFigures>(estimate: &F, h: &GoldEntry) -> (item:
    HistoryItemOwned)
    requires
        forall|a: i64, b: i64, c: i64, d: i64| estimate.requires((a, b, c, d)),
    ensures
        is_item_of(estimate, h@, item@),
{
    let buy_fmt = format_rupiah(h.buying_rate);
    let sell_fmt = format_rupiah(h.selling_rate);
    let diff_display = format_diff_display(h.diff, h.status.as_str());
    let waktu_display = format_waktu_only(h.created_at.as_str(), h.status.as_str());
    let mut transaction_display = String::from_str("Beli: ");
    transaction_display.append(buy_fmt.as_str());
    transaction_display.append("<br>Jual: ");
    transaction_display.append(sell_fmt.as_str());
    transaction_display.append("<br>");
    transaction_display.append(diff_display.as_str());
    HistoryItemOwned {
        buying_rate: buy_fmt,
        selling_rate: sell_fmt,
        buying_rate_raw: h.buying_rate,
        selling_rate_raw: h.selling_rate,
        waktu_display,
        diff_display,
        transaction_display,
        created_at: h.created_at.clone(),
        jt10: calc_profit(h.buying_rate, h.selling_rate, 10_000_000, 9_669_000, estimate),
        jt20: calc_profit(h.buying_rate, h.selling_rate, 20_000_000, 19_330_000, estimate),
        jt30: calc_profit(h.buying_rate, h.selling_rate, 30_000_000, 28_995_000, estimate),
        jt40: calc_profit(h.buying_rate, h.selling_rate, 40_000_000, 38_660_000, estimate),
        jt50: calc_profit(h.buying_rate, h.selling_rate, 50_000_000, 48_325_000, estimate),
    }
}

/// The UTF-8 bytes of a text.
pub open spec fn lit(s: &str) -> Seq<u8> {
    s.spec_bytes()
}

/// A member of a JSON object whose value is a string, with what stands
/// before its value: a brace or comma, the quoted name and a colon.
pub open spec fn text_member(opening: &str, value: Seq<char>) -> Seq<u8> {
    lit(opening) + json_string(value)
}

/// The same for a member whose value is an integer.
pub open spec fn int_member(opening: &str, value: int) -> Seq<u8> {
    lit(opening) + json_int(value)
}

/// One shown price update as a JSON object.
pub open spec fn item_json(item: HistoryItemView) -> Seq<u8> {
    text_member("{\"buying_rate\":", item.buying_rate)
        + text_member(",\"selling_rate\":", item.selling_rate)
        + int_member(",\"buying_rate_raw\":", item.buying_rate_raw as int)
        + int_member(",\"selling_rate_raw\":", item.selling_rate_raw as int)
        + text_member(",\"waktu_display\":", item.waktu_display)
        + text_member(",\"diff_display\":", item.diff_display)
        + text_member(",\"transaction_display\":", item.transaction_display)
        + text_member(",\"created_at\":", item.created_at)
        + text_member(",\"jt10\":", item.jt10)
        + text_member(",\"jt20\":", item.jt20)
        + text_member(",\"jt30\":", item.jt30)
        + text_member(",\"jt40\":", item.jt40)
        + text_member(",\"jt50\":", item.jt50)
        + lit("}")
}

/// One exchange-rate reading as a JSON object.
pub open spec fn usd_json(e: UsdIdrEntryView) -> Seq<u8> {
    text_member("{\"price\":", e.price) + text_member(",\"time\":", e.time) + lit("}")
}

/// The parts in order, with a comma between each two.
pub open spec fn joined(parts: Seq<Seq<u8>>) -> Seq<u8>
    decreases parts.len(),
{
    if parts.len() == 0 {
        Seq::empty()
    } else if parts.len() == 1 {
        parts[0]
    } else {
        joined(parts.drop_last()) + lit(",") + parts.last()
    }
}

/// The JSON objects of a run of shown price updates.
pub open spec fn items_json(items: Seq<HistoryItemView>) -> Seq<Seq<u8>> {
    items.map_values(|i: HistoryItemView| item_json(i))
}

/// The JSON objects of a run of exchange-rate readings.
pub open spec fn readings_json(usd: Seq<UsdIdrEntryView>) -> Seq<Seq<u8>> {
    usd.map_values(|e: UsdIdrEntryView| usd_json(e))
}

/// The snapshot document: the shown price updates, the exchange-rate
/// readings, both oldest first, and the monthly limit.
pub open spec fn state_json(
    items: Seq<HistoryItemView>,
    usd: Seq<UsdIdrEntryView>,
    limit: int,
) -> Seq<u8> {
    lit("{\"history\":[") + joined(items_json(items)) + lit("],\"usd_idr_history\":[") + joined(
        readings_json(usd),
    ) + int_member("],\"limit_bulan\":", limit) + lit("}")
}

/// `doc` is a snapshot document of the given state, with the profits that
/// `estimate` gives.
pub open spec fn is_snapshot_of<F: Fn(i64, i64, i64, i64) -> ProfitFigures>(
    estimate: &F,
    history: Seq<GoldEntryView>,
    usd: Seq<UsdIdrEntryView>,
    limit: int,
    doc: Seq<u8>,
) -> bool {
    exists|items: Seq<HistoryItemView>| #[trigger]
        are_items_of(estimate, history, items) && doc == state_json(items, usd, limit)
}

proof fn lemma_concat_assoc(a: Seq<u8>, b: Seq<u8>, c: Seq<u8>)
    ensures
        (a + b) + c == a + (b + c),
{
    assert((a + b) + c =~= a + (b + c));
}

proof fn lemma_concat_empty(a: Seq<u8>)
    ensures
        a + Seq::<u8>::empty() == a,
{
    assert(a + Seq::<u8>::empty() =~= a);
}

/// Writes the first member of an object.
fn open_text(w: &mut JsonWriter, opening: &str, value: &str)
    ensures
        final(w)@ == old(w)@ + text_member(opening, value@),
{
    w.write_raw(opening.as_bytes());
    w.write_str_value(value);
    proof {
        lemma_concat_assoc(old(w)@, lit(opening), json_string(value@));
    }
}

/// Writes a further member, after `done`, of an object begun at `start`.
fn put_text(
    w: &mut JsonWriter,
    opening: &str,
    value: &str,
    Ghost(start): Ghost<Seq<u8>>,
    Ghost(done): Ghost<Seq<u8>>,
)
    requires
        old(w)@ == start + done,
    ensures
        final(w)@ == start + (done + text_member(opening, value@)),
{
    open_text(w, opening, value);
    proof {
        lemma_concat_assoc(start, done, text_member(opening, value@));
    }
}

/// Writes a further member with an integer value.
fn put_int(
    w: &mut JsonWriter,
    opening: &str,
    value: i64,
    Ghost(start): Ghost<Seq<u8>>,
    Ghost(done): Ghost<Seq<u8>>,
)
    requires
        old(w)@ == start + done,
    ensures
        final(w)@ == start + (done + int_member(opening, value as int)),
{
    w.write_raw(opening.as_bytes());
    w.write_i64(value);
    proof {
        lemma_concat_assoc(old(w)@, lit(opening), json_int(value as int));
        lemma_concat_assoc(start, done, int_member(opening, value as int));
    }
}

/// Writes what follows the last member.
fn put_raw(w: &mut JsonWriter, closing: &str, Ghost(start): Ghost<Seq<u8>>, Ghost(done): Ghost<Seq<u8>>)
    requires
        old(w)@ == start + done,
    ensures
        final(w)@ == start + (done + lit(closing)),
{
    w.write_raw(closing.as_bytes());
    proof {
        lemma_concat_assoc(start, done, lit(closing));
    }
}

fn write_item(w: &mut JsonWriter, item: &HistoryItemOwned)
    ensures
        final(w)@ == old(w)@ + item_json(item@),
{
    let ghost start = w@;
    let ghost v = item@;
    open_text(w, "{\"buying_rate\":", item.buying_rate.as_str());
    let ghost d1 = text_member("{\"buying_rate\":", v.buying_rate);
    put_text(w, ",\"selling_rate\":", item.selling_rate.as_str(), Ghost(start), Ghost(d1));
    let ghost d2 = d1 + text_member(",\"selling_rate\":", v.selling_rate);
    put_int(w, ",\"buying_rate_raw\":", item.buying_rate_raw, Ghost(start), Ghost(d2));
    let ghost d3 = d2 + int_member(",\"buying_rate_raw\":", v.buying_rate_raw as int);
    put_int(w, ",\"selling_rate_raw\":", item.selling_rate_raw, Ghost(start), Ghost(d3));
    let ghost d4 = d3 + int_member(",\"selling_rate_raw\":", v.selling_rate_raw as int);
    put_text(w, ",\"waktu_display\":", item.waktu_display.as_str(), Ghost(start), Ghost(d4));
    let ghost d5 = d4 + text_member(",\"waktu_display\":", v.waktu_display);
    put_text(w, ",\"diff_display\":", item.diff_display.as_str(), Ghost(start), Ghost(d5));
    let ghost d6 = d5 + text_member(",\"diff_display\":", v.diff_display);
    put_text(w, ",\"transaction_display\":", item.transaction_display.as_str(), Ghost(start), Ghost(d6));
    let ghost d7 = d6 + text_member(",\"transaction_display\":", v.transaction_display);
    put_text(w, ",\"created_at\":", item.created_at.as_str(), Ghost(start), Ghost(d7));
    let ghost d8 = d7 + text_member(",\"created_at\":", v.created_at);
    put_text(w, ",\"jt10\":", item.jt10.as_str(), Ghost(start), Ghost(d8));
    let ghost d9 = d8 + text_member(",\"jt10\":", v.jt10);
    put_text(w, ",\"jt20\":", item.jt20.as_str(), Ghost(start), Ghost(d9));
    let ghost d10 = d9 + text_member(",\"jt20\":", v.jt20);
    put_text(w, ",\"jt30\":", item.jt30.as_str(), Ghost(start), Ghost(d10));
    let ghost d11 = d10 + text_member(",\"jt30\":", v.jt30);
    put_text(w, ",\"jt40\":", item.jt40.as_str(), Ghost(start), Ghost(d11));
    let ghost d12 = d11 + text_member(",\"jt40\":", v.jt40);
    put_text(w, ",\"jt50\":", item.jt50.as_str(), Ghost(start), Ghost(d12));
    let ghost d13 = d12 + text_member(",\"jt50\":", v.jt50);
    put_raw(w, "}", Ghost(start), Ghost(d13));
}

fn write_usd(w: &mut JsonWriter, entry: &UsdIdrEntry)
    ensures
        final(w)@ == old(w)@ + usd_json(entry@),
{
    let ghost start = w@;
    open_text(w, "{\"price\":", entry.price.as_str());
    let ghost d1 = text_member("{\"price\":", entry@.price);
    put_text(w, ",\"time\":", entry.time.as_str(), Ghost(start), Ghost(d1));
    let ghost d2 = d1 + text_member(",\"time\":", entry@.time);
    put_raw(w, "}", Ghost(start), Ghost(d2));
}

/// The views of a run of shown price updates.
pub open spec fn item_views(s: Seq<HistoryItemOwned>) -> Seq<HistoryItemView> {
    s.map_values(|i: HistoryItemOwned| i@)
}

proof fn lemma_joined_step(parts: Seq<Seq<u8>>, i: int)
    requires
        0 <= i < parts.len(),
    ensures
        joined(parts.take(i + 1)) == (if i == 0 {
            parts[0]
        } else {
            joined(parts.take(i)) + lit(",") + parts[i]
        }),
{
    assert(parts.take(i + 1).drop_last() =~= parts.take(i));
}

/// Writes the objects of the shown price updates, with commas between.
fn write_items(w: &mut JsonWriter, items: &Vec<HistoryItemOwned>)
    ensures
        final(w)@ == old(w)@ + joined(items_json(item_views(items@))),
{
    let ghost start = w@;
    let ghost parts = items_json(item_views(items@));
    proof {
        lemma_concat_empty(start);
    }
    let mut k: usize = 0;
    while k < items.len()
        invariant
            k <= items@.len(),
            parts == items_json(item_views(items@)),
            w@ == start + joined(parts.take(k as int)),
        decreases items@.len() - k,
    {
        let ghost before = joined(parts.take(k as int));
        proof {
            lemma_joined_step(parts, k as int);
            assert(parts[k as int] == item_json(items@[k as int]@));
        }
        if k > 0 {
            put_raw(w, ",", Ghost(start), Ghost(before));
            write_item(w, &items[k]);
            proof {
                lemma_concat_assoc(start, before + lit(","), parts[k as int]);
            }
        } else {
            write_item(w, &items[k]);
            proof {
                lemma_concat_empty(start);
            }
        }
        k = k + 1;
    }
    proof {
        assert(parts.take(k as int) =~= parts);
    }
}

/// Writes the objects of the exchange-rate readings, with commas between.
fn write_readings(w: &mut JsonWriter, usd: &RollingHistory<UsdIdrEntry>)
    ensures
        final(w)@ == old(w)@ + joined(readings_json(usd_views(usd@))),
{
    let ghost start = w@;
    let ghost parts = readings_json(usd_views(usd@));
    proof {
        lemma_concat_empty(start);
    }
    let mut k: usize = 0;
    while k < usd.len()
        invariant
            k <= usd@.len(),
            parts == readings_json(usd_views(usd@)),
            w@ == start + joined(parts.take(k as int)),
        decreases usd@.len() - k,
    {
        let ghost before = joined(parts.take(k as int));
        proof {
            lemma_joined_step(parts, k as int);
            assert(parts[k as int] == usd_json(usd@[k as int]@));
        }
        if k > 0 {
            put_raw(w, ",", Ghost(start), Ghost(before));
            write_usd(w, usd.get(k));
            proof {
                lemma_concat_assoc(start, before + lit(","), parts[k as int]);
            }
        } else {
            write_usd(w, usd.get(k));
            proof {
                lemma_concat_empty(start);
            }
        }
        k = k + 1;
    }
    proof {
        assert(parts.take(k as int) =~= parts);
    }
}

/// What the snapshot shows of each update of a history.
fn build_items<F: Fn(i64, i64, i64, i64) -> ProfitFigures>(
    estimate: &F,
    history: &RollingHistory<GoldEntry>,
) -> (items: Vec<HistoryItemOwned>)
    requires
        forall|a: i64, b: i64, c: i64, d: i64| estimate.requires((a, b, c, d)),
    ensures
        are_items_of(estimate, gold_views(history@), item_views(items@)),
{
    let mut items: Vec<HistoryItemOwned> = Vec::new();
    let mut i: usize = 0;
    while i < history.len()
        invariant
            i <= history@.len(),
            items@.len() == i,
            forall|a: i64, b: i64, c: i64, d: i64| estimate.requires((a, b, c, d)),
            forall|j: int| 0 <= j < i ==> is_item_of(estimate, history@[j]@, #[trigger] items@[j]@),
        decreases history@.len() - i,
    {
        let item = build_item(estimate, history.get(i));
        items.push(item);
        i = i + 1;
    }
    proof {
        assert forall|j: int| 0 <= j < history@.len() implies is_item_of(
            estimate,
            gold_views(history@)[j],
            #[trigger] item_views(items@)[j],
        ) by {
            assert(is_item_of(estimate, history@[j]@, items@[j]@));
        }
    }
    items
}

/// Room for a document with the given numbers of entries, where that many
/// bytes can be counted; room for an empty document otherwise.
fn estimated_size(updates: usize, readings: usize) -> (room: usize)
    ensures
        room == (if document_room(updates as nat, readings as nat) <= usize::MAX {
            document_room(updates as nat, readings as nat)
        } else {
            document_room(0, 0)
        }),
{
    let for_updates = match updates.checked_mul(500) {
        Some(n) => n,
        None => {
            return 64;
        },
    };
    let for_readings = match readings.checked_mul(100) {
        Some(n) => n,
        None => {
            return 64;
        },
    };
    match for_updates.checked_add(for_readings) {
        Some(n) => match n.checked_add(64) {
            Some(room) => room,
            None => 64,
        },
        None => 64,
    }
}

/// The bytes set aside for a document before it is written: five hundred
/// for each price update, a hundred for each reading, and sixty-four for
/// what stands around them.
pub open spec fn document_room(updates: nat, readings: nat) -> nat {
    updates * 500 + readings * 100 + 64
}

/// The snapshot document of a history, a run of readings and a limit.
pub fn build_full_state_fast<F: Fn(i64, i64, i64, i64) -> ProfitFigures>(
    estimate: &F,
    history: &RollingHistory<GoldEntry>,
    usd: &RollingHistory<UsdIdrEntry>,
    limit: i64,
) -> (doc: Bytes)
    requires
        forall|a: i64, b: i64, c: i64, d: i64| estimate.requires((a, b, c, d)),
    ensures
        is_snapshot_of(estimate, gold_views(history@), usd_views(usd@), limit as int, bytes_of(doc)),
{
    let items = build_items(estimate, history);
    let ghost shown = item_views(items@);
    let ghost none = Seq::<u8>::empty();
    let mut w = JsonWriter::with_capacity(estimated_size(items.len(), usd.len()));
    w.write_raw("{\"history\":[".as_bytes());
    let ghost d1 = lit("{\"history\":[");
    write_items(&mut w, &items);
    let ghost d2 = d1 + joined(items_json(shown));
    proof {
        assert(w@ =~= none + d2);
    }
    put_raw(&mut w, "],\"usd_idr_history\":[", Ghost(none), Ghost(d2));
    let ghost d3 = d2 + lit("],\"usd_idr_history\":[");
    write_readings(&mut w, usd);
    let ghost d4 = d3 + joined(readings_json(usd_views(usd@)));
    proof {
        assert(w@ =~= none + d4);
    }
    put_int(&mut w, "],\"limit_bulan\":", limit, Ghost(none), Ghost(d4));
    let ghost d5 = d4 + int_member("],\"limit_bulan\":", limit as int);
    put_raw(&mut w, "}", Ghost(none), Ghost(d5));
    proof {
        assert(w@ =~= state_json(shown, usd_views(usd@), limit as int));
    }
    w.into_bytes()
}

} // verus!
