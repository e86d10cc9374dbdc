//! The queue listing of a session: recently played tracks, the current
//! track, then the queued ones.

use vstd::prelude::*;
use crate::models::{QueueItem, QueueResponse};
use crate::store::TrackRecord;
use crate::strings::{chars_of, string_from_chars};
use crate::tags::opt_string_view;

verus! {

/// Most recently played tracks shown before the queue.
pub const PLAYED_LIMIT: usize = 10;

/// A queue item as plain values.
pub enum QueueItemView {
    Track {
        id: i64,
        file_name: Seq<char>,
        title: Option<Seq<char>>,
        duration_ms: Option<u64>,
        sample_rate: Option<u32>,
        album: Option<Seq<char>>,
        artist: Option<Seq<char>>,
        format: Seq<char>,
        now_playing: bool,
        played: bool,
    },
    Missing { id: Option<i64> },
}

impl View for QueueItem {
    type V = QueueItemView;

    open spec fn view(&self) -> QueueItemView {
        match self {
            QueueItem::Track {
                id,
                file_name,
                title,
                duration_ms,
                sample_rate,
                album,
                artist,
                format,
                now_playing,
                played,
            } => QueueItemView::Track {
                id: *id,
                file_name: file_name@,
                title: opt_string_view(*title),
                duration_ms: *duration_ms,
                sample_rate: *sample_rate,
                album: opt_string_view(*album),
                artist: opt_string_view(*artist),
                format: format@,
                now_playing: *now_playing,
                played: *played,
            },
            QueueItem::Missing { id } => QueueItemView::Missing { id: *id },
        }
    }
}

/// The views of a sequence of queue items.
pub open spec fn item_views(items: Seq<QueueItem>) -> Seq<QueueItemView> {
    items.map_values(|it: QueueItem| it@)
}

/// The record of a track in the catalog handed to the listing (the first
/// entry with its id).
pub open spec fn catalog_record(catalog: Seq<(i64, TrackRecord)>, id: i64) -> Option<TrackRecord>
    decreases catalog.len(),
{
    if catalog.len() == 0 {
        None
    } else if catalog[0].0 == id {
        Some(catalog[0].1)
    } else {
        catalog_record(catalog.drop_first(), id)
    }
}

/// The listed item of a track: its record's details (format `unknown`
/// when it has none), or a missing entry when the catalog lacks it.
pub open spec fn item_spec(catalog: Seq<(i64, TrackRecord)>, id: i64, now_playing: bool, played: bool) -> QueueItemView {
    match catalog_record(catalog, id) {
        None => QueueItemView::Missing { id: Some(id) },
        Some(r) => QueueItemView::Track {
            id,
            file_name: r.file_name@,
            title: opt_string_view(r.title),
            duration_ms: r.duration_ms,
            sample_rate: r.sample_rate,
            album: opt_string_view(r.album),
            artist: opt_string_view(r.artist),
            format: match r.format {
                Some(f) => f@,
                None => "unknown"@,
            },
            now_playing,
            played,
        },
    }
}

/// Queued tracks as items, in order.
pub open spec fn queued_items(catalog: Seq<(i64, TrackRecord)>, queue: Seq<i64>) -> Seq<QueueItemView> {
    queue.map_values(|id: i64| item_spec(catalog, id, false, false))
}

/// Position of the first occurrence of `x`.
pub open spec fn first_index(s: Seq<i64>, x: i64) -> Option<int>
    decreases s.len(),
{
    if s.len() == 0 {
        None
    } else if s[0] == x {
        Some(0)
    } else {
        match first_index(s.drop_first(), x) {
            Some(i) => Some(i + 1),
            None => None,
        }
    }
}

/// An item marked as the one playing (a missing entry stays as it is).
pub open spec fn mark_playing(item: QueueItemView) -> QueueItemView {
    match item {
        QueueItemView::Track {
            id,
            file_name,
            title,
            duration_ms,
            sample_rate,
            album,
            artist,
            format,
            now_playing: _,
            played,
        } => QueueItemView::Track {
            id,
            file_name,
            title,
            duration_ms,
            sample_rate,
            album,
            artist,
            format,
            now_playing: true,
            played,
        },
        QueueItemView::Missing { id } => QueueItemView::Missing { id },
    }
}

/// The queue with the current track first: moved to the front and marked
/// when it is queued, otherwise added in front as playing.
pub open spec fn current_first(catalog: Seq<(i64, TrackRecord)>, queue: Seq<i64>, now_playing: Option<i64>) -> Seq<QueueItemView> {
    let items = queued_items(catalog, queue);
    match now_playing {
        None => items,
        Some(c) => match first_index(queue, c) {
            Some(k) => seq![mark_playing(items[k])] + items.remove(k),
            None => seq![item_spec(catalog, c, true, false)] + items,
        },
    }
}

/// Recently played tracks, most recent first: walking the history from its
/// end, skipping the current track, at most `limit` of them.
pub open spec fn recent_rev(history: Seq<i64>, now_playing: Option<i64>, limit: nat) -> Seq<i64>
    decreases history.len(),
{
    if history.len() == 0 || limit == 0 {
        Seq::empty()
    } else if now_playing == Some(history.last()) {
        recent_rev(history.drop_last(), now_playing, limit)
    } else {
        seq![history.last()] + recent_rev(history.drop_last(), now_playing, (limit - 1) as nat)
    }
}

/// Id an item stands for.
pub open spec fn item_key(item: QueueItemView) -> Option<i64> {
    match item {
        QueueItemView::Track { id, .. } => Some(id),
        QueueItemView::Missing { id } => id,
    }
}

/// Whether some item stands for this track.
pub open spec fn listed(items: Seq<QueueItemView>, id: i64) -> bool {
    exists|j: int| 0 <= j < items.len() && item_key(#[trigger] items[j]) == Some(id)
}

/// Played tracks (oldest first) not listed yet, as played items.
pub open spec fn played_items(catalog: Seq<(i64, TrackRecord)>, played: Seq<i64>, items: Seq<QueueItemView>) -> Seq<QueueItemView>
    decreases played.len(),
{
    if played.len() == 0 {
        Seq::empty()
    } else {
        played_items(catalog, played.drop_last(), items) + if listed(items, played.last()) {
            Seq::empty()
        } else {
            seq![item_spec(catalog, played.last(), false, true)]
        }
    }
}

/// The listing of a session's queue: up to ten recently played tracks not
/// otherwise listed (oldest first), then the current track, then the queue.
pub open spec fn queue_listing(
    catalog: Seq<(i64, TrackRecord)>,
    queue: Seq<i64>,
    now_playing: Option<i64>,
    history: Seq<i64>,
) -> Seq<QueueItemView> {
    let items = current_first(catalog, queue, now_playing);
    let played = recent_rev(history, now_playing, PLAYED_LIMIT as nat).reverse();
    played_items(catalog, played, items) + items
}

fn find_record<'a>(catalog: &'a Vec<(i64, TrackRecord)>, id: i64) -> (r: Option<&'a TrackRecord>)
    ensures
        match r {
            Some(rec) => catalog_record(catalog@, id) == Some(*rec),
            None => catalog_record(catalog@, id) is None,
        },
{
    let mut i: usize = 0;
    assert(catalog@.subrange(0, catalog@.len() as int) =~= catalog@);
    while i < catalog.len()
        invariant
            i <= catalog@.len(),
            catalog_record(catalog@, id) == catalog_record(catalog@.subrange(i as int, catalog@.len() as int), id),
        decreases catalog@.len() - i,
    {
        let ghost rest = catalog@.subrange(i as int, catalog@.len() as int);
        assert(rest[0] == catalog@[i as int]);
        assert(rest.drop_first() =~= catalog@.subrange(i + 1, catalog@.len() as int));
        if catalog[i].0 == id {
            return Some(&catalog[i].1);
        }
        i = i + 1;
    }
    None
}

fn copy_opt(v: &Option<String>) -> (r: Option<String>)
    ensures
        r == *v,
{
    match v {
        Some(s) => Some(s.clone()),
        None => None,
    }
}

/// The listed item of a track, from the catalog.
pub fn build_queue_item(catalog: &Vec<(i64, TrackRecord)>, track_id: i64, now_playing: bool, played: bool) -> (r:
    QueueItem)
    ensures
        r@ == item_spec(catalog@, track_id, now_playing, played),
{
    match find_record(catalog, track_id) {
        None => QueueItem::Missing { id: Some(track_id) },
        Some(record) => {
            let format = match &record.format {
                Some(f) => f.clone(),
                None => string_from_chars(chars_of("unknown").as_slice()),
            };
            QueueItem::Track {
                id: track_id,
                file_name: record.file_name.clone(),
                title: copy_opt(&record.title),
                duration_ms: record.duration_ms,
                sample_rate: record.sample_rate,
                album: copy_opt(&record.album),
                artist: copy_opt(&record.artist),
                format,
                now_playing,
                played,
            }
        },
    }
}

fn key_of(item: &QueueItem) -> (r: Option<i64>)
    ensures
        r == item_key(item@),
{
    match item {
        QueueItem::Track { id, .. } => Some(*id),
        QueueItem::Missing { id } => *id,
    }
}

fn is_listed(items: &Vec<QueueItem>, id: i64) -> (r: bool)
    ensures
        r == listed(item_views(items@), id),
{
    let mut j: usize = 0;
    while j < items.len()
        invariant
            j <= items@.len(),
            forall|k: int| 0 <= k < j ==> item_key(#[trigger] item_views(items@)[k]) != Some(id),
        decreases items@.len() - j,
    {
        if key_of(&items[j]) == Some(id) {
            assert(item_key(item_views(items@)[j as int]) == Some(id));
            return true;
        }
        j = j + 1;
    }
    false
}

proof fn lemma_first_index(s: Seq<i64>, x: i64)
    ensures
        first_index(s, x) matches Some(i) ==> 0 <= i < s.len() && s[i] == x && forall|j: int|
            0 <= j < i ==> #[trigger] s[j] != x,
        first_index(s, x) is None ==> forall|j: int| 0 <= j < s.len() ==> #[trigger] s[j] != x,
    decreases s.len(),
{
    if s.len() > 0 && s[0] != x {
        let t = s.drop_first();
        lemma_first_index(t, x);
        assert forall|j: int| 0 < j < s.len() implies #[trigger] s[j] == t[j - 1] by {}
    }
}

proof fn lemma_first_index_at(s: Seq<i64>, x: i64, i: int)
    requires
        0 <= i < s.len(),
        s[i] == x,
        forall|j: int| 0 <= j < i ==> #[trigger] s[j] != x,
    ensures
        first_index(s, x) == Some(i),
{
    lemma_first_index(s, x);
    match first_index(s, x) {
        Some(m) => {
            if m < i {
                assert(s[m] != x);
            }
            if m > i {
                assert(s[i] != x);
            }
        },
        None => {
            assert(s[i] != x);
        },
    }
}

/// Lists a session's queue: up to ten recently played tracks not otherwise
/// listed (oldest first), then the current track, then the queued tracks;
/// tracks missing from the catalog are listed as missing.
pub fn build_queue_response(
    catalog: &Vec<(i64, TrackRecord)>,
    queue: &Vec<i64>,
    now_playing: Option<i64>,
    history: &Vec<i64>,
) -> (r: QueueResponse)
    ensures
        item_views(r.items@) == queue_listing(catalog@, queue@, now_playing, history@),
{
    // Queued items, in order.
    let mut items: Vec<QueueItem> = Vec::new();
    let mut i: usize = 0;
    while i < queue.len()
        invariant
            i <= queue@.len(),
            item_views(items@) == queued_items(catalog@, queue@.take(i as int)),
        decreases queue@.len() - i,
    {
        let it = build_queue_item(catalog, queue[i], false, false);
        let ghost before = items@;
        let ghost itv = it@;
        items.push(it);
        proof {
            assert(item_views(items@) =~= item_views(before).push(itv));
            assert(queue@.take(i + 1) =~= queue@.take(i as int).push(queue@[i as int]));
            assert(queued_items(catalog@, queue@.take(i + 1)) =~= queued_items(catalog@, queue@.take(i as int)).push(
                item_spec(catalog@, queue@[i as int], false, false),
            ));
            assert(item_views(items@) =~= queued_items(catalog@, queue@.take(i + 1)));
        }
        i = i + 1;
    }
    proof {
        assert(queue@.take(queue@.len() as int) =~= queue@);
    }
    let ghost base = item_views(items@);
    // The current track first.
    if let Some(c) = now_playing {
        let mut k: usize = 0;
        while k < queue.len() && queue[k] != c
            invariant
                k <= queue@.len(),
                forall|j: int| 0 <= j < k ==> #[trigger] queue@[j] != c,
            decreases queue@.len() - k,
        {
            k = k + 1;
        }
        let found = k < queue.len();
        proof {
            lemma_first_index(queue@, c);
        }
        if found {
            proof {
                lemma_first_index_at(queue@, c, k as int);
            }
            let current = items.remove(k);
            let marked = match current {
                QueueItem::Track {
                    id,
                    file_name,
                    title,
                    duration_ms,
                    sample_rate,
                    album,
                    artist,
                    format,
                    now_playing: _,
                    played,
                } => QueueItem::Track {
                    id,
                    file_name,
                    title,
                    duration_ms,
                    sample_rate,
                    album,
                    artist,
                    format,
                    now_playing: true,
                    played,
                },
                QueueItem::Missing { id } => QueueItem::Missing { id },
            };
            items.insert(0, marked);
            proof {
                assert(item_views(items@) =~= seq![mark_playing(base[k as int])] + base.remove(k as int));
            }
        } else {
            proof {
                if let Some(m) = first_index(queue@, c) {
                    assert(queue@[m] == c);
                }
            }
            let it = build_queue_item(catalog, c, true, false);
            items.insert(0, it);
            proof {
                assert(item_views(items@) =~= seq![item_spec(catalog@, c, true, false)] + base);
            }
        }
    }
    let ghost listed_items = item_views(items@);
    assert(listed_items == current_first(catalog@, queue@, now_playing));
    // Recently played, most recent first.
    let mut recent: Vec<i64> = Vec::new();
    let mut h: usize = history.len();
    assert(history@.take(h as int) =~= history@);
    while h > 0 && recent.len() < PLAYED_LIMIT
        invariant
            h <= history@.len(),
            recent@.len() <= PLAYED_LIMIT,
            recent@ + recent_rev(history@.take(h as int), now_playing, (PLAYED_LIMIT - recent@.len()) as nat)
                == recent_rev(history@, now_playing, PLAYED_LIMIT as nat),
        decreases h,
    {
        let x = history[h - 1];
        let ghost t = history@.take(h as int);
        let ghost before = recent@;
        proof {
            assert(t.drop_last() =~= history@.take(h - 1));
            assert(t.last() == x);
        }
        if now_playing == Some(x) {
        } else {
            recent.push(x);
            proof {
                assert(recent@ =~= before + seq![x]);
                assert(before + (seq![x] + recent_rev(history@.take(h - 1), now_playing, (PLAYED_LIMIT - recent@.len()) as nat))
                    =~= recent@ + recent_rev(history@.take(h - 1), now_playing, (PLAYED_LIMIT - recent@.len()) as nat));
            }
        }
        h = h - 1;
    }
    proof {
        if h == 0 {
            assert(history@.take(0) =~= Seq::<i64>::empty());
        }
        assert(recent@ == recent_rev(history@, now_playing, PLAYED_LIMIT as nat));
    }
    // Played items, oldest first, unless listed already.
    let mut played: Vec<QueueItem> = Vec::new();
    let ghost order = recent@.reverse();
    let n = recent.len();
    let mut p: usize = 0;
    while p < n
        invariant
            n == recent@.len(),
            p <= n,
            order == recent@.reverse(),
            item_views(items@) == listed_items,
            item_views(played@) == played_items(catalog@, order.take(p as int), listed_items),
        decreases n - p,
    {
        let id = recent[n - 1 - p];
        let ghost t = order.take(p + 1);
        proof {
            assert(t.drop_last() =~= order.take(p as int));
            assert(t.last() == id);
        }
        if !is_listed(&items, id) {
            let it = build_queue_item(catalog, id, false, true);
            let ghost before = item_views(played@);
            played.push(it);
            proof {
                assert(item_views(played@) =~= before + seq![item_spec(catalog@, id, false, true)]);
            }
        } else {
            proof {
                assert(item_views(played@) =~= item_views(played@) + Seq::<QueueItemView>::empty());
            }
        }
        p = p + 1;
    }
    proof {
        assert(order.take(n as int) =~= order);
    }
    let ghost played_v = item_views(played@);
    let mut all = played;
    let mut rest = items;
    all.append(&mut rest);
    proof {
        assert(item_views(all@) =~= played_v + listed_items);
    }
    QueueResponse { items: all }
}

} // verus!
