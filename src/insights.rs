use vstd::prelude::*;
use vstd::multiset::Multiset;
use crate::queries::{capped, payment_sum, sum_payments};
use crate::store::TrackStore;
use crate::track::{TrackModel, RecordModel};

verus! {

broadcast use vstd::seq_lib::group_to_multiset_ensures;

/// Platform-wide revenue figures, computed on demand. Each ranking lists
/// the largest amounts first; ties may come in any order.
#[derive(Debug)]
pub struct RevenueInsights {
    pub total_platform_revenue: u64,
    /// `(track id, revenue)` of the ten best earning tracks.
    pub top_earning_tracks: Vec<(u64, u64)>,
    /// `(artist id, revenue)` of the ten best earning artists.
    pub top_earning_artists: Vec<(u64, u64)>,
    pub revenue_by_genre: Vec<(String, u64)>,
    /// `(time, revenue)`; only the current total is known.
    pub monthly_revenue_trend: Vec<(u64, u64)>,
}

/// Amounts never increase along `s`.
pub open spec fn ranked_desc<K>(s: Seq<(K, u64)>) -> bool {
    forall|i: int, j: int| 0 <= i < j < s.len() ==> (#[trigger] s[i]).1 >= (#[trigger] s[j]).1
}

/// `r` holds the entries of `s`, largest amounts first.
pub open spec fn is_ranking<K>(r: Seq<(K, u64)>, s: Seq<(K, u64)>) -> bool {
    ranked_desc(r) && r.to_multiset() == s.to_multiset()
}

/// `key` first appears in `s` at position `k`.
pub open spec fn first_at<K>(s: Seq<(K, u64)>, key: K, k: int) -> bool {
    &&& 0 <= k < s.len()
    &&& s[k].0 == key
    &&& forall|j: int| 0 <= j < k ==> (#[trigger] s[j]).0 != key
}

/// `s` with `amt` added, saturating, to the first entry for `key`, or with
/// `(key, amt)` appended when there is none.
pub open spec fn bumped<K>(s: Seq<(K, u64)>, key: K, amt: u64) -> Seq<(K, u64)> {
    if exists|k: int| first_at(s, key, k) {
        let k = choose|k: int| first_at(s, key, k);
        s.update(k, (key, capped(s[k].1 + amt, u64::MAX as int) as u64))
    } else {
        s.push((key, amt))
    }
}

/// `s` bumped by `amt` for each of `keys` in turn.
pub open spec fn bumped_all(s: Seq<(u64, u64)>, keys: Seq<u64>, amt: u64) -> Seq<(u64, u64)>
    decreases keys.len(),
{
    if keys.len() == 0 {
        s
    } else {
        bumped(bumped_all(s, keys.drop_last(), amt), keys.last(), amt)
    }
}

/// A track's revenue, capped at `u64::MAX`.
pub open spec fn track_revenue(t: TrackModel) -> u64 {
    capped(payment_sum(t.payments), u64::MAX as int) as u64
}

/// The sum of the tracks' capped revenues, capped again.
pub open spec fn revenue_total(ts: Seq<TrackModel>) -> u64
    decreases ts.len(),
{
    if ts.len() == 0 {
        0
    } else {
        capped(revenue_total(ts.drop_last()) + track_revenue(ts.last()), u64::MAX as int) as u64
    }
}

/// `(id, revenue)` of each track that earned anything, in store order.
pub open spec fn earning_tracks(ts: Seq<TrackModel>) -> Seq<(u64, u64)>
    decreases ts.len(),
{
    if ts.len() == 0 {
        Seq::empty()
    } else {
        let prev = earning_tracks(ts.drop_last());
        let t = ts.last();
        if track_revenue(t) > 0 {
            prev.push((t.id, track_revenue(t)))
        } else {
            prev
        }
    }
}

/// Revenue by artist: each track's revenue counts once for each time an
/// artist appears among its contributors; artists in order of first
/// appearance.
pub open spec fn artist_revenues(ts: Seq<TrackModel>) -> Seq<(u64, u64)>
    decreases ts.len(),
{
    if ts.len() == 0 {
        Seq::empty()
    } else {
        bumped_all(artist_revenues(ts.drop_last()), ts.last().contributors, track_revenue(ts.last()))
    }
}

/// Revenue by genre, genres in order of first appearance.
pub open spec fn genre_revenues(ts: Seq<TrackModel>) -> Seq<(Seq<char>, u64)>
    decreases ts.len(),
{
    if ts.len() == 0 {
        Seq::empty()
    } else {
        let prev = genre_revenues(ts.drop_last());
        match ts.last().genre {
            Some(g) => bumped(prev, g, track_revenue(ts.last())),
            None => prev,
        }
    }
}

/// Number of tracks by genre, genres in order of first appearance.
pub open spec fn genre_counts(ts: Seq<TrackModel>) -> Seq<(Seq<char>, u64)>
    decreases ts.len(),
{
    if ts.len() == 0 {
        Seq::empty()
    } else {
        let prev = genre_counts(ts.drop_last());
        match ts.last().genre {
            Some(g) => bumped(prev, g, 1),
            None => prev,
        }
    }
}

/// A track's activity score: plays plus comments, capped.
pub open spec fn track_activity(t: TrackModel) -> u64 {
    capped(t.play_count + t.comments.len(), u64::MAX as int) as u64
}

/// Activity score by contributor: each track's score counts once for each
/// time the contributor appears on it.
pub open spec fn user_activity(ts: Seq<TrackModel>) -> Seq<(u64, u64)>
    decreases ts.len(),
{
    if ts.len() == 0 {
        Seq::empty()
    } else {
        bumped_all(user_activity(ts.drop_last()), ts.last().contributors, track_activity(ts.last()))
    }
}

/// The ten most common genres and the ten most active contributors.
#[derive(Debug)]
pub struct PlatformRankings {
    /// `(genre, number of tracks)`.
    pub most_popular_genres: Vec<(String, u64)>,
    /// `(user id, activity score)`.
    pub most_active_users: Vec<(u64, u64)>,
}

pub open spec fn genre_view(s: Seq<(String, u64)>) -> Seq<(Seq<char>, u64)> {
    s.map_values(|p: (String, u64)| (p.0@, p.1))
}

/// Adds `amt` to each of `keys` in turn.
fn bump_ids(v: &mut Vec<(u64, u64)>, keys: &Vec<u64>, amt: u64)
    ensures
        final(v)@ == bumped_all(old(v)@, keys@, amt),
{
    let mut k: usize = 0;
    while k < keys.len()
        invariant
            k <= keys@.len(),
            v@ == bumped_all(old(v)@, keys@.subrange(0, k as int), amt),
        decreases keys@.len() - k,
    {
        assert(keys@.subrange(0, k as int + 1).drop_last() =~= keys@.subrange(0, k as int));
        bump_id(v, keys[k], amt);
        k = k + 1;
    }
    assert(keys@.subrange(0, keys@.len() as int) =~= keys@);
}

fn sat_sum(a: u64, b: u64) -> (r: u64)
    ensures
        r == capped(a + b, u64::MAX as int),
{
    a.saturating_add(b)
}

proof fn lemma_absent<K>(s: Seq<(K, u64)>, key: K, n: int)
    requires
        forall|k: int| !first_at(s, key, k),
        n <= s.len(),
    ensures
        forall|j: int| 0 <= j < n ==> (#[trigger] s[j]).0 != key,
    decreases n,
{
    if n > 0 {
        lemma_absent(s, key, n - 1);
        assert(!first_at(s, key, n - 1));
    }
}

proof fn lemma_first_unique<K>(s: Seq<(K, u64)>, key: K, k: int, m: int)
    requires
        first_at(s, key, k),
        first_at(s, key, m),
    ensures
        k == m,
{
    if k < m {
        assert(s[k].0 != key);
    } else if m < k {
        assert(s[m].0 != key);
    }
}

fn bump_id(v: &mut Vec<(u64, u64)>, key: u64, amt: u64)
    ensures
        final(v)@ == bumped(old(v)@, key, amt),
{
    let mut i: usize = 0;
    while i < v.len()
        invariant
            v@ == old(v)@,
            i <= v@.len(),
            forall|j: int| 0 <= j < i ==> (#[trigger] v@[j]).0 != key,
        decreases v@.len() - i,
    {
        if v[i].0 == key {
            proof {
                assert(first_at(v@, key, i as int));
                let k = choose|k: int| first_at(v@, key, k);
                lemma_first_unique(v@, key, i as int, k);
            }
            let n = sat_sum(v[i].1, amt);
            v.set(i, (key, n));
            return;
        }
        i = i + 1;
    }
    proof {
        assert forall|k: int| !first_at(v@, key, k) by {
            if 0 <= k < v@.len() {
                assert(v@[k].0 != key);
            }
        }
    }
    v.push((key, amt));
}

fn bump_genre(v: &mut Vec<(String, u64)>, key: &String, amt: u64)
    ensures
        genre_view(final(v)@) == bumped(genre_view(old(v)@), key@, amt),
{
    let ghost s = genre_view(v@);
    let mut i: usize = 0;
    while i < v.len()
        invariant
            v@ == old(v)@,
            s == genre_view(v@),
            i <= v@.len(),
            forall|j: int| 0 <= j < i ==> (#[trigger] s[j]).0 != key@,
        decreases v@.len() - i,
    {
        if v[i].0 == *key {
            proof {
                assert(first_at(s, key@, i as int));
                let k = choose|k: int| first_at(s, key@, k);
                lemma_first_unique(s, key@, i as int, k);
            }
            let n = sat_sum(v[i].1, amt);
            v.set(i, (key.clone(), n));
            assert(genre_view(v@) =~= bumped(s, key@, amt));
            return;
        }
        i = i + 1;
    }
    proof {
        assert forall|k: int| !first_at(s, key@, k) by {
            if 0 <= k < s.len() {
                assert(s[k].0 != key@);
            }
        }
    }
    v.push((key.clone(), amt));
    assert(genre_view(v@) =~= s.push((key@, amt)));
}

/// Sorts entries by amount, largest first; equal amounts keep their order.
pub fn rank_by_amount<K>(v: Vec<(K, u64)>) -> (r: Vec<(K, u64)>)
    ensures
        is_ranking(r@, v@),
{
    let ghost orig = v@;
    let mut rest = v;
    let mut out: Vec<(K, u64)> = Vec::new();
    while rest.len() > 0
        invariant
            ranked_desc(out@),
            out@.to_multiset().add(rest@.to_multiset()) == orig.to_multiset(),
        decreases rest@.len(),
    {
        let ghost before_rest = rest@;
        let x = rest.remove(0);
        proof {
            assert(before_rest.remove(0).to_multiset() =~= before_rest.to_multiset().remove(
                before_rest[0],
            ));
        }
        let mut pos: usize = 0;
        while pos < out.len() && out[pos].1 >= x.1
            invariant
                pos <= out@.len(),
                forall|j: int| 0 <= j < pos ==> (#[trigger] out@[j]).1 >= x.1,
            decreases out@.len() - pos,
        {
            pos = pos + 1;
        }
        let ghost before_out = out@;
        out.insert(pos, x);
        proof {
            before_out.insert_ensures(pos as int, x);
            assert(out@.remove(pos as int) =~= before_out);
            assert(out@[pos as int] == x);
            assert(out@.to_multiset().remove(x) == before_out.to_multiset());
            assert(out@.to_multiset().count(x) > 0);
            assert(out@.to_multiset() =~= before_out.to_multiset().insert(x));
            assert forall|i: int, j: int| 0 <= i < j < out@.len() implies (#[trigger] out@[i]).1
                >= (#[trigger] out@[j]).1 by {
                if j < pos {
                    assert(out@[i] == before_out[i] && out@[j] == before_out[j]);
                } else if j == pos {
                    assert(out@[i] == before_out[i]);
                } else if i < pos {
                    assert(out@[i] == before_out[i] && out@[j] == before_out[j - 1]);
                    if pos < before_out.len() {
                        assert(before_out[i].1 >= x.1);
                    }
                    assert(before_out[i].1 >= before_out[j - 1].1);
                } else if i == pos {
                    assert(out@[j] == before_out[j - 1]);
                    if pos < before_out.len() {
                        assert(!(before_out[pos as int].1 >= x.1));
                        assert(before_out[pos as int].1 >= before_out[j - 1].1 || pos == j - 1);
                    }
                } else {
                    assert(out@[i] == before_out[i - 1] && out@[j] == before_out[j - 1]);
                }
            }
        }
    }
    assert(rest@.to_multiset() =~= Multiset::empty());
    assert(out@.to_multiset().add(Multiset::empty()) =~= out@.to_multiset());
    out
}

/// The first `n` entries, or all of them when there are fewer.
fn first_n<K>(v: Vec<(K, u64)>, n: usize) -> (r: Vec<(K, u64)>)
    ensures
        r@ == v@.take(if v@.len() < n { v@.len() as int } else { n as int }),
{
    let ghost orig = v@;
    let mut v = v;
    if v.len() > n {
        v.truncate(n);
    }
    assert(v@ =~= orig.take(if orig.len() < n { orig.len() as int } else { n as int }));
    v
}

impl TrackStore {
    /// Revenue totals and rankings over all tracks. Only the ten best
    /// earning tracks and artists are listed. `now` stamps the one entry of
    /// the revenue trend.
    pub fn get_revenue_insights(&self, now: u64) -> (r: RevenueInsights)
        requires
            self.wf(),
        ensures
            ({
                let ts = self@.map_values(|x: RecordModel| x.track);
                &&& r.total_platform_revenue == revenue_total(ts)
                &&& exists|ranked: Seq<(u64, u64)>|
                    is_ranking(ranked, earning_tracks(ts)) && r.top_earning_tracks@ == ranked.take(
                        if ranked.len() < 10 { ranked.len() as int } else { 10 },
                    )
                &&& exists|ranked: Seq<(u64, u64)>|
                    is_ranking(ranked, artist_revenues(ts)) && r.top_earning_artists@
                        == ranked.take(if ranked.len() < 10 { ranked.len() as int } else { 10 })
                &&& exists|v: Seq<(String, u64)>|
                    genre_view(v) == genre_revenues(ts) && is_ranking(r.revenue_by_genre@, v)
                &&& r.monthly_revenue_trend@ == seq![(now, revenue_total(ts))]
            }),
    {
        let ghost ts = self@.map_values(|x: RecordModel| x.track);
        let mut total: u64 = 0;
        let mut tracks: Vec<(u64, u64)> = Vec::new();
        let mut artists: Vec<(u64, u64)> = Vec::new();
        let mut genres: Vec<(String, u64)> = Vec::new();
        let mut i: usize = 0;
        while i < self.records.len()
            invariant
                ts == self@.map_values(|x: RecordModel| x.track),
                i <= self@.len(),
                total == revenue_total(ts.subrange(0, i as int)),
                tracks@ == earning_tracks(ts.subrange(0, i as int)),
                artists@ == artist_revenues(ts.subrange(0, i as int)),
                genre_view(genres@) == genre_revenues(ts.subrange(0, i as int)),
            decreases self@.len() - i,
        {
            let t = &self.records[i].track;
            let ghost sub = ts.subrange(0, i as int + 1);
            assert(sub.drop_last() =~= ts.subrange(0, i as int));
            assert(sub.last() == t@);
            let sum = sum_payments(&t.payments);
            let rev: u64 = if sum <= u64::MAX as u128 {
                sum as u64
            } else {
                u64::MAX
            };
            assert(rev == track_revenue(t@));
            total = sat_sum(total, rev);
            if rev > 0 {
                tracks.push((t.id, rev));
            }
            bump_ids(&mut artists, &t.contributors, rev);
            match &t.genre {
                Some(g) => bump_genre(&mut genres, g, rev),
                None => {},
            }
            i = i + 1;
        }
        assert(ts.subrange(0, ts.len() as int) =~= ts);
        let ranked_tracks = rank_by_amount(tracks);
        let ranked_artists = rank_by_amount(artists);
        let ranked_genres = rank_by_amount(genres);
        let mut trend: Vec<(u64, u64)> = Vec::new();
        trend.push((now, total));
        assert(trend@ =~= seq![(now, total)]);
        RevenueInsights {
            total_platform_revenue: total,
            top_earning_tracks: first_n(ranked_tracks, 10),
            top_earning_artists: first_n(ranked_artists, 10),
            revenue_by_genre: ranked_genres,
            monthly_revenue_trend: trend,
        }
    }
}

impl TrackStore {
    /// The ten most common genres, by number of tracks, and the ten most
    /// active contributors, by plays plus comments of their tracks.
    pub fn get_platform_rankings(&self) -> (r: PlatformRankings)
        requires
            self.wf(),
        ensures
            ({
                let ts = self@.map_values(|x: RecordModel| x.track);
                &&& exists|v: Seq<(String, u64)>, ranked: Seq<(String, u64)>|
                    genre_view(v) == genre_counts(ts) && is_ranking(ranked, v)
                        && r.most_popular_genres@ == ranked.take(
                        if ranked.len() < 10 { ranked.len() as int } else { 10 },
                    )
                &&& exists|ranked: Seq<(u64, u64)>|
                    is_ranking(ranked, user_activity(ts)) && r.most_active_users@ == ranked.take(
                        if ranked.len() < 10 { ranked.len() as int } else { 10 },
                    )
            }),
    {
        let ghost ts = self@.map_values(|x: RecordModel| x.track);
        let mut genres: Vec<(String, u64)> = Vec::new();
        let mut users: Vec<(u64, u64)> = Vec::new();
        let mut i: usize = 0;
        while i < self.records.len()
            invariant
                ts == self@.map_values(|x: RecordModel| x.track),
                i <= self@.len(),
                genre_view(genres@) == genre_counts(ts.subrange(0, i as int)),
                users@ == user_activity(ts.subrange(0, i as int)),
            decreases self@.len() - i,
        {
            let t = &self.records[i].track;
            let ghost sub = ts.subrange(0, i as int + 1);
            assert(sub.drop_last() =~= ts.subrange(0, i as int));
            assert(sub.last() == t@);
            match &t.genre {
                Some(g) => bump_genre(&mut genres, g, 1),
                None => {},
            }
            let score = sat_sum(t.play_count, if t.comments.len() as u128 <= u64::MAX as u128 {
                t.comments.len() as u64
            } else {
                u64::MAX
            });
            assert(score == track_activity(t@));
            bump_ids(&mut users, &t.contributors, score);
            i = i + 1;
        }
        assert(ts.subrange(0, ts.len() as int) =~= ts);
        let ghost genre_entries = genres@;
        let ranked_genres = rank_by_amount(genres);
        let ranked_users = rank_by_amount(users);
        let ghost rg = ranked_genres@;
        let r = PlatformRankings {
            most_popular_genres: first_n(ranked_genres, 10),
            most_active_users: first_n(ranked_users, 10),
        };
        assert(genre_view(genre_entries) == genre_counts(ts) && is_ranking(rg, genre_entries));
        r
    }
}

} // verus!
