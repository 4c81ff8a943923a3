//! The link store: links keyed by unique identifiers, an append-only log of
//! redirect statistics, and the settings row.

use vstd::prelude::*;
use crate::ident::generate_id;
use crate::models::{opt_view, CountedLinkStatistic, Link, LinkStatistic, Settings};
use crate::protocol::{
    create_step, next_create_step, CreateStep, InsertOutcome, StoreError, MAX_CREATE_ATTEMPTS,
};

verus! {

/// A statistic as the store sees it: link identifier, referer, user agent.
pub type StatisticView = (Seq<char>, Option<Seq<char>>, Option<Seq<char>>);

/// The grouping key of a statistic: referer and user agent.
pub type GroupKey = (Option<Seq<char>>, Option<Seq<char>>);

/// No two links share an identifier.
pub open spec fn ids_unique(links: Seq<Link>) -> bool {
    forall|i: int, j: int|
        0 <= i < links.len() && 0 <= j < links.len() && i != j ==> #[trigger] links[i].id@
            != #[trigger] links[j].id@
}

/// Some link has the identifier `id`.
pub open spec fn has_id(links: Seq<Link>, id: Seq<char>) -> bool {
    exists|i: int| 0 <= i < links.len() && #[trigger] links[i].id@ == id
}

/// How many candidates creating a link tries at most from `ids`.
pub open spec fn attempts_made(ids: Seq<String>) -> nat {
    if ids.len() < MAX_CREATE_ATTEMPTS {
        ids.len()
    } else {
        MAX_CREATE_ATTEMPTS as nat
    }
}

/// The position of the first candidate from the `k`-th on, among the
/// first three of `ids`, that no link in `links` has.
pub open spec fn first_free(links: Seq<Link>, ids: Seq<String>, k: nat) -> Option<nat>
    decreases ids.len() - k,
{
    if k >= attempts_made(ids) {
        None
    } else if !has_id(links, ids[k as int]@) {
        Some(k)
    } else {
        first_free(links, ids, k + 1)
    }
}

proof fn lemma_first_free(links: Seq<Link>, ids: Seq<String>, k: nat)
    ensures
        match first_free(links, ids, k) {
            Some(j) => k <= j < attempts_made(ids) && !has_id(links, ids[j as int]@),
            None => true,
        },
        links.len() == 0 && k < attempts_made(ids) ==> first_free(links, ids, k) == Some(k),
    decreases ids.len() - k,
{
    if k < attempts_made(ids) && has_id(links, ids[k as int]@) {
        lemma_first_free(links, ids, k + 1);
    }
}

/// How many statistics of `stats` are for `link` with the key `key`.
pub open spec fn stat_count(stats: Seq<StatisticView>, link: Seq<char>, key: GroupKey) -> nat
    decreases stats.len(),
{
    if stats.len() == 0 {
        0
    } else {
        stat_count(stats.drop_last(), link, key) + if stats.last() == (link, key.0, key.1) {
            1nat
        } else {
            0nat
        }
    }
}

/// The grouping key of a counted statistic.
pub open spec fn group_key(c: CountedLinkStatistic) -> GroupKey {
    (opt_view(c.referer), opt_view(c.user_agent))
}

/// `groups` counts the statistics of `link` in `stats` by referer and user
/// agent: one group per key that occurs, each with its number of statistics.
pub open spec fn is_grouping(
    stats: Seq<StatisticView>,
    link: Seq<char>,
    groups: Seq<CountedLinkStatistic>,
) -> bool {
    &&& forall|g: int|
        0 <= g < groups.len() ==> ((#[trigger] groups[g]).amount matches Some(a) && a as int
            == stat_count(stats, link, group_key(groups[g])) && a >= 1)
    &&& forall|g: int, h: int|
        0 <= g < groups.len() && 0 <= h < groups.len() && g != h ==> group_key(
            #[trigger] groups[g],
        ) != group_key(#[trigger] groups[h])
    &&& forall|k: int|
        0 <= k < stats.len() && (#[trigger] stats[k]).0 == link ==> exists|g: int|
            0 <= g < groups.len() && group_key(#[trigger] groups[g]) == (stats[k].1, stats[k].2)
}

proof fn lemma_stat_count_bound(stats: Seq<StatisticView>, link: Seq<char>, key: GroupKey)
    ensures
        stat_count(stats, link, key) <= stats.len(),
        stat_count(stats, link, key) > 0 ==> exists|k: int|
            0 <= k < stats.len() && #[trigger] stats[k] == (link, key.0, key.1),
    decreases stats.len(),
{
    if stats.len() > 0 {
        lemma_stat_count_bound(stats.drop_last(), link, key);
        if stat_count(stats.drop_last(), link, key) > 0 {
            let k = choose|k: int|
                0 <= k < stats.drop_last().len() && #[trigger] stats.drop_last()[k] == (
                link,
                key.0,
                key.1,
            );
            assert(stats[k] == (link, key.0, key.1));
        }
    }
}

/// The backend error of a query that expected a row and found none.
fn row_not_found() -> (r: StoreError)
    ensures
        r is Backend,
{
    StoreError::Backend("no rows returned by a query that expected to return at least one row".to_owned())
}

fn clone_opt(o: &Option<String>) -> (r: Option<String>)
    ensures
        opt_view(r) == opt_view(*o),
{
    match o {
        Some(s) => Some(s.clone()),
        None => None,
    }
}

fn opt_eq(a: &Option<String>, b: &Option<String>) -> (r: bool)
    ensures
        r == (opt_view(*a) == opt_view(*b)),
{
    match (a, b) {
        (Some(x), Some(y)) => *x == *y,
        (None, None) => true,
        _ => false,
    }
}

fn clone_link(l: &Link) -> (r: Link)
    ensures
        r@ == l@,
{
    Link { id: l.id.clone(), target_url: l.target_url.clone() }
}

/// The identifier of the settings row.
pub const SETTINGS_ID: &'static str = "DEFAULT_SETTINGS";

/// An in-memory link store.
pub struct LinkRepository {
    links: Vec<Link>,
    statistics: Vec<LinkStatistic>,
    settings: Option<Settings>,
}

impl LinkRepository {
    pub closed spec fn spec_links(&self) -> Seq<Link> {
        self.links@
    }

    pub closed spec fn spec_statistics(&self) -> Seq<StatisticView> {
        self.statistics@.map_values(|s: LinkStatistic| s@)
    }

    pub closed spec fn spec_settings(&self) -> Option<Settings> {
        self.settings
    }

    /// Identifiers are unique, and the statistics log fits its counters.
    pub open spec fn wf(&self) -> bool {
        &&& ids_unique(self.spec_links())
        &&& self.spec_statistics().len() < i64::MAX
    }

    /// An empty store, without a settings row.
    pub fn new() -> (r: Self)
        ensures
            r.wf(),
            r.spec_links().len() == 0,
            r.spec_statistics().len() == 0,
            r.spec_settings() is None,
    {
        let r = LinkRepository { links: Vec::new(), statistics: Vec::new(), settings: None };
        assert(r.spec_statistics() =~= Seq::empty());
        r
    }

    /// Stores the settings row.
    pub fn set_settings(&mut self, settings: Settings)
        ensures
            final(self).spec_links() == old(self).spec_links(),
            final(self).spec_statistics() == old(self).spec_statistics(),
            final(self).spec_settings() == Some(settings),
    {
        self.settings = Some(settings);
    }

    fn find(&self, id: &String) -> (r: Option<usize>)
        ensures
            match r {
                Some(i) => i < self.spec_links().len() && self.spec_links()[i as int].id@ == id@,
                None => !has_id(self.spec_links(), id@),
            },
    {
        let mut i: usize = 0;
        while i < self.links.len()
            invariant
                i <= self.links@.len(),
                forall|j: int| 0 <= j < i ==> self.links@[j].id@ != id@,
            decreases self.links@.len() - i,
        {
            if self.links[i].id == *id {
                return Some(i);
            }
            i = i + 1;
        }
        None
    }

    /// The link with the identifier `id`, if there is one.
    pub fn get_link(&self, id: &String) -> (r: Result<Option<Link>, StoreError>)
        requires
            self.wf(),
        ensures
            r matches Ok(found) && match found {
                Some(link) => link.id@ == id@ && exists|i: int|
                    0 <= i < self.spec_links().len() && #[trigger] self.spec_links()[i]@ == link@,
                None => !has_id(self.spec_links(), id@),
            },
    {
        match self.find(id) {
            Some(i) => {
                let link = clone_link(&self.links[i]);
                assert(self.spec_links()[i as int]@ == link@);
                Ok(Some(link))
            },
            None => Ok(None),
        }
    }

    /// Inserts a link with the identifier `id` unless one has it already.
    pub fn try_insert(&mut self, id: String, target_url: &String) -> (r: InsertOutcome)
        requires
            old(self).wf(),
        ensures
            final(self).wf(),
            final(self).spec_statistics() == old(self).spec_statistics(),
            final(self).spec_settings() == old(self).spec_settings(),
            has_id(old(self).spec_links(), id@) ==> r is Collision && final(self).spec_links()
                == old(self).spec_links(),
            !has_id(old(self).spec_links(), id@) ==> (r matches InsertOutcome::Inserted(link)
                && link.id@ == id@ && link.target_url@ == target_url@
                && final(self).spec_links().len() == old(self).spec_links().len() + 1
                && final(self).spec_links().drop_last() == old(self).spec_links()
                && final(self).spec_links().last()@ == link@),
    {
        match self.find(&id) {
            Some(_) => InsertOutcome::Collision,
            None => {
                let link = Link { id, target_url: target_url.clone() };
                let stored = clone_link(&link);
                self.links.push(stored);
                assert(final(self).spec_links().drop_last() =~= old(self).spec_links());
                InsertOutcome::Inserted(link)
            },
        }
    }

    /// Creates a link to `target_url` trying the candidate identifiers
    /// `ids` in turn, at most three of them: the first that no link has is
    /// stored. Returns the result and the number of inserts attempted; with
    /// no free candidate among those tried it fails with `RetriesExhausted`.
    pub fn create_link_with(&mut self, ids: &Vec<String>, target_url: &String) -> (r: (
        Result<Link, StoreError>,
        u32,
    ))
        requires
            old(self).wf(),
        ensures
            final(self).wf(),
            final(self).spec_statistics() == old(self).spec_statistics(),
            final(self).spec_settings() == old(self).spec_settings(),
            r.1 <= MAX_CREATE_ATTEMPTS,
            match first_free(old(self).spec_links(), ids@, 0) {
                Some(k) => r.1 == k + 1 && (r.0 matches Ok(link) && link.id@ == ids@[k as int]@
                    && link.target_url@ == target_url@ && final(self).spec_links() == old(
                    self,
                ).spec_links().push(final(self).spec_links().last())
                    && final(self).spec_links().last()@ == link@),
                None => r.0 matches Err(StoreError::RetriesExhausted) && r.1 == attempts_made(
                    ids@,
                ) && final(self).spec_links() == old(self).spec_links(),
            },
    {
        let limit: u32 = if ids.len() < MAX_CREATE_ATTEMPTS as usize {
            ids.len() as u32
        } else {
            MAX_CREATE_ATTEMPTS
        };
        if limit == 0 {
            return (Err(StoreError::RetriesExhausted), 0);
        }
        let mut made: u32 = 1;
        loop
            invariant
                1 <= made <= limit,
                limit == attempts_made(ids@),
                self.wf(),
                self.spec_links() == old(self).spec_links(),
                self.spec_statistics() == old(self).spec_statistics(),
                self.spec_settings() == old(self).spec_settings(),
                first_free(old(self).spec_links(), ids@, 0) == first_free(
                    old(self).spec_links(),
                    ids@,
                    (made - 1) as nat,
                ),
            decreases limit - made,
        {
            let id = ids[(made - 1) as usize].clone();
            let ghost before = self.spec_links();
            let outcome = self.try_insert(id, target_url);
            let ghost seen = outcome;
            match next_create_step(made, limit, outcome) {
                CreateStep::Done(result) => {
                    match result {
                        Ok(link) => {
                            assert(seen matches InsertOutcome::Inserted(l) && l == link);
                            assert(self.spec_links() =~= before.push(self.spec_links().last()));
                            return (Ok(link), made);
                        },
                        Err(e) => {
                            assert(seen is Collision);
                            assert(first_free(old(self).spec_links(), ids@, made as nat) is None);
                            return (Err(e), made);
                        },
                    }
                },
                CreateStep::Retry(next) => {
                    made = next;
                },
            }
        }
    }

    /// Creates a link to `target_url` under a fresh random identifier,
    /// drawing three candidates and storing the first that is free. On a
    /// store without links it always succeeds.
    pub fn create_link(&mut self, target_url: &String) -> (r: Result<Link, StoreError>)
        requires
            old(self).wf(),
        ensures
            final(self).wf(),
            final(self).spec_statistics() == old(self).spec_statistics(),
            final(self).spec_settings() == old(self).spec_settings(),
            old(self).spec_links().len() == 0 ==> r is Ok,
            match r {
                Ok(link) => link.target_url@ == target_url@
                    && !has_id(old(self).spec_links(), link.id@)
                    && final(self).spec_links() == old(self).spec_links().push(
                    final(self).spec_links().last(),
                ) && final(self).spec_links().last()@ == link@,
                Err(e) => e is RetriesExhausted && final(self).spec_links() == old(
                    self,
                ).spec_links(),
            },
    {
        let mut ids: Vec<String> = Vec::new();
        let mut i: u32 = 0;
        while i < MAX_CREATE_ATTEMPTS
            invariant
                ids@.len() == i,
                i <= MAX_CREATE_ATTEMPTS,
            decreases MAX_CREATE_ATTEMPTS - i,
        {
            ids.push(generate_id());
            i = i + 1;
        }
        proof {
            lemma_first_free(old(self).spec_links(), ids@, 0);
        }
        let (r, _) = self.create_link_with(&ids, target_url);
        r
    }
    /// Points the link `id` at `target_url`; fails, as a backend failure,
    /// where no link has that identifier.
    pub fn update_link(&mut self, id: &String, target_url: &String) -> (r: Result<Link, StoreError>)
        requires
            old(self).wf(),
        ensures
            final(self).wf(),
            final(self).spec_statistics() == old(self).spec_statistics(),
            final(self).spec_settings() == old(self).spec_settings(),
            final(self).spec_links().len() == old(self).spec_links().len(),
            match r {
                Ok(link) => link.id@ == id@ && link.target_url@ == target_url@ && exists|i: int|
                    0 <= i < old(self).spec_links().len() && old(self).spec_links()[i].id@ == id@
                        && final(self).spec_links() == #[trigger] old(self).spec_links().update(
                        i,
                        final(self).spec_links()[i],
                    ) && final(self).spec_links()[i]@ == link@,
                Err(e) => e is Backend && !has_id(old(self).spec_links(), id@)
                    && final(self).spec_links() == old(self).spec_links(),
            },
    {
        match self.find(id) {
            Some(i) => {
                let link = Link { id: self.links[i].id.clone(), target_url: target_url.clone() };
                let stored = clone_link(&link);
                self.links.set(i, stored);
                assert(final(self).spec_links() =~= old(self).spec_links().update(
                    i as int,
                    final(self).spec_links()[i as int],
                ));
                assert forall|a: int, b: int|
                    0 <= a < self.spec_links().len() && 0 <= b < self.spec_links().len() && a
                        != b implies #[trigger] self.spec_links()[a].id@
                    != #[trigger] self.spec_links()[b].id@ by {
                    assert(old(self).spec_links()[a].id@ != old(self).spec_links()[b].id@);
                }
                Ok(link)
            },
            None => Err(row_not_found()),
        }
    }

    /// Appends a statistic; the identifier need not be a stored link's.
    /// Fails only when the log cannot be counted any longer.
    pub fn add_statistic(
        &mut self,
        link_id: &String,
        referer: &Option<String>,
        user_agent: &Option<String>,
    ) -> (r: Result<(), StoreError>)
        requires
            old(self).wf(),
        ensures
            final(self).wf(),
            final(self).spec_links() == old(self).spec_links(),
            final(self).spec_settings() == old(self).spec_settings(),
            r is Ok <==> old(self).spec_statistics().len() + 1 < i64::MAX,
            r is Ok ==> final(self).spec_statistics() == old(self).spec_statistics().push(
                (link_id@, opt_view(*referer), opt_view(*user_agent)),
            ),
            r is Err ==> final(self).spec_statistics() == old(self).spec_statistics(),
    {
        if self.statistics.len() as u64 >= 9223372036854775806u64 {
            return Err(StoreError::Backend("the statistics log is full".to_owned()));
        }
        let stat = LinkStatistic {
            link_id: link_id.clone(),
            referer: clone_opt(referer),
            user_agent: clone_opt(user_agent),
        };
        self.statistics.push(stat);
        assert(final(self).spec_statistics() =~= old(self).spec_statistics().push(
            (link_id@, opt_view(*referer), opt_view(*user_agent)),
        ));
        Ok(())
    }

    /// The statistics of `link_id`, counted by referer and user agent.
    pub fn get_link_statistic(&self, link_id: &String) -> (r: Result<
        Vec<CountedLinkStatistic>,
        StoreError,
    >)
        requires
            self.wf(),
        ensures
            r matches Ok(groups) && is_grouping(self.spec_statistics(), link_id@, groups@),
    {
        let ghost stats = self.spec_statistics();
        let ghost link = link_id@;
        let n = self.statistics.len();
        let mut reps: Vec<usize> = Vec::new();
        let mut counts: Vec<i64> = Vec::new();
        let mut i: usize = 0;
        while i < n
            invariant
                n == self.statistics@.len(),
                stats == self.spec_statistics(),
                stats.len() < i64::MAX,
                link == link_id@,
                i <= n,
                reps@.len() == counts@.len(),
                forall|g: int|
                    0 <= g < reps@.len() ==> #[trigger] reps@[g] < i && stats[reps@[g] as int].0
                        == link && counts@[g] as int == stat_count(
                        stats.subrange(0, i as int),
                        link,
                        (stats[reps@[g] as int].1, stats[reps@[g] as int].2),
                    ) && counts@[g] >= 1,
                forall|g: int, h: int|
                    0 <= g < reps@.len() && 0 <= h < reps@.len() && g != h ==> (
                    stats[#[trigger] reps@[g] as int].1,
                    stats[reps@[g] as int].2,
                ) != (stats[#[trigger] reps@[h] as int].1, stats[reps@[h] as int].2),
                forall|k: int|
                    0 <= k < i && (#[trigger] stats[k]).0 == link ==> exists|g: int|
                        0 <= g < reps@.len() && (
                        stats[#[trigger] reps@[g] as int].1,
                        stats[reps@[g] as int].2,
                    ) == (stats[k].1, stats[k].2),
            decreases n - i,
        {
            let ghost prefix = stats.subrange(0, i as int);
            let ghost next = stats.subrange(0, i + 1);
            assert(next.drop_last() =~= prefix);
            assert(next.last() == stats[i as int]);
            let s = &self.statistics[i];
            assert(stats[i as int] == s@);
            let ghost reps0 = reps@;
            let ghost counts0 = counts@;
            let ghost skey: GroupKey = (s@.1, s@.2);
            if s.link_id == *link_id {
                let mut g: usize = 0;
                let mut found: Option<usize> = None;
                while g < reps.len()
                    invariant_except_break
                        found is None,
                    invariant
                        g <= reps@.len(),
                        forall|h: int| 0 <= h < reps@.len() ==> #[trigger] reps@[h] < i,
                        n == self.statistics@.len(),
                        i < n,
                        s == self.statistics@[i as int],
                        skey == (s@.1, s@.2),
                        forall|h: int|
                            0 <= h < g ==> (stats[#[trigger] reps@[h] as int].1, stats[reps@[h] as int].2)
                                != skey,
                        stats == self.spec_statistics(),
                    ensures
                        found matches Some(j) ==> j < reps@.len() && (stats[reps@[j as int] as int].1, stats[reps@[j as int] as int].2) == skey,
                        found is None ==> forall|h: int|
                            0 <= h < reps@.len() ==> (stats[#[trigger] reps@[h] as int].1, stats[reps@[h] as int].2)
                                != skey,
                    decreases reps@.len() - g,
                {
                    let r = &self.statistics[reps[g]];
                    assert(stats[reps@[g as int] as int] == r@);
                    if opt_eq(&r.referer, &s.referer) && opt_eq(&r.user_agent, &s.user_agent) {
                        found = Some(g);
                        break;
                    }
                    g = g + 1;
                }
                proof {
                    lemma_stat_count_bound(prefix, link, skey);
                }
                match found {
                    Some(j) => {
                        let c = counts[j] + 1;
                        counts.set(j, c);
                    },
                    None => {
                        proof {
                            if stat_count(prefix, link, skey) > 0 {
                                let k = choose|k: int|
                                    0 <= k < prefix.len() && #[trigger] prefix[k] == (
                                    link,
                                    skey.0,
                                    skey.1,
                                );
                                assert(stats[k] == prefix[k]);
                                assert(stats[k].0 == link);
                                let h = choose|h: int|
                                    0 <= h < reps0.len() && (
                                    stats[#[trigger] reps0[h] as int].1,
                                    stats[reps0[h] as int].2,
                                ) == (stats[k].1, stats[k].2);
                                assert(false);
                            }
                        }
                        reps.push(i);
                        counts.push(1);
                    },
                }
                proof {
                    assert forall|g: int|
                        0 <= g < reps@.len() implies #[trigger] reps@[g] < i + 1 && stats[reps@[g] as int].0
                            == link && counts@[g] as int == stat_count(
                            next,
                            link,
                            (stats[reps@[g] as int].1, stats[reps@[g] as int].2),
                        ) && counts@[g] >= 1 by {
                        let key: GroupKey = (stats[reps@[g] as int].1, stats[reps@[g] as int].2);
                        lemma_stat_count_bound(prefix, link, key);
                        assert(stat_count(next, link, key) == stat_count(prefix, link, key) + if next.last() == (link, key.0, key.1) {
                            1nat
                        } else {
                            0nat
                        });
                        if g < reps0.len() {
                            assert(reps@[g] == reps0[g]);
                        }
                    }
                    assert forall|a: int, b: int|
                        0 <= a < reps@.len() && 0 <= b < reps@.len() && a != b implies (
                        stats[#[trigger] reps@[a] as int].1,
                        stats[reps@[a] as int].2,
                    ) != (stats[#[trigger] reps@[b] as int].1, stats[reps@[b] as int].2) by {
                        if a < reps0.len() {
                            assert(reps@[a] == reps0[a]);
                        }
                        if b < reps0.len() {
                            assert(reps@[b] == reps0[b]);
                        }
                    }
                    assert forall|k: int|
                        0 <= k < i + 1 && (#[trigger] stats[k]).0 == link implies exists|g: int|
                            0 <= g < reps@.len() && (
                            stats[#[trigger] reps@[g] as int].1,
                            stats[reps@[g] as int].2,
                        ) == (stats[k].1, stats[k].2) by {
                        if k == i {
                            match found {
                                Some(j) => assert(reps@[j as int] < i),
                                None => assert(reps@[reps@.len() - 1] == i),
                            }
                        } else {
                            let h = choose|h: int|
                                0 <= h < reps0.len() && (
                                stats[#[trigger] reps0[h] as int].1,
                                stats[reps0[h] as int].2,
                            ) == (stats[k].1, stats[k].2);
                            assert(reps@[h] == reps0[h]);
                        }
                    }
                }
            } else {
                proof {
                    assert forall|g: int|
                        0 <= g < reps@.len() implies #[trigger] reps@[g] < i + 1 && stats[reps@[g] as int].0
                            == link && counts@[g] as int == stat_count(
                            next,
                            link,
                            (stats[reps@[g] as int].1, stats[reps@[g] as int].2),
                        ) && counts@[g] >= 1 by {
                        let key: GroupKey = (stats[reps@[g] as int].1, stats[reps@[g] as int].2);
                        assert(stat_count(next, link, key) == stat_count(prefix, link, key) + if next.last() == (link, key.0, key.1) {
                            1nat
                        } else {
                            0nat
                        });
                    }
                }
            }
            i = i + 1;
        }
        assert(stats.subrange(0, n as int) =~= stats);
        let mut groups: Vec<CountedLinkStatistic> = Vec::new();
        let mut g: usize = 0;
        while g < reps.len()
            invariant
                g <= reps@.len(),
                reps@.len() == counts@.len(),
                groups@.len() == g,
                n == self.statistics@.len(),
                stats == self.spec_statistics(),
                forall|h: int| 0 <= h < reps@.len() ==> #[trigger] reps@[h] < n,
                forall|h: int|
                    0 <= h < g ==> (#[trigger] groups@[h]).amount == Some(counts@[h]) && group_key(
                        groups@[h],
                    ) == (stats[reps@[h] as int].1, stats[reps@[h] as int].2),
            decreases reps@.len() - g,
        {
            let r = &self.statistics[reps[g]];
            assert(stats[reps@[g as int] as int] == r@);
            groups.push(
                CountedLinkStatistic {
                    amount: Some(counts[g]),
                    referer: clone_opt(&r.referer),
                    user_agent: clone_opt(&r.user_agent),
                },
            );
            g = g + 1;
        }
        proof {
            assert forall|k: int|
                0 <= k < stats.len() && (#[trigger] stats[k]).0 == link implies exists|h: int|
                    0 <= h < groups@.len() && group_key(#[trigger] groups@[h]) == (
                    stats[k].1,
                    stats[k].2,
                ) by {
                let h = choose|h: int|
                    0 <= h < reps@.len() && (
                    stats[#[trigger] reps@[h] as int].1,
                    stats[reps@[h] as int].2,
                ) == (stats[k].1, stats[k].2);
                assert(group_key(groups@[h]) == (stats[k].1, stats[k].2));
            }
            assert forall|a: int, b: int|
                0 <= a < groups@.len() && 0 <= b < groups@.len() && a != b implies group_key(
                    #[trigger] groups@[a],
                ) != group_key(#[trigger] groups@[b]) by {
                assert(group_key(groups@[a]) == (stats[reps@[a] as int].1, stats[reps@[a] as int].2));
            }
        }
        Ok(groups)
    }

    /// The settings row with the identifier `SETTINGS_ID`; without one the
    /// lookup fails as a backend failure.
    pub fn get_settings(&self) -> (r: Result<Settings, StoreError>)
        ensures
            match self.spec_settings() {
                Some(s) => if s.id@ == SETTINGS_ID@ {
                    r matches Ok(t) && t.id@ == s.id@ && t.encrypted_global_api_key@
                        == s.encrypted_global_api_key@
                } else {
                    r matches Err(e) && e is Backend
                },
                None => r matches Err(e) && e is Backend,
            },
    {
        let wanted: String = SETTINGS_ID.to_owned();
        match &self.settings {
            Some(s) if s.id == wanted => Ok(
                Settings {
                    id: s.id.clone(),
                    encrypted_global_api_key: s.encrypted_global_api_key.clone(),
                },
            ),
            _ => Err(row_not_found()),
        }
    }
}

/// When every statistic of `link` has the same referer and user agent
/// `key`, and there is at least one, a grouping of them holds one group: that
/// key, with the number of those statistics as its amount.
pub proof fn lemma_identical_statistics_form_one_group(
    stats: Seq<StatisticView>,
    link: Seq<char>,
    key: GroupKey,
    groups: Seq<CountedLinkStatistic>,
)
    requires
        is_grouping(stats, link, groups),
        forall|k: int| 0 <= k < stats.len() && (#[trigger] stats[k]).0 == link ==> (stats[k].1, stats[k].2) == key,
        stat_count(stats, link, key) >= 1,
    ensures
        groups.len() == 1,
        group_key(groups[0]) == key,
        groups[0].amount matches Some(a) && a as int == stat_count(stats, link, key),
{
    assert forall|g: int| 0 <= g < groups.len() implies group_key(#[trigger] groups[g]) == key by {
        let gk = group_key(groups[g]);
        lemma_stat_count_bound(stats, link, gk);
        let k = choose|k: int| 0 <= k < stats.len() && #[trigger] stats[k] == (link, gk.0, gk.1);
        assert(stats[k].0 == link);
    }
    lemma_stat_count_bound(stats, link, key);
    let k = choose|k: int| 0 <= k < stats.len() && #[trigger] stats[k] == (link, key.0, key.1);
    assert(stats[k].0 == link);
    if groups.len() > 1 {
        assert(group_key(groups[0]) == key && group_key(groups[1]) == key);
    }
}

} // verus!
