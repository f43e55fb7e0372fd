//! The grouping of a media record's episode source records into the
//! episodes they describe, before each group is merged.

use vstd::prelude::*;
use crate::model::EpisodeSourceRecord;

verus! {

/// The identity of the episode a source record describes: its media
/// record and absolute number, or, without one, its season and episode
/// numbers (0 when missing).
pub open spec fn episode_key(r: EpisodeSourceRecord) -> (i64, bool, i32, i32) {
    match r.absolute_number {
        Some(a) => (r.media_id, true, a, 0i32),
        None => (
            r.media_id,
            false,
            match r.season_number {
                Some(s) => s,
                None => 0i32,
            },
            match r.episode_number {
                Some(e) => e,
                None => 0i32,
            },
        ),
    }
}

fn key_of(r: &EpisodeSourceRecord) -> (k: (i64, bool, i32, i32))
    ensures
        k == episode_key(*r),
{
    match r.absolute_number {
        Some(a) => (r.media_id, true, a, 0i32),
        None => (
            r.media_id,
            false,
            match r.season_number {
                Some(s) => s,
                None => 0i32,
            },
            match r.episode_number {
                Some(e) => e,
                None => 0i32,
            },
        ),
    }
}

/// The records with a given key, in order.
pub open spec fn with_key(records: Seq<EpisodeSourceRecord>, k: (i64, bool, i32, i32)) -> Seq<
    EpisodeSourceRecord,
>
    decreases records.len(),
{
    if records.len() == 0 {
        seq![]
    } else {
        let p = with_key(records.drop_last(), k);
        if episode_key(records.last()) == k {
            p.push(records.last())
        } else {
            p
        }
    }
}

/// `groups` splits `records` by episode: each group holds, in order, the
/// records of one key; no two groups share a key; every record's key has
/// a group.
pub open spec fn groups_of(records: Seq<EpisodeSourceRecord>, groups: Seq<Vec<EpisodeSourceRecord>>) -> bool {
    &&& forall|g: int|
        0 <= g < groups.len() ==> (#[trigger] groups[g])@.len() > 0 && groups[g]@ == with_key(
            records,
            episode_key(groups[g]@[0]),
        )
    &&& forall|g1: int, g2: int|
        0 <= g1 < groups.len() && 0 <= g2 < groups.len() && g1 != g2 ==> episode_key(
            (#[trigger] groups[g1])@[0],
        ) != episode_key((#[trigger] groups[g2])@[0])
    &&& forall|i: int|
        0 <= i < records.len() ==> exists|g: int|
            0 <= g < groups.len() && episode_key((#[trigger] groups[g])@[0]) == episode_key(
                #[trigger] records[i],
            )
}

fn find_group(groups: &Vec<Vec<EpisodeSourceRecord>>, k: (i64, bool, i32, i32)) -> (r: Option<usize>)
    requires
        forall|g: int| 0 <= g < groups@.len() ==> (#[trigger] groups@[g])@.len() > 0,
    ensures
        r matches Some(g) ==> g < groups@.len() && episode_key(groups@[g as int]@[0]) == k,
        r is None ==> forall|g: int|
            0 <= g < groups@.len() ==> episode_key((#[trigger] groups@[g])@[0]) != k,
{
    let mut g: usize = 0;
    while g < groups.len()
        invariant
            g <= groups@.len(),
            forall|h: int| 0 <= h < groups@.len() ==> (#[trigger] groups@[h])@.len() > 0,
            forall|h: int| 0 <= h < g ==> episode_key((#[trigger] groups@[h])@[0]) != k,
        decreases groups.len() - g,
    {
        let gk = key_of(&groups[g][0]);
        if gk.0 == k.0 && gk.1 == k.1 && gk.2 == k.2 && gk.3 == k.3 {
            return Some(g);
        }
        g = g + 1;
    }
    None
}

/// Groups a media record's episode source records by the episode they
/// describe, groups in the order their first record comes.
pub fn group_episode_records(records: Vec<EpisodeSourceRecord>) -> (r: Vec<Vec<EpisodeSourceRecord>>)
    ensures
        groups_of(records@, r@),
{
    let ghost all = records@;
    let mut rest = records;
    let mut groups: Vec<Vec<EpisodeSourceRecord>> = Vec::new();
    let ghost mut done: Seq<EpisodeSourceRecord> = seq![];
    while rest.len() > 0
        invariant
            done + rest@ == all,
            groups_of(done, groups@),
        decreases rest.len(),
    {
        let ghost before = rest@;
        let ghost old_groups = groups@;
        let rec = rest.remove(0);
        let ghost x = rec;
        let ghost next = done.push(x);
        proof {
            assert(x == before[0]);
            assert(rest@ =~= before.subrange(1, before.len() as int));
            assert(next.drop_last() =~= done);
            assert forall|g: int| 0 <= g < groups@.len() implies (#[trigger] groups@[g])@.len()
                > 0 by {}
        }
        let k = key_of(&rec);
        match find_group(&groups, k) {
            Some(g) => {
                let mut grp = groups.remove(g);
                grp.push(rec);
                groups.insert(g, grp);
                proof {
                    assert forall|h: int| 0 <= h < groups@.len() implies (#[trigger] groups@[h])@.len()
                        > 0 && groups@[h]@ == with_key(next, episode_key(groups@[h]@[0])) by {
                        if h == g {
                            assert(groups@[h]@ == old_groups[h]@.push(x));
                            assert(groups@[h]@[0] == old_groups[h]@[0]);
                        } else {
                            assert(groups@[h] == old_groups[h]);
                        }
                    }
                    assert forall|g1: int, g2: int|
                        0 <= g1 < groups@.len() && 0 <= g2 < groups@.len() && g1 != g2 implies episode_key(
                        (#[trigger] groups@[g1])@[0],
                    ) != episode_key((#[trigger] groups@[g2])@[0]) by {
                        assert(groups@[g1]@[0] == old_groups[g1]@[0]);
                        assert(groups@[g2]@[0] == old_groups[g2]@[0]);
                    }
                    assert forall|i: int| 0 <= i < next.len() implies exists|h: int|
                        0 <= h < groups@.len() && episode_key((#[trigger] groups@[h])@[0])
                            == episode_key(#[trigger] next[i]) by {
                        if i < done.len() {
                            assert(next[i] == done[i]);
                            let h = choose|h: int|
                                0 <= h < old_groups.len() && episode_key((#[trigger] old_groups[h])@[0])
                                    == episode_key(done[i]);
                            assert(groups@[h]@[0] == old_groups[h]@[0]);
                        } else {
                            assert(groups@[g as int]@[0] == old_groups[g as int]@[0]);
                        }
                    }
                }
            },
            None => {
                proof {
                    if with_key(done, k).len() > 0 {
                        lemma_with_key_nonempty_has_member(done, k);
                        let i = choose|i: int| 0 <= i < done.len() && episode_key(done[i]) == k;
                        let h = choose|h: int|
                            0 <= h < old_groups.len() && episode_key((#[trigger] old_groups[h])@[0])
                                == episode_key(#[trigger] done[i]);
                        assert(false);
                    }
                }
                let mut grp: Vec<EpisodeSourceRecord> = Vec::new();
                grp.push(rec);
                groups.push(grp);
                proof {
                    let n = old_groups.len() as int;
                    assert(groups@[n]@ =~= seq![x]);
                    assert(with_key(next, k) =~= with_key(done, k).push(x));
                    assert forall|h: int| 0 <= h < groups@.len() implies (#[trigger] groups@[h])@.len()
                        > 0 && groups@[h]@ == with_key(next, episode_key(groups@[h]@[0])) by {
                        if h < n {
                            assert(groups@[h] == old_groups[h]);
                        }
                    }
                    assert forall|g1: int, g2: int|
                        0 <= g1 < groups@.len() && 0 <= g2 < groups@.len() && g1 != g2 implies episode_key(
                        (#[trigger] groups@[g1])@[0],
                    ) != episode_key((#[trigger] groups@[g2])@[0]) by {
                        if g1 < n {
                            assert(groups@[g1] == old_groups[g1]);
                        }
                        if g2 < n {
                            assert(groups@[g2] == old_groups[g2]);
                        }
                    }
                    assert forall|i: int| 0 <= i < next.len() implies exists|h: int|
                        0 <= h < groups@.len() && episode_key((#[trigger] groups@[h])@[0])
                            == episode_key(#[trigger] next[i]) by {
                        if i < done.len() {
                            assert(next[i] == done[i]);
                            let h = choose|h: int|
                                0 <= h < old_groups.len() && episode_key((#[trigger] old_groups[h])@[0])
                                    == episode_key(done[i]);
                            assert(groups@[h] == old_groups[h]);
                        } else {
                            assert(groups@[n]@[0] == x);
                        }
                    }
                }
            },
        }
        proof {
            done = next;
            assert(done + rest@ =~= all);
        }
    }
    assert(done =~= all);
    groups
}

proof fn lemma_with_key_nonempty_has_member(records: Seq<EpisodeSourceRecord>, k: (i64, bool, i32, i32))
    requires
        with_key(records, k).len() > 0,
    ensures
        exists|i: int| 0 <= i < records.len() && episode_key(records[i]) == k,
    decreases records.len(),
{
    if records.len() > 0 {
        if episode_key(records.last()) == k {
            assert(episode_key(records[records.len() - 1]) == k);
        } else {
            lemma_with_key_nonempty_has_member(records.drop_last(), k);
            let i = choose|i: int| 0 <= i < records.drop_last().len() && episode_key(
                records.drop_last()[i],
            ) == k;
            assert(records[i] == records.drop_last()[i]);
        }
    }
}

} // verus!
