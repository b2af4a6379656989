//! The inventory of stored servers: one server per node and name, and which local
//! servers have lost their directory.

use vstd::prelude::*;
use crate::model::{server_is_local, strings_view, ServerInstance};
use crate::paths::{join_seq, path_join};
use crate::text::{owned, str_eq};

verus! {

/// Finds problems among the servers kept below a servers directory.
pub struct ServerInventoryAnalyzer {
    pub server_root_dir: String,
}

/// The names of the local servers whose directory is missing, in order; `dir_exists`
/// tells for each server whether its directory exists.
pub open spec fn corrupted_names_seq(servers: Seq<ServerInstance>, dir_exists: Seq<bool>) -> Seq<Seq<char>>
    decreases servers.len(),
{
    if servers.len() == 0 {
        Seq::empty()
    } else {
        let rest = corrupted_names_seq(servers.drop_last(), dir_exists.take(servers.len() - 1));
        let s = servers.last();
        if server_is_local(s@) && !dir_exists[servers.len() - 1] {
            rest.push(s.name@)
        } else {
            rest
        }
    }
}

impl ServerInventoryAnalyzer {
    /// An analyzer for the servers below `server_root_dir`.
    pub fn new(server_root_dir: &str) -> (r: ServerInventoryAnalyzer)
        ensures
            r.server_root_dir@ == server_root_dir@,
    {
        ServerInventoryAnalyzer { server_root_dir: owned(server_root_dir) }
    }

    /// Where a server's directory should be.
    pub fn server_dir(&self, server: &ServerInstance) -> (r: String)
        ensures
            r@ == join_seq(self.server_root_dir@, server.directory_name@),
    {
        path_join(self.server_root_dir.as_str(), server.directory_name.as_str())
    }

    /// The names of the local servers whose directory is missing.
    pub fn corrupted_local_server_names(&self, servers: &Vec<ServerInstance>, dir_exists: &Vec<bool>) -> (r: Vec<String>)
        requires
            dir_exists@.len() == servers@.len(),
        ensures
            strings_view(r@) == corrupted_names_seq(servers@, dir_exists@),
    {
        let mut names: Vec<String> = Vec::new();
        let mut i: usize = 0;
        assert(servers@.take(0) =~= Seq::<ServerInstance>::empty());
        while i < servers.len()
            invariant
                i <= servers.len(),
                dir_exists@.len() == servers@.len(),
                strings_view(names@) == corrupted_names_seq(servers@.take(i as int), dir_exists@.take(i as int)),
            decreases servers.len() - i,
        {
            assert(servers@.take(i + 1).drop_last() =~= servers@.take(i as int));
            assert(dir_exists@.take(i + 1).take(i as int) =~= dir_exists@.take(i as int));
            let s = &servers[i];
            if s.is_local() && !dir_exists[i] {
                let ghost before = names@;
                names.push(owned(s.name.as_str()));
                assert(strings_view(names@) =~= strings_view(before).push(s.name@));
            }
            i += 1;
        }
        assert(servers@.take(servers.len() as int) =~= servers@);
        assert(dir_exists@.take(servers.len() as int) =~= dir_exists@);
        names
    }
}

/// Where the first kept server with key `k` stands in `kept`, if any.
pub open spec fn key_position(kept: Seq<int>, keys: Seq<Seq<char>>, k: Seq<char>) -> Option<int> {
    if exists|j: int| 0 <= j < kept.len() && keys[kept[j]] == k {
        Some(
            choose|j: int|
                0 <= j < kept.len() && keys[kept[j]] == k && forall|m: int| 0 <= m < j ==> keys[kept[m]] != k,
        )
    } else {
        None
    }
}

/// The servers kept and set aside after the first `n` servers, given each server's key
/// (its node and name) and the rank of its last play (higher is later): a server with a
/// new key is kept; one with a kept key replaces the kept server when it was played
/// later, which is then set aside, and is set aside otherwise. Kept servers are listed
/// in the order their keys first came, set-aside ones in the order they were set aside.
pub open spec fn dedupe_state(keys: Seq<Seq<char>>, ranks: Seq<u64>, n: nat) -> (Seq<int>, Seq<int>)
    decreases n,
{
    if n == 0 {
        (Seq::empty(), Seq::empty())
    } else {
        let (kept, dups) = dedupe_state(keys, ranks, (n - 1) as nat);
        let i = n - 1;
        match key_position(kept, keys, keys[i]) {
            None => (kept.push(i), dups),
            Some(p) => if ranks[i] > ranks[kept[p]] {
                (kept.update(p, i), dups.push(kept[p]))
            } else {
                (kept, dups.push(i))
            },
        }
    }
}

/// Lemma: a position holding key `k` with no `k` before it is where `key_position` finds
/// it.
proof fn lemma_key_position_is(kept: Seq<int>, keys: Seq<Seq<char>>, k: Seq<char>, j: int)
    requires
        0 <= j < kept.len(),
        keys[kept[j]] == k,
        forall|m: int| 0 <= m < j ==> keys[kept[m]] != k,
    ensures
        key_position(kept, keys, k) == Some(j),
{
    let c = choose|c: int|
        0 <= c < kept.len() && keys[kept[c]] == k && forall|m: int| 0 <= m < c ==> keys[kept[m]] != k;
    assert(0 <= c < kept.len() && keys[kept[c]] == k && forall|m: int| 0 <= m < c ==> keys[kept[m]] != k);
    if c < j {
        assert(keys[kept[c]] != k);
    }
    if c > j {
        assert(keys[kept[j]] != k);
    }
}

/// The positions of the servers kept (one per key, the one played last; the first
/// such when two were played at the same time) and of those set aside, for servers with
/// the keys `keys` and last-play ranks `ranks`.
pub fn dedupe_by_key(keys: &Vec<String>, ranks: &Vec<u64>) -> (r: (Vec<usize>, Vec<usize>))
    requires
        ranks@.len() == keys@.len(),
    ensures
        r.0@.map_values(|x: usize| x as int) == dedupe_state(strings_view(keys@), ranks@, keys@.len() as nat).0,
        r.1@.map_values(|x: usize| x as int) == dedupe_state(strings_view(keys@), ranks@, keys@.len() as nat).1,
{
    let ghost ks = strings_view(keys@);
    let mut kept: Vec<usize> = Vec::new();
    let mut dups: Vec<usize> = Vec::new();
    let mut i: usize = 0;
    while i < keys.len()
        invariant
            i <= keys.len(),
            ranks@.len() == keys@.len(),
            ks == strings_view(keys@),
            kept@.map_values(|x: usize| x as int) == dedupe_state(ks, ranks@, i as nat).0,
            dups@.map_values(|x: usize| x as int) == dedupe_state(ks, ranks@, i as nat).1,
            forall|j: int| 0 <= j < kept@.len() ==> #[trigger] kept@[j] < i,
        decreases keys.len() - i,
    {
        let ghost kv = kept@.map_values(|x: usize| x as int);
        let mut p: usize = 0;
        let mut found = false;
        while p < kept.len() && !found
            invariant
                p <= kept.len(),
                i < keys.len(),
                ks == strings_view(keys@),
                kv == kept@.map_values(|x: usize| x as int),
                forall|j: int| 0 <= j < kept@.len() ==> #[trigger] kept@[j] < i,
                found ==> p < kept.len() && ks[kv[p as int]] == ks[i as int],
                forall|m: int| 0 <= m < p ==> ks[kv[m]] != ks[i as int],
            decreases kept.len() - p + if found { 0int } else { 1int },
        {
            assert(kv[p as int] == kept@[p as int] as int);
            if str_eq(keys[kept[p]].as_str(), keys[i].as_str()) {
                found = true;
            } else {
                p += 1;
            }
        }
        if found {
            proof {
                lemma_key_position_is(kv, ks, ks[i as int], p as int);
            }
            let q = kept[p];
            if ranks[i] > ranks[q] {
                kept.set(p, i);
                dups.push(q);
                assert(kept@.map_values(|x: usize| x as int) =~= kv.update(p as int, i as int));
            } else {
                dups.push(i);
            }
        } else {
            assert(!(exists|j: int| 0 <= j < kv.len() && ks[kv[j]] == ks[i as int])) by {
                if exists|j: int| 0 <= j < kv.len() && ks[kv[j]] == ks[i as int] {
                    let j = choose|j: int| 0 <= j < kv.len() && ks[kv[j]] == ks[i as int];
                    assert(ks[kv[j]] != ks[i as int]);
                }
            }
            kept.push(i);
        }
        assert(kept@.map_values(|x: usize| x as int) =~= dedupe_state(ks, ranks@, (i + 1) as nat).0);
        assert(dups@.map_values(|x: usize| x as int) =~= dedupe_state(ks, ranks@, (i + 1) as nat).1);
        i += 1;
    }
    (kept, dups)
}

} // verus!
