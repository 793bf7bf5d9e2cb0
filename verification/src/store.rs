//! The channel store: lookup, filtering and upsert over the in-memory
//! database snapshot.
//!
//! Lookups use first-match semantics; an upsert is keyed by `id` first,
//! falling back to `username` when the id is absent (zero), and appends a
//! new record when neither key is present.

use vstd::prelude::*;

use crate::records::ChannelData;
use crate::records::Database;
use crate::text::str_eq;

verus! {

/// Index of the first record whose `id` equals `id`, or `s.len()` when none does.
pub open spec fn idx_by_id(s: Seq<ChannelData>, id: i64) -> int
    decreases s.len(),
{
    if s.len() == 0 {
        0
    } else if s[0].id == id {
        0
    } else {
        1 + idx_by_id(s.drop_first(), id)
    }
}

/// Whether some record in `s` carries this id.
pub open spec fn has_id(s: Seq<ChannelData>, id: i64) -> bool {
    idx_by_id(s, id) < s.len()
}

/// The first record with this id, when one exists.
pub open spec fn find_by_id(s: Seq<ChannelData>, id: i64) -> Option<ChannelData> {
    if has_id(s, id) {
        Some(s[idx_by_id(s, id)])
    } else {
        None
    }
}

/// `idx_by_id` points at the first match: everything before it misses,
/// and it lands on a match whenever it is in range.
pub proof fn lemma_idx_by_id(s: Seq<ChannelData>, id: i64)
    ensures
        0 <= idx_by_id(s, id) <= s.len(),
        idx_by_id(s, id) < s.len() ==> s[idx_by_id(s, id)].id == id,
        forall|j: int| 0 <= j < idx_by_id(s, id) ==> s[j].id != id,
    decreases s.len(),
{
    if s.len() == 0 {
    } else if s[0].id == id {
    } else {
        lemma_idx_by_id(s.drop_first(), id);
        if idx_by_id(s, id) < s.len() {
            assert(s[idx_by_id(s, id)] == s.drop_first()[idx_by_id(s, id) - 1]);
        }
        assert forall|j: int| 0 <= j < idx_by_id(s, id) implies s[j].id != id by {
            if j > 0 {
                assert(s[j] == s.drop_first()[j - 1]);
            }
        }
    }
}

/// Index of the first record whose `username` reads as `name`, or `s.len()`.
pub open spec fn idx_by_username(s: Seq<ChannelData>, name: Seq<char>) -> int
    decreases s.len(),
{
    if s.len() == 0 {
        0
    } else if s[0].username@ == name {
        0
    } else {
        1 + idx_by_username(s.drop_first(), name)
    }
}

/// Whether some record in `s` carries this username.
pub open spec fn has_username(s: Seq<ChannelData>, name: Seq<char>) -> bool {
    idx_by_username(s, name) < s.len()
}

/// The first record with this username, when one exists.
pub open spec fn find_by_username(s: Seq<ChannelData>, name: Seq<char>) -> Option<ChannelData> {
    if has_username(s, name) {
        Some(s[idx_by_username(s, name)])
    } else {
        None
    }
}

/// `idx_by_username` points at the first match, as `lemma_idx_by_id` does.
pub proof fn lemma_idx_by_username(s: Seq<ChannelData>, name: Seq<char>)
    ensures
        0 <= idx_by_username(s, name) <= s.len(),
        idx_by_username(s, name) < s.len() ==> s[idx_by_username(s, name)].username@ == name,
        forall|j: int| 0 <= j < idx_by_username(s, name) ==> s[j].username@ != name,
    decreases s.len(),
{
    if s.len() == 0 {
    } else if s[0].username@ == name {
    } else {
        lemma_idx_by_username(s.drop_first(), name);
        if idx_by_username(s, name) < s.len() {
            assert(s[idx_by_username(s, name)] == s.drop_first()[idx_by_username(s, name) - 1]);
        }
        assert forall|j: int| 0 <= j < idx_by_username(s, name) implies s[j].username@ != name by {
            if j > 0 {
                assert(s[j] == s.drop_first()[j - 1]);
            }
        }
    }
}

/// Where an upsert of `c` lands: the first id match when `c.id` is nonzero,
/// else the first username match, else one past the end (append).
pub open spec fn upsert_index(s: Seq<ChannelData>, c: ChannelData) -> int {
    if c.id != 0 && has_id(s, c.id) {
        idx_by_id(s, c.id)
    } else if has_username(s, c.username@) {
        idx_by_username(s, c.username@)
    } else {
        s.len() as int
    }
}

/// The store contents after upserting `c`.
pub open spec fn upserted(s: Seq<ChannelData>, c: ChannelData) -> Seq<ChannelData> {
    if upsert_index(s, c) < s.len() {
        s.update(upsert_index(s, c), c)
    } else {
        s.push(c)
    }
}

/// No two distinct records share a nonzero id.
pub open spec fn nonzero_ids_unique(s: Seq<ChannelData>) -> bool {
    forall|i: int, j: int|
        0 <= i < j < s.len() && #[trigger] s[i].id == #[trigger] s[j].id ==> s[i].id == 0
}

/// No two distinct records share a username.
pub open spec fn usernames_unique(s: Seq<ChannelData>) -> bool {
    forall|i: int, j: int|
        0 <= i < j < s.len() ==> (#[trigger] s[i]).username@ != (#[trigger] s[j]).username@
}

/// An upsert never introduces a duplicate nonzero id: a record keyed by its
/// id replaces the record carrying that id, and a record the store has no
/// key for brings a fresh id (or none).
pub proof fn lemma_upsert_keeps_ids_unique(s: Seq<ChannelData>, c: ChannelData)
    requires
        nonzero_ids_unique(s),
    ensures
        nonzero_ids_unique(upserted(s, c)),
{
    lemma_idx_by_id(s, c.id);
    lemma_idx_by_username(s, c.username@);
    let t = upserted(s, c);
    assert forall|i: int, j: int|
        0 <= i < j < t.len() && #[trigger] t[i].id == #[trigger] t[j].id implies t[i].id
        == 0 by {
        let u = upsert_index(s, c);
        if u < s.len() {
            if i != u && j != u {
                assert(t[i] == s[i] && t[j] == s[j]);
            } else if c.id != 0 && has_id(s, c.id) {
                // Replacement by id: the only record with this nonzero id
                // was the one replaced.
            } else {
                // Replacement by username: the store has no record with a
                // nonzero id equal to the new record's.
                assert(!has_id(s, c.id) || c.id == 0);
            }
        } else {
            if j == u {
                assert(t[i] == s[i]);
                assert(!has_id(s, c.id) || c.id == 0);
            } else {
                assert(t[i] == s[i] && t[j] == s[j]);
            }
        }
    }
}

/// An upsert that is not keyed by id — the record's id is zero or unknown —
/// never introduces a duplicate username: it lands on the record carrying
/// that username, or appends a username the store lacks.
pub proof fn lemma_upsert_keeps_usernames_unique(s: Seq<ChannelData>, c: ChannelData)
    requires
        usernames_unique(s),
        c.id == 0 || !has_id(s, c.id),
    ensures
        usernames_unique(upserted(s, c)),
{
    lemma_idx_by_id(s, c.id);
    lemma_idx_by_username(s, c.username@);
    let t = upserted(s, c);
    assert forall|i: int, j: int| 0 <= i < j < t.len() implies (#[trigger] t[i]).username@ != (
    #[trigger] t[j]).username@ by {
        let u = upsert_index(s, c);
        if u < s.len() {
            if i != u && j != u {
                assert(t[i] == s[i] && t[j] == s[j]);
            } else {
                assert(has_username(s, c.username@));
                assert(u == idx_by_username(s, c.username@));
                if i == u {
                    assert(t[j] == s[j]);
                    assert(s[j].username@ != s[u].username@);
                } else {
                    assert(t[i] == s[i]);
                    assert(s[i].username@ != s[u].username@);
                }
            }
        } else {
            if j == u {
                assert(t[i] == s[i]);
                assert(!has_username(s, c.username@));
            } else {
                assert(t[i] == s[i] && t[j] == s[j]);
            }
        }
    }
}

/// The view of an optional borrowed string filter argument.
pub open spec fn opt_name(o: Option<&String>) -> Option<Seq<char>> {
    match o {
        Some(s) => Some(s@),
        None => None,
    }
}

/// Whether a record passes the category/geo filter: a `None` filter accepts
/// everything; a `Some` filter requires the field to be present and equal.
pub open spec fn channel_matches(c: ChannelData, cat: Option<Seq<char>>, geo: Option<Seq<char>>) -> bool {
    &&& match cat {
        Some(q) => c.category is Some && c.category->0@ == q,
        None => true,
    }
    &&& match geo {
        Some(q) => c.geo is Some && c.geo->0@ == q,
        None => true,
    }
}

/// Position of the first record with this id, when one exists.
pub(crate) fn find_index_by_id(channels: &Vec<ChannelData>, id: i64) -> (r: Option<usize>)
    ensures
        match r {
            Some(i) => has_id(channels@, id) && i == idx_by_id(channels@, id),
            None => !has_id(channels@, id),
        },
{
    let n = channels.len();
    let mut i: usize = 0;
    while i < n
        invariant
            n == channels@.len(),
            i <= n,
            forall|j: int| 0 <= j < i ==> channels@[j].id != id,
        decreases n - i,
    {
        if channels[i].id == id {
            proof {
                lemma_idx_by_id(channels@, id);
            }
            return Some(i);
        }
        i += 1;
    }
    proof {
        lemma_idx_by_id(channels@, id);
    }
    None
}

/// Position of the first record with this username, when one exists.
fn find_index_by_username(channels: &Vec<ChannelData>, username: &str) -> (r: Option<usize>)
    ensures
        match r {
            Some(i) => has_username(channels@, username@) && i == idx_by_username(
                channels@,
                username@,
            ),
            None => !has_username(channels@, username@),
        },
{
    let n = channels.len();
    let mut i: usize = 0;
    while i < n
        invariant
            n == channels@.len(),
            i <= n,
            forall|j: int| 0 <= j < i ==> channels@[j].username@ != username@,
        decreases n - i,
    {
        if str_eq(channels[i].username.as_str(), username) {
            proof {
                lemma_idx_by_username(channels@, username@);
            }
            return Some(i);
        }
        i += 1;
    }
    proof {
        lemma_idx_by_username(channels@, username@);
    }
    None
}

impl Database {
    /// The first record with this id, cloned out of the store.
    pub fn get_channel_by_id(&self, id: i64) -> (r: Option<ChannelData>)
        ensures
            r == find_by_id(self.channels@, id),
    {
        match find_index_by_id(&self.channels, id) {
            Some(i) => Some(self.channels[i].clone()),
            None => None,
        }
    }

    /// The first record with this username, cloned out of the store.
    pub fn get_channel_by_username(&self, username: &str) -> (r: Option<ChannelData>)
        ensures
            r == find_by_username(self.channels@, username@),
    {
        match find_index_by_username(&self.channels, username) {
            Some(i) => Some(self.channels[i].clone()),
            None => None,
        }
    }

    /// Appends a record unconditionally.
    pub fn add_channel(&mut self, channel: ChannelData)
        ensures
            final(self).channels@ == old(self).channels@.push(channel),
    {
        self.channels.push(channel);
    }

    /// Upserts a record: replaces the record it is keyed to (id first,
    /// username as fallback), or appends it when the store has neither key.
    pub fn add_or_update_channel(&mut self, channel: ChannelData)
        ensures
            final(self).channels@ == upserted(old(self).channels@, channel),
    {
        let by_id: Option<usize> = if channel.id != 0 {
            find_index_by_id(&self.channels, channel.id)
        } else {
            None
        };
        match by_id {
            Some(i) => {
                self.channels[i] = channel;
            },
            None => {
                match find_index_by_username(&self.channels, channel.username.as_str()) {
                    Some(i) => {
                        self.channels[i] = channel;
                    },
                    None => {
                        self.channels.push(channel);
                    },
                }
            },
        }
    }

    /// All records passing the optional category/geo filter, in store order.
    pub fn filter_channels(&self, category: Option<&String>, geo: Option<&String>) -> (r: Vec<
        ChannelData,
    >)
        ensures
            r@ == self.channels@.filter(
                |c: ChannelData| channel_matches(c, opt_name(category), opt_name(geo)),
            ),
    {
        let ghost pred = |c: ChannelData| channel_matches(c, opt_name(category), opt_name(geo));
        let n = self.channels.len();
        let mut r: Vec<ChannelData> = Vec::new();
        let mut i: usize = 0;
        while i < n
            invariant
                n == self.channels@.len(),
                i <= n,
                r@ == self.channels@.subrange(0, i as int).filter(pred),
                pred == (|c: ChannelData| channel_matches(
                    c,
                    opt_name(category),
                    opt_name(geo),
                )),
            decreases n - i,
        {
            let c = &self.channels[i];
            let cat_ok = match category {
                Some(want) => match &c.category {
                    Some(have) => str_eq(have.as_str(), want.as_str()),
                    None => false,
                },
                None => true,
            };
            let geo_ok = match geo {
                Some(want) => match &c.geo {
                    Some(have) => str_eq(have.as_str(), want.as_str()),
                    None => false,
                },
                None => true,
            };
            proof {
                reveal(Seq::filter);
                assert(self.channels@.subrange(0, i + 1 as int).drop_last() =~= self.channels@
                    .subrange(0, i as int));
                assert(self.channels@.subrange(0, i + 1 as int).last() == self.channels@[i as int]);
            }
            if cat_ok && geo_ok {
                r.push(self.channels[i].clone());
            }
            i += 1;
        }
        proof {
            assert(self.channels@.subrange(0, n as int) =~= self.channels@);
        }
        r
    }

    /// Sets the category of the record with this id; reports whether a
    /// record was found. Nothing else changes.
    pub fn set_category(&mut self, id: i64, category: String) -> (r: bool)
        ensures
            r == has_id(old(self).channels@, id),
            r ==> final(self).channels@ == old(self).channels@.update(
                idx_by_id(old(self).channels@, id),
                (ChannelData {
                    category: Some(category),
                    ..old(self).channels@[idx_by_id(old(self).channels@, id)]
                }),
            ),
            !r ==> final(self).channels@ == old(self).channels@,
    {
        match find_index_by_id(&self.channels, id) {
            Some(i) => {
                let mut rec = self.channels[i].clone();
                rec.category = Some(category);
                self.channels[i] = rec;
                true
            },
            None => false,
        }
    }

    /// Sets the geo of the record with this id; reports whether a record
    /// was found. Nothing else changes.
    pub fn set_geo(&mut self, id: i64, geo: String) -> (r: bool)
        ensures
            r == has_id(old(self).channels@, id),
            r ==> final(self).channels@ == old(self).channels@.update(
                idx_by_id(old(self).channels@, id),
                (ChannelData {
                    geo: Some(geo),
                    ..old(self).channels@[idx_by_id(old(self).channels@, id)]
                }),
            ),
            !r ==> final(self).channels@ == old(self).channels@,
    {
        match find_index_by_id(&self.channels, id) {
            Some(i) => {
                let mut rec = self.channels[i].clone();
                rec.geo = Some(geo);
                self.channels[i] = rec;
                true
            },
            None => false,
        }
    }
}

} // verus!
