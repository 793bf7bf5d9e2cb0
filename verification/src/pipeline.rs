//! Pipeline entry points around the store: registering explicitly requested
//! channels, building a record from an external chat lookup, and the
//! read-side helpers the service exposes.

use vstd::prelude::*;

use crate::ids::normalize_chat_id;
use crate::ids::normalized_chat_id;
use crate::records::ChannelData;
use crate::records::Database;
use crate::records::clone_opt_string;
use crate::store::has_username;
use crate::store::idx_by_username;
use crate::text::trim_spaces;
use crate::text::trim_view;

verus! {

/// What the external channel source reports for one chat: plain values,
/// with the identifier still carrying the broadcast-channel prefix.
#[derive(Debug)]
pub struct ChatInfo {
    pub id: i64,
    pub username: Option<String>,
    pub title: Option<String>,
    pub description: Option<String>,
}

impl Clone for ChatInfo {
    fn clone(&self) -> (r: Self)
        ensures
            r == *self,
    {
        ChatInfo {
            id: self.id,
            username: clone_opt_string(&self.username),
            title: clone_opt_string(&self.title),
            description: clone_opt_string(&self.description),
        }
    }
}

/// Builds the stored record for a freshly fetched chat: the identifier is
/// normalised, a missing username or description becomes empty (a fetched
/// description counts as present even when empty), and nothing is
/// classified yet.
pub fn channel_from_chat(chat: ChatInfo) -> (r: ChannelData)
    ensures
        r.id == normalized_chat_id(chat.id),
        r.title == chat.title,
        chat.username is Some ==> r.username == chat.username->0,
        chat.username is None ==> r.username@ == Seq::<char>::empty(),
        r.photo_element is None,
        r.category is None,
        chat.description is Some ==> r.description == Some(chat.description->0),
        chat.description is None ==> r.description is Some && r.description->0@ == Seq::<
            char,
        >::empty(),
        r.subscribers is None,
        r.geo is None,
{
    let ChatInfo { id, username, title, description } = chat;
    ChannelData {
        id: normalize_chat_id(id),
        title,
        username: match username {
            Some(u) => u,
            None => String::new(),
        },
        photo_element: None,
        category: None,
        description: Some(
            match description {
                Some(d) => d,
                None => String::new(),
            },
        ),
        subscribers: None,
        geo: None,
    }
}

/// Registers a freshly fetched chat: the record it becomes is appended to
/// the store and returned.
pub fn admit_channel(db: &mut Database, chat: ChatInfo) -> (r: ChannelData)
    ensures
        final(db).channels@ == old(db).channels@.push(r),
        r.id == normalized_chat_id(chat.id),
        r.title == chat.title,
        chat.username is Some ==> r.username == chat.username->0,
        chat.username is None ==> r.username@ == Seq::<char>::empty(),
        r.photo_element is None,
        r.category is None,
        chat.description is Some ==> r.description == Some(chat.description->0),
        chat.description is None ==> r.description is Some && r.description->0@ == Seq::<
            char,
        >::empty(),
        r.subscribers is None,
        r.geo is None,
{
    let rec = channel_from_chat(chat);
    db.add_channel(rec.clone());
    rec
}

/// The stored records of the names the store already knows, in name order.
pub open spec fn known_list(s: Seq<ChannelData>, names: Seq<String>) -> Seq<ChannelData>
    decreases names.len(),
{
    if names.len() == 0 {
        Seq::empty()
    } else {
        let rest = known_list(s, names.drop_last());
        if has_username(s, names.last()@) {
            rest.push(s[idx_by_username(s, names.last()@)])
        } else {
            rest
        }
    }
}

/// The names the store does not know yet, in name order.
pub open spec fn unknown_list(s: Seq<ChannelData>, names: Seq<String>) -> Seq<String>
    decreases names.len(),
{
    if names.len() == 0 {
        Seq::empty()
    } else {
        let rest = unknown_list(s, names.drop_last());
        if has_username(s, names.last()@) {
            rest
        } else {
            rest.push(names.last())
        }
    }
}

/// Splits requested names into the records already stored and the names
/// that still need an external lookup, both in request order.
pub fn partition_known(db: &Database, names: &Vec<String>) -> (r: (Vec<ChannelData>, Vec<String>))
    ensures
        r.0@ == known_list(db.channels@, names@),
        r.1@ == unknown_list(db.channels@, names@),
{
    let mut known: Vec<ChannelData> = Vec::new();
    let mut to_fetch: Vec<String> = Vec::new();
    let n = names.len();
    let mut i: usize = 0;
    while i < n
        invariant
            n == names@.len(),
            i <= n,
            known@ == known_list(db.channels@, names@.subrange(0, i as int)),
            to_fetch@ == unknown_list(db.channels@, names@.subrange(0, i as int)),
        decreases n - i,
    {
        proof {
            let pre = names@.subrange(0, i as int);
            let cur = names@.subrange(0, i + 1 as int);
            assert(cur.drop_last() =~= pre);
            assert(cur.last() == names@[i as int]);
        }
        match db.get_channel_by_username(names[i].as_str()) {
            Some(rec) => {
                known.push(rec);
            },
            None => {
                to_fetch.push(names[i].clone());
            },
        }
        i += 1;
    }
    proof {
        assert(names@.subrange(0, n as int) =~= names@);
    }
    (known, to_fetch)
}

/// Resolves usernames to stored channel ids for the ad flow; fails with the
/// first name the store does not know.
pub fn resolve_channel_ids(db: &Database, names: &Vec<String>) -> (r: Result<Vec<i64>, String>)
    ensures
        match r {
            Ok(ids) => {
                &&& ids@.len() == names@.len()
                &&& forall|i: int|
                    0 <= i < names@.len() ==> has_username(db.channels@, names@[i]@)
                &&& forall|i: int|
                    0 <= i < names@.len() ==> ids@[i] == db.channels@[idx_by_username(
                        db.channels@,
                        names@[i]@,
                    )].id
            },
            Err(missing) => exists|i: int|
                0 <= i < names@.len() && !has_username(db.channels@, #[trigger] names@[i]@)
                    && missing == names@[i],
        },
{
    let mut ids: Vec<i64> = Vec::new();
    let n = names.len();
    let mut i: usize = 0;
    while i < n
        invariant
            n == names@.len(),
            i <= n,
            ids@.len() == i,
            forall|j: int| 0 <= j < i ==> has_username(db.channels@, names@[j]@),
            forall|j: int|
                0 <= j < i ==> ids@[j] == db.channels@[idx_by_username(
                    db.channels@,
                    names@[j]@,
                )].id,
        decreases n - i,
    {
        match db.get_channel_by_username(names[i].as_str()) {
            Some(rec) => {
                ids.push(rec.id);
            },
            None => {
                return Err(names[i].clone());
            },
        }
        i += 1;
    }
    Ok(ids)
}

/// The stored descriptions of the named channels: each name is trimmed,
/// looked up, and contributes its description when one is stored.
pub open spec fn descriptions_for(s: Seq<ChannelData>, names: Seq<String>) -> Seq<String>
    decreases names.len(),
{
    if names.len() == 0 {
        Seq::empty()
    } else {
        let rest = descriptions_for(s, names.drop_last());
        let key = trim_view(names.last()@);
        if has_username(s, key) && s[idx_by_username(s, key)].description is Some {
            rest.push(s[idx_by_username(s, key)].description->0)
        } else {
            rest
        }
    }
}

/// Collects the stored descriptions of the named channels, for the ad
/// message generator.
pub fn collect_descriptions(db: &Database, names: &Vec<String>) -> (r: Vec<String>)
    ensures
        r@ == descriptions_for(db.channels@, names@),
{
    let mut out: Vec<String> = Vec::new();
    let n = names.len();
    let mut i: usize = 0;
    while i < n
        invariant
            n == names@.len(),
            i <= n,
            out@ == descriptions_for(db.channels@, names@.subrange(0, i as int)),
        decreases n - i,
    {
        proof {
            let pre = names@.subrange(0, i as int);
            let cur = names@.subrange(0, i + 1 as int);
            assert(cur.drop_last() =~= pre);
            assert(cur.last() == names@[i as int]);
        }
        let key = trim_spaces(names[i].as_str());
        match db.get_channel_by_username(key) {
            Some(rec) => {
                match rec.description {
                    Some(d) => {
                        out.push(d);
                    },
                    None => {},
                }
            },
            None => {},
        }
        i += 1;
    }
    proof {
        assert(names@.subrange(0, n as int) =~= names@);
    }
    out
}

} // verus!
