//! What the server remembers for a while of streams that were chosen.
use vstd::prelude::*;
use crate::ids::{id_text, id_text_len, id_texts_differ, text_of_id, Id};

verus! {

/// How long the stream that a device plays is remembered, in seconds: a day.
pub const PREFERENCE_TTL_SECS: u64 = 86_400;

/// How long the item that a group was seen with is remembered, in seconds: a week.
pub const GROUP_ITEM_TTL_SECS: u64 = 604_800;

/// An entry to be kept in the store for some time.
#[derive(Debug, PartialEq, Eq)]
pub struct StoreWrite {
    pub key: String,
    pub id: Id,
    pub ttl_secs: u64,
}

/// The view of an entry to be kept.
pub struct StoreWriteView {
    pub key: Seq<char>,
    pub id: Id,
    pub ttl_secs: u64,
}

impl View for StoreWrite {
    type V = StoreWriteView;

    open spec fn view(&self) -> StoreWriteView {
        StoreWriteView { key: self.key@, id: self.id, ttl_secs: self.ttl_secs }
    }
}

/// The key under which the stream that a device plays of an item is kept.
pub open spec fn preference_key_text(item_id: Id, device_key: Seq<char>) -> Seq<char> {
    "pstream:"@ + id_text(item_id) + ":"@ + device_key
}

/// The key under which the item is kept that a user saw a group with.
pub open spec fn group_item_key_text(user_id: Id, group_id: Id) -> Seq<char> {
    "gitem:"@ + id_text(user_id) + ":"@ + id_text(group_id)
}

/// The entry for the item that a user saw a group with.
pub open spec fn group_item_write(user_id: Id, group_id: Id, item_id: Id) -> StoreWriteView {
    StoreWriteView {
        key: group_item_key_text(user_id, group_id),
        id: item_id,
        ttl_secs: GROUP_ITEM_TTL_SECS,
    }
}

/// The key under which the stream that a device plays of an item is kept.
pub fn preference_key(item_id: Id, device_key: &str) -> (r: String)
    ensures
        r@ == preference_key_text(item_id, device_key@),
{
    let mut key: String = "pstream:".to_owned();
    key.append(text_of_id(item_id).as_str());
    key.append(":");
    key.append(device_key);
    key
}

/// The key under which the item is kept that a user saw a group with.
pub fn group_item_key(user_id: Id, group_id: Id) -> (r: String)
    ensures
        r@ == group_item_key_text(user_id, group_id),
{
    let mut key: String = "gitem:".to_owned();
    key.append(text_of_id(user_id).as_str());
    key.append(":");
    key.append(text_of_id(group_id).as_str());
    key
}

/// The entries of a store once another was written to it.
pub open spec fn written(entries: Map<Seq<char>, Id>, write: StoreWriteView) -> Map<Seq<char>, Id> {
    entries.insert(write.key, write.id)
}

/// Keys for two users, or for two groups, are never the same, so that what is
/// kept for one never stands in for the other.
pub proof fn group_item_keys_differ(user_a: Id, group_a: Id, user_b: Id, group_b: Id)
    requires
        group_item_key_text(user_a, group_a) == group_item_key_text(user_b, group_b),
    ensures
        user_a == user_b,
        group_a == group_b,
{
    reveal_strlit("gitem:");
    reveal_strlit(":");
    id_text_len(user_a);
    id_text_len(user_b);
    id_text_len(group_a);
    id_text_len(group_b);
    let a = group_item_key_text(user_a, group_a);
    let b = group_item_key_text(user_b, group_b);
    assert(a.subrange(6, 42) == id_text(user_a));
    assert(b.subrange(6, 42) == id_text(user_b));
    assert(a.subrange(43, 79) == id_text(group_a));
    assert(b.subrange(43, 79) == id_text(group_b));
    id_texts_differ(user_a, user_b);
    id_texts_differ(group_a, group_b);
}

/// Keys for two items, or for two devices, are never the same.
pub proof fn preference_keys_differ(
    item_a: Id,
    device_a: Seq<char>,
    item_b: Id,
    device_b: Seq<char>,
)
    requires
        preference_key_text(item_a, device_a) == preference_key_text(item_b, device_b),
    ensures
        item_a == item_b,
        device_a == device_b,
{
    reveal_strlit("pstream:");
    reveal_strlit(":");
    id_text_len(item_a);
    id_text_len(item_b);
    let a = preference_key_text(item_a, device_a);
    let b = preference_key_text(item_b, device_b);
    assert(a.subrange(8, 44) == id_text(item_a));
    assert(b.subrange(8, 44) == id_text(item_b));
    assert(a.skip(45) == device_a);
    assert(b.skip(45) == device_b);
    id_texts_differ(item_a, item_b);
}

/// What is kept of a device's stream never stands in for what is kept of a group.
pub proof fn key_kinds_differ(item: Id, device: Seq<char>, user: Id, group: Id)
    ensures
        preference_key_text(item, device) != group_item_key_text(user, group),
{
    reveal_strlit("pstream:");
    reveal_strlit("gitem:");
    assert(preference_key_text(item, device)[0] == 'p');
    assert(group_item_key_text(user, group)[0] == 'g');
}

/// What was kept of a user's group is what is read of it, and writing it changes
/// nothing that is kept of another user or group.
pub proof fn group_item_reads_back(
    entries: Map<Seq<char>, Id>,
    user: Id,
    group: Id,
    item: Id,
    other_user: Id,
    other_group: Id,
)
    ensures
        written(entries, group_item_write(user, group, item)).dom().contains(
            group_item_key_text(user, group),
        ),
        written(entries, group_item_write(user, group, item))[group_item_key_text(user, group)]
            == item,
        user != other_user || group != other_group ==> {
            let after = written(entries, group_item_write(user, group, item));
            let key = group_item_key_text(other_user, other_group);
            after.dom().contains(key) == entries.dom().contains(key) && after[key] == entries[key]
        },
{
    if group_item_key_text(user, group) == group_item_key_text(other_user, other_group) {
        group_item_keys_differ(user, group, other_user, other_group);
    }
}

} // verus!
