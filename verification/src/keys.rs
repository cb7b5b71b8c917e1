//! The online-store keyspace and freshness channel: the one place where
//! these string formats are defined, so writers and readers cannot drift.

use vstd::prelude::*;

verus! {

/// The default key prefix used when a deployment doesn't configure its own.
pub const DEFAULT_KEY_PREFIX: &'static str = "features";

/// The key holding an entity's current record: `{prefix}:{entity_id}`.
pub open spec fn spec_feature_key(prefix: Seq<char>, entity_id: Seq<char>) -> Seq<char> {
    prefix + seq![':'] + entity_id
}

/// The freshness channel of an entity: `{prefix}:updates:{entity_id}`.
pub open spec fn spec_update_channel(prefix: Seq<char>, entity_id: Seq<char>) -> Seq<char> {
    prefix + seq![':', 'u', 'p', 'd', 'a', 't', 'e', 's', ':'] + entity_id
}

/// The online-store key holding an entity's current `FeatureRecord`.
///
/// `feature_key("features", "e1") == "features:e1"`.
pub fn feature_key(prefix: &str, entity_id: &str) -> (key: String)
    ensures
        key@ == spec_feature_key(prefix@, entity_id@),
        key@ == prefix@ + seq![':'] + entity_id@,
{
    let sep = ":";
    proof {
        reveal_strlit(":");
    }
    let key = String::from_str(prefix);
    let key = key.concat(sep);
    key.concat(entity_id)
}

/// The pub/sub channel a writer publishes to after writing fresh features
/// for an entity, and that a reader subscribes to for freshness updates.
///
/// `update_channel("features", "e1") == "features:updates:e1"`.
pub fn update_channel(prefix: &str, entity_id: &str) -> (channel: String)
    ensures
        channel@ == spec_update_channel(prefix@, entity_id@),
        channel@ == prefix@ + ":updates:"@ + entity_id@,
{
    let sep = ":updates:";
    proof {
        reveal_strlit(":updates:");
    }
    let channel = String::from_str(prefix);
    let channel = channel.concat(sep);
    channel.concat(entity_id)
}

/// A key is the prefix, one `':'`, then the whole entity id: its length is
/// the sum of theirs plus one, and the entity id is read back from it after
/// the separator. So under one prefix, distinct entity ids have distinct keys.
pub proof fn lemma_feature_key_layout(prefix: Seq<char>, entity_id: Seq<char>, other: Seq<char>)
    ensures
        spec_feature_key(prefix, entity_id).len() == prefix.len() + 1 + entity_id.len(),
        spec_feature_key(prefix, entity_id).take(prefix.len() as int) == prefix,
        spec_feature_key(prefix, entity_id)[prefix.len() as int] == ':',
        spec_feature_key(prefix, entity_id).skip((prefix.len() + 1) as int) == entity_id,
        spec_feature_key(prefix, entity_id) == spec_feature_key(prefix, other) ==> entity_id
            == other,
{
    let k = spec_feature_key(prefix, entity_id);
    assert(k.take(prefix.len() as int) =~= prefix);
    assert(k.skip((prefix.len() + 1) as int) =~= entity_id);
    let k2 = spec_feature_key(prefix, other);
    assert(k2.skip((prefix.len() + 1) as int) =~= other);
}

/// A channel is the prefix, `":updates:"`, then the whole entity id: the
/// entity id is read back after those nine characters, so under one prefix
/// distinct entity ids have distinct channels.
pub proof fn lemma_update_channel_layout(prefix: Seq<char>, entity_id: Seq<char>, other: Seq<char>)
    ensures
        spec_update_channel(prefix, entity_id).len() == prefix.len() + 9 + entity_id.len(),
        spec_update_channel(prefix, entity_id).take(prefix.len() as int) == prefix,
        spec_update_channel(prefix, entity_id).subrange(prefix.len() as int, (prefix.len() + 9) as int)
            == ":updates:"@,
        spec_update_channel(prefix, entity_id).skip((prefix.len() + 9) as int) == entity_id,
        spec_update_channel(prefix, entity_id) == spec_update_channel(prefix, other) ==> entity_id
            == other,
{
    reveal_strlit(":updates:");
    let c = spec_update_channel(prefix, entity_id);
    assert(c.take(prefix.len() as int) =~= prefix);
    assert(c.subrange(prefix.len() as int, (prefix.len() + 9) as int) =~= ":updates:"@);
    assert(c.skip((prefix.len() + 9) as int) =~= entity_id);
    let c2 = spec_update_channel(prefix, other);
    assert(c2.skip((prefix.len() + 9) as int) =~= other);
}

} // verus!
