use super::NodePtr;
use crate::node::NodeId;
use vstd::prelude::*;

verus! {

/// The table from ids to handles, kept in a `hashbrown::HashMap` under the
/// number of each id. Verus does not look into it; what it holds goes by the
/// name [`entries`].
#[verifier::external_body]
pub struct Registry {
    map: hashbrown::HashMap<u32, NodePtr>,
}

/// The entries that a table holds.
pub uninterp spec fn entries(registry: Registry) -> Map<NodeId, NodePtr>;

/// `hashbrown::HashMap::new`: the new table holds nothing.
#[verifier::external_body]
pub(super) fn registry_new() -> (table: Registry)
    ensures
        entries(table) == (Map::<NodeId, NodePtr>::empty()),
{
    Registry { map: hashbrown::HashMap::new() }
}

/// `hashbrown::HashMap::insert`: afterwards the table maps `id` to `node`,
/// whether or not it held `id` before, and is otherwise as it was.
#[verifier::external_body]
pub(super) fn registry_insert(registry: &mut Registry, id: NodeId, node: NodePtr)
    ensures
        entries(*final(registry)) == entries(*old(registry)).insert(id, node),
{
    registry.map.insert(id.0, node);
}

/// `hashbrown::HashMap::get`: the handle stored under `id`, if there is one.
#[verifier::external_body]
pub(super) fn registry_get(registry: &Registry, id: NodeId) -> (node: Option<NodePtr>)
    ensures
        node == if entries(*registry).contains_key(id) {
            Some(entries(*registry)[id])
        } else {
            None
        },
{
    registry.map.get(&id.0).copied()
}

/// `hashbrown::HashMap::remove`: the handle stored under `id`, if there is one,
/// which leaves the table; the other entries stay.
#[verifier::external_body]
pub(super) fn registry_remove(registry: &mut Registry, id: NodeId) -> (node: Option<NodePtr>)
    ensures
        node == if entries(*old(registry)).contains_key(id) {
            Some(entries(*old(registry))[id])
        } else {
            None
        },
        entries(*final(registry)) == entries(*old(registry)).remove(id),
{
    registry.map.remove(&id.0)
}

} // verus!
