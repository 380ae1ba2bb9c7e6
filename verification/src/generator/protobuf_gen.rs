//! The protobuf emitter: one empty message per entity.

use vstd::prelude::*;
use vstd::string::*;
use crate::generator::par_map;
use crate::ir::{Entity, EntityView, entity_views};
use crate::text::{join, join_spec, views};

verus! {

/// The empty message named `identifier`.
pub open spec fn message_text(identifier: Seq<char>) -> Seq<char> {
    "\nmessage "@ + identifier + " {\n    \n}\n    "@
}

/// The messages of the entities `entities`, in order.
pub open spec fn messages(entities: Seq<EntityView>) -> Seq<Seq<char>> {
    Seq::new(entities.len(), |i: int| message_text(entities[i].name))
}

/// Emits the message of one entity.
pub fn generate_entity(entity: &Entity) -> (out: String)
    ensures
        out@ == message_text(entity@.name),
{
    let mut out = String::from_str("\nmessage ");
    out.append(entity.name.as_str());
    out.append(" {\n    \n}\n    ");
    out
}

/// Emits the protobuf source text for `entities`: exactly one message for
/// each entity, in the order of the entities.
pub fn generate_code(entities: Vec<Entity>) -> (out: String)
    ensures
        out@ == join_spec(messages(entity_views(entities@)), "\n"@),
{
    let emitted = par_map(&entities, generate_entity);
    assert(views(emitted@) =~= messages(entity_views(entities@)));
    join(&emitted, "\n")
}

} // verus!
