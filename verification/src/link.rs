use vstd::prelude::*;

use crate::errors::LinkError;

verus! {

/// What an invocation can address.
#[derive(Debug)]
pub enum Entity {
    Invalid,
    Test(String),
    Server(String),
    Operation(String, String),
    Component(String),
}

/// The namespace that a link call from `origin` to `target` would loop
/// back into: that of `target` when both are operations of one namespace.
pub open spec fn circular_namespace(origin: Entity, target: Entity) -> Option<Seq<char>> {
    match (origin, target) {
        (Entity::Operation(origin_ns, _), Entity::Operation(target_ns, _)) => {
            if origin_ns@ == target_ns@ {
                Some(target_ns@)
            } else {
                None
            }
        },
        _ => None,
    }
}

/// Checks that a link call from `origin` to `target` does not go back into
/// the component that makes it: an operation may not call, through a link,
/// an operation of its own namespace.
pub fn check_link(origin: &Entity, target: &Entity) -> (r: Result<(), LinkError>)
    ensures
        match circular_namespace(*origin, *target) {
            Some(ns) => r matches Err(LinkError::Circular(s)) && s@ == ns,
            None => r is Ok,
        },
        origin matches Entity::Operation(origin_ns, _) ==> (target matches Entity::Operation(target_ns, _) ==> (
        origin_ns@ == target_ns@ ==> (r matches Err(LinkError::Circular(s)) && s@ == target_ns@))),
        origin matches Entity::Operation(origin_ns, _) ==> (target matches Entity::Operation(target_ns, _) ==> (
        origin_ns@ != target_ns@ ==> r is Ok)),
        !(origin is Operation) ==> r is Ok,
        !(target is Operation) ==> r is Ok,
{
    if let Entity::Operation(origin_ns, _) = origin {
        if let Entity::Operation(target_ns, _) = target {
            if target_ns.eq(origin_ns) {
                return Err(LinkError::Circular(target_ns.clone()));
            }
        }
    }
    Ok(())
}

} // verus!
