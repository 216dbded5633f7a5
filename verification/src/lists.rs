//! The bounded lists of the recorder's state, which are `arrayvec::ArrayVec`s.
//!
//! Each kind of list has a name for what it holds, in order, and the functions
//! below say what the methods of `ArrayVec` do to it.
use arrayvec::ArrayVec;
use vstd::prelude::*;

use crate::types::{
    AttributeDesc, ColorTargetDesc, TextureView, MAX_COLOR_TARGETS, MAX_INVALIDATED,
    MAX_VERTEX_ATTRIBUTES,
};

verus! {

/// `arrayvec::ArrayVec`, a list of at most `CAP` items.
#[verifier::external_type_specification]
#[verifier::external_body]
#[verifier::reject_recursive_types(T)]
pub struct ExArrayVec<T, const CAP: usize>(ArrayVec<T, CAP>);

/// The vertex attributes of the pipelines that were set.
pub type Attributes = ArrayVec<AttributeDesc, MAX_VERTEX_ATTRIBUTES>;

/// The color targets of the pipeline that was set last.
pub type ColorTargets = ArrayVec<ColorTargetDesc, MAX_COLOR_TARGETS>;

/// The attachments to resolve at the end of the pass, each with its destination.
pub type Resolves = ArrayVec<(u32, TextureView), MAX_COLOR_TARGETS>;

/// The attachments to discard at the end of the pass.
pub type Invalidated = ArrayVec<u32, MAX_INVALIDATED>;

/// The vertex attributes that a list holds, first to last.
pub uninterp spec fn attributes_of(list: ArrayVec<AttributeDesc, MAX_VERTEX_ATTRIBUTES>) -> Seq<
    AttributeDesc,
>;

/// Calls `ArrayVec::new`: the list is empty.
#[verifier::external_body]
pub(crate) fn attributes_new() -> (list: Attributes)
    ensures
        attributes_of(list) == Seq::<AttributeDesc>::empty(),
{
    ArrayVec::new()
}

/// Calls `ArrayVec::push`, which puts the item last and panics where the list
/// is full.
#[verifier::external_body]
pub(crate) fn attributes_push(list: &mut Attributes, attribute: AttributeDesc)
    requires
        attributes_of(*old(list)).len() < MAX_VERTEX_ATTRIBUTES,
    ensures
        attributes_of(*final(list)) == attributes_of(*old(list)).push(attribute),
{
    list.push(attribute)
}

/// Calls `ArrayVec::clear`, which removes every item.
#[verifier::external_body]
pub(crate) fn attributes_clear(list: &mut Attributes)
    ensures
        attributes_of(*final(list)) == Seq::<AttributeDesc>::empty(),
{
    list.clear()
}

/// Calls `ArrayVec::as_slice`: the items, in order.
#[verifier::external_body]
pub(crate) fn attributes_as_slice(list: &Attributes) -> (items: &[AttributeDesc])
    ensures
        items@ == attributes_of(*list),
{
    list.as_slice()
}

/// The color targets that a list holds, first to last.
pub uninterp spec fn color_targets_of(list: ArrayVec<ColorTargetDesc, MAX_COLOR_TARGETS>) -> Seq<
    ColorTargetDesc,
>;

/// Calls `ArrayVec::new`: the list is empty.
#[verifier::external_body]
pub(crate) fn color_targets_new() -> (list: ColorTargets)
    ensures
        color_targets_of(list) == Seq::<ColorTargetDesc>::empty(),
{
    ArrayVec::new()
}

/// Calls `ArrayVec::push`, which puts the item last and panics where the list
/// is full.
#[verifier::external_body]
pub(crate) fn color_targets_push(list: &mut ColorTargets, target: ColorTargetDesc)
    requires
        color_targets_of(*old(list)).len() < MAX_COLOR_TARGETS,
    ensures
        color_targets_of(*final(list)) == color_targets_of(*old(list)).push(target),
{
    list.push(target)
}

/// Calls `ArrayVec::clear`, which removes every item.
#[verifier::external_body]
pub(crate) fn color_targets_clear(list: &mut ColorTargets)
    ensures
        color_targets_of(*final(list)) == Seq::<ColorTargetDesc>::empty(),
{
    list.clear()
}

/// Calls `ArrayVec::as_slice`: the items, in order.
#[verifier::external_body]
pub(crate) fn color_targets_as_slice(list: &ColorTargets) -> (items: &[ColorTargetDesc])
    ensures
        items@ == color_targets_of(*list),
{
    list.as_slice()
}

/// The attachments to resolve that a list holds, first to last.
pub uninterp spec fn resolves_of(list: ArrayVec<(u32, TextureView), MAX_COLOR_TARGETS>) -> Seq<
    (u32, TextureView),
>;

/// Calls `ArrayVec::new`: the list is empty.
#[verifier::external_body]
pub(crate) fn resolves_new() -> (list: Resolves)
    ensures
        resolves_of(list) == Seq::<(u32, TextureView)>::empty(),
{
    ArrayVec::new()
}

/// Calls `ArrayVec::push`, which puts the item last and panics where the list
/// is full.
#[verifier::external_body]
pub(crate) fn resolves_push(list: &mut Resolves, resolve: (u32, TextureView))
    requires
        resolves_of(*old(list)).len() < MAX_COLOR_TARGETS,
    ensures
        resolves_of(*final(list)) == resolves_of(*old(list)).push(resolve),
{
    list.push(resolve)
}

/// Calls `ArrayVec::clear`, which removes every item.
#[verifier::external_body]
pub(crate) fn resolves_clear(list: &mut Resolves)
    ensures
        resolves_of(*final(list)) == Seq::<(u32, TextureView)>::empty(),
{
    list.clear()
}

/// Calls `ArrayVec::drain` on the whole list, which removes every item and
/// hands them out in order.
#[verifier::external_body]
pub(crate) fn resolves_drain(list: &mut Resolves) -> (items: Vec<(u32, TextureView)>)
    ensures
        items@ == resolves_of(*old(list)),
        resolves_of(*final(list)) == Seq::<(u32, TextureView)>::empty(),
{
    list.drain(..).collect()
}

/// The attachments to discard that a list holds, first to last.
pub uninterp spec fn invalidated_of(list: ArrayVec<u32, MAX_INVALIDATED>) -> Seq<u32>;

/// Calls `ArrayVec::new`: the list is empty.
#[verifier::external_body]
pub(crate) fn invalidated_new() -> (list: Invalidated)
    ensures
        invalidated_of(list) == Seq::<u32>::empty(),
{
    ArrayVec::new()
}

/// Calls `ArrayVec::push`, which puts the item last and panics where the list
/// is full.
#[verifier::external_body]
pub(crate) fn invalidated_push(list: &mut Invalidated, attachment: u32)
    requires
        invalidated_of(*old(list)).len() < MAX_INVALIDATED,
    ensures
        invalidated_of(*final(list)) == invalidated_of(*old(list)).push(attachment),
{
    list.push(attachment)
}

/// Calls `ArrayVec::clear`, which removes every item.
#[verifier::external_body]
pub(crate) fn invalidated_clear(list: &mut Invalidated)
    ensures
        invalidated_of(*final(list)) == Seq::<u32>::empty(),
{
    list.clear()
}

/// Calls `ArrayVec::as_slice`: the items, in order.
#[verifier::external_body]
pub(crate) fn invalidated_as_slice(list: &Invalidated) -> (items: &[u32])
    ensures
        items@ == invalidated_of(*list),
{
    list.as_slice()
}

/// Calls `ArrayVec::clone`, which clones the items in order; a cloned integer
/// is the same integer.
#[verifier::external_body]
pub(crate) fn invalidated_clone(list: &Invalidated) -> (copy: Invalidated)
    ensures
        invalidated_of(copy) == invalidated_of(*list),
{
    list.clone()
}

} // verus!
