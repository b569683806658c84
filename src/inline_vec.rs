//! The inline-capacity vectors of the `smallvec` crate, as the codec uses them.

use vstd::prelude::*;
use smallvec::SmallVec;
use crate::priority::Priority;
use crate::settings::{Setting, SettingId};

verus! {

/// Priorities in a `SmallVec` with inline room for eight.
#[verifier::external_body]
#[derive(Debug, PartialEq, Eq, Hash)]
pub struct PriorityList {
    items: SmallVec<[Priority; 8]>,
}

impl Clone for PriorityList {
    /// Relies on `SmallVec::clone`: the same items, in order.
    #[verifier::external_body]
    fn clone(&self) -> (r: PriorityList)
        ensures
            priority_items(r) == priority_items(*self),
    {
        PriorityList { items: self.items.clone() }
    }
}

/// The items of a list of priorities, in order.
pub uninterp spec fn priority_items(v: PriorityList) -> Seq<Priority>;

/// Relies on `SmallVec::new`: a vector with no items.
#[verifier::external_body]
pub(crate) fn priority_vec_new() -> (r: PriorityList)
    ensures
        priority_items(r) == Seq::<Priority>::empty(),
{
    PriorityList { items: SmallVec::new() }
}

/// Relies on `SmallVec::push`: appends one item; it panics only when the length
/// would overflow `usize`.
#[verifier::external_body]
pub(crate) fn priority_vec_push(v: &mut PriorityList, p: Priority)
    requires
        priority_items(*old(v)).len() < usize::MAX,
    ensures
        priority_items(*final(v)) == priority_items(*old(v)).push(p),
{
    v.items.push(p)
}

impl PriorityList {
    /// Relies on `SmallVec::as_slice`: the items, in order.
    #[verifier::external_body]
    pub(crate) fn as_slice(&self) -> (r: &[Priority])
        ensures
            r@ == priority_items(*self),
    {
        self.items.as_slice()
    }
}

/// Relies on `SmallVec::into_vec`: the same items, in order, in a `Vec`.
#[verifier::external_body]
pub(crate) fn priority_vec_into_vec(v: PriorityList) -> (r: Vec<Priority>)
    ensures
        r@ == priority_items(v),
{
    v.items.into_vec()
}

/// Setting identifiers in a `SmallVec` with inline room for eight.
#[verifier::external_body]
#[derive(Debug, PartialEq, Eq, Hash)]
pub struct SettingIdList {
    items: SmallVec<[SettingId; 8]>,
}

/// The items of a list of setting identifiers, in order.
pub uninterp spec fn setting_id_items(v: SettingIdList) -> Seq<SettingId>;

impl Clone for SettingIdList {
    /// Relies on `SmallVec::clone`: the same items, in order.
    #[verifier::external_body]
    fn clone(&self) -> (r: SettingIdList)
        ensures
            setting_id_items(r) == setting_id_items(*self),
    {
        SettingIdList { items: self.items.clone() }
    }
}

impl SettingIdList {
    /// Relies on `SmallVec::new`: a vector with no items.
    #[verifier::external_body]
    pub(crate) fn new() -> (r: SettingIdList)
        ensures
            setting_id_items(r) == Seq::<SettingId>::empty(),
    {
        SettingIdList { items: SmallVec::new() }
    }

    /// Relies on `SmallVec::push`: appends one item; it panics only when the
    /// length would overflow `usize`.
    #[verifier::external_body]
    pub(crate) fn push(&mut self, item: SettingId)
        requires
            setting_id_items(*old(self)).len() < usize::MAX,
        ensures
            setting_id_items(*final(self)) == setting_id_items(*old(self)).push(item),
    {
        self.items.push(item)
    }

    /// Relies on `SmallVec::as_slice`: the items, in order.
    #[verifier::external_body]
    pub(crate) fn as_slice(&self) -> (r: &[SettingId])
        ensures
            r@ == setting_id_items(*self),
    {
        self.items.as_slice()
    }
}

/// Settings in a `SmallVec` with inline room for eight.
#[verifier::external_body]
#[derive(Debug, PartialEq, Eq, Hash)]
pub struct SettingList {
    items: SmallVec<[Setting; 8]>,
}

/// The items of a list of settings, in order.
pub uninterp spec fn setting_items(v: SettingList) -> Seq<Setting>;

impl Clone for SettingList {
    /// Relies on `SmallVec::clone`: the same items, in order.
    #[verifier::external_body]
    fn clone(&self) -> (r: SettingList)
        ensures
            setting_items(r) == setting_items(*self),
    {
        SettingList { items: self.items.clone() }
    }
}

impl SettingList {
    /// Relies on `SmallVec::new`: a vector with no items.
    #[verifier::external_body]
    pub(crate) fn new() -> (r: SettingList)
        ensures
            setting_items(r) == Seq::<Setting>::empty(),
    {
        SettingList { items: SmallVec::new() }
    }

    /// Relies on `SmallVec::push`: appends one item; it panics only when the
    /// length would overflow `usize`.
    #[verifier::external_body]
    pub(crate) fn push(&mut self, item: Setting)
        requires
            setting_items(*old(self)).len() < usize::MAX,
        ensures
            setting_items(*final(self)) == setting_items(*old(self)).push(item),
    {
        self.items.push(item)
    }

    /// Relies on `SmallVec::as_slice`: the items, in order.
    #[verifier::external_body]
    pub(crate) fn as_slice(&self) -> (r: &[Setting])
        ensures
            r@ == setting_items(*self),
    {
        self.items.as_slice()
    }
}

} // verus!
