//! The detail view: the record whose details are shown beside the table.
use crate::instance::{InstanceInfo, InstanceView};
use vstd::prelude::*;

verus! {

/// The target of the detail view.
#[derive(Debug)]
pub struct InstanceDetails {
    instance: Option<InstanceInfo>,
}

impl View for InstanceDetails {
    type V = Option<InstanceView>;

    closed spec fn view(&self) -> Option<InstanceView> {
        self.instance.deep_view()
    }
}

impl Default for InstanceDetails {
    /// A detail view without a target.
    fn default() -> (r: InstanceDetails)
        ensures
            r@ is None,
    {
        InstanceDetails { instance: None }
    }
}

impl InstanceDetails {
    /// Makes `instance` the record whose details are shown.
    pub fn set_instance(&mut self, instance: InstanceInfo)
        ensures
            final(self)@ == Some(instance@),
    {
        self.instance = Some(instance);
    }

    /// The record whose details are shown.
    pub fn instance(&self) -> (r: &Option<InstanceInfo>)
        ensures
            r.deep_view() == self@,
    {
        &self.instance
    }
}

} // verus!
