//! The record of one compute instance, as fetched for a region.
use vstd::prelude::*;

verus! {

/// One compute instance. A record is not changed after it was made.
#[derive(Debug)]
pub struct InstanceInfo {
    instance_id: String,
    name: String,
    private_ip: String,
    public_ip: String,
    region: String,
    last_access: Option<u64>,
}

/// What an [`InstanceInfo`] holds, as plain values.
pub struct InstanceView {
    pub instance_id: Seq<char>,
    pub name: Seq<char>,
    pub private_ip: Seq<char>,
    pub public_ip: Seq<char>,
    pub region: Seq<char>,
    /// Epoch seconds of the last connection, if there was one.
    pub last_access: Option<u64>,
}

impl View for InstanceInfo {
    type V = InstanceView;

    closed spec fn view(&self) -> InstanceView {
        InstanceView {
            instance_id: self.instance_id@,
            name: self.name@,
            private_ip: self.private_ip@,
            public_ip: self.public_ip@,
            region: self.region@,
            last_access: self.last_access,
        }
    }
}

impl DeepView for InstanceInfo {
    type V = InstanceView;

    open spec fn deep_view(&self) -> InstanceView {
        self@
    }
}

impl Clone for InstanceInfo {
    fn clone(&self) -> (r: Self)
        ensures
            r == *self,
    {
        InstanceInfo {
            instance_id: self.instance_id.clone(),
            name: self.name.clone(),
            private_ip: self.private_ip.clone(),
            public_ip: self.public_ip.clone(),
            region: self.region.clone(),
            last_access: self.last_access,
        }
    }
}

impl InstanceInfo {
    /// A record of the given values.
    pub fn new(
        instance_id: String,
        name: String,
        private_ip: String,
        public_ip: String,
        region: String,
        last_access: Option<u64>,
    ) -> (r: InstanceInfo)
        ensures
            r@ == (InstanceView {
                instance_id: instance_id@,
                name: name@,
                private_ip: private_ip@,
                public_ip: public_ip@,
                region: region@,
                last_access,
            }),
    {
        InstanceInfo { instance_id, name, private_ip, public_ip, region, last_access }
    }

    pub fn get_instance_id(&self) -> (r: String)
        ensures
            r@ == self@.instance_id,
    {
        self.instance_id.clone()
    }

    pub fn get_name(&self) -> (r: String)
        ensures
            r@ == self@.name,
    {
        self.name.clone()
    }

    pub fn get_private_ip(&self) -> (r: String)
        ensures
            r@ == self@.private_ip,
    {
        self.private_ip.clone()
    }

    pub fn get_public_ip(&self) -> (r: String)
        ensures
            r@ == self@.public_ip,
    {
        self.public_ip.clone()
    }

    pub fn get_region(&self) -> (r: String)
        ensures
            r@ == self@.region,
    {
        self.region.clone()
    }

    pub fn get_last_access(&self) -> (r: Option<u64>)
        ensures
            r == self@.last_access,
    {
        self.last_access
    }

    /// The same record with another time of last access.
    pub fn with_last_access(self, last_access: Option<u64>) -> (r: InstanceInfo)
        ensures
            r@ == (InstanceView { last_access, ..self@ }),
    {
        InstanceInfo { last_access, ..self }
    }
}

} // verus!
