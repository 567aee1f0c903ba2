//! The data the scaling logic reads and writes: instances, network
//! configurations and interfaces, and DNS records, each with a mathematical
//! view over character sequences.

use vstd::prelude::*;

verus! {

/// A compute instance, reduced to the fields the scaling logic reads.
#[derive(Clone)]
pub struct LinodeInstance {
    pub id: u64,
    pub label: String,
    pub instance_type: String,
    pub ipv4: Vec<String>,
    pub ipv6: String,
    pub region: String,
    pub tags: Vec<String>,
}

pub struct InstanceView {
    pub id: u64,
    pub label: Seq<char>,
    pub instance_type: Seq<char>,
    pub ipv4: Seq<Seq<char>>,
    pub ipv6: Seq<char>,
    pub region: Seq<char>,
    pub tags: Seq<Seq<char>>,
}

impl View for LinodeInstance {
    type V = InstanceView;

    open spec fn view(&self) -> InstanceView {
        InstanceView {
            id: self.id,
            label: self.label@,
            instance_type: self.instance_type@,
            ipv4: self.ipv4.deep_view(),
            ipv6: self.ipv6@,
            region: self.region@,
            tags: self.tags.deep_view(),
        }
    }
}

impl DeepView for LinodeInstance {
    type V = InstanceView;

    open spec fn deep_view(&self) -> InstanceView {
        self.view()
    }
}

/// One network attachment of a configuration: its purpose (`public` or
/// `vlan`), an optional private address in CIDR notation, and an optional
/// label naming the VLAN group.
#[derive(Clone)]
pub struct Interface {
    pub purpose: String,
    pub ipam_address: Option<String>,
    pub label: Option<String>,
}

pub struct InterfaceView {
    pub purpose: Seq<char>,
    pub ipam_address: Option<Seq<char>>,
    pub label: Option<Seq<char>>,
}

impl View for Interface {
    type V = InterfaceView;

    open spec fn view(&self) -> InterfaceView {
        InterfaceView {
            purpose: self.purpose@,
            ipam_address: self.ipam_address.deep_view(),
            label: self.label.deep_view(),
        }
    }
}

impl DeepView for Interface {
    type V = InterfaceView;

    open spec fn deep_view(&self) -> InterfaceView {
        self.view()
    }
}

/// The interface list sent back to the provider when attaching a new
/// instance to the network.
pub struct Interfaces {
    pub interfaces: Vec<Interface>,
}

/// An instance configuration, reduced to the fields the scaling logic reads.
#[derive(Clone)]
pub struct Configuration {
    pub id: u64,
    pub interfaces: Vec<Interface>,
}

pub struct ConfigurationView {
    pub id: u64,
    pub interfaces: Seq<InterfaceView>,
}

impl View for Configuration {
    type V = ConfigurationView;

    open spec fn view(&self) -> ConfigurationView {
        ConfigurationView { id: self.id, interfaces: self.interfaces.deep_view() }
    }
}

impl DeepView for Configuration {
    type V = ConfigurationView;

    open spec fn deep_view(&self) -> ConfigurationView {
        self.view()
    }
}

/// A DNS record, reduced to the fields the reconciliation logic reads.
#[derive(Clone)]
pub struct DomainRecord {
    pub id: u64,
    pub record_type: String,
    pub name: String,
    pub target: String,
    pub ttl_sec: i32,
}

pub struct RecordView {
    pub id: u64,
    pub record_type: Seq<char>,
    pub name: Seq<char>,
    pub target: Seq<char>,
    pub ttl_sec: i32,
}

impl View for DomainRecord {
    type V = RecordView;

    open spec fn view(&self) -> RecordView {
        RecordView {
            id: self.id,
            record_type: self.record_type@,
            name: self.name@,
            target: self.target@,
            ttl_sec: self.ttl_sec,
        }
    }
}

impl DeepView for DomainRecord {
    type V = RecordView;

    open spec fn deep_view(&self) -> RecordView {
        self.view()
    }
}

/// The body of a request that creates a DNS record.
pub struct DomainRecordOptions {
    pub record_type: String,
    pub name: String,
    pub target: String,
    pub ttl_sec: i32,
}

/// The body of a request that repoints an existing DNS record.
pub struct DomainRecordUpdateOptions {
    pub target: String,
}

/// The body of a request that provisions a new instance.
pub struct LinodeInstanceCreateOptions {
    pub image: String,
    pub tags: Vec<String>,
    pub label: String,
    pub region: String,
    pub instance_type: String,
    pub root_pass: String,
    pub authorized_keys: Vec<String>,
}

} // verus!
