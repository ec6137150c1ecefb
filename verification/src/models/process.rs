//! Process states and the kinds of services a process can be recognised as.
use vstd::prelude::*;
use crate::localization::Language;

verus! {

/// Column by which the process table is ordered.
#[derive(Clone, Copy, Debug, Default, PartialEq, Eq, Structural)]
pub enum ProcessSortColumn {
    #[default]
    Cpu,
    Memory,
    DiskRead,
    DiskWrite,
    NetRx,
    NetTx,
    Name,
}

/// Scheduling state of a process.
#[derive(Clone, Copy, Debug, Default, PartialEq, Eq, Structural)]
pub enum ProcessStatus {
    Running,
    Sleeping,
    Stopped,
    Zombie,
    #[default]
    Other,
}

pub open spec fn process_status_label(s: ProcessStatus, lang: Language) -> Seq<char> {
    match lang {
        Language::Spanish => match s {
            ProcessStatus::Running => "ejecutando"@,
            ProcessStatus::Sleeping => "durmiendo"@,
            ProcessStatus::Stopped => "parado"@,
            ProcessStatus::Zombie => "zombi"@,
            ProcessStatus::Other => "otro"@,
        },
        Language::English => match s {
            ProcessStatus::Running => "running"@,
            ProcessStatus::Sleeping => "sleeping"@,
            ProcessStatus::Stopped => "stopped"@,
            ProcessStatus::Zombie => "zombie"@,
            ProcessStatus::Other => "other"@,
        },
    }
}

impl ProcessStatus {
    /// The state's name in the given language.
    pub fn to_localized_str(self, lang: Language) -> (r: &'static str)
        ensures
            r@ == process_status_label(self, lang),
    {
        match lang {
            Language::Spanish => match self {
                ProcessStatus::Running => "ejecutando",
                ProcessStatus::Sleeping => "durmiendo",
                ProcessStatus::Stopped => "parado",
                ProcessStatus::Zombie => "zombi",
                ProcessStatus::Other => "otro",
            },
            Language::English => match self {
                ProcessStatus::Running => "running",
                ProcessStatus::Sleeping => "sleeping",
                ProcessStatus::Stopped => "stopped",
                ProcessStatus::Zombie => "zombie",
                ProcessStatus::Other => "other",
            },
        }
    }
}

/// Database engines that can be monitored.
#[derive(Clone, Copy, Debug, PartialEq, Eq, Structural)]
pub enum DatabaseType {
    PostgreSQL,
    MySqlMariaDb,
}

/// HTTP reverse proxies that can be monitored.
#[derive(Clone, Copy, Debug, PartialEq, Eq, Structural)]
pub enum HttpProxyType {
    Traefik,
    Nginx,
    Apache,
}

/// JavaScript runtimes that can be monitored.
#[derive(Clone, Copy, Debug, PartialEq, Eq, Structural)]
pub enum NodeRuntimeType {
    Node,
    Bun,
    Deno,
}

/// Message brokers that can be monitored.
#[derive(Clone, Copy, Debug, PartialEq, Eq, Structural)]
pub enum MessageBrokerType {
    Redpanda,
    Kafka,
}

pub open spec fn node_runtime_label(t: NodeRuntimeType) -> Seq<char> {
    match t {
        NodeRuntimeType::Node => "Node.js"@,
        NodeRuntimeType::Bun => "Bun"@,
        NodeRuntimeType::Deno => "Deno"@,
    }
}

impl NodeRuntimeType {
    /// Display name of the runtime.
    pub fn as_str(self) -> (r: &'static str)
        ensures
            r@ == node_runtime_label(self),
    {
        match self {
            NodeRuntimeType::Node => "Node.js",
            NodeRuntimeType::Bun => "Bun",
            NodeRuntimeType::Deno => "Deno",
        }
    }
}

} // verus!
