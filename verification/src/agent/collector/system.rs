//! System collector: names and headers of the memory and swap metrics.
use vstd::prelude::*;

verus! {

/// Default interval, in seconds, between two system readings.
pub fn default_interval() -> (seconds: u64)
    ensures
        seconds == 10,
{
    10
}

/// The system metrics the collector reports.
#[derive(Clone, Copy, Debug, PartialEq, Eq, Hash, Structural)]
pub enum AgentMetricName {
    MemoryTotal,
    MemoryUsed,
    MemoryRatio,
    SwapTotal,
    SwapUsed,
    SwapRatio,
}

/// The name under which a metric is reported.
pub open spec fn metric_name_text(name: AgentMetricName) -> Seq<char> {
    match name {
        AgentMetricName::MemoryTotal => "system.memory.total"@,
        AgentMetricName::MemoryUsed => "system.memory.used"@,
        AgentMetricName::MemoryRatio => "system.memory.ratio"@,
        AgentMetricName::SwapTotal => "system.swap.total"@,
        AgentMetricName::SwapUsed => "system.swap.used"@,
        AgentMetricName::SwapRatio => "system.swap.ratio"@,
    }
}

impl AgentMetricName {
    pub fn as_str(&self) -> (text: &'static str)
        ensures
            text@ == metric_name_text(*self),
    {
        match self {
            AgentMetricName::MemoryTotal => "system.memory.total",
            AgentMetricName::MemoryUsed => "system.memory.used",
            AgentMetricName::MemoryRatio => "system.memory.ratio",
            AgentMetricName::SwapTotal => "system.swap.total",
            AgentMetricName::SwapUsed => "system.swap.used",
            AgentMetricName::SwapRatio => "system.swap.ratio",
        }
    }
}

/// The name of the host the agent runs on.
#[derive(Clone, Debug, Hash)]
pub struct Hostname(pub String);

#[derive(Clone, Debug, Hash)]
pub struct AgentMetricTags {
    pub hostname: Hostname,
}

/// A system metric's header: its name and the host's name.
#[derive(Clone, Debug, Hash)]
pub struct AgentMetricHeader {
    pub name: AgentMetricName,
    pub tags: AgentMetricTags,
}

impl AgentMetricHeader {
    pub fn new(name: AgentMetricName, hostname: Hostname) -> (header: Self)
        ensures
            header.name == name,
            header.tags.hostname == hostname,
    {
        AgentMetricHeader { name, tags: AgentMetricTags { hostname } }
    }
}

} // verus!
