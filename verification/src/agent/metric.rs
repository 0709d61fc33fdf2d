//! Headers of the agent's own metrics and their hash, by which caches tell
//! headers apart.
use crate::agent::collector::system;
use std::hash::{DefaultHasher, Hasher};
use vstd::arithmetic::power::pow;
use vstd::endian::endianness;
use vstd::prelude::*;
use vstd::std_specs::hash::DefaultHasherAdditionalSpecFns;
use vstd::utf8::encode_utf8;

verus! {

/// The discriminant of a system metric's name: its position among the
/// variants.
pub open spec fn name_code(name: system::AgentMetricName) -> u8 {
    match name {
        system::AgentMetricName::MemoryTotal => 0,
        system::AgentMetricName::MemoryUsed => 1,
        system::AgentMetricName::MemoryRatio => 2,
        system::AgentMetricName::SwapTotal => 3,
        system::AgentMetricName::SwapUsed => 4,
        system::AgentMetricName::SwapRatio => 5,
    }
}

fn metric_name_code(name: &system::AgentMetricName) -> (code: u8)
    ensures
        code == name_code(*name),
{
    match name {
        system::AgentMetricName::MemoryTotal => 0,
        system::AgentMetricName::MemoryUsed => 1,
        system::AgentMetricName::MemoryRatio => 2,
        system::AgentMetricName::SwapTotal => 3,
        system::AgentMetricName::SwapUsed => 4,
        system::AgentMetricName::SwapRatio => 5,
    }
}

/// The bytes of `x` in the machine's byte order, as many as a `usize` has:
/// byte `i` holds the digit of weight `256^i` on a little-endian machine, and
/// the digit of weight `256^(width - 1 - i)` on a big-endian one.
pub open spec fn native_usize_bytes(x: usize) -> Seq<u8> {
    let width = (usize::BITS / 8) as int;
    Seq::new(
        width as nat,
        |i: int|
            {
                let weight = if endianness() is Little {
                    i
                } else {
                    width - 1 - i
                };
                ((x as int / pow(256, weight as nat)) % 256) as u8
            },
    )
}

/// `usize::to_ne_bytes`: the memory representation of `x`, in the machine's
/// byte order.
#[verifier::external_body]
fn usize_native_bytes(x: usize) -> (bytes: Vec<u8>)
    ensures
        bytes@ == native_usize_bytes(x),
{
    x.to_ne_bytes().to_vec()
}

/// What is written to the hasher for a header, write by write, as its derived
/// `Hash` writes it: the discriminant of the metric's name as a `usize` in
/// the machine's byte order, the UTF-8 bytes of the host's name, then the
/// byte `0xff` that ends a string.
pub open spec fn hash_input(header: AgentMetricHeader) -> Seq<Seq<u8>> {
    match header {
        AgentMetricHeader::System(inner) => seq![
            native_usize_bytes(name_code(inner.name) as usize),
            encode_utf8(inner.tags.hostname.0@),
            seq![0xffu8],
        ],
    }
}

/// The header of a metric, by the collector that produced it.
#[derive(Debug)]
pub enum AgentMetricHeader {
    System(system::AgentMetricHeader),
}

impl AgentMetricHeader {
    /// The hash of the inner header alone, with a default hasher: equal
    /// headers hash alike, in every call.
    pub fn compute_hash(&self) -> (hash: u64)
        ensures
            hash == DefaultHasher::spec_finish(hash_input(*self)),
    {
        let mut state = DefaultHasher::new();
        match self {
            AgentMetricHeader::System(inner) => {
                let discriminant = usize_native_bytes(metric_name_code(&inner.name) as usize);
                let discriminant_bytes = discriminant.as_slice();
                state.write(discriminant_bytes);
                let host = inner.tags.hostname.0.as_str();
                let host_bytes = host.as_bytes();
                assert(host_bytes@ == encode_utf8(inner.tags.hostname.0@));
                state.write(host_bytes);
                let mut end: Vec<u8> = Vec::new();
                end.push(0xffu8);
                let end_bytes = end.as_slice();
                assert(end_bytes@ =~= seq![0xffu8]);
                state.write(end_bytes);
                assert(state@ =~= hash_input(*self));
            },
        }
        state.finish()
    }
}

impl From<system::AgentMetricHeader> for AgentMetricHeader {
    fn from(value: system::AgentMetricHeader) -> (header: Self)
        ensures
            header == AgentMetricHeader::System(value),
    {
        AgentMetricHeader::System(value)
    }
}

impl vstd::std_specs::convert::FromSpecImpl<system::AgentMetricHeader> for AgentMetricHeader {
    open spec fn obeys_from_spec() -> bool {
        true
    }

    open spec fn from_spec(v: system::AgentMetricHeader) -> Self {
        AgentMetricHeader::System(v)
    }
}

} // verus!
