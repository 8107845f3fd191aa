//! Per-core CPU samples and the figures read from them.

use crate::text::unknown_text;
use vstd::prelude::*;

verus! {

/// One CPU core as it was seen when the host was last sampled. The usage is
/// the bit pattern of an IEEE 754 single-precision percentage.
#[derive(Debug, Clone, PartialEq, Eq)]
pub struct CoreSample {
    pub brand: String,
    pub usage_bits: u32,
    pub frequency: u64,
}

/// Mathematical content of a [`CoreSample`].
pub struct CoreModel {
    pub brand: Seq<char>,
    pub usage_bits: u32,
    pub frequency: u64,
}

impl View for CoreSample {
    type V = CoreModel;

    open spec fn view(&self) -> CoreModel {
        CoreModel { brand: self.brand@, usage_bits: self.usage_bits, frequency: self.frequency }
    }
}

/// The cores of a vector, each taken by its view.
pub open spec fn core_models(cores: Seq<CoreSample>) -> Seq<CoreModel> {
    cores.map_values(|c: CoreSample| c@)
}

/// The usage of each core, in order.
pub open spec fn usages(cores: Seq<CoreModel>) -> Seq<u32> {
    cores.map_values(|c: CoreModel| c.usage_bits)
}

/// The frequency of each core in MHz, in order.
pub open spec fn frequencies(cores: Seq<CoreModel>) -> Seq<u64> {
    cores.map_values(|c: CoreModel| c.frequency)
}

/// The brand of the first core, or the placeholder where no core is visible.
pub open spec fn model_name(cores: Seq<CoreModel>) -> Seq<char> {
    if cores.len() > 0 {
        cores[0].brand
    } else {
        unknown_text()
    }
}

/// The usage of each core, in order.
pub fn core_usages(cores: &Vec<CoreSample>) -> (list: Vec<u32>)
    ensures
        list@ == usages(core_models(cores@)),
{
    let mut list: Vec<u32> = Vec::new();
    let mut i: usize = 0;
    while i < cores.len()
        invariant
            i <= cores.len(),
            list@ == usages(core_models(cores@)).take(i as int),
        decreases cores.len() - i,
    {
        list.push(cores[i].usage_bits);
        i += 1;
    }
    list
}

/// The frequency of each core in MHz, in order.
pub fn core_frequencies(cores: &Vec<CoreSample>) -> (list: Vec<u64>)
    ensures
        list@ == frequencies(core_models(cores@)),
{
    let mut list: Vec<u64> = Vec::new();
    let mut i: usize = 0;
    while i < cores.len()
        invariant
            i <= cores.len(),
            list@ == frequencies(core_models(cores@)).take(i as int),
        decreases cores.len() - i,
    {
        list.push(cores[i].frequency);
        i += 1;
    }
    list
}

/// The CPU model: the brand of the first core, or the placeholder where no
/// core is visible.
pub fn core_model_name(cores: &Vec<CoreSample>) -> (name: String)
    ensures
        name@ == model_name(core_models(cores@)),
{
    if cores.len() > 0 {
        cores[0].brand.clone()
    } else {
        "<unknown>".to_owned()
    }
}

} // verus!
