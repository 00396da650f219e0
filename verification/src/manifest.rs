use vstd::prelude::*;

verus! {

/// One layer descriptor of a manifest: its content-addressed digest.
#[derive(Clone, Debug)]
pub struct LayerMetadata {
    pub digest: String,
}

/// The decoded body of a manifest response: the ordered list of layer
/// descriptors. The order is the registry's, base layer first, and it
/// determines the order in which layers are applied to the root.
#[derive(Debug)]
pub struct RegistryResponse {
    pub layers: Vec<LayerMetadata>,
}

impl RegistryResponse {
    /// The layer digests, in the manifest's order.
    pub fn get_layers(&self) -> (r: Vec<String>)
        ensures
            r@.len() == self.layers@.len(),
            forall|i: int| 0 <= i < r@.len() ==> r@[i]@ == self.layers@[i].digest@,
    {
        let mut out: Vec<String> = Vec::new();
        let mut k: usize = 0;
        while k < self.layers.len()
            invariant
                0 <= k <= self.layers@.len(),
                out@.len() == k,
                forall|i: int| 0 <= i < k ==> out@[i]@ == self.layers@[i].digest@,
            decreases self.layers@.len() - k,
        {
            let d = self.layers[k].digest.clone();
            out.push(d);
            k = k + 1;
        }
        out
    }
}

} // verus!
