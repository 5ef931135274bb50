//! A signature: a byte pattern with a mask of the same length, searched for
//! in a byte region or in the image of a resolved module.

use vstd::prelude::*;
use crate::locator::ModuleInfo;
use crate::pattern::{scan_outcome, sig_scan};

verus! {

/// A byte pattern and its mask. The two always have the same length, and
/// neither changes once the signature is built.
#[derive(Debug)]
pub struct Signature {
    pattern: Vec<u8>,
    mask: Vec<u8>,
}

/// What a search of a module's image may answer: the address of the lowest
/// offset at which the signature fits, counted from the module's base, or
/// nothing where it fits nowhere.
pub open spec fn address_outcome(
    image: Seq<u8>,
    base: usize,
    pattern: Seq<u8>,
    mask: Seq<u8>,
    r: Option<usize>,
) -> bool {
    match r {
        Some(address) => {
            &&& base <= address
            &&& scan_outcome(image, pattern, mask, Some((address - base) as usize))
        },
        None => scan_outcome(image, pattern, mask, None),
    }
}

impl Signature {
    #[verifier::type_invariant]
    spec fn same_length(self) -> bool {
        self.pattern@.len() == self.mask@.len()
    }

    /// The bytes searched for.
    pub closed spec fn pattern(self) -> Seq<u8> {
        self.pattern@
    }

    /// The mask: one byte for each pattern byte.
    pub closed spec fn mask(self) -> Seq<u8> {
        self.mask@
    }

    /// Builds a signature from a pattern and a mask of the same length.
    pub fn new(pattern: Vec<u8>, mask: Vec<u8>) -> (r: Signature)
        requires
            pattern.len() == mask.len(),
        ensures
            r.pattern() == pattern@,
            r.mask() == mask@,
    {
        Signature { pattern, mask }
    }

    /// Searches `memory` for the lowest offset at which the signature fits.
    pub fn scan(&self, memory: &[u8]) -> (r: Option<usize>)
        ensures
            scan_outcome(memory@, self.pattern(), self.mask(), r),
            self.pattern().len() == self.mask().len(),
            memory.len() < self.pattern().len() ==> r is None,
    {
        proof {
            use_type_invariant(self);
        }
        sig_scan(memory, self.pattern.as_slice(), self.mask.as_slice())
    }

    /// Searches the image of a resolved module, `image` being the bytes
    /// mapped from `module.base` on, and answers with an absolute address.
    pub fn scan_module(&self, module: &ModuleInfo, image: &[u8]) -> (r: Option<usize>)
        requires
            image.len() == module.size,
            module.base + module.size <= usize::MAX,
        ensures
            address_outcome(image@, module.base, self.pattern(), self.mask(), r),
    {
        match self.scan(image) {
            Some(offset) => Some(module.base + offset),
            None => None,
        }
    }
}

impl Clone for Signature {
    fn clone(&self) -> (r: Signature)
        ensures
            r.pattern() == self.pattern(),
            r.mask() == self.mask(),
    {
        proof {
            use_type_invariant(self);
        }
        let pattern = self.pattern.clone();
        let mask = self.mask.clone();
        assert(pattern@ =~= self.pattern@);
        assert(mask@ =~= self.mask@);
        Signature { pattern, mask }
    }
}

} // verus!
