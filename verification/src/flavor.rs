//! Thumbnail size classes.

use vstd::prelude::*;
use vstd::string::StringExecFns;

use crate::text::str_eq;

verus! {

/// A named thumbnail size class with a fixed bounding box.
#[derive(Debug, Clone, Copy, PartialEq, Eq, Structural)]
pub enum ThumbFlavor {
    Normal,
    Large,
    XLarge,
    XXLarge,
}

impl ThumbFlavor {
    /// The pixel dimension of the square bounding box for this flavor.
    pub open spec fn spec_dimension(self) -> u32 {
        match self {
            ThumbFlavor::Normal => 128,
            ThumbFlavor::Large => 256,
            ThumbFlavor::XLarge => 512,
            ThumbFlavor::XXLarge => 1024,
        }
    }

    pub fn dimension(&self) -> (d: u32)
        ensures
            d == self.spec_dimension(),
    {
        match self {
            ThumbFlavor::Normal => 128,
            ThumbFlavor::Large => 256,
            ThumbFlavor::XLarge => 512,
            ThumbFlavor::XXLarge => 1024,
        }
    }

    /// Every flavor, in declaration order.
    pub fn all() -> (v: Vec<ThumbFlavor>)
        ensures
            v@ == seq![
                ThumbFlavor::Normal,
                ThumbFlavor::Large,
                ThumbFlavor::XLarge,
                ThumbFlavor::XXLarge,
            ],
    {
        let mut v: Vec<ThumbFlavor> = Vec::new();
        v.push(ThumbFlavor::Normal);
        v.push(ThumbFlavor::Large);
        v.push(ThumbFlavor::XLarge);
        v.push(ThumbFlavor::XXLarge);
        proof {
            assert(v@ =~= seq![
                ThumbFlavor::Normal,
                ThumbFlavor::Large,
                ThumbFlavor::XLarge,
                ThumbFlavor::XXLarge,
            ]);
        }
        v
    }

    /// The serialized name of this flavor, part of the bus contract.
    pub open spec fn spec_name(self) -> Seq<char> {
        match self {
            ThumbFlavor::Normal => "normal"@,
            ThumbFlavor::Large => "large"@,
            ThumbFlavor::XLarge => "x-large"@,
            ThumbFlavor::XXLarge => "xx-large"@,
        }
    }

    pub fn name_str(&self) -> (r: &'static str)
        ensures
            r@ == self.spec_name(),
    {
        match self {
            ThumbFlavor::Normal => "normal",
            ThumbFlavor::Large => "large",
            ThumbFlavor::XLarge => "x-large",
            ThumbFlavor::XXLarge => "xx-large",
        }
    }

    /// The flavor with a given serialized name, if any.
    pub open spec fn spec_from_name(s: Seq<char>) -> Option<ThumbFlavor> {
        if s == "normal"@ {
            Some(ThumbFlavor::Normal)
        } else if s == "large"@ {
            Some(ThumbFlavor::Large)
        } else if s == "x-large"@ {
            Some(ThumbFlavor::XLarge)
        } else if s == "xx-large"@ {
            Some(ThumbFlavor::XXLarge)
        } else {
            None
        }
    }

    /// Parses a serialized flavor name; an unknown name yields `None` and is
    /// reported to the bus caller as an invalid-arguments error.
    pub fn from_name(s: &str) -> (r: Option<ThumbFlavor>)
        ensures
            r == Self::spec_from_name(s@),
    {
        if str_eq(s, "normal") {
            Some(ThumbFlavor::Normal)
        } else if str_eq(s, "large") {
            Some(ThumbFlavor::Large)
        } else if str_eq(s, "x-large") {
            Some(ThumbFlavor::XLarge)
        } else if str_eq(s, "xx-large") {
            Some(ThumbFlavor::XXLarge)
        } else {
            None
        }
    }

    /// The per-flavor cache directory under the cache root.
    pub open spec fn spec_cache_path(self, cache_dir: Seq<char>) -> Seq<char> {
        cache_dir + "/"@ + self.spec_name()
    }

    pub fn cache_path(&self, cache_dir: &str) -> (r: String)
        ensures
            r@ == self.spec_cache_path(cache_dir@),
    {
        let mut s = String::from_str(cache_dir);
        s.append("/");
        s.append(self.name_str());
        proof {
            assert(s@ =~= self.spec_cache_path(cache_dir@));
        }
        s
    }
}

} // verus!
