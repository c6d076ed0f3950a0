//! Optional Bearer API-key auth (llama.cpp style): with no keys configured
//! every request passes; otherwise a request must carry
//! `Authorization: Bearer <key>` with one of the keys.

use std::sync::Arc;

use vstd::prelude::*;

use crate::text::{chars_of, range_eq_str, str_eq, string_views};

verus! {

/// Shared set of accepted API keys. An empty set disables auth entirely.
#[derive(Clone, Default)]
pub struct AuthKeys(pub Arc<Vec<String>>);

/// Whether a request whose `Authorization` header reads `header` (None when
/// absent or not visible ASCII) may pass, given the accepted `keys`.
pub open spec fn spec_authorized(keys: Seq<Seq<char>>, header: Option<Seq<char>>) -> bool {
    keys.len() == 0 || match header {
        Some(h) => h.len() >= 7 && h.take(7) == "Bearer "@ && keys.contains(h.skip(7)),
        None => false,
    }
}

impl AuthKeys {
    /// The accepted keys.
    pub open spec fn keys(&self) -> Seq<Seq<char>> {
        string_views(self.0@)
    }

    /// Whether a request carrying this `Authorization` header value may
    /// pass. The scheme is case-sensitive: `bearer k1` is refused.
    pub fn authorizes(&self, header: Option<&str>) -> (r: bool)
        ensures
            r == spec_authorized(self.keys(), crate::text::opt_view(header)),
    {
        let keys: &Vec<String> = &*self.0;
        if keys.len() == 0 {
            return true;
        }
        let h = match header {
            Some(h) => h,
            None => return false,
        };
        let v = chars_of(h);
        if v.len() < 7 || !range_eq_str(&v, 0, 7, "Bearer ") {
            assert(v.len() >= 7 ==> v@.subrange(0, 7) == h@.take(7));
            return false;
        }
        assert(v@.subrange(0, 7) == h@.take(7));
        let key = crate::text::string_from_range(&v, 7, v.len());
        assert(key@ == h@.skip(7));
        let mut i: usize = 0;
        while i < keys.len()
            invariant
                i <= keys.len(),
                keys@ == self.0@,
                header == Some(h),
                h@.len() >= 7,
                h@.take(7) == "Bearer "@,
                key@ == h@.skip(7),
                forall|j: int| 0 <= j < i ==> keys@[j]@ != key@,
            decreases keys.len() - i,
        {
            if str_eq(keys[i].as_str(), key.as_str()) {
                assert(string_views(keys@)[i as int] == key@);
                return true;
            }
            i += 1;
        }
        assert(!string_views(keys@).contains(key@)) by {
            if string_views(keys@).contains(key@) {
                let j = choose|j: int| 0 <= j < string_views(keys@).len() && string_views(keys@)[j] == key@;
                assert(keys@[j]@ != key@);
            }
        }
        false
    }
}

} // verus!
