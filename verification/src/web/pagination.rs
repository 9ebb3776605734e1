use vstd::prelude::*;

verus! {

/// A one-based page request: `index` is the page number, `size` the number of
/// rows on a page.
#[derive(Debug, Clone, Copy, PartialEq, Eq, Structural)]
pub struct Pagination {
    pub index: u64,
    pub size: u64,
}

impl Default for Pagination {
    /// The first page, ten rows long.
    fn default() -> (r: Self)
        ensures
            r == (Pagination { index: 1, size: 10 }),
    {
        Pagination { index: 1, size: 10 }
    }
}

impl Pagination {
    /// A page is usable when it names at least the first page and holds at
    /// least one row.
    pub open spec fn in_range(self) -> bool {
        self.index >= 1 && self.size >= 1
    }

    /// Number of rows that precede the page.
    pub open spec fn spec_offset(self) -> int {
        (self.index - 1) * self.size
    }

    /// The page that `check` settles on: the page itself when it is in range,
    /// the first page of ten rows otherwise.
    pub open spec fn checked(self) -> Pagination {
        if self.in_range() {
            self
        } else {
            Pagination { index: 1, size: 10 }
        }
    }

    /// Rows to skip before the page starts.
    pub fn offset(&self) -> (r: u64)
        requires
            self.index >= 1,
            self.spec_offset() <= u64::MAX,
        ensures
            r == self.spec_offset(),
    {
        (self.index - 1) * self.size
    }

    /// Rows on the page.
    pub fn limit(&self) -> (r: u64)
        ensures
            r == self.size,
    {
        self.size
    }

    /// Replaces an out-of-range page by the default page.
    pub fn check(&self) -> (r: Self)
        ensures
            r == self.checked(),
            r.in_range(),
    {
        if self.index < 1 || self.size < 1 {
            return Pagination { index: 1, size: 10 };
        }
        *self
    }

    /// Rows to skip, or `None` when the page is out of range or the product
    /// does not fit the machine word.
    pub fn checked_offset(&self) -> (r: Option<u64>)
        ensures
            r matches Some(o) ==> self.index >= 1 && o == self.spec_offset(),
            r is None <==> self.index < 1 || self.spec_offset() > u64::MAX,
    {
        if self.index < 1 {
            return None;
        }
        let pages: u64 = self.index - 1;
        match pages.checked_mul(self.size) {
            Some(o) => Some(o),
            None => None,
        }
    }
}

} // verus!
