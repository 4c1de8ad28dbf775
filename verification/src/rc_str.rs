//! A cheaply sliceable shared string: shared text plus a window.

use vstd::prelude::*;

use vstd::string::StrSliceExecFns;

verus! {

/// Shared text together with the window `[start, end)` of it, counted
/// in characters, that this value stands for.
#[derive(Clone)]
pub struct RcStr {
    inner: std::rc::Rc<String>,
    start: usize,
    end: usize,
}

impl RcStr {
    /// The shared text.
    pub closed spec fn spec_inner(&self) -> Seq<char> {
        self.inner@
    }

    /// Start of the window.
    pub closed spec fn spec_start(&self) -> nat {
        self.start as nat
    }

    /// End of the window.
    pub closed spec fn spec_end(&self) -> nat {
        self.end as nat
    }

    /// The window is within the text.
    pub open spec fn wf(&self) -> bool {
        self.spec_start() <= self.spec_end() <= self.spec_inner().len()
    }

    /// The characters this value stands for.
    pub open spec fn view_chars(&self) -> Seq<char> {
        self.spec_inner().subrange(self.spec_start() as int, self.spec_end() as int)
    }

    /// Wraps a whole string.
    pub fn from_string(value: String) -> (r: Self)
        ensures
            r.wf(),
            r.view_chars() =~= value@,
    {
        let n = value.as_str().unicode_len();
        Self { end: n, inner: std::rc::Rc::new(value), start: 0 }
    }

    /// The window `[range_start, range_end)` of this value, sharing the
    /// same text; the bounds are relative to this value's own window
    /// and must stay inside it.
    pub fn slice(&self, range_start: usize, range_end: usize) -> (r: Self)
        requires
            self.wf(),
            range_start <= range_end,
            self.spec_start() + range_end <= self.spec_end(),
        ensures
            r.wf(),
            r.view_chars() =~= self.view_chars().subrange(
                range_start as int,
                range_end as int,
            ),
    {
        Self {
            inner: self.inner.clone(),
            start: range_start + self.start,
            end: range_end + self.start,
        }
    }

    /// As `slice`, but yields nothing instead of demanding bounds that
    /// hold.
    pub fn checked_slice(&self, range_start: usize, range_end: usize) -> (r: Option<Self>)
        requires
            self.wf(),
        ensures
            range_start <= range_end && self.spec_start() + range_end <= self.spec_end() ==> (r
                matches Some(s) && s.wf() && s.view_chars() =~= self.view_chars().subrange(
                range_start as int,
                range_end as int,
            )),
            !(range_start <= range_end && self.spec_start() + range_end <= self.spec_end()) ==> r
                is None,
    {
        if range_start <= range_end && range_end <= usize::MAX - self.start && self.start
            + range_end <= self.end {
            Some(self.slice(range_start, range_end))
        } else {
            None
        }
    }

    /// The characters this value stands for, as borrowed text.
    pub fn as_str<'a>(&'a self) -> (r: &'a str)
        requires
            self.wf(),
        ensures
            r@ == self.view_chars(),
    {
        self.inner.as_str().substring_char(self.start, self.end)
    }
}

} // verus!
