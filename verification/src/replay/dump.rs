//! The measurement dump's record count.

use vstd::prelude::*;

verus! {

/// A JSON Lines sink and the number of records written to it.  The summary
/// line carries the count as it stands before the summary itself is written,
/// so that count leaves the summary out; a count read afterwards includes it.
pub struct Dump<W> {
    out: W,
    records: u64,
}

impl<W> Dump<W> {
    /// A dump into `out`, with nothing written yet.
    pub fn new(out: W) -> (d: Self)
        ensures
            d.records() == 0,
            d.sink_view() == out,
    {
        Dump { out, records: 0 }
    }

    /// Records written so far.
    pub closed spec fn records_spec(&self) -> u64 {
        self.records
    }

    /// The sink.
    pub closed spec fn sink_view(&self) -> W {
        self.out
    }

    /// Records written so far: every record counted by [`Dump::count_record`].
    #[verifier::when_used_as_spec(records_spec)]
    pub fn records(&self) -> (n: u64)
        ensures
            n == self.records_spec(),
    {
        self.records
    }

    /// The sink, to write a record's line into.
    pub fn sink(&mut self) -> (w: &mut W)
        ensures
            *w == old(self).sink_view(),
            final(self).sink_view() == *final(w),
            final(self).records() == old(self).records(),
    {
        &mut self.out
    }

    /// Calls `Write::flush` on the sink: pushes buffered records out.
    /// Nothing is claimed of the outcome.
    #[verifier::external_body]
    pub fn flush(&mut self) -> std::io::Result<()>
        where W: std::io::Write
    {
        self.out.flush()
    }

    /// Count one record written.
    pub fn count_record(&mut self)
        requires
            old(self).records() < u64::MAX,
        ensures
            final(self).records() == old(self).records() + 1,
            final(self).sink_view() == old(self).sink_view(),
    {
        self.records = self.records + 1;
    }
}

} // verus!
