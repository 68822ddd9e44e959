//! A count-bounded page cursor: it decides which page to fetch next, or that
//! the stream has ended, from a row count taken once.
use vstd::prelude::*;

verus! {

/// The partition of records to page through: a data source and its version.
#[derive(Clone, Debug, PartialEq, Eq)]
pub struct Datasource {
    pub source: String,
    pub version: String,
}

impl Datasource {
    /// A filter on `source` and `version`; both must be non-empty.
    pub fn new(source: String, version: String) -> (r: Result<Datasource, PagingError>)
        ensures
            r is Err <==> source@.len() == 0 || version@.len() == 0,
            r matches Err(e) ==> e == PagingError::InvalidConfiguration,
            r matches Ok(d) ==> d.source@ == source@ && d.version@ == version@,
    {
        if source.as_str().unicode_len() == 0 || version.as_str().unicode_len() == 0 {
            Err(PagingError::InvalidConfiguration)
        } else {
            Ok(Datasource { source, version })
        }
    }
}

/// The abstract state of a cursor.
pub struct CursorView {
    pub page_size: nat,
    pub total_row_count: nat,
    pub current_page: nat,
}

/// What the cursor asks for next.
#[derive(Clone, Copy, Debug, PartialEq, Eq, Structural)]
pub enum PageStep {
    /// Query at most `limit` rows starting at row `offset`.
    Fetch { limit: u64, offset: u64 },
    /// Every row has been handed out; nothing more is queried.
    EndOfStream,
}

/// Errors in building a cursor.
#[derive(Clone, Copy, Debug, PartialEq, Eq, Structural)]
pub enum PagingError {
    /// A page size of zero, or an empty filter field.
    InvalidConfiguration,
}

/// Pull-based cursor over `total_row_count` rows in pages of `page_size`.
pub struct PageCursor {
    page_size: u64,
    total_row_count: u64,
    current_page: u64,
}

impl View for PageCursor {
    type V = CursorView;

    closed spec fn view(&self) -> CursorView {
        CursorView {
            page_size: self.page_size as nat,
            total_row_count: self.total_row_count as nat,
            current_page: self.current_page as nat,
        }
    }
}

/// A cursor state that `new` and `next_page` can reach.
pub open spec fn cursor_well_formed(v: CursorView) -> bool {
    v.page_size >= 1 && v.current_page <= v.total_row_count
}

/// Row offset of the cursor's current page.
pub open spec fn page_offset(v: CursorView) -> int {
    (v.current_page * v.page_size) as int
}

/// The step that `next_page` takes from `v`, and the state it leaves.
pub open spec fn next_page_spec(v: CursorView) -> (PageStep, CursorView) {
    if page_offset(v) < v.total_row_count {
        (
            PageStep::Fetch { limit: v.page_size as u64, offset: page_offset(v) as u64 },
            CursorView { current_page: v.current_page + 1, ..v },
        )
    } else {
        (PageStep::EndOfStream, v)
    }
}

/// The first `k` steps taken from `v`, in order.
pub open spec fn steps_from(v: CursorView, k: nat) -> Seq<PageStep>
    decreases k,
{
    if k == 0 {
        Seq::empty()
    } else {
        seq![next_page_spec(v).0] + steps_from(next_page_spec(v).1, (k - 1) as nat)
    }
}

/// Rows that a store holding `total` rows returns for `step`.
pub open spec fn rows_of_step(step: PageStep, total: nat) -> int {
    match step {
        PageStep::Fetch { limit, offset } => {
            if total - offset < limit {
                total - offset
            } else {
                limit as int
            }
        },
        PageStep::EndOfStream => 0,
    }
}

/// Rows returned over a sequence of steps.
pub open spec fn rows_of_steps(steps: Seq<PageStep>, total: nat) -> int
    decreases steps.len(),
{
    if steps.len() == 0 {
        0
    } else {
        rows_of_step(steps[0], total) + rows_of_steps(steps.drop_first(), total)
    }
}

/// The number of pages needed for `total` rows: `ceil(total / page_size)`.
pub open spec fn page_count(page_size: nat, total: nat) -> nat
    recommends
        page_size >= 1,
{
    ((total + page_size - 1) / page_size as int) as nat
}

impl PageCursor {
    /// A cursor at the first page; a zero page size is refused.
    pub fn new(page_size: u64, total_row_count: u64) -> (r: Result<PageCursor, PagingError>)
        ensures
            page_size == 0 <==> r is Err,
            r matches Err(e) ==> e == PagingError::InvalidConfiguration,
            r matches Ok(c) ==> c@ == (CursorView {
                page_size: page_size as nat,
                total_row_count: total_row_count as nat,
                current_page: 0,
            }) && cursor_well_formed(c@),
    {
        if page_size == 0 {
            Err(PagingError::InvalidConfiguration)
        } else {
            Ok(PageCursor { page_size, total_row_count, current_page: 0 })
        }
    }

    /// The configured page size.
    pub fn page_size(&self) -> (r: u64)
        ensures
            r == self@.page_size,
    {
        self.page_size
    }

    /// The row count taken at construction.
    pub fn total_row_count(&self) -> (r: u64)
        ensures
            r == self@.total_row_count,
    {
        self.total_row_count
    }

    /// Index of the page that the next fetch asks for.
    pub fn current_page(&self) -> (r: u64)
        ensures
            r == self@.current_page,
    {
        self.current_page
    }

    /// The next step: a fetch of the page at `current_page * page_size`,
    /// which advances the cursor, or `EndOfStream` once that offset reaches
    /// the row count, which leaves the cursor as it is.
    pub fn next_page(&mut self) -> (r: PageStep)
        requires
            cursor_well_formed(old(self)@),
        ensures
            (r, final(self)@) == next_page_spec(old(self)@),
            cursor_well_formed(final(self)@),
    {
        let fits = match self.current_page.checked_mul(self.page_size) {
            Some(offset) => offset < self.total_row_count,
            None => false,
        };
        if fits {
            let offset = self.current_page * self.page_size;
            proof {
                assert(self.current_page < self.total_row_count) by (nonlinear_arith)
                    requires
                        (self.current_page as int) * (self.page_size as int) < self.total_row_count,
                        self.page_size >= 1,
                ;
            }
            self.current_page = self.current_page + 1;
            PageStep::Fetch { limit: self.page_size, offset }
        } else {
            PageStep::EndOfStream
        }
    }
}

proof fn lemma_rows_of_steps_append(a: Seq<PageStep>, b: Seq<PageStep>, total: nat)
    ensures
        rows_of_steps(a + b, total) == rows_of_steps(a, total) + rows_of_steps(b, total),
    decreases a.len(),
{
    if a.len() == 0 {
        assert(a + b =~= b);
    } else {
        assert((a + b).drop_first() =~= a.drop_first() + b);
        lemma_rows_of_steps_append(a.drop_first(), b, total);
    }
}

proof fn lemma_steps_from_page(v: CursorView, k: nat)
    requires
        1 <= v.page_size <= u64::MAX,
        v.total_row_count <= u64::MAX,
        v.current_page + k == page_count(v.page_size, v.total_row_count),
    ensures
        steps_from(v, k).len() == k,
        forall|i: int| 0 <= i < k ==> (#[trigger] steps_from(v, k)[i]) is Fetch,
        rows_of_steps(steps_from(v, k), v.total_row_count) == if page_offset(v) < v.total_row_count {
            v.total_row_count - page_offset(v)
        } else {
            0
        },
        page_offset(CursorView { current_page: v.current_page + k, ..v }) >= v.total_row_count,
    decreases k,
{
    let ps = v.page_size as int;
    let t = v.total_row_count as int;
    let n = page_count(v.page_size, v.total_row_count) as int;
    let p = v.current_page as int;
    assert(n * ps >= t && (n - 1) * ps < t) by (nonlinear_arith)
        requires
            n == (t + ps - 1) / ps,
            ps >= 1,
            t >= 0,
    {
        let q = (t + ps - 1) / ps;
        let m = (t + ps - 1) % ps;
        assert(t + ps - 1 == q * ps + m && 0 <= m < ps);
    };
    if k == 0 {
        assert(p == n);
        assert(steps_from(v, 0) =~= Seq::<PageStep>::empty());
        assert(rows_of_steps(Seq::<PageStep>::empty(), v.total_row_count) == 0);
        assert(page_offset(v) == p * ps);
        if t > 0 {
            assert(page_offset(v) >= t);
        } else {
            assert(page_offset(v) >= 0);
        }
    } else {
        assert(p * ps < t) by (nonlinear_arith)
            requires
                p + 1 <= n,
                (n - 1) * ps < t,
                ps >= 1,
        ;
        assert((p + 1) * ps == p * ps + ps) by (nonlinear_arith);
        let (s, w) = next_page_spec(v);
        lemma_steps_from_page(w, (k - 1) as nat);
        let rest = steps_from(w, (k - 1) as nat);
        assert(steps_from(v, k) == seq![s] + rest);
        lemma_rows_of_steps_append(seq![s], rest, v.total_row_count);
        assert(seq![s].drop_first() =~= Seq::<PageStep>::empty());
        assert(seq![s][0] == s);
        assert(rows_of_steps(Seq::<PageStep>::empty(), v.total_row_count) == 0);
        assert(rows_of_steps(seq![s], v.total_row_count) == rows_of_step(s, v.total_row_count));
        assert forall|i: int| 0 <= i < k implies (#[trigger] steps_from(v, k)[i]) is Fetch by {
            if i > 0 {
                assert(steps_from(v, k)[i] == rest[i - 1]);
            }
        };
        assert(page_offset(w) == p * ps + ps);
        assert(CursorView { current_page: w.current_page + (k - 1) as nat, ..w } == CursorView {
            current_page: v.current_page + k,
            ..v
        });
    }
}

/// From a fresh cursor over `total_row_count` rows, the first
/// `ceil(total_row_count / page_size)` steps are fetches, the step after them
/// is `EndOfStream`, and the fetched pages hold exactly `total_row_count` rows.
pub proof fn lemma_pages_cover_rows(page_size: nat, total_row_count: nat)
    requires
        1 <= page_size <= u64::MAX,
        total_row_count <= u64::MAX,
    ensures
        ({
            let v = CursorView { page_size, total_row_count, current_page: 0 };
            let n = page_count(page_size, total_row_count);
            let steps = steps_from(v, n + 1);
            &&& steps.len() == n + 1
            &&& forall|i: int| 0 <= i < n ==> (#[trigger] steps[i]) is Fetch
            &&& steps[n as int] == PageStep::EndOfStream
            &&& rows_of_steps(steps, total_row_count) == total_row_count
        }),
{
    let v = CursorView { page_size, total_row_count, current_page: 0 };
    let n = page_count(page_size, total_row_count);
    assert(0 * page_size == 0) by (nonlinear_arith);
    assert(page_offset(v) == 0);
    lemma_steps_from_page(v, n);
    lemma_steps_from_page_end(v, n);
    let eos = seq![PageStep::EndOfStream];
    lemma_rows_of_steps_append(steps_from(v, n), eos, total_row_count);
    assert(eos.drop_first() =~= Seq::<PageStep>::empty());
    assert(eos[0] == PageStep::EndOfStream);
    assert(rows_of_steps(Seq::<PageStep>::empty(), total_row_count) == 0);
    assert(rows_of_steps(eos, total_row_count) == 0);
    assert(steps_from(v, n + 1)[n as int] == PageStep::EndOfStream);
    assert forall|i: int| 0 <= i < n implies (#[trigger] steps_from(v, n + 1)[i]) is Fetch by {
        assert(steps_from(v, n + 1)[i] == steps_from(v, n)[i]);
    };
}

proof fn lemma_steps_from_page_end(v: CursorView, k: nat)
    requires
        page_offset(CursorView { current_page: v.current_page + k, ..v }) >= v.total_row_count,
    ensures
        steps_from(v, k + 1) == steps_from(v, k) + seq![PageStep::EndOfStream],
    decreases k,
{
    if k == 0 {
        assert(steps_from(v, 0) =~= Seq::<PageStep>::empty());
        assert(steps_from(v, 1) =~= seq![PageStep::EndOfStream]);
    } else {
        let (s, w) = next_page_spec(v);
        if page_offset(v) < v.total_row_count {
            assert(CursorView { current_page: w.current_page + (k - 1) as nat, ..w } == CursorView {
                current_page: v.current_page + k,
                ..v
            });
            lemma_steps_from_page_end(w, (k - 1) as nat);
            assert(steps_from(v, k + 1) =~= steps_from(v, k) + seq![PageStep::EndOfStream]);
        } else {
            assert(w == v);
            lemma_end_of_stream_is_stable(v, k);
            lemma_end_of_stream_is_stable(v, k + 1);
            assert(steps_from(v, k + 1) =~= steps_from(v, k) + seq![PageStep::EndOfStream]);
        }
    }
}

/// Once the cursor answers `EndOfStream` it keeps its state, and every later
/// step is `EndOfStream` too: no further page is fetched.
pub proof fn lemma_end_of_stream_is_stable(v: CursorView, k: nat)
    requires
        next_page_spec(v).0 == PageStep::EndOfStream,
    ensures
        next_page_spec(v).1 == v,
        steps_from(v, k) =~= Seq::new(k, |i: int| PageStep::EndOfStream),
    decreases k,
{
    if k > 0 {
        lemma_end_of_stream_is_stable(v, (k - 1) as nat);
    }
}

} // verus!
