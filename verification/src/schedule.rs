//! The order in which a download saves the pages of a thread.
//!
//! Page 1 is saved first.  With a pause configured, each later page is then
//! announced, waited for and saved in turn; without one, all later pages
//! are saved at once.  The caller performs each step; what a step reports
//! is built by the message functions of `downloader`.
use vstd::prelude::*;
use crate::downloader::{download_page_count, later_pages, later_pages_exec};

verus! {

/// One step of saving a thread's pages.
#[derive(Debug, Clone, Copy, PartialEq, Eq)]
pub enum PageStep {
    /// Fetch, adapt and save this page, then report progress.
    Save(usize),
    /// Report, before requesting this page, that the one before it was
    /// saved (`page-saved`).
    ReportSaved(usize),
    /// Pause for this many milliseconds.
    Pause(u64),
    /// Report the request of this page (`requesting-page`).
    ReportRequesting(usize),
    /// Report that the pages are fetched all at once (`interval-ms-zero`).
    ReportAllAtOnce,
    /// Fetch, adapt and save pages `first..=last` at once.
    SaveAll(usize, usize),
    /// Report that all pages were fetched (`all-pages-fetched`).
    ReportAllFetched,
}

/// The steps for one later page when pausing between pages.
pub open spec fn steps_for_page(pn: usize, interval_ms: u64) -> Seq<PageStep> {
    seq![
        PageStep::ReportSaved(pn),
        PageStep::Pause(interval_ms),
        PageStep::ReportRequesting(pn),
        PageStep::Save(pn),
    ]
}

/// The steps for the later pages, in order, when pausing between pages.
pub open spec fn sequential_steps(pages: Seq<usize>, interval_ms: u64) -> Seq<PageStep>
    decreases pages.len(),
{
    if pages.len() == 0 {
        Seq::empty()
    } else {
        sequential_steps(pages.drop_last(), interval_ms) + steps_for_page(pages.last(), interval_ms)
    }
}

/// The first later page: the start page, and at least 2.
pub open spec fn first_later_page(start: usize) -> usize {
    if start > 2 {
        start
    } else {
        2
    }
}

/// All steps of saving pages `1` and `max(start, 2)..=total`, pausing
/// `interval_ms` between pages (none: all at once).
pub open spec fn page_plan(total: usize, start: usize, interval_ms: u64) -> Seq<PageStep> {
    seq![PageStep::Save(1)] + (if interval_ms > 0 {
        sequential_steps(later_pages(total, start), interval_ms)
    } else {
        seq![PageStep::ReportAllAtOnce, PageStep::SaveAll(first_later_page(start), total)]
    }) + seq![PageStep::ReportAllFetched]
}

/// The steps of saving the pages of a thread of `total` pages from page
/// `start` on (page 1 always), with `interval_ms` between pages.
pub fn plan_pages(total: usize, start: usize, interval_ms: u64) -> (r: Vec<PageStep>)
    ensures
        r@ == page_plan(total, start, interval_ms),
{
    let mut out: Vec<PageStep> = Vec::new();
    out.push(PageStep::Save(1));
    if interval_ms > 0 {
        let pages = later_pages_exec(total, start);
        let mut k: usize = 0;
        while k < pages.len()
            invariant
                k <= pages.len(),
                pages@ == later_pages(total, start),
                interval_ms > 0,
                out@ == seq![PageStep::Save(1)] + sequential_steps(pages@.take(k as int), interval_ms),
            decreases pages.len() - k,
        {
            let pn = pages[k];
            out.push(PageStep::ReportSaved(pn));
            out.push(PageStep::Pause(interval_ms));
            out.push(PageStep::ReportRequesting(pn));
            out.push(PageStep::Save(pn));
            proof {
                let next = pages@.take(k + 1);
                assert(next.drop_last() =~= pages@.take(k as int));
                assert(next.last() == pn);
            }
            k = k + 1;
        }
        assert(pages@.take(pages.len() as int) =~= pages@);
    } else {
        out.push(PageStep::ReportAllAtOnce);
        let first = if start > 2 {
            start
        } else {
            2
        };
        out.push(PageStep::SaveAll(first, total));
    }
    out.push(PageStep::ReportAllFetched);
    out
}

/// The pages a step saves.
pub open spec fn step_saves(step: PageStep) -> Seq<usize> {
    match step {
        PageStep::Save(p) => seq![p],
        PageStep::SaveAll(first, last) => Seq::new(
            (if last >= first { last - first + 1 } else { 0 }) as nat,
            |k: int| (first + k) as usize,
        ),
        _ => Seq::empty(),
    }
}

/// The pages a sequence of steps saves, in order.
pub open spec fn plan_saves(steps: Seq<PageStep>) -> Seq<usize>
    decreases steps.len(),
{
    if steps.len() == 0 {
        Seq::empty()
    } else {
        plan_saves(steps.drop_last()) + step_saves(steps.last())
    }
}

proof fn lemma_plan_saves_concat(a: Seq<PageStep>, b: Seq<PageStep>)
    ensures
        plan_saves(a + b) == plan_saves(a) + plan_saves(b),
    decreases b.len(),
{
    if b.len() == 0 {
        assert(a + b =~= a);
        assert(plan_saves(a) + Seq::<usize>::empty() =~= plan_saves(a));
    } else {
        lemma_plan_saves_concat(a, b.drop_last());
        assert((a + b).drop_last() =~= a + b.drop_last());
        assert((a + b).last() == b.last());
        assert(plan_saves(a) + plan_saves(b.drop_last()) + step_saves(b.last()) =~= plan_saves(a) + (
        plan_saves(b.drop_last()) + step_saves(b.last())));
    }
}

proof fn lemma_plan_saves_one(step: PageStep)
    ensures
        plan_saves(seq![step]) == step_saves(step),
{
    assert(seq![step].drop_last() =~= Seq::<PageStep>::empty());
    assert(plan_saves(Seq::<PageStep>::empty()) =~= Seq::<usize>::empty());
    assert(plan_saves(seq![step]) =~= step_saves(step));
}

proof fn lemma_sequential_saves(pages: Seq<usize>, interval_ms: u64)
    ensures
        plan_saves(sequential_steps(pages, interval_ms)) == pages,
    decreases pages.len(),
{
    if pages.len() > 0 {
        lemma_sequential_saves(pages.drop_last(), interval_ms);
        let pn = pages.last();
        let four = steps_for_page(pn, interval_ms);
        lemma_plan_saves_concat(sequential_steps(pages.drop_last(), interval_ms), four);
        let a = seq![PageStep::ReportSaved(pn)];
        let b = seq![PageStep::Pause(interval_ms)];
        let c = seq![PageStep::ReportRequesting(pn)];
        let d = seq![PageStep::Save(pn)];
        assert(four =~= a + b + c + d);
        lemma_plan_saves_concat(a + b + c, d);
        lemma_plan_saves_concat(a + b, c);
        lemma_plan_saves_concat(a, b);
        lemma_plan_saves_one(PageStep::ReportSaved(pn));
        lemma_plan_saves_one(PageStep::Pause(interval_ms));
        lemma_plan_saves_one(PageStep::ReportRequesting(pn));
        lemma_plan_saves_one(PageStep::Save(pn));
        assert(plan_saves(four) =~= seq![pn]);
        assert(pages.drop_last().push(pn) =~= pages);
    } else {
        assert(sequential_steps(pages, interval_ms) =~= Seq::<PageStep>::empty());
    }
}

/// A download saves page 1 and then each later page once, in order,
/// whether it pauses between pages or not; with a start page no later than
/// the page count, that is as many pages as the progress total.
pub proof fn law_plan_saves_every_page_once(total: usize, start: usize, interval_ms: u64)
    ensures
        plan_saves(page_plan(total, start, interval_ms)) == seq![1usize] + later_pages(total, start),
        1 <= start <= total ==> plan_saves(page_plan(total, start, interval_ms)).len()
            == download_page_count(total, start),
{
    let head = seq![PageStep::Save(1)];
    let tail = seq![PageStep::ReportAllFetched];
    let middle = if interval_ms > 0 {
        sequential_steps(later_pages(total, start), interval_ms)
    } else {
        seq![PageStep::ReportAllAtOnce, PageStep::SaveAll(first_later_page(start), total)]
    };
    assert(page_plan(total, start, interval_ms) == head + middle + tail);
    lemma_plan_saves_concat(head + middle, tail);
    lemma_plan_saves_concat(head, middle);
    lemma_plan_saves_one(PageStep::Save(1));
    lemma_plan_saves_one(PageStep::ReportAllFetched);
    assert(plan_saves(head) =~= seq![1usize]);
    assert(plan_saves(tail) =~= Seq::<usize>::empty());
    if interval_ms > 0 {
        lemma_sequential_saves(later_pages(total, start), interval_ms);
    } else {
        let m1 = seq![PageStep::ReportAllAtOnce];
        let m2 = seq![PageStep::SaveAll(first_later_page(start), total)];
        assert(middle =~= m1 + m2);
        lemma_plan_saves_concat(m1, m2);
        lemma_plan_saves_one(PageStep::ReportAllAtOnce);
        lemma_plan_saves_one(PageStep::SaveAll(first_later_page(start), total));
        assert(plan_saves(middle) =~= later_pages(total, start));
    }
    assert(plan_saves(page_plan(total, start, interval_ms)) =~= seq![1usize] + later_pages(
        total,
        start,
    ));
}

} // verus!
