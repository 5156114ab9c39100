//! What a run writes for one source file, from the first read to the end of
//! the source.

use vstd::prelude::*;
use crate::chunks::{
    lemma_full_counts_grow, lemma_ready_in_parts, lemma_slices_are_ready_then_tail, ready,
    slices_of, tail,
};
use crate::report::success_text;
use crate::run::{named_from, ActionView, Event, Phase, RunView};

verus! {

/// The files that a run asks to be written, in order, while its source gives
/// `reads`, one after the other, and every write is carried out. A run that
/// is not reading asks for none.
pub open spec fn writes_of(pre: RunView, reads: Seq<Seq<u8>>) -> Seq<(Seq<char>, Seq<u8>)>
    decreases reads.len(),
{
    if reads.len() == 0 || !(pre.phase is Reading) {
        Seq::empty()
    } else {
        let (mid, action) = pre.take_in(reads.first());
        match action {
            ActionView::Write { dir, files } => files + writes_of(
                mid.next(Event::Done, None).0,
                reads.drop_first(),
            ),
            _ => writes_of(mid, reads.drop_first()),
        }
    }
}

/// The short slice that ends `data`, as a sequence of one slice or none.
pub open spec fn tail_seq(data: Seq<u8>, chunk: nat) -> Seq<Seq<u8>> {
    match tail(data, chunk) {
        Some(last) => seq![last],
        None => Seq::empty(),
    }
}

/// Numbering two runs of slices one after the other numbers their join.
pub proof fn lemma_named_from_joins(first: nat, a: Seq<Seq<u8>>, b: Seq<Seq<u8>>)
    ensures
        named_from(first, a) + named_from(first + a.len(), b) == named_from(first, a + b),
{
}

/// A run that has read `pre.fed` and then reads `portions`, none of them
/// empty, up to the end of the source, writes the slices of all these bytes
/// that were not yet full before, each under the name of its number, and
/// nothing else.
pub proof fn lemma_writes_from(pre: RunView, portions: Seq<Seq<u8>>)
    requires
        pre.wf(),
        pre.phase is Reading,
        forall|i: int| 0 <= i < portions.len() ==> (#[trigger] portions[i]).len() > 0,
        pre.fed.len() + portions.flatten().len() <= u64::MAX,
    ensures
        writes_of(pre, portions.push(Seq::empty())) == named_from(
            pre.fed.len() / pre.chunk,
            ready(pre.fed.len(), pre.fed + portions.flatten(), pre.chunk) + tail_seq(
                pre.fed + portions.flatten(),
                pre.chunk,
            ),
        ),
    decreases portions.len(),
{
    let chunk = pre.chunk;
    let have = pre.fed;
    let reads = portions.push(Seq::empty());
    let at = have.len() / chunk;
    if portions.len() == 0 {
        let mid = pre.take_in(reads.first()).0;
        match tail(have, chunk) {
            Some(last) => {
                assert(writes_of(mid.next(Event::Done, None).0, reads.drop_first())
                    =~= Seq::<(Seq<char>, Seq<u8>)>::empty());
            },
            None => {
                assert(writes_of(mid, reads.drop_first()) =~= Seq::<(Seq<char>, Seq<u8>)>::empty());
                assert(named_from(at, Seq::<Seq<u8>>::empty()) =~= Seq::<
                    (Seq<char>, Seq<u8>),
                >::empty());
            },
        }
    } else {
        let part = portions.first();
        let rest = portions.drop_first();
        let all = portions.flatten();
        assert(reads.drop_first() =~= rest.push(Seq::empty()));
        let grown = have + part;
        assert(grown + rest.flatten() =~= have + all);
        let full = ready(have.len(), grown, chunk);
        let after = RunView { phase: Phase::Reading, fed: grown, ..pre };
        lemma_full_counts_grow(have.len(), grown.len(), chunk);
        lemma_writes_from(after, rest);
        lemma_ready_in_parts(have.len(), grown, rest.flatten(), chunk);
        let later = ready(grown.len(), have + all, chunk) + tail_seq(have + all, chunk);
        assert(full + later =~= ready(have.len(), have + all, chunk) + tail_seq(
            have + all,
            chunk,
        ));
        lemma_named_from_joins(at, full, later);
        assert(writes_of(pre, reads) =~= named_from(at, full) + writes_of(
            after,
            rest.push(Seq::empty()),
        ));
    }
}

/// A run that reads a source from its beginning to its end, in portions of
/// whatever lengths, writes exactly the slices of the source: slice `i`
/// under the name of `i`, all of them, and nothing else.
pub proof fn lemma_run_writes_the_slices(pre: RunView, portions: Seq<Seq<u8>>)
    requires
        pre.wf(),
        pre.phase is Reading,
        pre.fed.len() == 0,
        forall|i: int| 0 <= i < portions.len() ==> (#[trigger] portions[i]).len() > 0,
        portions.flatten().len() <= u64::MAX,
    ensures
        writes_of(pre, portions.push(Seq::empty())) == named_from(
            0,
            slices_of(portions.flatten(), pre.chunk),
        ),
{
    let data = portions.flatten();
    lemma_writes_from(pre, portions);
    lemma_slices_are_ready_then_tail(data, pre.chunk);
    assert(0nat / pre.chunk == 0) by (nonlinear_arith)
        requires
            pre.chunk >= 1,
    ;
}

/// A source without bytes has nothing written for it; the run goes on to
/// report the file as sliced.
pub proof fn lemma_empty_source_writes_nothing(pre: RunView)
    requires
        pre.wf(),
        pre.phase is Reading,
        pre.fed.len() == 0,
    ensures
        pre.take_in(Seq::empty()).1 == (ActionView::Print { line: success_text(pre.path()) }),
        pre.take_in(Seq::empty()).0.phase is Telling,
        writes_of(pre, seq![Seq::empty()]) == Seq::<(Seq<char>, Seq<u8>)>::empty(),
{
    assert(0nat % pre.chunk == 0) by (nonlinear_arith)
        requires
            pre.chunk >= 1,
    ;
    let reads = seq![Seq::<u8>::empty()];
    assert(writes_of(pre.take_in(reads.first()).0, reads.drop_first()) =~= Seq::<
        (Seq<char>, Seq<u8>),
    >::empty());
}

/// An output directory that is not there is created before anything is
/// read, and reading begins with no bytes taken in.
pub proof fn lemma_missing_output_is_created(pre: RunView, base: Option<Seq<char>>)
    requires
        pre.wf(),
        pre.phase is Probing,
    ensures
        ({
            let (mid, asked) = pre.next(Event::Found(false), base);
            let (post, then) = mid.next(Event::Done, base);
            &&& asked == ActionView::Create { dir: pre.dir }
            &&& then == ActionView::Read { limit: pre.chunk }
            &&& post.phase is Reading
            &&& post.fed == Seq::<u8>::empty()
            &&& post.wf()
        }),
{
}

} // verus!
