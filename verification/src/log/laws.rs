//! What is told of a run of records.

use vstd::prelude::*;

use crate::log::frame::FrameView;
use crate::log::parser;
use crate::metadata::log;

verus! {

proof fn lemma_top_severity(frames: Seq<FrameView>)
    ensures
        parser::top_severity(frames) >= -1,
        forall|i: int|
            0 <= i < frames.len() ==> log::severity((#[trigger] frames[i]).level) <= parser::top_severity(
                frames,
            ),
        frames.len() > 0 ==> exists|i: int|
            0 <= i < frames.len() && log::severity((#[trigger] frames[i]).level) == parser::top_severity(
                frames,
            ),
    decreases frames.len(),
{
    if frames.len() > 0 {
        let front = frames.drop_last();
        lemma_top_severity(front);
        assert forall|i: int| 0 <= i < frames.len() implies log::severity(
            (#[trigger] frames[i]).level,
        ) <= parser::top_severity(frames) by {
            if i < front.len() {
                assert(front[i] == frames[i]);
            }
        }
        if parser::top_severity(frames) == log::severity(frames.last().level) {
            assert(frames[frames.len() - 1] == frames.last());
        } else {
            let i = choose|i: int|
                0 <= i < front.len() && log::severity((#[trigger] front[i]).level) == parser::top_severity(
                    front,
                );
            assert(frames[i] == front[i]);
        }
    }
}

proof fn lemma_last_of_severity(frames: Seq<FrameView>, severity: int, i: int) -> (k: int)
    requires
        0 <= i < frames.len(),
        log::severity(frames[i].level) == severity,
    ensures
        0 <= k < frames.len(),
        log::severity(frames[k].level) == severity,
        parser::last_of_severity(frames, severity) == Some(frames[k].message),
        forall|j: int|
            k < j < frames.len() ==> log::severity((#[trigger] frames[j]).level) != severity,
    decreases frames.len(),
{
    if log::severity(frames.last().level) == severity {
        frames.len() - 1
    } else {
        let front = frames.drop_last();
        assert(front[i] == frames[i]);
        let k = lemma_last_of_severity(front, severity, i);
        assert forall|j: int| k < j < frames.len() implies log::severity(
            (#[trigger] frames[j]).level,
        ) != severity by {
            if j < front.len() {
                assert(front[j] == frames[j]);
            }
        }
        k
    }
}

/// No record of the run is worse than this one, and none that came later is as bad.
pub open spec fn worst(frames: Seq<FrameView>, k: int) -> bool {
    &&& 0 <= k < frames.len()
    &&& forall|j: int|
        0 <= j < frames.len() ==> log::severity((#[trigger] frames[j]).level) <= log::severity(
            frames[k].level,
        )
    &&& forall|j: int|
        k < j < frames.len() ==> log::severity((#[trigger] frames[j]).level) < log::severity(
            frames[k].level,
        )
}

/// What a run of records is summed up by is the message of a warning or worse, of which
/// there is none that is worse and none as bad that came later. There is no summary
/// exactly where nothing was as bad as a warning.
pub proof fn law_summaries_tell_the_worst(frames: Seq<FrameView>)
    ensures
        parser::summary(frames) is None <==> forall|i: int|
            0 <= i < frames.len() ==> !((#[trigger] frames[i]).level is Warning || frames[i].level
                is Error || frames[i].level is Fatal),
        parser::summary(frames) matches Some(words) ==> exists|k: int|
            #[trigger] worst(frames, k) && frames[k].message == words,
{
    lemma_top_severity(frames);
    let top = parser::top_severity(frames);
    if frames.len() > 0 {
        let i = choose|i: int|
            0 <= i < frames.len() && log::severity((#[trigger] frames[i]).level) == top;
        let k = lemma_last_of_severity(frames, top, i);
        assert(frames[k].message == parser::last_of_severity(frames, top)->0);
        assert forall|j: int| k < j < frames.len() implies log::severity(
            (#[trigger] frames[j]).level,
        ) < log::severity(frames[k].level) by {
            assert(log::severity(frames[j].level) <= top);
        }
        assert(worst(frames, k));
        if top < 3 {
            assert forall|j: int| 0 <= j < frames.len() implies !((#[trigger] frames[j]).level
                is Warning || frames[j].level is Error || frames[j].level is Fatal) by {
                assert(log::severity(frames[j].level) <= top);
            }
        } else {
            assert(frames[k].level is Warning || frames[k].level is Error || frames[k].level
                is Fatal);
        }
    }
}

/// The tail of a run of records is their lines, one below the other.
pub proof fn law_tails_are_the_lines(frames: Seq<FrameView>, next: FrameView)
    ensures
        parser::tail_text(Seq::empty()).len() == 0,
        parser::tail_text(seq![next]) == next.raw,
        frames.len() > 0 ==> parser::tail_text(frames.push(next)) == parser::tail_text(frames) + seq!['\n']
            + next.raw,
{
    assert(frames.push(next).drop_last() =~= frames);
    if frames.len() > 0 {
        assert(parser::tail_text(frames).push('\n') + next.raw =~= parser::tail_text(frames) + seq!['\n']
            + next.raw);
    }
}

} // verus!
