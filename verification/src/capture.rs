//! Output capture on the machine track.
//!
//! Every read of the PTY is forwarded as an `OutputChunk`. A read may end in
//! the middle of a multi-byte UTF-8 character; such an incomplete trailing
//! sequence is held back and decoded together with the next read, so that a
//! character split across two reads reaches the listener intact. At the end
//! of the stream whatever is still held back is flushed.

use vstd::prelude::*;
use vstd::utf8::{
    decode_utf8, decode_utf8_split, is_char_boundary, is_continuation_byte,
    is_leading_byte_width_2, is_leading_byte_width_3,
    is_leading_byte_width_4, length_of_first_scalar, pop_first_scalar, valid_first_scalar,
    valid_utf8, valid_utf8_split,
};

use vstd::seq_lib::lemma_flatten_concat;

use crate::{ShellEvent, ShellEventView};

verus! {

/// The characters that `String::from_utf8_lossy` makes of `bytes`.
pub uninterp spec fn lossy_utf8(bytes: Seq<u8>) -> Seq<char>;

/// `String::from_utf8_lossy`: decodes UTF-8, with each invalid sequence
/// replaced by U+FFFD. Claimed: the result is `lossy_utf8` of the bytes, and
/// for valid UTF-8 it is the decoded text. What it is for invalid input is
/// left to the name.
#[verifier::external_body]
fn decode_lossy(bytes: &[u8]) -> (s: String)
    ensures
        s@ == lossy_utf8(bytes@),
        valid_utf8(bytes@) ==> s@ == decode_utf8(bytes@),
{
    String::from_utf8_lossy(bytes).into_owned()
}

/// The number of bytes that a UTF-8 sequence led by `b` takes; 1 for a byte
/// that cannot lead a multi-byte sequence.
pub open spec fn lead_width(b: u8) -> int {
    if is_leading_byte_width_2(b) {
        2
    } else if is_leading_byte_width_3(b) {
        3
    } else if is_leading_byte_width_4(b) {
        4
    } else {
        1
    }
}

/// Where `data` is cut before decoding: before a multi-byte sequence at its
/// end that is still missing bytes, and at its end otherwise. The last
/// non-continuation byte among the final three leads that sequence.
pub open spec fn cut_point(data: Seq<u8>) -> int {
    let n = data.len() as int;
    if n >= 1 && !is_continuation_byte(data[n - 1]) {
        if lead_width(data[n - 1]) > 1 {
            n - 1
        } else {
            n
        }
    } else if n >= 2 && !is_continuation_byte(data[n - 2]) {
        if lead_width(data[n - 2]) > 2 {
            n - 2
        } else {
            n
        }
    } else if n >= 3 && !is_continuation_byte(data[n - 3]) {
        if lead_width(data[n - 3]) > 3 {
            n - 3
        } else {
            n
        }
    } else {
        n
    }
}

/// The bytes of `data` that are decoded now.
pub open spec fn ready_part(data: Seq<u8>) -> Seq<u8> {
    data.subrange(0, cut_point(data))
}

/// The bytes of `data` that are held back for the next read.
pub open spec fn held_part(data: Seq<u8>) -> Seq<u8> {
    data.subrange(cut_point(data), data.len() as int)
}

/// `output` reports the bytes `segment`: nothing for no bytes, otherwise an
/// `OutputChunk` of their lossy decoding, which for valid UTF-8 is the text
/// they encode.
pub open spec fn reports(output: Option<ShellEvent>, segment: Seq<u8>) -> bool {
    if segment.len() == 0 {
        output is None
    } else {
        &&& output matches Some(e)
        &&& e@ == ShellEventView::OutputChunk(lossy_utf8(segment))
        &&& valid_utf8(segment) ==> e@ == ShellEventView::OutputChunk(decode_utf8(segment))
    }
}

/// The result of one read from the PTY.
pub enum ReadOutcome {
    /// The bytes that were read; none at the end of the stream.
    Read(Vec<u8>),
    /// The read failed.
    Failed,
}

/// What the capture loop does after a read: report `output` if there is one,
/// then stop when `finished`.
pub struct CaptureStep {
    pub output: Option<ShellEvent>,
    pub finished: bool,
}

/// The state of the capture loop: the bytes held back from earlier reads.
pub struct OutputCapture {
    pending: Vec<u8>,
}

impl View for OutputCapture {
    type V = Seq<u8>;

    closed spec fn view(&self) -> Seq<u8> {
        self.pending@
    }
}

fn is_continuation(b: u8) -> (r: bool)
    ensures
        r == is_continuation_byte(b),
{
    0x80 <= b && b <= 0xbf
}

fn lead_width_of(b: u8) -> (w: usize)
    ensures
        w == lead_width(b),
{
    if 0xc0 <= b && b <= 0xdf {
        2
    } else if 0xe0 <= b && b <= 0xef {
        3
    } else if 0xf0 <= b && b <= 0xf7 {
        4
    } else {
        1
    }
}

fn cut_point_of(data: &Vec<u8>) -> (k: usize)
    ensures
        k == cut_point(data@),
{
    let n = data.len();
    if n >= 1 && !is_continuation(data[n - 1]) {
        if lead_width_of(data[n - 1]) > 1 {
            n - 1
        } else {
            n
        }
    } else if n >= 2 && !is_continuation(data[n - 2]) {
        if lead_width_of(data[n - 2]) > 2 {
            n - 2
        } else {
            n
        }
    } else if n >= 3 && !is_continuation(data[n - 3]) {
        if lead_width_of(data[n - 3]) > 3 {
            n - 3
        } else {
            n
        }
    } else {
        n
    }
}

/// Reports `segment` as an `OutputChunk`, or nothing when it is empty.
fn report(segment: &Vec<u8>) -> (output: Option<ShellEvent>)
    ensures
        reports(output, segment@),
{
    if segment.len() == 0 {
        None
    } else {
        Some(ShellEvent::OutputChunk(decode_lossy(segment.as_slice())))
    }
}

impl OutputCapture {
    /// A capture that holds nothing back yet.
    pub fn new() -> (c: Self)
        ensures
            c@ == Seq::<u8>::empty(),
    {
        OutputCapture { pending: Vec::new() }
    }

    /// One step of the capture loop. A non-empty read is joined to the bytes
    /// held back so far; all of it is reported except an incomplete trailing
    /// character, which is held back, and capture goes on. The end of the
    /// stream or a failed read reports what is held back and ends capture.
    pub fn step(&mut self, outcome: &ReadOutcome) -> (step: CaptureStep)
        ensures
            match outcome {
                ReadOutcome::Read(bytes) => if bytes.len() > 0 {
                    &&& reports(step.output, ready_part(old(self)@ + bytes@))
                    &&& final(self)@ == held_part(old(self)@ + bytes@)
                    &&& !step.finished
                    &&& ready_part(old(self)@ + bytes@) + final(self)@ == old(self)@ + bytes@
                    &&& ready_part(old(self)@ + bytes@).len() > 0 ==> (step.output matches Some(e)
                        && e@ == ShellEventView::OutputChunk(
                        lossy_utf8(ready_part(old(self)@ + bytes@)),
                    ))
                    &&& valid_utf8(old(self)@ + bytes@) ==> final(self)@ == Seq::<u8>::empty()
                } else {
                    &&& reports(step.output, old(self)@)
                    &&& final(self)@ == Seq::<u8>::empty()
                    &&& step.finished
                    &&& old(self)@.len() > 0 ==> (step.output matches Some(e) && e@
                        == ShellEventView::OutputChunk(lossy_utf8(old(self)@)))
                },
                ReadOutcome::Failed => {
                    &&& reports(step.output, old(self)@)
                    &&& final(self)@ == Seq::<u8>::empty()
                    &&& step.finished
                    &&& old(self)@.len() > 0 ==> (step.output matches Some(e) && e@
                        == ShellEventView::OutputChunk(lossy_utf8(old(self)@)))
                },
            },
    {
        let mut data: Vec<u8> = Vec::new();
        std::mem::swap(&mut data, &mut self.pending);
        match outcome {
            ReadOutcome::Read(bytes) => {
                if bytes.len() > 0 {
                    let ghost before = data@;
                    let mut i: usize = 0;
                    while i < bytes.len()
                        invariant
                            i <= bytes.len(),
                            data@ == before + bytes@.take(i as int),
                        decreases bytes.len() - i,
                    {
                        data.push(bytes[i]);
                        assert(bytes@.take(i as int).push(bytes@[i as int]) =~= bytes@.take(
                            i + 1,
                        ));
                        i = i + 1;
                    }
                    assert(bytes@.take(bytes.len() as int) =~= bytes@);
                    let k = cut_point_of(&data);
                    proof {
                        let d = data@;
                        if valid_utf8(d) {
                            law_complete_read_is_reported_whole(d);
                        }
                        assert(ready_part(d) + held_part(d) =~= d);
                    }
                    let held = data.split_off(k);
                    self.pending = held;
                    CaptureStep { output: report(&data), finished: false }
                } else {
                    CaptureStep { output: report(&data), finished: true }
                }
            },
            ReadOutcome::Failed => CaptureStep { output: report(&data), finished: true },
        }
    }
}

/// The segments that successive `OutputCapture::step` calls report, starting
/// with `pending` held back, for the non-empty reads `reads` followed by the
/// end of the stream.
pub open spec fn capture_segments(pending: Seq<u8>, reads: Seq<Seq<u8>>) -> Seq<Seq<u8>>
    decreases reads.len(),
{
    if reads.len() == 0 {
        if pending.len() > 0 {
            seq![pending]
        } else {
            Seq::empty()
        }
    } else {
        let data = pending + reads[0];
        let rest = capture_segments(held_part(data), reads.drop_first());
        if cut_point(data) > 0 {
            seq![ready_part(data)] + rest
        } else {
            rest
        }
    }
}

/// At most three bytes, the start of one character, are ever held back.
pub proof fn law_held_back_is_short(data: Seq<u8>)
    ensures
        held_part(data).len() <= 3,
        held_part(data).len() > 0 ==> !is_continuation_byte(held_part(data)[0]),
{
}

/// Capture loses, duplicates and reorders no byte: the reported segments,
/// joined, are exactly the bytes held back at the start followed by all bytes
/// read; and no reported segment is empty.
pub proof fn law_capture_keeps_every_byte(pending: Seq<u8>, reads: Seq<Seq<u8>>)
    ensures
        capture_segments(pending, reads).flatten() == pending + reads.flatten(),
        forall|i: int|
            0 <= i < capture_segments(pending, reads).len() ==> #[trigger] capture_segments(
                pending,
                reads,
            )[i].len() > 0,
    decreases reads.len(),
{
    let segs = capture_segments(pending, reads);
    if reads.len() == 0 {
        if pending.len() > 0 {
            seq![pending].lemma_flatten_one_element();
        }
        assert(pending + reads.flatten() =~= pending);
    } else {
        let data = pending + reads[0];
        let k = cut_point(data);
        let rest = capture_segments(held_part(data), reads.drop_first());
        law_capture_keeps_every_byte(held_part(data), reads.drop_first());
        assert(ready_part(data) + held_part(data) =~= data);
        if k > 0 {
            lemma_flatten_concat(seq![ready_part(data)], rest);
            seq![ready_part(data)].lemma_flatten_one_element();
        } else {
            assert(held_part(data) =~= data);
        }
        assert(segs.flatten() =~= pending + reads.flatten());
    }
}

/// In a valid UTF-8 byte stream, the cut of any prefix falls on a character
/// boundary.
proof fn lemma_cut_is_boundary(t: Seq<u8>, n: int)
    requires
        valid_utf8(t),
        0 <= n <= t.len(),
    ensures
        0 <= cut_point(t.subrange(0, n)) <= n,
        is_char_boundary(t, cut_point(t.subrange(0, n))),
    decreases t.len(),
{
    let d = t.subrange(0, n);
    if n == 0 {
        assert(cut_point(d) == 0);
        return;
    }
    assert(valid_first_scalar(t));
    let w = length_of_first_scalar(t);
    let rest = pop_first_scalar(t);
    assert(valid_utf8(rest));
    assert(lead_width(t[0]) == w);
    assert(!is_continuation_byte(t[0]));
    assert(forall|i: int| 1 <= i < w ==> is_continuation_byte(#[trigger] t[i]));
    assert(is_char_boundary(t, w)) by {
        reveal_with_fuel(is_char_boundary, 2);
    }
    if n <= w {
        assert(forall|i: int| 0 <= i < n ==> d[i] == t[i]);
        assert(cut_point(d) == 0 || cut_point(d) == w);
    } else {
        let m = n - w;
        let d2 = rest.subrange(0, m);
        lemma_cut_is_boundary(rest, m);
        assert(valid_first_scalar(rest));
        assert(!is_continuation_byte(rest[0]));
        assert(forall|i: int| 0 <= i < m ==> d[w + i] == #[trigger] d2[i]);
        assert(cut_point(d) == w + cut_point(d2));
        assert(is_char_boundary(t, w + cut_point(d2)));
    }
}

/// Capture is lossless on valid UTF-8: when the bytes held back and read form
/// valid UTF-8, every reported segment is valid UTF-8 (no character is split
/// between two chunks), and the texts of the segments, joined, are the text
/// of all the bytes.
pub proof fn law_capture_valid_text_is_lossless(pending: Seq<u8>, reads: Seq<Seq<u8>>)
    requires
        valid_utf8(pending + reads.flatten()),
    ensures
        forall|i: int|
            0 <= i < capture_segments(pending, reads).len() ==> valid_utf8(
                #[trigger] capture_segments(pending, reads)[i],
            ),
        capture_segments(pending, reads).map_values(|s: Seq<u8>| decode_utf8(s)).flatten()
            == decode_utf8(pending + reads.flatten()),
    decreases reads.len(),
{
    let segs = capture_segments(pending, reads);
    let dec = |s: Seq<u8>| decode_utf8(s);
    if reads.len() == 0 {
        assert(pending + reads.flatten() =~= pending);
        if pending.len() > 0 {
            assert(segs.map_values(dec) =~= seq![decode_utf8(pending)]);
            seq![decode_utf8(pending)].lemma_flatten_one_element();
        } else {
            assert(segs.map_values(dec) =~= Seq::<Seq<char>>::empty());
            assert(decode_utf8(pending) =~= Seq::<char>::empty());
        }
    } else {
        let t = pending + reads.flatten();
        let data = pending + reads[0];
        let n = data.len() as int;
        let k = cut_point(data);
        let tail = reads.drop_first().flatten();
        assert(reads.flatten() == reads[0] + tail);
        assert(t =~= data + tail);
        assert(t.subrange(0, n) =~= data);
        lemma_cut_is_boundary(t, n);
        valid_utf8_split(t, k);
        decode_utf8_split(t, k);
        assert(t.subrange(0, k) =~= ready_part(data));
        assert(t.subrange(k, t.len() as int) =~= held_part(data) + tail);
        law_capture_valid_text_is_lossless(held_part(data), reads.drop_first());
        let rest = capture_segments(held_part(data), reads.drop_first());
        if k > 0 {
            assert(segs.map_values(dec) =~= seq![decode_utf8(ready_part(data))] + rest.map_values(
                dec,
            ));
            lemma_flatten_concat(seq![decode_utf8(ready_part(data))], rest.map_values(dec));
            seq![decode_utf8(ready_part(data))].lemma_flatten_one_element();
            assert forall|i: int| 0 <= i < segs.len() implies valid_utf8(#[trigger] segs[i]) by {
                if i > 0 {
                    assert(segs[i] == rest[i - 1]);
                }
            }
        } else {
            assert(ready_part(data) =~= Seq::<u8>::empty());
            assert(decode_utf8(ready_part(data)) =~= Seq::<char>::empty());
        }
    }
}

/// A read that ends on a character boundary is reported whole: when the bytes
/// held back and read form valid UTF-8, nothing is held back.
pub proof fn law_complete_read_is_reported_whole(d: Seq<u8>)
    requires
        valid_utf8(d),
    ensures
        cut_point(d) == d.len(),
        ready_part(d) == d,
        held_part(d) == Seq::<u8>::empty(),
{
    let n = d.len() as int;
    assert(d.subrange(0, n) =~= d);
    lemma_cut_is_boundary(d, n);
    let k = cut_point(d);
    if k < n {
        valid_utf8_split(d, k);
        let r = d.subrange(k, n);
        assert(valid_first_scalar(r));
        assert(r[0] == d[k]);
        assert(false);
    }
    assert(ready_part(d) =~= d);
    assert(held_part(d) =~= Seq::<u8>::empty());
}

/// What is held back is always the beginning of one multi-byte character
/// that lacks bytes: a leading byte of a 2-, 3- or 4-byte sequence followed
/// by continuation bytes, fewer in all than that sequence needs.
pub proof fn law_held_back_is_incomplete_character(d: Seq<u8>)
    ensures
        held_part(d).len() > 0 ==> {
            let h = held_part(d);
            &&& (is_leading_byte_width_2(h[0]) && h.len() < 2) || (is_leading_byte_width_3(h[0])
                && h.len() < 3) || (is_leading_byte_width_4(h[0]) && h.len() < 4)
            &&& forall|i: int| 1 <= i < h.len() ==> is_continuation_byte(#[trigger] h[i])
        },
{
}

/// A non-empty segment is always reported as an `OutputChunk` of its lossy
/// decoding, whatever bytes it starts with; an empty one produces no event.
pub proof fn law_every_segment_is_reported(output: Option<ShellEvent>, segment: Seq<u8>)
    requires
        reports(output, segment),
    ensures
        segment.len() > 0 ==> (output matches Some(e) && e@ == ShellEventView::OutputChunk(
            lossy_utf8(segment),
        )),
        segment.len() == 0 ==> output is None,
{
}

} // verus!
