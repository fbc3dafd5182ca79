//! Recordings of a terminal: what it showed and when, the file they are kept in, and their playback.

use crate::bytes::{
    law_le64_in_place, law_le64_is_local, law_le64_round_trip, le64, le64_bytes, push_u64, read_u64,
};
use vstd::prelude::*;

verus! {

/// The first bytes of a recording file.
pub open spec fn magic() -> Seq<u8> {
    seq![0x48u8, 0x41, 0x50, 0x43, 0x4c, 0x49, 0x5f, 0x52, 0x45, 0x43, 0x31]
}

pub ghost struct ChunkView {
    pub time: u64,
    pub bytes: Seq<u8>,
}

pub open spec fn chunk_views(chunks: Seq<(u64, Vec<u8>)>) -> Seq<ChunkView> {
    Seq::new(chunks.len(), |i: int| ChunkView { time: chunks[i].0, bytes: chunks[i].1@ })
}

/// How many bytes the chunks hold together.
pub open spec fn total_length(chunks: Seq<ChunkView>) -> nat
    decreases chunks.len(),
{
    if chunks.len() == 0 {
        0
    } else {
        total_length(chunks.drop_last()) + chunks.last().bytes.len()
    }
}

/// Whether no chunk is from before the one ahead of it.
pub open spec fn times_ascend(chunks: Seq<ChunkView>) -> bool {
    forall|i: int, j: int|
        0 <= i < j < chunks.len() ==> (#[trigger] chunks[i]).time <= (#[trigger] chunks[j]).time
}

/// The chunks with some more output; what is empty is passed over.
pub open spec fn appended(chunks: Seq<ChunkView>, output: ChunkView) -> Seq<ChunkView> {
    if output.bytes.len() == 0 {
        chunks
    } else {
        chunks.push(output)
    }
}

/// A recording that is being made. Times are in milliseconds of some clock.
pub struct Recording {
    pub chunks: Vec<(u64, Vec<u8>)>,
    pub started: u64,
    pub total_bytes: usize,
}

impl Recording {
    /// The count of bytes is that of the chunks, none of them is empty, and they come in the order
    /// of their times.
    pub open spec fn well_formed(self) -> bool {
        &&& self.total_bytes == total_length(chunk_views(self.chunks@))
        &&& forall|i: int| 0 <= i < self.chunks@.len() ==> (#[trigger] self.chunks@[i]).1@.len() > 0
        &&& times_ascend(chunk_views(self.chunks@))
    }

    /// When the last chunk came, or the start where there is none.
    pub open spec fn last_time(self) -> int {
        if self.chunks@.len() == 0 {
            self.started as int
        } else {
            self.started + self.chunks@.last().0
        }
    }

    pub fn new(now: u64) -> (r: Self)
        ensures
            r.well_formed(),
            chunk_views(r.chunks@) == Seq::<ChunkView>::empty(),
            r.started == now && r.total_bytes == 0,
    {
        let r = Recording { chunks: Vec::new(), started: now, total_bytes: 0 };
        assert(chunk_views(r.chunks@) =~= Seq::<ChunkView>::empty());
        r
    }

    /// Adds output; what is empty is passed over. The clock does not run backwards.
    pub fn append(&mut self, bytes: &[u8], now: u64)
        requires
            old(self).well_formed(),
            old(self).started <= now,
            old(self).last_time() <= now,
            old(self).total_bytes + bytes@.len() <= usize::MAX,
        ensures
            final(self).well_formed(),
            final(self).started == old(self).started,
            chunk_views(final(self).chunks@) == appended(
                chunk_views(old(self).chunks@),
                ChunkView { time: (now - old(self).started) as u64, bytes: bytes@ },
            ),
            old(self).last_time() <= final(self).last_time() <= now,
            final(self).total_bytes == old(self).total_bytes + bytes@.len(),
    {
        if bytes.len() == 0 {
            return;
        }
        let mut copy: Vec<u8> = Vec::new();
        copy.extend_from_slice(bytes);
        assert(copy@ =~= bytes@);
        let delta: u64 = now - self.started;
        self.chunks.push((delta, copy));
        self.total_bytes = self.total_bytes + bytes.len();
        proof {
            let before = chunk_views(old(self).chunks@);
            let after = chunk_views(self.chunks@);
            assert(after =~= before.push(ChunkView { time: delta, bytes: bytes@ }));
            assert(after.drop_last() =~= before);
            assert forall|i: int, j: int| 0 <= i < j < after.len() implies (
            #[trigger] after[i]).time <= (#[trigger] after[j]).time by {
                assert(after[i] == before[i]);
                if j < before.len() {
                    assert(after[j] == before[j]);
                } else if i < before.len() - 1 {
                    assert(before[i].time <= before[before.len() - 1].time);
                }
            }
        }
    }

    pub fn event_count(&self) -> (r: usize)
        ensures
            r == self.chunks@.len(),
    {
        self.chunks.len()
    }

    pub fn total_bytes(&self) -> (r: usize)
        requires
            self.well_formed(),
        ensures
            r == total_length(chunk_views(self.chunks@)),
    {
        self.total_bytes
    }

    pub fn elapsed_secs(&self, now: u64) -> (r: u64)
        requires
            self.started <= now,
        ensures
            r == (now - self.started) / 1000,
    {
        (now - self.started) / 1000
    }

    /// The file of the recording.
    pub fn encode(&self) -> (r: Vec<u8>)
        ensures
            r@ == magic() + encoded(chunk_views(self.chunks@)),
    {
        let mut out: Vec<u8> = vec![
            0x48, 0x41, 0x50, 0x43, 0x4c, 0x49, 0x5f, 0x52, 0x45, 0x43, 0x31
        ];
        let ghost all = chunk_views(self.chunks@);
        let mut i: usize = 0;
        assert(all.take(0) =~= Seq::empty());
        assert(out@ =~= magic() + encoded(all.take(0)));
        while i < self.chunks.len()
            invariant
                i <= self.chunks@.len(),
                all == chunk_views(self.chunks@),
                out@ == magic() + encoded(all.take(i as int)),
            decreases self.chunks@.len() - i,
        {
            let chunk = &self.chunks[i];
            push_chunk(&mut out, chunk.0, chunk.1.as_slice());
            proof {
                assert(all.take(i + 1).drop_last() =~= all.take(i as int));
                lemma_gathered(magic(), encoded(all.take(i as int)), chunk_bytes(all[i as int]));
            }
            i = i + 1;
        }
        assert(all.take(i as int) =~= all);
        out
    }
}

/// The chunks of a new recording after a series of appends.
pub open spec fn recorded(outputs: Seq<ChunkView>) -> Seq<ChunkView>
    decreases outputs.len(),
{
    if outputs.len() == 0 {
        Seq::empty()
    } else {
        appended(recorded(outputs.drop_last()), outputs.last())
    }
}

/// How many of some outputs are not empty.
pub open spec fn filled_count(outputs: Seq<ChunkView>) -> nat
    decreases outputs.len(),
{
    if outputs.len() == 0 {
        0
    } else {
        filled_count(outputs.drop_last()) + if outputs.last().bytes.len() > 0 {
            1nat
        } else {
            0
        }
    }
}

/// After any series of appends a recording holds as many bytes as came, in as many chunks as there
/// were outputs that are not empty; it holds no bytes exactly where it holds no chunks. The chunks
/// come in the order of their times where the outputs did.
pub proof fn law_recording_counts_what_came(outputs: Seq<ChunkView>)
    ensures
        total_length(recorded(outputs)) == total_length(outputs),
        recorded(outputs).len() == filled_count(outputs),
        total_length(recorded(outputs)) == 0 <==> recorded(outputs).len() == 0,
        times_ascend(outputs) ==> times_ascend(recorded(outputs)),
    decreases outputs.len(),
{
    if outputs.len() > 0 {
        let earlier = outputs.drop_last();
        let last = outputs.last();
        law_recording_counts_what_came(earlier);
        if last.bytes.len() > 0 {
            assert(recorded(outputs).drop_last() =~= recorded(earlier));
        }
        if times_ascend(outputs) {
            assert(times_ascend(earlier)) by {
                assert forall|i: int, j: int| 0 <= i < j < earlier.len() implies (
                #[trigger] earlier[i]).time <= (#[trigger] earlier[j]).time by {
                    assert(earlier[i] == outputs[i] && earlier[j] == outputs[j]);
                }
            }
            lemma_recorded_is_bounded(earlier, last.time);
        }
    }
}

/// No chunk of a recording is later than all of the outputs.
proof fn lemma_recorded_is_bounded(outputs: Seq<ChunkView>, time: u64)
    requires
        forall|i: int| 0 <= i < outputs.len() ==> (#[trigger] outputs[i]).time <= time,
    ensures
        forall|i: int|
            0 <= i < recorded(outputs).len() ==> (#[trigger] recorded(outputs)[i]).time <= time,
    decreases outputs.len(),
{
    if outputs.len() > 0 {
        let earlier = outputs.drop_last();
        assert forall|i: int| 0 <= i < earlier.len() implies (#[trigger] earlier[i]).time
            <= time by {
            assert(earlier[i] == outputs[i]);
        }
        lemma_recorded_is_bounded(earlier, time);
        assert(outputs.last() == outputs[outputs.len() - 1]);
        assert forall|i: int| 0 <= i < recorded(outputs).len() implies (
        #[trigger] recorded(outputs)[i]).time <= time by {
            if i < recorded(earlier).len() {
                assert(recorded(outputs)[i] == recorded(earlier)[i]);
            }
        }
    }
}

/// A chunk in a file: its time, its length and its bytes.
pub open spec fn chunk_bytes(chunk: ChunkView) -> Seq<u8> {
    le64_bytes(chunk.time as int) + le64_bytes(chunk.bytes.len() as int) + chunk.bytes
}

fn push_chunk(out: &mut Vec<u8>, time: u64, bytes: &[u8])
    ensures
        final(out)@ == old(out)@ + chunk_bytes(ChunkView { time, bytes: bytes@ }),
{
    let ghost before = out@;
    push_u64(out, time);
    push_u64(out, bytes.len() as u64);
    out.extend_from_slice(bytes);
    assert(out@ =~= before + chunk_bytes(ChunkView { time, bytes: bytes@ }));
}

proof fn lemma_gathered(a: Seq<u8>, b: Seq<u8>, c: Seq<u8>)
    ensures
        (a + b) + c == a + (b + c),
{
    assert((a + b) + c =~= a + (b + c));
}

/// The chunks of a file.
pub open spec fn encoded(chunks: Seq<ChunkView>) -> Seq<u8>
    decreases chunks.len(),
{
    if chunks.len() == 0 {
        Seq::empty()
    } else {
        encoded(chunks.drop_last()) + chunk_bytes(chunks.last())
    }
}

/// What a reader makes of the rest of a file.
pub ghost enum Decoded {
    Chunks(Seq<ChunkView>),
    /// The head of a chunk is cut off.
    NoHead,
    /// The bytes of a chunk are cut off.
    NoBytes,
}

pub open spec fn decoded(rest: Seq<u8>) -> Decoded
    decreases rest.len(),
{
    if rest.len() == 0 {
        Decoded::Chunks(Seq::empty())
    } else if rest.len() < 16 {
        Decoded::NoHead
    } else {
        let length = le64(rest, 8);
        if length > rest.len() - 16 {
            Decoded::NoBytes
        } else {
            let chunk = ChunkView {
                time: le64(rest, 0) as u64,
                bytes: rest.subrange(16, 16 + length),
            };
            proof {
                reveal(le64);
            }
            match decoded(rest.skip(16 + length)) {
                Decoded::Chunks(chunks) => Decoded::Chunks(seq![chunk] + chunks),
                other => other,
            }
        }
    }
}

proof fn lemma_skipped_number(data: Seq<u8>, at: int, k: int)
    requires
        0 <= at,
        0 <= k,
        at + k + 8 <= data.len(),
    ensures
        le64(data.skip(at), k) == le64(data, at + k),
{
    law_le64_is_local(data.skip(at), k);
    law_le64_is_local(data, at + k);
    assert(data.skip(at).subrange(k, k + 8) =~= data.subrange(at + k, at + k + 8));
}

fn copy_range(data: &[u8], start: usize, end: usize) -> (r: Vec<u8>)
    requires
        start <= end <= data@.len(),
    ensures
        r@ == data@.subrange(start as int, end as int),
{
    let mut bytes: Vec<u8> = Vec::new();
    let mut k: usize = start;
    assert(data@.subrange(start as int, start as int) =~= Seq::empty());
    while k < end
        invariant
            start <= k <= end <= data@.len(),
            bytes@ == data@.subrange(start as int, k as int),
        decreases end - k,
    {
        bytes.push(data[k]);
        assert(bytes@ =~= data@.subrange(start as int, k + 1));
        k = k + 1;
    }
    bytes
}

/// Reads a recording file.
pub fn decode(data: &[u8]) -> (r: Result<Vec<(u64, Vec<u8>)>, String>)
    ensures
        match r {
            Ok(chunks) => magic().is_prefix_of(data@) && decoded(data@.skip(11))
                == Decoded::Chunks(chunk_views(chunks@)),
            Err(message) => if !magic().is_prefix_of(data@) {
                message@ == "不是 hapcli 录制文件 (.hrec)"@
            } else if decoded(data@.skip(11)) is NoHead {
                message@ == "录制文件损坏：头部不完整"@
            } else {
                decoded(data@.skip(11)) is NoBytes && message@
                    == "录制文件损坏：数据长度越界"@
            },
        },
{
    let head = [0x48u8, 0x41, 0x50, 0x43, 0x4c, 0x49, 0x5f, 0x52, 0x45, 0x43, 0x31];
    assert(head@ =~= magic());
    if data.len() < 11 {
        return Err("不是 hapcli 录制文件 (.hrec)".to_owned());
    }
    let mut i: usize = 0;
    while i < 11
        invariant
            i <= 11 <= data@.len(),
            head@ == magic(),
            forall|j: int| 0 <= j < i ==> data@[j] == magic()[j],
        decreases 11 - i,
    {
        if data[i] != head[i] {
            assert(data@.subrange(0, 11)[i as int] != magic()[i as int]);
            return Err("不是 hapcli 录制文件 (.hrec)".to_owned());
        }
        i = i + 1;
    }
    assert(data@.subrange(0, 11) =~= magic());
    let ghost whole = decoded(data@.skip(11));
    let mut at: usize = 11;
    let mut chunks: Vec<(u64, Vec<u8>)> = Vec::new();
    assert(chunk_views(chunks@) =~= Seq::empty());
    proof {
        if let Decoded::Chunks(rest) = whole {
            assert(Seq::<ChunkView>::empty() + rest =~= rest);
        }
    }
    while at < data.len()
        invariant
            11 <= at <= data@.len(),
            magic().is_prefix_of(data@),
            whole == decoded(data@.skip(11)),
            whole == (match decoded(data@.skip(at as int)) {
                Decoded::Chunks(rest) => Decoded::Chunks(chunk_views(chunks@) + rest),
                other => other,
            }),
        decreases data@.len() - at,
    {
        let ghost rest = data@.skip(at as int);
        if data.len() - at < 16 {
            return Err("录制文件损坏：头部不完整".to_owned());
        }
        let time: u64 = read_u64(data, at);
        let length: u64 = read_u64(data, at + 8);
        proof {
            lemma_skipped_number(data@, at as int, 0);
            lemma_skipped_number(data@, at as int, 8);
        }
        if length > (data.len() - at - 16) as u64 {
            return Err("录制文件损坏：数据长度越界".to_owned());
        }
        let start: usize = at + 16;
        let end: usize = start + length as usize;
        let bytes = copy_range(data, start, end);
        let ghost before = chunks@;
        let ghost chunk = ChunkView { time, bytes: bytes@ };
        chunks.push((time, bytes));
        proof {
            assert(bytes@ =~= rest.subrange(16, 16 + length));
            assert(rest.skip(16 + length) =~= data@.skip(end as int));
            assert(chunk_views(chunks@) =~= chunk_views(before).push(chunk));
            if let Decoded::Chunks(tail) = decoded(data@.skip(end as int)) {
                assert(chunk_views(before) + (seq![chunk] + tail) =~= chunk_views(chunks@) + tail);
            }
        }
        at = end;
    }
    proof {
        assert(data@.skip(at as int) =~= Seq::empty());
        assert(chunk_views(chunks@) + Seq::<ChunkView>::empty() =~= chunk_views(chunks@));
    }
    Ok(chunks)
}

proof fn lemma_encoded_first(chunks: Seq<ChunkView>)
    requires
        chunks.len() > 0,
    ensures
        encoded(chunks) == chunk_bytes(chunks[0]) + encoded(chunks.drop_first()),
    decreases chunks.len(),
{
    if chunks.len() == 1 {
        assert(chunks.drop_last() =~= Seq::empty());
        assert(chunks.drop_first() =~= Seq::empty());
        assert(encoded(chunks.drop_last()) =~= Seq::empty());
        assert(encoded(chunks) =~= chunk_bytes(chunks[0]) + encoded(chunks.drop_first()));
    } else {
        lemma_encoded_first(chunks.drop_last());
        assert(chunks.drop_last().drop_first() =~= chunks.drop_first().drop_last());
        assert(chunks.drop_last()[0] == chunks[0]);
        assert(chunks.drop_first().last() == chunks.last());
        assert(encoded(chunks) =~= chunk_bytes(chunks[0]) + encoded(chunks.drop_first()));
    }
}

/// What is written of a recording is read back.
pub proof fn law_recording_round_trip(chunks: Seq<ChunkView>)
    requires
        forall|i: int| 0 <= i < chunks.len() ==> (#[trigger] chunks[i]).bytes.len() <= u64::MAX,
    ensures
        magic().is_prefix_of(magic() + encoded(chunks)),
        decoded((magic() + encoded(chunks)).skip(11)) == Decoded::Chunks(chunks),
{
    let file = magic() + encoded(chunks);
    assert(file.subrange(0, 11) =~= magic());
    assert(file.skip(11) =~= encoded(chunks));
    lemma_chunks_round_trip(chunks);
}

proof fn lemma_chunks_round_trip(chunks: Seq<ChunkView>)
    requires
        forall|i: int| 0 <= i < chunks.len() ==> (#[trigger] chunks[i]).bytes.len() <= u64::MAX,
    ensures
        decoded(encoded(chunks)) == Decoded::Chunks(chunks),
    decreases chunks.len(),
{
    if chunks.len() == 0 {
        assert(chunks =~= Seq::empty());
    } else {
        let first = chunks[0];
        let others = chunks.drop_first();
        let rest = encoded(chunks);
        let head = le64_bytes(first.time as int);
        let size = le64_bytes(first.bytes.len() as int);
        let length = first.bytes.len() as int;
        lemma_encoded_first(chunks);
        law_le64_round_trip(first.time as int);
        law_le64_round_trip(length);
        assert forall|i: int| 0 <= i < others.len() implies (#[trigger] others[i]).bytes.len()
            <= u64::MAX by {
            assert(others[i] == chunks[i + 1]);
        }
        lemma_chunks_round_trip(others);
        assert(rest =~= head + size + first.bytes + encoded(others));
        assert(rest =~= Seq::empty() + head + (size + first.bytes + encoded(others)));
        assert(rest =~= head + size + (first.bytes + encoded(others)));
        law_le64_in_place(
            Seq::empty(),
            first.time as int,
            size + first.bytes + encoded(others),
        );
        law_le64_in_place(head, length, first.bytes + encoded(others));
        assert(rest.subrange(16, 16 + length) =~= first.bytes);
        assert(rest.skip(16 + length) =~= encoded(others));
        assert(seq![first] + others =~= chunks);
    }
}

/// A recording that is being played.
pub struct PlaybackState {
    pub chunks: Vec<(u64, Vec<u8>)>,
    pub cursor: usize,
    pub playing: bool,
    pub file_name: String,
}

/// The bytes of the chunks from `from` up to `end`.
pub open spec fn stretch(chunks: Seq<(u64, Vec<u8>)>, from: int, end: int) -> Seq<u8>
    decreases end - from,
{
    if end <= from {
        Seq::empty()
    } else {
        stretch(chunks, from, end - 1) + chunks[end - 1].1@
    }
}

impl PlaybackState {
    pub open spec fn well_formed(self) -> bool {
        self.cursor <= self.chunks@.len()
    }

    pub fn new(chunks: Vec<(u64, Vec<u8>)>, file_name: String) -> (r: Self)
        ensures
            r.well_formed(),
            r.chunks@ == chunks@ && r.file_name@ == file_name@,
            r.cursor == 0 && r.playing,
    {
        PlaybackState { chunks, cursor: 0, playing: true, file_name }
    }

    pub fn finished(&self) -> (r: bool)
        ensures
            r == (self.cursor >= self.chunks@.len()),
    {
        self.cursor >= self.chunks.len()
    }

    /// Plays up to a time, in whole milliseconds from the start: the chunks that are due come out,
    /// up to the first that is not. At the end the playback stops.
    pub fn advance(&mut self, elapsed: u64) -> (r: Vec<u8>)
        requires
            old(self).well_formed(),
        ensures
            final(self).well_formed(),
            final(self).chunks == old(self).chunks,
            final(self).file_name == old(self).file_name,
            !old(self).playing ==> r@.len() == 0 && *final(self) == *old(self),
            old(self).playing ==> {
                &&& old(self).cursor <= final(self).cursor
                &&& r@ == stretch(
                    old(self).chunks@,
                    old(self).cursor as int,
                    final(self).cursor as int,
                )
                &&& forall|i: int|
                    old(self).cursor <= i < final(self).cursor ==> (#[trigger] old(
                        self,
                    ).chunks@[i]).0 <= elapsed
                &&& final(self).cursor < old(self).chunks@.len() ==> old(
                    self,
                ).chunks@[final(self).cursor as int].0 > elapsed
                &&& final(self).playing == (final(self).cursor < old(self).chunks@.len())
            },
    {
        let mut out: Vec<u8> = Vec::new();
        if !self.playing {
            return out;
        }
        let ghost first = self.cursor as int;
        assert(out@ =~= stretch(self.chunks@, first, first));
        while self.cursor < self.chunks.len() && self.chunks[self.cursor].0 <= elapsed
            invariant
                first <= self.cursor <= self.chunks@.len(),
                self.chunks == old(self).chunks,
                self.file_name == old(self).file_name,
                self.playing,
                old(self).playing,
                first == old(self).cursor,
                out@ == stretch(self.chunks@, first, self.cursor as int),
                forall|i: int| first <= i < self.cursor ==> (#[trigger] self.chunks@[i]).0 <= elapsed,
            decreases self.chunks@.len() - self.cursor,
        {
            out.extend_from_slice(self.chunks[self.cursor].1.as_slice());
            assert(out@ =~= stretch(self.chunks@, first, self.cursor + 1));
            self.cursor = self.cursor + 1;
        }
        if self.finished() {
            self.playing = false;
        }
        out
    }
}

/// Playing on from where playing stopped shows what playing in one go shows.
pub proof fn law_playback_is_gapless(chunks: Seq<(u64, Vec<u8>)>, a: int, b: int, c: int)
    requires
        0 <= a <= b <= c <= chunks.len(),
    ensures
        stretch(chunks, a, b) + stretch(chunks, b, c) == stretch(chunks, a, c),
    decreases c - b,
{
    if b < c {
        law_playback_is_gapless(chunks, a, b, c - 1);
        assert(stretch(chunks, a, b) + stretch(chunks, b, c) =~= stretch(chunks, a, c - 1)
            + chunks[c - 1].1@);
    } else {
        assert(stretch(chunks, a, b) + stretch(chunks, b, c) =~= stretch(chunks, a, c));
    }
}

/// A recording file starts with the eleven letters `HAPCLI_REC1`.
pub proof fn law_files_are_marked()
    ensures
        magic().len() == 11,
        forall|i: int|
            0 <= i < 11 ==> #[trigger] magic()[i] as int == seq![
                'H',
                'A',
                'P',
                'C',
                'L',
                'I',
                '_',
                'R',
                'E',
                'C',
                '1',
            ][i] as int,
{
}

/// A chunk takes sixteen bytes more than it holds: its time in eight, its length in eight, then
/// what it holds.
pub proof fn law_chunks_are_laid_out(chunk: ChunkView)
    requires
        chunk.bytes.len() <= u64::MAX,
    ensures
        chunk_bytes(chunk).len() == 16 + chunk.bytes.len(),
        le64(chunk_bytes(chunk), 0) == chunk.time,
        le64(chunk_bytes(chunk), 8) == chunk.bytes.len(),
        chunk_bytes(chunk).skip(16) == chunk.bytes,
{
    let all = chunk_bytes(chunk);
    let head = le64_bytes(chunk.time as int);
    let length = le64_bytes(chunk.bytes.len() as int);
    law_le64_round_trip(chunk.time as int);
    law_le64_round_trip(chunk.bytes.len() as int);
    crate::bytes::law_low_bytes_come_first(all, 0);
    crate::bytes::law_low_bytes_come_first(head, 0);
    crate::bytes::law_low_bytes_come_first(all, 8);
    crate::bytes::law_low_bytes_come_first(length, 0);
    assert(forall|i: int| 0 <= i < 8 ==> #[trigger] head[i] == all[i]);
    assert(forall|i: int| 0 <= i < 8 ==> #[trigger] length[i] == all[8 + i]);
    assert(all.skip(16) =~= chunk.bytes);
}

/// Chunks follow each other in a file without anything between them.
pub proof fn law_chunks_follow_each_other(a: Seq<ChunkView>, b: Seq<ChunkView>)
    ensures
        encoded(a + b) == encoded(a) + encoded(b),
        b.len() == 1 ==> encoded(b) == chunk_bytes(b[0]),
        total_length(a + b) == total_length(a) + total_length(b),
        b.len() == 1 ==> total_length(b) == b[0].bytes.len(),
    decreases b.len(),
{
    if b.len() == 0 {
        assert(a + b =~= a);
        assert(encoded(a + b) =~= encoded(a) + encoded(b));
    } else {
        law_chunks_follow_each_other(a, b.drop_last());
        assert((a + b).drop_last() =~= a + b.drop_last());
        assert(encoded(a + b) =~= encoded(a) + encoded(b));
        if b.len() == 1 {
            assert(b.drop_last() =~= Seq::<ChunkView>::empty());
            assert(encoded(b.drop_last()) =~= Seq::<u8>::empty());
            assert(total_length(b.drop_last()) == 0);
            assert(encoded(b) =~= chunk_bytes(b[0]));
        }
    }
}

/// A file that ends inside the head of a chunk, or before the last byte that the head tells of,
/// is refused.
pub proof fn law_cut_files_are_refused(rest: Seq<u8>)
    ensures
        0 < rest.len() < 16 ==> decoded(rest) is NoHead,
        rest.len() >= 16 && le64(rest, 8) > rest.len() - 16 ==> decoded(rest) is NoBytes,
        rest.len() == 0 ==> decoded(rest) == Decoded::Chunks(Seq::empty()),
{
}

/// Output that is recorded comes last, with its time, and changes nothing before it; nothing is
/// recorded of nothing.
pub proof fn law_output_is_recorded_last(chunks: Seq<ChunkView>, output: ChunkView)
    ensures
        output.bytes.len() == 0 ==> appended(chunks, output) == chunks,
        output.bytes.len() > 0 ==> appended(chunks, output).last() == output && appended(
            chunks,
            output,
        ).drop_last() == chunks,
{
    assert(output.bytes.len() > 0 ==> appended(chunks, output).drop_last() =~= chunks);
}

/// Playing one chunk shows what it holds; playing none shows nothing.
pub proof fn law_a_played_chunk_is_shown(chunks: Seq<(u64, Vec<u8>)>, at: int)
    requires
        0 <= at < chunks.len(),
    ensures
        stretch(chunks, at, at + 1) == chunks[at].1@,
        stretch(chunks, at, at).len() == 0,
{
    assert(stretch(chunks, at, at) =~= Seq::<u8>::empty());
    assert(stretch(chunks, at, at + 1) =~= chunks[at].1@);
}

} // verus!
