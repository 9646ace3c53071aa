//! The solar monitor: from averaged readings to uploads.
//!
//! Every averaged reading is stamped with the wall clock and joins the
//! batch that is open. The twelfth reading closes the batch: it is encoded
//! and handed out, and the next reading opens a new one. A reading that
//! arrives before the wall clock is set is dropped.

use crate::bounded::{Entries, UploadVec};
use crate::proto::{upload_wire, Upload, UploadEntry, UploadView};
use crate::sensor::ve_direct::Reading;
use vstd::prelude::*;

verus! {

/// A whole number as 32 signed bits hold it: numbers out of range wrap
/// around.
pub open spec fn wrap_i32(x: int) -> int {
    (x + 0x8000_0000) % 0x1_0000_0000 - 0x8000_0000
}

/// The seconds from `start` to `now` as 32 signed bits hold them.
pub fn offset_seconds(now: i64, start: i64) -> (r: i32)
    ensures
        r == wrap_i32(now - start),
{
    let shifted: i128 = (now as i128) - (start as i128) + 0x8000_0000 + 0x1_0000_0000_0000_0000;
    proof {
        vstd::arithmetic::div_mod::lemma_mod_multiples_vanish(
            0x1_0000_0000,
            now - start + 0x8000_0000,
            0x1_0000_0000,
        );
        assert(0x1_0000_0000 * 0x1_0000_0000 == 0x1_0000_0000_0000_0000int);
    }
    ((shifted % 0x1_0000_0000) - 0x8000_0000) as i32
}

/// The batch after a reading taken at `now`: a new batch that begins at
/// `now` with the reading at offset 0 where none is open, and otherwise the
/// open batch with the reading at its distance from the start.
pub open spec fn batch_with(open: Option<UploadView>, reading: Reading, now: int) -> UploadView {
    match open {
        None => UploadView {
            start_timestamp: now,
            entries: seq![UploadEntry { offset_in_seconds: 0, reading }],
        },
        Some(batch) => UploadView {
            start_timestamp: batch.start_timestamp,
            entries: batch.entries.push(
                UploadEntry {
                    offset_in_seconds: wrap_i32(now - batch.start_timestamp) as i32,
                    reading,
                },
            ),
        },
    }
}

/// One step of the monitor: the batch that is open afterwards, and the
/// batch that is handed out. Without the time the reading is dropped. With
/// it the reading joins the batch; a batch of twelve is handed out and none
/// is open afterwards.
pub open spec fn monitor_step(open: Option<UploadView>, reading: Reading, now: Option<int>) -> (
    Option<UploadView>,
    Option<UploadView>,
) {
    match now {
        None => (open, None),
        Some(t) => {
            let batch = batch_with(open, reading, t);
            if batch.entries.len() >= 12 {
                (None, Some(batch))
            } else {
                (Some(batch), None)
            }
        },
    }
}

/// The batch that is open and the batches handed out after a run of
/// readings, each with the time at which it was taken.
pub open spec fn monitor_run(
    open: Option<UploadView>,
    readings: Seq<(Reading, Option<int>)>,
) -> (Option<UploadView>, Seq<UploadView>)
    decreases readings.len(),
{
    if readings.len() == 0 {
        (open, Seq::empty())
    } else {
        let (before, handed) = monitor_run(open, readings.drop_last());
        let (after, out) = monitor_step(before, readings.last().0, readings.last().1);
        match out {
            Some(batch) => (after, handed.push(batch)),
            None => (after, handed),
        }
    }
}

/// Turns averaged readings into encoded uploads.
pub struct Runner {
    upload: Option<Upload>,
}

impl View for Runner {
    type V = Option<UploadView>;

    closed spec fn view(&self) -> Option<UploadView> {
        match self.upload {
            Some(upload) => Some(upload@),
            None => None,
        }
    }
}

/// Whether a batch may be open: it holds at least one entry and fewer than
/// twelve.
pub open spec fn is_open_batch(open: Option<UploadView>) -> bool {
    open matches Some(batch) ==> 1 <= batch.entries.len() < 12
}

impl Runner {
    /// Whether the monitor is sound (see [`is_open_batch`]).
    pub open spec fn wf(&self) -> bool {
        is_open_batch(self@)
    }

    /// A monitor with no batch open.
    pub fn new() -> (r: Self)
        ensures
            r.wf(),
            r@.is_none(),
    {
        Runner { upload: None }
    }

    /// The number of entries in the open batch; zero where none is open.
    pub fn pending(&self) -> (r: usize)
        ensures
            match self@ {
                Some(batch) => r == batch.entries.len(),
                None => r == 0,
            },
    {
        match &self.upload {
            Some(upload) => upload.entries.len(),
            None => 0,
        }
    }

    /// Takes an averaged reading together with the wall-clock time, in
    /// seconds since 1970, if the clock is set. Hands out the wire form of
    /// the batch where the reading is its twelfth.
    pub fn handle_reading(&mut self, reading: Reading, now: Option<i64>) -> (r: Option<UploadVec>)
        requires
            old(self).wf(),
        ensures
            final(self).wf(),
            final(self)@ == monitor_step(old(self)@, reading, now_of(now)).0,
            match monitor_step(old(self)@, reading, now_of(now)).1 {
                Some(batch) => r.is_some() && r.unwrap()@ == upload_wire(batch),
                None => r.is_none(),
            },
    {
        let timestamp = match now {
            Some(t) => t,
            None => { return None; },
        };
        let batch = match self.upload.take() {
            Some(mut upload) => {
                let offset = offset_seconds(timestamp, upload.start_timestamp);
                let _ = upload.entries.push(UploadEntry { offset_in_seconds: offset, reading });
                upload
            },
            None => {
                let mut entries = Entries::new();
                let _ = entries.push(UploadEntry { offset_in_seconds: 0, reading });
                Upload { start_timestamp: timestamp, entries }
            },
        };
        assert(batch@.entries =~= batch_with(old(self)@, reading, timestamp as int).entries);
        if batch.entries.is_full() {
            proof {
                crate::proto::lemma_upload_len(batch);
            }
            let encoded = batch.encode();
            UploadVec::from_slice(encoded.as_slice())
        } else {
            self.upload = Some(batch);
            None
        }
    }
}

/// The time as a whole number, if there is one.
pub open spec fn now_of(now: Option<i64>) -> Option<int> {
    match now {
        Some(t) => Some(t as int),
        None => None,
    }
}

/// Whether every reading of a run comes with the time.
pub open spec fn all_timed(readings: Seq<(Reading, Option<int>)>) -> bool {
    forall|i: int| 0 <= i < readings.len() ==> (#[trigger] readings[i]).1.is_some()
}

/// While the clock is set, a monitor that starts with no batch open has,
/// after `n` readings, handed out one batch for every full dozen, each of
/// twelve entries, and holds the readings beyond the last dozen in its open
/// batch, which began with the first of them.
pub proof fn lemma_monitor_batches(readings: Seq<(Reading, Option<int>)>)
    requires
        all_timed(readings),
    ensures
        ({
            let (open, handed) = monitor_run(None, readings);
            &&& handed.len() == readings.len() / 12
            &&& forall|k: int| 0 <= k < handed.len() ==> (#[trigger] handed[k]).entries.len() == 12
            &&& readings.len() % 12 == 0 ==> open.is_none()
            &&& readings.len() % 12 != 0 ==> open.is_some() && open.unwrap().entries.len()
                == readings.len() % 12 && open.unwrap().entries[0].offset_in_seconds == 0
                && open.unwrap().start_timestamp == readings[readings.len() - readings.len()
                % 12].1.unwrap()
        }),
    decreases readings.len(),
{
    if readings.len() > 0 {
        let before = readings.drop_last();
        assert(all_timed(before)) by {
            assert forall|i: int| 0 <= i < before.len() implies (#[trigger] before[i]).1.is_some() by {
                assert(before[i] == readings[i]);
            }
        }
        lemma_monitor_batches(before);
        let n = readings.len() as int;
        assert(readings.last() == readings[n - 1]);
        if (n - 1) % 12 != 0 {
            assert(before[(n - 1) - (n - 1) % 12] == readings[(n - 1) - (n - 1) % 12]);
        }
    }
}

/// The thirteenth reading: after thirteen readings taken while the clock
/// is set, a monitor that started with no batch open has handed out exactly
/// one batch, made of the first twelve, and its open batch holds the
/// thirteenth alone, at offset 0, and begins at the time of that reading.
pub proof fn lemma_thirteenth_reading_opens_batch(readings: Seq<(Reading, Option<int>)>)
    requires
        readings.len() == 13,
        all_timed(readings),
    ensures
        ({
            let (open, handed) = monitor_run(None, readings);
            &&& handed.len() == 1
            &&& handed[0].entries.len() == 12
            &&& open == Some(
                UploadView {
                    start_timestamp: readings[12].1.unwrap(),
                    entries: seq![UploadEntry { offset_in_seconds: 0, reading: readings[12].0 }],
                },
            )
        }),
{
    lemma_monitor_batches(readings);
    lemma_monitor_batches(readings.drop_last());
    assert(all_timed(readings.drop_last())) by {
        assert forall|i: int| 0 <= i < 12 implies (#[trigger] readings.drop_last()[i]).1.is_some() by {
            assert(readings.drop_last()[i] == readings[i]);
        }
    }
    assert(readings.last() == readings[12]);
    let (open, handed) = monitor_run(None, readings);
    assert(open.unwrap().entries =~= seq![
        UploadEntry { offset_in_seconds: 0, reading: readings[12].0 },
    ]);
}

/// The batch made of readings taken one after the other: it begins at the
/// time of the first, and holds every reading with its distance from that
/// time.
pub open spec fn batch_of(readings: Seq<(Reading, Option<int>)>) -> UploadView {
    UploadView {
        start_timestamp: readings[0].1.unwrap(),
        entries: Seq::new(
            readings.len(),
            |j: int|
                UploadEntry {
                    offset_in_seconds: wrap_i32(readings[j].1.unwrap() - readings[0].1.unwrap())
                        as i32,
                    reading: readings[j].0,
                },
        ),
    }
}

/// Up to eleven readings taken while the clock is set, by a monitor that
/// started with no batch open, are all in the open batch, and nothing is
/// handed out.
pub proof fn lemma_batch_grows(readings: Seq<(Reading, Option<int>)>)
    requires
        1 <= readings.len() < 12,
        all_timed(readings),
    ensures
        monitor_run(None, readings) == (Some(batch_of(readings)), Seq::<UploadView>::empty()),
    decreases readings.len(),
{
    let before = readings.drop_last();
    assert(readings.last() == readings[readings.len() - 1]);
    if readings.len() == 1 {
        assert(monitor_run(None, before) == (None::<UploadView>, Seq::<UploadView>::empty()));
        assert(batch_of(readings).entries =~= seq![
            UploadEntry { offset_in_seconds: 0, reading: readings[0].0 },
        ]);
    } else {
        assert(all_timed(before)) by {
            assert forall|i: int| 0 <= i < before.len() implies (#[trigger] before[i]).1.is_some() by {
                assert(before[i] == readings[i]);
            }
        }
        lemma_batch_grows(before);
        assert(before[0] == readings[0]);
        assert(batch_of(readings).entries =~= batch_of(before).entries.push(
            UploadEntry {
                offset_in_seconds: wrap_i32(
                    readings.last().1.unwrap() - batch_of(before).start_timestamp,
                ) as i32,
                reading: readings.last().0,
            },
        )) by {
            assert forall|j: int| 0 <= j < before.len() implies batch_of(readings).entries[j]
                == batch_of(before).entries[j] by {
                assert(before[j] == readings[j]);
            }
        }
    }
}

/// A dozen: twelve readings taken while the clock is set, by a monitor
/// that started with no batch open, are handed out as one batch that begins
/// at the time of the first and holds every reading with its distance from
/// that time; no batch is open afterwards.
pub proof fn lemma_dozen_is_handed_out(readings: Seq<(Reading, Option<int>)>)
    requires
        readings.len() == 12,
        all_timed(readings),
    ensures
        monitor_run(None, readings) == (None::<UploadView>, seq![batch_of(readings)]),
{
    let before = readings.drop_last();
    assert(all_timed(before)) by {
        assert forall|i: int| 0 <= i < before.len() implies (#[trigger] before[i]).1.is_some() by {
            assert(before[i] == readings[i]);
        }
    }
    lemma_batch_grows(before);
    assert(readings.last() == readings[11]);
    assert(before[0] == readings[0]);
    assert(batch_of(readings).entries =~= batch_of(before).entries.push(
        UploadEntry {
            offset_in_seconds: wrap_i32(
                readings.last().1.unwrap() - batch_of(before).start_timestamp,
            ) as i32,
            reading: readings.last().0,
        },
    )) by {
        assert forall|j: int| 0 <= j < before.len() implies batch_of(readings).entries[j]
            == batch_of(before).entries[j] by {
            assert(before[j] == readings[j]);
        }
    }
    assert(Seq::<UploadView>::empty().push(batch_of(readings)) =~= seq![batch_of(readings)]);
}

} // verus!
