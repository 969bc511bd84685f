//! Decoding of directory-change notification buffers, and the decisions of
//! the watcher's poll loop.
//!
//! The operating system fills a byte buffer with a chain of variable-length
//! change records. Each record starts with three little-endian 32-bit fields —
//! the offset to the next record (zero on the last one), an action code, and
//! the length in bytes of the name that follows — and then carries the name of
//! the changed entry as UTF-16 code units. [`decode_notifications`] walks the
//! chain and yields one decoded record per entry whose action code is nonzero;
//! [`event_for`] turns a decoded record into a [`FileEvent`] by joining the
//! name onto the watched local root and the remote root.
//!
//! The watcher's background loop itself — the sleep, the asynchronous request
//! and its completion check — lives outside this crate. Each iteration it
//! calls [`watcher_step`] with what it observed and performs the returned
//! action: issuing a fresh request, waiting on, decoding a completed buffer,
//! idling, exiting, or failing with a streaming error.

use crate::events::EventView;
use crate::events::FileAction;
use crate::events::FileEvent;
use crate::strutil::push_char;
use crate::system_path::path_of;
use crate::system_path::seg_ok;
use crate::system_path::SystemPath;
use crate::ThreadStatus;
use vstd::prelude::*;

verus! {

// ---------------------------------------------------------------------------
// UTF-16 decoding
// ---------------------------------------------------------------------------
/// The code points of a character sequence.
pub open spec fn chars_codes(s: Seq<char>) -> Seq<u32> {
    Seq::new(s.len(), |i: int| s[i] as u32)
}

/// The code point a surrogate pair stands for.
pub open spec fn pair_code(hi: u16, lo: u16) -> u32 {
    (0x10000 + (hi - 0xD800) * 0x400 + (lo - 0xDC00)) as u32
}

/// The code points of a UTF-16 code-unit sequence, decoded leniently: a high
/// surrogate followed by a low surrogate yields the paired code point, any
/// unpaired surrogate yields the replacement code point, and every other unit
/// yields itself.
pub open spec fn utf16_code_points(units: Seq<u16>) -> Seq<u32>
    decreases units.len(),
{
    if units.len() == 0 {
        Seq::empty()
    } else {
        let u = units[0];
        if 0xD800 <= u < 0xDC00 {
            if units.len() >= 2 && 0xDC00 <= units[1] < 0xE000 {
                seq![pair_code(u, units[1])] + utf16_code_points(units.skip(2))
            } else {
                seq![0xFFFDu32] + utf16_code_points(units.skip(1))
            }
        } else if 0xDC00 <= u < 0xE000 {
            seq![0xFFFDu32] + utf16_code_points(units.skip(1))
        } else {
            seq![u as u32] + utf16_code_points(units.skip(1))
        }
    }
}

/// Relies on `char::from_u32`: every code point outside the surrogate range
/// and no higher than the Unicode maximum names the char with exactly that
/// code.
#[verifier::external_body]
fn char_from_u32(u: u32) -> (r: char)
    requires
        u < 0xD800 || (0xE000 <= u && u <= 0x10FFFF),
    ensures
        r as u32 == u,
{
    char::from_u32(u).unwrap()
}

/// Decode UTF-16 code units into a string, replacing unpaired surrogates with
/// the replacement character.
pub fn utf16_to_string(units: &Vec<u16>) -> (r: String)
    ensures
        chars_codes(r@) == utf16_code_points(units@),
{
    let n = units.len();
    let mut s = String::new();
    let mut i: usize = 0;
    proof {
        assert(units@.skip(0) =~= units@);
        assert(chars_codes(s@) + utf16_code_points(units@) =~= utf16_code_points(units@));
    }
    while i < n
        invariant
            i <= n,
            n == units@.len(),
            utf16_code_points(units@) == chars_codes(s@) + utf16_code_points(
                units@.skip(i as int),
            ),
        decreases n - i,
    {
        let ghost s0 = s@;
        let ghost tail = units@.skip(i as int);
        let u = units[i];
        proof {
            assert(tail[0] == u);
        }
        if u < 0xD800 || u >= 0xE000 {
            let c = char_from_u32(u as u32);
            push_char(&mut s, c);
            proof {
                assert(tail.skip(1) =~= units@.skip(i as int + 1));
                assert(chars_codes(s@) =~= chars_codes(s0).push(u as u32));
                assert(chars_codes(s0) + (seq![u as u32] + utf16_code_points(
                    units@.skip(i as int + 1),
                )) =~= chars_codes(s0).push(u as u32) + utf16_code_points(
                    units@.skip(i as int + 1),
                ));
            }
            i = i + 1;
        } else if u < 0xDC00 {
            let mut paired = false;
            if i + 1 < n {
                let u2 = units[i + 1];
                if 0xDC00 <= u2 && u2 < 0xE000 {
                    paired = true;
                    proof {
                        assert(tail[1] == u2);
                        assert(tail.len() >= 2);
                    }
                    let code = 0x10000u32 + (u as u32 - 0xD800) * 0x400 + (u2 as u32 - 0xDC00);
                    proof {
                        assert(code == pair_code(u, u2));
                    }
                    let c = char_from_u32(code);
                    push_char(&mut s, c);
                    proof {
                        assert(tail.skip(2) =~= units@.skip(i as int + 2));
                        assert(chars_codes(s@) =~= chars_codes(s0).push(code));
                        assert(chars_codes(s0) + (seq![code] + utf16_code_points(
                            units@.skip(i as int + 2),
                        )) =~= chars_codes(s0).push(code) + utf16_code_points(
                            units@.skip(i as int + 2),
                        ));
                    }
                    i = i + 2;
                }
            }
            if !paired {
                push_char(&mut s, '\u{FFFD}');
                proof {
                    assert('\u{FFFD}' as u32 == 0xFFFDu32);
                    assert(tail.skip(1) =~= units@.skip(i as int + 1));
                    assert(chars_codes(s@) =~= chars_codes(s0).push(0xFFFDu32));
                    assert(chars_codes(s0) + (seq![0xFFFDu32] + utf16_code_points(
                        units@.skip(i as int + 1),
                    )) =~= chars_codes(s0).push(0xFFFDu32) + utf16_code_points(
                        units@.skip(i as int + 1),
                    ));
                }
                i = i + 1;
            }
        } else {
            push_char(&mut s, '\u{FFFD}');
            proof {
                assert('\u{FFFD}' as u32 == 0xFFFDu32);
                assert(tail.skip(1) =~= units@.skip(i as int + 1));
                assert(chars_codes(s@) =~= chars_codes(s0).push(0xFFFDu32));
                assert(chars_codes(s0) + (seq![0xFFFDu32] + utf16_code_points(
                    units@.skip(i as int + 1),
                )) =~= chars_codes(s0).push(0xFFFDu32) + utf16_code_points(
                    units@.skip(i as int + 1),
                ));
            }
            i = i + 1;
        }
    }
    proof {
        assert(units@.skip(n as int) =~= Seq::<u16>::empty());
        assert(chars_codes(s@) + utf16_code_points(Seq::<u16>::empty()) =~= chars_codes(s@));
    }
    s
}

// ---------------------------------------------------------------------------
// The notification buffer
// ---------------------------------------------------------------------------
/// The little-endian 16-bit value at byte position `i`.
pub open spec fn le16_at(b: Seq<u8>, i: int) -> u16 {
    (b[i] + b[i + 1] * 0x100) as u16
}

/// The little-endian 32-bit value at byte position `i`.
pub open spec fn le32_at(b: Seq<u8>, i: int) -> u32 {
    (b[i] + b[i + 1] * 0x100 + b[i + 2] * 0x10000 + b[i + 3] * 0x1000000) as u32
}

/// Reads the little-endian 16-bit value at byte position `i`.
pub fn u16_le_at(b: &Vec<u8>, i: usize) -> (r: u16)
    requires
        i + 2 <= b@.len(),
    ensures
        r == le16_at(b@, i as int),
{
    let n = b.len();
    let b0 = b[i] as u16;
    let b1 = b[i + 1] as u16;
    b0 + b1 * 0x100
}

/// Reads the little-endian 32-bit value at byte position `i`.
pub fn u32_le_at(b: &Vec<u8>, i: usize) -> (r: u32)
    requires
        i + 4 <= b@.len(),
    ensures
        r == le32_at(b@, i as int),
{
    let n = b.len();
    let b0 = b[i] as u32;
    let b1 = b[i + 1] as u32;
    let b2 = b[i + 2] as u32;
    let b3 = b[i + 3] as u32;
    b0 + b1 * 0x100 + b2 * 0x10000 + b3 * 0x1000000
}

/// One raw change record: its action code and the UTF-16 units of the name it
/// carries.
pub ghost struct RawRecord {
    pub action: u32,
    pub name_units: Seq<u16>,
}

/// How many UTF-16 units the record at `idx` carries: its byte length field,
/// halved.
pub open spec fn unit_count(b: Seq<u8>, idx: int) -> int {
    le32_at(b, idx + 8) as int / 2
}

/// Whether a whole record — the twelve header bytes and the name behind
/// them — lies inside the buffer at position `idx`.
pub open spec fn record_fits(b: Seq<u8>, idx: int) -> bool {
    idx + 12 <= b.len() && idx + 12 + 2 * unit_count(b, idx) <= b.len()
}

/// The UTF-16 units stored at byte position `off`.
pub open spec fn units_at(b: Seq<u8>, off: int, count: int) -> Seq<u16> {
    Seq::new(count as nat, |k: int| le16_at(b, off + 2 * k))
}

/// The records chained from byte position `idx` on: a record whose action
/// code is zero is skipped, a next-offset of zero ends the chain, and a
/// record or offset that would leave the buffer ends it as well.
pub open spec fn records_from(b: Seq<u8>, idx: int) -> Seq<RawRecord>
    decreases b.len() - idx,
{
    if !(0 <= idx && record_fits(b, idx)) {
        Seq::empty()
    } else {
        let rec = RawRecord {
            action: le32_at(b, idx + 4),
            name_units: units_at(b, idx + 12, unit_count(b, idx)),
        };
        let this = if rec.action != 0 {
            seq![rec]
        } else {
            Seq::<RawRecord>::empty()
        };
        let next = le32_at(b, idx) as int;
        if next == 0 {
            this
        } else if idx + next <= b.len() {
            this + records_from(b, idx + next)
        } else {
            this
        }
    }
}

/// The records a completed request yielded: none when it reported no data,
/// else the chain from the start of the buffer.
pub open spec fn notification_records(b: Seq<u8>, data_len: u32) -> Seq<RawRecord> {
    if data_len == 0 {
        Seq::empty()
    } else {
        records_from(b, 0)
    }
}

/// The mathematical value of a [`DecodedRecord`].
pub ghost struct RecordView {
    pub action_code: u32,
    pub name: Seq<char>,
}

/// Whether a decoded record renders a raw one: same action code, and the name
/// decodes the raw UTF-16 units.
pub open spec fn record_matches(v: RecordView, rec: RawRecord) -> bool {
    &&& v.action_code == rec.action
    &&& chars_codes(v.name) == utf16_code_points(rec.name_units)
}

/// Whether a sequence of decoded records renders a raw chain, record for
/// record.
pub open spec fn all_match(vs: Seq<RecordView>, recs: Seq<RawRecord>) -> bool {
    &&& vs.len() == recs.len()
    &&& forall|i: int| 0 <= i < recs.len() ==> record_matches(vs[i], recs[i])
}

/// One decoded change record: a nonzero action code and the decoded name of
/// the changed entry, relative to the watched directory.
#[derive(Debug)]
pub struct DecodedRecord {
    action_code: u32,
    name: String,
}

impl View for DecodedRecord {
    type V = RecordView;

    closed spec fn view(&self) -> RecordView {
        RecordView { action_code: self.action_code, name: self.name@ }
    }
}

impl DeepView for DecodedRecord {
    type V = RecordView;

    open spec fn deep_view(&self) -> RecordView {
        self.view()
    }
}

impl DecodedRecord {
    /// The record's action code.
    pub fn action_code(&self) -> (r: u32)
        ensures
            r == self@.action_code,
    {
        self.action_code
    }

    /// The decoded name of the changed entry.
    pub fn name(&self) -> (r: &String)
        ensures
            r@ == self@.name,
    {
        &self.name
    }
}

/// Decode a notification buffer: walk the record chain and yield one decoded
/// record per raw record with a nonzero action code, in chain order.
pub fn decode_notifications(buffer: &Vec<u8>, data_len: u32) -> (r: Vec<DecodedRecord>)
    ensures
        all_match(r.deep_view(), notification_records(buffer@, data_len)),
{
    if data_len == 0 {
        let r: Vec<DecodedRecord> = Vec::new();
        proof {
            assert(r.deep_view() =~= Seq::<RecordView>::empty());
        }
        return r;
    }
    decode_from(buffer, 0)
}

/// Decode the record chain from byte position `idx` on.
fn decode_from(buffer: &Vec<u8>, idx: usize) -> (r: Vec<DecodedRecord>)
    ensures
        all_match(r.deep_view(), records_from(buffer@, idx as int)),
    decreases buffer@.len() - idx,
{
    let len = buffer.len();
    if len < 12 || idx > len - 12 {
        let r: Vec<DecodedRecord> = Vec::new();
        proof {
            assert(r.deep_view() =~= Seq::<RecordView>::empty());
        }
        return r;
    }
    let next = u32_le_at(buffer, idx);
    let action = u32_le_at(buffer, idx + 4);
    let name_bytes = u32_le_at(buffer, idx + 8);
    let count = (name_bytes / 2) as usize;
    let avail = (len - idx - 12) / 2;
    if count > avail {
        proof {
            assert(!record_fits(buffer@, idx as int));
        }
        let r: Vec<DecodedRecord> = Vec::new();
        proof {
            assert(r.deep_view() =~= Seq::<RecordView>::empty());
        }
        return r;
    }
    proof {
        assert(record_fits(buffer@, idx as int));
    }
    let mut units: Vec<u16> = Vec::new();
    let mut k: usize = 0;
    proof {
        assert(units@ =~= units_at(buffer@, idx as int + 12, count as int).take(0));
    }
    while k < count
        invariant
            k <= count,
            count == unit_count(buffer@, idx as int),
            len == buffer@.len(),
            idx + 12 + 2 * count <= len,
            units@ == units_at(buffer@, idx as int + 12, count as int).take(k as int),
        decreases count - k,
    {
        let u = u16_le_at(buffer, idx + 12 + 2 * k);
        units.push(u);
        proof {
            assert(units@ =~= units_at(buffer@, idx as int + 12, count as int).take(k as int + 1));
        }
        k = k + 1;
    }
    proof {
        assert(units_at(buffer@, idx as int + 12, count as int).take(count as int) =~= units_at(
            buffer@,
            idx as int + 12,
            count as int,
        ));
    }
    let mut rest: Vec<DecodedRecord> =
        if next != 0 && (next as usize) <= len - idx {
            decode_from(buffer, idx + next as usize)
        } else {
            Vec::new()
        };
    proof {
        if !(next != 0 && next as int <= len - idx) {
            assert(rest.deep_view() =~= Seq::<RecordView>::empty());
        }
    }
    let ghost raw = RawRecord {
        action: le32_at(buffer@, idx as int + 4),
        name_units: units_at(buffer@, idx as int + 12, unit_count(buffer@, idx as int)),
    };
    if action != 0 {
        let name = utf16_to_string(&units);
        let first = DecodedRecord { action_code: action, name };
        let ghost restv = rest.deep_view();
        let mut out: Vec<DecodedRecord> = Vec::new();
        out.push(first);
        out.append(&mut rest);
        proof {
            assert(out.deep_view() =~= seq![
                (RecordView { action_code: raw.action, name: first.name@ }),
            ] + restv);
            assert(record_matches(out.deep_view()[0], raw));
        }
        out
    } else {
        rest
    }
}

// ---------------------------------------------------------------------------
// Turning records into events
// ---------------------------------------------------------------------------
/// The action kind a raw action code stands for.
pub open spec fn action_of_code(code: u32) -> FileAction {
    if code == 1 {
        FileAction::Added
    } else if code == 2 {
        FileAction::Removed
    } else if code == 3 {
        FileAction::Modified
    } else if code == 4 {
        FileAction::RenamedOldName
    } else if code == 5 {
        FileAction::RenamedNewName
    } else {
        FileAction::Other(code)
    }
}

/// Map a raw action code to its action kind.
pub fn file_action_from_code(code: u32) -> (r: FileAction)
    ensures
        r == action_of_code(code),
{
    if code == 1 {
        FileAction::Added
    } else if code == 2 {
        FileAction::Removed
    } else if code == 3 {
        FileAction::Modified
    } else if code == 4 {
        FileAction::RenamedOldName
    } else if code == 5 {
        FileAction::RenamedNewName
    } else {
        FileAction::Other(code)
    }
}

/// The rendered path of a root with one more segment joined on; a name that
/// is not an acceptable segment leaves the root's rendering unchanged.
pub open spec fn joined_view(root_segs: Seq<Seq<char>>, root_str: Seq<char>, name: Seq<char>) -> Seq<
    char,
> {
    if seg_ok(name) {
        path_of(root_segs.push(name))
    } else {
        root_str
    }
}

/// Build the change event for one decoded record: the local path joins the
/// record's name onto the watched local root, the remote path joins the same
/// name onto the remote root, and the action code is mapped to its kind.
pub fn event_for(record: &DecodedRecord, local_root: &SystemPath, remote_root: &SystemPath) -> (r:
    FileEvent)
    ensures
        r@.action == action_of_code(record@.action_code),
        r@.local_path == joined_view(local_root.segs(), local_root.str_view(), record@.name),
        r@.remote_path == joined_view(remote_root.segs(), remote_root.str_view(), record@.name),
{
    let mut lp = local_root.clone();
    lp.pushd(record.name().clone());
    let mut rp = remote_root.clone();
    rp.pushd(record.name().clone());
    FileEvent::new(file_action_from_code(record.action_code()), lp.get_path(), rp.get_path())
}

/// Whether an event renders a raw record against the two roots: the mapped
/// action, and both paths joined with the record's decoded name.
pub open spec fn event_matches_record(
    ev: EventView,
    rec: RawRecord,
    local_root: &SystemPath,
    remote_root: &SystemPath,
) -> bool {
    &&& ev.action == action_of_code(rec.action)
    &&& exists|name: Seq<char>|
        {
            &&& chars_codes(name) == utf16_code_points(rec.name_units)
            &&& ev.local_path == joined_view(local_root.segs(), local_root.str_view(), name)
            &&& ev.remote_path == joined_view(remote_root.segs(), remote_root.str_view(), name)
        }
}

/// Decode a completed notification buffer and build one change event per
/// record, in chain order: what one completed watch request contributes to
/// the event queue.
pub fn collect_events(
    buffer: &Vec<u8>,
    data_len: u32,
    local_root: &SystemPath,
    remote_root: &SystemPath,
) -> (r: Vec<FileEvent>)
    ensures
        r.deep_view().len() == notification_records(buffer@, data_len).len(),
        forall|i: int|
            0 <= i < r.deep_view().len() ==> event_matches_record(
                r.deep_view()[i],
                notification_records(buffer@, data_len)[i],
                local_root,
                remote_root,
            ),
{
    let ghost recs = notification_records(buffer@, data_len);
    let records = decode_notifications(buffer, data_len);
    let n = records.len();
    let mut out: Vec<FileEvent> = Vec::new();
    let mut i: usize = 0;
    proof {
        assert(out.deep_view() =~= Seq::<EventView>::empty());
    }
    while i < n
        invariant
            i <= n,
            n == records@.len(),
            all_match(records.deep_view(), recs),
            out.deep_view().len() == i as int,
            forall|j: int|
                0 <= j < i as int ==> event_matches_record(
                    out.deep_view()[j],
                    recs[j],
                    local_root,
                    remote_root,
                ),
        decreases n - i,
    {
        let ghost out0 = out.deep_view();
        let ev = event_for(&records[i], local_root, remote_root);
        let ghost evv = ev@;
        let ghost name = records[i as int]@.name;
        out.push(ev);
        proof {
            assert(out.deep_view() =~= out0.push(evv));
            assert(record_matches(records.deep_view()[i as int], recs[i as int]));
            assert(chars_codes(name) == utf16_code_points(recs[i as int].name_units));
            assert(event_matches_record(evv, recs[i as int], local_root, remote_root));
        }
        i = i + 1;
    }
    out
}

// ---------------------------------------------------------------------------
// The poll loop's decisions
// ---------------------------------------------------------------------------
/// What the completion check of an outstanding watch request reported.
#[derive(PartialEq, Eq, Structural, Clone, Copy, Debug)]
pub enum PollStatus {
    /// the request has not completed yet
    NotReady,
    /// the request completed and the buffer holds the records
    Complete,
    /// the check failed with the given error code
    Failed(u32),
}

/// The error code by which the completion check reports a request that is
/// merely not finished yet.
pub const IO_INCOMPLETE: u32 = 996;

/// Classify what the completion check returned: success means the request
/// completed; a failure with the in-progress code means it is simply not
/// ready; any other failure is reported as such.
pub fn classify_poll(ok: bool, err_code: u32) -> (r: PollStatus)
    ensures
        ok ==> r == PollStatus::Complete,
        !ok && err_code == IO_INCOMPLETE ==> r == PollStatus::NotReady,
        !ok && err_code != IO_INCOMPLETE ==> r == PollStatus::Failed(err_code),
{
    if ok {
        PollStatus::Complete
    } else if err_code == IO_INCOMPLETE {
        PollStatus::NotReady
    } else {
        PollStatus::Failed(err_code)
    }
}

/// What one iteration of the watcher's poll loop does next.
#[derive(PartialEq, Eq, Structural, Clone, Copy, Debug)]
pub enum WatcherStep {
    /// the control said `Kill`: leave the loop for good
    Exit,
    /// the control said `Pause`: do nothing this iteration
    Idle,
    /// no request is outstanding: issue a fresh one
    IssueRequest,
    /// the outstanding request is not ready: check again next iteration
    KeepWaiting,
    /// the outstanding request completed: decode the buffer, enqueue the
    /// events, zero the buffer, and issue a fresh request next iteration
    ProcessBuffer,
    /// the completion check failed: a fatal streaming error that ends the
    /// loop
    Fail(u32),
}

/// Decide one iteration of the watcher's poll loop, after its sleep, from the
/// control flag it observed, whether a request is outstanding, and — when one
/// is — what the completion check said.
pub fn watcher_step(status: ThreadStatus, outstanding: bool, poll: PollStatus) -> (r: WatcherStep)
    ensures
        status == ThreadStatus::Kill ==> r == WatcherStep::Exit,
        status == ThreadStatus::Pause ==> r == WatcherStep::Idle,
        status == ThreadStatus::Resume && !outstanding ==> r == WatcherStep::IssueRequest,
        status == ThreadStatus::Resume && outstanding ==> r == (match poll {
            PollStatus::NotReady => WatcherStep::KeepWaiting,
            PollStatus::Complete => WatcherStep::ProcessBuffer,
            PollStatus::Failed(e) => WatcherStep::Fail(e),
        }),
{
    match status {
        ThreadStatus::Kill => WatcherStep::Exit,
        ThreadStatus::Pause => WatcherStep::Idle,
        ThreadStatus::Resume => {
            if !outstanding {
                WatcherStep::IssueRequest
            } else {
                match poll {
                    PollStatus::NotReady => WatcherStep::KeepWaiting,
                    PollStatus::Complete => WatcherStep::ProcessBuffer,
                    PollStatus::Failed(e) => WatcherStep::Fail(e),
                }
            }
        },
    }
}

} // verus!
