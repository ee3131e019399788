use vstd::prelude::*;
use vstd::string::StringSliceAdditionalSpecFns;
use vstd::utf8::encode_utf8;

verus! {

/// Transactions tracked at most; later names reuse slots round-robin.
pub const SLOT_COUNT: usize = 512;

/// Distinct error messages tracked per transaction; later ones reuse entries
/// round-robin.
pub const ERROR_COUNT: usize = 32;

/// Bytes of a transaction name that are kept.
pub const NAME_CAPACITY: usize = 63;

/// Bytes of an error message that are kept.
pub const MESSAGE_CAPACITY: usize = 127;

/// Bytes of the output path that are kept.
pub const PATH_CAPACITY: usize = 255;

/// The first `n` elements of `s`, or all of them if there are fewer.
pub open spec fn truncated(s: Seq<u8>, n: int) -> Seq<u8> {
    if s.len() <= n {
        s
    } else {
        s.subrange(0, n)
    }
}

/// `x + 1`, wrapping to zero past `u64::MAX`.
pub open spec fn bump(x: u64) -> u64 {
    if x == u64::MAX {
        0
    } else {
        (x + 1) as u64
    }
}

fn bumped(x: u64) -> (r: u64)
    ensures
        r == bump(x),
{
    if x == u64::MAX {
        0
    } else {
        x + 1
    }
}

/// The least index from `i` on at which `p` holds, or `s.len()` if none.
pub open spec fn first_from<T>(s: Seq<T>, p: spec_fn(T) -> bool, i: int) -> int
    decreases s.len() - i,
{
    if i < 0 || i >= s.len() {
        s.len() as int
    } else if p(s[i]) {
        i
    } else {
        first_from(s, p, i + 1)
    }
}

/// Whether two byte strings are equal.
fn bytes_equal(a: &[u8], b: &[u8]) -> (r: bool)
    ensures
        r == (a@ == b@),
{
    if a.len() != b.len() {
        return false;
    }
    let mut i: usize = 0;
    while i < a.len()
        invariant
            0 <= i <= a@.len(),
            a@.len() == b@.len(),
            forall|j: int| 0 <= j < i ==> a@[j] == b@[j],
        decreases a@.len() - i,
    {
        if a[i] != b[i] {
            return false;
        }
        i = i + 1;
    }
    assert(a@ =~= b@);
    true
}

/// A copy of the first `n` bytes of `b`, or of all of them if there are fewer.
fn truncated_copy(b: &[u8], n: usize) -> (r: Vec<u8>)
    ensures
        r@ == truncated(b@, n as int),
{
    let len = if b.len() <= n {
        b.len()
    } else {
        n
    };
    let mut r: Vec<u8> = Vec::with_capacity(len);
    let mut i: usize = 0;
    while i < len
        invariant
            0 <= i <= len,
            len <= b@.len(),
            len == (if b@.len() <= n { b@.len() } else { n as nat }),
            r@ == b@.subrange(0, i as int),
        decreases len - i,
    {
        r.push(b[i]);
        i = i + 1;
    }
    assert(r@ =~= truncated(b@, n as int));
    r
}

/// A copy of `b`.
fn copy_bytes(b: &[u8]) -> (r: Vec<u8>)
    ensures
        r@ == b@,
{
    truncated_copy(b, b.len())
}

/// One error message recorded for a transaction, and how often it came.
pub struct ErrorEntry {
    count: u64,
    message: Vec<u8>,
    is_active: bool,
}

pub struct ErrorView {
    pub count: u64,
    pub message: Seq<u8>,
    pub is_active: bool,
}

impl View for ErrorEntry {
    type V = ErrorView;

    closed spec fn view(&self) -> ErrorView {
        ErrorView { count: self.count, message: self.message@, is_active: self.is_active }
    }
}

impl ErrorEntry {
    fn empty() -> (r: ErrorEntry)
        ensures
            r@ == empty_error(),
    {
        ErrorEntry { count: 0, message: Vec::new(), is_active: false }
    }
}

pub open spec fn empty_error() -> ErrorView {
    ErrorView { count: 0, message: Seq::empty(), is_active: false }
}

/// The counters of one transaction name.
pub struct TransactionSlot {
    name: Vec<u8>,
    total_count: u64,
    success_count: u64,
    errors: Vec<ErrorEntry>,
    next_error_slot: u64,
    is_active: bool,
}

pub struct SlotView {
    pub name: Seq<u8>,
    pub total_count: u64,
    pub success_count: u64,
    pub errors: Seq<ErrorView>,
    pub next_error_slot: u64,
    pub is_active: bool,
}

impl View for TransactionSlot {
    type V = SlotView;

    closed spec fn view(&self) -> SlotView {
        SlotView {
            name: self.name@,
            total_count: self.total_count,
            success_count: self.success_count,
            errors: self.errors@.map_values(|e: ErrorEntry| e@),
            next_error_slot: self.next_error_slot,
            is_active: self.is_active,
        }
    }
}

pub open spec fn empty_slot() -> SlotView {
    SlotView {
        name: Seq::empty(),
        total_count: 0,
        success_count: 0,
        errors: Seq::new(ERROR_COUNT as nat, |i: int| empty_error()),
        next_error_slot: 0,
        is_active: false,
    }
}

/// Whether `e` is an active entry for the message `msg`.
pub open spec fn error_matches(e: ErrorView, msg: Seq<u8>) -> bool {
    e.is_active && e.message == msg
}

/// The slot after one occurrence of the error `msg`: the first active entry
/// holding `msg` counts it; otherwise the next entry in round-robin order is
/// claimed for `msg` (its first occurrence) if free, or counts it if taken.
pub open spec fn slot_with_error(s: SlotView, msg: Seq<u8>) -> SlotView {
    let f = first_from(s.errors, |e: ErrorView| error_matches(e, msg), 0);
    if f < s.errors.len() {
        SlotView { errors: s.errors.update(f, ErrorView { count: bump(s.errors[f].count), ..s.errors[f] }), ..s }
    } else {
        let k = (s.next_error_slot % (ERROR_COUNT as u64)) as int;
        let e = s.errors[k];
        let claimed = if e.is_active {
            ErrorView { count: bump(e.count), ..e }
        } else {
            ErrorView { count: 1, message: truncated(msg, MESSAGE_CAPACITY as int), is_active: true }
        };
        SlotView { errors: s.errors.update(k, claimed), next_error_slot: bump(s.next_error_slot), ..s }
    }
}

impl TransactionSlot {
    fn empty() -> (r: TransactionSlot)
        ensures
            r@ == empty_slot(),
            r.well_formed(),
    {
        let mut errors: Vec<ErrorEntry> = Vec::new();
        let mut i: usize = 0;
        while i < ERROR_COUNT
            invariant
                0 <= i <= ERROR_COUNT,
                errors@.len() == i,
                forall|j: int| 0 <= j < i ==> errors@[j]@ == empty_error(),
            decreases ERROR_COUNT - i,
        {
            errors.push(ErrorEntry::empty());
            i = i + 1;
        }
        let r = TransactionSlot {
            name: Vec::new(),
            total_count: 0,
            success_count: 0,
            errors,
            next_error_slot: 0,
            is_active: false,
        };
        assert(r@.errors =~= empty_slot().errors);
        r
    }

    pub closed spec fn well_formed(&self) -> bool {
        self.errors@.len() == ERROR_COUNT
    }
}

impl TransactionSlot {
    /// Records one occurrence of the error `error_msg` (see [`slot_with_error`]).
    pub fn record_error(&mut self, error_msg: &str)
        requires
            old(self).well_formed(),
        ensures
            final(self).well_formed(),
            final(self)@ == slot_with_error(old(self)@, error_msg.spec_bytes()),
    {
        let msg = error_msg.as_bytes();
        let ghost p = |e: ErrorView| error_matches(e, msg@);
        let ghost errs = self@.errors;
        let mut i: usize = 0;
        while i < self.errors.len()
            invariant
                0 <= i <= ERROR_COUNT,
                self.well_formed(),
                self@ == old(self)@,
                errs == self@.errors,
                p == (|e: ErrorView| error_matches(e, msg@)),
                msg@ == error_msg.spec_bytes(),
                first_from(errs, p, 0) == first_from(errs, p, i as int),
            decreases ERROR_COUNT - i,
        {
            assert(errs[i as int] == self.errors@[i as int]@);
            if self.errors[i].is_active && bytes_equal(self.errors[i].message.as_slice(), msg) {
                assert(p(errs[i as int]));
                assert(first_from(errs, p, 0) == i);
                let count = bumped(self.errors[i].count);
                self.errors[i].count = count;
                assert(self@.errors =~= errs.update(i as int, ErrorView { count, ..errs[i as int] }));
                return;
            }
            i = i + 1;
        }
        let k = (self.next_error_slot % (ERROR_COUNT as u64)) as usize;
        self.next_error_slot = bumped(self.next_error_slot);
        if self.errors[k].is_active {
            let count = bumped(self.errors[k].count);
            self.errors[k].count = count;
        } else {
            let message = truncated_copy(msg, MESSAGE_CAPACITY);
            self.errors.set(k, ErrorEntry { count: 1, message, is_active: true });
        }
        assert(self@.errors =~= slot_with_error(old(self)@, msg@).errors);
    }
}

/// Counters of executions, successes and errors per transaction name.
///
/// A fixed table of [`SLOT_COUNT`] slots: a name is counted in the first
/// active slot holding it; a new name claims the next slot in round-robin
/// order. Once every slot is taken, a new name is counted in whichever slot
/// that order reaches, under that slot's existing name. Names are kept to
/// [`NAME_CAPACITY`] bytes, so a longer name never finds its slot again.
pub struct FuzzStats {
    slots: Vec<TransactionSlot>,
    next_slot: u64,
    output_path: Vec<u8>,
}

pub struct StatsView {
    pub slots: Seq<SlotView>,
    pub next_slot: u64,
    pub output_path: Seq<u8>,
}

impl View for FuzzStats {
    type V = StatsView;

    closed spec fn view(&self) -> StatsView {
        StatsView {
            slots: self.slots@.map_values(|s: TransactionSlot| s@),
            next_slot: self.next_slot,
            output_path: self.output_path@,
        }
    }
}

/// Whether `s` is an active slot for the name `name`.
pub open spec fn slot_matches(s: SlotView, name: Seq<u8>) -> bool {
    s.is_active && s.name == name
}

/// The slot that counts `name`, and the table after it is found or claimed.
pub open spec fn claim_slot(v: StatsView, name: Seq<u8>) -> (int, StatsView) {
    let f = first_from(v.slots, |s: SlotView| slot_matches(s, name), 0);
    if f < v.slots.len() {
        (f, v)
    } else {
        let k = (v.next_slot % (SLOT_COUNT as u64)) as int;
        let s = v.slots[k];
        let slots = if s.is_active {
            v.slots
        } else {
            v.slots.update(k, SlotView { is_active: true, name: truncated(name, NAME_CAPACITY as int), ..s })
        };
        (k, StatsView { slots, next_slot: bump(v.next_slot), ..v })
    }
}

/// The table after one execution of `name` is counted.
pub open spec fn with_execution(v: StatsView, name: Seq<u8>) -> StatsView {
    let (k, w) = claim_slot(v, name);
    StatsView { slots: w.slots.update(k, SlotView { total_count: bump(w.slots[k].total_count), ..w.slots[k] }), ..w }
}

/// The table after one successful execution of `name` is counted.
pub open spec fn with_success(v: StatsView, name: Seq<u8>) -> StatsView {
    let (k, w) = claim_slot(v, name);
    StatsView { slots: w.slots.update(k, SlotView { success_count: bump(w.slots[k].success_count), ..w.slots[k] }), ..w }
}

/// The table after one error `msg` of `name` is recorded.
pub open spec fn with_error(v: StatsView, name: Seq<u8>, msg: Seq<u8>) -> StatsView {
    let (k, w) = claim_slot(v, name);
    StatsView { slots: w.slots.update(k, slot_with_error(w.slots[k], msg)), ..w }
}

impl FuzzStats {
    pub closed spec fn well_formed(&self) -> bool {
        &&& self.slots@.len() == SLOT_COUNT
        &&& forall|i: int| 0 <= i < SLOT_COUNT ==> (#[trigger] self.slots@[i]).well_formed()
    }

    /// An empty table that will be saved to `output_path` (kept to
    /// [`PATH_CAPACITY`] bytes).
    pub fn new(output_path: String) -> (r: FuzzStats)
        ensures
            r.well_formed(),
            r@.slots == Seq::new(SLOT_COUNT as nat, |i: int| empty_slot()),
            r@.next_slot == 0,
            r@.output_path == truncated(encode_utf8(output_path@), PATH_CAPACITY as int),
    {
        let mut slots: Vec<TransactionSlot> = Vec::new();
        let mut i: usize = 0;
        while i < SLOT_COUNT
            invariant
                0 <= i <= SLOT_COUNT,
                slots@.len() == i,
                forall|j: int| 0 <= j < i ==> (#[trigger] slots@[j])@ == empty_slot() && slots@[j].well_formed(),
            decreases SLOT_COUNT - i,
        {
            slots.push(TransactionSlot::empty());
            i = i + 1;
        }
        let path = truncated_copy(output_path.as_str().as_bytes(), PATH_CAPACITY);
        let r = FuzzStats { slots, next_slot: 0, output_path: path };
        assert(r@.slots =~= Seq::new(SLOT_COUNT as nat, |i: int| empty_slot()));
        r
    }

    /// The bytes of the path the table is saved to.
    pub fn output_path(&self) -> (r: &Vec<u8>)
        ensures
            r@ == self@.output_path,
    {
        &self.output_path
    }

    /// Finds the slot that counts `transaction`, claiming one if needed.
    fn find_or_create_slot(&mut self, transaction: &str) -> (r: usize)
        requires
            old(self).well_formed(),
        ensures
            final(self).well_formed(),
            r < SLOT_COUNT,
            (r as int, final(self)@) == claim_slot(old(self)@, transaction.spec_bytes()),
    {
        let name = transaction.as_bytes();
        let ghost p = |s: SlotView| slot_matches(s, name@);
        let ghost slots = self@.slots;
        let mut i: usize = 0;
        while i < self.slots.len()
            invariant
                0 <= i <= SLOT_COUNT,
                self.well_formed(),
                self@ == old(self)@,
                slots == self@.slots,
                p == (|s: SlotView| slot_matches(s, name@)),
                name@ == transaction.spec_bytes(),
                first_from(slots, p, 0) == first_from(slots, p, i as int),
            decreases SLOT_COUNT - i,
        {
            assert(slots[i as int] == self.slots@[i as int]@);
            if self.slots[i].is_active && bytes_equal(self.slots[i].name.as_slice(), name) {
                assert(p(slots[i as int]));
                return i;
            }
            i = i + 1;
        }
        let k = (self.next_slot % (SLOT_COUNT as u64)) as usize;
        self.next_slot = bumped(self.next_slot);
        if !self.slots[k].is_active {
            self.slots[k].is_active = true;
            self.slots[k].name = truncated_copy(name, NAME_CAPACITY);
        }
        assert(self@.slots =~= claim_slot(old(self)@, name@).1.slots);
        k
    }

    /// Counts one execution of `transaction`.
    pub fn increment_executions(&mut self, transaction: &str)
        requires
            old(self).well_formed(),
        ensures
            final(self).well_formed(),
            final(self)@ == with_execution(old(self)@, transaction.spec_bytes()),
    {
        let k = self.find_or_create_slot(transaction);
        let count = bumped(self.slots[k].total_count);
        self.slots[k].total_count = count;
        assert(self@.slots =~= with_execution(old(self)@, transaction.spec_bytes()).slots);
    }

    /// Counts one successful execution of `transaction`.
    pub fn increment_successful_executions(&mut self, transaction: &str)
        requires
            old(self).well_formed(),
        ensures
            final(self).well_formed(),
            final(self)@ == with_success(old(self)@, transaction.spec_bytes()),
    {
        let k = self.find_or_create_slot(transaction);
        let count = bumped(self.slots[k].success_count);
        self.slots[k].success_count = count;
        assert(self@.slots =~= with_success(old(self)@, transaction.spec_bytes()).slots);
    }

    /// Records one occurrence of the error `error_msg` for `transaction`.
    pub fn record_error(&mut self, transaction: &str, error_msg: &str)
        requires
            old(self).well_formed(),
        ensures
            final(self).well_formed(),
            final(self)@ == with_error(old(self)@, transaction.spec_bytes(), error_msg.spec_bytes()),
    {
        let k = self.find_or_create_slot(transaction);
        self.slots[k].record_error(error_msg);
        assert(self@.slots =~= with_error(old(self)@, transaction.spec_bytes(), error_msg.spec_bytes()).slots);
    }
}

/// How often one error message came, as reported.
pub struct ErrorCount {
    pub message: Vec<u8>,
    pub count: u64,
}

impl View for ErrorCount {
    type V = (Seq<u8>, u64);

    open spec fn view(&self) -> (Seq<u8>, u64) {
        (self.message@, self.count)
    }
}

/// The counters of one transaction name, as reported.
pub struct TransactionStats {
    pub name: Vec<u8>,
    pub total_executions: u64,
    pub successful_executions: u64,
    pub failed_executions: u64,
    pub errors: Vec<ErrorCount>,
}

pub struct TransactionStatsView {
    pub name: Seq<u8>,
    pub total_executions: u64,
    pub successful_executions: u64,
    pub failed_executions: u64,
    pub errors: Seq<(Seq<u8>, u64)>,
}

impl View for TransactionStats {
    type V = TransactionStatsView;

    open spec fn view(&self) -> TransactionStatsView {
        TransactionStatsView {
            name: self.name@,
            total_executions: self.total_executions,
            successful_executions: self.successful_executions,
            failed_executions: self.failed_executions,
            errors: self.errors@.map_values(|e: ErrorCount| e@),
        }
    }
}

/// The report of a whole table: one entry per reported transaction, in slot
/// order, and the totals over them.
pub struct StatsSummary {
    pub transactions: Vec<TransactionStats>,
    pub total_executions: u128,
    pub total_successful_executions: u128,
    pub total_failed_executions: u128,
}

/// Whether a slot is reported: active, executed at least once, and named.
pub open spec fn reported(s: SlotView) -> bool {
    s.is_active && s.total_count > 0 && s.name.len() > 0
}

/// The active error entries of `errs` that counted something, in order.
pub open spec fn error_counts(errs: Seq<ErrorView>) -> Seq<(Seq<u8>, u64)>
    decreases errs.len(),
{
    if errs.len() == 0 {
        Seq::empty()
    } else {
        let prev = error_counts(errs.drop_last());
        let e = errs.last();
        if e.is_active && e.count > 0 {
            prev.push((e.message, e.count))
        } else {
            prev
        }
    }
}

/// The report of one slot; failures are executions that did not succeed
/// (none if more successes than executions were counted).
pub open spec fn slot_report(s: SlotView) -> TransactionStatsView {
    TransactionStatsView {
        name: s.name,
        total_executions: s.total_count,
        successful_executions: s.success_count,
        failed_executions: if s.total_count >= s.success_count {
            (s.total_count - s.success_count) as u64
        } else {
            0
        },
        errors: error_counts(s.errors),
    }
}

/// The reports of the reported slots of `slots`, in order.
pub open spec fn slot_reports(slots: Seq<SlotView>) -> Seq<TransactionStatsView>
    decreases slots.len(),
{
    if slots.len() == 0 {
        Seq::empty()
    } else {
        let prev = slot_reports(slots.drop_last());
        if reported(slots.last()) {
            prev.push(slot_report(slots.last()))
        } else {
            prev
        }
    }
}

/// The sum of the executions counted in the reported slots of `slots`.
pub open spec fn total_executions(slots: Seq<SlotView>) -> int
    decreases slots.len(),
{
    if slots.len() == 0 {
        0
    } else {
        total_executions(slots.drop_last()) + if reported(slots.last()) {
            slots.last().total_count as int
        } else {
            0
        }
    }
}

/// The sum of the successes counted in the reported slots of `slots`.
pub open spec fn total_successes(slots: Seq<SlotView>) -> int
    decreases slots.len(),
{
    if slots.len() == 0 {
        0
    } else {
        total_successes(slots.drop_last()) + if reported(slots.last()) {
            slots.last().success_count as int
        } else {
            0
        }
    }
}

proof fn lemma_totals_bounded(slots: Seq<SlotView>)
    ensures
        0 <= total_executions(slots) <= slots.len() * (u64::MAX as int),
        0 <= total_successes(slots) <= slots.len() * (u64::MAX as int),
    decreases slots.len(),
{
    if slots.len() > 0 {
        lemma_totals_bounded(slots.drop_last());
    }
}

/// Why the fuzzing run ended, as recorded with the saved table.
#[derive(Clone, Copy, Debug, PartialEq, Eq, Structural)]
pub enum SignalInfo {
    /// Signal 2.
    Interrupt,
    /// Signal 15.
    Terminate,
    /// Any other signal.
    Other(i32),
    /// The run ended without a signal.
    Normal,
}

impl SignalInfo {
    pub fn from_signal(signal: Option<i32>) -> (r: SignalInfo)
        ensures
            r == (match signal {
                Some(2) => SignalInfo::Interrupt,
                Some(15) => SignalInfo::Terminate,
                Some(s) => SignalInfo::Other(s),
                None => SignalInfo::Normal,
            }),
    {
        match signal {
            Some(2) => SignalInfo::Interrupt,
            Some(15) => SignalInfo::Terminate,
            Some(s) => SignalInfo::Other(s),
            None => SignalInfo::Normal,
        }
    }
}

impl TransactionSlot {
    fn report(&self) -> (r: TransactionStats)
        requires
            self.well_formed(),
        ensures
            r@ == slot_report(self@),
    {
        let mut errors: Vec<ErrorCount> = Vec::new();
        let mut i: usize = 0;
        while i < self.errors.len()
            invariant
                0 <= i <= self.errors@.len(),
                errors@.map_values(|e: ErrorCount| e@) == error_counts(self@.errors.subrange(0, i as int)),
            decreases self.errors@.len() - i,
        {
            let ghost before = errors@;
            let e = &self.errors[i];
            proof {
                let prefix = self@.errors.subrange(0, i + 1);
                assert(prefix.drop_last() =~= self@.errors.subrange(0, i as int));
                assert(prefix.last() == e@);
            }
            if e.is_active && e.count > 0 {
                errors.push(ErrorCount { message: copy_bytes(e.message.as_slice()), count: e.count });
                proof {
                    assert(errors@.map_values(|c: ErrorCount| c@) =~= before.map_values(|c: ErrorCount| c@).push(
                        (e@.message, e@.count),
                    ));
                }
            }
            i = i + 1;
        }
        assert(self@.errors.subrange(0, self.errors@.len() as int) =~= self@.errors);
        let failed = self.total_count.saturating_sub(self.success_count);
        TransactionStats {
            name: copy_bytes(self.name.as_slice()),
            total_executions: self.total_count,
            successful_executions: self.success_count,
            failed_executions: failed,
            errors,
        }
    }
}

impl FuzzStats {
    /// The report of the table: each reported slot in order, with the sums
    /// of its executions, successes and failures.
    pub fn summary(&self) -> (r: StatsSummary)
        requires
            self.well_formed(),
        ensures
            r.transactions@.map_values(|t: TransactionStats| t@) == slot_reports(self@.slots),
            r.total_executions == total_executions(self@.slots),
            r.total_successful_executions == total_successes(self@.slots),
            r.total_failed_executions == if total_executions(self@.slots) >= total_successes(self@.slots) {
                total_executions(self@.slots) - total_successes(self@.slots)
            } else {
                0
            },
    {
        let mut transactions: Vec<TransactionStats> = Vec::new();
        let mut total: u128 = 0;
        let mut successful: u128 = 0;
        let mut i: usize = 0;
        while i < self.slots.len()
            invariant
                0 <= i <= SLOT_COUNT,
                self.well_formed(),
                transactions@.map_values(|t: TransactionStats| t@) == slot_reports(self@.slots.subrange(0, i as int)),
                total == total_executions(self@.slots.subrange(0, i as int)),
                successful == total_successes(self@.slots.subrange(0, i as int)),
            decreases SLOT_COUNT - i,
        {
            let ghost before = transactions@;
            let slot = &self.slots[i];
            proof {
                let prefix = self@.slots.subrange(0, i + 1);
                assert(prefix.drop_last() =~= self@.slots.subrange(0, i as int));
                assert(prefix.last() == slot@);
                lemma_totals_bounded(self@.slots.subrange(0, i as int));
            }
            if slot.is_active && slot.total_count > 0 && slot.name.len() > 0 {
                let report = slot.report();
                total = total + slot.total_count as u128;
                successful = successful + slot.success_count as u128;
                transactions.push(report);
                proof {
                    assert(transactions@.map_values(|t: TransactionStats| t@) =~= before.map_values(
                        |t: TransactionStats| t@,
                    ).push(slot_report(slot@)));
                }
            }
            i = i + 1;
        }
        assert(self@.slots.subrange(0, SLOT_COUNT as int) =~= self@.slots);
        let failed = total.saturating_sub(successful);
        StatsSummary {
            transactions,
            total_executions: total,
            total_successful_executions: successful,
            total_failed_executions: failed,
        }
    }
}

} // verus!
