//! Extraction of prompt markers from the byte stream of a recorded shell.
//!
//! The shell is set up so that its prompt is surrounded by invisible marker
//! characters. The extractor splits the byte stream it is fed into plain
//! data, prompt-start and prompt-end events, holding back bytes that may be
//! the beginning of a marker until more input arrives.
use vstd::prelude::*;

verus! {

/// The character repeated to mark the start of a prompt (zero width space).
pub const START_PROMPT_CHAR: char = '\u{200b}';

/// The character repeated to mark the end of a prompt (zero width non-joiner).
pub const END_PROMPT_CHAR: char = '\u{200c}';

/// How many times `START_PROMPT_CHAR` is repeated in the start marker.
pub const START_PROMPT_REPEATS: usize = 3;

/// How many times `END_PROMPT_CHAR` is repeated in the end marker.
pub const END_PROMPT_REPEATS: usize = 2;

/// How many bytes the extractor can hold before it has to hand some out.
pub const RING_CAPACITY: usize = 16384;

/// UTF-8 encoding of the start marker: three zero width spaces.
pub open spec fn start_prompt_spec() -> Seq<u8> {
    seq![0xe2u8, 0x80u8, 0x8bu8, 0xe2u8, 0x80u8, 0x8bu8, 0xe2u8, 0x80u8, 0x8bu8]
}

/// UTF-8 encoding of the end marker: two zero width non-joiners.
pub open spec fn end_prompt_spec() -> Seq<u8> {
    seq![0xe2u8, 0x80u8, 0x8cu8, 0xe2u8, 0x80u8, 0x8cu8]
}

/// The bytes of the start marker.
pub fn start_prompt_bytes() -> (v: Vec<u8>)
    ensures
        v@ == start_prompt_spec(),
{
    let v: Vec<u8> = vec![0xe2, 0x80, 0x8b, 0xe2, 0x80, 0x8b, 0xe2, 0x80, 0x8b];
    assert(v@ =~= start_prompt_spec());
    v
}

/// The bytes of the end marker.
pub fn end_prompt_bytes() -> (v: Vec<u8>)
    ensures
        v@ == end_prompt_spec(),
{
    let v: Vec<u8> = vec![0xe2, 0x80, 0x8c, 0xe2, 0x80, 0x8c];
    assert(v@ =~= end_prompt_spec());
    v
}

/// `needle` occurs in `haystack` at index `i`.
pub open spec fn occurs_at(haystack: Seq<u8>, needle: Seq<u8>, i: int) -> bool {
    0 <= i && i + needle.len() <= haystack.len() && haystack.subrange(i, i + needle.len())
        == needle
}

/// The index of the first occurrence of `needle` in `haystack`, if any.
#[verifier::opaque]
pub open spec fn first_occurrence(haystack: Seq<u8>, needle: Seq<u8>) -> Option<int> {
    if exists|i: int| occurs_at(haystack, needle, i) {
        Some(
            choose|i: int|
                occurs_at(haystack, needle, i) && forall|j: int|
                    0 <= j < i ==> !occurs_at(haystack, needle, j),
        )
    } else {
        None
    }
}

/// Calls `memchr::memmem::Finder::find`, which returns the index of the
/// first occurrence of `needle` in `haystack` (this contract states exactly
/// that: the match and the absence of any earlier one, or the absence of
/// any match).
#[verifier::external_body]
fn memmem_find(haystack: &[u8], needle: &[u8]) -> (r: Option<usize>)
    ensures
        match r {
            Some(i) => occurs_at(haystack@, needle@, i as int) && forall|j: int|
                0 <= j < i ==> !occurs_at(haystack@, needle@, j),
            None => forall|j: int| !occurs_at(haystack@, needle@, j),
        },
{
    memchr::memmem::Finder::new(needle).find(haystack)
}

/// A first match is unique.
pub proof fn lemma_first_occurrence(haystack: Seq<u8>, needle: Seq<u8>, i: int)
    requires
        occurs_at(haystack, needle, i),
        forall|j: int| 0 <= j < i ==> !occurs_at(haystack, needle, j),
    ensures
        first_occurrence(haystack, needle) == Some(i),
{
    reveal(first_occurrence);
    let k = choose|k: int|
        occurs_at(haystack, needle, k) && forall|j: int|
            0 <= j < k ==> !occurs_at(haystack, needle, j);
    assert(occurs_at(haystack, needle, k));
    if k < i {
        assert(!occurs_at(haystack, needle, k));
    }
    if i < k {
        assert(!occurs_at(haystack, needle, i));
    }
}

/// Finds the first occurrence of `needle` in `haystack`.
pub fn find_bytes(haystack: &[u8], needle: &[u8]) -> (r: Option<usize>)
    ensures
        match r {
            Some(i) => first_occurrence(haystack@, needle@) == Some(i as int),
            None => first_occurrence(haystack@, needle@) is None,
        },
{
    let r = memmem_find(haystack, needle);
    proof {
        reveal(first_occurrence);
        if let Some(i) = r {
            lemma_first_occurrence(haystack@, needle@, i as int);
        }
    }
    r
}

/// The last `i` bytes of `data` are the first `i` bytes of `needle`.
pub open spec fn partial_match(data: Seq<u8>, needle: Seq<u8>, i: int) -> bool {
    0 <= i <= needle.len() && i <= data.len() && needle.subrange(0, i) == data.subrange(
        data.len() - i,
        data.len() as int,
    )
}

/// The greatest `i` such that `data` ends with the first `i` bytes of `needle`.
pub open spec fn max_partial_match(data: Seq<u8>, needle: Seq<u8>, r: int) -> bool {
    &&& partial_match(data, needle, r)
    &&& forall|i: int| r < i ==> !partial_match(data, needle, i)
}

/// Whether the tail of `data` of length `i` is the head of `needle` of length `i`.
fn tail_is_head(data: &[u8], needle: &[u8], i: usize) -> (r: bool)
    requires
        i <= needle@.len(),
        i <= data@.len(),
    ensures
        r == partial_match(data@, needle@, i as int),
{
    let n = data.len();
    let start = n - i;
    let mut k: usize = 0;
    while k < i
        invariant
            n == data@.len(),
            start + i == n,
            i <= needle@.len(),
            k <= i,
            forall|j: int| 0 <= j < k ==> needle@[j] == data@[start + j],
        decreases i - k,
    {
        if needle[k] != data[start + k] {
            assert(needle@.subrange(0, i as int)[k as int] != data@.subrange(
                start as int,
                n as int,
            )[k as int]);
            return false;
        }
        k = k + 1;
    }
    assert(needle@.subrange(0, i as int) =~= data@.subrange(start as int, n as int));
    true
}

/// The length of the longest tail of `data` that is a head of `needle`: that
/// many bytes may be the beginning of a marker that is not complete yet.
pub fn partially_matching_needle_len(data: &[u8], needle: &[u8]) -> (r: usize)
    ensures
        r <= needle@.len(),
        r <= data@.len(),
        max_partial_match(data@, needle@, r as int),
{
    let m = if needle.len() < data.len() {
        needle.len()
    } else {
        data.len()
    };
    let mut i = m;
    while i > 0
        invariant
            i <= m,
            m <= needle@.len(),
            m <= data@.len(),
            m == needle@.len() || m == data@.len(),
            forall|j: int| i < j <= m ==> !partial_match(data@, needle@, j),
        decreases i,
    {
        if tail_is_head(data, needle, i) {
            return i;
        }
        i = i - 1;
    }
    assert(needle@.subrange(0, 0) =~= data@.subrange(data@.len() as int, data@.len() as int));
    i
}

/// What the extractor hands out.
#[derive(Debug, PartialEq, Eq)]
pub enum PtyOutput {
    /// Plain output of the shell.
    Data(Vec<u8>),
    /// The start marker of a prompt.
    PromptStart,
    /// The end marker of a prompt.
    PromptEnd,
}

/// The mathematical model of a `PtyOutput`.
pub enum PtyOutputView {
    Data(Seq<u8>),
    PromptStart,
    PromptEnd,
}

impl View for PtyOutput {
    type V = PtyOutputView;

    open spec fn view(&self) -> PtyOutputView {
        match self {
            PtyOutput::Data(d) => PtyOutputView::Data(d@),
            PtyOutput::PromptStart => PtyOutputView::PromptStart,
            PtyOutput::PromptEnd => PtyOutputView::PromptEnd,
        }
    }
}

/// The bytes of the input that an output stands for.
pub open spec fn rendered(o: PtyOutputView) -> Seq<u8> {
    match o {
        PtyOutputView::Data(d) => d,
        PtyOutputView::PromptStart => start_prompt_spec(),
        PtyOutputView::PromptEnd => end_prompt_spec(),
    }
}

/// The state of the extraction loop.
#[derive(Debug, PartialEq, Eq, Clone, Copy)]
pub enum ExtractorState {
    /// Look for markers in the buffered bytes.
    Process,
    /// More bytes must be read before anything can be handed out.
    Read,
    /// The given number of bytes has been handed out and must be dropped.
    Consume(usize),
}

/// What one step of the extractor asks for.
#[derive(Debug, PartialEq, Eq)]
pub enum ExtractorStep {
    /// The caller must read more bytes and `feed` them.
    NeedRead,
    /// An output was produced.
    Output(PtyOutput),
}

/// The number of leading bytes of `data` that can be handed out as plain
/// data: everything before the first complete marker, or, when there is
/// none, everything except a tail that may start a marker.
pub open spec fn data_len(data: Seq<u8>) -> int {
    let s = first_occurrence(data, start_prompt_spec());
    let e = first_occurrence(data, end_prompt_spec());
    match (s, e) {
        (Some(a), Some(b)) => if a < b {
            a
        } else {
            b
        },
        (Some(a), None) => a,
        (None, Some(b)) => b,
        (None, None) => data.len() - max_tail(data),
    }
}

/// The longest tail of `data` that starts either marker.
pub open spec fn max_tail(data: Seq<u8>) -> int {
    let a = choose|r: int| max_partial_match(data, start_prompt_spec(), r);
    let b = choose|r: int| max_partial_match(data, end_prompt_spec(), r);
    if a < b {
        b
    } else {
        a
    }
}

/// The output handed out for a buffer, or `None` when more input is needed.
pub open spec fn output_for(data: Seq<u8>) -> Option<PtyOutputView> {
    let s = first_occurrence(data, start_prompt_spec());
    let e = first_occurrence(data, end_prompt_spec());
    if s == Some(0int) {
        Some(PtyOutputView::PromptStart)
    } else if e == Some(0int) {
        Some(PtyOutputView::PromptEnd)
    } else if data_len(data) == 0 {
        None
    } else {
        Some(PtyOutputView::Data(data.subrange(0, data_len(data))))
    }
}

/// The bytes still to be accounted for by outputs: the buffer, minus what
/// the last output already stood for.
pub open spec fn pending(buffer: Seq<u8>, state: ExtractorState) -> Seq<u8> {
    match state {
        ExtractorState::Consume(n) => buffer.subrange(n as int, buffer.len() as int),
        _ => buffer,
    }
}

/// The state the loop goes on in once the last output has been dropped.
pub open spec fn state_after_consume(buffer: Seq<u8>, state: ExtractorState) -> ExtractorState {
    match state {
        ExtractorState::Consume(n) => if buffer.len() - n >= 6 {
            ExtractorState::Process
        } else {
            ExtractorState::Read
        },
        s => s,
    }
}

/// The model of an extraction step.
pub enum StepView {
    NeedRead,
    Output(PtyOutputView),
}

impl View for ExtractorStep {
    type V = StepView;

    open spec fn view(&self) -> StepView {
        match self {
            ExtractorStep::NeedRead => StepView::NeedRead,
            ExtractorStep::Output(o) => StepView::Output(o@),
        }
    }
}

/// One step of the extraction loop: drop what the last output stood for,
/// then, when there is enough to look at, decide on the next output.
pub open spec fn step_spec(
    buffer: Seq<u8>,
    state: ExtractorState,
    r: StepView,
    new_buffer: Seq<u8>,
    new_state: ExtractorState,
) -> bool {
    let b1 = pending(buffer, state);
    let s1 = state_after_consume(buffer, state);
    &&& new_buffer == b1
    &&& if s1 == ExtractorState::Process {
        match output_for(b1) {
            Some(o) => r == StepView::Output(o) && new_state == ExtractorState::Consume(
                rendered(o).len() as usize,
            ),
            None => r == StepView::NeedRead && new_state == ExtractorState::Read,
        }
    } else {
        r == StepView::NeedRead && new_state == ExtractorState::Read
    }
}

pub proof fn lemma_max_partial_unique(data: Seq<u8>, needle: Seq<u8>, r: int)
    requires
        max_partial_match(data, needle, r),
    ensures
        (choose|x: int| max_partial_match(data, needle, x)) == r,
{
    let x = choose|x: int| max_partial_match(data, needle, x);
    assert(max_partial_match(data, needle, x));
    if x < r {
        assert(!partial_match(data, needle, r));
    }
    if r < x {
        assert(!partial_match(data, needle, x));
    }
}

/// Splits the recorded shell output into data and prompt markers.
pub struct TerminalExtractor {
    buffer: Vec<u8>,
    state: ExtractorState,
}

impl TerminalExtractor {
    /// The bytes read but not yet handed out (or handed out but not yet
    /// dropped).
    pub closed spec fn buffered(&self) -> Seq<u8> {
        self.buffer@
    }

    /// The state of the extraction loop.
    pub closed spec fn current_state(&self) -> ExtractorState {
        self.state
    }

    /// What the extractor always keeps: its buffer fits the ring, and bytes
    /// to drop are bytes it holds.
    pub closed spec fn well_formed(&self) -> bool {
        &&& self.buffer@.len() <= RING_CAPACITY
        &&& match self.state {
            ExtractorState::Consume(n) => n <= self.buffer@.len(),
            _ => true,
        }
    }

    /// An extractor with nothing read yet, waiting for input.
    pub fn new() -> (r: Self)
        ensures
            r.well_formed(),
            r.buffered() == Seq::<u8>::empty(),
            r.current_state() == ExtractorState::Read,
    {
        TerminalExtractor { buffer: Vec::new(), state: ExtractorState::Read }
    }

    /// How many more bytes may be fed.
    pub fn write_capacity(&self) -> (r: usize)
        requires
            self.well_formed(),
        ensures
            r == RING_CAPACITY - self.buffered().len(),
    {
        RING_CAPACITY - self.buffer.len()
    }

    /// Whether the extractor waits for more input.
    pub fn needs_read(&self) -> (r: bool)
        ensures
            r == (self.current_state() == ExtractorState::Read),
    {
        match self.state {
            ExtractorState::Read => true,
            _ => false,
        }
    }

    /// Adds bytes read from the shell; the extractor then processes them.
    pub fn feed(&mut self, data: &[u8])
        requires
            old(self).well_formed(),
            old(self).current_state() == ExtractorState::Read,
            old(self).buffered().len() + data@.len() <= RING_CAPACITY,
        ensures
            final(self).well_formed(),
            final(self).buffered() == old(self).buffered() + data@,
            final(self).current_state() == ExtractorState::Process,
    {
        let mut i: usize = 0;
        let ghost b0 = self.buffer@;
        while i < data.len()
            invariant
                i <= data@.len(),
                self.buffer@ == b0 + data@.subrange(0, i as int),
                b0.len() + data@.len() <= RING_CAPACITY,
            decreases data@.len() - i,
        {
            self.buffer.push(data[i]);
            i = i + 1;
        }
        assert(data@.subrange(0, data@.len() as int) =~= data@);
        self.state = ExtractorState::Process;
    }

    /// Drops the first `n` bytes of the buffer.
    fn consume(&mut self, n: usize)
        requires
            n <= old(self).buffer@.len(),
        ensures
            final(self).buffer@ == old(self).buffer@.subrange(n as int, old(self).buffer@.len() as int),
            final(self).state == old(self).state,
    {
        let len = self.buffer.len();
        let mut rest: Vec<u8> = Vec::new();
        let mut i = n;
        while i < len
            invariant
                n <= i <= len,
                len == self.buffer@.len(),
                self.buffer@ == old(self).buffer@,
                rest@ == self.buffer@.subrange(n as int, i as int),
            decreases len - i,
        {
            rest.push(self.buffer[i]);
            i = i + 1;
        }
        self.buffer = rest;
    }

    /// Decides what to hand out for the current buffer.
    fn process(&self) -> (r: (Option<PtyOutput>, usize))
        ensures
            match r.0 {
                Some(o) => output_for(self.buffer@) == Some(o@) && r.1 == rendered(o@).len(),
                None => output_for(self.buffer@) is None,
            },
    {
        let start = start_prompt_bytes();
        let end = end_prompt_bytes();
        let data = self.buffer.as_slice();
        let s = find_bytes(data, start.as_slice());
        let e = find_bytes(data, end.as_slice());
        if let Some(0) = s {
            return (Some(PtyOutput::PromptStart), 9);
        }
        if let Some(0) = e {
            return (Some(PtyOutput::PromptEnd), 6);
        }
        let len = head_data_len(data, start.as_slice(), end.as_slice(), s, e);
        if len == 0 {
            return (None, 0);
        }
        let out: Vec<u8> = copy_prefix(data, len);
        (Some(PtyOutput::Data(out)), len)
    }

    /// Runs the extraction loop until it produces an output or needs more
    /// input.
    pub fn step(&mut self) -> (r: ExtractorStep)
        requires
            old(self).well_formed(),
        ensures
            final(self).well_formed(),
            step_spec(old(self).buffered(), old(self).current_state(), r@, final(self).buffered(), final(self).current_state()),
    {
        let st = match self.state {
            ExtractorState::Consume(n) => {
                self.consume(n);
                let next = if self.buffer.len() >= 6 {
                    ExtractorState::Process
                } else {
                    ExtractorState::Read
                };
                self.state = next;
                next
            },
            s => s,
        };
        match st {
            ExtractorState::Process => {
                let (o, n) = self.process();
                match o {
                    Some(out) => {
                        proof {
                            lemma_output_within(self.buffer@);
                        }
                        self.state = ExtractorState::Consume(n);
                        ExtractorStep::Output(out)
                    },
                    None => {
                        self.state = ExtractorState::Read;
                        ExtractorStep::NeedRead
                    },
                }
            },
            _ => {
                self.state = ExtractorState::Read;
                ExtractorStep::NeedRead
            },
        }
    }
}

/// The number of leading bytes that can be handed out as data, given where
/// the markers first occur.
fn head_data_len(
    data: &[u8],
    start: &[u8],
    end: &[u8],
    s: Option<usize>,
    e: Option<usize>,
) -> (len: usize)
    requires
        start@ == start_prompt_spec(),
        end@ == end_prompt_spec(),
        match s {
            Some(i) => first_occurrence(data@, start@) == Some(i as int),
            None => first_occurrence(data@, start@) is None,
        },
        match e {
            Some(i) => first_occurrence(data@, end@) == Some(i as int),
            None => first_occurrence(data@, end@) is None,
        },
    ensures
        len as int == data_len(data@),
        len <= data@.len(),
{
    proof {
        lemma_first_occurrence_props(data@, start@);
        lemma_first_occurrence_props(data@, end@);
    }
    match (s, e) {
        (Some(a), Some(b)) => if a < b {
            a
        } else {
            b
        },
        (Some(a), None) => a,
        (None, Some(b)) => b,
        (None, None) => {
            let ps = partially_matching_needle_len(data, start);
            let pe = partially_matching_needle_len(data, end);
            proof {
                lemma_max_partial_unique(data@, start_prompt_spec(), ps as int);
                lemma_max_partial_unique(data@, end_prompt_spec(), pe as int);
            }
            let max_bytes = if ps < pe {
                pe
            } else {
                ps
            };
            data.len() - max_bytes
        },
    }
}

/// The first `n` bytes of `data`.
fn copy_prefix(data: &[u8], n: usize) -> (r: Vec<u8>)
    requires
        n <= data@.len(),
    ensures
        r@ == data@.subrange(0, n as int),
{
    let mut r: Vec<u8> = Vec::new();
    let mut i: usize = 0;
    while i < n
        invariant
            i <= n <= data@.len(),
            r@ == data@.subrange(0, i as int),
        decreases n - i,
    {
        r.push(data[i]);
        i = i + 1;
    }
    r
}

/// An output stands for a non-empty head of the buffer.
pub proof fn lemma_output_within(data: Seq<u8>)
    ensures
        output_for(data) matches Some(o) ==> {
            &&& 0 < rendered(o).len() <= data.len()
            &&& rendered(o) == data.subrange(0, rendered(o).len() as int)
        },
{
    let s = first_occurrence(data, start_prompt_spec());
    let e = first_occurrence(data, end_prompt_spec());
    lemma_first_occurrence_props(data, start_prompt_spec());
    lemma_first_occurrence_props(data, end_prompt_spec());
    lemma_max_tail(data);
}

/// What `first_occurrence` promises.
pub proof fn lemma_first_occurrence_props(haystack: Seq<u8>, needle: Seq<u8>)
    ensures
        first_occurrence(haystack, needle) matches Some(i) ==> occurs_at(haystack, needle, i)
            && forall|j: int| 0 <= j < i ==> !occurs_at(haystack, needle, j),
        first_occurrence(haystack, needle) is None ==> forall|j: int|
            !occurs_at(haystack, needle, j),
{
    reveal(first_occurrence);
    if exists|i: int| occurs_at(haystack, needle, i) {
        let w = choose|i: int| occurs_at(haystack, needle, i);
        lemma_least_occurrence_exists(haystack, needle, w);
    }
}

/// Below any occurrence lies a least one.
proof fn lemma_least_occurrence_exists(haystack: Seq<u8>, needle: Seq<u8>, w: int)
    requires
        occurs_at(haystack, needle, w),
    ensures
        exists|i: int|
            occurs_at(haystack, needle, i) && forall|j: int|
                0 <= j < i ==> !occurs_at(haystack, needle, j),
    decreases w,
{
    if exists|j: int| 0 <= j < w && occurs_at(haystack, needle, j) {
        let j = choose|j: int| 0 <= j < w && occurs_at(haystack, needle, j);
        lemma_least_occurrence_exists(haystack, needle, j);
    } else {
        assert(forall|j: int| 0 <= j < w ==> !occurs_at(haystack, needle, j));
    }
}

/// Both markers have a longest matching tail, and it fits the data.
proof fn lemma_max_tail(data: Seq<u8>)
    ensures
        0 <= max_tail(data) <= data.len(),
{
    lemma_max_partial_exists(data, start_prompt_spec());
    lemma_max_partial_exists(data, end_prompt_spec());
}

/// A longest matching tail exists.
proof fn lemma_max_partial_exists(data: Seq<u8>, needle: Seq<u8>)
    ensures
        exists|r: int| max_partial_match(data, needle, r),
        forall|r: int| max_partial_match(data, needle, r) ==> 0 <= r <= data.len(),
{
    let m = if needle.len() < data.len() {
        needle.len() as int
    } else {
        data.len() as int
    };
    lemma_max_partial_below(data, needle, m);
}

proof fn lemma_max_partial_below(data: Seq<u8>, needle: Seq<u8>, k: int)
    requires
        0 <= k,
        forall|i: int| k < i ==> !partial_match(data, needle, i),
    ensures
        exists|r: int| max_partial_match(data, needle, r),
    decreases k,
{
    if partial_match(data, needle, k) {
        assert(max_partial_match(data, needle, k));
    } else if k == 0 {
        assert(needle.subrange(0, 0) =~= data.subrange(data.len() as int, data.len() as int));
    } else {
        lemma_max_partial_below(data, needle, k - 1);
    }
}

/// No byte is lost or duplicated by a step: the bytes an output stands for,
/// followed by what remains to be accounted for, are exactly what remained to
/// be accounted for before the step; a step that asks for input accounts for
/// nothing.
pub proof fn law_step_accounts_for_every_byte(
    buffer: Seq<u8>,
    state: ExtractorState,
    r: StepView,
    new_buffer: Seq<u8>,
    new_state: ExtractorState,
)
    requires
        step_spec(buffer, state, r, new_buffer, new_state),
        buffer.len() <= RING_CAPACITY,
        match state {
            ExtractorState::Consume(n) => n <= buffer.len(),
            _ => true,
        },
    ensures
        match r {
            StepView::Output(o) => rendered(o) + pending(new_buffer, new_state) == pending(
                buffer,
                state,
            ),
            StepView::NeedRead => pending(new_buffer, new_state) == pending(buffer, state),
        },
{
    let b1 = pending(buffer, state);
    lemma_output_within(b1);
    assert(b1.len() <= buffer.len());
    if let StepView::Output(o) = r {
        let n = rendered(o).len();
        assert(output_for(b1) == Some(o));
        assert(new_state == ExtractorState::Consume(n as usize));
        assert((n as usize) as int == n);
        assert(pending(new_buffer, new_state) == b1.subrange(n as int, b1.len() as int));
        assert(b1.subrange(0, n as int) + b1.subrange(n as int, b1.len() as int) =~= b1);
    }
}

/// The result of a step as a function of the buffer and the state: the
/// output, the buffer and the state after it (what `step_spec` relates).
pub open spec fn step_next(buffer: Seq<u8>, state: ExtractorState) -> (StepView, Seq<u8>, ExtractorState) {
    let b1 = pending(buffer, state);
    if state_after_consume(buffer, state) == ExtractorState::Process {
        match output_for(b1) {
            Some(o) => (StepView::Output(o), b1, ExtractorState::Consume(rendered(o).len() as usize)),
            None => (StepView::NeedRead, b1, ExtractorState::Read),
        }
    } else {
        (StepView::NeedRead, b1, ExtractorState::Read)
    }
}

/// A step does one thing: `step_spec` holds of exactly the result of
/// `step_next`.
pub proof fn law_step_is_a_function(
    buffer: Seq<u8>,
    state: ExtractorState,
    r: StepView,
    new_buffer: Seq<u8>,
    new_state: ExtractorState,
)
    ensures
        step_spec(buffer, state, r, new_buffer, new_state) <==> (r, new_buffer, new_state)
            == step_next(buffer, state),
{
}

/// A call made on an extractor.
pub enum ExtractorCall {
    /// `feed` with these bytes.
    Feed(Seq<u8>),
    /// `step`.
    Step,
}

/// The bytes that a list of step results stands for, in order.
pub open spec fn outputs_rendered(outs: Seq<StepView>) -> Seq<u8>
    decreases outs.len(),
{
    if outs.len() == 0 {
        Seq::empty()
    } else {
        outputs_rendered(outs.drop_last()) + match outs.last() {
            StepView::Output(o) => rendered(o),
            StepView::NeedRead => Seq::empty(),
        }
    }
}

/// The calls made on a new extractor, each allowed by the contracts: the
/// buffer, the state, the step results and the bytes fed; `None` when a
/// call is not allowed (a feed while not waiting for input, or beyond the
/// ring's capacity).
pub open spec fn run_calls(calls: Seq<ExtractorCall>) -> Option<
    (Seq<u8>, ExtractorState, Seq<StepView>, Seq<u8>),
>
    decreases calls.len(),
{
    if calls.len() == 0 {
        Some((Seq::empty(), ExtractorState::Read, Seq::empty(), Seq::empty()))
    } else {
        match run_calls(calls.drop_last()) {
            Some((b, s, outs, fed)) => match calls.last() {
                ExtractorCall::Feed(data) => if s == ExtractorState::Read && b.len() + data.len()
                    <= RING_CAPACITY {
                    Some((b + data, ExtractorState::Process, outs, fed + data))
                } else {
                    None
                },
                ExtractorCall::Step => {
                    let (r, nb, ns) = step_next(b, s);
                    Some((nb, ns, outs.push(r), fed))
                },
            },
            None => None,
        }
    }
}

/// Over any run of calls from a new extractor, nothing is lost or
/// duplicated: the bytes the outputs stand for (data as it is, each marker
/// as its bytes), followed by what remains to be handed out, are exactly the
/// bytes fed, in order.
pub proof fn law_outputs_and_rest_are_the_input(calls: Seq<ExtractorCall>)
    ensures
        run_calls(calls) matches Some((b, s, outs, fed)) ==> {
            &&& outputs_rendered(outs) + pending(b, s) == fed
            &&& b.len() <= RING_CAPACITY
            &&& (s matches ExtractorState::Consume(n) ==> n <= b.len())
        },
    decreases calls.len(),
{
    if calls.len() > 0 {
        law_outputs_and_rest_are_the_input(calls.drop_last());
        if let Some((b, s, outs, fed)) = run_calls(calls.drop_last()) {
            match calls.last() {
                ExtractorCall::Feed(data) => {
                    if s == ExtractorState::Read && b.len() + data.len() <= RING_CAPACITY {
                        assert(outputs_rendered(outs) + (b + data) =~= (outputs_rendered(outs) + b)
                            + data);
                    }
                },
                ExtractorCall::Step => {
                    let (r, nb, ns) = step_next(b, s);
                    law_step_accounts_for_every_byte(b, s, r, nb, ns);
                    let b1 = pending(b, s);
                    lemma_output_within(b1);
                    let outs2 = outs.push(r);
                    assert(outs2.drop_last() =~= outs);
                    match r {
                        StepView::Output(o) => {
                            assert(outputs_rendered(outs2) == outputs_rendered(outs) + rendered(o));
                            assert(outputs_rendered(outs2) + pending(nb, ns) =~= outputs_rendered(
                                outs,
                            ) + (rendered(o) + pending(nb, ns)));
                        },
                        StepView::NeedRead => {
                            assert(outputs_rendered(outs2) =~= outputs_rendered(outs));
                        },
                    }
                },
            }
        }
    }
}

/// Plain data handed out never holds a complete marker, and is never empty.
pub proof fn law_data_holds_no_marker(buffer: Seq<u8>)
    ensures
        output_for(buffer) matches Some(PtyOutputView::Data(d)) ==> {
            &&& d.len() > 0
            &&& forall|i: int| !occurs_at(d, start_prompt_spec(), i)
            &&& forall|i: int| !occurs_at(d, end_prompt_spec(), i)
        },
{
    lemma_output_within(buffer);
    lemma_first_occurrence_props(buffer, start_prompt_spec());
    lemma_first_occurrence_props(buffer, end_prompt_spec());
    if let Some(PtyOutputView::Data(d)) = output_for(buffer) {
        assert forall|i: int| !occurs_at(d, start_prompt_spec(), i) by {
            if occurs_at(d, start_prompt_spec(), i) {
                assert(d.subrange(i, i + 9) =~= buffer.subrange(i, i + 9));
                assert(occurs_at(buffer, start_prompt_spec(), i));
            }
        }
        assert forall|i: int| !occurs_at(d, end_prompt_spec(), i) by {
            if occurs_at(d, end_prompt_spec(), i) {
                assert(d.subrange(i, i + 6) =~= buffer.subrange(i, i + 6));
                assert(occurs_at(buffer, end_prompt_spec(), i));
            }
        }
    }
}

/// A buffer that begins with the start marker is reported as a prompt
/// start, and only such a buffer.
pub proof fn law_prompt_start_at_head(buffer: Seq<u8>)
    ensures
        output_for(buffer) == Some(PtyOutputView::PromptStart) <==> occurs_at(
            buffer,
            start_prompt_spec(),
            0,
        ),
{
    lemma_first_occurrence_props(buffer, start_prompt_spec());
    lemma_first_occurrence_props(buffer, end_prompt_spec());
    if occurs_at(buffer, start_prompt_spec(), 0) {
        lemma_first_occurrence(buffer, start_prompt_spec(), 0);
    }
}

/// A buffer that begins with the end marker (and not the start marker) is
/// reported as a prompt end, and only such a buffer.
pub proof fn law_prompt_end_at_head(buffer: Seq<u8>)
    ensures
        output_for(buffer) == Some(PtyOutputView::PromptEnd) <==> occurs_at(
            buffer,
            end_prompt_spec(),
            0,
        ) && !occurs_at(buffer, start_prompt_spec(), 0),
{
    lemma_first_occurrence_props(buffer, start_prompt_spec());
    lemma_first_occurrence_props(buffer, end_prompt_spec());
    if occurs_at(buffer, end_prompt_spec(), 0) {
        lemma_first_occurrence(buffer, end_prompt_spec(), 0);
    }
    if occurs_at(buffer, start_prompt_spec(), 0) {
        lemma_first_occurrence(buffer, start_prompt_spec(), 0);
    }
}

} // verus!
