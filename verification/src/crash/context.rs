//! What the frame loop tells the reporter in advance, and how a report is put
//! together from it.

use crate::crash::report::{
    payload_message, payload_text, tidied, tidy, AutosaveCopy, DocumentNote, Report,
    BACKTRACE_LIMIT, FIELD_LIMIT, FORMAT,
};
use crate::number::{digits_of, write_digits};
use crate::text::{push_text, same_text, string_of};
use vstd::prelude::*;

verus! {

/// One open document, as the tab strip has it.
#[derive(Debug)]
pub struct Doc {
    pub id: u64,
    pub title: String,
    pub modified: bool,
    pub revision: u64,
    pub path: Option<String>,
}

/// The last autosave of one document. Held apart from [`Doc`] because the two
/// change at different moments, and because the age has to be computed at the
/// moment of the crash.
#[derive(Debug)]
pub struct Copied {
    pub id: u64,
    pub path: String,
    pub revision: u64,
    /// When it was written, in nanoseconds on a clock that never goes back.
    pub written: u64,
}

/// Everything the frame loop has told the reporter it may say.
#[derive(Debug)]
pub struct Context {
    pub adapter: Option<String>,
    pub backend: Option<String>,
    pub docs: Vec<Doc>,
    pub copies: Vec<Copied>,
}

/// Nanoseconds in a second.
pub const SECOND: u64 = 1_000_000_000;

pub(crate) fn clone_text(text: &Option<String>) -> (r: Option<String>)
    ensures
        r == *text,
{
    match text {
        Some(s) => Some(s.clone()),
        None => None,
    }
}

/// The first copy at or after `from` of the document.
pub open spec fn copy_index(copies: Seq<Copied>, id: u64, from: int) -> int
    decreases copies.len() - from,
{
    if 0 <= from < copies.len() && copies[from].id != id {
        copy_index(copies, id, from + 1)
    } else {
        from
    }
}

/// Whole seconds from one moment to a later one; none when it is not later.
pub open spec fn seconds_between(written: int, now: int) -> int {
    if now >= written {
        (now - written) / SECOND as int
    } else {
        0
    }
}

/// What the report says of a document: what the tab strip said of it, and the
/// copy there is of it, with its age now.
pub open spec fn noted(d: Doc, copies: Seq<Copied>, now: u64) -> DocumentNote {
    let at = copy_index(copies, d.id, 0);
    DocumentNote {
        title: d.title,
        modified: d.modified,
        revision: d.revision,
        path: d.path,
        autosave: if at < copies.len() {
            Some(
                AutosaveCopy {
                    path: copies[at].path,
                    revision: copies[at].revision,
                    seconds_ago: seconds_between(copies[at].written as int, now as int) as u64,
                },
            )
        } else {
            None
        },
    }
}

fn find_copy(copies: &Vec<Copied>, id: u64) -> (r: Option<usize>)
    ensures
        match r {
            Some(i) => i == copy_index(copies@, id, 0) && i < copies@.len(),
            None => copy_index(copies@, id, 0) >= copies@.len(),
        },
{
    let mut i: usize = 0;
    while i < copies.len()
        invariant
            0 <= i <= copies@.len(),
            copy_index(copies@, id, 0) == copy_index(copies@, id, i as int),
        decreases copies@.len() - i,
    {
        if copies[i].id == id {
            return Some(i);
        }
        i += 1;
    }
    None
}

impl Context {
    pub fn empty() -> (r: Context)
        ensures
            r.adapter is None,
            r.backend is None,
            r.docs@ == Seq::<Doc>::empty(),
            r.copies@ == Seq::<Copied>::empty(),
    {
        Context { adapter: None, backend: None, docs: Vec::new(), copies: Vec::new() }
    }

    /// What the report says of every open document, in order.
    pub fn documents(&self, now: u64) -> (r: Vec<DocumentNote>)
        ensures
            r@ == self.docs@.map_values(|d: Doc| noted(d, self.copies@, now)),
    {
        let mut out: Vec<DocumentNote> = Vec::new();
        let mut i: usize = 0;
        while i < self.docs.len()
            invariant
                0 <= i <= self.docs@.len(),
                out@.len() == i,
                forall|j: int|
                    0 <= j < i ==> #[trigger] out@[j] == noted(self.docs@[j], self.copies@, now),
            decreases self.docs@.len() - i,
        {
            let d = &self.docs[i];
            let autosave = match find_copy(&self.copies, d.id) {
                Some(at) => {
                    let c = &self.copies[at];
                    let seconds_ago: u64 = if now >= c.written {
                        (now - c.written) / SECOND
                    } else {
                        0
                    };
                    Some(
                        AutosaveCopy { path: c.path.clone(), revision: c.revision, seconds_ago },
                    )
                },
                None => None,
            };
            out.push(
                DocumentNote {
                    title: d.title.clone(),
                    modified: d.modified,
                    revision: d.revision,
                    path: clone_text(&d.path),
                    autosave,
                },
            );
            i += 1;
        }
        assert(out@ =~= self.docs@.map_values(|d: Doc| noted(d, self.copies@, now)));
        out
    }
}

// --- what the frame loop says -----------------------------------------------

/// One tab more in the number the tab strip is reduced to.
pub open spec fn mark_step(mark: u64, d: Doc) -> u64 {
    let turned = (mark << 7) | (mark >> 57);
    (((turned + d.revision) % 0x1_0000_0000_0000_0000) as u64) ^ (if d.modified {
        1u64
    } else {
        0u64
    }) ^ (if d.path is Some {
        2u64
    } else {
        0u64
    })
}

/// The number the first `n` tabs are reduced to, among `count`.
pub open spec fn mark_of(tabs: Seq<Doc>, n: int) -> u64
    decreases n,
{
    if n <= 0 {
        tabs.len() as u64
    } else {
        mark_step(mark_of(tabs, n - 1), tabs[n - 1])
    }
}

/// A document as it is remembered: its title made safe to write.
pub open spec fn remembers(d: Doc, tab: Doc) -> bool {
    &&& d.id == tab.id
    &&& d.title@ == tidied(tab.title@, FIELD_LIMIT as int)
    &&& d.modified == tab.modified
    &&& d.revision == tab.revision
    &&& d.path == tab.path
}

/// Reduce the tab strip to one number, so that a frame in which nothing changed
/// can be recognised without looking further.
pub fn documents_mark(tabs: &Vec<Doc>) -> (r: u64)
    ensures
        r == mark_of(tabs@, tabs@.len() as int),
{
    let mut mark: u64 = tabs.len() as u64;
    let mut i: usize = 0;
    while i < tabs.len()
        invariant
            0 <= i <= tabs@.len(),
            mark == mark_of(tabs@, i as int),
        decreases tabs@.len() - i,
    {
        let tab = &tabs[i];
        let turned: u64 = (mark << 7) | (mark >> 57);
        let modified: u64 = if tab.modified {
            1
        } else {
            0
        };
        let saved: u64 = if tab.path.is_some() {
            2
        } else {
            0
        };
        let sum: u64 = turned.wrapping_add(tab.revision);
        assert(sum == ((turned + tab.revision) % 0x1_0000_0000_0000_0000) as u64);
        mark = sum ^ modified ^ saved;
        i += 1;
    }
    mark
}

/// What a panic on a thread calls for.
#[derive(Clone, Copy, Debug, PartialEq, Eq, Structural)]
pub enum PanicAction {
    /// A worker died. The application is still running, so a box saying it has
    /// stopped would be false.
    WorkerDied,
    /// The second panic, arriving while the first unwinds.
    AlreadyReporting,
    /// Gather a report, write it and hand it over.
    Report,
}

/// Only the main thread's panic is reported, and only the first of them.
pub open spec fn called_for(thread: Seq<char>, reporting: bool) -> PanicAction {
    if thread != "main"@ {
        PanicAction::WorkerDied
    } else if reporting {
        PanicAction::AlreadyReporting
    } else {
        PanicAction::Report
    }
}

/// Whether a report has been begun once these threads have panicked in turn.
pub open spec fn begun(threads: Seq<Seq<char>>, n: int) -> bool
    decreases n,
{
    n > 0 && (begun(threads, n - 1) || threads[n - 1] == "main"@)
}

/// How far the handling of one panic has come.
#[derive(Clone, Copy, Debug, PartialEq, Eq, Structural)]
pub enum Stage {
    /// A report is called for, and needs a file to go to.
    Place,
    /// There is a file for it, and it has to be written.
    Write,
    /// It is written, and a fresh process can be started to show it.
    HandOver,
    /// Nothing is left to do.
    Over,
}

impl PanicAction {
    /// Where the handling of a panic starts: with a report, or not at all.
    pub open spec fn starts(self) -> Stage {
        if self == PanicAction::Report {
            Stage::Place
        } else {
            Stage::Over
        }
    }

    pub fn first_stage(self) -> (r: Stage)
        ensures
            r == self.starts(),
    {
        match self {
            PanicAction::Report => Stage::Place,
            _ => Stage::Over,
        }
    }
}

impl Stage {
    /// What follows once this stage went well, or failed. A failure is the end
    /// of it, and so is the hand-over.
    pub open spec fn followed_by(self, went_well: bool) -> Stage {
        match self {
            Stage::Place => if went_well {
                Stage::Write
            } else {
                Stage::Over
            },
            Stage::Write => if went_well {
                Stage::HandOver
            } else {
                Stage::Over
            },
            Stage::HandOver | Stage::Over => Stage::Over,
        }
    }

    pub fn next(self, went_well: bool) -> (r: Stage)
        ensures
            r == self.followed_by(went_well),
    {
        match self {
            Stage::Place => if went_well {
                Stage::Write
            } else {
                Stage::Over
            },
            Stage::Write => if went_well {
                Stage::HandOver
            } else {
                Stage::Over
            },
            Stage::HandOver | Stage::Over => Stage::Over,
        }
    }
}

/// The stage the handling of a panic has come to after `n` stages, each of which
/// went well or did not.
pub open spec fn stage_after(action: PanicAction, went_well: Seq<bool>, n: int) -> Stage
    decreases n,
{
    if n <= 0 {
        action.starts()
    } else {
        stage_after(action, went_well, n - 1).followed_by(went_well[n - 1])
    }
}

/// The context, the number the tab strip last came to, and whether a report has
/// been begun.
#[derive(Debug)]
pub struct Recorder {
    pub context: Context,
    pub mark: u64,
    pub reporting: bool,
}

impl Recorder {
    pub fn new() -> (r: Recorder)
        ensures
            r.context.docs@ == Seq::<Doc>::empty(),
            r.context.copies@ == Seq::<Copied>::empty(),
            r.context.adapter is None,
            r.context.backend is None,
            r.mark == u64::MAX,
            !r.reporting,
    {
        Recorder { context: Context::empty(), mark: u64::MAX, reporting: false }
    }

    /// Record the GPU, as soon as there is one.
    pub fn note_adapter(&mut self, name: &str, backend: String)
        ensures
            final(self).context.adapter is Some,
            final(self).context.adapter->0@ == tidied(name@, FIELD_LIMIT as int),
            final(self).context.backend == Some(backend),
            final(self).context.docs == old(self).context.docs,
            final(self).context.copies == old(self).context.copies,
            final(self).mark == old(self).mark,
            final(self).reporting == old(self).reporting,
    {
        self.context.adapter = Some(tidy(name, FIELD_LIMIT));
        self.context.backend = Some(backend);
    }

    /// Record what is open. Does nothing while the tab strip comes to the
    /// number it came to last time.
    pub fn note_documents(&mut self, tabs: &Vec<Doc>)
        ensures
            final(self).mark == mark_of(tabs@, tabs@.len() as int),
            old(self).mark == final(self).mark ==> *final(self) == *old(self),
            old(self).mark != final(self).mark ==> {
                &&& final(self).context.docs@.len() == tabs@.len()
                &&& forall|i: int|
                    0 <= i < tabs@.len() ==> remembers(
                        #[trigger] final(self).context.docs@[i],
                        tabs@[i],
                    )
            },
            final(self).context.adapter == old(self).context.adapter,
            final(self).context.backend == old(self).context.backend,
            final(self).context.copies == old(self).context.copies,
            final(self).reporting == old(self).reporting,
    {
        let mark: u64 = documents_mark(tabs);
        if self.mark == mark {
            return ;
        }
        let mut docs: Vec<Doc> = Vec::new();
        let mut i: usize = 0;
        while i < tabs.len()
            invariant
                0 <= i <= tabs@.len(),
                docs@.len() == i,
                forall|j: int| 0 <= j < i ==> remembers(#[trigger] docs@[j], tabs@[j]),
            decreases tabs@.len() - i,
        {
            let tab = &tabs[i];
            docs.push(
                Doc {
                    id: tab.id,
                    title: tidy(tab.title.as_str(), FIELD_LIMIT),
                    modified: tab.modified,
                    revision: tab.revision,
                    path: clone_text(&tab.path),
                },
            );
            i += 1;
        }
        self.context.docs = docs;
        self.mark = mark;
    }

    /// Record where a document was just written, and what it was written from.
    /// A document has one copy: the last one.
    pub fn note_autosave(&mut self, id: u64, path: String, revision: u64, now: u64)
        ensures
            ({
                let copies = old(self).context.copies@;
                let at = copy_index(copies, id, 0);
                let entry = Copied { id, path, revision, written: now };
                final(self).context.copies@ == if at < copies.len() {
                    copies.update(at, entry)
                } else {
                    copies.push(entry)
                }
            }),
            final(self).context.adapter == old(self).context.adapter,
            final(self).context.backend == old(self).context.backend,
            final(self).context.docs == old(self).context.docs,
            final(self).mark == old(self).mark,
            final(self).reporting == old(self).reporting,
    {
        let entry = Copied { id, path, revision, written: now };
        match find_copy(&self.context.copies, id) {
            Some(at) => {
                self.context.copies.set(at, entry);
            },
            None => {
                self.context.copies.push(entry);
            },
        }
    }

    /// What a panic on this thread calls for. Only the main thread's is
    /// reported, and only the first.
    pub fn begin_report(&mut self, thread: &str) -> (r: PanicAction)
        ensures
            r == called_for(thread@, old(self).reporting),
            final(self).reporting == (old(self).reporting || thread@ == "main"@),
            final(self).context == old(self).context,
            final(self).mark == old(self).mark,
    {
        if !same_text(thread, "main") {
            return PanicAction::WorkerDied;
        }
        if self.reporting {
            return PanicAction::AlreadyReporting;
        }
        self.reporting = true;
        PanicAction::Report
    }
}

// --- gathering --------------------------------------------------------------

/// What is known of a panic and of the machine it happened on.
#[derive(Debug)]
pub struct Facts {
    pub version: String,
    pub os: String,
    pub arch: String,
    pub thread: String,
    /// The payload's text, where it is one.
    pub payload: Option<String>,
    pub location: Option<String>,
    pub backtrace: String,
    pub captured: bool,
}

/// Build the report out of the panic and whatever the frame loop last said. A
/// context that is busy, because the thread that holds it is the one that
/// panicked, contributes nothing.
pub fn gather(facts: &Facts, context: Option<&Context>, now: u64) -> (r: Report)
    ensures
        r.format == FORMAT,
        r.version == facts.version,
        r.os == facts.os,
        r.arch == facts.arch,
        r.thread == facts.thread,
        r.message@ == payload_text(
            match facts.payload {
                Some(s) => Some(s@),
                None => None,
            },
        ),
        r.location == facts.location,
        r.backtrace@ == tidied(facts.backtrace@, BACKTRACE_LIMIT as int),
        r.backtrace_available == facts.captured,
        match context {
            Some(c) => {
                &&& r.adapter == c.adapter
                &&& r.backend == c.backend
                &&& r.documents@ == c.docs@.map_values(|d: Doc| noted(d, c.copies@, now))
            },
            None => r.adapter is None && r.backend is None && r.documents@.len() == 0,
        },
{
    let (adapter, backend, documents) = match context {
        Some(c) => (clone_text(&c.adapter), clone_text(&c.backend), c.documents(now)),
        None => (None, None, Vec::new()),
    };
    let message = match &facts.payload {
        Some(s) => payload_message(Some(s.as_str())),
        None => payload_message(None),
    };
    Report {
        format: FORMAT,
        version: facts.version.clone(),
        os: facts.os.clone(),
        arch: facts.arch.clone(),
        adapter,
        backend,
        thread: facts.thread.clone(),
        message,
        location: clone_text(&facts.location),
        backtrace: tidy(facts.backtrace.as_str(), BACKTRACE_LIMIT),
        backtrace_available: facts.captured,
        documents,
    }
}

/// What a crash's report is called: after the moment, in milliseconds, so that
/// two crashes in a session are two files.
pub fn report_name(stamp: u64) -> (r: String)
    ensures
        r@ == "crash-"@ + digits_of(stamp as nat) + ".json"@,
{
    let mut out: Vec<char> = Vec::new();
    push_text(&mut out, "crash-");
    write_digits(stamp, &mut out);
    push_text(&mut out, ".json");
    assert(out@ =~= "crash-"@ + digits_of(stamp as nat) + ".json"@);
    string_of(&out)
}

/// What a device error that nobody asked to be handed is raised as.
pub fn device_error_message(error: &str) -> (r: String)
    ensures
        r@ == "The graphics device reported an error Umber cannot carry on from.\n\n"@ + error@,
{
    let mut out: Vec<char> = Vec::new();
    push_text(
        &mut out,
        "The graphics device reported an error Umber cannot carry on from.\n\n",
    );
    push_text(&mut out, error);
    assert(out@ =~= "The graphics device reported an error Umber cannot carry on from.\n\n"@
        + error@);
    string_of(&out)
}

// --- laws -------------------------------------------------------------------

/// However many threads panic, and in whatever order, one report is begun at
/// most: by the first panic of the main thread, if it has one.
pub proof fn a_crash_is_reported_once(threads: Seq<Seq<char>>, i: int, j: int)
    requires
        0 <= i < j < threads.len(),
        called_for(threads[i], begun(threads, i)) == PanicAction::Report,
    ensures
        threads[i] == "main"@,
        called_for(threads[j], begun(threads, j)) != PanicAction::Report,
{
    lemma_begun_stays(threads, i + 1, j);
}

/// A worker's panic does not use up the report: the main thread's first panic
/// calls for one, whichever threads have panicked before it.
pub proof fn workers_do_not_use_up_the_report(threads: Seq<Seq<char>>, n: int)
    requires
        0 <= n < threads.len(),
        threads[n] == "main"@,
        forall|i: int| 0 <= i < n ==> #[trigger] threads[i] != "main"@,
    ensures
        called_for(threads[n], begun(threads, n)) == PanicAction::Report,
{
    lemma_not_begun(threads, n);
}

proof fn lemma_not_begun(threads: Seq<Seq<char>>, n: int)
    requires
        0 <= n <= threads.len(),
        forall|i: int| 0 <= i < n ==> #[trigger] threads[i] != "main"@,
    ensures
        !begun(threads, n),
    decreases n,
{
    if n > 0 {
        lemma_not_begun(threads, n - 1);
        assert(threads[n - 1] != "main"@);
    }
}

/// A reporter is started for a report that had a file to go to and was written
/// to it without an error, and for nothing else.
pub proof fn a_reporter_needs_a_written_report(action: PanicAction, went_well: Seq<bool>, n: int)
    requires
        0 <= n,
    ensures
        stage_after(action, went_well, n) == Stage::HandOver <==> action == PanicAction::Report && n
            == 2 && went_well[0] && went_well[1],
{
    assert(stage_after(action, went_well, 0) == action.starts());
    assert(stage_after(action, went_well, 1) == action.starts().followed_by(went_well[0]));
    assert(stage_after(action, went_well, 2) == stage_after(action, went_well, 1).followed_by(
        went_well[1],
    ));
    if n > 2 {
        lemma_over_from(action, went_well, n);
    }
}

proof fn lemma_over_from(action: PanicAction, went_well: Seq<bool>, n: int)
    requires
        n > 2,
    ensures
        stage_after(action, went_well, n) == Stage::Over,
    decreases n,
{
    if n > 3 {
        lemma_over_from(action, went_well, n - 1);
    } else {
        reveal_with_fuel(stage_after, 4);
    }
}

/// However many threads panic, and however the handling of each goes, one
/// reporter is started at most: for a panic of the main thread.
pub proof fn one_reporter_at_most(
    threads: Seq<Seq<char>>,
    went_well: Seq<Seq<bool>>,
    i: int,
    n: int,
    j: int,
    m: int,
)
    requires
        0 <= i <= j < threads.len(),
        0 <= n,
        0 <= m,
        stage_after(called_for(threads[i], begun(threads, i)), went_well[i], n) == Stage::HandOver,
        stage_after(called_for(threads[j], begun(threads, j)), went_well[j], m) == Stage::HandOver,
    ensures
        i == j,
        n == m,
        threads[i] == "main"@,
{
    a_reporter_needs_a_written_report(called_for(threads[i], begun(threads, i)), went_well[i], n);
    a_reporter_needs_a_written_report(called_for(threads[j], begun(threads, j)), went_well[j], m);
    if i < j {
        a_crash_is_reported_once(threads, i, j);
    }
}

proof fn lemma_begun_stays(threads: Seq<Seq<char>>, i: int, j: int)
    requires
        0 <= i <= j,
        begun(threads, i),
    ensures
        begun(threads, j),
    decreases j - i,
{
    if i < j {
        lemma_begun_stays(threads, i, j - 1);
    }
}

/// Two reports of different moments never share a name.
pub proof fn report_names_differ(a: nat, b: nat)
    requires
        a != b,
    ensures
        "crash-"@ + digits_of(a) + ".json"@ != "crash-"@ + digits_of(b) + ".json"@,
{
    crate::number::lemma_digits_of(a);
    crate::number::lemma_digits_of(b);
    let x = "crash-"@ + digits_of(a) + ".json"@;
    let y = "crash-"@ + digits_of(b) + ".json"@;
    if x == y {
        let n = "crash-"@.len() as int;
        let m = ".json"@.len() as int;
        assert(x.subrange(n, x.len() - m) =~= digits_of(a));
        assert(y.subrange(n, y.len() - m) =~= digits_of(b));
        assert(false);
    }
}

/// A document that has no copy is noted without one: it does not inherit its
/// neighbour's. One that has, is noted with the first copy of it and no other
/// document's.
pub proof fn a_copy_belongs_to_its_own_document(d: Doc, copies: Seq<Copied>, now: u64)
    ensures
        noted(d, copies, now).autosave is Some <==> exists|i: int|
            0 <= i < copies.len() && (#[trigger] copies[i]).id == d.id,
        noted(d, copies, now).autosave is Some ==> exists|i: int|
            0 <= i < copies.len() && (#[trigger] copies[i]).id == d.id && noted(
                d,
                copies,
                now,
            ).autosave->0.path == copies[i].path,
{
    lemma_copy_index(copies, d.id, 0);
    let at = copy_index(copies, d.id, 0);
    if at < copies.len() {
        assert(copies[at].id == d.id);
    }
}

proof fn lemma_copy_index(copies: Seq<Copied>, id: u64, from: int)
    requires
        0 <= from <= copies.len(),
    ensures
        from <= copy_index(copies, id, from) <= copies.len(),
        copy_index(copies, id, from) < copies.len() ==> copies[copy_index(copies, id, from)].id
            == id,
        forall|i: int| from <= i < copy_index(copies, id, from) ==> (#[trigger] copies[i]).id != id,
    decreases copies.len() - from,
{
    if from < copies.len() && copies[from].id != id {
        lemma_copy_index(copies, id, from + 1);
    }
}

/// An age is the whole seconds that have passed, and a moment that is not yet past has
/// none.
pub proof fn an_age_is_whole_seconds(written: int, now: int)
    ensures
        now >= written ==> 1_000_000_000 * seconds_between(written, now) <= now - written < 1_000_000_000
            * seconds_between(written, now) + 1_000_000_000,
        now < written ==> seconds_between(written, now) == 0,
{
}

/// A note says of a document what its tab did, and of its copy where it is, what it was
/// written from and how long ago.
pub proof fn a_note_says_what_the_tab_did(d: Doc, copies: Seq<Copied>, now: u64, i: int)
    requires
        0 <= i < copies.len(),
        copies[i].id == d.id,
        forall|j: int| 0 <= j < i ==> (#[trigger] copies[j]).id != d.id,
    ensures
        ({
            let note = noted(d, copies, now);
            &&& note.title == d.title
            &&& note.modified == d.modified
            &&& note.revision == d.revision
            &&& note.path == d.path
            &&& note.autosave is Some
            &&& note.autosave->0.path == copies[i].path
            &&& note.autosave->0.revision == copies[i].revision
            &&& now >= copies[i].written ==> 1_000_000_000 * note.autosave->0.seconds_ago <= now
                - copies[i].written < 1_000_000_000 * note.autosave->0.seconds_ago + 1_000_000_000
            &&& now < copies[i].written ==> note.autosave->0.seconds_ago == 0
        }),
{
    lemma_copy_index(copies, d.id, 0);
    let at = copy_index(copies, d.id, 0);
    if at < i {
        assert(copies[at].id != d.id);
    }
}

/// A step takes in the whole of what came before it and of the document: change the one
/// number, the revision, whether it is modified or whether it has a file, and only that,
/// and the result is another.
proof fn lemma_mark_step(mark: u64, other: u64, d: Doc, e: Doc)
    ensures
        mark != other && d.revision == e.revision && d.modified == e.modified && (d.path is Some)
            == (e.path is Some) ==> mark_step(mark, d) != mark_step(other, e),
        d.revision != e.revision && d.modified == e.modified && (d.path is Some) == (e.path is Some)
            ==> mark_step(mark, d) != mark_step(mark, e),
        d.revision == e.revision && d.modified != e.modified && (d.path is Some) == (e.path is Some)
            ==> mark_step(mark, d) != mark_step(mark, e),
        d.revision == e.revision && d.modified == e.modified && (d.path is Some) != (e.path is Some)
            ==> mark_step(mark, d) != mark_step(mark, e),
{
    let (t, u) = ((mark << 7) | (mark >> 57), (other << 7) | (other >> 57));
    assert(mark != other ==> (mark << 7u64) | (mark >> 57u64) != (other << 7u64) | (other
        >> 57u64)) by (bit_vector);
    let a = ((t + d.revision) % 0x1_0000_0000_0000_0000) as u64;
    let b = ((u + e.revision) % 0x1_0000_0000_0000_0000) as u64;
    let c = ((t + e.revision) % 0x1_0000_0000_0000_0000) as u64;
    assert(t != u && d.revision == e.revision ==> a != b);
    assert(d.revision != e.revision ==> a != c);
    assert(forall|x: u64, y: u64, m: u64, p: u64| x != y ==> #[trigger] (x ^ m ^ p) != #[trigger] (y
        ^ m ^ p)) by (bit_vector);
    assert(a ^ 1u64 ^ 0u64 != a ^ 0u64 ^ 0u64) by (bit_vector);
    assert(a ^ 1u64 ^ 2u64 != a ^ 0u64 ^ 2u64) by (bit_vector);
    assert(a ^ 1u64 ^ 2u64 != a ^ 1u64 ^ 0u64) by (bit_vector);
    assert(a ^ 0u64 ^ 2u64 != a ^ 0u64 ^ 0u64) by (bit_vector);
    let m = if d.modified {
        1u64
    } else {
        0u64
    };
    let p = if d.path is Some {
        2u64
    } else {
        0u64
    };
    if d.modified == e.modified && (d.path is Some) == (e.path is Some) {
        assert(mark_step(mark, d) == a ^ m ^ p);
        assert(mark_step(other, e) == b ^ m ^ p);
        assert(mark_step(mark, e) == c ^ m ^ p);
    }
}

/// The number the tab strip comes to tells any one thing that happens to any one of its
/// documents: another revision, becoming modified or saved, getting a file. So such a
/// frame is never taken for one in which nothing changed.
pub proof fn a_change_to_one_tab_is_noticed(before: Seq<Doc>, after: Seq<Doc>, i: int, n: int)
    requires
        before.len() == after.len(),
        0 <= i < before.len(),
        i < n <= before.len(),
        forall|j: int| 0 <= j < before.len() && j != i ==> #[trigger] before[j] == after[j],
        ({
            let (d, e) = (before[i], after[i]);
            ||| d.revision != e.revision && d.modified == e.modified && (d.path is Some)
                == (e.path is Some)
            ||| d.revision == e.revision && d.modified != e.modified && (d.path is Some)
                == (e.path is Some)
            ||| d.revision == e.revision && d.modified == e.modified && (d.path is Some)
                != (e.path is Some)
        }),
    ensures
        mark_of(before, n) != mark_of(after, n),
    decreases n,
{
    if n == i + 1 {
        lemma_same_mark(before, after, i);
        lemma_mark_step(mark_of(before, i), mark_of(before, i), before[i], after[i]);
    } else {
        a_change_to_one_tab_is_noticed(before, after, i, n - 1);
        lemma_mark_step(
            mark_of(before, n - 1),
            mark_of(after, n - 1),
            before[n - 1],
            after[n - 1],
        );
    }
}

proof fn lemma_same_mark(before: Seq<Doc>, after: Seq<Doc>, n: int)
    requires
        before.len() == after.len(),
        0 <= n <= before.len(),
        forall|j: int| 0 <= j < n ==> #[trigger] before[j] == after[j],
    ensures
        mark_of(before, n) == mark_of(after, n),
    decreases n,
{
    if n > 0 {
        lemma_same_mark(before, after, n - 1);
    }
}

/// A document is remembered as it stands on the strip, under a title that is safe to
/// write.
pub proof fn a_document_is_remembered_as_it_stands(d: Doc, tab: Doc)
    requires
        remembers(d, tab),
    ensures
        d.id == tab.id,
        d.modified == tab.modified,
        d.revision == tab.revision,
        d.path == tab.path,
        d.title@ == tidied(tab.title@, 8192),
{
}

/// A panic off the main thread is only a worker's death, whatever is going on; one on it
/// is reported unless that has begun.
pub proof fn only_the_main_thread_is_reported(thread: Seq<char>, reporting: bool)
    ensures
        thread != "main"@ ==> called_for(thread, reporting) == PanicAction::WorkerDied,
        thread == "main"@ && reporting ==> called_for(thread, reporting)
            == PanicAction::AlreadyReporting,
        thread == "main"@ && !reporting ==> called_for(thread, reporting) == PanicAction::Report,
{
}

/// A report is given a place, written and handed over, in that order, and the first of
/// these to fail is the last to be tried.
pub proof fn a_report_is_handed_over_in_three_stages(action: PanicAction)
    ensures
        action == PanicAction::Report <==> action.starts() == Stage::Place,
        action != PanicAction::Report ==> action.starts() == Stage::Over,
        Stage::Place.followed_by(true) == Stage::Write,
        Stage::Write.followed_by(true) == Stage::HandOver,
        Stage::HandOver.followed_by(true) == Stage::Over,
        forall|stage: Stage| #[trigger] stage.followed_by(false) == Stage::Over,
{
}

} // verus!
