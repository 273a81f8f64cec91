//! What a crash report holds, and what it says.

use crate::number::{digits_of, write_digits};
use crate::text::{chars_of, is_white, push_text, string_of, trim, trim_of};
use vstd::prelude::*;

verus! {

/// The shape of the file. Recorded rather than enforced: showing somebody what
/// could be read of an old report beats refusing the file that says why their
/// work stopped.
pub const FORMAT: u32 = 1;

/// How much of any one text field is kept, in bytes.
pub const FIELD_LIMIT: usize = 8192;

/// How much backtrace is kept, in bytes. The frames are the useful part.
pub const BACKTRACE_LIMIT: usize = 131072;

/// What [`tidy`] appends when it has cut something short.
pub const TRUNCATED: &'static str = "\n\u{2026} (truncated by Umber)";

/// One crash, as it is written to disk and read back by the reporter.
#[derive(Clone, Debug, PartialEq, Eq)]
pub struct Report {
    pub format: u32,
    /// The Umber that crashed.
    pub version: String,
    pub os: String,
    pub arch: String,
    /// The GPU. `None` when the crash happened before a device existed.
    pub adapter: Option<String>,
    pub backend: Option<String>,
    /// The thread that panicked.
    pub thread: String,
    pub message: String,
    /// `file:line:column`, as the panic reported it.
    pub location: Option<String>,
    pub backtrace: String,
    /// Whether a backtrace was actually captured: an empty one must not be
    /// shown as though the stack were empty.
    pub backtrace_available: bool,
    pub documents: Vec<DocumentNote>,
}

/// One open document, as it stood when the process died.
#[derive(Clone, Debug, PartialEq, Eq)]
pub struct DocumentNote {
    pub title: String,
    /// True when closing the tab would have lost something.
    pub modified: bool,
    /// The document's revision at the moment of the crash.
    pub revision: u64,
    pub path: Option<String>,
    pub autosave: Option<AutosaveCopy>,
}

/// The last autosave of one document, and what it was written from.
#[derive(Clone, Debug, PartialEq, Eq)]
pub struct AutosaveCopy {
    pub path: String,
    /// The document's revision when the capture began.
    pub revision: u64,
    pub seconds_ago: u64,
}

/// One document the crash box can point somebody at.
#[derive(Clone, Debug, PartialEq, Eq)]
pub struct Rescue {
    pub title: String,
    pub path: String,
    /// Whether the copy holds every change the document had.
    pub complete: bool,
    pub seconds_ago: u64,
}

impl Default for Report {
    /// A report in which nothing was filled in.
    fn default() -> (r: Report)
        ensures
            r.format == 0,
            r.version@ == Seq::<char>::empty(),
            r.os@ == Seq::<char>::empty(),
            r.arch@ == Seq::<char>::empty(),
            r.adapter is None,
            r.backend is None,
            r.thread@ == Seq::<char>::empty(),
            r.message@ == Seq::<char>::empty(),
            r.location is None,
            r.backtrace@ == Seq::<char>::empty(),
            !r.backtrace_available,
            r.documents@ == Seq::<DocumentNote>::empty(),
    {
        Report {
            format: 0,
            version: String::new(),
            os: String::new(),
            arch: String::new(),
            adapter: None,
            backend: None,
            thread: String::new(),
            message: String::new(),
            location: None,
            backtrace: String::new(),
            backtrace_available: false,
            documents: Vec::new(),
        }
    }
}

impl Default for DocumentNote {
    fn default() -> (r: DocumentNote)
        ensures
            r.title@ == Seq::<char>::empty(),
            !r.modified,
            r.revision == 0,
            r.path is None,
            r.autosave is None,
    {
        DocumentNote {
            title: String::new(),
            modified: false,
            revision: 0,
            path: None,
            autosave: None,
        }
    }
}

impl Default for AutosaveCopy {
    fn default() -> (r: AutosaveCopy)
        ensures
            r.path@ == Seq::<char>::empty(),
            r.revision == 0,
            r.seconds_ago == 0,
    {
        AutosaveCopy { path: String::new(), revision: 0, seconds_ago: 0 }
    }
}

// --- tidying ----------------------------------------------------------------

/// The control characters: the two ranges of them, and the one between.
pub open spec fn is_control_char(c: char) -> bool {
    c <= '\u{1f}' || '\u{7f}' <= c <= '\u{9f}'
}

/// A character as it may stand in a file and in a window: newlines and tabs
/// stay, every other control character becomes a space.
pub open spec fn cleaned(c: char) -> char {
    if is_control_char(c) && c != '\n' && c != '\t' {
        ' '
    } else {
        c
    }
}

pub open spec fn cleaned_text(s: Seq<char>) -> Seq<char> {
    s.map_values(|c: char| cleaned(c))
}

/// How many bytes a character takes in a file.
pub open spec fn char_bytes(c: char) -> int {
    if c <= '\u{7f}' {
        1
    } else if c <= '\u{7ff}' {
        2
    } else if c <= '\u{ffff}' {
        3
    } else {
        4
    }
}

pub open spec fn text_bytes(s: Seq<char>) -> int
    decreases s.len(),
{
    if s.len() == 0 {
        0
    } else {
        text_bytes(s.drop_last()) + char_bytes(s.last())
    }
}

/// How many characters are kept: as many as it takes to reach the limit, or
/// all of them. `from` many are known to stay below it.
pub open spec fn kept_chars(s: Seq<char>, limit: int, from: int) -> int
    decreases s.len() - from,
{
    if 0 <= from < s.len() && text_bytes(cleaned_text(s).take(from)) < limit {
        kept_chars(s, limit, from + 1)
    } else {
        from
    }
}

/// A text made safe for a file and a window: no control characters, bounded in
/// length, cut between characters and saying so where it is cut, and without
/// blank space around it where it is not.
pub open spec fn tidied(s: Seq<char>, limit: int) -> Seq<char> {
    let n = kept_chars(s, limit, 0);
    if n < s.len() {
        cleaned_text(s).take(n) + TRUNCATED@
    } else {
        trim_of(cleaned_text(s))
    }
}

fn is_control(c: char) -> (r: bool)
    ensures
        r == is_control_char(c),
{
    c <= '\u{1f}' || ('\u{7f}' <= c && c <= '\u{9f}')
}

fn bytes_of(c: char) -> (r: usize)
    ensures
        r == char_bytes(c),
{
    if c <= '\u{7f}' {
        1
    } else if c <= '\u{7ff}' {
        2
    } else if c <= '\u{ffff}' {
        3
    } else {
        4
    }
}

/// Make a text safe to put in a file and in a window.
pub fn tidy(text: &str, limit: usize) -> (r: String)
    ensures
        r@ == tidied(text@, limit as int),
{
    let chars = chars_of(text);
    let ghost clean = cleaned_text(text@);
    let mut out: Vec<char> = Vec::new();
    let mut bytes: usize = 0;
    let mut i: usize = 0;
    assert(clean.take(0) =~= Seq::<char>::empty());
    while i < chars.len()
        invariant
            0 <= i <= chars@.len(),
            chars@ == text@,
            clean == cleaned_text(text@),
            out@ == clean.take(i as int),
            kept_chars(text@, limit as int, 0) == kept_chars(text@, limit as int, i as int),
            bytes == if text_bytes(clean.take(i as int)) <= usize::MAX {
                text_bytes(clean.take(i as int))
            } else {
                usize::MAX as int
            },
        decreases chars@.len() - i,
    {
        if bytes >= limit {
            push_text(&mut out, TRUNCATED);
            return string_of(&out);
        }
        let c: char = chars[i];
        let kept: char = if is_control(c) && c != '\n' && c != '\t' {
            ' '
        } else {
            c
        };
        out.push(kept);
        bytes = bytes.saturating_add(bytes_of(kept));
        proof {
            assert(clean[i as int] == kept);
            assert(clean.take(i + 1).drop_last() =~= clean.take(i as int));
            assert(clean.take(i + 1) =~= clean.take(i as int).push(kept));
        }
        i += 1;
    }
    assert(clean.take(clean.len() as int) =~= clean);
    let trimmed = trim(&out);
    string_of(&trimmed)
}

/// The message out of a panic payload: the payload's own text, or that it has
/// none.
pub open spec fn payload_text(payload: Option<Seq<char>>) -> Seq<char> {
    match payload {
        Some(s) => tidied(s, FIELD_LIMIT as int),
        None => "a panic carrying a payload that is not a string"@,
    }
}

/// The message out of a panic payload, given its text where it is one.
pub fn payload_message(payload: Option<&str>) -> (r: String)
    ensures
        r@ == payload_text(
            match payload {
                Some(s) => Some(s@),
                None => None,
            },
        ),
{
    match payload {
        Some(s) => tidy(s, FIELD_LIMIT),
        None => "a panic carrying a payload that is not a string".to_owned(),
    }
}

// --- phrasing ---------------------------------------------------------------

/// How long ago, in words, at the coarseness somebody would use. A count of
/// minutes or hours is rounded down: the copy is at least that old.
pub open spec fn age_text(seconds: int) -> Seq<char> {
    if seconds <= 29 {
        "moments ago"@
    } else if seconds <= 89 {
        "a minute ago"@
    } else if seconds <= 3599 {
        digits_of((seconds / 60) as nat) + " minutes ago"@
    } else if seconds <= 5399 {
        "an hour ago"@
    } else {
        digits_of((seconds / 3600) as nat) + " hours ago"@
    }
}

pub fn age_phrase(seconds: u64) -> (r: String)
    ensures
        r@ == age_text(seconds as int),
{
    let mut out: Vec<char> = Vec::new();
    if seconds <= 29 {
        push_text(&mut out, "moments ago");
    } else if seconds <= 89 {
        push_text(&mut out, "a minute ago");
    } else if seconds <= 3599 {
        write_digits(seconds / 60, &mut out);
        push_text(&mut out, " minutes ago");
    } else if seconds <= 5399 {
        push_text(&mut out, "an hour ago");
    } else {
        write_digits(seconds / 3600, &mut out);
        push_text(&mut out, " hours ago");
    }
    assert(out@ =~= age_text(seconds as int));
    string_of(&out)
}

/// What is said of a copy: how old it is, and whether it holds everything.
pub open spec fn note_of(complete: bool, seconds_ago: int) -> Seq<char> {
    if complete {
        "Written "@ + age_text(seconds_ago) + ", with everything you had done."@
    } else {
        "Written "@ + age_text(seconds_ago) + ". It does not include your most recent changes."@
    }
}

impl Rescue {
    pub open spec fn note_text(self) -> Seq<char> {
        note_of(self.complete, self.seconds_ago as int)
    }

    /// The sentence under the path. Claiming work was safe when it was not is
    /// worse than claiming nothing.
    pub fn note(&self) -> (r: String)
        ensures
            r@ == self.note_text(),
    {
        let age = age_phrase(self.seconds_ago);
        let mut out: Vec<char> = Vec::new();
        push_text(&mut out, "Written ");
        push_text(&mut out, age.as_str());
        if self.complete {
            push_text(&mut out, ", with everything you had done.");
        } else {
            push_text(&mut out, ". It does not include your most recent changes.");
        }
        assert(out@ =~= self.note_text());
        string_of(&out)
    }
}

/// A field that was never filled in, said rather than left blank.
pub open spec fn known(s: Seq<char>) -> Seq<char> {
    if trim_of(s).len() == 0 {
        "unknown"@
    } else {
        s
    }
}

/// Whether a text holds nothing but white space.
pub fn is_blank(text: &str) -> (r: bool)
    ensures
        r == (trim_of(text@).len() == 0),
{
    let chars = chars_of(text);
    let trimmed = trim(&chars);
    trimmed.len() == 0
}

pub fn blank_as_unknown(text: &str) -> (r: &str)
    ensures
        r@ == known(text@),
{
    if is_blank(text) {
        "unknown"
    } else {
        text
    }
}

// --- what was rescued -------------------------------------------------------

/// What a rescue says.
#[verifier::ext_equal]
pub struct RescueView {
    pub title: Seq<char>,
    pub path: Seq<char>,
    pub complete: bool,
    pub seconds_ago: u64,
}

impl View for Rescue {
    type V = RescueView;

    open spec fn view(&self) -> RescueView {
        RescueView {
            title: self.title@,
            path: self.path@,
            complete: self.complete,
            seconds_ago: self.seconds_ago,
        }
    }
}

pub open spec fn rescue_views(r: Seq<Rescue>) -> Seq<RescueView> {
    r.map_values(|x: Rescue| x@)
}

pub open spec fn string_views(r: Seq<String>) -> Seq<Seq<char>> {
    r.map_values(|x: String| x@)
}

/// The copies worth pointing at: of every document that would have lost
/// something, in order, the copy there is of it.
pub open spec fn rescued_of(docs: Seq<DocumentNote>) -> Seq<RescueView>
    decreases docs.len(),
{
    if docs.len() == 0 {
        Seq::empty()
    } else {
        let rest = rescued_of(docs.drop_last());
        let d = docs.last();
        match (d.modified, d.autosave) {
            (true, Some(copy)) => rest.push(
                RescueView {
                    title: d.title@,
                    path: copy.path@,
                    complete: copy.revision == d.revision,
                    seconds_ago: copy.seconds_ago,
                },
            ),
            _ => rest,
        }
    }
}

/// The titles, in order, of the documents that would have lost something and
/// have no copy anywhere.
pub open spec fn at_risk_of(docs: Seq<DocumentNote>) -> Seq<Seq<char>>
    decreases docs.len(),
{
    if docs.len() == 0 {
        Seq::empty()
    } else {
        let rest = at_risk_of(docs.drop_last());
        let d = docs.last();
        if d.modified && d.autosave is None {
            rest.push(d.title@)
        } else {
            rest
        }
    }
}

impl Report {
    /// Every open document that has a copy worth pointing at.
    pub fn rescued(&self) -> (r: Vec<Rescue>)
        ensures
            rescue_views(r@) == rescued_of(self.documents@),
    {
        let docs = &self.documents;
        let mut out: Vec<Rescue> = Vec::new();
        let mut i: usize = 0;
        assert(rescue_views(out@) =~= rescued_of(docs@.take(0)));
        while i < docs.len()
            invariant
                0 <= i <= docs@.len(),
                rescue_views(out@) == rescued_of(docs@.take(i as int)),
            decreases docs@.len() - i,
        {
            let d = &docs[i];
            let ghost before = rescue_views(out@);
            assert(docs@.take(i + 1).drop_last() =~= docs@.take(i as int));
            if d.modified {
                if let Some(copy) = &d.autosave {
                    let rescue = Rescue {
                        title: d.title.clone(),
                        path: copy.path.clone(),
                        complete: copy.revision == d.revision,
                        seconds_ago: copy.seconds_ago,
                    };
                    out.push(rescue);
                    assert(rescue_views(out@) =~= before.push(rescue@));
                }
            }
            i += 1;
        }
        assert(docs@.take(docs@.len() as int) =~= docs@);
        out
    }

    /// Documents that had unsaved work and no copy of it anywhere. Named rather
    /// than passed over: a box that says nothing about the third document reads
    /// as a promise about it.
    pub fn at_risk(&self) -> (r: Vec<String>)
        ensures
            string_views(r@) == at_risk_of(self.documents@),
    {
        let docs = &self.documents;
        let mut out: Vec<String> = Vec::new();
        let mut i: usize = 0;
        assert(string_views(out@) =~= at_risk_of(docs@.take(0)));
        while i < docs.len()
            invariant
                0 <= i <= docs@.len(),
                string_views(out@) == at_risk_of(docs@.take(i as int)),
            decreases docs@.len() - i,
        {
            let d = &docs[i];
            let ghost before = string_views(out@);
            assert(docs@.take(i + 1).drop_last() =~= docs@.take(i as int));
            if d.modified && d.autosave.is_none() {
                let title = d.title.clone();
                let ghost text = title@;
                out.push(title);
                assert(string_views(out@) =~= before.push(text));
            }
            i += 1;
        }
        assert(docs@.take(docs@.len() as int) =~= docs@);
        out
    }

    // --- the details block --------------------------------------------------

    pub open spec fn gpu_text(self) -> Seq<char> {
        match (self.adapter, self.backend) {
            (Some(name), Some(backend)) => "GPU: "@ + name@ + " ("@ + backend@ + ")\n"@,
            (Some(name), None) => "GPU: "@ + name@ + "\n"@,
            _ => "GPU: no device had been created\n"@,
        }
    }

    pub open spec fn place_text(self) -> Seq<char> {
        match self.location {
            Some(at) => "thread '"@ + known(self.thread@) + "' panicked at "@ + at@ + ":\n"@,
            None => "thread '"@ + known(self.thread@) + "' panicked:\n"@,
        }
    }

    pub open spec fn backtrace_text(self) -> Seq<char> {
        if self.backtrace_available && trim_of(self.backtrace@).len() > 0 {
            self.backtrace@
        } else {
            "No backtrace was captured on this platform."@
        }
    }

    /// The details block, but for the newline it always ends in.
    pub open spec fn details_body(self) -> Seq<char> {
        "Umber "@ + known(self.version@) + "\n"@ + known(self.os@) + " ("@ + known(self.arch@)
            + ")\n"@ + self.gpu_text() + "\n"@ + self.place_text() + known(self.message@) + "\n\n"@
            + self.backtrace_text()
    }

    pub open spec fn details_text(self) -> Seq<char> {
        let body = self.details_body();
        if body.len() > 0 && body.last() == '\n' {
            body
        } else {
            body.push('\n')
        }
    }

    fn write_gpu(&self, out: &mut Vec<char>)
        ensures
            final(out)@ == old(out)@ + self.gpu_text(),
    {
        match (&self.adapter, &self.backend) {
            (Some(name), Some(backend)) => {
                push_text(out, "GPU: ");
                push_text(out, name.as_str());
                push_text(out, " (");
                push_text(out, backend.as_str());
                push_text(out, ")\n");
            },
            (Some(name), None) => {
                push_text(out, "GPU: ");
                push_text(out, name.as_str());
                push_text(out, "\n");
            },
            _ => push_text(out, "GPU: no device had been created\n"),
        }
        assert(out@ =~= old(out)@ + self.gpu_text());
    }

    fn write_place(&self, out: &mut Vec<char>)
        ensures
            final(out)@ == old(out)@ + self.place_text(),
    {
        push_text(out, "thread '");
        push_text(out, blank_as_unknown(self.thread.as_str()));
        match &self.location {
            Some(at) => {
                push_text(out, "' panicked at ");
                push_text(out, at.as_str());
                push_text(out, ":\n");
            },
            None => push_text(out, "' panicked:\n"),
        }
        assert(out@ =~= old(out)@ + self.place_text());
    }

    /// The block behind "Technical details": what is shown and what somebody
    /// would paste into a bug report are this one text.
    pub fn details(&self) -> (r: String)
        ensures
            r@ == self.details_text(),
    {
        let mut out: Vec<char> = Vec::new();
        push_text(&mut out, "Umber ");
        push_text(&mut out, blank_as_unknown(self.version.as_str()));
        push_text(&mut out, "\n");
        push_text(&mut out, blank_as_unknown(self.os.as_str()));
        push_text(&mut out, " (");
        push_text(&mut out, blank_as_unknown(self.arch.as_str()));
        push_text(&mut out, ")\n");
        self.write_gpu(&mut out);
        push_text(&mut out, "\n");
        self.write_place(&mut out);
        push_text(&mut out, blank_as_unknown(self.message.as_str()));
        push_text(&mut out, "\n\n");
        if self.backtrace_available && !is_blank(self.backtrace.as_str()) {
            push_text(&mut out, self.backtrace.as_str());
        } else {
            push_text(&mut out, "No backtrace was captured on this platform.");
        }
        assert(out@ =~= self.details_body());
        if out.len() == 0 || out[out.len() - 1] != '\n' {
            out.push('\n');
        }
        string_of(&out)
    }
}

// --- laws -------------------------------------------------------------------

proof fn lemma_kept_chars(s: Seq<char>, limit: int, from: int)
    requires
        0 <= from <= s.len(),
    ensures
        from <= kept_chars(s, limit, from) <= s.len(),
        from < kept_chars(s, limit, from) ==> text_bytes(
            cleaned_text(s).take(kept_chars(s, limit, from) - 1),
        ) < limit,
        kept_chars(s, limit, from) < s.len() ==> text_bytes(
            cleaned_text(s).take(kept_chars(s, limit, from)),
        ) >= limit,
    decreases s.len() - from,
{
    if from < s.len() && text_bytes(cleaned_text(s).take(from)) < limit {
        lemma_kept_chars(s, limit, from + 1);
    }
}

/// A tidied text holds no control character but newlines and tabs.
pub proof fn a_tidied_text_has_no_control_characters(s: Seq<char>, limit: int)
    ensures
        forall|i: int|
            0 <= i < tidied(s, limit).len() ==> {
                let c = #[trigger] tidied(s, limit)[i];
                is_control_char(c) ==> c == '\n' || c == '\t'
            },
{
    let t = tidied(s, limit);
    let clean = cleaned_text(s);
    lemma_kept_chars(s, limit, 0);
    let n = kept_chars(s, limit, 0);
    assert(forall|j: int| 0 <= j < clean.len() ==> #[trigger] clean[j] == cleaned(s[j]));
    if n < s.len() {
        reveal_strlit("\n\u{2026} (truncated by Umber)");
        assert forall|i: int| 0 <= i < t.len() implies {
            let c = #[trigger] t[i];
            is_control_char(c) ==> c == '\n' || c == '\t'
        } by {
            if i < n {
                assert(t[i] == clean[i]);
            } else {
                assert(t[i] == TRUNCATED@[i - n]);
            }
        }
    } else {
        lemma_trim_within(clean);
        assert forall|i: int| 0 <= i < t.len() implies {
            let c = #[trigger] t[i];
            is_control_char(c) ==> c == '\n' || c == '\t'
        } by {
            let at = choose|a: int| stands_at(trim_of(clean), clean, a);
            assert(t[i] == clean[at + i]);
        }
    }
}

/// Whether a run of characters stands in a text at this position.
pub open spec fn stands_at(part: Seq<char>, s: Seq<char>, a: int) -> bool {
    &&& 0 <= a
    &&& a + part.len() <= s.len()
    &&& forall|j: int| 0 <= j < part.len() ==> #[trigger] part[j] == s[a + j]
}

/// Trimming keeps a run of what was there.
proof fn lemma_trim_within(s: Seq<char>)
    ensures
        exists|a: int| stands_at(trim_of(s), s, a),
{
    lemma_trim_start(s);
    let t = crate::text::trim_start(s);
    lemma_trim_end(t);
    let a = s.len() - t.len();
    assert(stands_at(trim_of(s), s, a));
}

proof fn lemma_trim_start(s: Seq<char>)
    ensures
        crate::text::trim_start(s).len() <= s.len(),
        forall|j: int|
            0 <= j < crate::text::trim_start(s).len() ==> #[trigger] crate::text::trim_start(s)[j]
                == s[s.len() - crate::text::trim_start(s).len() + j],
    decreases s.len(),
{
    if s.len() > 0 && is_white(s.first()) {
        lemma_trim_start(s.drop_first());
    }
}

proof fn lemma_trim_end(s: Seq<char>)
    ensures
        crate::text::trim_end(s).len() <= s.len(),
        forall|j: int|
            0 <= j < crate::text::trim_end(s).len() ==> #[trigger] crate::text::trim_end(s)[j]
                == s[j],
    decreases s.len(),
{
    if s.len() > 0 && is_white(s.last()) {
        lemma_trim_end(s.drop_last());
    }
}

proof fn lemma_trimmed_ends(s: Seq<char>)
    ensures
        trim_of(s).len() > 0 ==> !is_white(trim_of(s).first()) && !is_white(trim_of(s).last()),
        trim_of(trim_of(s)) == trim_of(s),
{
    lemma_start_not_white(s);
    let t = crate::text::trim_start(s);
    lemma_end_not_white(t);
    lemma_trim_end(t);
    if trim_of(s).len() > 0 {
        assert(trim_of(s)[0] == t[0]);
    }
}

proof fn lemma_start_not_white(s: Seq<char>)
    ensures
        crate::text::trim_start(s).len() > 0 ==> !is_white(crate::text::trim_start(s).first()),
    decreases s.len(),
{
    if s.len() > 0 && is_white(s.first()) {
        lemma_start_not_white(s.drop_first());
    }
}

proof fn lemma_end_not_white(s: Seq<char>)
    ensures
        crate::text::trim_end(s).len() > 0 ==> !is_white(crate::text::trim_end(s).last()),
    decreases s.len(),
{
    if s.len() > 0 && is_white(s.last()) {
        lemma_end_not_white(s.drop_last());
    }
}

/// A text is kept whole exactly where all of it but its last character stays
/// below the limit.
proof fn lemma_kept_whole(s: Seq<char>, limit: int, from: int)
    requires
        0 <= from <= s.len(),
    ensures
        kept_chars(s, limit, from) == s.len() <==> forall|i: int|
            from <= i < s.len() ==> text_bytes(#[trigger] cleaned_text(s).take(i)) < limit,
    decreases s.len() - from,
{
    lemma_kept_chars(s, limit, from);
    if from < s.len() {
        if text_bytes(cleaned_text(s).take(from)) < limit {
            lemma_kept_whole(s, limit, from + 1);
        }
    }
}

/// The front of a run takes no more bytes than the text up to the same place.
proof fn lemma_part_bytes(part: Seq<char>, s: Seq<char>, a: int, i: int)
    requires
        stands_at(part, s, a),
        0 <= i <= part.len(),
    ensures
        0 <= text_bytes(part.take(i)) <= text_bytes(s.take(a + i)),
    decreases i,
{
    if i > 0 {
        lemma_part_bytes(part, s, a, i - 1);
        assert(part.take(i).drop_last() =~= part.take(i - 1));
        assert(s.take(a + i).drop_last() =~= s.take(a + i - 1));
        assert(part.take(i).last() == part[i - 1]);
        assert(s.take(a + i).last() == s[a + (i - 1)]);
    } else {
        assert(part.take(0) =~= Seq::<char>::empty());
        lemma_bytes_counted(s.take(a));
    }
}

proof fn lemma_bytes_counted(s: Seq<char>)
    ensures
        text_bytes(s) >= 0,
    decreases s.len(),
{
    if s.len() > 0 {
        lemma_bytes_counted(s.drop_last());
    }
}

/// A text that was not cut has no blank space around it, and tidying it again
/// changes nothing.
pub proof fn tidying_again_changes_nothing(s: Seq<char>, limit: int)
    requires
        kept_chars(s, limit, 0) == s.len(),
    ensures
        tidied(s, limit).len() > 0 ==> !is_white(tidied(s, limit).first()) && !is_white(
            tidied(s, limit).last(),
        ),
        tidied(tidied(s, limit), limit) == tidied(s, limit),
{
    let clean = cleaned_text(s);
    let t = tidied(s, limit);
    assert(t == trim_of(clean));
    lemma_trimmed_ends(clean);
    lemma_trim_within(clean);
    let a = choose|a: int| stands_at(t, clean, a);
    assert(cleaned_text(t) =~= t) by {
        assert forall|i: int| 0 <= i < t.len() implies cleaned(#[trigger] t[i]) == t[i] by {
            assert(t[i] == clean[a + i]);
            assert(clean[a + i] == cleaned(s[a + i]));
        }
    }
    lemma_kept_whole(s, limit, 0);
    lemma_kept_whole(t, limit, 0);
    assert forall|i: int| 0 <= i < t.len() implies text_bytes(#[trigger] cleaned_text(t).take(i))
        < limit by {
        lemma_part_bytes(t, clean, a, i);
        assert(text_bytes(clean.take(a + i)) < limit);
    }
}

/// A tidied text is bounded: what is kept of it passes the limit by less than
/// one character.
pub proof fn a_tidied_text_is_bounded(s: Seq<char>, limit: int)
    requires
        limit >= 0,
    ensures
        text_bytes(cleaned_text(s).take(kept_chars(s, limit, 0))) < limit + 4,
        0 <= kept_chars(s, limit, 0) <= s.len(),
{
    lemma_kept_chars(s, limit, 0);
    let n = kept_chars(s, limit, 0);
    let t = cleaned_text(s).take(n);
    if n > 0 {
        assert(t.drop_last() =~= cleaned_text(s).take(n - 1));
    } else {
        assert(t =~= Seq::<char>::empty());
    }
}

pub open spec fn modified_count(docs: Seq<DocumentNote>) -> int
    decreases docs.len(),
{
    if docs.len() == 0 {
        0
    } else {
        modified_count(docs.drop_last()) + if docs.last().modified {
            1int
        } else {
            0
        }
    }
}

/// Every document that would have lost something is either pointed at or named
/// as having no copy, never both and never passed over; a document that would
/// have lost nothing is neither.
pub proof fn every_unsaved_document_is_accounted_for(docs: Seq<DocumentNote>)
    ensures
        rescued_of(docs).len() + at_risk_of(docs).len() == modified_count(docs),
    decreases docs.len(),
{
    if docs.len() > 0 {
        every_unsaved_document_is_accounted_for(docs.drop_last());
    }
}

/// The details always end in a newline.
pub proof fn details_end_in_a_newline(r: Report)
    ensures
        r.details_text().len() > 0,
        r.details_text().last() == '\n',
{
}

/// A copy that is not complete never claims to be: the two sentences are never
/// the same.
pub proof fn an_incomplete_copy_says_so(a: Rescue, b: Rescue)
    requires
        a.complete,
        !b.complete,
        a.seconds_ago == b.seconds_ago,
    ensures
        a.note_text() != b.note_text(),
{
    let age = age_text(a.seconds_ago as int);
    reveal_strlit(", with everything you had done.");
    reveal_strlit(". It does not include your most recent changes.");
    let n = "Written "@.len() + age.len();
    assert(a.note_text()[n as int] == ',');
    assert(b.note_text()[n as int] == '.');
}

// --- what the texts say -------------------------------------------------------

/// Control characters are those below the space and from delete to the end of the upper
/// control block; each becomes a space, but a newline and a tab stay, and so does every
/// other character.
pub proof fn cleaning_replaces_only_control_characters(c: char)
    ensures
        (c as int) < 32 && c as int != 9 && c as int != 10 ==> cleaned(c) == ' ',
        127 <= c as int <= 159 ==> cleaned(c) == ' ',
        32 <= c as int <= 126 || c as int >= 160 ==> cleaned(c) == c,
        cleaned('\n') == '\n',
        cleaned('\t') == '\t',
{
}

/// Cleaning goes character by character.
pub proof fn cleaning_goes_character_by_character(s: Seq<char>, i: int)
    requires
        0 <= i < s.len(),
    ensures
        cleaned_text(s).len() == s.len(),
        cleaned_text(s)[i] == cleaned(s[i]),
{
}

/// A character takes up as many bytes as it does in UTF-8, and a text as many as its
/// characters together.
pub proof fn a_text_is_as_long_as_its_characters(s: Seq<char>, c: char)
    ensures
        (c as int) < 0x80 ==> char_bytes(c) == 1,
        0x80 <= c as int && (c as int) < 0x800 ==> char_bytes(c) == 2,
        0x800 <= c as int && (c as int) < 0x1_0000 ==> char_bytes(c) == 3,
        0x1_0000 <= c as int ==> char_bytes(c) == 4,
        text_bytes(Seq::<char>::empty()) == 0,
        text_bytes(s.push(c)) == text_bytes(s) + char_bytes(c),
{
    assert(s.push(c).drop_last() =~= s);
}

/// A text with room to spare is kept whole, cleaned and trimmed; one that is clean and
/// has nothing to trim comes back as it was.
pub proof fn a_short_text_is_kept_whole(s: Seq<char>, limit: int)
    requires
        text_bytes(cleaned_text(s)) < limit,
    ensures
        tidied(s, limit) == trim_of(cleaned_text(s)),
        cleaned_text(s) == s && trim_of(s) == s ==> tidied(s, limit) == s,
{
    let clean = cleaned_text(s);
    lemma_kept_whole(s, limit, 0);
    assert forall|i: int| 0 <= i < s.len() implies text_bytes(#[trigger] clean.take(i)) < limit by {
        lemma_prefix_bytes(clean, i);
    }
    lemma_kept_chars(s, limit, 0);
}

proof fn lemma_prefix_bytes(s: Seq<char>, i: int)
    requires
        0 <= i <= s.len(),
    ensures
        text_bytes(s.take(i)) <= text_bytes(s),
    decreases s.len(),
{
    if i < s.len() {
        lemma_prefix_bytes(s.drop_last(), i);
        assert(s.drop_last().take(i) =~= s.take(i));
    } else {
        assert(s.take(i) =~= s);
    }
}

/// A text that does not fit is cut: as much of it as reaches the limit is kept, cleaned,
/// and the words that say so follow.
pub proof fn a_long_text_says_it_was_cut(s: Seq<char>, limit: int)
    requires
        limit > 0,
        kept_chars(s, limit, 0) < s.len(),
    ensures
        ({
            let n = kept_chars(s, limit, 0);
            &&& n > 0
            &&& limit <= text_bytes(cleaned_text(s).take(n)) < limit + 4
            &&& tidied(s, limit) == cleaned_text(s).take(n) + "\n\u{2026} (truncated by Umber)"@
        }),
{
    lemma_kept_chars(s, limit, 0);
    a_tidied_text_is_bounded(s, limit);
    assert(text_bytes(cleaned_text(s).take(0)) == 0);
}

/// A panic's message is its payload, tidied to 8192 bytes; a payload that is no text is
/// said to be one.
pub proof fn a_message_is_its_payload(payload: Option<Seq<char>>)
    ensures
        payload matches Some(s) ==> payload_text(payload) == tidied(s, 8192),
        payload is None ==> payload_text(payload)
            == "a panic carrying a payload that is not a string"@,
{
}

/// An age is told in words of the right size: moments up to half a minute, a minute up to
/// one and a half, then whole minutes, an hour up to one and a half, then whole hours.
pub proof fn an_age_is_told_in_its_own_words(seconds: int, n: nat)
    requires
        seconds >= 0,
    ensures
        seconds < 30 ==> age_text(seconds) == "moments ago"@,
        30 <= seconds < 90 ==> age_text(seconds) == "a minute ago"@,
        90 <= seconds < 3_600 && 60 * n <= seconds < 60 * n + 60 ==> age_text(seconds) == digits_of(n)
            + " minutes ago"@,
        3_600 <= seconds < 5_400 ==> age_text(seconds) == "an hour ago"@,
        5_400 <= seconds && 3_600 * n <= seconds < 3_600 * n + 3_600 ==> age_text(seconds)
            == digits_of(n) + " hours ago"@,
{
    if 90 <= seconds < 3_600 && 60 * n <= seconds < 60 * n + 60 {
        assert(seconds / 60 == n);
    }
    if 5_400 <= seconds && 3_600 * n <= seconds < 3_600 * n + 3_600 {
        assert(seconds / 3600 == n);
    }
}

/// A copy's note says how old it is and whether everything is in it.
pub proof fn a_note_says_what_the_copy_holds(r: Rescue)
    ensures
        r.complete ==> r.note_text() == "Written "@ + age_text(r.seconds_ago as int)
            + ", with everything you had done."@,
        !r.complete ==> r.note_text() == "Written "@ + age_text(r.seconds_ago as int)
            + ". It does not include your most recent changes."@,
{
}

/// What there is a word for is said as it is, and what there is none for is unknown.
pub proof fn only_blanks_are_unknown(s: Seq<char>)
    ensures
        trim_of(s).len() == 0 ==> known(s) == "unknown"@,
        trim_of(s).len() > 0 ==> known(s) == s,
{
}

/// Of the documents, those with unsaved changes and a copy are rescued, in order, each
/// with its own title and its copy's place and age; a copy is complete just if it was
/// written from what the document last was. Those with unsaved changes and no copy are
/// at risk, and those without changes are neither.
pub proof fn a_document_is_rescued_or_at_risk(docs: Seq<DocumentNote>, d: DocumentNote)
    ensures
        ({
            let (rescued, lost) = (rescued_of(docs.push(d)), at_risk_of(docs.push(d)));
            &&& !d.modified ==> rescued == rescued_of(docs) && lost == at_risk_of(docs)
            &&& d.modified && d.autosave is None ==> rescued == rescued_of(docs) && lost
                == at_risk_of(docs).push(d.title@)
            &&& d.modified && d.autosave is Some ==> {
                &&& lost == at_risk_of(docs)
                &&& rescued.drop_last() == rescued_of(docs)
                &&& rescued.len() == rescued_of(docs).len() + 1
                &&& rescued.last().title == d.title@
                &&& rescued.last().path == d.autosave->0.path@
                &&& rescued.last().complete <==> d.autosave->0.revision == d.revision
                &&& rescued.last().seconds_ago == d.autosave->0.seconds_ago
            }
        }),
        rescued_of(Seq::<DocumentNote>::empty()).len() == 0,
        at_risk_of(Seq::<DocumentNote>::empty()).len() == 0,
{
    assert(docs.push(d).drop_last() =~= docs);
    if d.modified && d.autosave is Some {
        assert(rescued_of(docs.push(d)).drop_last() =~= rescued_of(docs));
    }
}

/// The device is named with what drives it, where each is known.
pub proof fn the_device_is_named(r: Report)
    ensures
        r.adapter is Some && r.backend is Some ==> r.gpu_text() == "GPU: "@ + r.adapter->0@ + " ("@
            + r.backend->0@ + ")\n"@,
        r.adapter is Some && r.backend is None ==> r.gpu_text() == "GPU: "@ + r.adapter->0@ + "\n"@,
        r.adapter is None ==> r.gpu_text() == "GPU: no device had been created\n"@,
{
}

/// A panic is placed by its thread and, where that is known, by where it was raised.
pub proof fn a_panic_is_placed(r: Report)
    ensures
        r.location is Some ==> r.place_text() == "thread '"@ + known(r.thread@) + "' panicked at "@
            + r.location->0@ + ":\n"@,
        r.location is None ==> r.place_text() == "thread '"@ + known(r.thread@) + "' panicked:\n"@,
{
}

/// A backtrace is shown where one was captured and it is not blank.
pub proof fn a_backtrace_is_shown_where_there_is_one(r: Report)
    ensures
        r.backtrace_available && trim_of(r.backtrace@).len() > 0 ==> r.backtrace_text()
            == r.backtrace@,
        !r.backtrace_available || trim_of(r.backtrace@).len() == 0 ==> r.backtrace_text()
            == "No backtrace was captured on this platform."@,
{
}

/// The details run from the version over the system, the device, the place and the
/// message to the backtrace, each at its own place in the text.
pub proof fn the_details_tell_everything(r: Report)
    ensures
        ({
            let body = r.details_body();
            let system = "Umber "@ + known(r.version@) + "\n"@ + known(r.os@) + " ("@ + known(
                r.arch@,
            ) + ")\n"@;
            let place = system.len() + r.gpu_text().len() + 1;
            let message = place + r.place_text().len();
            let trace = message + known(r.message@).len() + 2;
            &&& stands_at(system, body, 0)
            &&& stands_at(r.gpu_text(), body, system.len() as int)
            &&& stands_at(r.place_text(), body, place as int)
            &&& stands_at(known(r.message@), body, message as int)
            &&& stands_at(r.backtrace_text(), body, trace as int)
            &&& body.len() == trace + r.backtrace_text().len()
            &&& stands_at(body, r.details_text(), 0)
            &&& r.details_text().len() <= body.len() + 1
        }),
{
    reveal_strlit("\n");
    reveal_strlit("\n\n");
    let system = "Umber "@ + known(r.version@) + "\n"@ + known(r.os@) + " ("@ + known(r.arch@)
        + ")\n"@;
    let a = system + r.gpu_text();
    let b = a + "\n"@ + r.place_text();
    let c = b + known(r.message@) + "\n\n"@;
    let body = c + r.backtrace_text();
    assert(r.details_body() =~= body);
    assert(forall|j: int| 0 <= j < a.len() ==> #[trigger] body[j] == a[j]);
    assert(forall|j: int| 0 <= j < b.len() ==> #[trigger] body[j] == b[j]);
    assert forall|j: int| 0 <= j < r.place_text().len() implies #[trigger] r.place_text()[j]
        == body[a.len() + 1 + j] by {
        assert(body[a.len() + 1 + j] == b[a.len() + 1 + j]);
    }
    assert forall|j: int| 0 <= j < r.gpu_text().len() implies #[trigger] r.gpu_text()[j]
        == body[system.len() + j] by {
        assert(body[system.len() + j] == a[system.len() + j]);
    }
    assert forall|j: int| 0 <= j < known(r.message@).len() implies #[trigger] known(r.message@)[j]
        == body[b.len() + j] by {
        assert(body[b.len() + j] == c[b.len() + j]);
    }
    assert forall|j: int| 0 <= j < r.backtrace_text().len() implies #[trigger] r.backtrace_text()[j]
        == body[c.len() + j] by {}
}

} // verus!
