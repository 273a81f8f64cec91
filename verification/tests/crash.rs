//! What a crash report holds, and what the box says of it.

use umber_app::crash::context::{
    device_error_message, documents_mark, gather, report_name, Context, Copied, Doc, Facts,
    PanicAction, Recorder, Stage, SECOND,
};
use umber_app::crash::launch::{parse_args, Launch, FLAG};
use umber_app::crash::report::{
    age_phrase, blank_as_unknown, payload_message, tidy, AutosaveCopy, DocumentNote, Report,
    Rescue, BACKTRACE_LIMIT, FIELD_LIMIT, FORMAT, TRUNCATED,
};
use umber_app::crash::window::{
    body_places, cat_of, content_height, heading, heading_height, load_cat, picture_size,
    saved_to, work, DialogFrame, Reporter, Style, FOOTER_GAP, MIN_BODY, OUTER_INSET, WINDOW_HEIGHT,
};
use umber_app::docshot::Image;
use umber_app::geom::{Pos2, Rect, Vec2, POINT};
use umber_app::picture::{Channels, Decoded};

fn args(list: &[&str]) -> Vec<String> {
    list.iter().map(|s| (*s).to_string()).collect()
}

#[test]
fn a_plain_launch_is_umber() {
    assert_eq!(parse_args(&args(&["umber"])), Launch::Normal);
    assert_eq!(parse_args(&args(&[])), Launch::Normal);
}

#[test]
fn the_flag_and_a_path_is_the_reporter() {
    assert_eq!(
        parse_args(&args(&["umber", FLAG, "C:\\reports\\crash-1.json"])),
        Launch::Report("C:\\reports\\crash-1.json".to_string()),
    );
}

/// The flag with nothing after it names no report, so there is nothing to show.
#[test]
fn the_flag_with_no_path_starts_umber() {
    assert_eq!(parse_args(&args(&["umber", FLAG])), Launch::Normal);
}

/// A file manager, a desktop entry or a shell can pass anything.
#[test]
fn an_unrecognised_argument_does_not_stop_umber_starting() {
    assert_eq!(parse_args(&args(&["umber", "--verbose"])), Launch::Normal);
    assert_eq!(
        parse_args(&args(&["umber", "--verbose", FLAG, "r.json"])),
        Launch::Report("r.json".to_string()),
    );
}

/// A path is taken verbatim, whatever it looks like.
#[test]
fn a_path_that_looks_like_a_flag_is_still_a_path() {
    assert_eq!(
        parse_args(&args(&["umber", FLAG, "--odd.json"])),
        Launch::Report("--odd.json".to_string()),
    );
}

/// The program's own name is never the flag.
#[test]
fn the_flag_in_place_of_the_program_is_not_read() {
    assert_eq!(parse_args(&args(&[FLAG, "r.json"])), Launch::Normal);
}

fn open_doc(id: u64, title: &str, revision: u64) -> Doc {
    Doc { id, title: title.to_string(), modified: true, revision, path: None }
}

/// What goes into the context has to come out, including an age measured at the
/// crash rather than at the write.
#[test]
fn the_context_merges_a_copy_onto_the_document_it_belongs_to() {
    let written = 5_000 * SECOND;
    let ctx = Context {
        adapter: None,
        backend: None,
        docs: vec![open_doc(7, "Study.ora", 12), open_doc(8, "Untitled 2", 3)],
        copies: vec![Copied {
            id: 7,
            path: "/tmp/study.ora".to_string(),
            revision: 11,
            written,
        }],
    };

    let notes = ctx.documents(written + 90 * SECOND);
    assert_eq!(notes.len(), 2);
    let copy = notes[0].autosave.as_ref().expect("the copy is carried");
    assert_eq!(copy.path, "/tmp/study.ora");
    assert_eq!(copy.revision, 11);
    assert_eq!(copy.seconds_ago, 90);
    // The document with no copy must not inherit its neighbour's.
    assert!(notes[1].autosave.is_none());

    let report = Report { documents: notes, ..Report::default() };
    // 11 against 12: the copy is a stroke behind, and the box has to say so.
    assert!(!report.rescued()[0].complete);
    assert_eq!(report.at_risk(), ["Untitled 2"]);
}

/// A clock that went backwards makes a copy new rather than ancient.
#[test]
fn an_age_never_runs_backwards() {
    let ctx = Context {
        adapter: None,
        backend: None,
        docs: vec![open_doc(1, "a", 1)],
        copies: vec![Copied { id: 1, path: "p".to_string(), revision: 1, written: 10 * SECOND }],
    };
    let notes = ctx.documents(3 * SECOND);
    assert_eq!(notes[0].autosave.as_ref().expect("a copy").seconds_ago, 0);
}

fn doc(title: &str, modified: bool, revision: u64) -> DocumentNote {
    DocumentNote {
        title: title.to_string(),
        modified,
        revision,
        path: None,
        autosave: None,
    }
}

fn with_copy(mut note: DocumentNote, revision: u64, seconds_ago: u64) -> DocumentNote {
    note.autosave = Some(AutosaveCopy {
        path: format!("/tmp/{}.ora", note.title),
        revision,
        seconds_ago,
    });
    note
}

fn sample() -> Report {
    Report {
        format: FORMAT,
        version: "0.0.4".into(),
        os: "windows".into(),
        arch: "x86_64".into(),
        adapter: Some("NVIDIA GeForce RTX 4070".into()),
        backend: Some("Vulkan".into()),
        thread: "main".into(),
        message: "wgpu error: Validation Error".into(),
        location: Some("src/app.rs:1899:22".into()),
        backtrace: "   0: umber_app::app::render\n   1: winit::run_app\n".into(),
        backtrace_available: true,
        documents: vec![with_copy(doc("Study.ora", true, 12), 12, 90)],
    }
}

#[test]
fn control_characters_are_replaced_and_newlines_are_kept() {
    let raw = "line one\r\nline\u{1b}[2J two\ttabbed";
    let clean = tidy(raw, FIELD_LIMIT);
    assert!(!clean.contains('\r'), "{clean:?}");
    assert!(!clean.contains('\u{1b}'), "{clean:?}");
    assert!(clean.contains('\n'), "{clean:?}");
    assert!(clean.contains('\t'), "{clean:?}");
    assert_eq!(clean, "line one \nline [2J two\ttabbed");
}

/// A cut in the middle of a multi-byte character would produce a report that
/// cannot itself be read.
#[test]
fn a_long_message_is_cut_on_a_character_boundary_and_says_so() {
    let raw = "é".repeat(4096);
    let clean = tidy(&raw, 64);
    assert!(clean.ends_with(TRUNCATED.trim_start()), "{clean:?}");
    assert!(clean.len() < 200, "{}", clean.len());
    // Still valid UTF-8, which is only interesting because `é` is two bytes.
    assert!(std::str::from_utf8(clean.as_bytes()).is_ok());
}

/// The limit is bytes, and the character that reaches it is the last.
#[test]
fn the_limit_counts_bytes() {
    assert_eq!(tidy("ééé", 3), format!("éé{TRUNCATED}"));
    assert_eq!(tidy("abc", 3), "abc");
    assert_eq!(tidy("abcd", 3), format!("abc{TRUNCATED}"));
    assert_eq!(tidy("", 0), "");
}

#[test]
fn a_message_within_the_limit_is_left_alone() {
    let once = tidy("  ordinary panic  ", FIELD_LIMIT);
    assert_eq!(once, "ordinary panic");
    assert_eq!(tidy(&once, FIELD_LIMIT), once);
}

#[test]
fn every_shape_of_panic_payload_produces_a_message() {
    assert_eq!(payload_message(Some("assertion failed")), "assertion failed");
    assert_eq!(payload_message(Some("wgpu error: 3")), "wgpu error: 3");

    // A payload with no printable form is said to be one.
    let message = payload_message(None);
    assert!(message.contains("not a string"), "{message}");
}

#[test]
fn only_documents_that_would_have_lost_something_are_listed() {
    let report = Report {
        documents: vec![
            // Saved and untouched: nothing to say about it at all.
            with_copy(doc("Saved.ora", false, 4), 4, 10),
            // Unsaved, and a copy that holds all of it.
            with_copy(doc("Whole.ora", true, 7), 7, 60),
            // Unsaved, and a copy taken two strokes ago.
            with_copy(doc("Behind.ora", true, 9), 7, 240),
            // Unsaved with no copy anywhere.
            doc("Untitled 3", true, 2),
        ],
        ..Report::default()
    };

    let rescued = report.rescued();
    let titles: Vec<&str> = rescued.iter().map(|r| r.title.as_str()).collect();
    assert_eq!(titles, ["Whole.ora", "Behind.ora"]);
    assert!(rescued[0].complete);
    assert!(!rescued[1].complete);
    assert_eq!(report.at_risk(), ["Untitled 3"]);
}

/// A copy taken before the last few strokes has to say so.
#[test]
fn an_incomplete_copy_says_what_it_is_missing() {
    let whole = Rescue {
        title: "a".into(),
        path: "/tmp/a.ora".into(),
        complete: true,
        seconds_ago: 60,
    };
    assert!(
        whole.note().contains("everything you had done"),
        "{}",
        whole.note()
    );
    assert_eq!(
        whole.note(),
        "Written a minute ago, with everything you had done."
    );

    let behind = Rescue { complete: false, ..whole };
    let note = behind.note();
    assert!(note.contains("does not include"), "{note}");
    assert!(!note.contains("everything you had done"), "{note}");
    assert_eq!(
        note,
        "Written a minute ago. It does not include your most recent changes."
    );
}

#[test]
fn a_report_with_nothing_open_claims_nothing() {
    let report = Report::default();
    assert!(report.rescued().is_empty());
    assert!(report.at_risk().is_empty());
}

#[test]
fn an_age_is_spelt_at_the_coarseness_somebody_would_use() {
    assert_eq!(age_phrase(0), "moments ago");
    assert_eq!(age_phrase(29), "moments ago");
    assert_eq!(age_phrase(45), "a minute ago");
    assert_eq!(age_phrase(240), "4 minutes ago");
    assert_eq!(age_phrase(3600), "an hour ago");
    assert_eq!(age_phrase(7200), "2 hours ago");
}

/// Where each way of spelling an age gives over to the next, and a count that
/// never claims more than has passed.
#[test]
fn an_age_is_rounded_down() {
    assert_eq!(age_phrase(30), "a minute ago");
    assert_eq!(age_phrase(89), "a minute ago");
    assert_eq!(age_phrase(90), "1 minutes ago");
    assert_eq!(age_phrase(150), "2 minutes ago");
    assert_eq!(age_phrase(179), "2 minutes ago");
    assert_eq!(age_phrase(3599), "59 minutes ago");
    assert_eq!(age_phrase(5399), "an hour ago");
    assert_eq!(age_phrase(5400), "1 hours ago");
    assert_eq!(age_phrase(10799), "2 hours ago");
    assert_eq!(age_phrase(u64::MAX), "5124095576030431 hours ago");
}

#[test]
fn the_details_block_carries_everything_a_bug_report_needs() {
    let details = sample().details();
    for wanted in [
        "0.0.4",
        "windows",
        "x86_64",
        "NVIDIA GeForce RTX 4070",
        "Vulkan",
        "main",
        "src/app.rs:1899:22",
        "wgpu error: Validation Error",
        "umber_app::app::render",
    ] {
        assert!(
            details.contains(wanted),
            "{wanted} missing from:\n{details}"
        );
    }
}

#[test]
fn the_details_block_is_laid_out_line_by_line() {
    assert_eq!(
        sample().details(),
        "Umber 0.0.4\n\
         windows (x86_64)\n\
         GPU: NVIDIA GeForce RTX 4070 (Vulkan)\n\
         \n\
         thread 'main' panicked at src/app.rs:1899:22:\n\
         wgpu error: Validation Error\n\
         \n\
         \x20\x20 0: umber_app::app::render\n\
         \x20\x20 1: winit::run_app\n"
    );
    // And of a record that was never filled in.
    assert_eq!(
        Report::default().details(),
        "Umber unknown\n\
         unknown (unknown)\n\
         GPU: no device had been created\n\
         \n\
         thread 'unknown' panicked:\n\
         unknown\n\
         \n\
         No backtrace was captured on this platform.\n"
    );
}

/// A crash before there is a device has no adapter, and "unknown" would hide the
/// most interesting thing about it.
#[test]
fn a_crash_with_no_device_says_there_was_no_device() {
    let report = Report { adapter: None, backend: None, ..sample() };
    assert!(
        report.details().contains("no device had been created"),
        "{}",
        report.details(),
    );
}

#[test]
fn a_missing_backtrace_is_not_drawn_as_an_empty_stack() {
    let report = Report {
        backtrace: String::new(),
        backtrace_available: false,
        ..sample()
    };
    assert!(
        report.details().contains("No backtrace was captured"),
        "{}",
        report.details(),
    );
}

#[test]
fn a_field_of_spaces_is_as_blank_as_an_empty_one() {
    assert_eq!(blank_as_unknown(" \t\n"), "unknown");
    assert_eq!(blank_as_unknown(" x "), " x ");
}

// --- what the hook knows and does --------------------------------------------

fn facts() -> Facts {
    Facts {
        version: "0.0.4".into(),
        os: "linux".into(),
        arch: "x86_64".into(),
        thread: "main".into(),
        payload: Some(" it broke \u{7}".into()),
        location: Some("src/app.rs:1:2".into()),
        backtrace: "0: here".into(),
        captured: true,
    }
}

#[test]
fn a_report_is_gathered_from_what_was_noted() {
    let mut recorder = Recorder::new();
    recorder.note_adapter("A GPU\r", "Vulkan".to_string());
    recorder.note_documents(&vec![open_doc(1, "Study.ora", 4)]);
    recorder.note_autosave(1, "/tmp/s.ora".to_string(), 4, 10 * SECOND);

    let report = gather(&facts(), Some(&recorder.context), 70 * SECOND);
    assert_eq!(report.format, FORMAT);
    assert_eq!(report.adapter.as_deref(), Some("A GPU"));
    assert_eq!(report.backend.as_deref(), Some("Vulkan"));
    assert_eq!(report.message, "it broke");
    assert_eq!(report.location.as_deref(), Some("src/app.rs:1:2"));
    assert!(report.backtrace_available);
    assert_eq!(report.backtrace, "0: here");
    assert_eq!(report.documents.len(), 1);
    assert!(report.rescued()[0].complete);
    assert_eq!(report.rescued()[0].seconds_ago, 60);

    // A busy context is a report that names no documents, not no report.
    let bare = gather(&facts(), None, 70 * SECOND);
    assert!(bare.documents.is_empty());
    assert!(bare.adapter.is_none());
    assert_eq!(bare.message, "it broke");
}

/// A second copy of one document takes the place of the first.
#[test]
fn a_later_copy_replaces_the_one_before() {
    let mut recorder = Recorder::new();
    recorder.note_documents(&vec![open_doc(1, "a", 1), open_doc(2, "b", 1)]);
    recorder.note_autosave(1, "one".to_string(), 1, 0);
    recorder.note_autosave(2, "two".to_string(), 1, 0);
    recorder.note_autosave(1, "three".to_string(), 2, 5 * SECOND);
    assert_eq!(recorder.context.copies.len(), 2);
    let notes = recorder.context.documents(5 * SECOND);
    assert_eq!(notes[0].autosave.as_ref().expect("a copy").path, "three");
    assert_eq!(notes[1].autosave.as_ref().expect("a copy").path, "two");
}

/// The list of documents is rebuilt when the tab strip changes, and not while it
/// reads the same.
#[test]
fn the_documents_are_noted_again_only_when_something_changed() {
    let mut recorder = Recorder::new();
    let tabs = vec![open_doc(1, "before", 4)];
    recorder.note_documents(&tabs);
    assert_eq!(recorder.context.docs[0].title, "before");
    // The title is not part of the reading, so this is the same reading.
    recorder.note_documents(&vec![open_doc(1, "after", 4)]);
    assert_eq!(recorder.context.docs[0].title, "before");
    recorder.note_documents(&vec![open_doc(1, "after", 5)]);
    assert_eq!(recorder.context.docs[0].title, "after");
}

/// The reading of a tab strip, worked out by hand.
#[test]
fn a_tab_strip_reads_as_one_number() {
    assert_eq!(documents_mark(&vec![]), 0);
    // (1 rotated by 7, which is 128) + 4 = 132, with the modified bit: 133.
    assert_eq!(documents_mark(&vec![open_doc(9, "a", 4)]), 133);
    let saved = Doc {
        id: 9,
        title: "a".to_string(),
        modified: false,
        revision: 4,
        path: Some("p".to_string()),
    };
    // 132 with the path bit: 134.
    assert_eq!(documents_mark(&vec![saved]), 134);
}

/// Only the main thread's first panic is a report.
#[test]
fn a_report_is_made_once_and_for_the_main_thread_alone() {
    let mut recorder = Recorder::new();
    assert_eq!(recorder.begin_report("autosave"), PanicAction::WorkerDied);
    assert_eq!(recorder.begin_report("main"), PanicAction::Report);
    assert_eq!(recorder.begin_report("main"), PanicAction::AlreadyReporting);
    assert_eq!(recorder.begin_report("autosave"), PanicAction::WorkerDied);
}

/// The reporter comes after the report is on disk, and not at all where that
/// failed.
#[test]
fn a_reporter_is_started_for_a_written_report_alone() {
    assert_eq!(PanicAction::WorkerDied.first_stage(), Stage::Over);
    assert_eq!(PanicAction::AlreadyReporting.first_stage(), Stage::Over);
    let placing = PanicAction::Report.first_stage();
    assert_eq!(placing, Stage::Place);
    assert_eq!(placing.next(false), Stage::Over);
    assert_eq!(placing.next(true), Stage::Write);
    assert_eq!(Stage::Write.next(false), Stage::Over);
    assert_eq!(Stage::Write.next(true), Stage::HandOver);
    assert_eq!(Stage::HandOver.next(true), Stage::Over);
    assert_eq!(Stage::HandOver.next(false), Stage::Over);
    assert_eq!(Stage::Over.next(true), Stage::Over);
}

#[test]
fn a_report_is_named_after_its_moment() {
    assert_eq!(report_name(0), "crash-0.json");
    assert_eq!(report_name(1_700_000_000_123), "crash-1700000000123.json");
}

#[test]
fn a_device_error_is_said_in_full() {
    assert_eq!(
        device_error_message("Out of memory"),
        "The graphics device reported an error Umber cannot carry on from.\n\nOut of memory"
    );
}

#[test]
fn a_backtrace_is_kept_to_its_own_limit() {
    let mut long = facts();
    long.backtrace = "x".repeat(BACKTRACE_LIMIT + 1);
    let report = gather(&long, None, 0);
    assert_eq!(report.backtrace.len(), BACKTRACE_LIMIT + TRUNCATED.len());
    assert!(report.backtrace.ends_with(TRUNCATED));
}

// --- the box -------------------------------------------------------------------

#[test]
fn the_box_lists_every_document_under_its_heading() {
    let report = Report {
        documents: vec![
            with_copy(doc("Whole.ora", true, 7), 7, 60),
            doc("Untitled 3", true, 2),
        ],
        ..Report::default()
    };
    let lines: Vec<(Style, String)> =
        work(&report).into_iter().map(|l| (l.style, l.text)).collect();
    assert_eq!(
        lines,
        vec![
            (Style::Section, "Your work".to_string()),
            (Style::Title, "Whole.ora".to_string()),
            (Style::Path, "/tmp/Whole.ora.ora".to_string()),
            (
                Style::Note,
                "Written a minute ago, with everything you had done.".to_string()
            ),
            (Style::Title, "Untitled 3".to_string()),
            (Style::Note, "Umber had no copy of this one.".to_string()),
        ]
    );

    let lines: Vec<(Style, String)> =
        work(&Report::default()).into_iter().map(|l| (l.style, l.text)).collect();
    assert_eq!(
        lines,
        vec![
            (Style::Section, "Your work".to_string()),
            (
                Style::Note,
                "Nothing was open with unsaved changes.".to_string()
            ),
        ]
    );
    assert_eq!(saved_to("/tmp/r.json"), "Saved to /tmp/r.json");
}

#[test]
fn copying_is_confirmed_and_stays_confirmed() {
    let mut reporter = Reporter::new();
    // Closed to begin with, and nothing in it is offered.
    let drawn = reporter.technical(false, false);
    assert!(!drawn.details && !drawn.chevron_up && !drawn.confirmed);
    // Opened.
    let drawn = reporter.technical(true, false);
    assert!(drawn.details && !drawn.confirmed);
    let drawn = reporter.technical(false, true);
    assert!(drawn.copy && drawn.confirmed);
    let drawn = reporter.technical(false, false);
    assert!(drawn.confirmed, "the line stays");

    reporter.footer(false, true);
    assert!(reporter.close && !reporter.restart);
    let mut again = Reporter::new();
    again.footer(true, false);
    assert!(again.close && again.restart, "restarting closes the box");
}

fn frame() -> DialogFrame {
    DialogFrame { margin: 24 * POINT, stroke: POINT, button_height: 28 * POINT }
}

/// The box's inset is the same above and below: what is set is the window less
/// both insets, both margins and both edges of the stroke.
#[test]
fn the_box_leaves_the_same_room_above_and_below() {
    let content = content_height(WINDOW_HEIGHT, frame());
    assert_eq!(
        content + 2 * OUTER_INSET + 2 * (24 * POINT) + 2 * POINT,
        WINDOW_HEIGHT
    );
    // However short the window is, there is a body.
    assert_eq!(content_height(0, frame()), MIN_BODY);
}

/// The scrolling body gets what is left of the box and not its floor.
#[test]
fn the_body_fills_what_the_heading_and_the_footer_leave() {
    let content = content_height(WINDOW_HEIGHT, frame());
    let top = 35 * POINT;
    let under = top + 140 * POINT;
    let places = body_places(top, under, content, frame());
    assert_eq!(places.bottom, top + content);
    assert_eq!(places.footer_top, places.bottom - 28 * POINT);
    assert_eq!(places.body, places.footer_top - FOOTER_GAP - under);
    assert!(places.body > 2 * MIN_BODY);
}

#[test]
fn the_words_and_the_picture_stand_a_third_in_from_each_end() {
    let words = Vec2 { x: 120 * POINT, y: 20 * POINT };
    let picture = picture_size(256, 128);
    assert_eq!(picture, Vec2 { x: 128 * POINT, y: 64 * POINT });
    let height = heading_height(words, Some(picture));
    assert_eq!(height, 64 * POINT, "as tall as the taller of the two");
    let row = Rect {
        min: Pos2 { x: 0, y: 0 },
        max: Pos2 { x: 600 * POINT, y: height },
    };
    let places = heading(row, words, Some(picture));
    // The block is 26 + 10 + 120 wide, centred at 200.
    assert_eq!(places.mark.min, Pos2 { x: 122 * POINT, y: 19 * POINT });
    assert_eq!(places.words, Pos2 { x: 158 * POINT, y: 22 * POINT });
    assert_eq!(
        places.picture,
        Some(Rect {
            min: Pos2 { x: 336 * POINT, y: 0 },
            max: Pos2 { x: 464 * POINT, y: 64 * POINT },
        })
    );
    // With no picture the words take the middle.
    let alone = heading(row, words, None);
    assert_eq!(alone.mark.min.x, 222 * POINT);
    assert!(alone.picture.is_none());
    assert_eq!(heading_height(words, None), 26 * POINT);
}

// --- the drawing -----------------------------------------------------------------

#[test]
fn only_a_picture_of_one_grey_channel_is_the_drawing() {
    let decoded = |channels: Channels| {
        cat_of(Some(Decoded { channels, width: 2, height: 1, data: vec![0, 255] }))
    };
    let cat = decoded(Channels::Grey).expect("ink");
    assert_eq!((cat.width, cat.height), (2, 1));
    assert_eq!(cat.ink, vec![0, 255]);
    for channels in [
        Channels::Rgb,
        Channels::Indexed,
        Channels::GreyAlpha,
        Channels::Rgba,
    ] {
        assert!(decoded(channels).is_none());
    }
    assert!(cat_of(None).is_none());
}

/// The smallest greyscale picture there is: two pixels, one black and one white.
fn grey_png() -> Vec<u8> {
    let mut out = Vec::new();
    {
        let mut encoder = png::Encoder::new(&mut out, 2, 1);
        encoder.set_color(png::ColorType::Grayscale);
        encoder.set_depth(png::BitDepth::Eight);
        let mut writer = encoder.write_header().expect("a header");
        writer.write_image_data(&[7, 200]).expect("two pixels");
    }
    out
}

#[test]
fn a_drawing_is_read_out_of_its_file() {
    let cat = load_cat(&grey_png()).expect("a drawing");
    assert_eq!((cat.width, cat.height), (2, 1));
    assert_eq!(cat.ink, vec![7, 200]);
    // A file that is no picture, and one in colour, draw nothing.
    assert!(load_cat(&[]).is_none());
    assert!(load_cat(b"not a picture").is_none());
    let colour = Image { width: 1, height: 1, rgb: vec![1, 2, 3] };
    let file = colour.encode().expect("encodes");
    assert!(load_cat(&file).is_none());
}
