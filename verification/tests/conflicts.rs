use justanothergitgui::conflicts::{
    diff3, merge_segments, ConflictChoice, ConflictData, ConflictPart, Eol, FileStyle,
    SegmentOrigin,
};
use justanothergitgui::conflicts::parse_conflict_markers;

/// These fixtures assert on how sections are joined, so they use a
/// terminator-free style; the final-newline behaviour is covered on its own
/// in `compose_restores_the_source_final_newline_state`.
const RAW_LF: FileStyle = FileStyle {
    eol: Eol::Lf,
    trailing_newline: false,
};
const RAW_CRLF: FileStyle = FileStyle {
    eol: Eol::Crlf,
    trailing_newline: false,
};

/// The existing cases all predate CRLF support; keep them reading as before.
fn diff3_lf(base: &str, ours: &str, theirs: &str) -> Vec<ConflictPart> {
    diff3(base, ours, theirs, Eol::Lf)
}

fn conflict(resolution: ConflictChoice) -> ConflictData {
    ConflictData::new(
        "file.txt".into(),
        vec![
            ConflictPart::Common("top".into()),
            ConflictPart::Conflict {
                ours: "mine".into(),
                theirs: "yours".into(),
                resolution,
            },
            ConflictPart::Common("bottom".into()),
        ],
        RAW_LF,
    )
}

#[test]
fn compose_emits_chosen_side_for_resolved_conflicts() {
    assert_eq!(
        conflict(ConflictChoice::Ours).compose(),
        "top\nmine\nbottom"
    );
    assert_eq!(
        conflict(ConflictChoice::Theirs).compose(),
        "top\nyours\nbottom"
    );
    assert_eq!(
        conflict(ConflictChoice::Both).compose(),
        "top\nmine\nyours\nbottom"
    );
}

#[test]
fn compose_keeps_markers_for_unresolved_conflicts() {
    let composed = conflict(ConflictChoice::Unresolved).compose();
    assert!(composed.contains("<<<<<<<"));
    assert!(composed.contains("======="));
    assert!(composed.contains(">>>>>>>"));
    assert!(composed.contains("mine"));
    assert!(composed.contains("yours"));
}

#[test]
fn compose_emits_custom_text_verbatim() {
    assert_eq!(
        conflict(ConflictChoice::Custom("hand edited".into())).compose(),
        "top\nhand edited\nbottom"
    );
}

#[test]
fn unresolved_count_tracks_open_conflicts() {
    assert_eq!(conflict(ConflictChoice::Unresolved).unresolved_count(), 1);
    assert_eq!(conflict(ConflictChoice::Ours).unresolved_count(), 0);
    assert_eq!(
        conflict(ConflictChoice::Custom("x".into())).unresolved_count(),
        0
    );
}

#[test]
fn merge_segments_interleaves_shared_and_unique_lines() {
    let segments = merge_segments("keep\nours", "keep\ntheirs");
    let tags: Vec<_> = segments
        .iter()
        .map(|segment| (segment.origin, segment.text.as_str()))
        .collect();
    assert_eq!(
        tags,
        vec![
            (SegmentOrigin::Common, "keep"),
            (SegmentOrigin::Ours, "ours"),
            (SegmentOrigin::Theirs, "theirs"),
        ]
    );
}

#[test]
fn toggle_segment_picks_individual_lines_from_each_side() {
    // ours = [a1, a2], theirs = [b1] with no shared lines.
    let mut data = ConflictData::new(
        "f".into(),
        vec![ConflictPart::Conflict {
            ours: "a1\na2".into(),
            theirs: "b1".into(),
            resolution: ConflictChoice::Unresolved,
        }],
        RAW_LF,
    );
    // Segments order: Ours(a1), Ours(a2), Theirs(b1).
    data.toggle_segment(0, 0); // keep a1
    data.toggle_segment(0, 2); // keep b1
    assert_eq!(data.compose(), "a1\nb1");

    data.toggle_segment(0, 0); // drop a1 again
    assert_eq!(data.compose(), "b1");
}

fn conflict_parts(sections: &[ConflictPart]) -> Vec<(String, String)> {
    sections
        .iter()
        .filter_map(|section| match section {
            ConflictPart::Conflict { ours, theirs, .. } => Some((ours.clone(), theirs.clone())),
            ConflictPart::Common(_) => None,
        })
        .collect()
}

#[test]
fn diff3_auto_resolves_one_sided_edits() {
    // Ours changed nothing; theirs edited the middle line → take theirs, no
    // conflict at all.
    let sections = diff3_lf("a\nb\nc", "a\nb\nc", "a\nB\nc");
    assert!(conflict_parts(&sections).is_empty());
    assert_eq!(
        ConflictData::new("f".into(), sections, RAW_LF).compose(),
        "a\nB\nc"
    );

    // Symmetric: only ours edits → take ours.
    let sections = diff3_lf("a\nb\nc", "a\nB\nc", "a\nb\nc");
    assert!(conflict_parts(&sections).is_empty());
}

#[test]
fn diff3_auto_keeps_one_sided_insertion() {
    // Theirs appended a line the base and ours never had → kept without a
    // conflict.
    let sections = diff3_lf("a\nb", "a\nb", "a\nb\nc");
    assert!(conflict_parts(&sections).is_empty());
    assert_eq!(
        ConflictData::new("f".into(), sections, RAW_LF).compose(),
        "a\nb\nc"
    );
}

#[test]
fn diff3_flags_two_sided_edits() {
    // Both sides changed the same line differently → a real conflict.
    let sections = diff3_lf("a\nb\nc", "a\nOURS\nc", "a\nTHEIRS\nc");
    let conflicts = conflict_parts(&sections);
    assert_eq!(conflicts.len(), 1);
    assert_eq!(conflicts[0], ("OURS".into(), "THEIRS".into()));
}

#[test]
fn diff3_treats_modify_versus_delete_as_a_conflict() {
    // Ours deletes the line, theirs rewrites it — never silently drop one.
    let sections = diff3_lf("keep\nx\ntail", "keep\ntail", "keep\nX!\ntail");
    let conflicts = conflict_parts(&sections);
    assert_eq!(conflicts.len(), 1);
    assert_eq!(conflicts[0], ("".into(), "X!".into()));
}

#[test]
fn diff3_identical_edits_do_not_conflict() {
    let sections = diff3_lf("a\nb", "a\nZ", "a\nZ");
    assert!(conflict_parts(&sections).is_empty());
    assert_eq!(
        ConflictData::new("f".into(), sections, RAW_LF).compose(),
        "a\nZ"
    );
}

#[test]
fn oversized_sides_degrade_instead_of_allocating() {
    // Past MAX_LCS_CELLS the quadratic table is refused. The sides must still
    // come back in full — coarsely separated rather than interleaved — so no
    // line is ever lost to the size guard.
    let side = (0..5000).fold(String::new(), |mut text, index| {
        text.push_str(&format!("line {index}\n"));
        text
    });
    let other = (0..5000).fold(String::new(), |mut text, index| {
        text.push_str(&format!("other {index}\n"));
        text
    });

    let segments = merge_segments(&side, &other);

    assert_eq!(segments.len(), 10_000);
    let ours = segments
        .iter()
        .filter(|segment| segment.origin == SegmentOrigin::Ours)
        .count();
    let theirs = segments
        .iter()
        .filter(|segment| segment.origin == SegmentOrigin::Theirs)
        .count();
    assert_eq!((ours, theirs), (5000, 5000));
}

#[test]
fn segments_are_cached_not_recomputed() {
    // conflict_segments borrows from the cache: the returned slice must be
    // the same memory across calls, since the merge editor asks three times
    // per conflict per frame.
    let data = conflict(ConflictChoice::Ours);
    let (first, _) = data.conflict_segments(1).expect("conflict at index 1");
    let (second, _) = data.conflict_segments(1).expect("conflict at index 1");

    assert!(std::ptr::eq(first, second));
}

#[test]
fn masks_are_cached_and_track_the_resolution() {
    // Same guarantee as the segments: the merge editor asks three times per
    // conflict per frame, so the mask must be borrowed, not rebuilt — and it
    // must still follow every resolution change.
    let mut data = conflict(ConflictChoice::Ours);
    let (_, first) = data.conflict_segments(1).expect("conflict at index 1");
    let (_, second) = data.conflict_segments(1).expect("conflict at index 1");
    assert!(std::ptr::eq(first, second));
    // ours "mine" / theirs "yours" share nothing: [Ours, Theirs].
    assert_eq!(first, [true, false]);

    data.set_resolution(1, ConflictChoice::Theirs);
    let (_, after) = data.conflict_segments(1).expect("conflict at index 1");
    assert_eq!(after, [false, true]);

    data.toggle_segment(1, 0);
    let (_, toggled) = data.conflict_segments(1).expect("conflict at index 1");
    assert_eq!(toggled, [true, true]);
    assert_eq!(data.compose(), "top\nmine\nyours\nbottom");
}

#[test]
fn compose_restores_crlf_line_endings() {
    // A CRLF file must come back out as CRLF: resolving one conflict may not
    // silently rewrite every other line in the file.
    let sections = diff3(
        "a\r\nb\r\nc\r\n",
        "a\r\nB\r\nc\r\n",
        "a\r\nb\r\nc\r\n",
        Eol::Crlf,
    );
    let composed = ConflictData::new("f".into(), sections, RAW_CRLF).compose();

    assert_eq!(composed, "a\r\nB\r\nc");
    assert!(!composed.contains("\n\r"), "no stray bare LF: {composed:?}");
}

#[test]
fn compose_restores_the_source_final_newline_state() {
    let sections = || vec![ConflictPart::Common("a\nb".into())];

    // Git tracks "no newline at end of file", so a file that had none must
    // not silently gain one.
    let bare = ConflictData::new("f".into(), sections(), RAW_LF);
    assert_eq!(bare.compose(), "a\nb");

    let terminated = ConflictData::new(
        "f".into(),
        sections(),
        FileStyle {
            eol: Eol::Lf,
            trailing_newline: true,
        },
    );
    assert_eq!(terminated.compose(), "a\nb\n");

    // CRLF files get their own terminator back, not a bare LF. Section text
    // already carries the file's separator internally (diff3 builds it with
    // the same Eol); compose only controls the joins between sections and
    // the final one.
    let crlf = ConflictData::new(
        "f".into(),
        vec![ConflictPart::Common("a\r\nb".into())],
        FileStyle {
            eol: Eol::Crlf,
            trailing_newline: true,
        },
    );
    assert_eq!(crlf.compose(), "a\r\nb\r\n");
}

#[test]
fn compose_leaves_a_fully_emptied_file_empty() {
    // Everything deleted means an empty file, not a file holding one blank
    // line — even when the source was newline-terminated.
    let data = ConflictData::new(
        "f".into(),
        vec![ConflictPart::Conflict {
            ours: String::new(),
            theirs: "gone".into(),
            resolution: ConflictChoice::Ours,
        }],
        FileStyle {
            eol: Eol::Lf,
            trailing_newline: true,
        },
    );

    assert_eq!(data.compose(), "");
}

#[test]
fn file_style_detect_reads_both_traits() {
    assert_eq!(
        FileStyle::detect("a\r\nb\r\n"),
        FileStyle {
            eol: Eol::Crlf,
            trailing_newline: true
        }
    );
    assert_eq!(
        FileStyle::detect("a\nb"),
        FileStyle {
            eol: Eol::Lf,
            trailing_newline: false
        }
    );
}

#[test]
fn eol_normalize_rewrites_every_terminator() {
    assert_eq!(Eol::Crlf.normalize("a\nb\r\nc"), "a\r\nb\r\nc");
    assert_eq!(Eol::Lf.normalize("a\r\nb\nc"), "a\nb\nc");
    // Already in the target style: unchanged, and no doubled `\r`.
    assert_eq!(Eol::Crlf.normalize("a\r\nb"), "a\r\nb");
}

#[test]
fn set_resolution_puts_a_custom_edit_on_the_files_terminator() {
    // The inline editor is a text box: it only ever produces `\n`. Storing
    // that verbatim would splice bare LF lines into a CRLF file, because
    // `compose` emits a custom resolution exactly as given.
    let mut data = ConflictData::new(
        "f".into(),
        vec![ConflictPart::Conflict {
            ours: "mine".into(),
            theirs: "yours".into(),
            resolution: ConflictChoice::Unresolved,
        }],
        RAW_CRLF,
    );
    data.set_resolution(0, ConflictChoice::Custom("one\ntwo".into()));

    let composed = data.compose();
    assert_eq!(composed, "one\r\ntwo");
    assert!(!composed.contains("\n\r"), "no stray bare LF: {composed:?}");
}

#[test]
fn eol_detect_reads_the_dominant_terminator() {
    assert_eq!(Eol::detect("a\r\nb\r\n"), Eol::Crlf);
    assert_eq!(Eol::detect("a\nb\n"), Eol::Lf);
    assert_eq!(Eol::detect(""), Eol::Lf);
}

#[test]
fn compose_drops_a_conflict_resolved_to_nothing() {
    // Ours deleted the line, theirs rewrote it. Accepting ours means the line
    // is gone — not replaced by a blank one.
    let sections = diff3_lf("keep\nx\ntail", "keep\ntail", "keep\nX!\ntail");
    let mut data = ConflictData::new("f".into(), sections, RAW_LF);
    set_only_conflict(&mut data, ConflictChoice::Ours);

    assert_eq!(data.compose(), "keep\ntail");
}

#[test]
fn compose_drops_a_conflict_with_every_line_unticked() {
    // What the "Clear" button produces: keep only the (absent) common lines.
    let sections = diff3_lf("keep\nx\ntail", "keep\nOURS\ntail", "keep\nTHEIRS\ntail");
    let mut data = ConflictData::new("f".into(), sections, RAW_LF);
    set_only_conflict(&mut data, ConflictChoice::Picked(vec![false, false]));

    assert_eq!(data.compose(), "keep\ntail");
}

#[test]
fn compose_keeps_a_blank_line_that_is_genuinely_common() {
    // An empty `Common` section is one real blank line between two conflicts.
    // It must survive the empty-piece filtering that the cases above rely on.
    let data = ConflictData::new(
        "f".into(),
        vec![
            ConflictPart::Conflict {
                ours: "one".into(),
                theirs: "1".into(),
                resolution: ConflictChoice::Ours,
            },
            ConflictPart::Common(String::new()),
            ConflictPart::Conflict {
                ours: "two".into(),
                theirs: "2".into(),
                resolution: ConflictChoice::Ours,
            },
        ],
        RAW_LF,
    );

    assert_eq!(data.compose(), "one\n\ntwo");
}

#[test]
fn compose_both_skips_an_empty_side() {
    // "Both" on a delete-vs-modify conflict is just the surviving side.
    let sections = diff3_lf("keep\nx\ntail", "keep\ntail", "keep\nX!\ntail");
    let mut data = ConflictData::new("f".into(), sections, RAW_LF);
    set_only_conflict(&mut data, ConflictChoice::Both);

    assert_eq!(data.compose(), "keep\nX!\ntail");
}

/// Goes through `set_resolution` rather than reaching into `sections`, so the
/// cached mask stays in step — the same guarantee production code relies on.
fn set_only_conflict(data: &mut ConflictData, choice: ConflictChoice) {
    let index = data
        .sections()
        .iter()
        .position(|section| matches!(section, ConflictPart::Conflict { .. }))
        .expect("exactly one conflict in the fixture");
    data.set_resolution(index, choice);
}

#[test]
fn conflict_segments_reports_mask_for_quick_choice() {
    let data = conflict(ConflictChoice::Theirs);
    let (segments, mask) = data.conflict_segments(1).expect("conflict at index 1");
    // ours "mine" and theirs "yours" share nothing → two segments.
    assert_eq!(segments.len(), 2);
    // Theirs choice keeps only the theirs line.
    let kept: Vec<_> = segments
        .iter()
        .zip(mask.iter())
        .filter(|(_, keep)| **keep)
        .map(|(segment, _)| segment.text.as_str())
        .collect();
    assert_eq!(kept, vec!["yours"]);
}

#[test]
fn parses_complete_conflict_markers() {
    let sections = parse_conflict_markers(
        "before\n<<<<<<< HEAD\nours\n=======\ntheirs\n>>>>>>> main\nafter",
    )
    .expect("parse complete conflict markers");

    assert_eq!(sections.len(), 3);
    assert!(matches!(sections[0], ConflictPart::Common(ref text) if text == "before"));
    assert!(matches!(
        sections[1],
        ConflictPart::Conflict {
            ref ours,
            ref theirs,
            resolution: ConflictChoice::Unresolved,
        } if ours == "ours" && theirs == "theirs"
    ));
    assert!(matches!(sections[2], ConflictPart::Common(ref text) if text == "after"));
}

#[test]
fn rejects_unbalanced_conflict_markers_at_eof() {
    let error = parse_conflict_markers("<<<<<<< HEAD\nours\n=======\ntheirs")
        .expect_err("unbalanced conflict markers should fail");

    assert!(error.contains("Unbalanced conflict markers"));
}

#[test]
fn read_conflict_file_rejects_malformed_markers() {
    let error = parse_conflict_markers("<<<<<<< HEAD\nours\n=======\ntheirs")
        .expect_err("malformed conflict file should fail");

    assert!(error.contains("Unbalanced conflict markers"));
}

#[test]
fn picking_lines_starts_from_the_chosen_side() {
    let sections =
        parse_conflict_markers("<<<<<<< HEAD\nshared\nours only\n=======\nshared\ntheirs only\n>>>>>>> topic")
            .unwrap();
    let mut data = ConflictData::new("f.txt".to_string(), sections, RAW_LF);
    for (choice, expected) in [
        (ConflictChoice::Ours, vec!["shared", "ours only"]),
        (ConflictChoice::Theirs, vec!["shared", "theirs only"]),
    ] {
        data.set_resolution(0, choice);
        let (segments, mask) = data.conflict_segments(0).expect("a conflict");
        let kept: Vec<&str> = segments
            .iter()
            .zip(mask.iter())
            .filter(|(_, keep)| **keep)
            .map(|(segment, _)| segment.text.as_str())
            .collect();
        assert_eq!(kept, expected);
    }
}
