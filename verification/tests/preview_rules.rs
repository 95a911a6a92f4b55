use elio::preview::{
    build_preview, document_preview, format_of_name, readable_date_exec, DocFormat, FileEntry,
    PreviewKind,
};

fn texts(p: &elio::preview::Preview) -> Vec<String> {
    p.lines.iter().map(|l| l.spans.concat()).collect()
}

#[test]
fn formats_are_known_by_extension_ignoring_case() {
    assert_eq!(format_of_name("REPORT.DOCX"), Some(DocFormat::Docx));
    assert_eq!(format_of_name("a.b.Pptx"), Some(DocFormat::Pptx));
    assert_eq!(format_of_name("notes.odt"), Some(DocFormat::Odt));
    assert_eq!(format_of_name("sheet.ods"), Some(DocFormat::Ods));
    assert_eq!(format_of_name("deck.odp"), Some(DocFormat::Odp));
    assert_eq!(format_of_name("budget.xlsx"), Some(DocFormat::Xlsx));
    assert_eq!(format_of_name("review.pages"), Some(DocFormat::Pages));
    assert_eq!(format_of_name(".docx"), None);
    assert_eq!(format_of_name("docx"), None);
    assert_eq!(format_of_name("report.doc"), Some(DocFormat::Doc));
    assert_eq!(format_of_name("OLD.DOC"), Some(DocFormat::Doc));
    assert_eq!(format_of_name("report.docx.bak"), None);
}

#[test]
fn timestamps_are_shown_readably() {
    assert_eq!(readable_date_exec("2026-03-11T09:00:00Z", 0), "2026-03-11 09:00 UTC");
    assert_eq!(readable_date_exec("2026-03-11T09:00:00+02:00", 0), "2026-03-11 07:00 UTC");
    assert_eq!(readable_date_exec("2026-03-11T09:00:00", 0), "2026-03-11 09:00");
    assert_eq!(readable_date_exec("yesterday", 0), "yesterday");
}

#[test]
fn timestamps_are_shown_in_the_local_time_zone() {
    assert_eq!(readable_date_exec("2026-03-11T09:00:00Z", 3600), "2026-03-11 10:00 UTC+01:00");
    assert_eq!(readable_date_exec("2026-03-11T09:00:00Z", -16200), "2026-03-11 04:30 UTC-04:30");
    assert_eq!(readable_date_exec("2026-03-11T09:00:00-05:00", 19800), "2026-03-11 19:30 UTC+05:30");
    assert_eq!(readable_date_exec("2026-03-11T09:00:00", 3600), "2026-03-11 09:00");
}

#[test]
fn local_times_cross_days_months_and_years() {
    assert_eq!(readable_date_exec("2025-12-31T23:30:00Z", 3600), "2026-01-01 00:30 UTC+01:00");
    assert_eq!(readable_date_exec("2026-01-01T00:30:00Z", -3600), "2025-12-31 23:30 UTC-01:00");
    assert_eq!(readable_date_exec("2026-03-01T00:30:00+01:00", 0), "2026-02-28 23:30 UTC");
    assert_eq!(readable_date_exec("2024-03-01T00:30:00+01:00", 0), "2024-02-29 23:30 UTC");
    assert_eq!(readable_date_exec("2000-02-28T23:00:00Z", 7200), "2000-02-29 01:00 UTC+02:00");
    assert_eq!(readable_date_exec("1900-02-28T23:00:00Z", 7200), "1900-03-01 01:00 UTC+02:00");
    assert_eq!(readable_date_exec("1969-12-31T23:59:59Z", 0), "1969-12-31 23:59 UTC");
}

#[test]
fn impossible_dates_are_not_converted() {
    assert_eq!(readable_date_exec("2026-13-11T09:00:00Z", 3600), "2026-13-11 09:00");
    assert_eq!(readable_date_exec("2026-02-30T09:00:00Z", 3600), "2026-02-30 09:00");
    assert_eq!(readable_date_exec("2026-03-11T24:00:00Z", 3600), "2026-03-11 24:00");
    assert_eq!(readable_date_exec("2026-03-11T09:00:00+2:00", 3600), "2026-03-11 09:00");
}

#[test]
fn a_time_in_its_own_zone_is_shown_as_written() {
    assert_eq!(readable_date_exec("2026-03-11T09:00:00+02:00", 7200), "2026-03-11 09:00 UTC+02:00");
    assert_eq!(readable_date_exec("0001-01-01T00:00:00Z", 0), "0001-01-01 00:00 UTC");
    assert_eq!(readable_date_exec("9999-12-31T23:59:59-09:30", -34200), "9999-12-31 23:59 UTC-09:30");
}

#[test]
fn the_same_instant_is_shown_alike() {
    assert_eq!(
        readable_date_exec("2026-03-11T09:00:00+02:00", 3600),
        readable_date_exec("2026-03-11T07:00:00Z", 3600)
    );
}

#[test]
fn other_files_are_not_previewed() {
    let p = build_preview(&FileEntry { name: "notes.txt".to_string(), bytes: b"hello".to_vec() });
    assert_eq!(p.kind, PreviewKind::Unsupported);
    assert_eq!(p.detail, None);
    assert!(p.lines.is_empty());
}

#[test]
fn an_unreadable_archive_has_no_metadata() {
    let p = build_preview(&FileEntry { name: "broken.docx".to_string(), bytes: b"not a zip".to_vec() });
    assert_eq!(p.kind, PreviewKind::Document);
    assert_eq!(p.detail.as_deref(), Some("DOCX document"));
    assert_eq!(texts(&p), vec!["No document metadata available".to_string()]);
}

#[test]
fn document_fields_come_in_a_fixed_order() {
    let core = "<cp:coreProperties><dc:creator>Ana</dc:creator>\
        <dc:title xml:lang=\"en\"> Plan </dc:title>\
        <dcterms:modified xsi:type=\"dcterms:W3CDTF\">2025-01-02T03:04:05Z</dcterms:modified>\
        </cp:coreProperties>";
    let app = "<Properties><Words>1000000</Words><Pages>3</Pages><Company> </Company></Properties>";
    let p = document_preview(DocFormat::Docx, &Vec::new(), core, app, 0);
    assert_eq!(
        texts(&p),
        vec![
            "Details",
            "Title: Plan",
            "Author: Ana",
            "Modified: 2025-01-02 03:04 UTC",
            "Pages: 3",
            "Words: 1,000,000",
        ]
    );
    assert_eq!(p.lines[1].spans, vec!["Title: ".to_string(), "Plan".to_string()]);
}

#[test]
fn presentation_counts_prefer_the_parts_in_the_archive() {
    let names: Vec<String> = vec![
        "ppt/slides/slide1.xml".to_string(),
        "ppt/slides/slide2.xml".to_string(),
        "ppt/slides/_rels/slide1.xml.rels".to_string(),
    ];
    let app = "<Properties><Slides>9</Slides><Notes>4</Notes></Properties>";
    let p = document_preview(DocFormat::Pptx, &names, "", app, 0);
    assert_eq!(texts(&p), vec!["Details", "Slides: 2", "Notes: 4"]);
}

#[test]
fn opendocument_spreadsheet_pages_are_pages() {
    let meta = "<office:meta><meta:document-statistic meta:page-count=\"2\"/></office:meta>";
    let p = document_preview(DocFormat::Ods, &Vec::new(), meta, "", 0);
    assert_eq!(texts(&p), vec!["Details", "Pages: 2"]);
    let p = document_preview(DocFormat::Odp, &Vec::new(), meta, "", 0);
    assert_eq!(texts(&p), vec!["Details", "Slides: 2"]);
}

#[test]
fn a_pages_file_without_an_index_has_no_variant() {
    let p = document_preview(DocFormat::Pages, &vec!["preview.jpg".to_string()], "", "", 0);
    assert_eq!(texts(&p), vec!["Details", "Application: Apple Pages"]);
}

#[test]
fn document_dates_follow_the_given_offset() {
    let core = "<dcterms:created>2026-03-11T09:00:00Z</dcterms:created>";
    let p = document_preview(DocFormat::Docx, &Vec::new(), core, "", -18000);
    assert_eq!(texts(&p), vec!["Details", "Created: 2026-03-11 04:00 UTC-05:00"]);
}
