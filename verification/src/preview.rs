use vstd::prelude::*;
use crate::archive::{
    compound_stream, compound_stream_of, zip_entry_names, zip_entry_text, zip_names_of, zip_text_of,
};
use crate::markup::{
    all_enclosed, all_enclosed_exec, attribute_value, attribute_value_exec, element_text,
    element_text_exec, enclosed, enclosed_span, find, find_from,
    lemma_find_from_bounds, lemma_find_from_first, matches_at, matches_at_exec, nonblank_text, nonblank_slice, nonblank_slice_exec,
    slice_chars, string_seq_view,
};
use crate::dates::{
    day_number, law_epochs,
    law_written_time_in_its_own_zone, zone_offset, offset_label, clock_text, clock_text_exec, is_zoned_time, local_offset_at, offset_ok, zoned_instant,
    zoned_instant_exec,
};
use crate::paths::opt_view;
use crate::summary::{
    property_count, property_count_exec, property_filetime, property_filetime_exec, property_text,
    property_text_exec,
};
use crate::text::{
    ascii_fold, ascii_fold_code, char_count, chars_of, concatenate, count_text, count_text_exec,
    decimal, decimal_chars, is_space, string_from_range, trim, trim_spec,
};

verus! {

// ---------------------------------------------------------------------------
// Document formats
// ---------------------------------------------------------------------------

#[derive(Clone, Copy, Debug, PartialEq, Eq)]
pub enum DocFormat {
    Doc,
    Docx,
    Xlsx,
    Pptx,
    Odt,
    Ods,
    Odp,
    Pages,
}

/// The position of the last `.` among the first `i` characters of `s`.
pub open spec fn last_dot(s: Seq<char>, i: int) -> Option<int>
    decreases i,
{
    if i <= 0 || i > s.len() {
        None
    } else if s[i - 1] == '.' {
        Some(i - 1)
    } else {
        last_dot(s, i - 1)
    }
}

/// The extension of a file name, as `Path::extension` gives it: what follows
/// the last `.`, unless that `.` starts the name.
pub open spec fn extension(name: Seq<char>) -> Option<Seq<char>> {
    match last_dot(name, name.len() as int) {
        Some(d) => if d > 0 {
            Some(name.skip(d + 1))
        } else {
            None
        },
        None => None,
    }
}

/// The extension of `name` is `ext`, ignoring ASCII case.
pub open spec fn has_extension(name: Seq<char>, ext: Seq<char>) -> bool {
    match extension(name) {
        Some(e) => e.len() == ext.len() && forall|i: int|
            0 <= i < e.len() ==> #[trigger] ascii_fold(e[i]) == ascii_fold(ext[i]),
        None => false,
    }
}

/// The document format a file name's extension stands for.
pub open spec fn format_of(name: Seq<char>) -> Option<DocFormat> {
    if has_extension(name, "doc"@) {
        Some(DocFormat::Doc)
    } else if has_extension(name, "docx"@) {
        Some(DocFormat::Docx)
    } else if has_extension(name, "xlsx"@) {
        Some(DocFormat::Xlsx)
    } else if has_extension(name, "pptx"@) {
        Some(DocFormat::Pptx)
    } else if has_extension(name, "odt"@) {
        Some(DocFormat::Odt)
    } else if has_extension(name, "ods"@) {
        Some(DocFormat::Ods)
    } else if has_extension(name, "odp"@) {
        Some(DocFormat::Odp)
    } else if has_extension(name, "pages"@) {
        Some(DocFormat::Pages)
    } else {
        None
    }
}

pub proof fn lemma_last_dot_bounds(s: Seq<char>, i: int)
    ensures
        last_dot(s, i) matches Some(d) ==> 0 <= d < i && s[d] == '.',
    decreases i,
{
    if 0 < i <= s.len() && s[i - 1] != '.' {
        lemma_last_dot_bounds(s, i - 1);
    }
}

fn last_dot_exec(s: &Vec<char>) -> (r: Option<usize>)
    ensures
        r matches Some(d) ==> d < s@.len(),
        match r {
            Some(d) => last_dot(s@, s@.len() as int) == Some(d as int),
            None => last_dot(s@, s@.len() as int) is None,
        },
{
    let mut i = s.len();
    while i > 0
        invariant
            i <= s@.len(),
            last_dot(s@, s@.len() as int) == last_dot(s@, i as int),
        decreases i,
    {
        if s[i - 1] == '.' {
            return Some(i - 1);
        }
        i = i - 1;
    }
    None
}

fn has_extension_exec(name: &Vec<char>, ext: &str) -> (r: bool)
    ensures
        r == has_extension(name@, ext@),
{
    let e = chars_of(ext);
    let d = match last_dot_exec(name) {
        Some(d) => d,
        None => {
            return false;
        },
    };
    if d == 0 {
        return false;
    }
    let ghost tail = name@.skip(d + 1);
    proof {
        lemma_last_dot_bounds(name@, name@.len() as int);
    }
    if name.len() - (d + 1) != e.len() {
        return false;
    }
    let mut i: usize = 0;
    while i < e.len()
        invariant
            d + 1 + e.len() == name.len(),
            last_dot(name@, name@.len() as int) == Some(d as int),
            d > 0,
            e@ == ext@,
            tail == name@.skip(d + 1),
            tail.len() == e@.len(),
            i <= e@.len(),
            forall|k: int| 0 <= k < i ==> #[trigger] ascii_fold(tail[k]) == ascii_fold(e@[k]),
        decreases e@.len() - i,
    {
        if ascii_fold_code(name[d + 1 + i]) != ascii_fold_code(e[i]) {
            assert(tail[i as int] == name@[d + 1 + i]);
            assert(extension(name@) == Some(tail));
            assert(!(ascii_fold(tail[i as int]) == ascii_fold(e@[i as int])));
            return false;
        }
        assert(tail[i as int] == name@[d + 1 + i]);
        i = i + 1;
    }
    true
}

/// The document format of a file, by the extension of its name.
pub fn format_of_name(name: &str) -> (r: Option<DocFormat>)
    ensures
        r == format_of(name@),
{
    let n = chars_of(name);
    if has_extension_exec(&n, "doc") {
        Some(DocFormat::Doc)
    } else if has_extension_exec(&n, "docx") {
        Some(DocFormat::Docx)
    } else if has_extension_exec(&n, "xlsx") {
        Some(DocFormat::Xlsx)
    } else if has_extension_exec(&n, "pptx") {
        Some(DocFormat::Pptx)
    } else if has_extension_exec(&n, "odt") {
        Some(DocFormat::Odt)
    } else if has_extension_exec(&n, "ods") {
        Some(DocFormat::Ods)
    } else if has_extension_exec(&n, "odp") {
        Some(DocFormat::Odp)
    } else if has_extension_exec(&n, "pages") {
        Some(DocFormat::Pages)
    } else {
        None
    }
}

/// The format's name, shown beside the preview.
pub open spec fn detail_of(f: DocFormat) -> Seq<char> {
    match f {
        DocFormat::Doc => "DOC document"@,
        DocFormat::Docx => "DOCX document"@,
        DocFormat::Xlsx => "XLSX spreadsheet"@,
        DocFormat::Pptx => "PPTX presentation"@,
        DocFormat::Odt => "ODT document"@,
        DocFormat::Ods => "ODS spreadsheet"@,
        DocFormat::Odp => "ODP presentation"@,
        DocFormat::Pages => "Pages document"@,
    }
}

pub fn detail_text(f: DocFormat) -> (r: String)
    ensures
        r@ == detail_of(f),
{
    match f {
        DocFormat::Doc => String::from_str("DOC document"),
        DocFormat::Docx => String::from_str("DOCX document"),
        DocFormat::Xlsx => String::from_str("XLSX spreadsheet"),
        DocFormat::Pptx => String::from_str("PPTX presentation"),
        DocFormat::Odt => String::from_str("ODT document"),
        DocFormat::Ods => String::from_str("ODS spreadsheet"),
        DocFormat::Odp => String::from_str("ODP presentation"),
        DocFormat::Pages => String::from_str("Pages document"),
    }
}

/// Office Open XML formats, whose metadata is in `docProps/core.xml` and
/// `docProps/app.xml`.
pub open spec fn is_ooxml(f: DocFormat) -> bool {
    f == DocFormat::Docx || f == DocFormat::Xlsx || f == DocFormat::Pptx
}

// ---------------------------------------------------------------------------
// Values
// ---------------------------------------------------------------------------

/// A date and time as shown: an ISO 8601 date and time with a zone
/// (`2026-03-11T09:00:00Z`, `2026-03-11T09:00:00+02:00`) as the local wall
/// time at that instant, `2026-03-11 11:00 UTC+02:00`, where `off` is the
/// local time zone's offset from UTC at that instant, in seconds; one
/// without a zone as its wall time, `2026-03-11 09:00`; any other text as
/// it is.
pub open spec fn readable_date(s: Seq<char>, off: int) -> Seq<char> {
    if is_zoned_time(s) {
        clock_text(zoned_instant(s) + off, off)
    } else if s.len() >= 16 && s[4] == '-' && s[7] == '-' && s[10] == 'T' && s[13] == ':' {
        s.take(10) + seq![' '] + s.subrange(11, 16)
    } else {
        s
    }
}

pub open spec fn date_of(v: Option<Seq<char>>, off: int) -> Option<Seq<char>> {
    match v {
        Some(s) => Some(readable_date(s, off)),
        None => None,
    }
}

pub open spec fn count_of(v: Option<Seq<char>>) -> Option<Seq<char>> {
    match v {
        Some(s) => Some(count_text(s)),
        None => None,
    }
}

fn push_range(v: &mut Vec<char>, s: &Vec<char>, a: usize, b: usize)
    requires
        a <= b <= s@.len(),
    ensures
        final(v)@ == old(v)@ + s@.subrange(a as int, b as int),
{
    let mut i = a;
    while i < b
        invariant
            a <= i <= b <= s@.len(),
            v@ == old(v)@ + s@.subrange(a as int, i as int),
        decreases b - i,
    {
        v.push(s[i]);
        i = i + 1;
        assert(v@ =~= old(v)@ + s@.subrange(a as int, i as int));
    }
}

/// The local offset to show a date at: the one given, or else the local
/// time zone's offset at the instant.
pub open spec fn offset_fits(zone: Option<i32>, off: int) -> bool {
    offset_ok(off) && (zone matches Some(z) ==> off == z)
}

/// `s` as shown, at the offset `zone` or, where it is `None`, at the local
/// time zone's offset at the instant `s` names; with the offset used.
fn readable_date_in(s: &str, zone: Option<i32>) -> (r: (String, Ghost<int>))
    requires
        zone matches Some(o) ==> offset_ok(o as int),
    ensures
        offset_fits(zone, r.1@),
        r.0@ == readable_date(s@, r.1@),
{
    let c = chars_of(s);
    let given: Ghost<int> = Ghost(
        match zone {
            Some(o) => o as int,
            None => 0,
        },
    );
    match zoned_instant_exec(&c) {
        Some(t) => {
            let off = match zone {
                Some(o) => o,
                None => local_offset_at(t),
            };
            let local = if off < 0 {
                t - ((-off) as u64)
            } else {
                t + (off as u64)
            };
            (clock_text_exec(local, off), Ghost(off as int))
        },
        None => {
            if c.len() >= 16 && c[4] == '-' && c[7] == '-' && c[10] == 'T' && c[13] == ':' {
                let mut out: Vec<char> = Vec::new();
                push_range(&mut out, &c, 0, 10);
                out.push(' ');
                push_range(&mut out, &c, 11, 16);
                assert(out@ =~= readable_date(s@, given@));
                (string_from_range(&out, 0, out.len()), given)
            } else {
                assert(c@.subrange(0, c@.len() as int) =~= c@);
                (string_from_range(&c, 0, c.len()), given)
            }
        },
    }
}

/// `s` as shown where the local time zone is `utc_offset` seconds ahead of
/// UTC.
pub fn readable_date_exec(s: &str, utc_offset: i32) -> (r: String)
    requires
        offset_ok(utc_offset as int),
    ensures
        r@ == readable_date(s@, utc_offset as int),
{
    let (r, _off) = readable_date_in(s, Some(utc_offset));
    r
}

fn date_exec(v: Option<String>, zone: Option<i32>) -> (r: (Option<String>, Ghost<int>))
    requires
        zone matches Some(o) ==> offset_ok(o as int),
    ensures
        offset_fits(zone, r.1@),
        opt_view(r.0) == date_of(opt_view(v), r.1@),
{
    match v {
        Some(s) => {
            let (d, off) = readable_date_in(s.as_str(), zone);
            (Some(d), off)
        },
        None => (None, Ghost(
            match zone {
                Some(o) => o as int,
                None => 0,
            },
        )),
    }
}

fn count_exec(v: Option<String>) -> (r: Option<String>)
    ensures
        opt_view(r) == count_of(opt_view(v)),
{
    match v {
        Some(s) => Some(count_text_exec(s.as_str())),
        None => None,
    }
}

// ---------------------------------------------------------------------------
// Fields
// ---------------------------------------------------------------------------

/// A labelled piece of metadata.
pub struct Field {
    pub label: String,
    pub value: String,
}

impl View for Field {
    type V = (Seq<char>, Seq<char>);

    open spec fn view(&self) -> (Seq<char>, Seq<char>) {
        (self.label@, self.value@)
    }
}

pub open spec fn fields_view(v: Seq<Field>) -> Seq<(Seq<char>, Seq<char>)> {
    v.map_values(|f: Field| f@)
}

/// The field `label` with the value `v`, if there is a value.
pub open spec fn opt_field(label: Seq<char>, v: Option<Seq<char>>) -> Seq<(Seq<char>, Seq<char>)> {
    match v {
        Some(x) => seq![(label, x)],
        None => Seq::empty(),
    }
}

/// `acc` followed by the field `label`, if it has a value.
pub open spec fn with_field(acc: Seq<(Seq<char>, Seq<char>)>, label: Seq<char>, v: Option<Seq<char>>) -> Seq<
    (Seq<char>, Seq<char>),
> {
    acc + opt_field(label, v)
}

fn add_field(fields: &mut Vec<Field>, label: &str, value: Option<String>)
    ensures
        fields_view(final(fields)@) == with_field(fields_view(old(fields)@), label@, opt_view(value)),
{
    match value {
        Some(v) => {
            let f = Field { label: String::from_str(label), value: v };
            fields.push(f);
            assert(fields_view(fields@) =~= fields_view(old(fields)@) + seq![f@]);
        },
        None => {
            assert(fields_view(fields@) =~= fields_view(old(fields)@) + Seq::empty());
        },
    }
}

/// `s` begins with `prefix` and ends with `.xml`.
pub open spec fn is_part(s: Seq<char>, prefix: Seq<char>) -> bool {
    matches_at(s, prefix, 0) && 4 <= s.len() && matches_at(s, ".xml"@, s.len() - 4)
}

/// How many of the archive's entries are parts named `prefix...xml`.
pub open spec fn count_parts(names: Seq<Seq<char>>, prefix: Seq<char>) -> nat
    decreases names.len(),
{
    if names.len() == 0 {
        0
    } else {
        count_parts(names.drop_last(), prefix) + if is_part(names.last(), prefix) {
            1nat
        } else {
            0nat
        }
    }
}

fn count_parts_exec(names: &Vec<String>, prefix: &str) -> (r: usize)
    ensures
        r == count_parts(string_seq_view(names@), prefix@),
{
    let p = chars_of(prefix);
    let x = chars_of(".xml");
    let ghost all = string_seq_view(names@);
    let mut n: usize = 0;
    let mut i: usize = 0;
    while i < names.len()
        invariant
            i <= names@.len(),
            all == string_seq_view(names@),
            p@ == prefix@,
            x@ == ".xml"@,
            n == count_parts(all.take(i as int), prefix@),
            n <= i,
        decreases names@.len() - i,
    {
        let c = chars_of(names[i].as_str());
        let hit = matches_at_exec(&c, &p, 0) && c.len() >= 4 && matches_at_exec(&c, &x, c.len() - 4);
        assert(all.take(i + 1).drop_last() =~= all.take(i as int));
        assert(all.take(i + 1).last() == c@);
        if hit {
            n = n + 1;
        }
        i = i + 1;
    }
    assert(all.take(i as int) =~= all);
    n
}

/// The number of parts when the archive has any, otherwise the number that
/// the metadata states.
pub open spec fn part_count(names: Seq<Seq<char>>, prefix: Seq<char>, stated: Option<Seq<char>>) -> Option<
    Seq<char>,
> {
    let n = count_parts(names, prefix);
    if n > 0 {
        Some(count_text(decimal(n)))
    } else {
        count_of(stated)
    }
}

fn part_count_exec(names: &Vec<String>, prefix: &str, stated: Option<String>) -> (r: Option<String>)
    ensures
        opt_view(r) == part_count(string_seq_view(names@), prefix@, opt_view(stated)),
{
    let n = count_parts_exec(names, prefix);
    if n > 0 {
        let d = decimal_chars(n);
        let ds = string_from_range(&d, 0, d.len());
        assert(d@.subrange(0, d@.len() as int) =~= d@);
        Some(count_text_exec(ds.as_str()))
    } else {
        count_exec(stated)
    }
}

/// The fields of an Office Open XML document's `docProps/core.xml`, after
/// `acc`.
pub open spec fn ooxml_core(
    acc: Seq<(Seq<char>, Seq<char>)>,
    core: Seq<char>,
    created_off: int,
    modified_off: int,
) -> Seq<
    (Seq<char>, Seq<char>),
> {
    let acc = with_field(acc, "Title"@, element_text(core, "<dc:title"@, "</dc:title>"@));
    let acc = with_field(acc, "Subject"@, element_text(core, "<dc:subject"@, "</dc:subject>"@));
    let acc = with_field(acc, "Author"@, element_text(core, "<dc:creator"@, "</dc:creator>"@));
    let acc = with_field(
        acc,
        "Last modified by"@,
        element_text(core, "<cp:lastModifiedBy"@, "</cp:lastModifiedBy>"@),
    );
    let acc = with_field(
        acc,
        "Created"@,
        date_of(element_text(core, "<dcterms:created"@, "</dcterms:created>"@), created_off),
    );
    with_field(
        acc,
        "Modified"@,
        date_of(element_text(core, "<dcterms:modified"@, "</dcterms:modified>"@), modified_off),
    )
}

/// The fields of an Office Open XML document's `docProps/app.xml`, after
/// `acc`.
pub open spec fn ooxml_app(acc: Seq<(Seq<char>, Seq<char>)>, app: Seq<char>) -> Seq<
    (Seq<char>, Seq<char>),
> {
    let acc = with_field(acc, "Application"@, element_text(app, "<Application"@, "</Application>"@));
    let acc = with_field(acc, "Company"@, element_text(app, "<Company"@, "</Company>"@));
    with_field(acc, "Manager"@, element_text(app, "<Manager"@, "</Manager>"@))
}

/// The statistics of an Office Open XML document, after `acc`: pages and
/// words of a text document; slides, notes and hidden slides of a
/// presentation, slides and notes counted from the archive's parts when it
/// has any, since the stated counts may be stale.
pub open spec fn ooxml_stats(
    acc: Seq<(Seq<char>, Seq<char>)>,
    f: DocFormat,
    app: Seq<char>,
    names: Seq<Seq<char>>,
) -> Seq<(Seq<char>, Seq<char>)> {
    match f {
        DocFormat::Docx => {
            let acc = with_field(acc, "Pages"@, count_of(element_text(app, "<Pages"@, "</Pages>"@)));
            with_field(acc, "Words"@, count_of(element_text(app, "<Words"@, "</Words>"@)))
        },
        DocFormat::Pptx => {
            let acc = with_field(
                acc,
                "Slides"@,
                part_count(names, "ppt/slides/slide"@, element_text(app, "<Slides"@, "</Slides>"@)),
            );
            let acc = with_field(
                acc,
                "Notes"@,
                part_count(
                    names,
                    "ppt/notesSlides/notesSlide"@,
                    element_text(app, "<Notes"@, "</Notes>"@),
                ),
            );
            with_field(
                acc,
                "Hidden Slides"@,
                count_of(element_text(app, "<HiddenSlides"@, "</HiddenSlides>"@)),
            )
        },
        _ => acc,
    }
}

/// The metadata of an Office Open XML document, its dates shown at the
/// given offsets.
pub open spec fn ooxml_fields(
    f: DocFormat,
    core: Seq<char>,
    app: Seq<char>,
    names: Seq<Seq<char>>,
    created_off: int,
    modified_off: int,
) -> Seq<(Seq<char>, Seq<char>)> {
    ooxml_stats(
        ooxml_app(ooxml_core(Seq::empty(), core, created_off, modified_off), app),
        f,
        app,
        names,
    )
}

fn add_ooxml_core(v: &mut Vec<Field>, c: &Vec<char>, zone: Option<i32>) -> (offs: Ghost<(int, int)>)
    requires
        zone matches Some(o) ==> offset_ok(o as int),
    ensures
        offset_fits(zone, offs@.0),
        offset_fits(zone, offs@.1),
        fields_view(final(v)@) == ooxml_core(fields_view(old(v)@), c@, offs@.0, offs@.1),
{
    add_field(v, "Title", element_text_exec(c, "<dc:title", "</dc:title>"));
    add_field(v, "Subject", element_text_exec(c, "<dc:subject", "</dc:subject>"));
    add_field(v, "Author", element_text_exec(c, "<dc:creator", "</dc:creator>"));
    add_field(
        v,
        "Last modified by",
        element_text_exec(c, "<cp:lastModifiedBy", "</cp:lastModifiedBy>"),
    );
    let (created, co) = date_exec(
        element_text_exec(c, "<dcterms:created", "</dcterms:created>"),
        zone,
    );
    add_field(v, "Created", created);
    let (modified, mo) = date_exec(
        element_text_exec(c, "<dcterms:modified", "</dcterms:modified>"),
        zone,
    );
    add_field(v, "Modified", modified);
    Ghost((co@, mo@))
}

fn add_ooxml_app(v: &mut Vec<Field>, a: &Vec<char>)
    ensures
        fields_view(final(v)@) == ooxml_app(fields_view(old(v)@), a@),
{
    add_field(v, "Application", element_text_exec(a, "<Application", "</Application>"));
    add_field(v, "Company", element_text_exec(a, "<Company", "</Company>"));
    add_field(v, "Manager", element_text_exec(a, "<Manager", "</Manager>"));
}

fn add_ooxml_stats(v: &mut Vec<Field>, f: DocFormat, a: &Vec<char>, names: &Vec<String>)
    ensures
        fields_view(final(v)@) == ooxml_stats(fields_view(old(v)@), f, a@, string_seq_view(names@)),
{
    match f {
        DocFormat::Docx => {
            add_field(v, "Pages", count_exec(element_text_exec(a, "<Pages", "</Pages>")));
            add_field(v, "Words", count_exec(element_text_exec(a, "<Words", "</Words>")));
        },
        DocFormat::Pptx => {
            let slides = element_text_exec(a, "<Slides", "</Slides>");
            add_field(v, "Slides", part_count_exec(names, "ppt/slides/slide", slides));
            let notes = element_text_exec(a, "<Notes", "</Notes>");
            add_field(v, "Notes", part_count_exec(names, "ppt/notesSlides/notesSlide", notes));
            add_field(
                v,
                "Hidden Slides",
                count_exec(element_text_exec(a, "<HiddenSlides", "</HiddenSlides>")),
            );
        },
        _ => {},
    }
}

fn ooxml_fields_exec(f: DocFormat, core: &str, app: &str, names: &Vec<String>, zone: Option<i32>) -> (r: (
    Vec<Field>,
    Ghost<(int, int)>,
))
    requires
        zone matches Some(o) ==> offset_ok(o as int),
    ensures
        offset_fits(zone, r.1@.0),
        offset_fits(zone, r.1@.1),
        fields_view(r.0@) == ooxml_fields(f, core@, app@, string_seq_view(names@), r.1@.0, r.1@.1),
{
    let c = chars_of(core);
    let a = chars_of(app);
    let mut v: Vec<Field> = Vec::new();
    assert(fields_view(v@) =~= Seq::empty());
    let offs = add_ooxml_core(&mut v, &c, zone);
    add_ooxml_app(&mut v, &a);
    add_ooxml_stats(&mut v, f, &a, names);
    (v, offs)
}

/// The fields of an OpenDocument file's `meta.xml`: its properties, then
/// the statistics that `meta:document-statistic` gives (the page count is
/// labelled as slides in a presentation); its dates shown at the given
/// offsets.
pub open spec fn odf_fields(f: DocFormat, meta: Seq<char>, created_off: int, modified_off: int) -> Seq<
    (Seq<char>, Seq<char>),
> {
    let acc = with_field(Seq::empty(), "Title"@, element_text(meta, "<dc:title"@, "</dc:title>"@));
    let acc = with_field(acc, "Subject"@, element_text(meta, "<dc:subject"@, "</dc:subject>"@));
    let acc = with_field(
        acc,
        "Author"@,
        element_text(meta, "<meta:initial-creator"@, "</meta:initial-creator>"@),
    );
    let acc = with_field(
        acc,
        "Last modified by"@,
        element_text(meta, "<dc:creator"@, "</dc:creator>"@),
    );
    let acc = with_field(
        acc,
        "Created"@,
        date_of(
            element_text(meta, "<meta:creation-date"@, "</meta:creation-date>"@),
            created_off,
        ),
    );
    let acc = with_field(
        acc,
        "Modified"@,
        date_of(element_text(meta, "<dc:date"@, "</dc:date>"@), modified_off),
    );
    let acc = with_field(
        acc,
        "Application"@,
        element_text(meta, "<meta:generator"@, "</meta:generator>"@),
    );
    odf_stats(acc, f, meta)
}

pub open spec fn odf_stats(acc: Seq<(Seq<char>, Seq<char>)>, f: DocFormat, meta: Seq<char>) -> Seq<
    (Seq<char>, Seq<char>),
> {
    let acc = with_field(
        acc,
        if f == DocFormat::Odp {
            "Slides"@
        } else {
            "Pages"@
        },
        count_of(attribute_value(meta, "meta:page-count=\""@)),
    );
    let acc = with_field(acc, "Words"@, count_of(attribute_value(meta, "meta:word-count=\""@)));
    let acc = with_field(
        acc,
        "Characters"@,
        count_of(attribute_value(meta, "meta:character-count=\""@)),
    );
    let acc = with_field(acc, "Tables"@, count_of(attribute_value(meta, "meta:table-count=\""@)));
    let acc = with_field(acc, "Cells"@, count_of(attribute_value(meta, "meta:cell-count=\""@)));
    with_field(acc, "Objects"@, count_of(attribute_value(meta, "meta:object-count=\""@)))
}

fn add_odf_stats(v: &mut Vec<Field>, f: DocFormat, m: &Vec<char>)
    ensures
        fields_view(final(v)@) == odf_stats(fields_view(old(v)@), f, m@),
{
    let pages = count_exec(attribute_value_exec(m, "meta:page-count=\""));
    match f {
        DocFormat::Odp => add_field(v, "Slides", pages),
        _ => add_field(v, "Pages", pages),
    }
    add_field(v, "Words", count_exec(attribute_value_exec(m, "meta:word-count=\"")));
    add_field(v, "Characters", count_exec(attribute_value_exec(m, "meta:character-count=\"")));
    add_field(v, "Tables", count_exec(attribute_value_exec(m, "meta:table-count=\"")));
    add_field(v, "Cells", count_exec(attribute_value_exec(m, "meta:cell-count=\"")));
    add_field(v, "Objects", count_exec(attribute_value_exec(m, "meta:object-count=\"")));
}

fn odf_fields_exec(f: DocFormat, meta: &str, zone: Option<i32>) -> (r: (Vec<Field>, Ghost<(int, int)>))
    requires
        zone matches Some(o) ==> offset_ok(o as int),
    ensures
        offset_fits(zone, r.1@.0),
        offset_fits(zone, r.1@.1),
        fields_view(r.0@) == odf_fields(f, meta@, r.1@.0, r.1@.1),
{
    let m = chars_of(meta);
    let mut v: Vec<Field> = Vec::new();
    assert(fields_view(v@) =~= Seq::empty());
    add_field(&mut v, "Title", element_text_exec(&m, "<dc:title", "</dc:title>"));
    add_field(&mut v, "Subject", element_text_exec(&m, "<dc:subject", "</dc:subject>"));
    add_field(
        &mut v,
        "Author",
        element_text_exec(&m, "<meta:initial-creator", "</meta:initial-creator>"),
    );
    add_field(&mut v, "Last modified by", element_text_exec(&m, "<dc:creator", "</dc:creator>"));
    let (created, co) = date_exec(
        element_text_exec(&m, "<meta:creation-date", "</meta:creation-date>"),
        zone,
    );
    add_field(&mut v, "Created", created);
    let (modified, mo) = date_exec(element_text_exec(&m, "<dc:date", "</dc:date>"), zone);
    add_field(&mut v, "Modified", modified);
    add_field(
        &mut v,
        "Application",
        element_text_exec(&m, "<meta:generator", "</meta:generator>"),
    );
    add_odf_stats(&mut v, f, &m);
    (v, Ghost((co@, mo@)))
}

// ---------------------------------------------------------------------------
// Pages documents
// ---------------------------------------------------------------------------

/// The text of the element delimited by `open` and `close` that first follows
/// the property-list key `key`, trimmed, if present and not blank.
pub open spec fn plist_value(xml: Seq<char>, key: Seq<char>, open: Seq<char>, close: Seq<char>) -> Option<
    Seq<char>,
> {
    match find_from(xml, key, 0) {
        Some(k) => match enclosed_span(xml, open, close, k + key.len()) {
            Some((a, b)) => nonblank_slice(xml, a, b),
            None => None,
        },
        None => None,
    }
}

fn plist_value_exec(xml: &Vec<char>, key: &str, open: &str, close: &str) -> (r: Option<String>)
    ensures
        opt_view(r) == plist_value(xml@, key@, open@, close@),
{
    let k = chars_of(key);
    let o = chars_of(open);
    let c = chars_of(close);
    let _n = xml.len();
    match find(xml, &k, 0) {
        Some(at) => {
            proof {
                lemma_find_from_bounds(xml@, k@, 0);
            }
            match enclosed(xml, &o, &c, at + k.len()) {
                Some((a, b)) => nonblank_slice_exec(xml, a, b),
                None => None,
            }
        },
        None => None,
    }
}

/// The items joined with `sep` between them.
pub open spec fn join(items: Seq<Seq<char>>, sep: Seq<char>) -> Seq<char>
    decreases items.len(),
{
    if items.len() == 0 {
        Seq::empty()
    } else if items.len() == 1 {
        items[0]
    } else {
        join(items.drop_last(), sep) + sep + items.last()
    }
}

fn join_exec(items: &Vec<String>, sep: &str) -> (r: String)
    ensures
        r@ == join(string_seq_view(items@), sep@),
{
    let ghost all = string_seq_view(items@);
    if items.len() == 0 {
        return String::new();
    }
    let mut out = items[0].clone();
    assert(all.take(1) =~= seq![all[0]]);
    let mut i: usize = 1;
    while i < items.len()
        invariant
            1 <= i <= items@.len(),
            all == string_seq_view(items@),
            out@ == join(all.take(i as int), sep@),
        decreases items@.len() - i,
    {
        let with_sep = concatenate(out.as_str(), sep);
        out = concatenate(with_sep.as_str(), items[i].as_str());
        assert(all.take(i + 1).drop_last() =~= all.take(i as int));
        assert(all.take(i + 1).last() == items@[i as int]@);
        i = i + 1;
    }
    assert(all.take(i as int) =~= all);
    out
}

/// The authors listed under `kMDItemAuthors`, joined with commas.
pub open spec fn plist_authors(xml: Seq<char>) -> Option<Seq<char>> {
    let key = "<key>kMDItemAuthors</key>"@;
    match find_from(xml, key, 0) {
        Some(k) => match enclosed_span(xml, "<array>"@, "</array>"@, k + key.len()) {
            Some((a, b)) => {
                let items = all_enclosed(xml.subrange(a, b), "<string>"@, "</string>"@, 0);
                if items.len() > 0 {
                    Some(join(items, ", "@))
                } else {
                    None
                }
            },
            None => None,
        },
        None => None,
    }
}

fn plist_authors_exec(xml: &Vec<char>) -> (r: Option<String>)
    ensures
        opt_view(r) == plist_authors(xml@),
{
    let key = chars_of("<key>kMDItemAuthors</key>");
    let arr_open = chars_of("<array>");
    let arr_close = chars_of("</array>");
    let s_open = chars_of("<string>");
    let s_close = chars_of("</string>");
    proof {
        reveal_strlit("</string>");
    }
    let _n = xml.len();
    let k = match find(xml, &key, 0) {
        Some(k) => k,
        None => {
            return None;
        },
    };
    proof {
        lemma_find_from_bounds(xml@, key@, 0);
    }
    let (a, b) = match enclosed(xml, &arr_open, &arr_close, k + key.len()) {
        Some(span) => span,
        None => {
            return None;
        },
    };
    let body = slice_chars(xml, a, b);
    let items = all_enclosed_exec(&body, &s_open, &s_close);
    if items.len() > 0 {
        Some(join_exec(&items, ", "))
    } else {
        None
    }
}

/// Some entry of the archive is in the `Index/` folder of an iWork package.
pub open spec fn has_iwork_index(names: Seq<Seq<char>>) -> bool {
    exists|i: int| 0 <= i < names.len() && matches_at(#[trigger] names[i], "Index/"@, 0)
}

fn has_iwork_index_exec(names: &Vec<String>) -> (r: bool)
    ensures
        r == has_iwork_index(string_seq_view(names@)),
{
    let p = chars_of("Index/");
    let ghost all = string_seq_view(names@);
    let mut i: usize = 0;
    while i < names.len()
        invariant
            i <= names@.len(),
            all == string_seq_view(names@),
            p@ == "Index/"@,
            forall|k: int| 0 <= k < i ==> !matches_at(#[trigger] all[k], "Index/"@, 0),
        decreases names@.len() - i,
    {
        let c = chars_of(names[i].as_str());
        assert(all[i as int] == c@);
        if matches_at_exec(&c, &p, 0) {
            return true;
        }
        i = i + 1;
    }
    false
}

/// The fields of a Pages document: whether it is an iWork package, and the
/// properties of `Metadata/Properties.plist`, its dates shown at the given
/// offsets.
pub open spec fn pages_fields(
    plist: Seq<char>,
    names: Seq<Seq<char>>,
    created_off: int,
    modified_off: int,
) -> Seq<(Seq<char>, Seq<char>)> {
    let acc = with_field(
        Seq::empty(),
        "Variant"@,
        if has_iwork_index(names) {
            Some("iWork package"@)
        } else {
            None
        },
    );
    let acc = with_field(
        acc,
        "Title"@,
        plist_value(plist, "<key>document-title</key>"@, "<string>"@, "</string>"@),
    );
    let acc = with_field(acc, "Author"@, plist_authors(plist));
    let acc = with_field(
        acc,
        "Created"@,
        date_of(
            plist_value(plist, "<key>creationDate</key>"@, "<date>"@, "</date>"@),
            created_off,
        ),
    );
    let acc = with_field(
        acc,
        "Modified"@,
        date_of(
            plist_value(plist, "<key>modificationDate</key>"@, "<date>"@, "</date>"@),
            modified_off,
        ),
    );
    with_field(acc, "Application"@, Some("Apple Pages"@))
}

fn pages_fields_exec(plist: &str, names: &Vec<String>, zone: Option<i32>) -> (r: (
    Vec<Field>,
    Ghost<(int, int)>,
))
    requires
        zone matches Some(o) ==> offset_ok(o as int),
    ensures
        offset_fits(zone, r.1@.0),
        offset_fits(zone, r.1@.1),
        fields_view(r.0@) == pages_fields(plist@, string_seq_view(names@), r.1@.0, r.1@.1),
{
    let x = chars_of(plist);
    let mut v: Vec<Field> = Vec::new();
    assert(fields_view(v@) =~= Seq::empty());
    let variant = if has_iwork_index_exec(names) {
        Some(String::from_str("iWork package"))
    } else {
        None
    };
    add_field(&mut v, "Variant", variant);
    add_field(
        &mut v,
        "Title",
        plist_value_exec(&x, "<key>document-title</key>", "<string>", "</string>"),
    );
    add_field(&mut v, "Author", plist_authors_exec(&x));
    let (created, co) = date_exec(
        plist_value_exec(&x, "<key>creationDate</key>", "<date>", "</date>"),
        zone,
    );
    add_field(&mut v, "Created", created);
    let (modified, mo) = date_exec(
        plist_value_exec(&x, "<key>modificationDate</key>", "<date>", "</date>"),
        zone,
    );
    add_field(&mut v, "Modified", modified);
    add_field(&mut v, "Application", Some(String::from_str("Apple Pages")));
    (v, Ghost((co@, mo@)))
}

// ---------------------------------------------------------------------------
// Legacy Word documents
// ---------------------------------------------------------------------------

/// A text property, trimmed, if it is not blank.
pub open spec fn doc_text(v: Option<Seq<char>>) -> Option<Seq<char>> {
    match v {
        Some(t) => if trim_spec(t).len() > 0 {
            Some(trim_spec(t))
        } else {
            None
        },
        None => None,
    }
}

/// A count property, its digits grouped by thousands.
pub open spec fn doc_count(v: Option<nat>) -> Option<Seq<char>> {
    match v {
        Some(n) => Some(count_text(decimal(n))),
        None => None,
    }
}

/// The instant of a `FILETIME` (100-nanosecond intervals since
/// 1601-01-01T00:00 UTC), in whole seconds after 0000-01-01T00:00 UTC.
pub open spec fn filetime_instant(ft: nat) -> int {
    (ft / 10_000_000 + 50_522_745_600) as int
}

/// A time property, as the local wall time at that instant, where the
/// local time zone is then `off` seconds ahead of UTC.
pub open spec fn doc_time(v: Option<nat>, off: int) -> Option<Seq<char>> {
    match v {
        Some(ft) => Some(clock_text(filetime_instant(ft) + off, off)),
        None => None,
    }
}

/// The fields of a legacy `.doc` file, from the summary information
/// property set `st` of its compound file: title (property 2), subject
/// (3), author (4), last author (8), creation and last save times (12 and
/// 13) shown at the given offsets, application (18), then the page, word
/// and character counts (14, 15 and 16).
pub open spec fn doc_fields(st: Seq<u8>, created_off: int, modified_off: int) -> Seq<
    (Seq<char>, Seq<char>),
> {
    let acc = with_field(Seq::empty(), "Title"@, doc_text(property_text(st, 2)));
    let acc = with_field(acc, "Subject"@, doc_text(property_text(st, 3)));
    let acc = with_field(acc, "Author"@, doc_text(property_text(st, 4)));
    let acc = with_field(acc, "Last modified by"@, doc_text(property_text(st, 8)));
    let acc = with_field(acc, "Created"@, doc_time(property_filetime(st, 12), created_off));
    let acc = with_field(acc, "Modified"@, doc_time(property_filetime(st, 13), modified_off));
    let acc = with_field(acc, "Application"@, doc_text(property_text(st, 18)));
    let acc = with_field(acc, "Pages"@, doc_count(property_count(st, 14)));
    let acc = with_field(acc, "Words"@, doc_count(property_count(st, 15)));
    with_field(acc, "Characters"@, doc_count(property_count(st, 16)))
}

fn doc_text_exec(v: Option<String>) -> (r: Option<String>)
    ensures
        opt_view(r) == doc_text(opt_view(v)),
{
    match v {
        Some(t) => {
            let trimmed = trim(t.as_str());
            if char_count(trimmed.as_str()) > 0 {
                Some(trimmed)
            } else {
                None
            }
        },
        None => None,
    }
}

fn doc_count_exec(v: Option<u64>) -> (r: Option<String>)
    requires
        v matches Some(n) ==> n < 0x1_0000_0000,
    ensures
        opt_view(r) == doc_count(match v {
            Some(n) => Some(n as nat),
            None => None,
        }),
{
    match v {
        Some(n) => {
            let d = decimal_chars(n as usize);
            let ds = string_from_range(&d, 0, d.len());
            assert(d@.subrange(0, d@.len() as int) =~= d@);
            Some(count_text_exec(ds.as_str()))
        },
        None => None,
    }
}

fn doc_time_exec(v: Option<u64>, zone: Option<i32>) -> (r: (Option<String>, Ghost<int>))
    requires
        zone matches Some(o) ==> offset_ok(o as int),
    ensures
        offset_fits(zone, r.1@),
        opt_view(r.0) == doc_time(
            match v {
                Some(n) => Some(n as nat),
                None => None,
            },
            r.1@,
        ),
{
    let given: Ghost<int> = Ghost(
        match zone {
            Some(o) => o as int,
            None => 0,
        },
    );
    match v {
        Some(ft) => {
            let t = ft / 10_000_000 + 50_522_745_600;
            let off = match zone {
                Some(o) => o,
                None => local_offset_at(t),
            };
            let local = if off < 0 {
                t - ((-off) as u64)
            } else {
                t + (off as u64)
            };
            (Some(clock_text_exec(local, off)), Ghost(off as int))
        },
        None => (None, given),
    }
}

fn doc_fields_exec(st: &Vec<u8>, zone: Option<i32>) -> (r: (Vec<Field>, Ghost<(int, int)>))
    requires
        zone matches Some(o) ==> offset_ok(o as int),
    ensures
        offset_fits(zone, r.1@.0),
        offset_fits(zone, r.1@.1),
        fields_view(r.0@) == doc_fields(st@, r.1@.0, r.1@.1),
{
    let mut v: Vec<Field> = Vec::new();
    assert(fields_view(v@) =~= Seq::empty());
    add_field(&mut v, "Title", doc_text_exec(property_text_exec(st, 2)));
    add_field(&mut v, "Subject", doc_text_exec(property_text_exec(st, 3)));
    add_field(&mut v, "Author", doc_text_exec(property_text_exec(st, 4)));
    add_field(&mut v, "Last modified by", doc_text_exec(property_text_exec(st, 8)));
    let (created, co) = doc_time_exec(property_filetime_exec(st, 12), zone);
    add_field(&mut v, "Created", created);
    let (modified, mo) = doc_time_exec(property_filetime_exec(st, 13), zone);
    add_field(&mut v, "Modified", modified);
    add_field(&mut v, "Application", doc_text_exec(property_text_exec(st, 18)));
    add_field(&mut v, "Pages", doc_count_exec(property_count_exec(st, 14)));
    add_field(&mut v, "Words", doc_count_exec(property_count_exec(st, 15)));
    add_field(&mut v, "Characters", doc_count_exec(property_count_exec(st, 16)));
    (v, Ghost((co@, mo@)))
}

/// The preview of a legacy `.doc` file whose compound file holds the
/// summary information property set `st`, where the local time zone is
/// `utc_offset` seconds ahead of UTC.
pub fn doc_preview(st: &Vec<u8>, utc_offset: i32) -> (r: Preview)
    requires
        offset_ok(utc_offset as int),
    ensures
        r@ == (PreviewView {
            kind: PreviewKind::Document,
            detail: Some(detail_of(DocFormat::Doc)),
            lines: lines_of(doc_fields(st@, utc_offset as int, utc_offset as int)),
        }),
{
    let (fields, _offs) = doc_fields_exec(st, Some(utc_offset));
    let lines = lines_exec(&fields);
    Preview { kind: PreviewKind::Document, detail: Some(detail_text(DocFormat::Doc)), lines }
}

// ---------------------------------------------------------------------------
// The preview
// ---------------------------------------------------------------------------

#[derive(Clone, Copy, Debug, PartialEq, Eq)]
pub enum PreviewKind {
    /// A document whose metadata is shown.
    Document,
    /// A file this previewer does not read.
    Unsupported,
}

/// A line of the preview, made of styled spans of text.
pub struct PreviewLine {
    pub spans: Vec<String>,
}

impl View for PreviewLine {
    type V = Seq<Seq<char>>;

    open spec fn view(&self) -> Seq<Seq<char>> {
        string_seq_view(self.spans@)
    }
}

pub struct Preview {
    pub kind: PreviewKind,
    /// What the file is, shown beside the preview.
    pub detail: Option<String>,
    pub lines: Vec<PreviewLine>,
}

pub struct PreviewView {
    pub kind: PreviewKind,
    pub detail: Option<Seq<char>>,
    pub lines: Seq<Seq<Seq<char>>>,
}

impl View for Preview {
    type V = PreviewView;

    open spec fn view(&self) -> PreviewView {
        PreviewView {
            kind: self.kind,
            detail: opt_view(self.detail),
            lines: self.lines@.map_values(|l: PreviewLine| l@),
        }
    }
}

/// A file to preview: its name and its contents.
pub struct FileEntry {
    pub name: String,
    pub bytes: Vec<u8>,
}

/// The line showing a field: its label, a colon, and its value.
pub open spec fn field_line(f: (Seq<char>, Seq<char>)) -> Seq<Seq<char>> {
    seq![f.0 + ": "@, f.1]
}

/// The lines showing the fields: a "Details" heading and one line per field,
/// or a single line saying that there is no metadata.
pub open spec fn lines_of(fields: Seq<(Seq<char>, Seq<char>)>) -> Seq<Seq<Seq<char>>> {
    if fields.len() == 0 {
        seq![seq!["No document metadata available"@]]
    } else {
        seq![seq!["Details"@]] + fields.map_values(|f: (Seq<char>, Seq<char>)| field_line(f))
    }
}

pub open spec fn lines_view(v: Seq<PreviewLine>) -> Seq<Seq<Seq<char>>> {
    v.map_values(|l: PreviewLine| l@)
}

fn text_line(text: &str) -> (l: PreviewLine)
    ensures
        l@ == seq![text@],
{
    let mut spans: Vec<String> = Vec::new();
    spans.push(String::from_str(text));
    assert(string_seq_view(spans@) =~= seq![text@]);
    PreviewLine { spans }
}

fn lines_exec(fields: &Vec<Field>) -> (r: Vec<PreviewLine>)
    ensures
        lines_view(r@) == lines_of(fields_view(fields@)),
{
    let ghost fv = fields_view(fields@);
    let mut lines: Vec<PreviewLine> = Vec::new();
    if fields.len() == 0 {
        lines.push(text_line("No document metadata available"));
        assert(lines_view(lines@) =~= lines_of(fv));
        return lines;
    }
    lines.push(text_line("Details"));
    let mut i: usize = 0;
    while i < fields.len()
        invariant
            i <= fields@.len(),
            fv == fields_view(fields@),
            lines_view(lines@) == seq![seq!["Details"@]] + fv.take(i as int).map_values(
                |f: (Seq<char>, Seq<char>)| field_line(f),
            ),
        decreases fields@.len() - i,
    {
        let mut spans: Vec<String> = Vec::new();
        spans.push(concatenate(fields[i].label.as_str(), ": "));
        spans.push(fields[i].value.clone());
        let line = PreviewLine { spans };
        assert(line@ =~= field_line(fv[i as int]));
        let ghost before = lines@;
        lines.push(line);
        assert(lines_view(lines@) =~= lines_view(before).push(line@));
        assert(fv.take(i + 1).map_values(|f: (Seq<char>, Seq<char>)| field_line(f)) =~= fv.take(
            i as int,
        ).map_values(|f: (Seq<char>, Seq<char>)| field_line(f)).push(field_line(fv[i as int])));
        i = i + 1;
    }
    assert(fv.take(i as int) =~= fv);
    lines
}

/// The metadata fields of a document of format `f`, from the names of its
/// archive's entries and the texts of its metadata entries: `primary` is
/// `docProps/core.xml`, `meta.xml` or `Metadata/Properties.plist`, and
/// `secondary` is `docProps/app.xml` (used by Office Open XML formats only);
/// the creation and modification dates shown at the given offsets. A
/// legacy `.doc` file has no archive: its fields are `doc_fields`.
pub open spec fn document_fields(
    f: DocFormat,
    names: Seq<Seq<char>>,
    primary: Seq<char>,
    secondary: Seq<char>,
    created_off: int,
    modified_off: int,
) -> Seq<(Seq<char>, Seq<char>)> {
    match f {
        DocFormat::Docx | DocFormat::Xlsx | DocFormat::Pptx => ooxml_fields(
            f,
            primary,
            secondary,
            names,
            created_off,
            modified_off,
        ),
        DocFormat::Odt | DocFormat::Ods | DocFormat::Odp => odf_fields(
            f,
            primary,
            created_off,
            modified_off,
        ),
        DocFormat::Pages => pages_fields(primary, names, created_off, modified_off),
        DocFormat::Doc => Seq::empty(),
    }
}

pub open spec fn document_preview_spec(
    f: DocFormat,
    names: Seq<Seq<char>>,
    primary: Seq<char>,
    secondary: Seq<char>,
    created_off: int,
    modified_off: int,
) -> PreviewView {
    PreviewView {
        kind: PreviewKind::Document,
        detail: Some(detail_of(f)),
        lines: lines_of(document_fields(f, names, primary, secondary, created_off, modified_off)),
    }
}

fn document_preview_in(
    f: DocFormat,
    names: &Vec<String>,
    primary: &str,
    secondary: &str,
    zone: Option<i32>,
) -> (r: (Preview, Ghost<(int, int)>))
    requires
        zone matches Some(o) ==> offset_ok(o as int),
    ensures
        offset_fits(zone, r.1@.0),
        offset_fits(zone, r.1@.1),
        r.0@ == document_preview_spec(
            f,
            string_seq_view(names@),
            primary@,
            secondary@,
            r.1@.0,
            r.1@.1,
        ),
{
    let (fields, offs) = match f {
        DocFormat::Docx | DocFormat::Xlsx | DocFormat::Pptx => ooxml_fields_exec(
            f,
            primary,
            secondary,
            names,
            zone,
        ),
        DocFormat::Odt | DocFormat::Ods | DocFormat::Odp => odf_fields_exec(f, primary, zone),
        DocFormat::Pages => pages_fields_exec(primary, names, zone),
        DocFormat::Doc => {
            let none: Vec<Field> = Vec::new();
            assert(fields_view(none@) =~= Seq::empty());
            let ghost o: int = match zone {
                Some(z) => z as int,
                None => 0,
            };
            (none, Ghost((o, o)))
        },
    };
    let lines = lines_exec(&fields);
    (Preview { kind: PreviewKind::Document, detail: Some(detail_text(f)), lines }, offs)
}

/// The preview of a document of format `f` whose archive has the entries
/// `names` and the metadata texts `primary` and `secondary`, where the
/// local time zone is `utc_offset` seconds ahead of UTC.
pub fn document_preview(
    f: DocFormat,
    names: &Vec<String>,
    primary: &str,
    secondary: &str,
    utc_offset: i32,
) -> (r: Preview)
    requires
        offset_ok(utc_offset as int),
    ensures
        r@ == document_preview_spec(
            f,
            string_seq_view(names@),
            primary@,
            secondary@,
            utc_offset as int,
            utc_offset as int,
        ),
{
    let (r, _offs) = document_preview_in(f, names, primary, secondary, Some(utc_offset));
    r
}

/// The archive entry that holds a format's main metadata; for a legacy
/// `.doc` file, the stream of its compound file that does.
pub open spec fn primary_entry(f: DocFormat) -> Seq<char> {
    match f {
        DocFormat::Docx | DocFormat::Xlsx | DocFormat::Pptx => "docProps/core.xml"@,
        DocFormat::Odt | DocFormat::Ods | DocFormat::Odp => "meta.xml"@,
        DocFormat::Pages => "Metadata/Properties.plist"@,
        DocFormat::Doc => "/\u{5}SummaryInformation"@,
    }
}

fn primary_entry_name(f: DocFormat) -> (r: &'static str)
    ensures
        r@ == primary_entry(f),
{
    match f {
        DocFormat::Docx | DocFormat::Xlsx | DocFormat::Pptx => "docProps/core.xml",
        DocFormat::Odt | DocFormat::Ods | DocFormat::Odp => "meta.xml",
        DocFormat::Pages => "Metadata/Properties.plist",
        DocFormat::Doc => "/\u{5}SummaryInformation",
    }
}

pub open spec fn text_or_empty(t: Option<Seq<char>>) -> Seq<char> {
    match t {
        Some(s) => s,
        None => Seq::empty(),
    }
}

fn text_or_empty_exec(t: Option<String>) -> (r: String)
    ensures
        r@ == text_or_empty(opt_view(t)),
{
    match t {
        Some(s) => s,
        None => String::new(),
    }
}

/// The preview of a file: for a document format known by its extension, the
/// metadata read from its archive, or for a legacy `.doc` file from its
/// compound file (no metadata when that cannot be read), its creation and modification dates shown at the given offsets;
/// nothing for any other file.
pub open spec fn preview_spec(name: Seq<char>, bytes: Seq<u8>, created_off: int, modified_off: int) -> PreviewView {
    match format_of(name) {
        None => PreviewView { kind: PreviewKind::Unsupported, detail: None, lines: Seq::empty() },
        Some(DocFormat::Doc) => PreviewView {
            kind: PreviewKind::Document,
            detail: Some(detail_of(DocFormat::Doc)),
            lines: lines_of(
                match compound_stream_of(bytes, primary_entry(DocFormat::Doc)) {
                    Some(st) => doc_fields(st, created_off, modified_off),
                    None => Seq::empty(),
                },
            ),
        },
        Some(f) => match zip_names_of(bytes) {
            None => PreviewView {
                kind: PreviewKind::Document,
                detail: Some(detail_of(f)),
                lines: lines_of(Seq::empty()),
            },
            Some(names) => document_preview_spec(
                f,
                names,
                text_or_empty(zip_text_of(bytes, primary_entry(f))),
                if is_ooxml(f) {
                    text_or_empty(zip_text_of(bytes, "docProps/app.xml"@))
                } else {
                    Seq::empty()
                },
                created_off,
                modified_off,
            ),
        },
    }
}

/// The preview of a file, its dates shown in the local time zone: at the
/// offset from UTC that the machine's time zone has at each date.
pub fn build_preview(entry: &FileEntry) -> (r: Preview)
    ensures
        exists|created_off: int, modified_off: int|
            offset_ok(created_off) && offset_ok(modified_off) && r@ == preview_spec(
                entry.name@,
                entry.bytes@,
                created_off,
                modified_off,
            ),
{
    let f = match format_of_name(entry.name.as_str()) {
        Some(f) => f,
        None => {
            let lines: Vec<PreviewLine> = Vec::new();
            assert(lines_view(lines@) =~= Seq::empty());
            let r = Preview { kind: PreviewKind::Unsupported, detail: None, lines };
            assert(r@ == preview_spec(entry.name@, entry.bytes@, 0, 0));
            return r;
        },
    };
    let bytes = entry.bytes.as_slice();
    if let DocFormat::Doc = f {
        let (fields, offs) = match compound_stream(bytes, primary_entry_name(f)) {
            Some(st) => doc_fields_exec(&st, None),
            None => {
                let none: Vec<Field> = Vec::new();
                assert(fields_view(none@) =~= Seq::empty());
                (none, Ghost((0, 0)))
            },
        };
        let lines = lines_exec(&fields);
        let r = Preview { kind: PreviewKind::Document, detail: Some(detail_text(f)), lines };
        assert(r@ == preview_spec(entry.name@, entry.bytes@, offs@.0, offs@.1));
        return r;
    }
    let names = match zip_entry_names(bytes) {
        Some(n) => n,
        None => {
            let empty: Vec<Field> = Vec::new();
            assert(fields_view(empty@) =~= Seq::empty());
            let lines = lines_exec(&empty);
            let r = Preview { kind: PreviewKind::Document, detail: Some(detail_text(f)), lines };
            assert(r@ == preview_spec(entry.name@, entry.bytes@, 0, 0));
            return r;
        },
    };
    let primary = text_or_empty_exec(zip_entry_text(bytes, primary_entry_name(f)));
    let secondary = match f {
        DocFormat::Docx | DocFormat::Xlsx | DocFormat::Pptx => text_or_empty_exec(
            zip_entry_text(bytes, "docProps/app.xml"),
        ),
        _ => String::new(),
    };
    let (r, offs) = document_preview_in(f, &names, primary.as_str(), secondary.as_str(), None);
    assert(r@ == preview_spec(entry.name@, entry.bytes@, offs@.0, offs@.1));
    r
}

} // verus!

verus! {

// ---------------------------------------------------------------------------
// Laws of the preview
// ---------------------------------------------------------------------------

/// When there is metadata, the preview starts with a single "Details"
/// heading followed by one line per field; otherwise it is the one line
/// saying that there is no metadata.
pub proof fn law_details_heading_once(fields: Seq<(Seq<char>, Seq<char>)>)
    ensures
        fields.len() == 0 ==> lines_of(fields) == seq![seq!["No document metadata available"@]],
        fields.len() > 0 ==> {
            &&& lines_of(fields).len() == fields.len() + 1
            &&& lines_of(fields)[0] == seq!["Details"@]
            &&& forall|i: int|
                1 <= i < lines_of(fields).len() ==> #[trigger] lines_of(fields)[i] != seq![
                    "Details"@,
                ] && lines_of(fields)[i] == field_line(fields[i - 1])
            &&& lines_of(fields) != seq![seq!["No document metadata available"@]]
        },
{
    if fields.len() > 0 {
        let lines = lines_of(fields);
        assert forall|i: int| 1 <= i < lines.len() implies #[trigger] lines[i] != seq!["Details"@]
            && lines[i] == field_line(fields[i - 1]) by {
            assert(lines[i] == field_line(fields[i - 1]));
            assert(lines[i].len() == 2);
        }
        assert(lines.len() != 1);
    }
}

/// A date and time in ISO 8601 form without a zone is shown with its date
/// kept and a space in place of the `T`, never as it was written; one with
/// a zone is shown with the label of the local offset at its end.
pub proof fn law_readable_date_rewrites_timestamps(s: Seq<char>, off: int)
    requires
        s.len() >= 16,
        s[4] == '-',
        s[7] == '-',
        s[10] == 'T',
        s[13] == ':',
    ensures
        !is_zoned_time(s) ==> {
            &&& readable_date(s, off) != s
            &&& readable_date(s, off).take(10) == s.take(10)
            &&& readable_date(s, off)[10] == ' '
        },
        is_zoned_time(s) ==> readable_date(s, off).len() >= offset_label(off).len()
            && readable_date(s, off).skip(
            readable_date(s, off).len() - offset_label(off).len(),
        ) == offset_label(off),
{
    if is_zoned_time(s) {
        let t = readable_date(s, off);
        let l = offset_label(off);
        assert(t.skip(t.len() - l.len()) =~= l);
    } else {
        assert(readable_date(s, off)[10] == ' ');
        assert(readable_date(s, off).take(10) =~= s.take(10));
    }
}

/// A date and time with a zone is shown as it was written, its date, a
/// space, then its hours and minutes, followed by the label of its offset,
/// wherever the local time zone has the offset it was written with.
pub proof fn law_shown_as_written_in_its_own_zone(s: Seq<char>)
    requires
        is_zoned_time(s),
    ensures
        readable_date(s, zone_offset(s.skip(19))->0) == s.take(10) + seq![' '] + s.subrange(11, 16)
            + seq![' '] + offset_label(zone_offset(s.skip(19))->0),
{
    law_written_time_in_its_own_zone(s);
}

/// The value read for a property-list key is the element that follows the
/// key's first occurrence, after any whitespace: if the text is `pre`, the
/// key, whitespace, then `open`, `v` and `close`, where the key first occurs
/// right after `pre` and `v` holds no `close`, the value is `v` trimmed (none
/// if it is blank), whatever elements `pre` holds.
pub proof fn law_plist_value_follows_its_key(
    pre: Seq<char>,
    key: Seq<char>,
    w: Seq<char>,
    open: Seq<char>,
    v: Seq<char>,
    close: Seq<char>,
    post: Seq<char>,
)
    requires
        key.len() > 0,
        open.len() > 0,
        close.len() > 0,
        !is_space(open[0]),
        forall|i: int| 0 <= i < w.len() ==> is_space(#[trigger] w[i]),
        forall|i: int| 0 <= i < pre.len() ==> !matches_at(pre + key, key, i),
        forall|i: int| 0 <= i < v.len() ==> !matches_at(v + close, close, i),
    ensures
        plist_value(pre + key + w + open + v + close + post, key, open, close) == nonblank_text(v),
{
    let xml = pre + key + w + open + v + close + post;
    let k = pre.len() as int;
    let kl = key.len() as int;
    let q = k + kl + w.len();
    let a = q + open.len();
    let b = a + v.len();
    assert(xml.subrange(k, k + kl) =~= key);
    assert forall|j: int| 0 <= j < k implies !matches_at(xml, key, j) by {
        assert(!matches_at(pre + key, key, j));
        assert(xml.subrange(j, j + kl) =~= (pre + key).subrange(j, j + kl));
    }
    lemma_find_from_first(xml, key, 0, k);
    assert(xml.subrange(q, a) =~= open);
    assert forall|j: int| k + kl <= j < q implies !matches_at(xml, open, j) by {
        assert(xml[j] == w[j - k - kl]);
        assert(xml.subrange(j, j + open.len())[0] == xml[j]);
    }
    lemma_find_from_first(xml, open, k + kl, q);
    assert(xml.subrange(b, b + close.len()) =~= close);
    assert forall|j: int| a <= j < b implies !matches_at(xml, close, j) by {
        assert(!matches_at(v + close, close, j - a));
        assert(xml.subrange(j, j + close.len()) =~= (v + close).subrange(j - a, j - a + close.len()));
    }
    lemma_find_from_first(xml, close, a, b);
    assert(xml.subrange(a, b) =~= v);
}

proof fn lemma_last_dot_at(s: Seq<char>, i: int, d: int)
    requires
        0 <= d < i <= s.len(),
        s[d] == '.',
        forall|j: int| d < j < i ==> s[j] != '.',
    ensures
        last_dot(s, i) == Some(d),
    decreases i - d,
{
    if i - 1 > d {
        lemma_last_dot_at(s, i - 1, d);
    }
}

/// The extension of a name is what follows its last dot, when something
/// comes before that dot.
pub proof fn law_extension_follows_the_last_dot(base: Seq<char>, ext: Seq<char>)
    requires
        base.len() > 0,
        forall|j: int| 0 <= j < ext.len() ==> ext[j] != '.',
    ensures
        extension(base + seq!['.'] + ext) == Some(ext),
{
    let name = base + seq!['.'] + ext;
    let d = base.len() as int;
    assert forall|j: int| d < j < name.len() implies name[j] != '.' by {
        assert(name[j] == ext[j - d - 1]);
    }
    lemma_last_dot_at(name, name.len() as int, d);
    assert(name.skip(d + 1) =~= ext);
}

/// A file's format is known by its extension alone, ignoring ASCII case:
/// `.doc` is a legacy Word document, `.docx` a Word document, `.xlsx` a
/// spreadsheet, `.pptx` a presentation, `.odt`, `.ods` and `.odp` their
/// OpenDocument kinds, and `.pages` a Pages document; nothing else is a
/// document.
pub proof fn law_format_by_extension(base: Seq<char>, ext: Seq<char>)
    requires
        base.len() > 0,
        forall|j: int| 0 <= j < ext.len() ==> ext[j] != '.',
    ensures
        ({
            let lower = ext.map_values(|c: char| ascii_fold(c));
            let f = format_of(base + seq!['.'] + ext);
            &&& lower =~= seq!['d' as u32, 'o' as u32, 'c' as u32] ==> f == Some(DocFormat::Doc)
            &&& lower =~= seq!['d' as u32, 'o' as u32, 'c' as u32, 'x' as u32] ==> f == Some(
                DocFormat::Docx,
            )
            &&& lower =~= seq!['x' as u32, 'l' as u32, 's' as u32, 'x' as u32] ==> f == Some(
                DocFormat::Xlsx,
            )
            &&& lower =~= seq!['p' as u32, 'p' as u32, 't' as u32, 'x' as u32] ==> f == Some(
                DocFormat::Pptx,
            )
            &&& lower =~= seq!['o' as u32, 'd' as u32, 't' as u32] ==> f == Some(DocFormat::Odt)
            &&& lower =~= seq!['o' as u32, 'd' as u32, 's' as u32] ==> f == Some(DocFormat::Ods)
            &&& lower =~= seq!['o' as u32, 'd' as u32, 'p' as u32] ==> f == Some(DocFormat::Odp)
            &&& lower =~= seq!['p' as u32, 'a' as u32, 'g' as u32, 'e' as u32, 's' as u32] ==> f
                == Some(DocFormat::Pages)
            &&& f == format_of(seq!['x', '.'] + ext)
        }),
{
    law_extension_follows_the_last_dot(base, ext);
    law_extension_follows_the_last_dot(seq!['x'], ext);
    assert(seq!['x'] + seq!['.'] + ext =~= seq!['x', '.'] + ext);
    reveal_strlit("doc");
    reveal_strlit("docx");
    reveal_strlit("xlsx");
    reveal_strlit("pptx");
    reveal_strlit("odt");
    reveal_strlit("ods");
    reveal_strlit("odp");
    reveal_strlit("pages");
    let lower = ext.map_values(|c: char| ascii_fold(c));
    assert(forall|j: int| 0 <= j < ext.len() ==> lower[j] == ascii_fold(ext[j]));
}

/// A `FILETIME` counts 100-nanosecond intervals from 1601-01-01T00:00 UTC:
/// its instant is that day's start plus its whole seconds.
pub proof fn law_filetime_counts_from_1601(ft: nat)
    ensures
        filetime_instant(ft) == day_number(1601, 1, 1) * 86400 + ft / 10_000_000,
{
    law_epochs();
}

/// Two texts that name the same instant are shown alike.
pub proof fn law_same_instant_same_text(a: Seq<char>, b: Seq<char>, off: int)
    requires
        is_zoned_time(a),
        is_zoned_time(b),
        zoned_instant(a) == zoned_instant(b),
    ensures
        readable_date(a, off) == readable_date(b, off),
{
}

} // verus!
