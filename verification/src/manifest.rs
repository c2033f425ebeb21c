//! Manifests: the file that declares a workspace's projects, and what it
//! declares.

use crate::json::{
    json_document, member, member_from, parse_document, syntax_error_text, Json, JsonView, Member,
};
use crate::text::{is_valid_path, join, join_path, valid_path};
use vstd::prelude::*;

verus! {

/// One project as a manifest declares it.
#[derive(Debug, PartialEq, Eq)]
pub struct ProjectRecord {
    /// The project's directory, relative to the manifest's.
    pub path: String,
    /// Where the project is fetched from, if it is meant to be fetched.
    pub repo: Option<String>,
    pub tags: Vec<String>,
}

/// The value of a [`ProjectRecord`].
pub ghost struct ProjectRecordView {
    pub path: Seq<char>,
    pub repo: Option<Seq<char>>,
    pub tags: Seq<Seq<char>>,
}

impl View for ProjectRecord {
    type V = ProjectRecordView;

    open spec fn view(&self) -> ProjectRecordView {
        ProjectRecordView {
            path: self.path@,
            repo: self.repo.deep_view(),
            tags: self.tags.deep_view(),
        }
    }
}

impl DeepView for ProjectRecord {
    type V = ProjectRecordView;

    open spec fn deep_view(&self) -> ProjectRecordView {
        self@
    }
}

impl ProjectRecordView {
    /// The invariant of a record: its path names a place below the
    /// manifest's directory.
    pub open spec fn valid(self) -> bool {
        valid_path(self.path)
    }
}

/// Why a manifest could not be turned into records.
#[derive(Clone, Debug, PartialEq, Eq)]
pub enum ParseError {
    /// The file could not be read.
    Io(String),
    /// The file is not a document of the expected form.
    Format(String),
}

/// The value of a [`ParseError`].
pub ghost enum ParseErrorView {
    Io(Seq<char>),
    Format(Seq<char>),
}

impl View for ParseError {
    type V = ParseErrorView;

    open spec fn view(&self) -> ParseErrorView {
        match self {
            ParseError::Io(cause) => ParseErrorView::Io(cause@),
            ParseError::Format(cause) => ParseErrorView::Format(cause@),
        }
    }
}

/// How a manifest file is written.
#[derive(Clone, Copy, PartialEq, Eq, Structural, Debug)]
pub enum ManifestFormat {
    /// A JSON object with a `projects` member.
    Json,
}

/// A file name under which a manifest is looked for, and the format of a
/// manifest of that name.
#[derive(Clone, Debug, PartialEq, Eq)]
pub struct Candidate {
    pub file_name: String,
    pub format: ManifestFormat,
}

/// The value of a [`Candidate`].
pub ghost struct CandidateView {
    pub file_name: Seq<char>,
    pub format: ManifestFormat,
}

impl View for Candidate {
    type V = CandidateView;

    open spec fn view(&self) -> CandidateView {
        CandidateView { file_name: self.file_name@, format: self.format }
    }
}

impl DeepView for Candidate {
    type V = CandidateView;

    open spec fn deep_view(&self) -> CandidateView {
        self@
    }
}

/// What reading a file gave.
#[derive(Clone, Debug, PartialEq, Eq)]
pub enum FileContent {
    Text(String),
    /// The file is there but could not be read; the cause as text.
    Unreadable(String),
}

/// The value of a [`FileContent`].
pub ghost enum FileContentView {
    Text(Seq<char>),
    Unreadable(Seq<char>),
}

impl View for FileContent {
    type V = FileContentView;

    open spec fn view(&self) -> FileContentView {
        match self {
            FileContent::Text(text) => FileContentView::Text(text@),
            FileContent::Unreadable(cause) => FileContentView::Unreadable(cause@),
        }
    }
}

/// A file that was found in a directory, by its name there.
#[derive(Clone, Debug, PartialEq, Eq)]
pub struct FileProbe {
    pub name: String,
    pub content: FileContent,
}

/// The value of a [`FileProbe`].
pub ghost struct FileProbeView {
    pub name: Seq<char>,
    pub content: FileContentView,
}

impl View for FileProbe {
    type V = FileProbeView;

    open spec fn view(&self) -> FileProbeView {
        FileProbeView { name: self.name@, content: self.content@ }
    }
}

impl DeepView for FileProbe {
    type V = FileProbeView;

    open spec fn deep_view(&self) -> FileProbeView {
        self@
    }
}

/// The recognized manifest file names, the preferred one first.
pub open spec fn candidates() -> Seq<CandidateView> {
    seq![CandidateView { file_name: ".meta"@, format: ManifestFormat::Json }]
}

/// The index of the first file at or behind `i` that is called `name`.
pub open spec fn file_named(files: Seq<FileProbeView>, name: Seq<char>, i: int) -> Option<int>
    decreases files.len() - i,
{
    if i < 0 || i >= files.len() {
        None
    } else if files[i].name == name {
        Some(i)
    } else {
        file_named(files, name, i + 1)
    }
}

/// The first of the candidates at or behind `c` that is among `files`: its
/// index in `table`, and the index of the file.
pub open spec fn first_present(
    files: Seq<FileProbeView>,
    table: Seq<CandidateView>,
    c: int,
) -> Option<(int, int)>
    decreases table.len() - c,
{
    if c < 0 || c >= table.len() {
        None
    } else {
        match file_named(files, table[c].file_name, 0) {
            Some(f) => Some((c, f)),
            None => first_present(files, table, c + 1),
        }
    }
}

/// The manifest of a directory that holds `files`: the path and format of
/// the most preferred candidate that is among them.
pub open spec fn located_manifest(dir: Seq<char>, files: Seq<FileProbeView>) -> Option<
    (Seq<char>, ManifestFormat),
> {
    match first_present(files, candidates(), 0) {
        Some((c, f)) => Some((join(dir, candidates()[c].file_name), candidates()[c].format)),
        None => None,
    }
}

impl ParseErrorView {
    /// The cause, as text.
    pub open spec fn cause(self) -> Seq<char> {
        match self {
            ParseErrorView::Io(cause) => cause,
            ParseErrorView::Format(cause) => cause,
        }
    }

    /// What is said of the failure.
    pub open spec fn message(self) -> Seq<char> {
        "failed to parse manifest: "@ + self.cause()
    }
}

impl ParseError {
    /// What is said of the failure.
    pub fn message(&self) -> (r: String)
        ensures
            r@ == self@.message(),
    {
        match self {
            ParseError::Io(cause) => String::from_str("failed to parse manifest: ").concat(
                cause.as_str(),
            ),
            ParseError::Format(cause) => String::from_str("failed to parse manifest: ").concat(
                cause.as_str(),
            ),
        }
    }
}

/// The cause reported for a document without a `projects` mapping.
pub open spec fn missing_projects_cause() -> Seq<char> {
    "No 'projects' key in .meta"@
}

/// The strings among the items of an array, in order.
pub open spec fn text_items(items: Seq<JsonView>) -> Seq<Seq<char>>
    decreases items.len(),
{
    if items.len() == 0 {
        Seq::empty()
    } else {
        let head = text_items(items.drop_last());
        match items.last() {
            JsonView::Text(text) => head.push(text),
            _ => head,
        }
    }
}

/// The remote of a structured entry: its `repo` member, where that is a string.
pub open spec fn entry_repo(fields: Seq<(Seq<char>, JsonView)>) -> Option<Seq<char>> {
    match member(fields, "repo"@) {
        Some(JsonView::Text(url)) => Some(url),
        _ => None,
    }
}

/// The tags of a structured entry: the strings of its `tags` member, where
/// that is an array.
pub open spec fn entry_tags(fields: Seq<(Seq<char>, JsonView)>) -> Seq<Seq<char>> {
    match member(fields, "tags"@) {
        Some(JsonView::Array(items)) => text_items(items),
        _ => Seq::empty(),
    }
}

/// The record that one entry of the `projects` mapping declares. A plain
/// string is the remote; an object gives `repo` and `tags`; any other value,
/// and any key that is no valid path, declares nothing.
pub open spec fn entry_record(key: Seq<char>, value: JsonView) -> Option<ProjectRecordView> {
    if !valid_path(key) {
        None
    } else {
        match value {
            JsonView::Text(url) => Some(
                ProjectRecordView { path: key, repo: Some(url), tags: Seq::empty() },
            ),
            JsonView::Object(fields) => Some(
                ProjectRecordView {
                    path: key,
                    repo: entry_repo(fields),
                    tags: entry_tags(fields),
                },
            ),
            _ => None,
        }
    }
}

/// The records that the entries of a `projects` mapping declare, in the
/// mapping's order.
pub open spec fn entry_records(entries: Seq<(Seq<char>, JsonView)>) -> Seq<ProjectRecordView>
    decreases entries.len(),
{
    if entries.len() == 0 {
        Seq::empty()
    } else {
        let head = entry_records(entries.drop_last());
        match entry_record(entries.last().0, entries.last().1) {
            Some(record) => head.push(record),
            None => head,
        }
    }
}

/// The records that a manifest document declares: those of its top-level
/// `projects` mapping. `None` where the document has no such mapping.
pub open spec fn declared_projects(doc: JsonView) -> Option<Seq<ProjectRecordView>> {
    match doc.get("projects"@) {
        Some(JsonView::Object(entries)) => Some(entry_records(entries)),
        _ => None,
    }
}

/// The records that a manifest text declares. `None` where the text is not
/// JSON or has no `projects` mapping.
pub open spec fn manifest_records(text: Seq<char>) -> Option<Seq<ProjectRecordView>> {
    match json_document(text) {
        Some(doc) => declared_projects(doc),
        None => None,
    }
}

/// Whether `records` can be the declarations of one manifest: every path is
/// valid, and no two are the same.
pub open spec fn sound_records(records: Seq<ProjectRecordView>) -> bool {
    &&& forall|i: int| 0 <= i < records.len() ==> (#[trigger] records[i]).valid()
    &&& forall|i: int, j: int|
        0 <= i < j < records.len() ==> (#[trigger] records[i]).path != (#[trigger] records[j]).path
}

/// Every record that entries declare has a valid path, and that path is
/// the key of one of the entries.
pub proof fn lemma_entry_records_from_keys(entries: Seq<(Seq<char>, JsonView)>)
    ensures
        forall|k: int|
            0 <= k < entry_records(entries).len() ==> {
                &&& (#[trigger] entry_records(entries)[k]).valid()
                &&& exists|i: int|
                    0 <= i < entries.len() && (#[trigger] entries[i]).0 == entry_records(
                        entries,
                    )[k].path
            },
    decreases entries.len(),
{
    if entries.len() > 0 {
        let head = entries.drop_last();
        lemma_entry_records_from_keys(head);
        assert forall|k: int| 0 <= k < entry_records(entries).len() implies {
            &&& (#[trigger] entry_records(entries)[k]).valid()
            &&& exists|i: int|
                0 <= i < entries.len() && (#[trigger] entries[i]).0 == entry_records(
                    entries,
                )[k].path
        } by {
            if k < entry_records(head).len() {
                assert(entry_records(entries)[k] == entry_records(head)[k]);
                let i = choose|i: int|
                    0 <= i < head.len() && (#[trigger] head[i]).0 == entry_records(head)[k].path;
                assert(entries[i] == head[i]);
            } else {
                assert(entries[entries.len() - 1].0 == entry_records(entries)[k].path);
            }
        }
    }
}

/// Entries with distinct keys declare records with distinct, valid paths.
pub proof fn lemma_entry_records_sound(entries: Seq<(Seq<char>, JsonView)>)
    requires
        forall|i: int, j: int|
            0 <= i < j < entries.len() ==> (#[trigger] entries[i]).0 != (#[trigger] entries[j]).0,
    ensures
        sound_records(entry_records(entries)),
    decreases entries.len(),
{
    lemma_entry_records_from_keys(entries);
    if entries.len() > 0 {
        let head = entries.drop_last();
        assert forall|i: int, j: int| 0 <= i < j < head.len() implies (#[trigger] head[i]).0 != (
        #[trigger] head[j]).0 by {
            assert(head[i] == entries[i]);
            assert(head[j] == entries[j]);
        }
        lemma_entry_records_sound(head);
        lemma_entry_records_from_keys(head);
        let records = entry_records(entries);
        assert forall|i: int, j: int| 0 <= i < j < records.len() implies (
        #[trigger] records[i]).path != (#[trigger] records[j]).path by {
            if j < entry_records(head).len() {
                assert(records[i] == entry_records(head)[i]);
                assert(records[j] == entry_records(head)[j]);
            } else {
                assert(records[i] == entry_records(head)[i]);
                let at = choose|at: int|
                    0 <= at < head.len() && (#[trigger] head[at]).0 == entry_records(
                        head,
                    )[i].path;
                assert(head[at] == entries[at]);
                assert(records[j].path == entries[entries.len() - 1].0);
            }
        }
    }
}

/// The value that a search finds is the value of one of the members.
pub proof fn lemma_member_is_a_member(members: Seq<(Seq<char>, JsonView)>, key: Seq<char>, i: int)
    requires
        member_from(members, key, i) is Some,
    ensures
        exists|k: int|
            0 <= k < members.len() && (#[trigger] members[k]).1 == member_from(
                members,
                key,
                i,
            )->0,
    decreases members.len() - i,
{
    if members[i].0 != key {
        lemma_member_is_a_member(members, key, i + 1);
    }
}

/// The projects that a manifest declares have valid paths; where no object
/// of the document holds a key twice, no two of them have the same path.
pub proof fn lemma_declared_projects_sound(doc: JsonView)
    requires
        declared_projects(doc) is Some,
    ensures
        forall|i: int|
            0 <= i < declared_projects(doc)->0.len() ==> (#[trigger] declared_projects(
                doc,
            )->0[i]).valid(),
        doc.distinct_keys() ==> sound_records(declared_projects(doc)->0),
{
    let top = doc->Object_0;
    let entries = member(top, "projects"@)->0->Object_0;
    lemma_entry_records_from_keys(entries);
    if doc.distinct_keys() {
        lemma_member_is_a_member(top, "projects"@, 0);
        let k = choose|k: int|
            0 <= k < top.len() && (#[trigger] top[k]).1 == member_from(top, "projects"@, 0)->0;
        assert(top[k].1.distinct_keys());
        lemma_entry_records_sound(entries);
    }
}

impl ProjectRecord {
    /// A record for `path`, unless `path` is empty or has a `..` segment.
    pub fn new(path: String, repo: Option<String>, tags: Vec<String>) -> (r: Option<ProjectRecord>)
        ensures
            r is Some <==> valid_path(path@),
            r matches Some(record) ==> record@ == (ProjectRecordView {
                path: path@,
                repo: repo.deep_view(),
                tags: tags.deep_view(),
            }),
    {
        if is_valid_path(path.as_str()) {
            Some(ProjectRecord { path, repo, tags })
        } else {
            None
        }
    }
}

impl Clone for ProjectRecord {
    fn clone(&self) -> (r: Self)
        ensures
            r@ == self@,
    {
        let repo = match &self.repo {
            Some(url) => Some(url.clone()),
            None => None,
        };
        let tags = copy_texts(&self.tags);
        ProjectRecord { path: self.path.clone(), repo, tags }
    }
}

/// A copy of a list of strings.
pub(crate) fn copy_texts(texts: &Vec<String>) -> (r: Vec<String>)
    ensures
        r.deep_view() == texts.deep_view(),
{
    let mut out: Vec<String> = Vec::new();
    let mut i: usize = 0;
    while i < texts.len()
        invariant
            i <= texts.len(),
            out.len() == i,
            forall|k: int| 0 <= k < i ==> out[k]@ == texts[k]@,
        decreases texts.len() - i,
    {
        out.push(texts[i].clone());
        i += 1;
    }
    assert(out.deep_view() =~= texts.deep_view());
    out
}

fn texts_of(items: &Vec<Json>) -> (r: Vec<String>)
    ensures
        r.deep_view() == text_items(items.deep_view()),
{
    let mut out: Vec<String> = Vec::new();
    let mut i: usize = 0;
    assert(items.deep_view().take(0) =~= Seq::empty());
    while i < items.len()
        invariant
            i <= items.len(),
            out.deep_view() == text_items(items.deep_view().take(i as int)),
        decreases items.len() - i,
    {
        let ghost before = out.deep_view();
        proof {
            let next = items.deep_view().take(i as int + 1);
            assert(next.drop_last() =~= items.deep_view().take(i as int));
            assert(next.last() == items[i as int]@);
        }
        match items[i].as_text() {
            Some(text) => {
                out.push(text.clone());
                assert(out.deep_view() =~= before.push(text@));
            },
            None => {},
        }
        i += 1;
    }
    assert(items.deep_view().take(items.len() as int) =~= items.deep_view());
    out
}

fn record_of_entry(entry: &Member) -> (r: Option<ProjectRecord>)
    ensures
        r.deep_view() == entry_record(entry@.0, entry@.1),
{
    if !is_valid_path(entry.key.as_str()) {
        return None;
    }
    match &entry.value {
        Json::Text(url) => {
            let tags: Vec<String> = Vec::new();
            assert(tags.deep_view() =~= Seq::empty());
            Some(ProjectRecord { path: entry.key.clone(), repo: Some(url.clone()), tags })
        },
        Json::Object(_) => {
            let repo = match entry.value.get("repo") {
                Some(found) => match found.as_text() {
                    Some(url) => Some(url.clone()),
                    None => None,
                },
                None => None,
            };
            let tags = match entry.value.get("tags") {
                Some(found) => match found.as_array() {
                    Some(items) => texts_of(items),
                    None => Vec::new(),
                },
                None => Vec::new(),
            };
            assert(tags.deep_view() =~= entry_tags(entry@.1->Object_0));
            Some(ProjectRecord { path: entry.key.clone(), repo, tags })
        },
        _ => None,
    }
}

/// The records that a parsed manifest declares.
pub fn projects_from_json(doc: &Json) -> (r: Result<Vec<ProjectRecord>, ParseError>)
    ensures
        match declared_projects(doc@) {
            Some(records) => r matches Ok(found) && found.deep_view() == records,
            None => r matches Err(e) && e@ == ParseErrorView::Format(missing_projects_cause()),
        },
        r matches Ok(found) ==> forall|i: int|
            0 <= i < found.len() ==> (#[trigger] found.deep_view()[i]).valid(),
        r matches Ok(found) ==> (doc@.distinct_keys() ==> sound_records(found.deep_view())),
{
    proof {
        if declared_projects(doc@) is Some {
            lemma_declared_projects_sound(doc@);
        }
    }
    let entries = match doc.get("projects") {
        Some(found) => found.as_object(),
        None => None,
    };
    match entries {
        Some(entries) => {
            let mut out: Vec<ProjectRecord> = Vec::new();
            let mut i: usize = 0;
            assert(entries.deep_view().take(0) =~= Seq::empty());
            assert(out.deep_view() =~= Seq::empty());
            while i < entries.len()
                invariant
                    i <= entries.len(),
                    out.deep_view() == entry_records(entries.deep_view().take(i as int)),
                decreases entries.len() - i,
            {
                let ghost before = out.deep_view();
                proof {
                    let next = entries.deep_view().take(i as int + 1);
                    assert(next.drop_last() =~= entries.deep_view().take(i as int));
                    assert(next.last() == entries[i as int]@);
                }
                match record_of_entry(&entries[i]) {
                    Some(record) => {
                        out.push(record);
                        assert(out.deep_view() =~= before.push(record@));
                    },
                    None => {},
                }
                i += 1;
            }
            assert(entries.deep_view().take(entries.len() as int) =~= entries.deep_view());
            Ok(out)
        },
        None => Err(ParseError::Format(String::from_str("No 'projects' key in .meta"))),
    }
}

/// The recognized manifest file names, the preferred one first.
pub fn manifest_candidates() -> (r: Vec<Candidate>)
    ensures
        r.deep_view() == candidates(),
{
    let mut table: Vec<Candidate> = Vec::new();
    table.push(Candidate { file_name: String::from_str(".meta"), format: ManifestFormat::Json });
    assert(table.deep_view() =~= candidates());
    table
}

fn find_file(files: &Vec<FileProbe>, name: &String) -> (r: Option<usize>)
    ensures
        match r {
            Some(f) => file_named(files.deep_view(), name@, 0) == Some(f as int) && f < files.len(),
            None => file_named(files.deep_view(), name@, 0) is None,
        },
{
    let mut i: usize = 0;
    while i < files.len()
        invariant
            i <= files.len(),
            file_named(files.deep_view(), name@, 0) == file_named(
                files.deep_view(),
                name@,
                i as int,
            ),
        decreases files.len() - i,
    {
        if files[i].name == *name {
            return Some(i);
        }
        i += 1;
    }
    None
}

/// The most preferred candidate of `table` that is among `files`.
pub(crate) fn pick_manifest(files: &Vec<FileProbe>, table: &Vec<Candidate>) -> (r: Option<
    (usize, usize),
>)
    ensures
        match r {
            Some((c, f)) => first_present(files.deep_view(), table.deep_view(), 0) == Some(
                (c as int, f as int),
            ) && c < table.len() && f < files.len(),
            None => first_present(files.deep_view(), table.deep_view(), 0) is None,
        },
{
    let mut c: usize = 0;
    while c < table.len()
        invariant
            c <= table.len(),
            first_present(files.deep_view(), table.deep_view(), 0) == first_present(
                files.deep_view(),
                table.deep_view(),
                c as int,
            ),
        decreases table.len() - c,
    {
        match find_file(files, &table[c].file_name) {
            Some(f) => {
                return Some((c, f));
            },
            None => {},
        }
        c += 1;
    }
    None
}

/// Whether a directory that holds `files` has a manifest, and if so its path
/// and format. The recognized names are tried in their fixed order.
pub fn find_manifest(dir: &str, files: &Vec<FileProbe>) -> (r: Option<(String, ManifestFormat)>)
    ensures
        match r {
            Some((path, format)) => located_manifest(dir@, files.deep_view()) == Some(
                (path@, format),
            ),
            None => located_manifest(dir@, files.deep_view()) is None,
        },
{
    let table = manifest_candidates();
    match pick_manifest(files, &table) {
        Some((c, _)) => Some((join_path(dir, table[c].file_name.as_str()), table[c].format)),
        None => None,
    }
}

/// The records that the content of a manifest file declares.
pub fn parse_manifest(content: &FileContent, format: ManifestFormat) -> (r: Result<
    Vec<ProjectRecord>,
    ParseError,
>)
    ensures
        match content@ {
            FileContentView::Unreadable(cause) => r matches Err(e) && e@ == ParseErrorView::Io(
                cause,
            ),
            FileContentView::Text(text) => match manifest_records(text) {
                Some(records) => r matches Ok(found) && found.deep_view() == records,
                None => r matches Err(e) && e@ is Format && (json_document(text) is Some ==> e@
                    == ParseErrorView::Format(missing_projects_cause())),
            },
        },
        r matches Ok(found) ==> sound_records(found.deep_view()),
{
    match content {
        FileContent::Unreadable(cause) => Err(ParseError::Io(cause.clone())),
        FileContent::Text(text) => match format {
            ManifestFormat::Json => parse_manifest_text(text.as_str()),
        },
    }
}

/// The records that a manifest text declares.
pub fn parse_manifest_text(text: &str) -> (r: Result<Vec<ProjectRecord>, ParseError>)
    ensures
        match manifest_records(text@) {
            Some(records) => r matches Ok(found) && found.deep_view() == records,
            None => r matches Err(e) && e@ is Format,
        },
        json_document(text@) is Some ==> (r matches Err(e) ==> e@ == ParseErrorView::Format(
            missing_projects_cause(),
        )),
        r matches Ok(found) ==> sound_records(found.deep_view()),
{
    match parse_document(text) {
        Ok(doc) => projects_from_json(&doc),
        Err(e) => Err(ParseError::Format(syntax_error_text(&e))),
    }
}

} // verus!
