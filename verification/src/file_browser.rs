use vstd::prelude::*;
use vstd::string::*;
use vstd::seq_lib::to_multiset_build;
use vstd::seq_lib::to_multiset_insert;
use crate::selection::ListSelection;
use crate::paths::{opt_view, parent_path, lowercase_extension, parent_of, lowercase_extension_of};
use crate::text::{string_views, name_lt, str_less, str_equal, lemma_name_lt_irreflexive, lemma_name_lt_total, lemma_name_lt_transitive};

verus! {

/// One line of the file browser: a directory (possibly the parent, `..`) or a
/// data file.
#[derive(Debug)]
pub struct FileEntry {
    pub path: String,
    pub name: String,
    pub is_dir: bool,
    pub extension: Option<String>,
}

/// What a `FileEntry` holds, as plain values.
pub struct FileEntryView {
    pub path: Seq<char>,
    pub name: Seq<char>,
    pub is_dir: bool,
    pub extension: Option<Seq<char>>,
}

impl View for FileEntry {
    type V = FileEntryView;

    open spec fn view(&self) -> FileEntryView {
        FileEntryView {
            path: self.path@,
            name: self.name@,
            is_dir: self.is_dir,
            extension: opt_view(self.extension),
        }
    }
}

impl Clone for FileEntry {
    fn clone(&self) -> (r: Self)
        ensures
            r@ == self@,
    {
        FileEntry {
            path: self.path.clone(),
            name: self.name.clone(),
            is_dir: self.is_dir,
            extension: match &self.extension {
                Some(e) => Some(e.clone()),
                None => None,
            },
        }
    }
}

/// The icon in front of a line: a folder for a directory, a chart for an
/// Excel file, a page for anything else.
pub open spec fn entry_icon(e: FileEntryView) -> Seq<char> {
    if e.is_dir {
        "📁 "@
    } else if e.extension == Some("xlsx"@) || e.extension == Some("xls"@) {
        "📊 "@
    } else {
        "📄 "@
    }
}

impl FileEntry {
    /// The text of the line: its icon, then its name.
    pub fn label(&self) -> (t: String)
        ensures
            t@ == entry_icon(self@) + self.name@,
    {
        let icon = if self.is_dir {
            "📁 "
        } else {
            match &self.extension {
                Some(e) => {
                    if str_equal(e.as_str(), "xlsx") || str_equal(e.as_str(), "xls") {
                        "📊 "
                    } else {
                        "📄 "
                    }
                },
                None => "📄 ",
            }
        };
        let mut t = String::from_str(icon);
        t.append(self.name.as_str());
        t
    }
}

/// One entry of a directory as the file system lists it: its full path, its
/// file name and whether it is a directory.
#[derive(Clone, Debug)]
pub struct DirEntry {
    pub path: String,
    pub name: String,
    pub is_dir: bool,
}

/// What a `DirEntry` holds, as plain values.
pub struct DirEntryView {
    pub path: Seq<char>,
    pub name: Seq<char>,
    pub is_dir: bool,
}

impl View for DirEntry {
    type V = DirEntryView;

    open spec fn view(&self) -> DirEntryView {
        DirEntryView { path: self.path@, name: self.name@, is_dir: self.is_dir }
    }
}

/// The views of a sequence of file entries.
pub open spec fn entry_views(s: Seq<FileEntry>) -> Seq<FileEntryView> {
    s.map_values(|e: FileEntry| e@)
}

/// The views of a sequence of directory entries.
pub open spec fn dir_views(s: Seq<DirEntry>) -> Seq<DirEntryView> {
    s.map_values(|e: DirEntry| e@)
}

/// The extension the browser records for a listed entry: none for a
/// directory, the lowercase extension of the path for a file.
pub open spec fn listed_extension(e: DirEntryView) -> Option<Seq<char>> {
    if e.is_dir {
        None
    } else {
        lowercase_extension(e.path)
    }
}

/// Whether the browser shows a listed entry: every directory, and every file
/// whose lowercase extension is one of `extensions`.
pub open spec fn is_shown(e: DirEntryView, extensions: Seq<Seq<char>>) -> bool {
    e.is_dir || (listed_extension(e) matches Some(x) && extensions.contains(x))
}

/// The line the browser shows for a listed entry.
pub open spec fn shown_entry(e: DirEntryView) -> FileEntryView {
    FileEntryView { path: e.path, name: e.name, is_dir: e.is_dir, extension: listed_extension(e) }
}

/// The lines for the entries of `listing` that the browser shows, in the
/// order of the listing.
pub open spec fn shown_entries(listing: Seq<DirEntryView>, extensions: Seq<Seq<char>>) -> Seq<
    FileEntryView,
>
    decreases listing.len(),
{
    if listing.len() == 0 {
        Seq::empty()
    } else {
        let rest = shown_entries(listing.drop_last(), extensions);
        if is_shown(listing.last(), extensions) {
            rest.push(shown_entry(listing.last()))
        } else {
            rest
        }
    }
}

/// The order of the browser's lines: directories before files, and by name
/// within each group.
pub open spec fn entry_lt(a: FileEntryView, b: FileEntryView) -> bool {
    if a.is_dir != b.is_dir {
        a.is_dir
    } else {
        name_lt(a.name, b.name)
    }
}

/// Whether `s` is in the browser's order.
pub open spec fn entries_sorted(s: Seq<FileEntryView>) -> bool {
    forall|i: int, j: int| 0 <= i < j < s.len() ==> !entry_lt(#[trigger] s[j], #[trigger] s[i])
}

/// Whether two lines are of the same kind and have the same name, so that
/// neither comes before the other.
pub open spec fn same_key(a: FileEntryView, b: FileEntryView) -> bool {
    a.is_dir == b.is_dir && a.name == b.name
}

/// The lines of `s` of the same kind and name as `k`, in their order in `s`.
pub open spec fn same_key_entries(s: Seq<FileEntryView>, k: FileEntryView) -> Seq<FileEntryView> {
    s.filter(|x: FileEntryView| same_key(x, k))
}

/// Whether `out` keeps the relative order that lines of the same kind and name
/// have in `input`.
pub open spec fn keeps_tie_order(out: Seq<FileEntryView>, input: Seq<FileEntryView>) -> bool {
    forall|k: FileEntryView| #[trigger] same_key_entries(out, k) == same_key_entries(input, k)
}

/// The `..` line that leads to the parent of `dir`, if it has one.
pub open spec fn parent_entries(dir: Seq<char>) -> Seq<FileEntryView> {
    match parent_path(dir) {
        Some(p) => seq![FileEntryView { path: p, name: ".."@, is_dir: true, extension: None }],
        None => Seq::empty(),
    }
}

/// The order of lines is a strict weak order: irreflexive, transitive, and
/// two lines that neither precedes are of the same kind and name.
pub proof fn lemma_entry_lt_order(a: FileEntryView, b: FileEntryView, c: FileEntryView)
    ensures
        !entry_lt(a, a),
        entry_lt(a, b) && entry_lt(b, c) ==> entry_lt(a, c),
        entry_lt(a, b) ==> !entry_lt(b, a),
        !entry_lt(a, b) && !entry_lt(b, a) ==> a.is_dir == b.is_dir && a.name == b.name,
        entry_lt(a, c) ==> entry_lt(a, b) || entry_lt(b, c),
{
    lemma_name_lt_irreflexive(a.name);
    lemma_name_lt_total(a.name, b.name);
    lemma_name_lt_total(b.name, c.name);
    lemma_name_lt_total(a.name, c.name);
    if name_lt(a.name, b.name) && name_lt(b.name, c.name) {
        lemma_name_lt_transitive(a.name, b.name, c.name);
    }
    if name_lt(a.name, c.name) && !name_lt(a.name, b.name) && a.name != b.name {
        // b before a, a before c
        lemma_name_lt_transitive(b.name, a.name, c.name);
    }
}

proof fn lemma_insert_keeps_tie_order(
    before: Seq<FileEntryView>,
    p: int,
    e: FileEntryView,
    input: Seq<FileEntryView>,
)
    requires
        0 <= p <= before.len(),
        entries_sorted(before),
        forall|k: int| p <= k < before.len() ==> entry_lt(e, #[trigger] before[k]),
        keeps_tie_order(before, input),
    ensures
        keeps_tie_order(before.insert(p, e), input.push(e)),
{
    let after = before.insert(p, e);
    let left = before.subrange(0, p);
    let right = before.subrange(p, before.len() as int);
    assert(before =~= left + right);
    assert(after =~= left.push(e) + right);
    assert forall|k: FileEntryView| #[trigger] same_key_entries(after, k) == same_key_entries(
        input.push(e),
        k,
    ) by {
        let pred = |x: FileEntryView| same_key(x, k);
        assert(same_key_entries(after, k) == after.filter(pred));
        Seq::filter_distributes_over_add(left.push(e), right, pred);
        Seq::filter_distributes_over_add(left, right, pred);
        left.lemma_filter_push(e, pred);
        input.lemma_filter_push(e, pred);
        assert(same_key_entries(before, k) == same_key_entries(input, k));
        if pred(e) {
            assert forall|j: int| 0 <= j < right.len() implies !pred(#[trigger] right[j]) by {
                lemma_entry_lt_order(e, right[j], e);
                lemma_entry_lt_order(right[j], e, right[j]);
            }
            right.lemma_all_neg_filter_empty(pred);
            assert(right.filter(pred) =~= Seq::<FileEntryView>::empty());
            assert(left.filter(pred) + right.filter(pred) =~= left.filter(pred));
            assert(left.filter(pred).push(e) + right.filter(pred) =~= left.filter(pred).push(e));
        }
    }
}

fn entry_less(a: &FileEntry, b: &FileEntry) -> (r: bool)
    ensures
        r == entry_lt(a@, b@),
{
    if a.is_dir != b.is_dir {
        a.is_dir
    } else {
        str_less(a.name.as_str(), b.name.as_str())
    }
}

/// Where `e` goes in the sorted `out`: after every line that does not come
/// after it.
fn insert_position(out: &Vec<FileEntry>, e: &FileEntry) -> (p: usize)
    ensures
        p <= out@.len(),
        forall|k: int| 0 <= k < p ==> !entry_lt(e@, #[trigger] out@[k]@),
        p < out@.len() ==> entry_lt(e@, out@[p as int]@),
{
    let mut p: usize = 0;
    while p < out.len()
        invariant
            p <= out@.len(),
            forall|k: int| 0 <= k < p ==> !entry_lt(e@, #[trigger] out@[k]@),
        decreases out@.len() - p,
    {
        if entry_less(e, &out[p]) {
            return p;
        }
        p += 1;
    }
    p
}

/// Sorts `files` into the browser's order.
fn sort_entries(files: Vec<FileEntry>) -> (out: Vec<FileEntry>)
    ensures
        entries_sorted(entry_views(out@)),
        entry_views(out@).to_multiset() == entry_views(files@).to_multiset(),
        keeps_tie_order(entry_views(out@), entry_views(files@)),
{
    let ghost input = files@;
    let ghost inviews = entry_views(files@);
    let mut out: Vec<FileEntry> = Vec::new();
    proof {
        assert(inviews.take(0) =~= Seq::<FileEntryView>::empty());
        assert(entry_views(out@) =~= Seq::<FileEntryView>::empty());
        assert(inviews.take(inviews.len() as int) =~= inviews);
        assert forall|k: FileEntryView| #[trigger] same_key_entries(entry_views(out@), k)
            == same_key_entries(inviews.take(0), k) by {
            reveal(Seq::filter);
        }
    }
    for e in it: files.into_iter()
        invariant
            it.seq() == input,
            inviews == entry_views(input),
            entries_sorted(entry_views(out@)),
            entry_views(out@).to_multiset() == inviews.take(it.index() as int).to_multiset(),
            keeps_tie_order(entry_views(out@), inviews.take(it.index() as int)),
    {
        let ghost before = entry_views(out@);
        let ghost i = it.index();
        let p = insert_position(&out, &e);
        out.insert(p, e);
        proof {
            let after = entry_views(out@);
            assert(after =~= before.insert(p as int, e@));
            to_multiset_insert(before, p as int, e@);
            assert(inviews.take(i + 1) =~= inviews.take(i).push(e@));
            to_multiset_build(inviews.take(i), e@);
            assert forall|k: int| p <= k < before.len() implies entry_lt(e@, #[trigger] before[k]) by {
                lemma_entry_lt_order(e@, before[k], before[p as int]);
                if k > p {
                    assert(!entry_lt(before[k], before[p as int]));
                }
            }
            lemma_insert_keeps_tie_order(before, p as int, e@, inviews.take(i));
            assert forall|a: int, b: int| 0 <= a < b < after.len() implies !entry_lt(
                #[trigger] after[b],
                #[trigger] after[a],
            ) by {
                if a < p && b == p {
                } else if a == p && b > p {
                    lemma_entry_lt_order(before[b - 1], e@, before[p as int]);
                    if b - 1 > p {
                        assert(!entry_lt(before[b - 1], before[p as int]));
                    }
                    lemma_entry_lt_order(before[p as int], before[p as int], before[p as int]);
                } else if a < p && b > p {
                    assert(after[a] == before[a]);
                    assert(after[b] == before[b - 1]);
                } else if b < p {
                } else {
                    assert(after[a] == before[a - 1]);
                    assert(after[b] == before[b - 1]);
                }
            }
        }
    }
    out
}

} // verus!

verus! {

/// Whether `ext` is one of `extensions`.
fn has_extension(extensions: &Vec<String>, ext: &str) -> (r: bool)
    ensures
        r == string_views(extensions@).contains(ext@),
{
    let mut i: usize = 0;
    while i < extensions.len()
        invariant
            i <= extensions@.len(),
            forall|k: int| 0 <= k < i ==> #[trigger] extensions@[k]@ != ext@,
        decreases extensions@.len() - i,
    {
        if str_equal(extensions[i].as_str(), ext) {
            proof {
                assert(string_views(extensions@)[i as int] == ext@);
            }
            return true;
        }
        i += 1;
    }
    proof {
        assert forall|k: int| 0 <= k < string_views(extensions@).len() implies #[trigger] string_views(
            extensions@,
        )[k] != ext@ by {
            assert(string_views(extensions@)[k] == extensions@[k]@);
        }
    }
    false
}

/// The lines for the entries of `listing` that the browser shows, in the
/// order of the listing.
fn shown_files(listing: Vec<DirEntry>, extensions: &Vec<String>) -> (files: Vec<FileEntry>)
    ensures
        entry_views(files@) == shown_entries(dir_views(listing@), string_views(extensions@)),
{
    let ghost input = listing@;
    let ghost dv = dir_views(listing@);
    let ghost exts = string_views(extensions@);
    let mut files: Vec<FileEntry> = Vec::new();
    proof {
        assert(dv.take(0) =~= Seq::<DirEntryView>::empty());
        assert(entry_views(files@) =~= Seq::<FileEntryView>::empty());
        assert(dv.take(dv.len() as int) =~= dv);
    }
    for d in it: listing.into_iter()
        invariant
            it.seq() == input,
            dv == dir_views(input),
            exts == string_views(extensions@),
            entry_views(files@) == shown_entries(dv.take(it.index() as int), exts),
    {
        let ghost i = it.index();
        let ghost before = entry_views(files@);
        let extension = if d.is_dir {
            None
        } else {
            lowercase_extension_of(d.path.as_str())
        };
        let keep = d.is_dir || match &extension {
            Some(x) => has_extension(extensions, x.as_str()),
            None => false,
        };
        let ghost dview = d@;
        if keep {
            files.push(FileEntry { path: d.path, name: d.name, is_dir: d.is_dir, extension });
        }
        proof {
            assert(dv.take(i + 1).drop_last() =~= dv.take(i));
            assert(dv.take(i + 1).last() == dview);
            assert(opt_view(extension) == listed_extension(dview));
            assert(keep == is_shown(dview, exts));
            if keep {
                assert(entry_views(files@) =~= before.push(shown_entry(dview)));
            } else {
                assert(entry_views(files@) =~= before);
            }
        }
    }
    files
}

/// The browser's lines after listing `dir`: the `..` line where `dir` has a
/// parent, then the shown entries of the listing (none when the directory
/// could not be read) in the browser's order, entries of the same kind and
/// name keeping their order in the listing.
pub open spec fn listed_lines(
    dir: Seq<char>,
    listing: Option<Seq<DirEntryView>>,
    extensions: Seq<Seq<char>>,
    lines: Seq<FileEntryView>,
) -> bool {
    let parent = parent_entries(dir);
    let shown = match listing {
        Some(l) => shown_entries(l, extensions),
        None => Seq::empty(),
    };
    let rest = lines.skip(parent.len() as int);
    &&& parent.len() <= lines.len()
    &&& lines.take(parent.len() as int) == parent
    &&& entries_sorted(rest)
    &&& rest.to_multiset() == shown.to_multiset()
    &&& keeps_tie_order(rest, shown)
}

/// The views of an optional listing.
pub open spec fn listing_view(listing: Option<Vec<DirEntry>>) -> Option<Seq<DirEntryView>> {
    match listing {
        Some(l) => Some(dir_views(l@)),
        None => None,
    }
}

/// The file browser: the directory being shown, its lines, the highlighted
/// line and the extensions of the files it shows.
#[derive(Clone, Debug)]
pub struct FileBrowser {
    pub current_dir: String,
    pub entries: Vec<FileEntry>,
    pub state: ListSelection,
    pub filter_extensions: Vec<String>,
}

impl FileBrowser {
    /// The browser after `navigate_up`.
    pub open spec fn after_navigate_up(self) -> FileBrowser {
        FileBrowser {
            state: ListSelection {
                selected: match self.state.selected {
                    Some(i) => if i > 0 { Some((i - 1) as usize) } else { Some(i) },
                    None => None,
                },
            },
            ..self
        }
    }

    /// The browser after `navigate_down`.
    pub open spec fn after_navigate_down(self) -> FileBrowser {
        FileBrowser {
            state: ListSelection {
                selected: match self.state.selected {
                    Some(i) => if (i as int) < self.entries@.len() - 1 {
                        Some((i + 1) as usize)
                    } else {
                        Some(i)
                    },
                    None => None,
                },
            },
            ..self
        }
    }

    /// Whether the highlighted line is a directory.
    pub open spec fn directory_highlighted(self) -> bool {
        self.highlighted() matches Some(i) && self.entries@[i].is_dir
    }

    /// The highlighted line, when it is a file.
    pub open spec fn selected_file_entry(self) -> Option<FileEntry> {
        match self.highlighted() {
            Some(i) => if !self.entries@[i].is_dir { Some(self.entries@[i]) } else { None },
            None => None,
        }
    }

    /// The browser after `enter_directory`.
    pub open spec fn after_enter_directory(self) -> FileBrowser {
        if self.directory_highlighted() {
            FileBrowser { current_dir: self.entries@[self.highlighted()->0].path, ..self }
        } else {
            self
        }
    }

    /// The views of the browser's lines.
    pub open spec fn lines(&self) -> Seq<FileEntryView> {
        entry_views(self.entries@)
    }

    /// A browser of `current_dir`, whose listing is `listing` (`None` when the
    /// directory could not be read), showing directories and CSV and Excel
    /// files, with the first line highlighted.
    pub fn new(current_dir: String, listing: Option<Vec<DirEntry>>) -> (b: Self)
        ensures
            b.current_dir@ == current_dir@,
            string_views(b.filter_extensions@) == seq!["csv"@, "xlsx"@, "xls"@],
            listed_lines(
                current_dir@,
                listing_view(listing),
                seq!["csv"@, "xlsx"@, "xls"@],
                b.lines(),
            ),
            b.state.selected == Some(0usize),
    {
        let mut filter_extensions: Vec<String> = Vec::new();
        filter_extensions.push(String::from_str("csv"));
        filter_extensions.push(String::from_str("xlsx"));
        filter_extensions.push(String::from_str("xls"));
        proof {
            reveal_strlit("csv");
            reveal_strlit("xlsx");
            reveal_strlit("xls");
            assert(string_views(filter_extensions@) =~= seq!["csv"@, "xlsx"@, "xls"@]);
        }
        let mut browser = FileBrowser {
            current_dir,
            entries: Vec::new(),
            state: ListSelection::new(),
            filter_extensions,
        };
        browser.refresh_entries(listing);
        browser.state.select(Some(0));
        browser
    }

    /// Rebuilds the lines from `listing`, the entries of the current
    /// directory (`None` when it could not be read), and highlights the first
    /// line, or none when there are no lines.
    pub fn refresh_entries(&mut self, listing: Option<Vec<DirEntry>>)
        ensures
            final(self).current_dir == old(self).current_dir,
            final(self).filter_extensions == old(self).filter_extensions,
            listed_lines(
                old(self).current_dir@,
                listing_view(listing),
                string_views(old(self).filter_extensions@),
                final(self).lines(),
            ),
            final(self).state.selected == (if final(self).entries@.len() == 0 {
                None
            } else {
                Some(0usize)
            }),
    {
        let ghost dir = self.current_dir@;
        let ghost exts = string_views(self.filter_extensions@);
        let ghost parent = parent_entries(dir);
        self.entries.clear();
        if let Some(parent_dir) = parent_of(self.current_dir.as_str()) {
            let up = FileEntry {
                path: parent_dir,
                name: String::from_str(".."),
                is_dir: true,
                extension: None,
            };
            proof {
                reveal_strlit("..");
            }
            self.entries.push(up);
        }
        proof {
            assert(self.lines() =~= parent);
        }
        let ghost shown = match listing_view(listing) {
            Some(l) => shown_entries(l, exts),
            None => Seq::empty(),
        };
        let mut files = match listing {
            Some(l) => sort_entries(shown_files(l, &self.filter_extensions)),
            None => Vec::new(),
        };
        proof {
            if listing is None {
                assert(entry_views(files@) =~= Seq::<FileEntryView>::empty());
                assert(entries_sorted(entry_views(files@)));
                assert forall|k: FileEntryView| #[trigger] same_key_entries(entry_views(files@), k)
                    == same_key_entries(shown, k) by {
                    reveal(Seq::filter);
                }
            }
        }
        let ghost rest = entry_views(files@);
        self.entries.append(&mut files);
        proof {
            assert(self.lines() =~= parent + rest);
            assert(self.lines().take(parent.len() as int) =~= parent);
            assert(self.lines().skip(parent.len() as int) =~= rest);
        }
        if self.entries.len() == 0 {
            self.state.select(None);
        } else {
            self.state.select(Some(0));
        }
    }

    /// Highlights the line above, unless the first line (or none) is
    /// highlighted.
    pub fn navigate_up(&mut self)
        ensures
            *final(self) == old(self).after_navigate_up(),
    {
        if let Some(i) = self.state.selected() {
            if i > 0 {
                self.state.select(Some(i - 1));
            }
        }
    }

    /// Highlights the line below, unless the last line (or none) is
    /// highlighted.
    pub fn navigate_down(&mut self)
        ensures
            *final(self) == old(self).after_navigate_down(),
    {
        if let Some(i) = self.state.selected() {
            if i < self.entries.len().saturating_sub(1) {
                self.state.select(Some(i + 1));
            }
        }
    }

    /// The index of the highlighted line, if it is a line of the browser.
    pub open spec fn highlighted(&self) -> Option<int> {
        match self.state.selected {
            Some(i) => if i < self.entries@.len() { Some(i as int) } else { None },
            None => None,
        }
    }

    /// Where the highlighted line is a directory, makes it the current
    /// directory and returns `true`: the caller then lists it and hands the
    /// listing to `refresh_entries`. Otherwise changes nothing and returns
    /// `false`.
    pub fn enter_directory(&mut self) -> (entered: bool)
        ensures
            entered == old(self).directory_highlighted(),
            *final(self) == old(self).after_enter_directory(),
    {
        if let Some(i) = self.state.selected() {
            if i < self.entries.len() {
                if self.entries[i].is_dir {
                    self.current_dir = self.entries[i].path.clone();
                    return true;
                }
            }
        }
        false
    }

    /// The title of the browser: the directory shown.
    pub fn title(&self) -> (t: String)
        ensures
            t@ == "File Browser - "@ + self.current_dir@,
    {
        let mut t = String::from_str("File Browser - ");
        t.append(self.current_dir.as_str());
        t
    }

    /// The highlighted line, when it is a file.
    pub fn get_selected_file(&self) -> (r: Option<&FileEntry>)
        ensures
            r is Some == self.selected_file_entry() is Some,
            r is Some ==> *r->0 == self.selected_file_entry()->0,
    {
        if let Some(i) = self.state.selected() {
            if i < self.entries.len() {
                if !self.entries[i].is_dir {
                    return Some(&self.entries[i]);
                }
            }
        }
        None
    }
}

} // verus!

verus! {

proof fn lemma_same_key_classes_unique(a: Seq<FileEntryView>, b: Seq<FileEntryView>)
    requires
        entries_sorted(a),
        entries_sorted(b),
        forall|k: FileEntryView| #[trigger] same_key_entries(a, k) == same_key_entries(b, k),
    ensures
        a == b,
    decreases a.len(),
{
    if a.len() == 0 || b.len() == 0 {
        if a.len() != b.len() {
            let (s, t) = if a.len() == 0 { (b, a) } else { (a, b) };
            let k = s[0];
            let p = |y: FileEntryView| same_key(y, k);
            s.lemma_filter_contains(p, 0);
            assert(t.filter(p).len() == 0) by {
                reveal(Seq::filter);
            }
            assert(same_key_entries(s, k) == same_key_entries(t, k));
            assert(false);
        }
        assert(a =~= b);
    } else {
        let x = a[0];
        let y = b[0];
        // the first lines have the same kind and name
        assert(!entry_lt(x, y)) by {
            if entry_lt(x, y) {
                let p = |z: FileEntryView| same_key(z, x);
                a.lemma_filter_contains(p, 0);
                assert(same_key_entries(a, x) == same_key_entries(b, x));
                b.lemma_filter_contains_rev(p, x);
                let j = choose|j: int| 0 <= j < b.len() && b[j] == x;
                lemma_entry_lt_order(x, y, x);
                if j > 0 {
                    assert(!entry_lt(b[j], b[0]));
                }
            }
        }
        assert(!entry_lt(y, x)) by {
            if entry_lt(y, x) {
                let p = |z: FileEntryView| same_key(z, y);
                b.lemma_filter_contains(p, 0);
                assert(same_key_entries(a, y) == same_key_entries(b, y));
                a.lemma_filter_contains_rev(p, y);
                let j = choose|j: int| 0 <= j < a.len() && a[j] == y;
                lemma_entry_lt_order(y, x, y);
                if j > 0 {
                    assert(!entry_lt(a[j], a[0]));
                }
            }
        }
        lemma_entry_lt_order(x, y, x);
        assert(a =~= seq![x] + a.drop_first());
        assert(b =~= seq![y] + b.drop_first());
        let px = |z: FileEntryView| same_key(z, x);
        a.drop_first().lemma_filter_prepend(x, px);
        b.drop_first().lemma_filter_prepend(y, px);
        assert(same_key_entries(a, x) == same_key_entries(b, x));
        assert(a.filter(px)[0] == x);
        assert(b.filter(px)[0] == y);
        assert(x == y);
        assert forall|k: FileEntryView| #[trigger] same_key_entries(a.drop_first(), k)
            == same_key_entries(b.drop_first(), k) by {
            let pk = |z: FileEntryView| same_key(z, k);
            a.drop_first().lemma_filter_prepend(x, pk);
            b.drop_first().lemma_filter_prepend(y, pk);
            assert(same_key_entries(a, k) == same_key_entries(b, k));
            let head = if pk(x) { seq![x] } else { Seq::<FileEntryView>::empty() };
            assert(a.drop_first().filter(pk) =~= (head + a.drop_first().filter(pk)).skip(
                head.len() as int,
            ));
            assert(b.drop_first().filter(pk) =~= (head + b.drop_first().filter(pk)).skip(
                head.len() as int,
            ));
        }
        assert(entries_sorted(a.drop_first())) by {
            assert forall|i: int, j: int| 0 <= i < j < a.drop_first().len() implies !entry_lt(
                #[trigger] a.drop_first()[j],
                #[trigger] a.drop_first()[i],
            ) by {
                assert(a.drop_first()[j] == a[j + 1]);
                assert(a.drop_first()[i] == a[i + 1]);
            }
        }
        assert(entries_sorted(b.drop_first())) by {
            assert forall|i: int, j: int| 0 <= i < j < b.drop_first().len() implies !entry_lt(
                #[trigger] b.drop_first()[j],
                #[trigger] b.drop_first()[i],
            ) by {
                assert(b.drop_first()[j] == b[j + 1]);
                assert(b.drop_first()[i] == b[i + 1]);
            }
        }
        lemma_same_key_classes_unique(a.drop_first(), b.drop_first());
    }
}

/// The browser's listing is determined by what it lists: two line lists in
/// the browser's order that both keep the order of tied lines of the same
/// input are the same list.
pub proof fn lemma_listing_order_unique(
    a: Seq<FileEntryView>,
    b: Seq<FileEntryView>,
    input: Seq<FileEntryView>,
)
    requires
        entries_sorted(a),
        entries_sorted(b),
        keeps_tie_order(a, input),
        keeps_tie_order(b, input),
    ensures
        a == b,
{
    assert forall|k: FileEntryView| #[trigger] same_key_entries(a, k) == same_key_entries(b, k) by {
        assert(same_key_entries(a, k) == same_key_entries(input, k));
        assert(same_key_entries(b, k) == same_key_entries(input, k));
    }
    lemma_same_key_classes_unique(a, b);
}

} // verus!

verus! {

proof fn lemma_shown_entries_are_shown(listing: Seq<DirEntryView>, extensions: Seq<Seq<char>>)
    ensures
        forall|i: int| 0 <= i < shown_entries(listing, extensions).len() ==> {
            let e = #[trigger] shown_entries(listing, extensions)[i];
            e.is_dir || (e.extension matches Some(x) && extensions.contains(x))
        },
    decreases listing.len(),
{
    if listing.len() > 0 {
        lemma_shown_entries_are_shown(listing.drop_last(), extensions);
    }
}

/// After a listing, every line that the listing contributes is a directory
/// or a file whose extension is one of the browser's extensions.
pub proof fn lemma_listed_lines_are_shown(
    dir: Seq<char>,
    listing: Option<Seq<DirEntryView>>,
    extensions: Seq<Seq<char>>,
    lines: Seq<FileEntryView>,
)
    requires
        listed_lines(dir, listing, extensions, lines),
    ensures
        forall|i: int| parent_entries(dir).len() <= i < lines.len() ==> {
            let e = #[trigger] lines[i];
            e.is_dir || (e.extension matches Some(x) && extensions.contains(x))
        },
{
    let shown = match listing {
        Some(l) => shown_entries(l, extensions),
        None => Seq::<FileEntryView>::empty(),
    };
    if let Some(l) = listing {
        lemma_shown_entries_are_shown(l, extensions);
    }
    let n = parent_entries(dir).len() as int;
    let rest = lines.skip(n);
    assert forall|i: int| n <= i < lines.len() implies {
        let e = #[trigger] lines[i];
        e.is_dir || (e.extension matches Some(x) && extensions.contains(x))
    } by {
        assert(rest[i - n] == lines[i]);
        assert(rest.contains(lines[i]));
        vstd::seq_lib::to_multiset_contains(rest, lines[i]);
        vstd::seq_lib::to_multiset_contains(shown, lines[i]);
        let j = choose|j: int| 0 <= j < shown.len() && shown[j] == lines[i];
    }
}

/// After a listing, the directories of the listing come before its files.
pub proof fn lemma_directories_first(
    dir: Seq<char>,
    listing: Option<Seq<DirEntryView>>,
    extensions: Seq<Seq<char>>,
    lines: Seq<FileEntryView>,
)
    requires
        listed_lines(dir, listing, extensions, lines),
    ensures
        forall|i: int, j: int|
            parent_entries(dir).len() <= i < j < lines.len() && #[trigger] lines[j].is_dir
                ==> #[trigger] lines[i].is_dir,
{
    let n = parent_entries(dir).len() as int;
    let rest = lines.skip(n);
    assert forall|i: int, j: int|
        n <= i < j < lines.len() && #[trigger] lines[j].is_dir implies #[trigger] lines[i].is_dir by {
        assert(rest[i - n] == lines[i]);
        assert(rest[j - n] == lines[j]);
        assert(!entry_lt(rest[j - n], rest[i - n]));
    }
}

/// Moving the highlight down and then up again returns to the same line,
/// when there was a line to move down to.
pub proof fn lemma_browser_down_then_up(b: FileBrowser)
    requires
        b.state.selected matches Some(i) && i + 1 < b.entries@.len(),
    ensures
        b.after_navigate_down().after_navigate_up() == b,
{
    let i = b.state.selected->0;
    assert(b.entries.len() == b.entries@.len());
    let d = b.after_navigate_down();
    assert(d.state.selected == Some((i + 1) as usize));
    assert(d.entries == b.entries);
    assert(d.after_navigate_up().state == b.state);
}

/// Moving the highlight keeps it on a line of the browser.
pub proof fn lemma_browser_highlight_stays(b: FileBrowser)
    requires
        b.state.selected matches Some(i) && i < b.entries@.len(),
    ensures
        b.after_navigate_up().state.selected matches Some(i) && i < b.entries@.len(),
        b.after_navigate_down().state.selected matches Some(i) && i < b.entries@.len(),
{
}

} // verus!
