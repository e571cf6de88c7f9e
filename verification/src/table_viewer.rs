use vstd::prelude::*;
use crate::selection::ListSelection;
use crate::text::{decimal, push_decimal};
use vstd::string::*;

verus! {

/// The table viewer: the tables of the database, the highlighted one, and the
/// columns and first rows of the table chosen for display.
#[derive(Clone, Debug)]
pub struct TableViewer {
    pub tables: Vec<String>,
    pub table_list_state: ListSelection,
    pub selected_table: Option<String>,
    pub schema: Vec<(String, String)>,
    pub data_preview: Vec<Vec<String>>,
    pub data_scroll_offset: usize,
}

impl TableViewer {
    /// The viewer after `navigate_up`.
    pub open spec fn after_navigate_up(self) -> TableViewer {
        TableViewer {
            table_list_state: ListSelection {
                selected: match self.table_list_state.selected {
                    Some(i) => if i > 0 { Some((i - 1) as usize) } else { Some(i) },
                    None => None,
                },
            },
            ..self
        }
    }

    /// The viewer after `navigate_down`.
    pub open spec fn after_navigate_down(self) -> TableViewer {
        TableViewer {
            table_list_state: ListSelection {
                selected: match self.table_list_state.selected {
                    Some(i) => if (i as int) < self.tables@.len() - 1 {
                        Some((i + 1) as usize)
                    } else {
                        Some(i)
                    },
                    None => None,
                },
            },
            ..self
        }
    }

    /// The viewer after `scroll_data_up`.
    pub open spec fn after_scroll_data_up(self) -> TableViewer {
        TableViewer {
            data_scroll_offset: if self.data_scroll_offset > 0 {
                (self.data_scroll_offset - 1) as usize
            } else {
                0
            },
            ..self
        }
    }

    /// The viewer after `scroll_data_down`.
    pub open spec fn after_scroll_data_down(self) -> TableViewer {
        TableViewer {
            data_scroll_offset: if (self.data_scroll_offset as int) < self.data_preview@.len() - 10 {
                (self.data_scroll_offset + 1) as usize
            } else {
                self.data_scroll_offset
            },
            ..self
        }
    }

    /// The viewer after listing the tables `t`.
    pub open spec fn after_refresh_tables(self, t: Vec<String>) -> TableViewer {
        TableViewer {
            tables: t,
            table_list_state: if t@.len() > 0 && self.table_list_state.selected is None {
                ListSelection { selected: Some(0usize) }
            } else {
                self.table_list_state
            },
            ..self
        }
    }

    /// The viewer after `select_table`.
    pub open spec fn after_select_table(self) -> TableViewer {
        match self.highlighted() {
            Some(i) => TableViewer { selected_table: Some(self.tables@[i]), ..self },
            None => self,
        }
    }

    /// Whether the viewer is as `new` makes it.
    pub open spec fn is_initial(self) -> bool {
        &&& self.tables@.len() == 0
        &&& self.table_list_state.selected is None
        &&& self.selected_table is None
        &&& self.schema@.len() == 0
        &&& self.data_preview@.len() == 0
        &&& self.data_scroll_offset == 0
    }

    /// A viewer with no tables, nothing highlighted or chosen.
    pub fn new() -> (v: Self)
        ensures
            v.is_initial(),
    {
        TableViewer {
            tables: Vec::new(),
            table_list_state: ListSelection::new(),
            selected_table: None,
            schema: Vec::new(),
            data_preview: Vec::new(),
            data_scroll_offset: 0,
        }
    }

    /// Takes the result of listing the database's tables. On success the
    /// list is replaced and, when it is not empty and nothing was
    /// highlighted, the first table is highlighted; on failure nothing
    /// changes and the error is handed back.
    pub fn refresh_tables(&mut self, listed: Result<Vec<String>, String>) -> (r: Result<(), String>)
        ensures
            match listed {
                Ok(t) => r is Ok && *final(self) == old(self).after_refresh_tables(t),
                Err(e) => r == Err::<(), String>(e) && *final(self) == *old(self),
            },
    {
        match listed {
            Ok(t) => {
                self.tables = t;
                if self.tables.len() > 0 && self.table_list_state.selected().is_none() {
                    self.table_list_state.select(Some(0));
                }
                Ok(())
            },
            Err(e) => Err(e),
        }
    }

    /// Highlights the table above, unless the first (or none) is highlighted.
    pub fn navigate_up(&mut self)
        ensures
            *final(self) == old(self).after_navigate_up(),
    {
        if let Some(i) = self.table_list_state.selected() {
            if i > 0 {
                self.table_list_state.select(Some(i - 1));
            }
        }
    }

    /// Highlights the table below, unless the last (or none) is highlighted.
    pub fn navigate_down(&mut self)
        ensures
            *final(self) == old(self).after_navigate_down(),
    {
        if let Some(i) = self.table_list_state.selected() {
            if i < self.tables.len().saturating_sub(1) {
                self.table_list_state.select(Some(i + 1));
            }
        }
    }

    /// Scrolls the rows shown one up, unless the first row is at the top.
    pub fn scroll_data_up(&mut self)
        ensures
            *final(self) == old(self).after_scroll_data_up(),
    {
        if self.data_scroll_offset > 0 {
            self.data_scroll_offset -= 1;
        }
    }

    /// Scrolls the rows shown one down, as long as ten rows remain below the
    /// top.
    pub fn scroll_data_down(&mut self)
        ensures
            *final(self) == old(self).after_scroll_data_down(),
    {
        if self.data_scroll_offset < self.data_preview.len().saturating_sub(10) {
            self.data_scroll_offset += 1;
        }
    }

    /// The index of the highlighted table, if it is a table of the list.
    pub open spec fn highlighted(&self) -> Option<int> {
        match self.table_list_state.selected {
            Some(i) => if i < self.tables@.len() { Some(i as int) } else { None },
            None => None,
        }
    }

    /// Chooses the highlighted table for display and returns its name: the
    /// caller then fetches its columns and hands them to `schema_fetched`.
    /// Returns `None`, changing nothing, when no table is highlighted.
    pub fn select_table(&mut self) -> (r: Option<String>)
        ensures
            *final(self) == old(self).after_select_table(),
            r == (match old(self).highlighted() {
                Some(i) => Some(old(self).tables@[i]),
                None => None,
            }),
    {
        if self.tables.len() == 0 {
            return None;
        }
        if let Some(i) = self.table_list_state.selected() {
            if i < self.tables.len() {
                let name = self.tables[i].clone();
                self.selected_table = Some(name.clone());
                return Some(name);
            }
        }
        None
    }

    /// Takes the columns of the chosen table. On success they replace the
    /// shown columns and `true` tells the caller to fetch the table's first
    /// rows for `preview_fetched`; on failure the columns and rows shown are
    /// cleared and `false` is returned.
    pub fn schema_fetched(&mut self, schema: Result<Vec<(String, String)>, String>) -> (fetch_rows: bool)
        ensures
            fetch_rows == schema is Ok,
            match schema {
                Ok(s) => *final(self) == (TableViewer { schema: s, ..*old(self) }),
                Err(_) => final(self).schema@.len() == 0 && final(self).data_preview@.len() == 0
                    && *final(self) == (TableViewer {
                    schema: final(self).schema,
                    data_preview: final(self).data_preview,
                    ..*old(self)
                }),
            },
    {
        match schema {
            Ok(s) => {
                self.schema = s;
                true
            },
            Err(_) => {
                self.schema = Vec::new();
                self.data_preview = Vec::new();
                false
            },
        }
    }

    /// Takes the first rows of the chosen table (none on failure) and scrolls
    /// to the top.
    pub fn preview_fetched(&mut self, data: Result<Vec<Vec<String>>, String>)
        ensures
            match data {
                Ok(d) => *final(self) == (TableViewer {
                    data_preview: d,
                    data_scroll_offset: 0,
                    ..*old(self)
                }),
                Err(_) => final(self).data_preview@.len() == 0 && *final(self) == (TableViewer {
                    data_preview: final(self).data_preview,
                    data_scroll_offset: 0,
                    ..*old(self)
                }),
            },
    {
        match data {
            Ok(d) => {
                self.data_preview = d;
            },
            Err(_) => {
                self.data_preview = Vec::new();
            },
        }
        self.data_scroll_offset = 0;
    }

    /// The line of the table list for the table `name`.
    pub fn table_label(name: &str) -> (t: String)
        ensures
            t@ == "📊 "@ + name@,
    {
        let mut t = String::from_str("📊 ");
        t.append(name);
        t
    }

    /// The title of the column list of the table `name`.
    pub fn schema_title(name: &str) -> (t: String)
        ensures
            t@ == "Schema: "@ + name@,
    {
        let mut t = String::from_str("Schema: ");
        t.append(name);
        t
    }

    /// The rows shown in an area `area_height` lines high: from the scroll
    /// offset on, as many as fit below the frame and the header (three
    /// lines), within the rows loaded. Returns the first index and the index
    /// after the last.
    pub fn visible_rows(&self, area_height: u16) -> (r: (usize, usize))
        ensures
            r.0 == min_int(self.data_scroll_offset as int, self.data_preview@.len() as int),
            r.1 == min_int(
                r.0 + (if area_height >= 3 { area_height - 3 } else { 0int }),
                self.data_preview@.len() as int,
            ),
    {
        let len = self.data_preview.len();
        let start = if self.data_scroll_offset < len { self.data_scroll_offset } else { len };
        let room = area_height.saturating_sub(3) as usize;
        let end = if room < len - start { start + room } else { len };
        (start, end)
    }

    /// The title of the rows shown: how many are shown of how many loaded.
    pub fn data_title(&self, shown: usize) -> (t: String)
        ensures
            t@ == "Data Preview (showing "@ + decimal(shown as nat) + " of "@ + decimal(
                self.data_preview@.len(),
            ) + " rows)"@,
    {
        let mut t = String::from_str("Data Preview (showing ");
        push_decimal(&mut t, shown);
        t.append(" of ");
        push_decimal(&mut t, self.data_preview.len());
        t.append(" rows)");
        t
    }
}

/// The largest scroll offset that scrolling down reaches for `n` rows: ten
/// rows before the last, or 0 for ten rows or fewer.
pub open spec fn scroll_limit(n: nat) -> int {
    if n >= 10 { n - 10 } else { 0 }
}

/// The smaller of two numbers.
pub open spec fn min_int(a: int, b: int) -> int {
    if a <= b { a } else { b }
}

} // verus!

verus! {

/// Scrolling down and then up again returns to the same view, when there was
/// room to scroll down.
pub proof fn lemma_scroll_down_then_up(v: TableViewer)
    requires
        (v.data_scroll_offset as int) < v.data_preview@.len() - 10,
    ensures
        v.after_scroll_data_down().after_scroll_data_up() == v,
{
    assert(v.data_preview.len() == v.data_preview@.len());
    let d = v.after_scroll_data_down();
    assert(d.data_scroll_offset == v.data_scroll_offset + 1);
    assert(d.after_scroll_data_up().data_scroll_offset == v.data_scroll_offset);
}

/// Scrolling never moves the first row shown past the point where the last
/// ten rows are shown: an offset within that bound stays within it whichever
/// way the rows are scrolled.
pub proof fn lemma_scroll_stays_in_bounds(v: TableViewer)
    requires
        v.data_scroll_offset as int <= scroll_limit(v.data_preview@.len()),
    ensures
        v.after_scroll_data_down().data_scroll_offset as int <= scroll_limit(v.data_preview@.len()),
        v.after_scroll_data_up().data_scroll_offset as int <= scroll_limit(v.data_preview@.len()),
{
}

/// Moving the highlight down and then up again returns to the same table,
/// when there was a table to move down to.
pub proof fn lemma_tables_down_then_up(v: TableViewer)
    requires
        v.table_list_state.selected matches Some(i) && i + 1 < v.tables@.len(),
    ensures
        v.after_navigate_down().after_navigate_up() == v,
{
    let i = v.table_list_state.selected->0;
    assert(v.tables.len() == v.tables@.len());
    let d = v.after_navigate_down();
    assert(d.table_list_state.selected == Some((i + 1) as usize));
    assert(d.tables == v.tables);
    assert(d.after_navigate_up().table_list_state == v.table_list_state);
}

/// Listing tables into a viewer that highlights none highlights the first
/// table, if there is one; a highlight already there stays.
pub proof fn lemma_refresh_highlights_first(v: TableViewer, t: Vec<String>)
    ensures
        v.table_list_state.selected is None && t@.len() > 0 ==> v.after_refresh_tables(
            t,
        ).highlighted() == Some(0int),
        v.table_list_state.selected is Some ==> v.after_refresh_tables(t).table_list_state
            == v.table_list_state,
{
}

} // verus!
